//! The hub's state: its database and its plugins.

use vstd::prelude::*;

use crate::db::{with_result, Db, DbModel};
use crate::notification_bus::EventModel;
use crate::outside::engine_of;
use crate::plugin::loader::LoadedModel;
use crate::plugin::registry::{
    all_succeeded, dispatch_detail, enable_outcome, entry_models, preloaded, write_back, Dispatch,
    DispatchEntry, EntryModel, Registry, RegistryError, RegistryModel,
};

verus! {

/// What the hub holds.
pub ghost struct AppModel {
    pub db: DbModel,
    pub plugins: RegistryModel,
}

/// The hub.
pub struct App {
    pub db: Db,
    pub plugins: Registry,
}

impl View for App {
    type V = AppModel;

    open spec fn view(&self) -> AppModel {
        AppModel { db: self.db@, plugins: self.plugins@ }
    }
}

/// The hub after a dispatch of `event` ended with `entries`: every call is
/// recorded, and the outcome stands in the event's row.
pub open spec fn finished(app: AppModel, event: EventModel, entries: Seq<EntryModel>) -> AppModel {
    AppModel {
        db: with_result(
            app.db,
            event.log_key(),
            all_succeeded(entries),
            dispatch_detail(entries),
        ),
        plugins: app.plugins.recorded(entries),
    }
}

impl App {
    /// The database and the registry are well-formed.
    pub open spec fn wf(self) -> bool {
        self.db.wf() && self.plugins.wf()
    }

    /// A hub over a database, without plugins.
    pub fn new(db: Db, engine: wasmtime::Engine) -> (r: App)
        requires
            db.wf(),
        ensures
            r.wf(),
            r@.db == db@,
            r@.plugins.engine == engine,
            r@.plugins.at_home(),
            r@.plugins.loaded == Map::<i64, LoadedModel>::empty(),
            r@.plugins.log.len() == 0,
            r@.plugins.dispatched == 0,
            r@.plugins.pending.len() == 0,
    {
        App { db, plugins: Registry::empty(engine) }
    }

    /// Loads every enabled plugin.
    pub fn init(&mut self)
        requires
            old(self).wf(),
        ensures
            final(self).wf(),
            final(self)@.plugins == (RegistryModel {
                loaded: final(self)@.plugins.loaded,
                ..old(self)@.plugins
            }),
            final(self)@.db == (DbModel { plugins: final(self)@.db.plugins, ..old(self)@.db }),
            forall|id: i64| #[trigger]
                preloaded(
                    old(self)@.plugins.engine,
                    (old(self)@.plugins.loaded, old(self)@.db),
                    (final(self)@.plugins.loaded, final(self)@.db),
                    id,
                ),
            old(self)@.plugins.at_home() ==> final(self)@.plugins.at_home(),
    {
        self.plugins.init(&mut self.db);
    }

    /// Loads a row that was enabled.
    pub fn enable_plugin(&mut self, plugin_row_id: i64) -> (r: Result<(), RegistryError>)
        requires
            old(self).wf(),
        ensures
            final(self).wf(),
            enable_outcome(
                (old(self)@.plugins, old(self)@.db),
                plugin_row_id,
                r,
                (final(self)@.plugins, final(self)@.db),
            ),
            r is Ok ==> engine_of(final(self)@.plugins.loaded[plugin_row_id].module) == old(
                self,
            )@.plugins.engine,
            old(self)@.plugins.at_home() ==> final(self)@.plugins.at_home(),
    {
        self.plugins.enable_plugin(&mut self.db, plugin_row_id)
    }

    /// Takes in what came of a dispatch: every call is recorded, and the
    /// outcome is written back to the event's row.
    pub fn finish_dispatch(&mut self, dispatch: &Dispatch, entries: &Vec<DispatchEntry>)
        requires
            old(self).wf(),
        ensures
            final(self).wf(),
            final(self)@ == finished(old(self)@, dispatch.event@, entry_models(entries@)),
    {
        self.plugins.record_all(entries);
        write_back(&mut self.db, &dispatch.event, entries);
    }
}

/// Failures have no further effect: whatever came of a dispatch, no plugin is
/// disabled or unloaded, nothing is sent again, and no setting or record
/// changes.
pub proof fn law_failures_are_only_reported(
    app: AppModel,
    event: EventModel,
    entries: Seq<EntryModel>,
)
    ensures
        ({
            let after = finished(app, event, entries);
            &&& after.plugins.loaded == app.plugins.loaded
            &&& after.plugins.pending == app.plugins.pending
            &&& after.db.plugins == app.db.plugins
            &&& after.db.settings == app.db.settings
            &&& after.db.data == app.db.data
        }),
{
}

} // verus!
