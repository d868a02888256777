//! The registry: which plugins are loaded, whom an event goes to, and what came
//! of each call.

use std::collections::VecDeque;
use vstd::prelude::*;
use vstd::string::*;

use crate::db::{Db, DbModel, PluginModel};
use crate::notification_bus::{Event, EventModel};
use crate::outside::{binary_of, engine_of, toml_document};
use crate::table::{in_order, Table};
use crate::text::{
    chars_of, contains_text, decimal_i64, joined, parse_u64, same_text, spelled_u64, texts, trim,
    trimmed, truncate, truncated,
};

use super::loader::{load, load_outcome, LoadError, LoadedModel, LoadedPlugin};
use super::manifest::{accepted, Manifest, ManifestModel};

verus! {

broadcast use vstd::seq_lib::group_seq_properties;

/// How many results the dispatch log keeps.
pub const DISPATCH_LOG_CAP: usize = 1000;

/// The result of a call that returned 0.
pub const RESULT_SUCCESS: &'static str = "success";

/// The fuel of one call, where the settings give none.
pub const DEFAULT_FUEL_LIMIT: u64 = 1_000_000;

/// The milliseconds of one call, where the settings give none.
pub const DEFAULT_TIMEOUT_MS: u64 = 5_000;

/// The setting that holds the fuel of one call.
pub const SETTING_FUEL_LIMIT: &'static str = "plugin.fuel_limit";

/// The setting that holds the milliseconds of one call.
pub const SETTING_TIMEOUT_MS: &'static str = "plugin.timeout_ms";

/// The most bytes of a failure's words.
pub const DETAIL_MAX: usize = 500;

// ---------------------------------------------------------------------------
// Results of calls
// ---------------------------------------------------------------------------

/// How a call of a plugin ended.
pub enum CallOutcome {
    /// The plugin returned this code.
    Returned(i32),
    /// The call failed; the words of the whole error.
    Failed(String),
    /// The call took longer than its time.
    TimedOut,
    /// The task that ran the call broke down; the words of its error.
    Crashed(String),
}

/// An ASCII letter in lower case, any other character as it is.
pub open spec fn lowered_char(c: char) -> char {
    if 'A' <= c <= 'Z' {
        (c as u32 + 32) as char
    } else {
        c
    }
}

/// A text with its ASCII letters in lower case.
pub open spec fn lowered(s: Seq<char>) -> Seq<char> {
    s.map_values(|c: char| lowered_char(c))
}

/// A text speaks of fuel, in whatever case.
pub open spec fn mentions_fuel(s: Seq<char>) -> bool {
    exists|at: int| crate::text::occurs_at(lowered(s), "fuel"@, at)
}

/// What a failed call is recorded as.
pub open spec fn failure_result(words: Seq<char>) -> Seq<char> {
    if mentions_fuel(words) {
        "fuel_exhausted"@
    } else {
        "host_error:"@ + truncated(words, DETAIL_MAX as int)
    }
}

/// What a call is recorded as.
pub open spec fn outcome_result(outcome: CallOutcome) -> Seq<char> {
    match outcome {
        CallOutcome::Returned(code) => if code == 0 {
            "success"@
        } else {
            "other:"@ + crate::text::signed_decimal(code as int)
        },
        CallOutcome::Failed(words) => failure_result(words@),
        CallOutcome::TimedOut => "timeout"@,
        CallOutcome::Crashed(words) => "host_error:"@ + words@,
    }
}

fn lower(s: &str) -> (r: String)
    ensures
        r@ == lowered(s@),
{
    let v = chars_of(s);
    let mut r = String::new();
    let mut i: usize = 0;
    while i < v.len()
        invariant
            i <= v@.len(),
            v@ == s@,
            r@ == lowered(s@.take(i as int)),
        decreases v@.len() - i,
    {
        let c = v[i];
        let low = if 'A' <= c && c <= 'Z' {
            (c as u8 + 32) as char
        } else {
            c
        };
        r.push(low);
        assert(lowered(s@.take(i + 1)) =~= lowered(s@.take(i as int)).push(low));
        i = i + 1;
    }
    assert(s@.take(i as int) =~= s@);
    r
}

/// The words under which the end of a call is recorded.
pub fn result_text(outcome: &CallOutcome) -> (r: String)
    ensures
        r@ == outcome_result(*outcome),
{
    match outcome {
        CallOutcome::Returned(code) => {
            if *code == 0 {
                RESULT_SUCCESS.to_owned()
            } else {
                let mut r = "other:".to_owned();
                r.append(decimal_i64(*code as i64).as_str());
                r
            }
        },
        CallOutcome::Failed(words) => {
            if contains_text(lower(words.as_str()).as_str(), "fuel") {
                "fuel_exhausted".to_owned()
            } else {
                let mut r = "host_error:".to_owned();
                r.append(truncate(words.as_str(), DETAIL_MAX).as_str());
                r
            }
        },
        CallOutcome::TimedOut => "timeout".to_owned(),
        CallOutcome::Crashed(words) => {
            let mut r = "host_error:".to_owned();
            r.append(words.as_str());
            r
        },
    }
}

/// What a record of one call says.
pub ghost struct EntryModel {
    pub at: i64,
    pub plugin_id: Seq<char>,
    pub event_type: Seq<char>,
    pub elapsed_ms: u64,
    pub result: Seq<char>,
}

/// The record of one call. The `result` is one of
///
/// | value | meaning |
/// |---|---|
/// | `success` | the plugin returned 0 |
/// | `other:<code>` | the plugin returned another code |
/// | `timeout` | the call took longer than its time |
/// | `fuel_exhausted` | the call ran out of fuel |
/// | `host_error:<words>` | anything else went wrong |
#[derive(Debug)]
pub struct DispatchEntry {
    /// Unix seconds.
    pub at: i64,
    /// The manifest's `plugin_id`, not the row id: the log is for people.
    pub plugin_id: String,
    pub event_type: String,
    pub elapsed_ms: u64,
    pub result: String,
}

impl View for DispatchEntry {
    type V = EntryModel;

    open spec fn view(&self) -> EntryModel {
        EntryModel {
            at: self.at,
            plugin_id: self.plugin_id@,
            event_type: self.event_type@,
            elapsed_ms: self.elapsed_ms,
            result: self.result@,
        }
    }
}

impl Clone for DispatchEntry {
    fn clone(&self) -> (r: Self)
        ensures
            r@ == self@,
    {
        DispatchEntry {
            at: self.at,
            plugin_id: self.plugin_id.clone(),
            event_type: self.event_type.clone(),
            elapsed_ms: self.elapsed_ms,
            result: self.result.clone(),
        }
    }
}

/// What a sequence of records says.
pub open spec fn entry_models(entries: Seq<DispatchEntry>) -> Seq<EntryModel> {
    Seq::new(entries.len(), |i: int| entries[i]@)
}

/// Puts the record of a call together.
pub fn entry_of(
    at: i64,
    plugin_id: &str,
    event_type: &str,
    elapsed_ms: u64,
    outcome: &CallOutcome,
) -> (r: DispatchEntry)
    ensures
        r@ == (EntryModel {
            at,
            plugin_id: plugin_id@,
            event_type: event_type@,
            elapsed_ms,
            result: outcome_result(*outcome),
        }),
{
    DispatchEntry {
        at,
        plugin_id: plugin_id.to_owned(),
        event_type: event_type.to_owned(),
        elapsed_ms,
        result: result_text(outcome),
    }
}

/// Puts the record of one round of the clock together, for one plugin.
pub fn tick_entry(at: i64, plugin_id: &str, elapsed_ms: u64, outcome: &CallOutcome) -> (r:
    DispatchEntry)
    ensures
        r@ == (EntryModel {
            at,
            plugin_id: plugin_id@,
            event_type: "tick"@,
            elapsed_ms,
            result: outcome_result(*outcome),
        }),
{
    entry_of(at, plugin_id, "tick", elapsed_ms, outcome)
}

/// A log with one more record, without the oldest ones that it has no room for.
pub open spec fn log_pushed(log: Seq<EntryModel>, entry: EntryModel) -> Seq<EntryModel> {
    let all = log.push(entry);
    if all.len() > DISPATCH_LOG_CAP {
        all.skip(all.len() - DISPATCH_LOG_CAP)
    } else {
        all
    }
}

/// A log with more records, one after the other.
pub open spec fn log_extended(log: Seq<EntryModel>, entries: Seq<EntryModel>) -> Seq<EntryModel>
    decreases entries.len(),
{
    if entries.len() == 0 {
        log
    } else {
        log_pushed(log_extended(log, entries.drop_last()), entries.last())
    }
}

/// Records one call, in place of the oldest record where the log is full.
pub fn push_entry(log: &mut VecDeque<DispatchEntry>, entry: DispatchEntry)
    ensures
        entry_models(final(log)@) == log_pushed(entry_models(old(log)@), entry@),
{
    log.push_back(entry);
    let ghost all = entry_models(log@);
    assert(all =~= entry_models(old(log)@).push(entry@));
    let ghost mut gone: int = 0;
    assert(all.skip(0) =~= all);
    while log.len() > DISPATCH_LOG_CAP
        invariant
            0 <= gone,
            all.len() > DISPATCH_LOG_CAP ==> gone <= all.len() - DISPATCH_LOG_CAP,
            all.len() <= DISPATCH_LOG_CAP ==> gone == 0,
            entry_models(log@) == all.skip(gone),
            log@.len() == all.len() - gone,
        decreases log@.len(),
    {
        let ghost before = log@;
        let _ = log.pop_front();
        assert(entry_models(log@) =~= all.skip(gone + 1));
        proof {
            gone = gone + 1;
        }
    }
}

// ---------------------------------------------------------------------------
// Settings
// ---------------------------------------------------------------------------

/// A number among the settings, the default where there is none or it is no
/// number.
pub open spec fn number_setting(
    settings: Map<Seq<char>, Seq<char>>,
    key: Seq<char>,
    default: u64,
) -> u64 {
    if settings.contains_key(key) {
        match spelled_u64(trimmed(settings[key])) {
            Some(n) => n,
            None => default,
        }
    } else {
        default
    }
}

/// Reads a number from the settings. A typing error is no reason to stop every
/// dispatch, so anything else than a number counts as missing.
pub fn setting_u64(db: &Db, key: &str, default: u64) -> (r: u64)
    requires
        db.wf(),
    ensures
        r == number_setting(db@.settings, key@, default),
{
    match db.get(key) {
        Some(v) => match parse_u64(trim(v.as_str()).as_str()) {
            Some(n) => n,
            None => default,
        },
        None => default,
    }
}

/// The fuel of one call under the settings.
pub open spec fn fuel_limit(settings: Map<Seq<char>, Seq<char>>) -> u64 {
    number_setting(settings, "plugin.fuel_limit"@, DEFAULT_FUEL_LIMIT)
}

/// The milliseconds of one call under the settings.
pub open spec fn timeout_ms(settings: Map<Seq<char>, Seq<char>>) -> u64 {
    number_setting(settings, "plugin.timeout_ms"@, DEFAULT_TIMEOUT_MS)
}

/// The limits of one call.
#[derive(Debug)]
pub struct CallLimits {
    pub fuel_limit: u64,
    pub timeout_ms: u64,
}

/// The limits that the settings give.
pub open spec fn limits_of(settings: Map<Seq<char>, Seq<char>>) -> CallLimits {
    CallLimits { fuel_limit: fuel_limit(settings), timeout_ms: timeout_ms(settings) }
}

/// Reads the limits of one call. They are read anew each time, so a change
/// counts from the next call on.
pub fn call_limits(db: &Db) -> (r: CallLimits)
    requires
        db.wf(),
    ensures
        r == limits_of(db@.settings),
{
    CallLimits {
        fuel_limit: setting_u64(db, SETTING_FUEL_LIMIT, DEFAULT_FUEL_LIMIT),
        timeout_ms: setting_u64(db, SETTING_TIMEOUT_MS, DEFAULT_TIMEOUT_MS),
    }
}

// ---------------------------------------------------------------------------
// The registry
// ---------------------------------------------------------------------------

/// What a dispatch says.
pub ghost struct DispatchModel {
    pub event: EventModel,
    pub subscribers: Seq<i64>,
    pub limits: CallLimits,
}

/// A dispatch that waits to be run: the event, the rows of the plugins that it
/// goes to, and the limits of each call.
pub struct Dispatch {
    pub event: Event,
    pub subscribers: Vec<i64>,
    pub limits: CallLimits,
}

impl View for Dispatch {
    type V = DispatchModel;

    open spec fn view(&self) -> DispatchModel {
        DispatchModel {
            event: self.event@,
            subscribers: self.subscribers@,
            limits: self.limits,
        }
    }
}

/// What a sequence of dispatches says.
pub open spec fn dispatch_models(dispatches: Seq<Dispatch>) -> Seq<DispatchModel> {
    Seq::new(dispatches.len(), |i: int| dispatches[i]@)
}

/// What a registry holds.
pub ghost struct RegistryModel {
    /// What compiles and runs the plugins.
    pub engine: wasmtime::Engine,
    /// The loaded plugins under their row ids.
    pub loaded: Map<i64, LoadedModel>,
    /// The records of calls, the newest last.
    pub log: Seq<EntryModel>,
    /// How many events were handed over, with or without a subscriber.
    pub dispatched: usize,
    /// The dispatches that wait, the oldest first.
    pub pending: Seq<DispatchModel>,
}

/// The rows of the plugins whose manifests pass a test.
pub open spec fn ids_where(
    loaded: Map<i64, LoadedModel>,
    test: spec_fn(ManifestModel) -> bool,
) -> Seq<i64> {
    in_order::<i64, LoadedModel>(loaded).filter(
        |row: (i64, LoadedModel)| test(row.1.manifest),
    ).map_values(|row: (i64, LoadedModel)| row.0)
}

/// The rows of the plugins that subscribe to an event.
pub open spec fn subscribers_of(loaded: Map<i64, LoadedModel>, name: Seq<char>) -> Seq<i64> {
    ids_where(loaded, |m: ManifestModel| m.subscribes.contains(name))
}

/// The rows of the plugins that have an `on_tick`.
pub open spec fn tickers_of(loaded: Map<i64, LoadedModel>) -> Seq<i64> {
    ids_where(loaded, |m: ManifestModel| m.tick)
}

impl RegistryModel {
    /// Every loaded module was compiled with the registry's engine, which alone
    /// can run it.
    pub open spec fn at_home(self) -> bool {
        forall|id: i64| #[trigger]
            self.loaded.contains_key(id) ==> engine_of(self.loaded[id].module) == self.engine
    }

    /// The registry after an event was handed over: it is counted, and waits
    /// where somebody subscribes to it.
    pub open spec fn handed(
        self,
        event: EventModel,
        settings: Map<Seq<char>, Seq<char>>,
    ) -> RegistryModel {
        let subscribers = subscribers_of(self.loaded, event.event_type());
        RegistryModel {
            dispatched: self.dispatched.wrapping_add(1),
            pending: if subscribers.len() == 0 {
                self.pending
            } else {
                self.pending.push(
                    DispatchModel { event, subscribers, limits: limits_of(settings) },
                )
            },
            ..self
        }
    }

    /// The registry after the records of some calls came in.
    pub open spec fn recorded(self, entries: Seq<EntryModel>) -> RegistryModel {
        RegistryModel { log: log_extended(self.log, entries), ..self }
    }
}

/// The registry of loaded plugins.
pub struct Registry {
    engine: wasmtime::Engine,
    /// Under the ids of the plugins' rows.
    loaded: Table<i64, LoadedPlugin>,
    /// The newest last.
    dispatch_log: VecDeque<DispatchEntry>,
    dispatched: usize,
    pending: VecDeque<Dispatch>,
}

impl View for Registry {
    type V = RegistryModel;

    closed spec fn view(&self) -> RegistryModel {
        RegistryModel {
            engine: self.engine,
            loaded: self.loaded@,
            log: entry_models(self.dispatch_log@),
            dispatched: self.dispatched,
            pending: dispatch_models(self.pending@),
        }
    }
}

/// Why a plugin could not be called or enabled.
#[derive(Debug)]
pub enum RegistryError {
    /// There is no such row.
    NoRow { id: i64 },
    /// The row is not loaded.
    NotLoaded { id: i64 },
    /// The row could not be loaded.
    Load { cause: LoadError },
}

impl RegistryError {
    /// The error in words.
    pub open spec fn headline(self) -> Seq<char> {
        match self {
            RegistryError::NoRow { id } => "插件 "@ + crate::text::signed_decimal(id as int)
                + " 不存在"@,
            RegistryError::NotLoaded { id } => "插件 "@ + crate::text::signed_decimal(id as int)
                + " 未加载"@,
            RegistryError::Load { cause } => cause.headline(),
        }
    }

    /// The error in words.
    pub fn message(&self) -> (r: String)
        ensures
            r@ == self.headline(),
    {
        match self {
            RegistryError::NoRow { id } => {
                let mut r = "插件 ".to_owned();
                r.append(decimal_i64(*id).as_str());
                r.append(" 不存在");
                r
            },
            RegistryError::NotLoaded { id } => {
                let mut r = "插件 ".to_owned();
                r.append(decimal_i64(*id).as_str());
                r.append(" 未加载");
                r
            },
            RegistryError::Load { cause } => cause.message(),
        }
    }
}

/// A row after it was loaded.
pub open spec fn marked_enabled(row: PluginModel) -> PluginModel {
    PluginModel { status: "enabled"@, last_error: None, ..row }
}

/// A row after it could not be loaded.
pub open spec fn marked_failed(row: PluginModel, words: Seq<char>) -> PluginModel {
    PluginModel { status: "failed"@, last_error: Some(words), ..row }
}

/// What the attempt to load one row comes to: the plugin stands in the registry
/// and its row says so, or the row has failed with the reason.
pub open spec fn settled(
    before: (Map<i64, LoadedModel>, DbModel),
    id: i64,
    r: Result<LoadedPlugin, LoadError>,
    after: (Map<i64, LoadedModel>, DbModel),
) -> bool {
    let row = before.1.plugins[id];
    match r {
        Ok(plugin) => {
            &&& after.0 == before.0.insert(id, plugin@)
            &&& after.1 == DbModel {
                plugins: before.1.plugins.insert(id, marked_enabled(row)),
                ..before.1
            }
        },
        Err(e) => {
            &&& after.0 == before.0
            &&& after.1 == DbModel {
                plugins: before.1.plugins.insert(id, marked_failed(row, e.full_text())),
                ..before.1
            }
        },
    }
}

/// What the preload leaves of one row: a row that is not enabled stays as it
/// is; an enabled one is loaded and says so, or has failed with the reason and
/// is in the registry only if it was before.
pub open spec fn preloaded(
    engine: wasmtime::Engine,
    before: (Map<i64, LoadedModel>, DbModel),
    after: (Map<i64, LoadedModel>, DbModel),
    id: i64,
) -> bool {
    let row = before.1.plugins[id];
    &&& after.1.plugins.contains_key(id) == before.1.plugins.contains_key(id)
    &&& if before.1.plugins.contains_key(id) && row.enabled {
        exists|r: Result<LoadedPlugin, LoadError>| #[trigger]
            load_outcome(engine, row, r) && match r {
                Ok(plugin) => {
                    &&& after.0.contains_key(id) && after.0[id] == plugin@
                    &&& after.1.plugins[id] == marked_enabled(row)
                },
                Err(e) => {
                    &&& after.0.contains_key(id) == before.0.contains_key(id)
                    &&& after.0.contains_key(id) ==> after.0[id] == before.0[id]
                    &&& after.1.plugins[id] == marked_failed(row, e.full_text())
                },
            }
    } else {
        &&& after.0.contains_key(id) == before.0.contains_key(id)
        &&& after.0.contains_key(id) ==> after.0[id] == before.0[id]
        &&& before.1.plugins.contains_key(id) ==> after.1.plugins[id] == row
    }
}

impl Registry {
    /// The tables are in order and the log is within its bound.
    pub closed spec fn wf(self) -> bool {
        self.loaded.wf() && self.dispatch_log@.len() <= DISPATCH_LOG_CAP
    }

    /// What holds of a well-formed registry.
    pub proof fn lemma_wf(self)
        requires
            self.wf(),
        ensures
            self@.loaded.dom().finite(),
            self@.log.len() <= DISPATCH_LOG_CAP,
    {
        self.loaded.lemma_finite();
    }

    /// A registry without plugins.
    pub fn empty(engine: wasmtime::Engine) -> (r: Registry)
        ensures
            r.wf(),
            r@.engine == engine,
            r@.at_home(),
            r@.loaded == Map::<i64, LoadedModel>::empty(),
            r@.log.len() == 0,
            r@.dispatched == 0,
            r@.pending.len() == 0,
    {
        Registry {
            engine,
            loaded: Table::new(),
            dispatch_log: VecDeque::new(),
            dispatched: 0,
            pending: VecDeque::new(),
        }
    }

    /// The engine with which the plugins were compiled.
    pub fn engine(&self) -> (r: &wasmtime::Engine)
        ensures
            *r == self@.engine,
    {
        &self.engine
    }

    /// Takes in the attempt to load one row at startup. A success is written
    /// down too: a row that had failed before would otherwise never be seen to
    /// have recovered.
    pub fn settle(&mut self, db: &mut Db, id: i64, r: Result<LoadedPlugin, LoadError>)
        requires
            old(self).wf(),
            old(db).wf(),
            old(db)@.plugins.contains_key(id),
        ensures
            final(self).wf(),
            final(db).wf(),
            final(self)@ == (RegistryModel { loaded: final(self)@.loaded, ..old(self)@ }),
            settled(
                (old(self)@.loaded, old(db)@),
                id,
                r,
                (final(self)@.loaded, final(db)@),
            ),
    {
        match r {
            Ok(plugin) => {
                let _ = db.set_plugin_status(id, "enabled", None);
                let _ = self.loaded.put(id, plugin);
            },
            Err(e) => {
                let words = e.chain();
                let _ = db.set_plugin_status(id, "failed", Some(words.as_str()));
            },
        }
    }

    /// Loads every enabled plugin at startup. One that fails is marked with the
    /// reason and stands in nobody's way.
    pub fn init(&mut self, db: &mut Db)
        requires
            old(self).wf(),
            old(db).wf(),
        ensures
            final(self).wf(),
            final(db).wf(),
            final(self)@ == (RegistryModel { loaded: final(self)@.loaded, ..old(self)@ }),
            final(db)@ == (DbModel { plugins: final(db)@.plugins, ..old(db)@ }),
            forall|id: i64| #[trigger]
                preloaded(
                    old(self)@.engine,
                    (old(self)@.loaded, old(db)@),
                    (final(self)@.loaded, final(db)@),
                    id,
                ),
            old(self)@.at_home() ==> final(self)@.at_home(),
    {
        proof {
            db.lemma_wf();
        }
        let rows = match db.enabled_plugins() {
            Ok(rows) => rows,
            Err(_) => {
                return;
            },
        };
        let ghost loaded0 = self@.loaded;
        let ghost db0 = db@;
        let ghost enabled = crate::db::enabled_only(db0.plugins);
        let ghost models = crate::db::row_models(rows@);
        proof {
            assert(enabled.dom().subset_of(db0.plugins.dom()));
            vstd::set_lib::lemma_set_subset_finite(db0.plugins.dom(), enabled.dom());
            crate::db::lemma_newest_first(enabled);
        }
        let mut i: usize = 0;
        while i < rows.len()
            invariant
                i <= rows@.len(),
                self.wf(),
                db.wf(),
                db0.wf(),
                loaded0 == old(self)@.loaded,
                db0 == old(db)@,
                enabled == crate::db::enabled_only(db0.plugins),
                models == crate::db::row_models(rows@),
                models == crate::db::newest_first(enabled),
                crate::db::lists_rows(models, enabled),
                self@ == (RegistryModel { loaded: self@.loaded, ..old(self)@ }),
                old(self)@.at_home() ==> self@.at_home(),
                db@ == (DbModel { plugins: db@.plugins, ..old(db)@ }),
                forall|id: i64| #[trigger]
                    preloaded_so_far(
                        old(self)@.engine,
                        (loaded0, db0),
                        (self@.loaded, db@),
                        id,
                        models.take(i as int),
                    ),
            decreases rows@.len() - i,
        {
            let row = &rows[i];
            let id: i64 = row.id;
            let ghost before = (self@.loaded, db@);
            assert(models[i as int] == row@);
            assert(enabled.contains_key(row@.id) && enabled[row@.id] == row@);
            assert(preloaded_so_far(
                old(self)@.engine,
                (loaded0, db0),
                before,
                id,
                models.take(i as int),
            ));
            assert(!listed(models.take(i as int), id)) by {
                if listed(models.take(i as int), id) {
                    let j = choose|j: int|
                        0 <= j < models.take(i as int).len() && (#[trigger] models.take(
                            i as int,
                        )[j]).id == id;
                    assert(models[j].id == id);
                    assert(models[j].id != models[i as int].id);
                }
            }
            let r = load(&self.engine, row);
            self.settle(db, id, r);
            proof {
                let after = (self@.loaded, db@);
                assert forall|k: i64| #[trigger]
                    preloaded_so_far(
                    old(self)@.engine,
                    (loaded0, db0),
                    after,
                    k,
                    models.take(i + 1),
                ) by {
                    assert(preloaded_so_far(
                        old(self)@.engine,
                        (loaded0, db0),
                        before,
                        k,
                        models.take(i as int),
                    ));
                    lemma_listed_step(models, i as int, k);
                    if k == id {
                        assert(load_outcome(old(self)@.engine, db0.plugins[id], r));
                    }
                }
            }
            i = i + 1;
        }
        proof {
            assert(models.take(i as int) =~= models);
            assert forall|id: i64| #[trigger]
                preloaded(old(self)@.engine, (loaded0, db0), (self@.loaded, db@), id) by {
                assert(preloaded_so_far(
                    old(self)@.engine,
                    (loaded0, db0),
                    (self@.loaded, db@),
                    id,
                    models.take(i as int),
                ));
                if db0.plugins.contains_key(id) && db0.plugins[id].enabled {
                    assert(enabled.contains_key(id));
                    let j = choose|j: int| 0 <= j < models.len() && #[trigger] models[j] == enabled[id];
                    assert(models[j].id == id);
                    assert(listed(models, id));
                } else if listed(models, id) {
                    let j = choose|j: int| 0 <= j < models.len() && (#[trigger] models[j]).id == id;
                    assert(enabled.contains_key(models[j].id));
                }
            }
        }
    }
}

/// One of the rows has this id.
spec fn listed(rows: Seq<PluginModel>, id: i64) -> bool {
    exists|j: int| 0 <= j < rows.len() && (#[trigger] rows[j]).id == id
}

proof fn lemma_listed_step(rows: Seq<PluginModel>, i: int, id: i64)
    requires
        0 <= i < rows.len(),
    ensures
        listed(rows.take(i + 1), id) == (listed(rows.take(i), id) || rows[i].id == id),
{
    if listed(rows.take(i), id) {
        let j = choose|j: int| 0 <= j < rows.take(i).len() && (#[trigger] rows.take(i)[j]).id == id;
        assert(rows.take(i + 1)[j].id == id);
    }
    if rows[i].id == id {
        assert(rows.take(i + 1)[i].id == id);
    }
    if listed(rows.take(i + 1), id) {
        let j = choose|j: int|
            0 <= j < rows.take(i + 1).len() && (#[trigger] rows.take(i + 1)[j]).id == id;
        if j < i {
            assert(rows.take(i)[j].id == id);
        }
    }
}

/// [`preloaded`] for the rows that were reached, nothing for the others.
spec fn preloaded_so_far(
    engine: wasmtime::Engine,
    before: (Map<i64, LoadedModel>, DbModel),
    after: (Map<i64, LoadedModel>, DbModel),
    id: i64,
    reached: Seq<PluginModel>,
) -> bool {
    if listed(reached, id) {
        let row = before.1.plugins[id];
        &&& before.1.plugins.contains_key(id)
        &&& after.1.plugins.contains_key(id)
        &&& exists|r: Result<LoadedPlugin, LoadError>| #[trigger]
            load_outcome(engine, row, r) && match r {
                Ok(plugin) => {
                    &&& after.0.contains_key(id) && after.0[id] == plugin@
                    &&& after.1.plugins[id] == marked_enabled(row)
                },
                Err(e) => {
                    &&& after.0.contains_key(id) == before.0.contains_key(id)
                    &&& after.0.contains_key(id) ==> after.0[id] == before.0[id]
                    &&& after.1.plugins[id] == marked_failed(row, e.full_text())
                },
            }
    } else {
        &&& after.0.contains_key(id) == before.0.contains_key(id)
        &&& after.0.contains_key(id) ==> after.0[id] == before.0[id]
        &&& after.1.plugins.contains_key(id) == before.1.plugins.contains_key(id)
        &&& before.1.plugins.contains_key(id) ==> after.1.plugins[id] == before.1.plugins[id]
    }
}

// ---------------------------------------------------------------------------
// Enabling, dispatching, recording
// ---------------------------------------------------------------------------

/// A row was loaded as this plugin, which stands in the registry under its id.
pub open spec fn enabled_as(
    before: RegistryModel,
    id: i64,
    row: PluginModel,
    plugin: LoadedPlugin,
    after: RegistryModel,
) -> bool {
    &&& load_outcome(before.engine, row, Ok(plugin))
    &&& after == RegistryModel { loaded: before.loaded.insert(id, plugin@), ..before }
}

/// What the attempt to enable a row comes to: nothing where there is no such
/// row; the plugin in the registry where it loads; else the reason in the row.
pub open spec fn enable_outcome(
    before: (RegistryModel, DbModel),
    id: i64,
    r: Result<(), RegistryError>,
    after: (RegistryModel, DbModel),
) -> bool {
    match r {
        Err(RegistryError::NoRow { id: missing }) => {
            &&& missing == id
            &&& !before.1.plugins.contains_key(id)
            &&& after == before
        },
        Err(RegistryError::Load { cause }) => {
            &&& before.1.plugins.contains_key(id)
            &&& load_outcome(before.0.engine, before.1.plugins[id], Err(cause))
            &&& after.0 == before.0
            &&& after.1 == DbModel {
                plugins: before.1.plugins.insert(
                    id,
                    marked_failed(before.1.plugins[id], cause.full_text()),
                ),
                ..before.1
            }
        },
        Err(RegistryError::NotLoaded { .. }) => false,
        Ok(()) => {
            &&& before.1.plugins.contains_key(id)
            &&& after.1 == before.1
            &&& exists|plugin: LoadedPlugin| #[trigger]
                enabled_as(before.0, id, before.1.plugins[id], plugin, after.0)
        },
    }
}

/// All calls of a dispatch succeeded.
pub open spec fn all_succeeded(entries: Seq<EntryModel>) -> bool {
    forall|i: int| 0 <= i < entries.len() ==> (#[trigger] entries[i]).result == "success"@
}

/// The calls that failed, each with its plugin and its result.
pub open spec fn failures(entries: Seq<EntryModel>) -> Seq<Seq<char>> {
    entries.filter(|e: EntryModel| e.result != "success"@).map_values(
        |e: EntryModel| e.plugin_id + ": "@ + e.result,
    )
}

/// The detail of a dispatch: empty where all calls succeeded, else who failed
/// and how.
pub open spec fn dispatch_detail(entries: Seq<EntryModel>) -> Seq<char> {
    if all_succeeded(entries) {
        ""@
    } else {
        truncated(joined(failures(entries), "; "@), DETAIL_MAX as int)
    }
}

/// Whether all calls of a dispatch succeeded.
pub fn succeeded(entries: &Vec<DispatchEntry>) -> (r: bool)
    ensures
        r == all_succeeded(entry_models(entries@)),
{
    let ghost models = entry_models(entries@);
    let mut i: usize = 0;
    while i < entries.len()
        invariant
            i <= entries@.len(),
            models == entry_models(entries@),
            forall|j: int| 0 <= j < i ==> (#[trigger] models[j]).result == "success"@,
        decreases entries@.len() - i,
    {
        assert(models[i as int].result == entries@[i as int].result@);
        if !same_text(entries[i].result.as_str(), RESULT_SUCCESS) {
            return false;
        }
        i = i + 1;
    }
    true
}

/// The detail of a dispatch.
pub fn detail_of(entries: &Vec<DispatchEntry>) -> (r: String)
    ensures
        r@ == dispatch_detail(entry_models(entries@)),
{
    if succeeded(entries) {
        return "".to_owned();
    }
    let ghost models = entry_models(entries@);
    let ghost p = |e: EntryModel| e.result != "success"@;
    let ghost f = |e: EntryModel| e.plugin_id + ": "@ + e.result;
    let mut failed: Vec<String> = Vec::new();
    let mut i: usize = 0;
    assert(texts(failed@) =~= models.take(0).filter(p).map_values(f)) by {
        reveal(Seq::filter);
    }
    while i < entries.len()
        invariant
            i <= entries@.len(),
            models == entry_models(entries@),
            p == (|e: EntryModel| e.result != "success"@),
            f == (|e: EntryModel| e.plugin_id + ": "@ + e.result),
            texts(failed@) == models.take(i as int).filter(p).map_values(f),
        decreases entries@.len() - i,
    {
        proof {
            crate::table::lemma_filter_step(models, p, i as int);
        }
        assert(models[i as int] == entries@[i as int]@);
        if !same_text(entries[i].result.as_str(), RESULT_SUCCESS) {
            let mut line = entries[i].plugin_id.clone();
            line.append(": ");
            line.append(entries[i].result.as_str());
            let ghost before = failed@;
            let ghost kept = models.take(i as int).filter(p);
            failed.push(line);
            proof {
                crate::text::lemma_texts_push(before, line);
                assert(kept.push(models[i as int]).map_values(f) =~= kept.map_values(f).push(
                    f(models[i as int]),
                ));
            }
        }
        i = i + 1;
    }
    assert(models.take(i as int) =~= models);
    truncate(crate::text::join(&failed, "; ").as_str(), DETAIL_MAX)
}

/// Writes the outcome of a dispatch back to the notification log: a success
/// only where every plugin succeeded. Where the event has no row there, nothing
/// is written.
pub fn write_back(db: &mut Db, event: &Event, entries: &Vec<DispatchEntry>)
    requires
        old(db).wf(),
    ensures
        final(db).wf(),
        final(db)@ == crate::db::with_result(
            old(db)@,
            event@.log_key(),
            all_succeeded(entry_models(entries@)),
            dispatch_detail(entry_models(entries@)),
        ),
{
    let success = succeeded(entries);
    let detail = detail_of(entries);
    let _ = db.mark_dispatch_result(
        event.node_id(),
        event.event_type(),
        event.threshold_or_state_key(),
        success,
        detail.as_str(),
    );
}

fn subscribes_to(manifest: &Manifest, name: &str) -> (r: bool)
    ensures
        r == manifest@.subscribes.contains(name@),
{
    let ghost subscribes = manifest@.subscribes;
    let mut i: usize = 0;
    while i < manifest.subscribes.len()
        invariant
            i <= manifest.subscribes@.len(),
            subscribes == manifest@.subscribes,
            forall|j: int| 0 <= j < i ==> #[trigger] subscribes[j] != name@,
        decreases manifest.subscribes@.len() - i,
    {
        assert(subscribes[i as int] == manifest.subscribes@[i as int]@);
        if same_text(manifest.subscribes[i].as_str(), name) {
            return true;
        }
        i = i + 1;
    }
    false
}

impl Registry {
    /// Loads a row that was enabled in the database. A failure is written to
    /// the row and returned; a success is not written, because the row says
    /// `enabled` already.
    pub fn enable_plugin(&mut self, db: &mut Db, plugin_row_id: i64) -> (r: Result<
        (),
        RegistryError,
    >)
        requires
            old(self).wf(),
            old(db).wf(),
        ensures
            final(self).wf(),
            final(db).wf(),
            enable_outcome(
                (old(self)@, old(db)@),
                plugin_row_id,
                r,
                (final(self)@, final(db)@),
            ),
            r is Ok ==> engine_of(final(self)@.loaded[plugin_row_id].module) == old(self)@.engine,
            old(self)@.at_home() ==> final(self)@.at_home(),
    {
        let row = match db.get_plugin(plugin_row_id) {
            Ok(Some(row)) => row,
            _ => {
                return Err(RegistryError::NoRow { id: plugin_row_id });
            },
        };
        let loaded = load(&self.engine, &row);
        let ghost outcome = loaded;
        let r = self.take_enabled(db, plugin_row_id, loaded);
        proof {
            if let Ok(plugin) = outcome {
                let before = (old(self)@, old(db)@);
                let after = (self@, db@);
                let model = before.1.plugins[plugin_row_id];
                assert(enabled_as(before.0, plugin_row_id, model, plugin, after.0));
                assert(enable_outcome(before, plugin_row_id, r, after));
            }
        }
        r
    }

    /// Takes in the attempt to load a row that was enabled.
    pub fn take_enabled(
        &mut self,
        db: &mut Db,
        plugin_row_id: i64,
        loaded: Result<LoadedPlugin, LoadError>,
    ) -> (r: Result<(), RegistryError>)
        requires
            old(self).wf(),
            old(db).wf(),
            old(db)@.plugins.contains_key(plugin_row_id),
        ensures
            final(self).wf(),
            final(db).wf(),
            match loaded {
                Ok(plugin) => {
                    &&& r is Ok
                    &&& final(db)@ == old(db)@
                    &&& final(self)@ == (RegistryModel {
                        loaded: old(self)@.loaded.insert(plugin_row_id, plugin@),
                        ..old(self)@
                    })
                },
                Err(cause) => {
                    &&& r == Err::<(), RegistryError>(RegistryError::Load { cause })
                    &&& final(self)@ == old(self)@
                    &&& final(db)@ == (DbModel {
                        plugins: old(db)@.plugins.insert(
                            plugin_row_id,
                            marked_failed(
                                old(db)@.plugins[plugin_row_id],
                                cause.full_text(),
                            ),
                        ),
                        ..old(db)@
                    })
                },
            },
    {
        match loaded {
            Ok(plugin) => {
                let _ = self.loaded.put(plugin_row_id, plugin);
                Ok(())
            },
            Err(cause) => {
                let words = cause.chain();
                let _ = db.set_plugin_status(plugin_row_id, "failed", Some(words.as_str()));
                Err(RegistryError::Load { cause })
            },
        }
    }

    /// Takes a plugin out of the registry. One that is not there leaves nothing
    /// to do.
    pub fn disable_plugin(&mut self, plugin_row_id: i64)
        requires
            old(self).wf(),
        ensures
            final(self).wf(),
            final(self)@ == (RegistryModel {
                loaded: old(self)@.loaded.remove(plugin_row_id),
                ..old(self)@
            }),
    {
        let _ = self.loaded.delete(&plugin_row_id);
    }

    /// Takes a deleted plugin out of the registry.
    pub fn remove_plugin(&mut self, plugin_row_id: i64)
        requires
            old(self).wf(),
        ensures
            final(self).wf(),
            final(self)@ == (RegistryModel {
                loaded: old(self)@.loaded.remove(plugin_row_id),
                ..old(self)@
            }),
    {
        let _ = self.loaded.delete(&plugin_row_id);
    }

    /// Whether a row is loaded.
    pub fn is_loaded(&self, plugin_row_id: i64) -> (r: bool)
        requires
            self.wf(),
        ensures
            r == self@.loaded.contains_key(plugin_row_id),
    {
        self.loaded.contains(&plugin_row_id)
    }

    /// How many events were handed over.
    pub fn dispatch_count(&self) -> (r: usize)
        ensures
            r == self@.dispatched,
    {
        self.dispatched
    }

    /// A loaded plugin.
    pub fn plugin(&self, plugin_row_id: i64) -> (r: Option<&LoadedPlugin>)
        requires
            self.wf(),
        ensures
            match r {
                Some(p) => self@.loaded.contains_key(plugin_row_id) && p@
                    == self@.loaded[plugin_row_id],
                None => !self@.loaded.contains_key(plugin_row_id),
            },
    {
        self.loaded.get(&plugin_row_id)
    }

    /// The manifest of a loaded plugin.
    pub fn manifest_of(&self, plugin_row_id: i64) -> (r: Option<Manifest>)
        requires
            self.wf(),
        ensures
            match r {
                Some(m) => self@.loaded.contains_key(plugin_row_id) && m@
                    == self@.loaded[plugin_row_id].manifest,
                None => !self@.loaded.contains_key(plugin_row_id),
            },
    {
        match self.loaded.get(&plugin_row_id) {
            Some(p) => Some(p.manifest.clone()),
            None => None,
        }
    }

    /// The records of calls, the newest first.
    pub fn dispatch_log_snapshot(&self) -> (r: Vec<DispatchEntry>)
        ensures
            entry_models(r@) == self@.log.reverse(),
    {
        let n: usize = self.dispatch_log.len();
        let ghost log = self@.log;
        let mut r: Vec<DispatchEntry> = Vec::new();
        let mut i: usize = n;
        while i > 0
            invariant
                i <= n,
                n == self.dispatch_log@.len(),
                log == self@.log,
                r@.len() == n - i,
                forall|j: int| 0 <= j < n - i ==> (#[trigger] r@[j])@ == log[n - 1 - j],
            decreases i,
        {
            i = i - 1;
            r.push(self.dispatch_log[i].clone());
        }
        assert(entry_models(r@) =~= log.reverse());
        r
    }

    /// The rows of the plugins whose manifests pass a test.
    fn ids_passing<F: Fn(&Manifest) -> bool>(
        &self,
        keep: F,
        Ghost(test): Ghost<spec_fn(ManifestModel) -> bool>,
    ) -> (ids: Vec<i64>)
        requires
            self.wf(),
            forall|m: &Manifest| call_requires(keep, (m,)),
            forall|m: &Manifest, r: bool| #[trigger]
                call_ensures(keep, (m,), r) ==> r == test(m@),
        ensures
            ids@ == ids_where(self@.loaded, test),
    {
        let n: usize = self.loaded.len();
        let ghost rows = in_order::<i64, LoadedModel>(self@.loaded);
        let ghost p = |row: (i64, LoadedModel)| test(row.1.manifest);
        let ghost f = |row: (i64, LoadedModel)| row.0;
        let mut ids: Vec<i64> = Vec::new();
        let mut i: usize = 0;
        assert(ids@ =~= rows.take(0).filter(p).map_values(f)) by {
            reveal(Seq::filter);
        }
        while i < n
            invariant
                i <= n,
                n == rows.len(),
                n == self@.loaded.len(),
                self.wf(),
                forall|m: &Manifest| call_requires(keep, (m,)),
                forall|m: &Manifest, r: bool| #[trigger]
                    call_ensures(keep, (m,), r) ==> r == test(m@),
                rows == in_order::<i64, LoadedModel>(self@.loaded),
                p == (|row: (i64, LoadedModel)| test(row.1.manifest)),
                f == (|row: (i64, LoadedModel)| row.0),
                ids@ == rows.take(i as int).filter(p).map_values(f),
            decreases n - i,
        {
            proof {
                crate::table::lemma_filter_step(rows, p, i as int);
            }
            if keep(&self.loaded.value_at(i).manifest) {
                let ghost kept = rows.take(i as int).filter(p);
                ids.push(*self.loaded.key_at(i));
                assert(kept.push(rows[i as int]).map_values(f) =~= kept.map_values(f).push(
                    f(rows[i as int]),
                ));
            }
            i = i + 1;
        }
        assert(rows.take(i as int) =~= rows);
        ids
    }

    /// The rows of the plugins that subscribe to an event.
    fn subscribers(&self, name: &str) -> (ids: Vec<i64>)
        requires
            self.wf(),
        ensures
            ids@ == subscribers_of(self@.loaded, name@),
    {
        let keep = |m: &Manifest| -> (r: bool)
            ensures
                r == m@.subscribes.contains(name@),
            { subscribes_to(m, name) };
        self.ids_passing(keep, Ghost(|m: ManifestModel| m.subscribes.contains(name@)))
    }

    /// The rows of the plugins that have an `on_tick`, and the limits of each
    /// call, for one round of the clock.
    pub fn dispatch_ticks(&self, db: &Db) -> (r: (Vec<i64>, CallLimits))
        requires
            self.wf(),
            db.wf(),
        ensures
            r.0@ == tickers_of(self@.loaded),
            r.1 == limits_of(db@.settings),
    {
        let keep = |m: &Manifest| -> (r: bool)
            ensures
                r == m@.tick,
            { m.tick };
        let ids = self.ids_passing(keep, Ghost(|m: ManifestModel| m.tick));
        (ids, call_limits(db))
    }

    /// Hands an event over. It is counted; where plugins subscribe to it, it
    /// waits to be run. Without a subscriber there is nothing to run or record,
    /// and the event's row stays unsuccessful: nobody was listening.
    pub fn dispatch(&mut self, db: &Db, event: &Event)
        requires
            old(self).wf(),
            db.wf(),
        ensures
            final(self).wf(),
            final(self)@ == old(self)@.handed(event@, db@.settings),
    {
        self.dispatched = self.dispatched.wrapping_add(1);
        let subscribers = self.subscribers(event.event_type());
        if subscribers.len() == 0 {
            return;
        }
        let dispatch = Dispatch { event: event.clone(), subscribers, limits: call_limits(db) };
        self.pending.push_back(dispatch);
        assert(self@.pending =~= old(self)@.pending.push(dispatch@));
    }

    /// The dispatch that has waited longest.
    pub fn next_dispatch(&mut self) -> (r: Option<Dispatch>)
        requires
            old(self).wf(),
        ensures
            final(self).wf(),
            match r {
                Some(d) => {
                    &&& old(self)@.pending.len() > 0
                    &&& d@ == old(self)@.pending[0]
                    &&& final(self)@ == (RegistryModel {
                        pending: old(self)@.pending.skip(1),
                        ..old(self)@
                    })
                },
                None => old(self)@.pending.len() == 0 && final(self)@ == old(self)@,
            },
    {
        let r = self.pending.pop_front();
        if r.is_some() {
            assert(self@.pending =~= old(self)@.pending.skip(1));
        } else {
            assert(self@.pending =~= old(self)@.pending);
        }
        r
    }

    /// The limits of a call of one plugin, or that it is not loaded.
    pub fn call_plan(&self, db: &Db, plugin_row_id: i64) -> (r: Result<CallLimits, RegistryError>)
        requires
            self.wf(),
            db.wf(),
        ensures
            match r {
                Ok(limits) => self@.loaded.contains_key(plugin_row_id) && limits == limits_of(
                    db@.settings,
                ),
                Err(e) => !self@.loaded.contains_key(plugin_row_id) && e
                    == (RegistryError::NotLoaded { id: plugin_row_id }),
            },
    {
        if self.loaded.contains(&plugin_row_id) {
            Ok(call_limits(db))
        } else {
            Err(RegistryError::NotLoaded { id: plugin_row_id })
        }
    }

    /// Records one call.
    pub fn record(&mut self, entry: DispatchEntry)
        requires
            old(self).wf(),
        ensures
            final(self).wf(),
            final(self)@ == (RegistryModel {
                log: log_pushed(old(self)@.log, entry@),
                ..old(self)@
            }),
    {
        push_entry(&mut self.dispatch_log, entry);
        proof {
            assert(entry_models(self.dispatch_log@).len() == self.dispatch_log@.len());
        }
    }

    /// Records the calls of a dispatch, in their order.
    pub fn record_all(&mut self, entries: &Vec<DispatchEntry>)
        requires
            old(self).wf(),
        ensures
            final(self).wf(),
            final(self)@ == old(self)@.recorded(entry_models(entries@)),
    {
        let ghost models = entry_models(entries@);
        let mut i: usize = 0;
        assert(models.take(0) =~= Seq::<EntryModel>::empty());
        while i < entries.len()
            invariant
                i <= entries@.len(),
                models == entry_models(entries@),
                self.wf(),
                self@ == old(self)@.recorded(models.take(i as int)),
            decreases entries@.len() - i,
        {
            assert(models.take(i + 1).drop_last() =~= models.take(i as int));
            self.record(entries[i].clone());
            i = i + 1;
        }
        assert(models.take(i as int) =~= models);
    }
}

// ---------------------------------------------------------------------------
// Laws
// ---------------------------------------------------------------------------

/// The dispatch log is a ring: it never holds more than its bound, the newest
/// record is always there, and a record leaves only from a full log, the oldest
/// first.
pub proof fn law_dispatch_log_is_a_ring(log: Seq<EntryModel>, entry: EntryModel)
    requires
        log.len() <= DISPATCH_LOG_CAP,
    ensures
        log_pushed(log, entry).len() <= DISPATCH_LOG_CAP,
        log_pushed(log, entry).last() == entry,
        log.len() < DISPATCH_LOG_CAP ==> log_pushed(log, entry) == log.push(entry),
        log.len() == DISPATCH_LOG_CAP ==> log_pushed(log, entry) == log.skip(1).push(entry),
{
    if log.len() == DISPATCH_LOG_CAP {
        assert(log_pushed(log, entry) =~= log.skip(1).push(entry));
    }
}

/// An event goes to exactly the loaded plugins that subscribe to it, to each of
/// them once.
pub proof fn law_event_reaches_its_subscribers(loaded: Map<i64, LoadedModel>, name: Seq<char>)
    requires
        loaded.dom().finite(),
    ensures
        forall|id: i64| #[trigger]
            subscribers_of(loaded, name).contains(id) <==> loaded.contains_key(id)
                && loaded[id].manifest.subscribes.contains(name),
        subscribers_of(loaded, name).no_duplicates(),
{
    let rows = in_order::<i64, LoadedModel>(loaded);
    crate::table::lemma_listed::<i64, LoadedModel>(loaded);
    let test = |m: ManifestModel| m.subscribes.contains(name);
    let p = |row: (i64, LoadedModel)| test(row.1.manifest);
    let f = |row: (i64, LoadedModel)| row.0;
    let kept = rows.filter(p);
    let ids = subscribers_of(loaded, name);
    assert forall|id: i64| #[trigger] ids.contains(id) implies loaded.contains_key(id)
        && loaded[id].manifest.subscribes.contains(name) by {
        let i = choose|i: int| 0 <= i < ids.len() && ids[i] == id;
        assert(kept.contains(kept[i]));
        crate::table::lemma_filter_member(rows, p, kept[i]);
        let j = choose|j: int| 0 <= j < rows.len() && rows[j] == kept[i];
        assert(loaded.contains_key(rows[j].0));
    }
    assert forall|id: i64|
        loaded.contains_key(id) && loaded[id].manifest.subscribes.contains(
            name,
        ) implies #[trigger] ids.contains(id) by {
        let j = choose|j: int| 0 <= j < rows.len() && (#[trigger] rows[j]).0 == id;
        crate::table::lemma_filter_keeps(rows, p, rows[j]);
        let i = choose|i: int| 0 <= i < kept.len() && kept[i] == rows[j];
        assert(ids[i] == id);
    }
    crate::table::lemma_filter_ascending::<i64, LoadedModel>(rows, p);
    assert forall|i: int, j: int| 0 <= i < j < ids.len() implies ids[i] != ids[j] by {
        assert(<i64 as crate::table::RowKey>::before(kept[i].0, kept[j].0));
    }
}

/// A plugin that was enabled runs its row's own code: the manifest and the
/// binary are those of the row, and the registry's engine can run the module.
pub proof fn law_enabled_plugin_is_its_row(
    before: (RegistryModel, DbModel),
    id: i64,
    after: (RegistryModel, DbModel),
)
    requires
        enable_outcome(before, id, Ok(()), after),
    ensures
        ({
            let row = before.1.plugins[id];
            let plugin = after.0.loaded[id];
            &&& after.0.loaded.contains_key(id)
            &&& accepted(toml_document(row.manifest_json)) == Some(plugin.manifest)
            &&& binary_of(plugin.module) == row.wasm_blob
            &&& engine_of(plugin.module) == after.0.engine
            &&& after.0.engine == before.0.engine
        }),
{
}

/// Every loaded module belongs to the registry's engine, whatever is done to
/// the registry: plugins are loaded at startup or enabled, taken out, events
/// are handed over and calls recorded.
pub proof fn law_loaded_modules_belong_to_the_engine(
    registry: RegistryModel,
    db: DbModel,
    preload: (RegistryModel, DbModel),
    enable: (RegistryModel, DbModel),
    r: Result<(), RegistryError>,
    id: i64,
    event: EventModel,
    entries: Seq<EntryModel>,
)
    requires
        registry.at_home(),
        preload.0.engine == registry.engine,
        forall|k: i64| #[trigger]
            preloaded(registry.engine, (registry.loaded, db), (preload.0.loaded, preload.1), k),
        enable_outcome((registry, db), id, r, enable),
    ensures
        preload.0.at_home(),
        enable.0.at_home(),
        (RegistryModel { loaded: registry.loaded.remove(id), ..registry }).at_home(),
        registry.handed(event, db.settings).at_home(),
        registry.recorded(entries).at_home(),
{
    assert forall|k: i64| #[trigger] preload.0.loaded.contains_key(k) implies engine_of(
        preload.0.loaded[k].module,
    ) == preload.0.engine by {
        assert(preloaded(
            registry.engine,
            (registry.loaded, db),
            (preload.0.loaded, preload.1),
            k,
        ));
    }
}

/// A dispatch counts as a success only where every call succeeded, and its
/// detail is then empty; else the detail speaks of the failures alone.
pub proof fn law_success_means_all_succeeded(entries: Seq<EntryModel>)
    ensures
        all_succeeded(entries) ==> dispatch_detail(entries) == ""@ && failures(entries).len() == 0,
        !all_succeeded(entries) ==> failures(entries).len() > 0,
    decreases entries.len(),
{
    reveal(Seq::filter);
    if entries.len() > 0 {
        let front = entries.drop_last();
        law_success_means_all_succeeded(front);
        let p = |e: EntryModel| e.result != "success"@;
        if all_succeeded(entries) {
            assert(all_succeeded(front)) by {
                assert forall|i: int| 0 <= i < front.len() implies (#[trigger] front[i]).result
                    == "success"@ by {
                    assert(entries[i].result == "success"@);
                }
            }
            assert(entries[entries.len() - 1].result == "success"@);
        } else if all_succeeded(front) {
            assert(entries.last().result != "success"@) by {
                if entries.last().result == "success"@ {
                    assert forall|i: int| 0 <= i < entries.len() implies (
                    #[trigger] entries[i]).result == "success"@ by {
                        if i < front.len() {
                            assert(front[i] == entries[i]);
                        }
                    }
                    assert(all_succeeded(entries));
                }
            }
        }
        assert(front.filter(p).len() == failures(front).len());
        assert(entries.filter(p).len() == failures(entries).len());
    }
}

} // verus!
