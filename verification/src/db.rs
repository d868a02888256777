//! The hub's tables: plugins, settings, plugin data and the notification log.

use vstd::prelude::*;
use vstd::string::*;

use crate::table::Table;

pub mod laws;
pub mod notifications;
pub mod pattern;
pub mod plugins;
pub mod records;
pub mod rows;
pub mod storage;

pub use self::laws::{
    law_data_deletion_is_isolated, law_duplicate_upload_is_refused, law_kv_deletion_is_isolated,
    law_kv_listing, law_marking_keeps_the_log, law_quota_holds, law_record_listing,
    law_record_round_trip, law_settings_and_records_are_apart, law_status_mirrors_enabled,
    law_upload_is_stored,
};
pub use self::notifications::{
    flipped, fresh_row, is_state_name, is_state_row, latest_in, latest_state, lemma_state_names,
    opposite, opposite_state, stands, with_result,
};
pub use self::pattern::{law_escaped_pattern_is_a_prefix, like, like_escaped, literal, literal_text};
pub use self::plugins::{
    enabled_only, kv_pairs, kv_prefix, kv_prefix_text, lemma_kv_names_differ, lemma_newest_first,
    lists_rows, newest_first, next_id, pair_texts, row_models, switched, upload_index,
    upload_outcome, uploaded_plugin, uploads_descend, without_plugin, without_prefix,
};
pub use self::records::{
    bytes_after_put, bytes_in, count_in, data_bytes, data_count, data_pairs, has_data, lists_usage,
    quota_outcome, record_test, usage_fits, with_record,
};
pub use self::rows::{
    opt_text, DataKey, DataModel, DataRow, LogKey, LogRow, LogRowModel, PluginModel, PluginRow,
    UploadKey,
};
pub use self::storage::{law_rows_rebuild_their_table, rebuilt};

verus! {

/// Why an operation was refused.
#[derive(Debug)]
pub enum DbError {
    /// There is a plugin with this `plugin_id`.
    AlreadyUploaded { plugin_id: String },
    /// There is no plugin row with this id.
    NoPlugin { id: i64 },
    /// No row id is left.
    IdsExhausted,
    /// A total does not fit 64 bits.
    TooLarge,
}

impl DbError {
    /// What the error says.
    pub open spec fn spec_message(self) -> Seq<char> {
        match self {
            DbError::AlreadyUploaded { plugin_id } => "plugin "@ + plugin_id@
                + " is already uploaded"@,
            DbError::NoPlugin { id } => "no plugin "@ + crate::text::signed_decimal(id as int),
            DbError::IdsExhausted => "no plugin id is left"@,
            DbError::TooLarge => "the total does not fit"@,
        }
    }

    /// The error in words.
    pub fn message(&self) -> (r: String)
        ensures
            r@ == self.spec_message(),
    {
        match self {
            DbError::AlreadyUploaded { plugin_id } => {
                let mut r = "plugin ".to_owned();
                r.append(plugin_id.as_str());
                r.append(" is already uploaded");
                r
            },
            DbError::NoPlugin { id } => {
                let mut r = "no plugin ".to_owned();
                r.append(crate::text::decimal_i64(*id).as_str());
                r
            },
            DbError::IdsExhausted => "no plugin id is left".to_owned(),
            DbError::TooLarge => "the total does not fit".to_owned(),
        }
    }
}

/// What the database holds.
pub ghost struct DbModel {
    pub plugins: Map<i64, PluginModel>,
    pub settings: Map<Seq<char>, Seq<char>>,
    pub data: Map<(Seq<char>, Seq<char>), DataModel>,
    pub log: Map<(i64, Seq<char>, i64), LogRowModel>,
}

impl DbModel {
    /// The tables are finite, a plugin row stands under its id, and no two
    /// share a `plugin_id`.
    pub open spec fn wf(self) -> bool {
        &&& self.plugins.dom().finite()
        &&& self.settings.dom().finite()
        &&& self.data.dom().finite()
        &&& self.log.dom().finite()
        &&& forall|id: i64| #[trigger]
            self.plugins.contains_key(id) ==> self.plugins[id].id == id
        &&& forall|a: i64, b: i64| #[trigger]
            self.plugins.contains_key(a) && #[trigger] self.plugins.contains_key(b) && a != b
                ==> self.plugins[a].plugin_id != self.plugins[b].plugin_id
    }

    /// There is a plugin with this `plugin_id`.
    pub open spec fn has_plugin(self, plugin_id: Seq<char>) -> bool {
        exists|id: i64| #[trigger]
            self.plugins.contains_key(id) && self.plugins[id].plugin_id == plugin_id
    }
}

/// The database.
pub struct Db {
    plugins: Table<i64, PluginRow>,
    settings: Table<String, String>,
    data: Table<DataKey, DataRow>,
    log: Table<LogKey, LogRow>,
}

impl View for Db {
    type V = DbModel;

    closed spec fn view(&self) -> DbModel {
        DbModel {
            plugins: self.plugins@,
            settings: self.settings@,
            data: self.data@,
            log: self.log@,
        }
    }
}

impl Db {
    /// The tables are in order and their rows fit together.
    pub closed spec fn wf(self) -> bool {
        &&& self.plugins.wf()
        &&& self.settings.wf()
        &&& self.data.wf()
        &&& self.log.wf()
        &&& forall|id: i64| #[trigger]
            self@.plugins.contains_key(id) ==> self@.plugins[id].id == id
        &&& forall|a: i64, b: i64| #[trigger]
            self@.plugins.contains_key(a) && #[trigger] self@.plugins.contains_key(b) && a != b
                ==> self@.plugins[a].plugin_id != self@.plugins[b].plugin_id
    }

    /// What holds of the tables of a well-formed database.
    pub proof fn lemma_wf(self)
        requires
            self.wf(),
        ensures
            self@.wf(),
    {
        self.plugins.lemma_finite();
        self.settings.lemma_finite();
        self.data.lemma_finite();
        self.log.lemma_finite();
    }

    /// An empty database.
    pub fn new() -> (db: Db)
        ensures
            db.wf(),
            db@.plugins == Map::<i64, PluginModel>::empty(),
            db@.settings == Map::<Seq<char>, Seq<char>>::empty(),
            db@.data == Map::<(Seq<char>, Seq<char>), DataModel>::empty(),
            db@.log == Map::<(i64, Seq<char>, i64), LogRowModel>::empty(),
    {
        Db { plugins: Table::new(), settings: Table::new(), data: Table::new(), log: Table::new() }
    }
}

// ---------------------------------------------------------------------------
// Settings
// ---------------------------------------------------------------------------

impl Db {
    /// A setting's value.
    pub fn get(&self, key: &str) -> (r: Option<String>)
        requires
            self.wf(),
        ensures
            opt_text(r) == (if self@.settings.contains_key(key@) {
                Some(self@.settings[key@])
            } else {
                None
            }),
    {
        match self.settings.get(&key.to_owned()) {
            Some(v) => Some(v.clone()),
            None => None,
        }
    }

    /// Stores a setting.
    pub fn set(&mut self, key: &str, value: &str) -> (r: Result<(), DbError>)
        requires
            old(self).wf(),
        ensures
            final(self).wf(),
            r is Ok,
            final(self)@ == (DbModel {
                settings: old(self)@.settings.insert(key@, value@),
                ..old(self)@
            }),
    {
        let _ = self.settings.put(key.to_owned(), value.to_owned());
        Ok(())
    }

    /// Deletes one setting. A key without a row is no error: of two panels that
    /// delete it, the later one has reached its aim as well.
    pub fn delete_setting(&mut self, key: &str) -> (r: Result<(), DbError>)
        requires
            old(self).wf(),
        ensures
            final(self).wf(),
            r is Ok,
            final(self)@ == (DbModel {
                settings: old(self)@.settings.remove(key@),
                ..old(self)@
            }),
    {
        let _ = self.settings.delete(&key.to_owned());
        Ok(())
    }
}

} // verus!
