//! The rows of the tables and the keys they stand under.

use vstd::prelude::*;

use crate::table::{Rel, RowKey};

verus! {

broadcast use vstd::seq_lib::group_seq_properties;

/// The text in an optional string.
pub open spec fn opt_text(o: Option<String>) -> Option<Seq<char>> {
    match o {
        Some(s) => Some(s@),
        None => None,
    }
}

/// What a plugin row says.
pub ghost struct PluginModel {
    pub id: i64,
    pub plugin_id: Seq<char>,
    pub name: Seq<char>,
    pub version: Seq<char>,
    pub manifest_json: Seq<char>,
    pub wasm_blob: Seq<u8>,
    pub wasm_sha256: Seq<char>,
    pub enabled: bool,
    pub status: Seq<char>,
    pub last_error: Option<Seq<char>>,
    pub uploaded_at: i64,
}

impl PluginModel {
    /// The row without the module's bytes.
    pub open spec fn summary(self) -> PluginModel {
        PluginModel { wasm_blob: Seq::empty(), ..self }
    }
}

/// One stored plugin: its manifest, wasm bytes and lifecycle flags.
#[derive(Debug)]
pub struct PluginRow {
    pub id: i64,
    pub plugin_id: String,
    pub name: String,
    pub version: String,
    pub manifest_json: String,
    /// Empty in the summary view served to the panel's list: the wasm module
    /// is megabytes and the list needs none of it.
    pub wasm_blob: Vec<u8>,
    pub wasm_sha256: String,
    pub enabled: bool,
    pub status: String,
    pub last_error: Option<String>,
    pub uploaded_at: i64,
}

impl View for PluginRow {
    type V = PluginModel;

    open spec fn view(&self) -> PluginModel {
        PluginModel {
            id: self.id,
            plugin_id: self.plugin_id@,
            name: self.name@,
            version: self.version@,
            manifest_json: self.manifest_json@,
            wasm_blob: self.wasm_blob@,
            wasm_sha256: self.wasm_sha256@,
            enabled: self.enabled,
            status: self.status@,
            last_error: opt_text(self.last_error),
            uploaded_at: self.uploaded_at,
        }
    }
}

fn clone_opt(o: &Option<String>) -> (r: Option<String>)
    ensures
        opt_text(r) == opt_text(*o),
{
    match o {
        Some(s) => Some(s.clone()),
        None => None,
    }
}

impl PluginRow {
    /// The row without the module's bytes.
    pub fn summary(&self) -> (r: PluginRow)
        ensures
            r@ == self@.summary(),
    {
        let r = PluginRow {
            id: self.id,
            plugin_id: self.plugin_id.clone(),
            name: self.name.clone(),
            version: self.version.clone(),
            manifest_json: self.manifest_json.clone(),
            wasm_blob: Vec::new(),
            wasm_sha256: self.wasm_sha256.clone(),
            enabled: self.enabled,
            status: self.status.clone(),
            last_error: clone_opt(&self.last_error),
            uploaded_at: self.uploaded_at,
        };
        assert(r@.wasm_blob =~= Seq::<u8>::empty());
        r
    }
}

impl Clone for PluginRow {
    fn clone(&self) -> (r: Self)
        ensures
            r@ == self@,
    {
        let mut r = self.summary();
        r.wasm_blob = self.wasm_blob.clone();
        assert(r.wasm_blob@ =~= self.wasm_blob@);
        r
    }
}

/// Where a plugin's record stands.
pub struct DataKey {
    pub plugin_id: String,
    pub record_key: String,
}

impl View for DataKey {
    type V = (Seq<char>, Seq<char>);

    open spec fn view(&self) -> (Seq<char>, Seq<char>) {
        (self.plugin_id@, self.record_key@)
    }
}

impl RowKey for DataKey {
    open spec fn before(a: (Seq<char>, Seq<char>), b: (Seq<char>, Seq<char>)) -> bool {
        crate::table::text_before(a.0, b.0) || (a.0 == b.0 && crate::table::text_before(a.1, b.1))
    }

    proof fn lemma_irreflexive(a: (Seq<char>, Seq<char>)) {
        crate::table::lemma_text_irreflexive(a.0);
        crate::table::lemma_text_irreflexive(a.1);
    }

    proof fn lemma_transitive(
        a: (Seq<char>, Seq<char>),
        b: (Seq<char>, Seq<char>),
        c: (Seq<char>, Seq<char>),
    ) {
        if crate::table::text_before(a.0, b.0) && crate::table::text_before(b.0, c.0) {
            crate::table::lemma_text_transitive(a.0, b.0, c.0);
        }
        if a.0 == b.0 && b.0 == c.0 {
            if crate::table::text_before(a.0, b.0) || crate::table::text_before(b.0, c.0) {
                crate::table::lemma_text_irreflexive(a.0);
            } else {
                crate::table::lemma_text_transitive(a.1, b.1, c.1);
            }
        }
    }

    proof fn lemma_total(a: (Seq<char>, Seq<char>), b: (Seq<char>, Seq<char>)) {
        crate::table::lemma_text_total(a.0, b.0);
        crate::table::lemma_text_total(a.1, b.1);
    }

    fn relate(&self, other: &Self) -> (r: Rel) {
        match crate::table::relate_text(self.plugin_id.as_str(), other.plugin_id.as_str()) {
            Rel::Before => Rel::Before,
            Rel::After => Rel::After,
            Rel::Same => crate::table::relate_text(
                self.record_key.as_str(),
                other.record_key.as_str(),
            ),
        }
    }
}

/// What a plugin's record says.
pub ghost struct DataModel {
    pub data: Seq<char>,
    pub updated_at: i64,
}

/// A plugin's record.
pub struct DataRow {
    pub data: String,
    pub updated_at: i64,
}

impl View for DataRow {
    type V = DataModel;

    open spec fn view(&self) -> DataModel {
        DataModel { data: self.data@, updated_at: self.updated_at }
    }
}

/// Where a dispatch stands in the notification log.
pub struct LogKey {
    pub node_id: i64,
    pub event_type: String,
    pub key: i64,
}

impl View for LogKey {
    type V = (i64, Seq<char>, i64);

    open spec fn view(&self) -> (i64, Seq<char>, i64) {
        (self.node_id, self.event_type@, self.key)
    }
}

impl RowKey for LogKey {
    open spec fn before(a: (i64, Seq<char>, i64), b: (i64, Seq<char>, i64)) -> bool {
        ||| a.0 < b.0
        ||| a.0 == b.0 && crate::table::text_before(a.1, b.1)
        ||| a.0 == b.0 && a.1 == b.1 && a.2 < b.2
    }

    proof fn lemma_irreflexive(a: (i64, Seq<char>, i64)) {
        crate::table::lemma_text_irreflexive(a.1);
    }

    proof fn lemma_transitive(
        a: (i64, Seq<char>, i64),
        b: (i64, Seq<char>, i64),
        c: (i64, Seq<char>, i64),
    ) {
        if crate::table::text_before(a.1, b.1) && crate::table::text_before(b.1, c.1) {
            crate::table::lemma_text_transitive(a.1, b.1, c.1);
        }
    }

    proof fn lemma_total(a: (i64, Seq<char>, i64), b: (i64, Seq<char>, i64)) {
        crate::table::lemma_text_total(a.1, b.1);
    }

    fn relate(&self, other: &Self) -> (r: Rel) {
        if self.node_id < other.node_id {
            Rel::Before
        } else if self.node_id > other.node_id {
            Rel::After
        } else {
            match crate::table::relate_text(self.event_type.as_str(), other.event_type.as_str()) {
                Rel::Before => Rel::Before,
                Rel::After => Rel::After,
                Rel::Same => self.key.relate(&other.key),
            }
        }
    }
}

/// What a row of the notification log says.
pub ghost struct LogRowModel {
    pub sent_at: i64,
    pub success: bool,
    pub detail: Seq<char>,
}

/// A row of the notification log.
pub struct LogRow {
    pub sent_at: i64,
    pub success: bool,
    pub detail: String,
}

impl View for LogRow {
    type V = LogRowModel;

    open spec fn view(&self) -> LogRowModel {
        LogRowModel { sent_at: self.sent_at, success: self.success, detail: self.detail@ }
    }
}

/// The order of uploads: the newest first, and of two in the same second the
/// one with the greater id.
pub struct UploadKey {
    pub uploaded_at: i64,
    pub id: i64,
}

impl View for UploadKey {
    type V = (i64, i64);

    open spec fn view(&self) -> (i64, i64) {
        (self.uploaded_at, self.id)
    }
}

impl RowKey for UploadKey {
    open spec fn before(a: (i64, i64), b: (i64, i64)) -> bool {
        a.0 > b.0 || (a.0 == b.0 && a.1 > b.1)
    }

    proof fn lemma_irreflexive(a: (i64, i64)) {
    }

    proof fn lemma_transitive(a: (i64, i64), b: (i64, i64), c: (i64, i64)) {
    }

    proof fn lemma_total(a: (i64, i64), b: (i64, i64)) {
    }

    fn relate(&self, other: &Self) -> (r: Rel) {
        if self.uploaded_at > other.uploaded_at {
            Rel::Before
        } else if self.uploaded_at < other.uploaded_at {
            Rel::After
        } else if self.id > other.id {
            Rel::Before
        } else if self.id < other.id {
            Rel::After
        } else {
            Rel::Same
        }
    }
}

} // verus!
