//! The plugin table, and the settings that belong to plugins.

use vstd::prelude::*;

use crate::db::{
    opt_text, DataKey, DataModel, Db, DbError, DbModel, PluginModel, PluginRow, UploadKey,
};
use crate::outside::{clock_second, utc_now};
use crate::table::{RowKey, Table};
use crate::text::{same_text, starts_with};

verus! {

broadcast use vstd::seq_lib::group_seq_properties;

/// The id of the next plugin: one more than the greatest in use.
pub open spec fn next_id(plugins: Map<i64, PluginModel>) -> int {
    let rows = crate::table::in_order::<i64, PluginModel>(plugins);
    if rows.len() == 0 {
        1
    } else {
        rows.last().0 + 1
    }
}

/// The ids of the plugins under the order of their uploads.
pub open spec fn upload_index(plugins: Map<i64, PluginModel>) -> Map<(i64, i64), i64> {
    Map::new(
        |k: (i64, i64)| plugins.contains_key(k.1) && plugins[k.1].uploaded_at == k.0,
        |k: (i64, i64)| k.1,
    )
}

/// The plugins, the newest upload first.
pub open spec fn newest_first(plugins: Map<i64, PluginModel>) -> Seq<PluginModel> {
    let rows = crate::table::in_order::<UploadKey, i64>(upload_index(plugins));
    Seq::new(rows.len(), |i: int| plugins[rows[i].1])
}

/// The rows are those of `plugins`, each once.
pub open spec fn lists_rows(rows: Seq<PluginModel>, plugins: Map<i64, PluginModel>) -> bool {
    &&& forall|i: int|
        0 <= i < rows.len() ==> plugins.contains_key((#[trigger] rows[i]).id)
            && plugins[rows[i].id] == rows[i]
    &&& forall|i: int, j: int|
        0 <= i < j < rows.len() ==> (#[trigger] rows[i]).id != (#[trigger] rows[j]).id
    &&& forall|id: i64| #[trigger]
        plugins.contains_key(id) ==> exists|i: int|
            0 <= i < rows.len() && #[trigger] rows[i] == plugins[id]
}

/// The rows stand in the order of their uploads.
pub open spec fn uploads_descend(rows: Seq<PluginModel>) -> bool {
    forall|i: int, j: int|
        0 <= i < j < rows.len() ==> <UploadKey as RowKey>::before(
            ((#[trigger] rows[i]).uploaded_at, rows[i].id),
            ((#[trigger] rows[j]).uploaded_at, rows[j].id),
        )
}

/// The listing of uploads has every plugin once, the newest first.
pub proof fn lemma_newest_first(plugins: Map<i64, PluginModel>)
    requires
        plugins.dom().finite(),
        forall|id: i64| #[trigger] plugins.contains_key(id) ==> plugins[id].id == id,
    ensures
        lists_rows(newest_first(plugins), plugins),
        uploads_descend(newest_first(plugins)),
{
    let index = upload_index(plugins);
    let rows = crate::table::in_order::<UploadKey, i64>(index);
    assert(index.dom().finite()) by {
        let keys = plugins.dom().map(|id: i64| (plugins[id].uploaded_at, id));
        plugins.dom().lemma_map_finite(|id: i64| (plugins[id].uploaded_at, id));
        assert forall|k: (i64, i64)| #[trigger] index.dom().contains(k) implies keys.contains(
            k,
        ) by {
            assert(plugins.dom().contains(k.1));
        }
        assert(index.dom().subset_of(keys));
        vstd::set_lib::lemma_set_subset_finite(keys, index.dom());
    }
    crate::table::lemma_listed::<UploadKey, i64>(index);
    let listing = newest_first(plugins);
    assert forall|i: int| 0 <= i < listing.len() implies plugins.contains_key(
        (#[trigger] listing[i]).id,
    ) && plugins[listing[i].id] == listing[i] && rows[i].0 == (
        listing[i].uploaded_at,
        listing[i].id,
    ) by {
        assert(index.contains_key(rows[i].0));
        assert(plugins.contains_key(rows[i].0.1));
    }
    assert forall|i: int, j: int| 0 <= i < j < listing.len() implies <UploadKey as RowKey>::before(
        ((#[trigger] listing[i]).uploaded_at, listing[i].id),
        ((#[trigger] listing[j]).uploaded_at, listing[j].id),
    ) by {
        assert(rows[i].0 == (listing[i].uploaded_at, listing[i].id));
        assert(rows[j].0 == (listing[j].uploaded_at, listing[j].id));
    }
    assert forall|i: int, j: int| 0 <= i < j < listing.len() implies (#[trigger] listing[i]).id != (
    #[trigger] listing[j]).id by {
        if listing[i].id == listing[j].id {
            assert(listing[i] == listing[j]);
        }
    }
    assert forall|id: i64| #[trigger] plugins.contains_key(id) implies exists|i: int|
        0 <= i < listing.len() && #[trigger] listing[i] == plugins[id] by {
        let k = (plugins[id].uploaded_at, id);
        assert(index.contains_key(k));
        let i = choose|i: int| 0 <= i < rows.len() && (#[trigger] rows[i]).0 == k;
        assert(listing[i] == plugins[id]);
    }
}

/// The enabled plugins.
pub open spec fn enabled_only(plugins: Map<i64, PluginModel>) -> Map<i64, PluginModel> {
    Map::new(
        |id: i64| plugins.contains_key(id) && plugins[id].enabled,
        |id: i64| plugins[id],
    )
}

/// What a sequence of rows says.
pub open spec fn row_models(rows: Seq<PluginRow>) -> Seq<PluginModel> {
    Seq::new(rows.len(), |i: int| rows[i]@)
}

/// A plugin as it is stored on upload: disabled, without an error.
pub open spec fn uploaded_plugin(
    id: int,
    plugin_id: Seq<char>,
    name: Seq<char>,
    version: Seq<char>,
    manifest_json: Seq<char>,
    wasm_blob: Seq<u8>,
    wasm_sha256: Seq<char>,
    now: i64,
) -> PluginModel {
    PluginModel {
        id: id as i64,
        plugin_id,
        name,
        version,
        manifest_json,
        wasm_blob,
        wasm_sha256,
        enabled: false,
        status: "disabled"@,
        last_error: None,
        uploaded_at: now,
    }
}

/// What an upload at the second `now` does: it is refused where the `plugin_id`
/// is taken or no id is left, and else stored under the next id.
pub open spec fn upload_outcome(
    before: DbModel,
    plugin_id: Seq<char>,
    name: Seq<char>,
    version: Seq<char>,
    manifest_json: Seq<char>,
    wasm_blob: Seq<u8>,
    wasm_sha256: Seq<char>,
    now: i64,
    r: Result<PluginRow, DbError>,
    after: DbModel,
) -> bool {
    let id = next_id(before.plugins);
    let row = uploaded_plugin(
        id,
        plugin_id,
        name,
        version,
        manifest_json,
        wasm_blob,
        wasm_sha256,
        now,
    );
    match r {
        Ok(stored) => {
            &&& !before.has_plugin(plugin_id)
            &&& id <= i64::MAX
            &&& stored@ == row
            &&& after == DbModel { plugins: before.plugins.insert(id as i64, row), ..before }
        },
        Err(DbError::AlreadyUploaded { plugin_id: taken }) => {
            &&& before.has_plugin(plugin_id)
            &&& taken@ == plugin_id
            &&& after == before
        },
        Err(DbError::IdsExhausted) => {
            &&& !before.has_plugin(plugin_id)
            &&& id > i64::MAX
            &&& after == before
        },
        Err(_) => false,
    }
}

/// A plugin that was switched on or off: `status` mirrors `enabled`, and the
/// last error is gone.
pub open spec fn switched(row: PluginModel, enabled: bool) -> PluginModel {
    PluginModel {
        enabled,
        status: if enabled {
            "enabled"@
        } else {
            "disabled"@
        },
        last_error: None,
        ..row
    }
}

/// The settings that hold a plugin's key/value pairs begin with this.
pub open spec fn kv_prefix(plugin_id: Seq<char>) -> Seq<char> {
    "plugin."@ + plugin_id + seq![':']
}

/// The settings that do not begin with `prefix`.
pub open spec fn without_prefix(
    settings: Map<Seq<char>, Seq<char>>,
    prefix: Seq<char>,
) -> Map<Seq<char>, Seq<char>> {
    Map::new(
        |k: Seq<char>| settings.contains_key(k) && !prefix.is_prefix_of(k),
        |k: Seq<char>| settings[k],
    )
}

/// The records of all plugins but one.
pub open spec fn without_plugin(
    data: Map<(Seq<char>, Seq<char>), DataModel>,
    plugin_id: Seq<char>,
) -> Map<(Seq<char>, Seq<char>), DataModel> {
    Map::new(
        |k: (Seq<char>, Seq<char>)| data.contains_key(k) && k.0 != plugin_id,
        |k: (Seq<char>, Seq<char>)| data[k],
    )
}

/// Pairs of texts.
pub open spec fn pair_texts(pairs: Seq<(String, String)>) -> Seq<(Seq<char>, Seq<char>)> {
    Seq::new(pairs.len(), |i: int| (pairs[i].0@, pairs[i].1@))
}

/// The settings that begin with `prefix`, in the order of their keys, each
/// with its key behind the prefix.
pub open spec fn kv_pairs(
    settings: Map<Seq<char>, Seq<char>>,
    prefix: Seq<char>,
) -> Seq<(Seq<char>, Seq<char>)> {
    crate::table::in_order::<String, Seq<char>>(settings).filter(
        |row: (Seq<char>, Seq<char>)| prefix.is_prefix_of(row.0),
    ).map_values(|row: (Seq<char>, Seq<char>)| (row.0.skip(prefix.len() as int), row.1))
}

/// The name of a plugin's settings in front of the key.
pub fn kv_prefix_text(plugin_id: &str) -> (r: String)
    ensures
        r@ == kv_prefix(plugin_id@),
{
    let mut r = "plugin.".to_owned();
    r.append(plugin_id);
    r.push(':');
    assert(r@ =~= kv_prefix(plugin_id@));
    r
}

/// Settings of plugins whose ids are different and hold no colon have different
/// names.
pub proof fn lemma_kv_names_differ(a: Seq<char>, k: Seq<char>, b: Seq<char>, l: Seq<char>)
    requires
        !a.contains(':'),
        !b.contains(':'),
        a != b,
    ensures
        kv_prefix(a) + k != kv_prefix(b) + l,
{
    let front = "plugin."@;
    let x = kv_prefix(a) + k;
    let y = kv_prefix(b) + l;
    let f = front.len() as int;
    if x == y {
        let n = a.len() as int;
        let m = b.len() as int;
        assert(x[f + n] == ':');
        assert(y[f + m] == ':');
        if n < m {
            assert(y[f + n] == b[n]);
            assert(b.contains(':'));
        } else if m < n {
            assert(x[f + m] == a[m]);
            assert(a.contains(':'));
        } else {
            assert forall|i: int| 0 <= i < n implies a[i] == b[i] by {
                assert(x[f + i] == a[i]);
                assert(y[f + i] == b[i]);
            }
            assert(a =~= b);
        }
    }
}

impl Db {
    /// Stores an uploaded plugin and returns the row as it now stands. A
    /// `plugin_id` that is taken is an error rather than a silent clobber of
    /// the previous upload.
    pub fn create_plugin(
        &mut self,
        plugin_id: &str,
        name: &str,
        version: &str,
        manifest_json: &str,
        wasm_blob: &[u8],
        wasm_sha256: &str,
    ) -> (r: Result<PluginRow, DbError>)
        requires
            old(self).wf(),
        ensures
            final(self).wf(),
            exists|now: i64|
                clock_second(now) && #[trigger] upload_outcome(
                    old(self)@,
                    plugin_id@,
                    name@,
                    version@,
                    manifest_json@,
                    wasm_blob@,
                    wasm_sha256@,
                    now,
                    r,
                    final(self)@,
                ),
    {
        let now: i64 = utc_now();
        self.create_plugin_at(plugin_id, name, version, manifest_json, wasm_blob, wasm_sha256, now)
    }

    /// Stores a plugin that was uploaded at the second `now`.
    pub fn create_plugin_at(
        &mut self,
        plugin_id: &str,
        name: &str,
        version: &str,
        manifest_json: &str,
        wasm_blob: &[u8],
        wasm_sha256: &str,
        now: i64,
    ) -> (r: Result<PluginRow, DbError>)
        requires
            old(self).wf(),
        ensures
            final(self).wf(),
            upload_outcome(
                old(self)@,
                plugin_id@,
                name@,
                version@,
                manifest_json@,
                wasm_blob@,
                wasm_sha256@,
                now,
                r,
                final(self)@,
            ),
    {
        if self.plugin_id_taken(plugin_id) {
            return Err(DbError::AlreadyUploaded { plugin_id: plugin_id.to_owned() });
        }
        let n: usize = self.plugins.len();
        let id: i64 = if n == 0 {
            1
        } else {
            let last: i64 = *self.plugins.key_at(n - 1);
            if last == i64::MAX {
                return Err(DbError::IdsExhausted);
            }
            last + 1
        };
        let row = PluginRow {
            id,
            plugin_id: plugin_id.to_owned(),
            name: name.to_owned(),
            version: version.to_owned(),
            manifest_json: manifest_json.to_owned(),
            wasm_blob: vstd::slice::slice_to_vec(wasm_blob),
            wasm_sha256: wasm_sha256.to_owned(),
            enabled: false,
            status: "disabled".to_owned(),
            last_error: None,
            uploaded_at: now,
        };
        proof {
            let rows = crate::table::in_order::<i64, PluginModel>(self@.plugins);
            if self@.plugins.contains_key(id) {
                let i = choose|i: int| 0 <= i < rows.len() && (#[trigger] rows[i]).0 == id;
                assert(rows[i].0 <= rows.last().0) by {
                    if i < rows.len() - 1 {
                        assert(<i64 as RowKey>::before(rows[i].0, rows[rows.len() - 1].0));
                    }
                }
            }
            assert(!self@.plugins.contains_key(id));
        }
        let _ = self.plugins.put(id, row.clone());
        Ok(row)
    }

    /// Whether a plugin has this `plugin_id`.
    pub(super) fn plugin_id_taken(&self, plugin_id: &str) -> (r: bool)
        requires
            self.wf(),
        ensures
            r == self@.has_plugin(plugin_id@),
    {
        let n: usize = self.plugins.len();
        let ghost rows = crate::table::in_order::<i64, PluginModel>(self@.plugins);
        let mut i: usize = 0;
        while i < n
            invariant
                i <= n,
                n == self@.plugins.len(),
                n == rows.len(),
                self.wf(),
                rows == crate::table::in_order::<i64, PluginModel>(self@.plugins),
                crate::table::lists::<i64, PluginModel>(rows, self@.plugins),
                forall|j: int| 0 <= j < i ==> (#[trigger] rows[j]).1.plugin_id != plugin_id@,
            decreases n - i,
        {
            if same_text(self.plugins.value_at(i).plugin_id.as_str(), plugin_id) {
                assert(self@.plugins.contains_key(rows[i as int].0));
                return true;
            }
            i = i + 1;
        }
        proof {
            if self@.has_plugin(plugin_id@) {
                let id = choose|id: i64| #[trigger]
                    self@.plugins.contains_key(id) && self@.plugins[id].plugin_id == plugin_id@;
                let j = choose|j: int| 0 <= j < rows.len() && (#[trigger] rows[j]).0 == id;
                assert(rows[j].1.plugin_id != plugin_id@);
            }
        }
        false
    }
}

/// The plugins that a listing is about.
spec fn selected(plugins: Map<i64, PluginModel>, only_enabled: bool) -> Map<i64, PluginModel> {
    if only_enabled {
        enabled_only(plugins)
    } else {
        plugins
    }
}

impl Db {
    /// The ids of the plugins, the newest upload first.
    fn ids_newest_first(&self, only_enabled: bool) -> (ids: Vec<i64>)
        requires
            self.wf(),
        ensures
            ids@.len() == newest_first(selected(self@.plugins, only_enabled)).len(),
            forall|i: int|
                0 <= i < ids@.len() ==> {
                    &&& self@.plugins.contains_key(#[trigger] ids@[i])
                    &&& newest_first(selected(self@.plugins, only_enabled))[i]
                        == self@.plugins[ids@[i]]
                },
    {
        let n: usize = self.plugins.len();
        let ghost rows = crate::table::in_order::<i64, PluginModel>(self@.plugins);
        let ghost wanted = selected(self@.plugins, only_enabled);
        let mut index: Table<UploadKey, i64> = Table::new();
        let mut i: usize = 0;
        while i < n
            invariant
                i <= n,
                n == self@.plugins.len(),
                n == rows.len(),
                self.wf(),
                index.wf(),
                rows == crate::table::in_order::<i64, PluginModel>(self@.plugins),
                crate::table::lists::<i64, PluginModel>(rows, self@.plugins),
                forall|k: (i64, i64)| #[trigger]
                    index@.contains_key(k) <==> exists|j: int|
                        0 <= j < i && (#[trigger] rows[j]).0 == k.1 && rows[j].1.uploaded_at == k.0
                            && (only_enabled ==> rows[j].1.enabled),
                forall|k: (i64, i64)| #[trigger] index@.contains_key(k) ==> index@[k] == k.1,
            decreases n - i,
        {
            let id: i64 = *self.plugins.key_at(i);
            let row = self.plugins.value_at(i);
            let ghost before = index@;
            assert(rows[i as int] == (id, row@));
            if !only_enabled || row.enabled {
                let _ = index.put(UploadKey { uploaded_at: row.uploaded_at, id }, id);
            }
            assert forall|k: (i64, i64)| #[trigger] index@.contains_key(k) implies exists|j: int|
                0 <= j < i + 1 && (#[trigger] rows[j]).0 == k.1 && rows[j].1.uploaded_at == k.0 && (
                only_enabled ==> rows[j].1.enabled) by {
                if before.contains_key(k) {
                    let j = choose|j: int|
                        0 <= j < i && (#[trigger] rows[j]).0 == k.1 && rows[j].1.uploaded_at == k.0
                            && (only_enabled ==> rows[j].1.enabled);
                    assert(rows[j].0 == k.1);
                } else {
                    assert(rows[i as int].0 == k.1);
                }
            }
            i = i + 1;
        }
        proof {
            assert forall|k: (i64, i64)| #[trigger]
                index@.contains_key(k) == upload_index(wanted).contains_key(k) by {
                if upload_index(wanted).contains_key(k) {
                    assert(self@.plugins.contains_key(k.1));
                    let j = choose|j: int| 0 <= j < rows.len() && (#[trigger] rows[j]).0 == k.1;
                    assert(rows[j].1 == self@.plugins[k.1]);
                }
                if index@.contains_key(k) {
                    let j = choose|j: int|
                        0 <= j < i && (#[trigger] rows[j]).0 == k.1 && rows[j].1.uploaded_at == k.0
                            && (only_enabled ==> rows[j].1.enabled);
                    assert(self@.plugins.contains_key(rows[j].0));
                }
            }
            assert(index@ =~= upload_index(wanted));
        }
        let m: usize = index.len();
        let ghost order = crate::table::in_order::<UploadKey, i64>(index@);
        let mut ids: Vec<i64> = Vec::new();
        let mut i: usize = 0;
        while i < m
            invariant
                i <= m,
                m == order.len(),
                m == index@.len(),
                index.wf(),
                order == crate::table::in_order::<UploadKey, i64>(index@),
                crate::table::lists::<UploadKey, i64>(order, index@),
                index@ == upload_index(wanted),
                wanted == selected(self@.plugins, only_enabled),
                ids@.len() == i,
                forall|j: int| 0 <= j < i ==> #[trigger] ids@[j] == order[j].1,
                forall|j: int| 0 <= j < i ==> self@.plugins.contains_key(#[trigger] ids@[j]),
                forall|j: int|
                    0 <= j < i ==> newest_first(wanted)[j] == self@.plugins[#[trigger] ids@[j]],
            decreases m - i,
        {
            let id: i64 = *index.value_at(i);
            assert(index@.contains_key(order[i as int].0));
            ids.push(id);
            i = i + 1;
        }
        ids
    }

    /// All plugins, the newest upload first.
    pub fn list_plugins(&self) -> (r: Result<Vec<PluginRow>, DbError>)
        requires
            self.wf(),
        ensures
            r matches Ok(rows) && row_models(rows@) == newest_first(self@.plugins),
    {
        let ids = self.ids_newest_first(false);
        Ok(self.rows_of(&ids))
    }

    /// Every enabled plugin, for the registry's startup preload: a disabled
    /// plugin's module is never compiled, so it is not read either.
    pub fn enabled_plugins(&self) -> (r: Result<Vec<PluginRow>, DbError>)
        requires
            self.wf(),
        ensures
            r matches Ok(rows) && row_models(rows@) == newest_first(enabled_only(self@.plugins)),
    {
        let ids = self.ids_newest_first(true);
        Ok(self.rows_of(&ids))
    }

    fn rows_of(&self, ids: &Vec<i64>) -> (rows: Vec<PluginRow>)
        requires
            self.wf(),
            forall|i: int| 0 <= i < ids@.len() ==> self@.plugins.contains_key(#[trigger] ids@[i]),
        ensures
            rows@.len() == ids@.len(),
            forall|i: int| 0 <= i < rows@.len() ==> (#[trigger] rows@[i])@ == self@.plugins[ids@[i]],
    {
        let mut rows: Vec<PluginRow> = Vec::new();
        let mut i: usize = 0;
        while i < ids.len()
            invariant
                i <= ids@.len(),
                self.wf(),
                forall|j: int|
                    0 <= j < ids@.len() ==> self@.plugins.contains_key(#[trigger] ids@[j]),
                rows@.len() == i,
                forall|j: int|
                    0 <= j < i ==> (#[trigger] rows@[j])@ == self@.plugins[ids@[j]],
            decreases ids@.len() - i,
        {
            assert(self@.plugins.contains_key(ids@[i as int]));
            if let Some(row) = self.plugins.get(&ids[i]) {
                rows.push(row.clone());
            }
            i = i + 1;
        }
        rows
    }

    /// The panel's list: every row without the module's bytes.
    pub fn plugin_summaries(&self) -> (r: Result<Vec<PluginRow>, DbError>)
        requires
            self.wf(),
        ensures
            r matches Ok(rows) && row_models(rows@) == newest_first(self@.plugins).map_values(
                |row: PluginModel| row.summary(),
            ),
    {
        let ids = self.ids_newest_first(false);
        let ghost listed = newest_first(self@.plugins);
        let mut rows: Vec<PluginRow> = Vec::new();
        let mut i: usize = 0;
        while i < ids.len()
            invariant
                i <= ids@.len(),
                self.wf(),
                listed == newest_first(self@.plugins),
                ids@.len() == listed.len(),
                forall|j: int|
                    0 <= j < ids@.len() ==> {
                        &&& self@.plugins.contains_key(#[trigger] ids@[j])
                        &&& listed[j] == self@.plugins[ids@[j]]
                    },
                rows@.len() == i,
                forall|j: int| 0 <= j < i ==> (#[trigger] rows@[j])@ == listed[j].summary(),
            decreases ids@.len() - i,
        {
            assert(self@.plugins.contains_key(ids@[i as int]));
            if let Some(row) = self.plugins.get(&ids[i]) {
                rows.push(row.summary());
            }
            i = i + 1;
        }
        assert(row_models(rows@) =~= listed.map_values(|row: PluginModel| row.summary()));
        Ok(rows)
    }

    /// The `plugin_id` behind a row, or `None` when there is no such row.
    pub fn plugin_id_of(&self, id: i64) -> (r: Result<Option<String>, DbError>)
        requires
            self.wf(),
        ensures
            r matches Ok(found) && opt_text(found) == (if self@.plugins.contains_key(id) {
                Some(self@.plugins[id].plugin_id)
            } else {
                None
            }),
    {
        match self.plugins.get(&id) {
            Some(row) => Ok(Some(row.plugin_id.clone())),
            None => Ok(None),
        }
    }

    /// One plugin by its row id.
    pub fn get_plugin(&self, id: i64) -> (r: Result<Option<PluginRow>, DbError>)
        requires
            self.wf(),
        ensures
            match r {
                Ok(Some(row)) => self@.plugins.contains_key(id) && row@ == self@.plugins[id],
                Ok(None) => !self@.plugins.contains_key(id),
                Err(_) => false,
            },
    {
        match self.plugins.get(&id) {
            Some(row) => Ok(Some(row.clone())),
            None => Ok(None),
        }
    }

    /// Switches a plugin on or off. `status` mirrors `enabled`, so a reader
    /// that only looks at one of them cannot be lied to, and a fresh enable
    /// starts from no error.
    pub fn set_plugin_enabled(&mut self, id: i64, enabled: bool) -> (r: Result<(), DbError>)
        requires
            old(self).wf(),
        ensures
            final(self).wf(),
            r is Ok,
            final(self)@ == (if old(self)@.plugins.contains_key(id) {
                DbModel {
                    plugins: old(self)@.plugins.insert(id, switched(old(self)@.plugins[id], enabled)),
                    ..old(self)@
                }
            } else {
                old(self)@
            }),
    {
        if let Some(mut row) = self.plugins.take(&id) {
            row.enabled = enabled;
            row.status =
            if enabled {
                "enabled".to_owned()
            } else {
                "disabled".to_owned()
            };
            row.last_error = None;
            let ghost changed = row@;
            let _ = self.plugins.put(id, row);
            assert(changed == switched(old(self)@.plugins[id], enabled));
            assert(self@.plugins =~= old(self)@.plugins.insert(id, changed));
        } else {
            assert(self@.plugins =~= old(self)@.plugins);
        }
        Ok(())
    }

    /// Records the loader's verdict on a plugin: running, disabled, or failed
    /// with the error that stopped it.
    pub fn set_plugin_status(&mut self, id: i64, status: &str, last_error: Option<&str>) -> (r: Result<
        (),
        DbError,
    >)
        requires
            old(self).wf(),
        ensures
            final(self).wf(),
            r is Ok,
            final(self)@ == (if old(self)@.plugins.contains_key(id) {
                DbModel {
                    plugins: old(self)@.plugins.insert(
                        id,
                        (PluginModel {
                            status: status@,
                            last_error: (match last_error {
                                Some(e) => Some(e@),
                                None => None,
                            }),
                            ..old(self)@.plugins[id]
                        }),
                    ),
                    ..old(self)@
                }
            } else {
                old(self)@
            }),
    {
        if let Some(mut row) = self.plugins.take(&id) {
            row.status = status.to_owned();
            row.last_error = match last_error {
                Some(e) => Some(e.to_owned()),
                None => None,
            };
            let ghost changed = row@;
            let _ = self.plugins.put(id, row);
            assert(self@.plugins =~= old(self)@.plugins.insert(id, changed));
        } else {
            assert(self@.plugins =~= old(self)@.plugins);
        }
        Ok(())
    }

    /// Deletes a plugin row. An id that matches nothing is an error rather than
    /// a success that changed nothing.
    pub fn delete_plugin(&mut self, id: i64) -> (r: Result<(), DbError>)
        requires
            old(self).wf(),
        ensures
            final(self).wf(),
            match r {
                Ok(()) => {
                    &&& old(self)@.plugins.contains_key(id)
                    &&& final(self)@ == (DbModel {
                        plugins: old(self)@.plugins.remove(id),
                        ..old(self)@
                    })
                },
                Err(e) => {
                    &&& !old(self)@.plugins.contains_key(id)
                    &&& e == DbError::NoPlugin { id }
                    &&& final(self)@ == old(self)@
                },
            },
    {
        if self.plugins.contains(&id) {
            let _ = self.plugins.delete(&id);
            Ok(())
        } else {
            Err(DbError::NoPlugin { id })
        }
    }

    /// Deletes a plugin's row, all its settings and all its records: all of
    /// them, or nothing where the row is gone.
    pub fn delete_plugin_with_kv(&mut self, id: i64, plugin_id: &str) -> (r: Result<(), DbError>)
        requires
            old(self).wf(),
        ensures
            final(self).wf(),
            match r {
                Ok(()) => {
                    &&& old(self)@.plugins.contains_key(id)
                    &&& final(self)@ == (DbModel {
                        plugins: old(self)@.plugins.remove(id),
                        settings: without_prefix(old(self)@.settings, kv_prefix(plugin_id@)),
                        data: without_plugin(old(self)@.data, plugin_id@),
                        log: old(self)@.log,
                    })
                },
                Err(e) => {
                    &&& !old(self)@.plugins.contains_key(id)
                    &&& e == DbError::NoPlugin { id }
                    &&& final(self)@ == old(self)@
                },
            },
    {
        match self.delete_plugin(id) {
            Err(e) => Err(e),
            Ok(()) => {
                let _ = self.delete_plugin_kv(plugin_id);
                let _ = self.delete_plugin_data(plugin_id);
                Ok(())
            },
        }
    }

    /// A plugin's settings: the key behind `plugin.<plugin_id>:` and the value,
    /// in the order of the keys. The prefix is compared character by character.
    pub fn plugin_kv(&self, plugin_id: &str) -> (r: Result<Vec<(String, String)>, DbError>)
        requires
            self.wf(),
        ensures
            r matches Ok(pairs) && pair_texts(pairs@) == kv_pairs(
                self@.settings,
                kv_prefix(plugin_id@),
            ),
    {
        let prefix = kv_prefix_text(plugin_id);
        let n: usize = self.settings.len();
        let skip: usize = crate::text::chars_of(prefix.as_str()).len();
        let ghost rows = crate::table::in_order::<String, Seq<char>>(self@.settings);
        let ghost p = |row: (Seq<char>, Seq<char>)| prefix@.is_prefix_of(row.0);
        let ghost f = |row: (Seq<char>, Seq<char>)| (row.0.skip(prefix@.len() as int), row.1);
        let mut pairs: Vec<(String, String)> = Vec::new();
        let mut i: usize = 0;
        assert(pair_texts(pairs@) =~= rows.take(0).filter(p).map_values(f)) by {
            reveal(Seq::filter);
        }
        while i < n
            invariant
                i <= n,
                n == rows.len(),
                n == self@.settings.len(),
                self.wf(),
                rows == crate::table::in_order::<String, Seq<char>>(self@.settings),
                skip == prefix@.len(),
                p == (|row: (Seq<char>, Seq<char>)| prefix@.is_prefix_of(row.0)),
                f == (|row: (Seq<char>, Seq<char>)|
                    (row.0.skip(prefix@.len() as int), row.1)),
                pair_texts(pairs@) == rows.take(i as int).filter(p).map_values(f),
            decreases n - i,
        {
            proof {
                crate::table::lemma_filter_step(rows, p, i as int);
            }
            let key = self.settings.key_at(i);
            if starts_with(key.as_str(), prefix.as_str()) {
                let chars = crate::text::chars_of(key.as_str());
                let rest = crate::text::text_of(&chars, skip, chars.len());
                assert(rest@ =~= rows[i as int].0.skip(prefix@.len() as int));
                let ghost before = pairs@;
                pairs.push((rest, self.settings.value_at(i).clone()));
                assert(pair_texts(pairs@) =~= pair_texts(before).push(f(rows[i as int])));
                assert(rows.take(i as int).filter(p).push(rows[i as int]).map_values(f)
                    =~= rows.take(i as int).filter(p).map_values(f).push(f(rows[i as int])));
            }
            i = i + 1;
        }
        assert(rows.take(i as int) =~= rows);
        Ok(pairs)
    }

    /// Deletes a plugin's settings and returns how many there were.
    pub fn delete_plugin_kv(&mut self, plugin_id: &str) -> (r: Result<usize, DbError>)
        requires
            old(self).wf(),
        ensures
            final(self).wf(),
            final(self)@ == (DbModel {
                settings: without_prefix(old(self)@.settings, kv_prefix(plugin_id@)),
                ..old(self)@
            }),
            r matches Ok(gone) && gone == old(self)@.settings.len() - final(self)@.settings.len(),
    {
        let prefix = kv_prefix_text(plugin_id);
        let mut i: usize = 0;
        let mut gone: usize = 0;
        let mut left: usize = self.settings.len();
        while i < left
            invariant
                i <= left,
                left == self@.settings.len(),
                left == crate::table::in_order::<String, Seq<char>>(self@.settings).len(),
                crate::table::lists::<String, Seq<char>>(
                    crate::table::in_order::<String, Seq<char>>(self@.settings),
                    self@.settings,
                ),
                gone + left == old(self)@.settings.len(),
                old(self)@.settings.len() <= usize::MAX,
                self.wf(),
                self@ == (DbModel { settings: self@.settings, ..old(self)@ }),
                forall|k: Seq<char>| #[trigger]
                    self@.settings.contains_key(k) ==> old(self)@.settings.contains_key(k)
                        && self@.settings[k] == old(self)@.settings[k],
                forall|k: Seq<char>| #[trigger]
                    old(self)@.settings.contains_key(k) && !prefix@.is_prefix_of(k)
                        ==> self@.settings.contains_key(k),
                forall|j: int|
                    0 <= j < i ==> !prefix@.is_prefix_of(
                        (#[trigger] crate::table::in_order::<String, Seq<char>>(
                            self@.settings,
                        )[j]).0,
                    ),
            decreases left - i,
        {
            if starts_with(self.settings.key_at(i).as_str(), prefix.as_str()) {
                let _ = self.settings.remove_at(i);
                gone = gone + 1;
                left = self.settings.len();
            } else {
                i = i + 1;
            }
        }
        proof {
            let rows = crate::table::in_order::<String, Seq<char>>(self@.settings);
            assert forall|k: Seq<char>| #[trigger] self@.settings.contains_key(k) implies !prefix@.is_prefix_of(
                k,
            ) by {
                let j = choose|j: int| 0 <= j < rows.len() && (#[trigger] rows[j]).0 == k;
                assert(!prefix@.is_prefix_of(rows[j].0));
            }
            assert(self@.settings =~= without_prefix(old(self)@.settings, prefix@));
        }
        Ok(gone)
    }

    /// Deletes a plugin's records and returns how many there were.
    pub fn delete_plugin_data(&mut self, plugin_id: &str) -> (r: Result<usize, DbError>)
        requires
            old(self).wf(),
        ensures
            final(self).wf(),
            final(self)@ == (DbModel {
                data: without_plugin(old(self)@.data, plugin_id@),
                ..old(self)@
            }),
            r matches Ok(gone) && gone == old(self)@.data.len() - final(self)@.data.len(),
    {
        let mut i: usize = 0;
        let mut gone: usize = 0;
        let mut left: usize = self.data.len();
        while i < left
            invariant
                i <= left,
                left == self@.data.len(),
                left == crate::table::in_order::<DataKey, DataModel>(self@.data).len(),
                crate::table::lists::<DataKey, DataModel>(
                    crate::table::in_order::<DataKey, DataModel>(self@.data),
                    self@.data,
                ),
                gone + left == old(self)@.data.len(),
                old(self)@.data.len() <= usize::MAX,
                self.wf(),
                self@ == (DbModel { data: self@.data, ..old(self)@ }),
                forall|k: (Seq<char>, Seq<char>)| #[trigger]
                    self@.data.contains_key(k) ==> old(self)@.data.contains_key(k)
                        && self@.data[k] == old(self)@.data[k],
                forall|k: (Seq<char>, Seq<char>)| #[trigger]
                    old(self)@.data.contains_key(k) && k.0 != plugin_id@
                        ==> self@.data.contains_key(k),
                forall|j: int|
                    0 <= j < i ==> (#[trigger] crate::table::in_order::<DataKey, DataModel>(
                        self@.data,
                    )[j]).0.0 != plugin_id@,
            decreases left - i,
        {
            if same_text(self.data.key_at(i).plugin_id.as_str(), plugin_id) {
                let _ = self.data.remove_at(i);
                gone = gone + 1;
                left = self.data.len();
            } else {
                i = i + 1;
            }
        }
        proof {
            let rows = crate::table::in_order::<DataKey, DataModel>(self@.data);
            assert forall|k: (Seq<char>, Seq<char>)| #[trigger]
                self@.data.contains_key(k) implies k.0 != plugin_id@ by {
                let j = choose|j: int| 0 <= j < rows.len() && (#[trigger] rows[j]).0 == k;
                assert(rows[j].0.0 != plugin_id@);
            }
            assert(self@.data =~= without_plugin(old(self)@.data, plugin_id@));
        }
        Ok(gone)
    }
}

} // verus!
