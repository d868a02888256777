//! The tables: uploads, listings, deletions, and what records take.

use vstd::prelude::*;
use vstd::utf8::*;

use crate::db::{
    count_in, data_bytes, data_count, enabled_only, kv_prefix, like, lists_usage, literal_text,
    newest_first, next_id, opposite, quota_outcome, upload_outcome, without_plugin, without_prefix,
    DataKey, DataModel, DbError, DbModel, PluginModel, PluginRow,
};
use crate::table::in_order;

verus! {

broadcast use vstd::seq_lib::group_seq_properties;

/// The next id is one above the greatest that is in use, and 1 where none is.
pub proof fn law_next_id(plugins: Map<i64, PluginModel>)
    requires
        plugins.dom().finite(),
    ensures
        forall|id: i64| #[trigger] plugins.contains_key(id) ==> id < next_id(plugins),
        (forall|id: i64| !#[trigger] plugins.contains_key(id)) ==> next_id(plugins) == 1,
        (exists|id: i64| #[trigger] plugins.contains_key(id)) ==> exists|id: i64| #[trigger]
            plugins.contains_key(id) && id + 1 == next_id(plugins),
{
    let rows = in_order::<i64, PluginModel>(plugins);
    crate::table::lemma_listed::<i64, PluginModel>(plugins);
    assert forall|id: i64| #[trigger] plugins.contains_key(id) implies id < next_id(plugins) by {
        let i = choose|i: int| 0 <= i < rows.len() && (#[trigger] rows[i]).0 == id;
        if i < rows.len() - 1 {
            assert(<i64 as crate::table::RowKey>::before(rows[i].0, rows[rows.len() - 1].0));
        }
    }
    if rows.len() > 0 {
        assert(plugins.contains_key(rows[rows.len() - 1].0));
    }
    if exists|id: i64| #[trigger] plugins.contains_key(id) {
        let id = choose|id: i64| #[trigger] plugins.contains_key(id);
        let i = choose|i: int| 0 <= i < rows.len() && (#[trigger] rows[i]).0 == id;
        assert(rows.len() > 0);
    }
}

/// An upload is stored with what was given, switched off and without an error,
/// exactly where no plugin has its `plugin_id` and an id is left; else nothing
/// changes. No other row and no other table is touched.
pub proof fn law_uploads(
    before: DbModel,
    plugin_id: Seq<char>,
    name: Seq<char>,
    version: Seq<char>,
    manifest_json: Seq<char>,
    wasm_blob: Seq<u8>,
    wasm_sha256: Seq<char>,
    now: i64,
    r: Result<PluginRow, DbError>,
    after: DbModel,
)
    requires
        upload_outcome(
            before,
            plugin_id,
            name,
            version,
            manifest_json,
            wasm_blob,
            wasm_sha256,
            now,
            r,
            after,
        ),
    ensures
        ({
            let taken = exists|id: i64| #[trigger]
                before.plugins.contains_key(id) && before.plugins[id].plugin_id == plugin_id;
            &&& r is Ok <==> !taken && next_id(before.plugins) <= i64::MAX
            &&& r is Err ==> after == before
            &&& r matches Ok(row) ==> {
                &&& row.id == next_id(before.plugins)
                &&& row.plugin_id@ == plugin_id
                &&& row.name@ == name
                &&& row.version@ == version
                &&& row.manifest_json@ == manifest_json
                &&& row.wasm_blob@ == wasm_blob
                &&& row.wasm_sha256@ == wasm_sha256
                &&& !row.enabled
                &&& row.status@ == "disabled"@
                &&& row.last_error is None
                &&& row.uploaded_at == now
                &&& after.plugins == before.plugins.insert(row.id, row@)
                &&& after.settings == before.settings
                &&& after.data == before.data
                &&& after.log == before.log
            }
            &&& taken ==> (r matches Err(DbError::AlreadyUploaded { plugin_id: p }) && p@
                == plugin_id)
        }),
{
    if let Ok(row) = r {
        assert(row@.plugin_id == plugin_id);
        assert(crate::db::opt_text(row.last_error) == row@.last_error);
    }
}

/// A listing of plugins has every one of them once, the later upload before the
/// earlier and of two at the same second the greater id first.
pub proof fn law_listing_of_plugins(plugins: Map<i64, PluginModel>)
    requires
        plugins.dom().finite(),
        forall|id: i64| #[trigger] plugins.contains_key(id) ==> plugins[id].id == id,
    ensures
        ({
            let rows = newest_first(plugins);
            &&& forall|i: int|
                0 <= i < rows.len() ==> plugins.contains_key((#[trigger] rows[i]).id)
                    && plugins[rows[i].id] == rows[i]
            &&& forall|id: i64| #[trigger]
                plugins.contains_key(id) ==> exists|i: int|
                    0 <= i < rows.len() && #[trigger] rows[i] == plugins[id]
            &&& forall|i: int, j: int|
                0 <= i < j < rows.len() ==> (#[trigger] rows[i]).uploaded_at > (
                #[trigger] rows[j]).uploaded_at || (rows[i].uploaded_at == rows[j].uploaded_at
                    && rows[i].id > rows[j].id)
        }),
{
    crate::db::lemma_newest_first(plugins);
}

/// The enabled plugins are those that are switched on, as they stand.
pub proof fn law_enabled_plugins(plugins: Map<i64, PluginModel>, id: i64)
    ensures
        enabled_only(plugins).contains_key(id) <==> plugins.contains_key(id) && plugins[id].enabled,
        enabled_only(plugins).contains_key(id) ==> enabled_only(plugins)[id] == plugins[id],
{
}

/// Deleting a plugin's settings takes those whose names begin with `plugin.`,
/// the id and a colon, and leaves every other one, the hub's own among them.
pub proof fn law_deleted_settings(
    settings: Map<Seq<char>, Seq<char>>,
    id: Seq<char>,
    name: Seq<char>,
)
    ensures
        ({
            let front = "plugin."@ + id + seq![':'];
            let after = without_prefix(settings, kv_prefix(id));
            let own = name.len() >= front.len() && name.take(front.len() as int) == front;
            &&& after.contains_key(name) <==> settings.contains_key(name) && !own
            &&& after.contains_key(name) ==> after[name] == settings[name]
        }),
{
    let front = "plugin."@ + id + seq![':'];
    assert(kv_prefix(id) =~= front);
    if name.len() >= front.len() {
        assert(front.is_prefix_of(name) <==> name.take(front.len() as int) == front);
    }
}

/// Deleting a plugin's records takes all of them and leaves every other one.
pub proof fn law_deleted_records(
    data: Map<(Seq<char>, Seq<char>), DataModel>,
    id: Seq<char>,
    key: (Seq<char>, Seq<char>),
)
    ensures
        without_plugin(data, id).contains_key(key) <==> data.contains_key(key) && key.0 != id,
        without_plugin(data, id).contains_key(key) ==> without_plugin(data, id)[key] == data[key],
{
}

/// What a plugin's records take, and how many they are, is counted record by
/// record: nothing where there are none; a new record counts once and with its
/// bytes, for its own plugin alone; one that is replaced counts with its new
/// bytes in place of the old.
pub proof fn law_usage(
    data: Map<(Seq<char>, Seq<char>), DataModel>,
    k: (Seq<char>, Seq<char>),
    row: DataModel,
    id: Seq<char>,
)
    requires
        data.dom().finite(),
    ensures
        data_bytes(Map::empty(), id) == 0,
        data_count(Map::empty(), id) == 0,
        k.0 != id ==> data_bytes(data.insert(k, row), id) == data_bytes(data, id),
        k.0 != id ==> data_count(data.insert(k, row), id) == data_count(data, id),
        k.0 == id && !data.contains_key(k) ==> data_bytes(data.insert(k, row), id) == data_bytes(
            data,
            id,
        ) + encode_utf8(row.data).len(),
        k.0 == id && !data.contains_key(k) ==> data_count(data.insert(k, row), id) == data_count(
            data,
            id,
        ) + 1,
        k.0 == id && data.contains_key(k) ==> data_bytes(data.insert(k, row), id) == data_bytes(
            data,
            id,
        ) - encode_utf8(data[k].data).len() + encode_utf8(row.data).len(),
        k.0 == id && data.contains_key(k) ==> data_count(data.insert(k, row), id) == data_count(
            data,
            id,
        ),
{
    let rows = in_order::<DataKey, DataModel>(data);
    crate::table::lemma_listed::<DataKey, DataModel>(data);
    let none = Map::<(Seq<char>, Seq<char>), DataModel>::empty();
    crate::table::lemma_listed::<DataKey, DataModel>(none);
    let empty = in_order::<DataKey, DataModel>(none);
    if empty.len() > 0 {
        assert(none.contains_key(empty[0].0));
    }
    let at = crate::table::lemma_in_order_put::<DataKey, DataModel>(data, k, row);
    if data.contains_key(k) {
        assert(rows[at] == (k, data[k]));
        lemma_bytes_of_update(rows, at, row, id);
        lemma_count_of_update(rows, at, row, id);
    } else {
        lemma_bytes_of_insert(rows, at, (k, row), id);
        lemma_count_of_insert(rows, at, (k, row), id);
    }
}

proof fn lemma_bytes_of_insert(
    rows: Seq<((Seq<char>, Seq<char>), DataModel)>,
    at: int,
    row: ((Seq<char>, Seq<char>), DataModel),
    id: Seq<char>,
)
    requires
        0 <= at <= rows.len(),
    ensures
        crate::db::bytes_in(rows.insert(at, row), id) == crate::db::bytes_in(rows, id) + (if row.0.0
            == id {
            encode_utf8(row.1.data).len()
        } else {
            0
        }),
    decreases rows.len(),
{
    let wider = rows.insert(at, row);
    if at == rows.len() {
        assert(wider.drop_last() =~= rows);
    } else {
        lemma_bytes_of_insert(rows.drop_last(), at, row, id);
        assert(wider.drop_last() =~= rows.drop_last().insert(at, row));
        assert(wider.last() == rows.last());
    }
}

proof fn lemma_bytes_of_update(
    rows: Seq<((Seq<char>, Seq<char>), DataModel)>,
    at: int,
    value: DataModel,
    id: Seq<char>,
)
    requires
        0 <= at < rows.len(),
    ensures
        crate::db::bytes_in(rows.update(at, (rows[at].0, value)), id) == crate::db::bytes_in(
            rows,
            id,
        ) + (if rows[at].0.0 == id {
            encode_utf8(value.data).len() - encode_utf8(rows[at].1.data).len()
        } else {
            0
        }),
    decreases rows.len(),
{
    let changed = rows.update(at, (rows[at].0, value));
    if at == rows.len() - 1 {
        assert(changed.drop_last() =~= rows.drop_last());
    } else {
        lemma_bytes_of_update(rows.drop_last(), at, value, id);
        assert(changed.drop_last() =~= rows.drop_last().update(at, (rows[at].0, value)));
        assert(changed.last() == rows.last());
    }
}

proof fn lemma_count_of_insert(
    rows: Seq<((Seq<char>, Seq<char>), DataModel)>,
    at: int,
    row: ((Seq<char>, Seq<char>), DataModel),
    id: Seq<char>,
)
    requires
        0 <= at <= rows.len(),
    ensures
        count_in(rows.insert(at, row), id) == count_in(rows, id) + (if row.0.0 == id {
            1int
        } else {
            0
        }),
    decreases rows.len(),
{
    let wider = rows.insert(at, row);
    if at == rows.len() {
        assert(wider.drop_last() =~= rows);
    } else {
        lemma_count_of_insert(rows.drop_last(), at, row, id);
        assert(wider.drop_last() =~= rows.drop_last().insert(at, row));
        assert(wider.last() == rows.last());
    }
}

proof fn lemma_count_of_update(
    rows: Seq<((Seq<char>, Seq<char>), DataModel)>,
    at: int,
    value: DataModel,
    id: Seq<char>,
)
    requires
        0 <= at < rows.len(),
    ensures
        count_in(rows.update(at, (rows[at].0, value)), id) == count_in(rows, id),
    decreases rows.len(),
{
    let changed = rows.update(at, (rows[at].0, value));
    if at == rows.len() - 1 {
        assert(changed.drop_last() =~= rows.drop_last());
    } else {
        lemma_count_of_update(rows.drop_last(), at, value, id);
        assert(changed.drop_last() =~= rows.drop_last().update(at, (rows[at].0, value)));
        assert(changed.last() == rows.last());
    }
}

/// A write within a quota stores the record exactly where the plugin's records
/// then take no more than the quota, and says whether it is new.
pub proof fn law_writes_within_a_quota(
    before: DbModel,
    id: Seq<char>,
    key: Seq<char>,
    value: Seq<char>,
    max: i64,
    now: i64,
    r: Result<Option<bool>, DbError>,
    after: DbModel,
)
    requires
        quota_outcome(before, id, key, value, max, now, r, after),
        data_count(before.data, id) <= i64::MAX,
        data_bytes(before.data, id) <= i64::MAX,
        before.data.dom().finite(),
    ensures
        ({
            let stored = before.data.insert(
                (id, key),
                DataModel { data: value, updated_at: now },
            );
            &&& data_bytes(stored, id) <= max ==> {
                &&& r == Ok::<Option<bool>, DbError>(Some(!before.data.contains_key((id, key))))
                &&& after.data == stored
            }
            &&& data_bytes(stored, id) > max ==> r == Ok::<Option<bool>, DbError>(None) && after
                == before
            &&& after.plugins == before.plugins
            &&& after.settings == before.settings
            &&& after.log == before.log
        }),
{
    law_usage(before.data, (id, key), DataModel { data: value, updated_at: now }, id);
}

/// A plugin has a record.
pub open spec fn some_record(
    data: Map<(Seq<char>, Seq<char>), DataModel>,
    id: Seq<char>,
) -> bool {
    exists|key: Seq<char>| #[trigger] data.contains_key((id, key))
}

/// The overview of usage has one line for each plugin with a record, in the
/// order of the ids, with how many records it has and what they take.
pub proof fn law_overview_of_usage(
    lines: Seq<(String, i64, i64)>,
    data: Map<(Seq<char>, Seq<char>), DataModel>,
)
    requires
        lists_usage(lines, data),
    ensures
        forall|i: int|
            0 <= i < lines.len() ==> (#[trigger] lines[i]).1 == data_count(data, lines[i].0@)
                && lines[i].2 == data_bytes(data, lines[i].0@),
        forall|i: int| 0 <= i < lines.len() ==> some_record(data, (#[trigger] lines[i]).0@),
        forall|id: Seq<char>, key: Seq<char>| #[trigger]
            data.contains_key((id, key)) ==> exists|i: int|
                0 <= i < lines.len() && (#[trigger] lines[i]).0@ == id,
        forall|i: int, j: int|
            0 <= i < j < lines.len() ==> crate::table::text_before(
                (#[trigger] lines[i]).0@,
                (#[trigger] lines[j]).0@,
            ),
{
    assert forall|id: Seq<char>, key: Seq<char>| #[trigger]
        data.contains_key((id, key)) implies exists|i: int|
        0 <= i < lines.len() && (#[trigger] lines[i]).0@ == id by {
        assert(crate::db::has_data(data, id));
    }
    assert forall|i: int| 0 <= i < lines.len() implies some_record(
        data,
        (#[trigger] lines[i]).0@,
    ) by {
        assert(crate::db::has_data(data, lines[i].0@));
        let key = choose|key: Seq<char>| #[trigger] data.contains_key((lines[i].0@, key));
        assert(data.contains_key((lines[i].0@, key)));
    }
}

/// The two sides of connectivity are each other's opposite, and nothing else
/// has one.
pub proof fn law_opposite_sides(name: Seq<char>)
    ensures
        opposite("agent_offline"@) == Some("agent_online"@),
        opposite("agent_online"@) == Some("agent_offline"@),
        name != "agent_offline"@ && name != "agent_online"@ ==> opposite(name) is None,
{
    crate::db::lemma_state_names();
}

/// A pattern's percent stands for any characters, its underscore for one, a
/// character behind a backslash and any other for itself; an escaped text holds
/// a backslash before each of the three that would mean something.
pub proof fn law_patterns(
    pattern: Seq<char>,
    s: Seq<char>,
    c: char,
    same: spec_fn(char, char) -> bool,
)
    ensures
        literal_text(Seq::empty()) == Seq::<char>::empty(),
        c == '%' || c == '_' || c == '\\' ==> literal_text(s.push(c)) == literal_text(s) + seq![
            '\\',
            c,
        ],
        c != '%' && c != '_' && c != '\\' ==> literal_text(s.push(c)) == literal_text(s).push(c),
        like(Seq::empty(), s, same) <==> s.len() == 0,
        like(seq!['_'] + pattern, s, same) <==> s.len() > 0 && like(pattern, s.skip(1), same),
        like(seq!['\\', c] + pattern, s, same) <==> s.len() > 0 && same(c, s[0]) && like(
            pattern,
            s.skip(1),
            same,
        ),
        like(seq!['%'] + pattern, s, same) <==> exists|k: int|
            0 <= k <= s.len() && like(pattern, #[trigger] s.skip(k), same),
        c != '%' && c != '_' && c != '\\' ==> (like(seq![c] + pattern, s, same) <==> s.len() > 0
            && same(c, s[0]) && like(pattern, s.skip(1), same)),
{
    assert(s.push(c).drop_last() =~= s);
    assert(literal_text(s) + seq![c] =~= literal_text(s).push(c));
    assert((seq!['_'] + pattern).skip(1) =~= pattern);
    assert((seq!['%'] + pattern).skip(1) =~= pattern);
    assert((seq![c] + pattern).skip(1) =~= pattern);
    assert((seq!['\\', c] + pattern).skip(2) =~= pattern);
}

} // verus!
