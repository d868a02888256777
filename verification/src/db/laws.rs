//! What holds of the tables over more than one operation.

use vstd::prelude::*;
use vstd::utf8::*;

use crate::db::{
    bytes_after_put, bytes_in, data_bytes, data_pairs, has_data, kv_pairs, kv_prefix,
    lemma_kv_names_differ, quota_outcome, record_test, switched, upload_outcome, with_record,
    with_result, without_plugin, without_prefix, DataKey, DataModel, DbError, DbModel, PluginModel,
    PluginRow,
};
use crate::table::RowKey;

verus! {

broadcast use vstd::seq_lib::group_seq_properties;

/// An upload is read back as it was stored, under an id of its own, and leaves
/// every other row as it is.
pub proof fn law_upload_is_stored(
    before: DbModel,
    plugin_id: Seq<char>,
    name: Seq<char>,
    version: Seq<char>,
    manifest_json: Seq<char>,
    wasm_blob: Seq<u8>,
    wasm_sha256: Seq<char>,
    now: i64,
    stored: PluginRow,
    after: DbModel,
)
    requires
        before.wf(),
        upload_outcome(
            before,
            plugin_id,
            name,
            version,
            manifest_json,
            wasm_blob,
            wasm_sha256,
            now,
            Ok(stored),
            after,
        ),
    ensures
        after.wf(),
        after.has_plugin(plugin_id),
        !before.plugins.contains_key(stored.id),
        after.plugins.contains_key(stored.id) && after.plugins[stored.id] == stored@,
        !stored.enabled && stored.status@ == "disabled"@,
        forall|id: i64| #[trigger]
            before.plugins.contains_key(id) ==> after.plugins.contains_key(id) && after.plugins[id]
                == before.plugins[id] && id < stored.id,
{
    let rows = crate::table::in_order::<i64, PluginModel>(before.plugins);
    crate::table::lemma_listed::<i64, PluginModel>(before.plugins);
    assert forall|id: i64| #[trigger] before.plugins.contains_key(id) implies id < stored.id by {
        let i = choose|i: int| 0 <= i < rows.len() && (#[trigger] rows[i]).0 == id;
        if i < rows.len() - 1 {
            assert(<i64 as RowKey>::before(rows[i].0, rows[rows.len() - 1].0));
        }
    }
    assert(after.plugins.contains_key(stored.id));
}

/// A second upload of a `plugin_id` is refused and changes nothing.
pub proof fn law_duplicate_upload_is_refused(
    before: DbModel,
    plugin_id: Seq<char>,
    name: Seq<char>,
    version: Seq<char>,
    manifest_json: Seq<char>,
    wasm_blob: Seq<u8>,
    wasm_sha256: Seq<char>,
    now: i64,
    r: Result<PluginRow, DbError>,
    after: DbModel,
)
    requires
        before.has_plugin(plugin_id),
        upload_outcome(
            before,
            plugin_id,
            name,
            version,
            manifest_json,
            wasm_blob,
            wasm_sha256,
            now,
            r,
            after,
        ),
    ensures
        r is Err,
        after == before,
{
}

/// Switching mirrors `enabled` in `status`, clears the error and leaves the
/// rest of the row.
pub proof fn law_status_mirrors_enabled(row: PluginModel, enabled: bool)
    ensures
        switched(row, enabled).enabled == enabled,
        (switched(row, enabled).status == "enabled"@) == enabled,
        switched(row, enabled).last_error is None,
        switched(row, enabled).summary().plugin_id == row.plugin_id,
        switched(row, enabled).wasm_blob == row.wasm_blob,
{
    reveal_strlit("enabled");
    reveal_strlit("disabled");
    assert("enabled"@.len() != "disabled"@.len());
}

/// A listing of a plugin's settings has exactly the settings of that plugin,
/// compared character by character, in the order of their names.
pub proof fn law_kv_listing(settings: Map<Seq<char>, Seq<char>>, plugin_id: Seq<char>)
    requires
        settings.dom().finite(),
    ensures
        forall|key: Seq<char>, value: Seq<char>| #[trigger]
            kv_pairs(settings, kv_prefix(plugin_id)).contains((key, value))
                <==> settings.contains_key(kv_prefix(plugin_id) + key) && settings[kv_prefix(
                plugin_id,
            ) + key] == value,
        forall|i: int, j: int|
            #![trigger kv_pairs(settings, kv_prefix(plugin_id))[i], kv_pairs(
                settings,
                kv_prefix(plugin_id),
            )[j]]
            0 <= i < j < kv_pairs(settings, kv_prefix(plugin_id)).len()
                ==> crate::table::text_before(
                kv_prefix(plugin_id) + kv_pairs(settings, kv_prefix(plugin_id))[i].0,
                kv_prefix(plugin_id) + kv_pairs(settings, kv_prefix(plugin_id))[j].0,
            ),
{
    let prefix = kv_prefix(plugin_id);
    let rows = crate::table::in_order::<String, Seq<char>>(settings);
    crate::table::lemma_listed::<String, Seq<char>>(settings);
    let p = |row: (Seq<char>, Seq<char>)| prefix.is_prefix_of(row.0);
    let f = |row: (Seq<char>, Seq<char>)| (row.0.skip(prefix.len() as int), row.1);
    let kept = rows.filter(p);
    let pairs = kv_pairs(settings, prefix);
    assert(pairs == kept.map_values(f));
    assert forall|key: Seq<char>, value: Seq<char>| #[trigger]
        pairs.contains((key, value)) implies settings.contains_key(prefix + key)
        && settings[prefix + key] == value by {
        let i = choose|i: int| 0 <= i < pairs.len() && pairs[i] == (key, value);
        assert(kept.contains(kept[i]));
        crate::table::lemma_filter_member(rows, p, kept[i]);
        let j = choose|j: int| 0 <= j < rows.len() && rows[j] == kept[i];
        assert(settings.contains_key(rows[j].0));
        assert(prefix + key =~= rows[j].0);
    }
    assert forall|key: Seq<char>, value: Seq<char>|
        settings.contains_key(prefix + key) && settings[prefix + key]
            == value implies #[trigger] pairs.contains((key, value)) by {
        let j = choose|j: int| 0 <= j < rows.len() && (#[trigger] rows[j]).0 == prefix + key;
        assert(prefix =~= (prefix + key).take(prefix.len() as int));
        crate::table::lemma_filter_keeps(rows, p, rows[j]);
        let i = choose|i: int| 0 <= i < kept.len() && kept[i] == rows[j];
        assert((prefix + key).skip(prefix.len() as int) =~= key);
        assert(pairs[i] == (key, value));
    }
    crate::table::lemma_filter_ascending::<String, Seq<char>>(rows, p);
    assert forall|i: int| 0 <= i < pairs.len() implies prefix + (#[trigger] pairs[i]).0
        == kept[i].0 by {
        assert(kept.contains(kept[i]));
        crate::table::lemma_filter_member(rows, p, kept[i]);
        assert(prefix + kept[i].0.skip(prefix.len() as int) =~= kept[i].0);
    }
    assert forall|i: int, j: int| 0 <= i < j < pairs.len() implies crate::table::text_before(
        prefix + (#[trigger] pairs[i]).0,
        prefix + (#[trigger] pairs[j]).0,
    ) by {
        assert(<String as RowKey>::before(kept[i].0, kept[j].0));
    }
}

/// Deleting a plugin's settings takes all of them and none of another plugin's,
/// as long as neither id holds a colon.
pub proof fn law_kv_deletion_is_isolated(
    settings: Map<Seq<char>, Seq<char>>,
    plugin_id: Seq<char>,
    other_id: Seq<char>,
    key: Seq<char>,
)
    requires
        !plugin_id.contains(':'),
        !other_id.contains(':'),
        plugin_id != other_id,
    ensures
        ({
            let after = without_prefix(settings, kv_prefix(plugin_id));
            let own = kv_prefix(plugin_id) + key;
            let other = kv_prefix(other_id) + key;
            &&& !after.contains_key(own)
            &&& after.contains_key(other) == settings.contains_key(other)
            &&& settings.contains_key(other) ==> after[other] == settings[other]
        }),
{
    let prefix = kv_prefix(plugin_id);
    let own = prefix + key;
    let other = kv_prefix(other_id) + key;
    assert(prefix =~= own.take(prefix.len() as int));
    if prefix.is_prefix_of(other) {
        assert(other =~= prefix + other.skip(prefix.len() as int));
        lemma_kv_names_differ(
            plugin_id,
            other.skip(prefix.len() as int),
            other_id,
            key,
        );
    }
}

/// A record that was stored is read back, and no other record has changed, of
/// this plugin or of another.
pub proof fn law_record_round_trip(
    db: DbModel,
    plugin_id: Seq<char>,
    key: Seq<char>,
    value: Seq<char>,
    now: i64,
    other: (Seq<char>, Seq<char>),
)
    requires
        other != (plugin_id, key),
    ensures
        ({
            let after = with_record(db, plugin_id, key, value, now);
            &&& after.data.contains_key((plugin_id, key))
            &&& after.data[(plugin_id, key)].data == value
            &&& after.data.contains_key(other) == db.data.contains_key(other)
            &&& after.data[other] == db.data[other]
        }),
{
}

/// A listing of a plugin's records has exactly the records of that plugin whose
/// keys begin with the prefix, in the order of the keys.
pub proof fn law_record_listing(
    data: Map<(Seq<char>, Seq<char>), DataModel>,
    plugin_id: Seq<char>,
    prefix: Seq<char>,
)
    requires
        data.dom().finite(),
    ensures
        forall|key: Seq<char>, value: Seq<char>| #[trigger]
            data_pairs(data, plugin_id, prefix).contains((key, value)) <==> data.contains_key(
                (plugin_id, key),
            ) && data[(plugin_id, key)].data == value && prefix.is_prefix_of(key),
        forall|i: int, j: int|
            0 <= i < j < data_pairs(data, plugin_id, prefix).len() ==> crate::table::text_before(
                (#[trigger] data_pairs(data, plugin_id, prefix)[i]).0,
                (#[trigger] data_pairs(data, plugin_id, prefix)[j]).0,
            ),
{
    let rows = crate::table::in_order::<DataKey, DataModel>(data);
    crate::table::lemma_listed::<DataKey, DataModel>(data);
    let p = record_test(plugin_id, prefix);
    let f = |row: ((Seq<char>, Seq<char>), DataModel)| (row.0.1, row.1.data);
    let kept = rows.filter(p);
    let pairs = data_pairs(data, plugin_id, prefix);
    assert(pairs =~= kept.map_values(f));
    assert forall|key: Seq<char>, value: Seq<char>| #[trigger]
        pairs.contains((key, value)) implies data.contains_key((plugin_id, key)) && data[(
        plugin_id,
        key,
    )].data == value && prefix.is_prefix_of(key) by {
        let i = choose|i: int| 0 <= i < pairs.len() && pairs[i] == (key, value);
        assert(kept.contains(kept[i]));
        crate::table::lemma_filter_member(rows, p, kept[i]);
        let j = choose|j: int| 0 <= j < rows.len() && rows[j] == kept[i];
        assert(data.contains_key(rows[j].0));
        assert(rows[j].0 == (plugin_id, key));
    }
    assert forall|key: Seq<char>, value: Seq<char>|
        data.contains_key((plugin_id, key)) && data[(plugin_id, key)].data == value
            && prefix.is_prefix_of(key) implies #[trigger] pairs.contains((key, value)) by {
        let j = choose|j: int| 0 <= j < rows.len() && (#[trigger] rows[j]).0 == (plugin_id, key);
        crate::table::lemma_filter_keeps(rows, p, rows[j]);
        let i = choose|i: int| 0 <= i < kept.len() && kept[i] == rows[j];
        assert(pairs[i] == (key, value));
    }
    crate::table::lemma_filter_ascending::<DataKey, DataModel>(rows, p);
    assert forall|i: int| 0 <= i < kept.len() implies (#[trigger] kept[i]).0.0 == plugin_id by {
        assert(kept.contains(kept[i]));
        crate::table::lemma_filter_member(rows, p, kept[i]);
    }
    assert forall|i: int, j: int| 0 <= i < j < pairs.len() implies crate::table::text_before(
        (#[trigger] pairs[i]).0,
        (#[trigger] pairs[j]).0,
    ) by {
        assert(<DataKey as RowKey>::before(kept[i].0, kept[j].0));
        crate::table::lemma_text_irreflexive(plugin_id);
    }
}

proof fn lemma_bytes_insert(
    rows: Seq<((Seq<char>, Seq<char>), DataModel)>,
    at: int,
    row: ((Seq<char>, Seq<char>), DataModel),
    plugin_id: Seq<char>,
)
    requires
        0 <= at <= rows.len(),
    ensures
        bytes_in(rows.insert(at, row), plugin_id) == bytes_in(rows, plugin_id) + (if row.0.0
            == plugin_id {
            encode_utf8(row.1.data).len()
        } else {
            0
        }),
    decreases rows.len(),
{
    let wider = rows.insert(at, row);
    if at == rows.len() {
        assert(wider.drop_last() =~= rows);
    } else {
        lemma_bytes_insert(rows.drop_last(), at, row, plugin_id);
        assert(wider.drop_last() =~= rows.drop_last().insert(at, row));
        assert(wider.last() == rows.last());
    }
}

proof fn lemma_bytes_update(
    rows: Seq<((Seq<char>, Seq<char>), DataModel)>,
    at: int,
    value: DataModel,
    plugin_id: Seq<char>,
)
    requires
        0 <= at < rows.len(),
    ensures
        bytes_in(rows.update(at, (rows[at].0, value)), plugin_id) == bytes_in(rows, plugin_id) + (
        if rows[at].0.0 == plugin_id {
            encode_utf8(value.data).len() - encode_utf8(rows[at].1.data).len()
        } else {
            0
        }),
    decreases rows.len(),
{
    let changed = rows.update(at, (rows[at].0, value));
    if at == rows.len() - 1 {
        assert(changed.drop_last() =~= rows.drop_last());
    } else {
        lemma_bytes_update(rows.drop_last(), at, value, plugin_id);
        assert(changed.drop_last() =~= rows.drop_last().update(at, (rows[at].0, value)));
        assert(changed.last() == rows.last());
    }
}

/// A write changes the usage of its plugin by the increment alone, and that of
/// no other; so a write within a quota never leaves the plugin's records above
/// it.
pub proof fn law_quota_holds(
    db: DbModel,
    plugin_id: Seq<char>,
    key: Seq<char>,
    value: Seq<char>,
    max: i64,
    now: i64,
    fresh: bool,
    other_id: Seq<char>,
)
    requires
        db.data.dom().finite(),
        other_id != plugin_id,
    ensures
        ({
            let after = with_record(db, plugin_id, key, value, now);
            quota_outcome(db, plugin_id, key, value, max, now, Ok(Some(fresh)), after)
                ==> data_bytes(after.data, plugin_id) <= max
        }),
        data_bytes(with_record(db, plugin_id, key, value, now).data, plugin_id) == bytes_after_put(
            db.data,
            plugin_id,
            key,
            value,
        ),
        data_bytes(with_record(db, plugin_id, key, value, now).data, other_id) == data_bytes(
            db.data,
            other_id,
        ),
{
    let rows = crate::table::in_order::<DataKey, DataModel>(db.data);
    let k = (plugin_id, key);
    let row = DataModel { data: value, updated_at: now };
    let at = crate::table::lemma_in_order_put::<DataKey, DataModel>(db.data, k, row);
    if db.data.contains_key(k) {
        assert(rows[at].0 == k);
        lemma_bytes_update(rows, at, row, plugin_id);
        lemma_bytes_update(rows, at, row, other_id);
    } else {
        lemma_bytes_insert(rows, at, (k, row), plugin_id);
        lemma_bytes_insert(rows, at, (k, row), other_id);
    }
}

/// Settings and records are apart: a record that is written leaves the plugin's
/// settings as they are, and a setting its records.
pub proof fn law_settings_and_records_are_apart(
    db: DbModel,
    plugin_id: Seq<char>,
    key: Seq<char>,
    value: Seq<char>,
    now: i64,
    prefix: Seq<char>,
)
    ensures
        kv_pairs(with_record(db, plugin_id, key, value, now).settings, kv_prefix(plugin_id))
            == kv_pairs(db.settings, kv_prefix(plugin_id)),
        ({
            let after = DbModel {
                settings: db.settings.insert(kv_prefix(plugin_id) + key, value),
                ..db
            };
            data_pairs(after.data, plugin_id, prefix) == data_pairs(db.data, plugin_id, prefix)
        }),
{
}

/// Deleting a plugin's records leaves none of them and all of every other
/// plugin.
pub proof fn law_data_deletion_is_isolated(
    data: Map<(Seq<char>, Seq<char>), DataModel>,
    plugin_id: Seq<char>,
    other_id: Seq<char>,
    key: Seq<char>,
)
    requires
        plugin_id != other_id,
    ensures
        !has_data(without_plugin(data, plugin_id), plugin_id),
        without_plugin(data, plugin_id).contains_key((other_id, key)) == data.contains_key(
            (other_id, key),
        ),
        data.contains_key((other_id, key)) ==> without_plugin(data, plugin_id)[(other_id, key)]
            == data[(other_id, key)],
{
}

/// Marking a dispatch changes its outcome alone: which dispatches stand, and
/// when they were sent, is as before.
pub proof fn law_marking_keeps_the_log(
    db: DbModel,
    k: (i64, Seq<char>, i64),
    success: bool,
    detail: Seq<char>,
    other: (i64, Seq<char>, i64),
)
    ensures
        with_result(db, k, success, detail).log.dom() == db.log.dom(),
        db.log.contains_key(other) ==> with_result(db, k, success, detail).log[other].sent_at
            == db.log[other].sent_at,
        db.log.contains_key(other) && other != k ==> with_result(db, k, success, detail).log[other]
            == db.log[other],
        db.log.contains_key(k) ==> with_result(db, k, success, detail).log[k].success == success
            && with_result(db, k, success, detail).log[k].detail == detail,
{
    assert(with_result(db, k, success, detail).log.dom() =~= db.log.dom());
}

} // verus!
