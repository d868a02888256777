//! What stands for what: a value's model says of each field and each element
//! what the value holds.

use vstd::prelude::*;

use crate::db::{opt_text, pair_texts, row_models, DataKey, DataRow, LogKey, LogRow, PluginRow};
use crate::notification_bus::{member_views, Event, EventModel, Member, Payload};
use crate::outside::parts_view;
use crate::plugin::http::{Fetch, FetchModel};
use crate::plugin::loader::{export_views, Export, ExportKind, KindModel, LoadedPlugin};
use crate::plugin::manifest::{ConfigDecl, Manifest};
use crate::plugin::registry::{dispatch_models, entry_models, Dispatch, DispatchEntry};
use crate::plugin::toml_item::{fields_model, items_model, opt_model, Item, ItemModel};
use crate::text::texts;

verus! {

broadcast use vstd::seq_lib::group_seq_properties;

/// A sequence is modelled element by element, all of them in their order.
pub proof fn law_sequences(
    strings: Seq<String>,
    pairs: Seq<(String, String)>,
    members: Seq<Member>,
    rows: Seq<PluginRow>,
    entries: Seq<DispatchEntry>,
    dispatches: Seq<Dispatch>,
    exports: Seq<Export>,
)
    ensures
        texts(strings).len() == strings.len(),
        forall|i: int| 0 <= i < strings.len() ==> texts(strings)[i] == (#[trigger] strings[i])@,
        pair_texts(pairs).len() == pairs.len(),
        forall|i: int|
            0 <= i < pairs.len() ==> pair_texts(pairs)[i] == ((#[trigger] pairs[i]).0@, pairs[i].1@),
        crate::json::member_models(pairs) == pair_texts(pairs),
        member_views(members).len() == members.len(),
        forall|i: int|
            0 <= i < members.len() ==> member_views(members)[i] == (
                (#[trigger] members[i]).key@,
                members[i].json@,
                members[i].integer,
                opt_text(members[i].text),
            ),
        row_models(rows).len() == rows.len(),
        forall|i: int| 0 <= i < rows.len() ==> row_models(rows)[i] == (#[trigger] rows[i])@,
        entry_models(entries).len() == entries.len(),
        forall|i: int|
            0 <= i < entries.len() ==> entry_models(entries)[i] == (#[trigger] entries[i])@,
        dispatch_models(dispatches).len() == dispatches.len(),
        forall|i: int|
            0 <= i < dispatches.len() ==> dispatch_models(dispatches)[i] == (
            #[trigger] dispatches[i])@,
        export_views(exports).len() == exports.len(),
        forall|i: int|
            0 <= i < exports.len() ==> export_views(exports)[i] == (
                (#[trigger] exports[i]).name@,
                exports[i].kind@,
            ),
{
    assert(crate::json::member_models(pairs) =~= pair_texts(pairs));
}

/// An optional text is modelled by its text.
pub proof fn law_optional_text(s: String, port: Option<u16>)
    ensures
        opt_text(Some(s)) == Some(s@),
        opt_text(None) is None,
        parts_view(None) is None,
        parts_view(Some((Some(s), port))) == Some((Some(s@), port)),
        parts_view(Some((None, port))) == Some((None::<Seq<char>>, port)),
{
}

/// The rows of the tables are modelled field by field.
pub proof fn law_rows(
    row: PluginRow,
    data_key: DataKey,
    data: DataRow,
    log_key: LogKey,
    log: LogRow,
)
    ensures
        row@.id == row.id,
        row@.plugin_id == row.plugin_id@,
        row@.name == row.name@,
        row@.version == row.version@,
        row@.manifest_json == row.manifest_json@,
        row@.wasm_blob == row.wasm_blob@,
        row@.wasm_sha256 == row.wasm_sha256@,
        row@.enabled == row.enabled,
        row@.status == row.status@,
        row@.last_error == opt_text(row.last_error),
        row@.uploaded_at == row.uploaded_at,
        data_key@ == (data_key.plugin_id@, data_key.record_key@),
        data@.data == data.data@,
        data@.updated_at == data.updated_at,
        log_key@ == (log_key.node_id, log_key.event_type@, log_key.key),
        log@.sent_at == log.sent_at,
        log@.success == log.success,
        log@.detail == log.detail@,
{
}

/// Events and records of calls are modelled field by field.
pub proof fn law_events_and_entries(
    node_id: i64,
    name: String,
    observed_at: i64,
    last_seen_at: i64,
    payload: Payload,
    entry: DispatchEntry,
    dispatch: Dispatch,
)
    ensures
        (Event::AgentOffline { node_id, name, observed_at, last_seen_at })@ == (
        EventModel::AgentOffline { node_id, name: name@, observed_at, last_seen_at }),
        (Event::AgentOnline { node_id, name, observed_at })@ == (EventModel::AgentOnline {
            node_id,
            name: name@,
            observed_at,
        }),
        (Event::Plugin { name, payload })@ == (EventModel::Plugin {
            name: name@,
            payload: member_views(payload.members@),
        }),
        entry@.at == entry.at,
        entry@.plugin_id == entry.plugin_id@,
        entry@.event_type == entry.event_type@,
        entry@.elapsed_ms == entry.elapsed_ms,
        entry@.result == entry.result@,
        dispatch@.event == dispatch.event@,
        dispatch@.subscribers == dispatch.subscribers@,
        dispatch@.limits == dispatch.limits,
{
}

/// Manifests and plugins are modelled field by field.
pub proof fn law_manifests(m: Manifest, decl: ConfigDecl, plugin: LoadedPlugin)
    ensures
        m@.plugin_id == m.plugin_id@,
        m@.name == m.name@,
        m@.version == m.version@,
        m@.abi_version == m.abi_version,
        m@.subscribes == texts(m.subscribes@),
        m@.tick == m.tick,
        m@.page == (match m.page {
            Some(page) => Some(page.title@),
            None => None,
        }),
        m@.cleanup == m.cleanup,
        m@.wasm_entry == m.wasm_entry@,
        m@.config.len() == m.config@.len(),
        forall|i: int| 0 <= i < m.config@.len() ==> m@.config[i] == (#[trigger] m.config@[i])@,
        decl@.key == decl.key@,
        decl@.label == opt_text(decl.label),
        decl@.required == decl.required,
        decl@.hint == opt_text(decl.hint),
        plugin@.manifest == plugin.manifest@,
        plugin@.module == plugin.module,
{
}

/// TOML values are modelled value by value.
pub proof fn law_toml_values(
    s: String,
    n: i64,
    b: bool,
    items: Vec<Item>,
    fields: Vec<(String, Item)>,
    item: &Item,
)
    ensures
        Item::Text(s).model() == ItemModel::Text(s@),
        Item::Integer(n).model() == ItemModel::Integer(n),
        Item::Boolean(b).model() == ItemModel::Boolean(b),
        Item::Other.model() == ItemModel::Other,
        Item::List(items).model() == ItemModel::List(items_model(items@)),
        Item::Table(fields).model() == ItemModel::Table(fields_model(fields@)),
        items_model(items@).len() == items@.len(),
        forall|i: int|
            0 <= i < items@.len() ==> items_model(items@)[i] == (#[trigger] items@[i]).model(),
        fields_model(fields@).len() == fields@.len(),
        forall|i: int|
            0 <= i < fields@.len() ==> fields_model(fields@)[i] == (
                (#[trigger] fields@[i]).0@,
                fields@[i].1.model(),
            ),
        opt_model(Some(item)) == Some(item.model()),
        opt_model(None) is None,
{
    crate::plugin::toml_item::lemma_list_model(items);
    crate::plugin::toml_item::lemma_table_model(fields);
}

/// Exports and states of a fetch are modelled field by field.
pub proof fn law_exports_and_fetches(
    params: Vec<bool>,
    results: Vec<bool>,
    host: String,
    port: u16,
    cap: usize,
    success: bool,
    body: Vec<u8>,
    code: i32,
)
    ensures
        ExportKind::Memory@ == KindModel::Memory,
        ExportKind::Other@ == KindModel::Other,
        (ExportKind::Func { params, results })@ == (KindModel::Func {
            params: params@,
            results: results@,
        }),
        (Fetch::Check { host, port, cap })@ == (FetchModel::Check { host: host@, port, cap }),
        (Fetch::Resolve { host, port, cap })@ == (FetchModel::Resolve { host: host@, port, cap }),
        (Fetch::Send { cap })@ == (FetchModel::Send { cap }),
        (Fetch::Read { cap, success, body })@ == (FetchModel::Read { cap, success, body: body@ }),
        (Fetch::Done { result: Ok(body) })@ == (FetchModel::Done { result: Ok(body@) }),
        (Fetch::Done { result: Err(code) })@ == (FetchModel::Done { result: Err(code) }),
{
}

} // verus!
