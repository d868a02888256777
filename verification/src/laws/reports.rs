//! Loading plugins, and what is said where something goes wrong.

use vstd::prelude::*;
use vstd::utf8::*;

use crate::db::{data_bytes, data_count, kv_prefix, quota_outcome, DbError, DbModel, PluginModel};
use crate::outside::{binary_of, engine_of, exports_of, toml_document, wasm_exports};
use crate::plugin::call::CallError;
use crate::plugin::loader::{
    has_export, load_outcome, missing_export, KindModel, LoadError, LoadedModel, LoadedPlugin,
};
use crate::plugin::log::{cleaned, log_line};
use crate::plugin::manifest::{
    accepted, config_in, parse_outcome, shaped, ConfigModel, Fault, Manifest, ManifestError,
    ManifestModel,
};
use crate::plugin::registry::{
    enable_outcome, marked_enabled, marked_failed, preloaded, RegistryError, RegistryModel,
};
use crate::plugin::toml_item::ItemModel;
use crate::text::{signed_decimal, truncated};

verus! {

broadcast use vstd::seq_lib::group_seq_properties;

/// A manifest is given exactly where its document is accepted, and is then what
/// the document says; else the error is the document's own.
pub proof fn law_parsed_manifests(
    document: Result<ItemModel, Seq<char>>,
    r: Result<Manifest, ManifestError>,
)
    requires
        parse_outcome(document, r),
    ensures
        r is Ok <==> accepted(document) is Some,
        r matches Ok(m) ==> accepted(document) == Some(m@),
        document matches Err(words) ==> (r matches Err(ManifestError::NotToml { detail }) && detail@
            == words),
        (document matches Ok(ItemModel::Table(fields)) && shaped(fields) is Err) ==> (r matches Err(
            ManifestError::BadField { field },
        ) && document matches Ok(ItemModel::Table(fields)) && shaped(fields) == Err::<
            ManifestModel,
            Seq<char>,
        >(field@)),
        (document matches Ok(ItemModel::Table(fields)) && shaped(fields) matches Ok(m)
            && m.fault() is Some) ==> (r matches Err(e) && document matches Ok(
            ItemModel::Table(fields),
        ) && shaped(fields) matches Ok(m) && e.fault() == m.fault()),
{
}

/// Every error reports the fault that it is named for.
pub proof fn law_errors_report_their_fault(found: i64, text: String)
    ensures
        ManifestError::EmptyPluginId.fault() == Some(Fault::EmptyPluginId),
        ManifestError::ColonInPluginId.fault() == Some(Fault::ColonInPluginId),
        ManifestError::EmptyName.fault() == Some(Fault::EmptyName),
        ManifestError::EmptyVersion.fault() == Some(Fault::EmptyVersion),
        (ManifestError::WrongAbi { found }).fault() == Some(Fault::WrongAbi(found)),
        ManifestError::EmptyPageTitle.fault() == Some(Fault::EmptyPageTitle),
        ManifestError::EmptyConfigKey.fault() == Some(Fault::EmptyConfigKey),
        (ManifestError::BlankAroundConfigKey { key: text }).fault() == Some(
            Fault::BlankAroundConfigKey(text@),
        ),
        ManifestError::ColonInConfigKey.fault() == Some(Fault::ColonInConfigKey),
        (ManifestError::LongConfigKey { key: text }).fault() == Some(Fault::LongConfigKey(text@)),
        (ManifestError::RepeatedConfigKey { key: text }).fault() == Some(
            Fault::RepeatedConfigKey(text@),
        ),
        ManifestError::NoWorkSurface.fault() == Some(Fault::NoWorkSurface),
        (ManifestError::UnknownEvent { event: text }).fault() == Some(Fault::UnknownEvent(text@)),
        (ManifestError::NotToml { detail: text }).fault() is None,
{
}

/// What an author reads of a manifest that is refused names the field at fault
/// and what stands there.
pub proof fn law_words_on_manifests(found: i64, text: String, field: &'static str)
    ensures
        ManifestError::EmptyPluginId.headline() == "manifest.plugin_id 不能为空"@,
        ManifestError::EmptyName.headline() == "manifest.name 不能为空"@,
        ManifestError::EmptyVersion.headline() == "manifest.version 不能为空"@,
        ManifestError::EmptyPageTitle.headline() == "manifest.page.title 不能为空"@,
        ManifestError::EmptyConfigKey.headline() == "manifest.config.key 不能为空"@,
        ManifestError::ColonInPluginId.headline()
            == "manifest.plugin_id 不能包含 ':'(它是 kv 命名空间的分隔符)"@,
        ManifestError::ColonInConfigKey.headline()
            == "manifest.config.key 不能包含 ':'(它是 kv 命名空间的分隔符)"@,
        (ManifestError::WrongAbi { found }).headline() == "manifest.abi_version 必须为 2(当前 "@
            + signed_decimal(found as int) + ");v2 起不兼容 v1 插件,请用 v2 SDK 重build"@,
        (ManifestError::BlankAroundConfigKey { key: text }).headline() == "manifest.config.key `"@
            + text@ + "` 首尾不能有空白:面板写入的是原样 key"@,
        (ManifestError::LongConfigKey { key: text }).headline() == "manifest.config.key `"@ + text@
            + "` 超过 128 字节的上限"@,
        (ManifestError::RepeatedConfigKey { key: text }).headline()
            == "manifest.config 里 key `"@ + text@ + "` 重复"@,
        (ManifestError::UnknownEvent { event: text }).headline()
            == "manifest.subscribes 含未知事件 `"@ + text@
            + "`;v2 支持的宿主事件: agent_offline, agent_online,插件事件以 `plugin_` 前缀声明"@,
        ManifestError::NoWorkSurface.headline()
            == "manifest.subscribes 至少要订阅一个事件;不订阅事件的插件要声明 tick、page 或 cleanup 之一(声明 [[config]] 不算工作面)"@,
        (ManifestError::NotToml { detail: text }).headline() == "manifest 不是合法的 TOML"@,
        (ManifestError::NotToml { detail: text }).full_text() == "manifest 不是合法的 TOML"@
            + ": "@ + text@,
        ManifestError::EmptyName.full_text() == ManifestError::EmptyName.headline(),
        (ManifestError::BadField { field }).headline() == "manifest 不是合法的 TOML"@,
{
}

/// What is said of a row that could not be loaded names the row or the plugin,
/// and the reason.
pub proof fn law_words_on_loading(
    id: i64,
    text: String,
    detail: String,
    cause: ManifestError,
    name: &'static str,
)
    ensures
        (LoadError::Manifest { id, plugin_id: text, cause }).headline() == "插件 "@
            + signed_decimal(id as int) + "("@ + text@ + ") 的 manifest 无效"@,
        (LoadError::Manifest { id, plugin_id: text, cause }).full_text() == (
        LoadError::Manifest { id, plugin_id: text, cause }).headline() + ": "@ + cause.full_text(),
        (LoadError::Compile { id, plugin_id: text, detail }).headline() == "插件 "@
            + signed_decimal(id as int) + "("@ + text@ + ") 的 wasm 模块编译失败: "@ + detail@,
        (LoadError::Compile { id, plugin_id: text, detail }).full_text() == (
        LoadError::Compile { id, plugin_id: text, detail }).headline(),
        name@ == "memory"@ ==> (LoadError::MissingExport { plugin_id: text, name }).headline()
            == "插件 "@ + text@ + " 的模块缺少导出 `"@ + name@ + "`"@,
        name@ != "memory"@ ==> (LoadError::MissingExport { plugin_id: text, name }).headline()
            == "插件 "@ + text@ + " 的模块缺少导出 `"@ + name@ + "`(manifest 声明了该能力)"@,
        (RegistryError::NoRow { id }).headline() == "插件 "@ + signed_decimal(id as int)
            + " 不存在"@,
        (RegistryError::NotLoaded { id }).headline() == "插件 "@ + signed_decimal(id as int)
            + " 未加载"@,
{
}

/// What is said of a refused operation on the tables, and of a call that could
/// not be made, names what it was about.
pub proof fn law_words_on_tables_and_calls(
    id: i64,
    text: String,
    ptr: i32,
    code: i32,
    hook: Seq<char>,
)
    ensures
        (DbError::AlreadyUploaded { plugin_id: text }).spec_message() == "plugin "@ + text@
            + " is already uploaded"@,
        (DbError::NoPlugin { id }).spec_message() == "no plugin "@ + signed_decimal(id as int),
        (CallError::NoAddress { ptr }).headline("on_event"@) == "__alloc 返回了非正指针 "@
            + signed_decimal(ptr as int),
        hook != "on_event"@ ==> (CallError::NoAddress { ptr }).headline(hook)
            == "__alloc 返回非正指针 "@ + signed_decimal(ptr as int),
        (CallError::OutsideMemory { ptr }).headline(hook) == "__alloc 指针 "@ + signed_decimal(
            ptr as int,
        ) + " 超出线性内存"@,
        (CallError::ErrorCode { code }).headline(hook) == hook + " 返回错误码 "@
            + signed_decimal(code as int),
        CallError::AnswerOutsideMemory.headline(hook) == "响应超出线性内存"@,
{
}

/// A row is loaded only with the manifest that its text holds and with its own
/// binary, compiled by the given engine, and only where the binary exports what
/// the manifest calls for; a refused manifest, and nothing else, is reported as
/// one.
pub proof fn law_loaded_rows(
    engine: wasmtime::Engine,
    row: PluginModel,
    r: Result<LoadedPlugin, LoadError>,
)
    requires
        load_outcome(engine, row, r),
    ensures
        accepted(toml_document(row.manifest_json)) is None <==> (r matches Err(
            LoadError::Manifest { .. },
        )),
        r matches Ok(plugin) ==> {
            &&& accepted(toml_document(row.manifest_json)) == Some(plugin.manifest@)
            &&& binary_of(plugin.module) == row.wasm_blob
            &&& engine_of(plugin.module) == engine
            &&& exports_of(plugin.module) == wasm_exports(row.wasm_blob)
            &&& missing_export(plugin.manifest@, wasm_exports(row.wasm_blob)) is None
        },
        r matches Err(LoadError::Manifest { id, plugin_id, cause }) ==> id == row.id && plugin_id@
            == row.plugin_id && parse_outcome(toml_document(row.manifest_json), Err(cause)),
        r matches Err(LoadError::Compile { id, plugin_id, .. }) ==> id == row.id && plugin_id@
            == row.plugin_id,
        r matches Err(LoadError::MissingExport { plugin_id, name }) ==> (accepted(
            toml_document(row.manifest_json),
        ) matches Some(m) && plugin_id@ == m.plugin_id && missing_export(
            m,
            wasm_exports(row.wasm_blob),
        ) == Some(name@)),
{
}

/// The export that is reported missing is the first in the order memory,
/// `on_event`, `__alloc`, then what the manifest declares.
pub proof fn law_first_missing_export(m: ManifestModel, exports: Seq<(Seq<char>, KindModel)>)
    ensures
        !has_export(exports, "memory"@) ==> missing_export(m, exports) == Some("memory"@),
        has_export(exports, "memory"@) && !has_export(exports, "on_event"@) ==> missing_export(
            m,
            exports,
        ) == Some("on_event"@),
        has_export(exports, "memory"@) && has_export(exports, "on_event"@) && !has_export(
            exports,
            "__alloc"@,
        ) ==> missing_export(m, exports) == Some("__alloc"@),
        has_export(exports, "memory"@) && has_export(exports, "on_event"@) && has_export(
            exports,
            "__alloc"@,
        ) && m.tick && !has_export(exports, "on_tick"@) ==> missing_export(m, exports) == Some(
            "on_tick"@,
        ),
{
    reveal_with_fuel(crate::plugin::loader::first_missing, 5);
    let names = crate::plugin::loader::required_exports(m);
    assert(names[0] == "memory"@ && names[1] == "on_event"@ && names[2] == "__alloc"@);
    if m.tick {
        assert(names[3] == "on_tick"@);
    }
}

/// At startup an enabled row is loaded and says so, or says why it could not
/// be, and a plugin that stood in the registry before stays in that case; a row
/// that is switched off, and a plugin without a row, are left alone.
pub proof fn law_startup(
    engine: wasmtime::Engine,
    before: (Map<i64, LoadedModel>, DbModel),
    after: (Map<i64, LoadedModel>, DbModel),
    id: i64,
)
    requires
        preloaded(engine, before, after, id),
    ensures
        after.1.plugins.contains_key(id) == before.1.plugins.contains_key(id),
        before.1.plugins.contains_key(id) && before.1.plugins[id].enabled ==> {
            let row = before.1.plugins[id];
            ||| exists|plugin: LoadedPlugin| #[trigger]
                load_outcome(engine, row, Ok(plugin)) && after.0.contains_key(id) && after.0[id]
                    == plugin@ && after.1.plugins[id] == marked_enabled(row)
            ||| exists|e: LoadError| #[trigger]
                load_outcome(engine, row, Err(e)) && after.1.plugins[id] == marked_failed(
                    row,
                    e.full_text(),
                ) && after.0.contains_key(id) == before.0.contains_key(id) && (
                before.0.contains_key(id) ==> after.0[id] == before.0[id])
        },
        !(before.1.plugins.contains_key(id) && before.1.plugins[id].enabled) ==> {
            &&& after.0.contains_key(id) == before.0.contains_key(id)
            &&& before.0.contains_key(id) ==> after.0[id] == before.0[id]
            &&& before.1.plugins.contains_key(id) ==> after.1.plugins[id] == before.1.plugins[id]
        },
{
    if before.1.plugins.contains_key(id) && before.1.plugins[id].enabled {
        let row = before.1.plugins[id];
        let r = choose|r: Result<LoadedPlugin, LoadError>| #[trigger]
            load_outcome(engine, row, r) && match r {
                Ok(plugin) => {
                    &&& after.0.contains_key(id) && after.0[id] == plugin@
                    &&& after.1.plugins[id] == marked_enabled(row)
                },
                Err(e) => {
                    &&& after.0.contains_key(id) == before.0.contains_key(id)
                    &&& after.0.contains_key(id) ==> after.0[id] == before.0[id]
                    &&& after.1.plugins[id] == marked_failed(row, e.full_text())
                },
            };
        match r {
            Ok(plugin) => {
                assert(load_outcome(engine, row, Ok(plugin)));
            },
            Err(e) => {
                assert(load_outcome(engine, row, Err(e)));
            },
        }
    }
}

/// Enabling a row that is not there says so and changes nothing; one that loads
/// stands in the registry afterwards, and the tables stay; one that does not
/// leaves the registry and has the reason in its row. Nothing else changes.
pub proof fn law_enabling(
    before: (RegistryModel, DbModel),
    id: i64,
    r: Result<(), RegistryError>,
    after: (RegistryModel, DbModel),
    other: i64,
)
    requires
        enable_outcome(before, id, r, after),
        other != id,
    ensures
        !before.1.plugins.contains_key(id) <==> (r matches Err(RegistryError::NoRow { id: missing })
            && missing == id),
        !before.1.plugins.contains_key(id) ==> after == before,
        r is Ok ==> after.1 == before.1 && after.0.loaded.contains_key(id),
        r matches Err(RegistryError::Load { cause }) ==> {
            &&& after.0 == before.0
            &&& after.1.plugins[id] == marked_failed(before.1.plugins[id], cause.full_text())
            &&& after.1.settings == before.1.settings
            &&& after.1.data == before.1.data
            &&& after.1.log == before.1.log
        },
        after.0.loaded.contains_key(other) == before.0.loaded.contains_key(other),
        before.0.loaded.contains_key(other) ==> after.0.loaded[other] == before.0.loaded[other],
        after.1.plugins.contains_key(other) == before.1.plugins.contains_key(other),
        before.1.plugins.contains_key(other) ==> after.1.plugins[other] == before.1.plugins[other],
        after.0.log == before.0.log,
        after.0.pending == before.0.pending,
        after.0.dispatched == before.0.dispatched,
{
}

/// A line is logged with what would break it taken out, and cut to 200 bytes.
pub proof fn law_logged_line(s: Seq<char>)
    ensures
        log_line(s) == truncated(cleaned(s), 200),
{
}

/// A plugin's settings stand under `plugin.`, its id and a colon.
pub proof fn law_name_of_a_setting(id: Seq<char>)
    ensures
        kv_prefix(id) == "plugin."@ + id + seq![':'],
{
}

/// An entry of settings that is a list says key, label, need and hint in this
/// order, all of them; any other value is no entry.
pub proof fn law_listed_config_entry(items: Seq<ItemModel>, entry: ConfigModel)
    ensures
        config_in(ItemModel::List(items)) == Some(entry) <==> {
            &&& items.len() >= 4
            &&& items[0] == ItemModel::Text(entry.key)
            &&& (entry.label matches Some(label) && items[1] == ItemModel::Text(label))
            &&& items[2] == ItemModel::Boolean(entry.required)
            &&& (entry.hint matches Some(hint) && items[3] == ItemModel::Text(hint))
        },
        config_in(ItemModel::Other) is None,
        config_in(ItemModel::Integer(0)) is None,
{
}

/// A write is given up as too large only where a total does not fit 64 bits.
pub proof fn law_totals_that_do_not_fit(
    before: DbModel,
    id: Seq<char>,
    key: Seq<char>,
    value: Seq<char>,
    max: i64,
    now: i64,
    r: Result<Option<bool>, DbError>,
    after: DbModel,
)
    requires
        quota_outcome(before, id, key, value, max, now, r, after),
    ensures
        r is Err <==> data_count(before.data, id) > i64::MAX || data_bytes(before.data, id)
            > i64::MAX,
        r is Err ==> after == before && r == Err::<Option<bool>, DbError>(DbError::TooLarge),
{
}

} // verus!
