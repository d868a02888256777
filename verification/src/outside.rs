//! What the library takes from other crates and from the platform. The
//! contracts here are claims about that code; nothing proves them.

use vstd::prelude::*;
use vstd::utf8::*;

use crate::json::quoted;
use crate::notification_bus::{member_views, unique_keys, Json, JsonModel, Member};
use crate::plugin::loader::{export_views, Export, ExportKind, KindModel};
use crate::plugin::toml_item::{ItemModel, Level};

verus! {

/// A second that the clock can show: not before the epoch, and not behind the
/// end of the year 262142, which is the last that `chrono` has dates for.
pub open spec fn clock_second(second: i64) -> bool {
    0 <= second <= 8_210_266_876_799
}

/// `chrono::Utc::now().timestamp()`: the current Unix time in seconds. Which
/// second that is rests with the system clock. `Utc::now` takes the clock's
/// distance from the epoch and turns it into a date; it does not return where
/// the clock stands before the epoch or behind the last date.
#[verifier::external_body]
pub(crate) fn utc_now() -> (r: i64)
    ensures
        clock_second(r),
{
    chrono::Utc::now().timestamp()
}

/// The day that `chrono::NaiveDate::parse_from_str` reads from a text in the
/// form year, month, day with hyphens between them, counted by
/// `chrono::Datelike::num_days_from_ce`; `None` where the text is no such date.
pub uninterp spec fn date_days(text: Seq<char>) -> Option<i32>;

/// `chrono::NaiveDate::parse_from_str` with the format `%Y-%m-%d`, the date
/// counted in days of the common era. The result depends on the text alone.
#[verifier::external_body]
pub(crate) fn parse_date(text: &str) -> (r: Option<i32>)
    ensures
        r == date_days(text@),
{
    let date = chrono::NaiveDate::parse_from_str(text, "%Y-%m-%d").ok()?;
    Some(chrono::Datelike::num_days_from_ce(&date))
}

/// `serde_json::to_string` on a string: the text in quotes, with quotes,
/// backslashes and the control characters below the space escaped.
#[verifier::external_body]
pub(crate) fn quote(text: &str) -> (r: String)
    ensures
        r@ == quoted(text@),
{
    serde_json::to_string(text).expect("a string serializes")
}

/// The JSON value that `serde_json::from_str` reads from a text; `None` where
/// the text is no JSON.
pub uninterp spec fn json_value(text: Seq<char>) -> Option<JsonModel>;

/// `serde_json::from_str` into a `serde_json::Value`, told by its variant. An
/// object is handed out member by member (`Value::to_string`, `Value::as_i64`,
/// `Value::as_str`). The result depends on the text alone, and the map that
/// holds an object's members has each key once.
#[verifier::external_body]
pub(crate) fn parse_json(text: &str) -> (r: Option<Json>)
    ensures
        match r {
            Some(value) => json_value(text@) == Some(value@) && (value matches Json::Object(members)
                ==> unique_keys(member_views(members@))),
            None => json_value(text@) is None,
        },
{
    match serde_json::from_str::<serde_json::Value>(text).ok()? {
        serde_json::Value::Null => Some(Json::Null),
        serde_json::Value::Bool(_) => Some(Json::Boolean),
        serde_json::Value::Number(_) => Some(Json::Number),
        serde_json::Value::String(_) => Some(Json::Text),
        serde_json::Value::Array(_) => Some(Json::List),
        serde_json::Value::Object(map) => Some(Json::Object(
            map.into_iter().map(|(key, value)| Member {
                key,
                json: value.to_string(),
                integer: value.as_i64(),
                text: value.as_str().map(str::to_owned),
            }).collect(),
        )),
    }
}

/// `String::from_utf8`: the text that the bytes encode, or nothing where they
/// are no UTF-8.
#[verifier::external_body]
pub(crate) fn utf8_text(bytes: Vec<u8>) -> (r: Option<String>)
    ensures
        match r {
            Some(s) => valid_utf8(bytes@) && s@ == decode_utf8(bytes@),
            None => !valid_utf8(bytes@),
        },
{
    String::from_utf8(bytes).ok()
}

/// A value of a TOML document, as the `toml` crate holds it.
#[verifier::external_type_specification]
#[verifier::external_body]
pub struct ExTomlValue(toml::Value);

/// What a `toml::Value` holds.
pub uninterp spec fn toml_contents(value: toml::Value) -> ItemModel;

/// The document that `toml::from_str` reads from a text, or the words of its
/// error where the text is no TOML.
pub uninterp spec fn toml_document(text: Seq<char>) -> Result<ItemModel, Seq<char>>;

/// `toml::from_str` into a `toml::Value`. Whether it succeeds, what the value
/// holds and what the error says depend on the text alone.
#[verifier::external_body]
pub(crate) fn parse_toml(text: &str) -> (r: Result<toml::Value, String>)
    ensures
        toml_document(text@) == (match r {
            Ok(value) => Ok::<ItemModel, Seq<char>>(toml_contents(value)),
            Err(detail) => Err::<ItemModel, Seq<char>>(detail@),
        }),
{
    toml::from_str::<toml::Value>(text).map_err(|e| e.to_string())
}

/// The variant of a `toml::Value`, with what it holds one level down. A table
/// hands out its members in the order of the map that holds them.
#[verifier::external_body]
pub(crate) fn toml_level(value: &toml::Value) -> (r: Level<'_>)
    ensures
        r.model() == toml_contents(*value),
{
    match value {
        toml::Value::String(s) => Level::Text(s),
        toml::Value::Integer(n) => Level::Integer(*n),
        toml::Value::Boolean(b) => Level::Boolean(*b),
        toml::Value::Array(a) => Level::List(a),
        toml::Value::Table(t) => Level::Table(t.iter().collect()),
        toml::Value::Float(_) => Level::Other,
        toml::Value::Datetime(_) => Level::Other,
    }
}

/// The engine that compiles and runs wasm modules.
#[verifier::external_type_specification]
#[verifier::external_body]
pub struct ExEngine(wasmtime::Engine);

/// A compiled wasm module.
#[verifier::external_type_specification]
#[verifier::external_body]
pub struct ExModule(wasmtime::Module);

/// The exports of a compiled module, each with its kind.
pub uninterp spec fn exports_of(module: wasmtime::Module) -> Seq<(Seq<char>, KindModel)>;

/// The engine that a module was compiled with, as `wasmtime::Module::engine`
/// tells it.
pub uninterp spec fn engine_of(module: wasmtime::Module) -> wasmtime::Engine;

/// The binary that a module was compiled from.
pub uninterp spec fn binary_of(module: wasmtime::Module) -> Seq<u8>;

/// The exports that a wasm binary declares.
pub uninterp spec fn wasm_exports(bytes: Seq<u8>) -> Seq<(Seq<char>, KindModel)>;

/// `wasmtime::Module::new`: a module of this engine, compiled from these bytes,
/// that exports what the binary declares. Only this engine can run it. Whether the binary compiles rests with the engine and its limits, and the
/// words of the error are left open.
#[verifier::external_body]
pub(crate) fn compile_module(engine: &wasmtime::Engine, bytes: &Vec<u8>) -> (r: Result<
    wasmtime::Module,
    String,
>)
    ensures
        r matches Ok(module) ==> exports_of(module) == wasm_exports(bytes@) && binary_of(module)
            == bytes@ && engine_of(module) == *engine,
{
    wasmtime::Module::new(engine, bytes).map_err(|e| e.to_string())
}

/// `wasmtime::Module::exports`: the names of the exports, and of each whether
/// it is a memory, a function or something else; of a function, which of its
/// parameters and results are 32-bit integers (`FuncType::params`,
/// `FuncType::results`, `ValType::is_i32`).
#[verifier::external_body]
pub(crate) fn module_exports(module: &wasmtime::Module) -> (r: Vec<Export>)
    ensures
        export_views(r@) == exports_of(*module),
{
    module.exports().map(|e| Export {
        name: e.name().to_owned(),
        kind: match e.ty() {
            wasmtime::ExternType::Memory(_) => ExportKind::Memory,
            wasmtime::ExternType::Func(f) => ExportKind::Func {
                params: f.params().map(|t| t.is_i32()).collect(),
                results: f.results().map(|t| t.is_i32()).collect(),
            },
            wasmtime::ExternType::Global(_) => ExportKind::Other,
            wasmtime::ExternType::Table(_) => ExportKind::Other,
            wasmtime::ExternType::Tag(_) => ExportKind::Other,
        },
    }).collect()
}

/// The host and the port of a URL, the port of its scheme where it names none,
/// as `reqwest::Url::parse` reads them; `None` where the text is no URL.
pub uninterp spec fn url_parts(text: Seq<char>) -> Option<(Option<Seq<char>>, Option<u16>)>;

/// What the host and the port of a URL say.
pub open spec fn parts_view(parts: Option<(Option<String>, Option<u16>)>) -> Option<
    (Option<Seq<char>>, Option<u16>),
> {
    match parts {
        Some((host, port)) => Some((crate::db::opt_text(host), port)),
        None => None,
    }
}

/// `reqwest::Url::parse`, handed out by `Url::host_str` and
/// `Url::port_or_known_default`. The result depends on the text alone.
#[verifier::external_body]
pub(crate) fn url_target(text: &str) -> (r: Option<(Option<String>, Option<u16>)>)
    ensures
        parts_view(r) == url_parts(text@),
{
    let url = reqwest::Url::parse(text).ok()?;
    Some((url.host_str().map(str::to_owned), url.port_or_known_default()))
}

} // verus!
