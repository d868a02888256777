//! From a stored row to a plugin that can be called: the manifest, the compiled
//! module, and the exports that the manifest calls for.

use vstd::prelude::*;
use vstd::string::*;

use crate::db::{PluginModel, PluginRow};
use crate::outside::{
    binary_of, compile_module, engine_of, exports_of, module_exports, toml_document, wasm_exports,
};
use crate::text::{decimal_i64, same_text};

use super::manifest::{accepted, parse_outcome, Manifest, ManifestError, ManifestModel};

verus! {

broadcast use vstd::seq_lib::group_seq_properties;

/// What a module exports under a name. Of a function: of each parameter and of
/// each result whether it is a 32-bit integer.
pub enum ExportKind {
    Memory,
    Func { params: Vec<bool>, results: Vec<bool> },
    /// A table, a global or a tag.
    Other,
}

/// What an export is.
pub ghost enum KindModel {
    Memory,
    Func { params: Seq<bool>, results: Seq<bool> },
    Other,
}

impl View for ExportKind {
    type V = KindModel;

    open spec fn view(&self) -> KindModel {
        match self {
            ExportKind::Memory => KindModel::Memory,
            ExportKind::Func { params, results } => KindModel::Func {
                params: params@,
                results: results@,
            },
            ExportKind::Other => KindModel::Other,
        }
    }
}

/// One export of a module.
pub struct Export {
    pub name: String,
    pub kind: ExportKind,
}

/// What a sequence of exports says.
pub open spec fn export_views(exports: Seq<Export>) -> Seq<(Seq<char>, KindModel)> {
    Seq::new(exports.len(), |i: int| (exports[i].name@, exports[i].kind@))
}

/// So many 32-bit integers.
pub open spec fn integers(kinds: Seq<bool>, n: int) -> bool {
    kinds.len() == n && forall|i: int| 0 <= i < n ==> #[trigger] kinds[i]
}

/// A function that takes and returns so many 32-bit integers.
pub open spec fn has_signature(kind: KindModel, takes: int, gives: int) -> bool {
    match kind {
        KindModel::Func { params, results } => integers(params, takes) && integers(results, gives),
        _ => false,
    }
}

/// An export that can serve under a name: the memory is a memory, every entry
/// is a function, and the two that the hub calls on each event have their
/// signatures.
pub open spec fn serves(name: Seq<char>, kind: KindModel) -> bool {
    if name == "memory"@ {
        kind is Memory
    } else if name == "on_event"@ {
        has_signature(kind, 2, 1)
    } else if name == "__alloc"@ {
        has_signature(kind, 1, 1)
    } else {
        kind is Func
    }
}

/// There is an export that can serve under this name.
pub open spec fn has_export(exports: Seq<(Seq<char>, KindModel)>, name: Seq<char>) -> bool {
    exists|i: int|
        0 <= i < exports.len() && (#[trigger] exports[i]).0 == name && serves(name, exports[i].1)
}

/// What a module has to export under a manifest, in the order in which it is
/// looked for.
pub open spec fn required_exports(m: ManifestModel) -> Seq<Seq<char>> {
    seq!["memory"@, "on_event"@, "__alloc"@] + (if m.tick {
        seq!["on_tick"@]
    } else {
        seq![]
    }) + (if m.page is Some {
        seq!["render_page"@, "on_action"@]
    } else {
        seq![]
    }) + (if m.cleanup {
        seq!["on_cleanup"@]
    } else {
        seq![]
    })
}

/// The first of the names from `i` on that is not exported.
pub open spec fn first_missing(
    exports: Seq<(Seq<char>, KindModel)>,
    names: Seq<Seq<char>>,
    i: int,
) -> Option<Seq<char>>
    decreases names.len() - i,
{
    if i < 0 || i >= names.len() {
        None
    } else if !has_export(exports, names[i]) {
        Some(names[i])
    } else {
        first_missing(exports, names, i + 1)
    }
}

/// The first export that a module lacks under a manifest.
pub open spec fn missing_export(
    m: ManifestModel,
    exports: Seq<(Seq<char>, KindModel)>,
) -> Option<Seq<char>> {
    first_missing(exports, required_exports(m), 0)
}

fn are_integers(kinds: &Vec<bool>, n: usize) -> (r: bool)
    ensures
        r == integers(kinds@, n as int),
{
    if kinds.len() != n {
        return false;
    }
    let mut i: usize = 0;
    while i < n
        invariant
            i <= n == kinds@.len(),
            forall|j: int| 0 <= j < i ==> #[trigger] kinds@[j],
        decreases n - i,
    {
        if !kinds[i] {
            return false;
        }
        i = i + 1;
    }
    true
}

impl ExportKind {
    fn serves_as(&self, name: &str) -> (r: bool)
        ensures
            r == serves(name@, self@),
    {
        if same_text(name, "memory") {
            return match self {
                ExportKind::Memory => true,
                _ => false,
            };
        }
        match self {
            ExportKind::Func { params, results } => if same_text(name, "on_event") {
                are_integers(params, 2) && are_integers(results, 1)
            } else if same_text(name, "__alloc") {
                are_integers(params, 1) && are_integers(results, 1)
            } else {
                true
            },
            _ => false,
        }
    }
}

fn exported(exports: &Vec<Export>, name: &str) -> (r: bool)
    ensures
        r == has_export(export_views(exports@), name@),
{
    let ghost views = export_views(exports@);
    let mut i: usize = 0;
    while i < exports.len()
        invariant
            i <= exports@.len(),
            views == export_views(exports@),
            forall|j: int|
                0 <= j < i ==> (#[trigger] views[j]).0 != name@ || !serves(name@, views[j].1),
        decreases exports@.len() - i,
    {
        assert(views[i as int] == (exports@[i as int].name@, exports@[i as int].kind@));
        if same_text(exports[i].name.as_str(), name) && exports[i].kind.serves_as(name) {
            return true;
        }
        i = i + 1;
    }
    false
}

/// Checks the exports of a module against its manifest. The error is the name
/// of the first that is missing or cannot serve.
pub fn check_exports(manifest: &Manifest, exports: &Vec<Export>) -> (r: Result<(), &'static str>)
    ensures
        match r {
            Ok(()) => missing_export(manifest@, export_views(exports@)) is None,
            Err(name) => missing_export(manifest@, export_views(exports@)) == Some(name@),
        },
{
    let mut names: Vec<&'static str> = Vec::new();
    names.push("memory");
    names.push("on_event");
    names.push("__alloc");
    if manifest.tick {
        names.push("on_tick");
    }
    if manifest.page.is_some() {
        names.push("render_page");
        names.push("on_action");
    }
    if manifest.cleanup {
        names.push("on_cleanup");
    }
    let ghost required = required_exports(manifest@);
    let ghost views = export_views(exports@);
    assert(names@.len() == required.len());
    assert(forall|j: int| 0 <= j < names@.len() ==> (#[trigger] names@[j])@ == required[j]);
    let mut i: usize = 0;
    while i < names.len()
        invariant
            i <= names@.len(),
            views == export_views(exports@),
            required == required_exports(manifest@),
            names@.len() == required.len(),
            forall|j: int| 0 <= j < names@.len() ==> (#[trigger] names@[j])@ == required[j],
            first_missing(views, required, i as int) == first_missing(views, required, 0),
        decreases names@.len() - i,
    {
        assert(names@[i as int]@ == required[i as int]);
        if !exported(exports, names[i]) {
            return Err(names[i]);
        }
        i = i + 1;
    }
    Ok(())
}

/// What a loaded plugin is.
pub ghost struct LoadedModel {
    pub manifest: ManifestModel,
    pub module: wasmtime::Module,
}

/// A plugin that can be called again and again: its manifest and its compiled
/// module. Every call makes its own instance.
pub struct LoadedPlugin {
    pub manifest: Manifest,
    pub module: wasmtime::Module,
}

impl View for LoadedPlugin {
    type V = LoadedModel;

    open spec fn view(&self) -> LoadedModel {
        LoadedModel { manifest: self.manifest@, module: self.module }
    }
}

/// Why a row could not be loaded.
#[derive(Debug)]
pub enum LoadError {
    /// The manifest is refused.
    Manifest { id: i64, plugin_id: String, cause: ManifestError },
    /// The module does not compile; what the engine says of it.
    Compile { id: i64, plugin_id: String, detail: String },
    /// The module lacks an export.
    MissingExport { plugin_id: String, name: &'static str },
}

impl LoadError {
    /// The error in words, without what lies behind it.
    pub open spec fn headline(self) -> Seq<char> {
        match self {
            LoadError::Manifest { id, plugin_id, .. } => "插件 "@ + crate::text::signed_decimal(
                id as int,
            ) + "("@ + plugin_id@ + ") 的 manifest 无效"@,
            LoadError::Compile { id, plugin_id, detail } => "插件 "@ + crate::text::signed_decimal(
                id as int,
            ) + "("@ + plugin_id@ + ") 的 wasm 模块编译失败: "@ + detail@,
            LoadError::MissingExport { plugin_id, name } => "插件 "@ + plugin_id@
                + " 的模块缺少导出 `"@ + name@ + (if name@ == "memory"@ {
                "`"@
            } else {
                "`(manifest 声明了该能力)"@
            }),
        }
    }

    /// The error in words, with what lies behind it.
    pub open spec fn full_text(self) -> Seq<char> {
        match self {
            LoadError::Manifest { cause, .. } => self.headline() + ": "@ + cause.full_text(),
            _ => self.headline(),
        }
    }

    /// The error in words, without what lies behind it.
    pub fn message(&self) -> (r: String)
        ensures
            r@ == self.headline(),
    {
        let mut r = "插件 ".to_owned();
        match self {
            LoadError::Manifest { id, plugin_id, .. } => {
                r.append(decimal_i64(*id).as_str());
                r.append("(");
                r.append(plugin_id.as_str());
                r.append(") 的 manifest 无效");
            },
            LoadError::Compile { id, plugin_id, detail } => {
                r.append(decimal_i64(*id).as_str());
                r.append("(");
                r.append(plugin_id.as_str());
                r.append(") 的 wasm 模块编译失败: ");
                r.append(detail.as_str());
            },
            LoadError::MissingExport { plugin_id, name } => {
                r.append(plugin_id.as_str());
                r.append(" 的模块缺少导出 `");
                r.append(name);
                if same_text(name, "memory") {
                    r.append("`");
                } else {
                    r.append("`(manifest 声明了该能力)");
                }
            },
        }
        r
    }

    /// The error in words, with what lies behind it.
    pub fn chain(&self) -> (r: String)
        ensures
            r@ == self.full_text(),
    {
        let mut r = self.message();
        match self {
            LoadError::Manifest { cause, .. } => {
                r.append(": ");
                r.append(cause.chain().as_str());
            },
            _ => {},
        }
        r
    }
}

/// What comes of loading a row: the manifest is refused; or the module does not
/// compile, which rests with the engine; or it lacks an export; or all is there,
/// and the module is the row's binary, compiled with this engine.
pub open spec fn load_outcome(
    engine: wasmtime::Engine,
    row: PluginModel,
    r: Result<LoadedPlugin, LoadError>,
) -> bool {
    let document = toml_document(row.manifest_json);
    let exports = wasm_exports(row.wasm_blob);
    match r {
        Ok(plugin) => {
            &&& accepted(document) == Some(plugin@.manifest)
            &&& engine_of(plugin@.module) == engine
            &&& binary_of(plugin@.module) == row.wasm_blob
            &&& exports_of(plugin@.module) == exports
            &&& missing_export(plugin@.manifest, exports) is None
        },
        Err(LoadError::Manifest { id, plugin_id, cause }) => {
            &&& accepted(document) is None
            &&& parse_outcome(document, Err(cause))
            &&& id == row.id
            &&& plugin_id@ == row.plugin_id
        },
        Err(LoadError::Compile { id, plugin_id, .. }) => {
            &&& accepted(document) is Some
            &&& id == row.id
            &&& plugin_id@ == row.plugin_id
        },
        Err(LoadError::MissingExport { plugin_id, name }) => {
            &&& accepted(document) matches Some(m) && plugin_id@ == m.plugin_id
                && missing_export(m, exports) == Some(name@)
        },
    }
}

/// Turns a row into a plugin that can be called: reads the manifest, compiles
/// the module, checks the exports. The three fail separately, so that an author
/// sees which of them is at fault.
pub fn load(engine: &wasmtime::Engine, row: &PluginRow) -> (r: Result<LoadedPlugin, LoadError>)
    ensures
        load_outcome(*engine, row@, r),
{
    let manifest = match Manifest::parse(row.manifest_json.as_str()) {
        Ok(manifest) => manifest,
        Err(cause) => {
            return Err(
                LoadError::Manifest { id: row.id, plugin_id: row.plugin_id.clone(), cause },
            );
        },
    };
    finish_load(row, manifest, compile_module(engine, &row.wasm_blob))
}

/// Takes in what came of compiling a row's module: an error is passed on, and a
/// module has to export what the manifest declares.
pub fn finish_load(
    row: &PluginRow,
    manifest: Manifest,
    compiled: Result<wasmtime::Module, String>,
) -> (r: Result<LoadedPlugin, LoadError>)
    ensures
        match compiled {
            Ok(module) => match missing_export(manifest@, exports_of(module)) {
                None => r matches Ok(plugin) && plugin@ == (LoadedModel {
                    manifest: manifest@,
                    module,
                }),
                Some(missing) => r matches Err(LoadError::MissingExport { plugin_id, name })
                    && plugin_id@ == manifest@.plugin_id && name@ == missing,
            },
            Err(words) => r matches Err(LoadError::Compile { id, plugin_id, detail }) && id == row.id
                && plugin_id@ == row.plugin_id@ && detail@ == words@,
        },
{
    let module = match compiled {
        Ok(module) => module,
        Err(detail) => {
            return Err(
                LoadError::Compile { id: row.id, plugin_id: row.plugin_id.clone(), detail },
            );
        },
    };
    let exports = module_exports(&module);
    match check_exports(&manifest, &exports) {
        Ok(()) => Ok(LoadedPlugin { manifest, module }),
        Err(name) => Err(LoadError::MissingExport { plugin_id: manifest.plugin_id.clone(), name }),
    }
}

/// The engine of the process. Fuel has to be switched on in its configuration:
/// without it a plugin that never ends would never be cut off.
///
/// This makes a `wasmtime::Engine` with `Config::consume_fuel`; nothing is
/// claimed of it.
#[verifier::external_body]
pub fn new_engine() -> (r: wasmtime::Engine) {
    let mut config = wasmtime::Config::new();
    config.consume_fuel(true);
    wasmtime::Engine::new(&config).expect("a default engine with fuel")
}

proof fn lemma_nothing_missing(
    exports: Seq<(Seq<char>, KindModel)>,
    names: Seq<Seq<char>>,
    i: int,
    k: int,
)
    requires
        0 <= i <= k < names.len(),
        first_missing(exports, names, i) is None,
    ensures
        has_export(exports, names[k]),
    decreases k - i,
{
    if i < k {
        lemma_nothing_missing(exports, names, i + 1, k);
    }
}

/// A plugin that was loaded exports its memory, the event entry and the
/// allocator with their signatures, and every entry that its manifest declares.
pub proof fn law_loaded_plugin_has_its_exports(
    engine: wasmtime::Engine,
    row: PluginModel,
    plugin: LoadedPlugin,
)
    requires
        load_outcome(engine, row, Ok(plugin)),
    ensures
        ({
            let exports = exports_of(plugin@.module);
            let m = plugin@.manifest;
            &&& has_export(exports, "memory"@)
            &&& has_export(exports, "on_event"@)
            &&& has_export(exports, "__alloc"@)
            &&& m.tick ==> has_export(exports, "on_tick"@)
            &&& m.page is Some ==> has_export(exports, "render_page"@) && has_export(
                exports,
                "on_action"@,
            )
            &&& m.cleanup ==> has_export(exports, "on_cleanup"@)
        }),
{
    let exports = exports_of(plugin@.module);
    let m = plugin@.manifest;
    let names = required_exports(m);
    lemma_nothing_missing(exports, names, 0, 0);
    lemma_nothing_missing(exports, names, 0, 1);
    lemma_nothing_missing(exports, names, 0, 2);
    let ticks: int = if m.tick {
        1
    } else {
        0
    };
    let pages: int = if m.page is Some {
        2
    } else {
        0
    };
    if m.tick {
        lemma_nothing_missing(exports, names, 0, 3);
    }
    if m.page is Some {
        lemma_nothing_missing(exports, names, 0, 3 + ticks);
        lemma_nothing_missing(exports, names, 0, 4 + ticks);
    }
    if m.cleanup {
        lemma_nothing_missing(exports, names, 0, 3 + ticks + pages);
    }
}

} // verus!
