//! The manifest of a plugin: its fields, and the rules that they obey.

use vstd::prelude::*;
use vstd::string::*;
use vstd::utf8::*;

use crate::notification_bus::Event;
use crate::outside::{parse_toml, toml_document};
use crate::text::{
    byte_len, contains_char, decimal_i64, is_blank, same_text, starts_with, texts, trim, trimmed,
};

use super::toml_item::{
    boolean_in, declared_in, field, field_of, fields_model, integer_in, item_of, items_model,
    lemma_list_model, lemma_table_model, optional_text_in, read_boolean, read_declared,
    read_integer, read_optional_text, read_text, text_in, Item, ItemModel,
};

verus! {

broadcast use vstd::seq_lib::group_seq_properties;

/// The version of the interface between the hub and its plugins. A plugin of
/// another version is refused when it is loaded.
pub const ABI_VERSION: i64 = 2;

/// The names of the hub's own events, to which a plugin may subscribe besides
/// the events of other plugins.
pub const KNOWN_EVENT_NAMES: [&'static str; 2] = Event::KNOWN;

/// What the names of events that plugins emit begin with.
pub const PLUGIN_EVENT_PREFIX: &'static str = "plugin_";

/// The most bytes of a key in a plugin's settings.
pub const KV_KEY_MAX: usize = 128;

/// The `page` of a manifest: the title of a page in the panel.
#[derive(Debug)]
pub struct PageDecl {
    pub title: String,
}

/// What a `[[config]]` entry says.
pub ghost struct ConfigModel {
    pub key: Seq<char>,
    pub label: Option<Seq<char>>,
    pub required: bool,
    pub hint: Option<Seq<char>>,
}

/// A `[[config]]` entry: a setting that the panel's configuration dialog shows.
/// It serves the panel alone; a dispatch never looks at it.
#[derive(Debug)]
pub struct ConfigDecl {
    /// The setting's key, the right half of `plugin.<plugin_id>:<key>`.
    pub key: String,
    /// What the panel calls the setting; the key where it is missing.
    pub label: Option<String>,
    /// Whether a value has to be there before a test.
    pub required: bool,
    /// How to fill it in.
    pub hint: Option<String>,
}

impl View for ConfigDecl {
    type V = ConfigModel;

    open spec fn view(&self) -> ConfigModel {
        ConfigModel {
            key: self.key@,
            label: crate::db::opt_text(self.label),
            required: self.required,
            hint: crate::db::opt_text(self.hint),
        }
    }
}

/// What a manifest says.
pub ghost struct ManifestModel {
    pub plugin_id: Seq<char>,
    pub name: Seq<char>,
    pub version: Seq<char>,
    pub abi_version: i64,
    pub subscribes: Seq<Seq<char>>,
    pub tick: bool,
    pub page: Option<Seq<char>>,
    pub cleanup: bool,
    pub wasm_entry: Seq<char>,
    pub config: Seq<ConfigModel>,
}

/// The manifest of a plugin.
#[derive(Debug)]
pub struct Manifest {
    /// The plugin's stable name. Not blank and without `:`, which stands
    /// between it and the key in `plugin.<plugin_id>:<key>`.
    pub plugin_id: String,
    /// What the panel calls the plugin.
    pub name: String,
    pub version: String,
    /// Has to be [`ABI_VERSION`].
    pub abi_version: i64,
    /// The events that the plugin is called for.
    pub subscribes: Vec<String>,
    /// Whether the plugin has an `on_tick`.
    pub tick: bool,
    /// The plugin's page in the panel, with a `render_page` and an `on_action`.
    pub page: Option<PageDecl>,
    /// Whether the plugin has an `on_cleanup`.
    pub cleanup: bool,
    /// The name of the module's file in the package.
    pub wasm_entry: String,
    /// The settings that the panel shows.
    pub config: Vec<ConfigDecl>,
}

/// What a page declaration says: its title.
pub open spec fn page_title(page: Option<PageDecl>) -> Option<Seq<char>> {
    match page {
        Some(p) => Some(p.title@),
        None => None,
    }
}

/// What `[[config]]` entries say.
pub open spec fn config_models(config: Seq<ConfigDecl>) -> Seq<ConfigModel> {
    Seq::new(config.len(), |i: int| config[i]@)
}

impl View for Manifest {
    type V = ManifestModel;

    open spec fn view(&self) -> ManifestModel {
        ManifestModel {
            plugin_id: self.plugin_id@,
            name: self.name@,
            version: self.version@,
            abi_version: self.abi_version,
            subscribes: texts(self.subscribes@),
            tick: self.tick,
            page: page_title(self.page),
            cleanup: self.cleanup,
            wasm_entry: self.wasm_entry@,
            config: config_models(self.config@),
        }
    }
}

// ---------------------------------------------------------------------------
// Shape
// ---------------------------------------------------------------------------

/// The elements of a list of texts.
pub open spec fn texts_in(items: Seq<ItemModel>) -> Option<Seq<Seq<char>>>
    decreases items.len(),
{
    if items.len() == 0 {
        Some(Seq::empty())
    } else {
        match (texts_in(items.drop_last()), items.last()) {
            (Some(front), ItemModel::Text(s)) => Some(front.push(s)),
            _ => None,
        }
    }
}

/// A list of texts, empty where it is missing.
pub open spec fn text_list_in(item: Option<ItemModel>) -> Option<Seq<Seq<char>>> {
    match item {
        None => Some(Seq::empty()),
        Some(ItemModel::List(items)) => texts_in(items),
        _ => None,
    }
}

/// A page declaration: a table with a title, or a list that begins with one.
pub open spec fn page_in(item: Option<ItemModel>) -> Option<Option<Seq<char>>> {
    match item {
        None => Some(None),
        Some(ItemModel::Table(fields)) => match text_in(field_of(fields, "title"@)) {
            Some(title) => Some(Some(title)),
            None => None,
        },
        Some(ItemModel::List(items)) => if items.len() > 0 {
            match items[0] {
                ItemModel::Text(title) => Some(Some(title)),
                _ => None,
            }
        } else {
            None
        },
        _ => None,
    }
}

/// A `[[config]]` entry: a table of its fields, or a list of all four in the
/// order key, label, required, hint.
pub open spec fn config_in(item: ItemModel) -> Option<ConfigModel> {
    match item {
        ItemModel::Table(fields) => match (
            text_in(field_of(fields, "key"@)),
            optional_text_in(field_of(fields, "label"@)),
            boolean_in(field_of(fields, "required"@)),
            optional_text_in(field_of(fields, "hint"@)),
        ) {
            (Some(key), Some(label), Some(required), Some(hint)) => Some(
                ConfigModel { key, label, required, hint },
            ),
            _ => None,
        },
        ItemModel::List(items) => if items.len() >= 4 {
            match (items[0], items[1], items[2], items[3]) {
                (
                    ItemModel::Text(key),
                    ItemModel::Text(label),
                    ItemModel::Boolean(required),
                    ItemModel::Text(hint),
                ) => Some(ConfigModel { key, label: Some(label), required, hint: Some(hint) }),
                _ => None,
            }
        } else {
            None
        },
        _ => None,
    }
}

/// The entries of a list of `[[config]]`.
pub open spec fn configs_in(items: Seq<ItemModel>) -> Option<Seq<ConfigModel>>
    decreases items.len(),
{
    if items.len() == 0 {
        Some(Seq::empty())
    } else {
        match (configs_in(items.drop_last()), config_in(items.last())) {
            (Some(front), Some(last)) => Some(front.push(last)),
            _ => None,
        }
    }
}

/// The `[[config]]` entries, none where they are missing.
pub open spec fn config_list_in(item: Option<ItemModel>) -> Option<Seq<ConfigModel>> {
    match item {
        None => Some(Seq::empty()),
        Some(ItemModel::List(items)) => configs_in(items),
        _ => None,
    }
}

/// The name of the module's file: `plugin.wasm` where it is missing.
pub open spec fn entry_in(item: Option<ItemModel>) -> Option<Seq<char>> {
    match item {
        None => Some("plugin.wasm"@),
        _ => text_in(item),
    }
}

/// The manifest that the fields of a document spell, or the first field that
/// is missing or has another type. Other fields are of no interest.
pub open spec fn shaped(fields: Seq<(Seq<char>, ItemModel)>) -> Result<ManifestModel, Seq<char>> {
    let plugin_id = text_in(field_of(fields, "plugin_id"@));
    let name = text_in(field_of(fields, "name"@));
    let version = text_in(field_of(fields, "version"@));
    let abi_version = integer_in(field_of(fields, "abi_version"@));
    let subscribes = text_list_in(field_of(fields, "subscribes"@));
    let tick = declared_in(field_of(fields, "tick"@));
    let page = page_in(field_of(fields, "page"@));
    let cleanup = declared_in(field_of(fields, "cleanup"@));
    let wasm_entry = entry_in(field_of(fields, "wasm_entry"@));
    let config = config_list_in(field_of(fields, "config"@));
    if plugin_id is None {
        Err("plugin_id"@)
    } else if name is None {
        Err("name"@)
    } else if version is None {
        Err("version"@)
    } else if abi_version is None {
        Err("abi_version"@)
    } else if subscribes is None {
        Err("subscribes"@)
    } else if tick is None {
        Err("tick"@)
    } else if page is None {
        Err("page"@)
    } else if cleanup is None {
        Err("cleanup"@)
    } else if wasm_entry is None {
        Err("wasm_entry"@)
    } else if config is None {
        Err("config"@)
    } else {
        Ok(
            ManifestModel {
                plugin_id: plugin_id->0,
                name: name->0,
                version: version->0,
                abi_version: abi_version->0,
                subscribes: subscribes->0,
                tick: tick->0,
                page: page->0,
                cleanup: cleanup->0,
                wasm_entry: wasm_entry->0,
                config: config->0,
            },
        )
    }
}

fn read_texts(items: &Vec<Item>) -> (r: Option<Vec<String>>)
    ensures
        match r {
            Some(v) => texts_in(items_model(items@)) == Some(texts(v@)),
            None => texts_in(items_model(items@)) is None,
        },
{
    let ghost model = items_model(items@);
    let mut v: Vec<String> = Vec::new();
    let mut i: usize = 0;
    let mut fits = true;
    assert(model.take(0) =~= Seq::<ItemModel>::empty());
    assert(texts(v@) =~= Seq::<Seq<char>>::empty());
    while i < items.len()
        invariant
            i <= items@.len(),
            model == items_model(items@),
            fits ==> texts_in(model.take(i as int)) == Some(texts(v@)),
            !fits ==> texts_in(model.take(i as int)) is None,
        decreases items@.len() - i,
    {
        assert(model.take(i + 1).drop_last() =~= model.take(i as int));
        assert(model.take(i + 1).last() == items@[i as int].model());
        if fits {
            match &items[i] {
                Item::Text(s) => {
                    let ghost before = v@;
                    let copy = s.clone();
                    v.push(copy);
                    proof {
                        crate::text::lemma_texts_push(before, copy);
                    }
                },
                _ => {
                    fits = false;
                },
            }
        }
        i = i + 1;
    }
    assert(model.take(i as int) =~= model);
    if fits {
        Some(v)
    } else {
        None
    }
}

fn read_text_list(item: Option<&Item>) -> (r: Option<Vec<String>>)
    ensures
        match r {
            Some(v) => text_list_in(super::toml_item::opt_model(item)) == Some(texts(v@)),
            None => text_list_in(super::toml_item::opt_model(item)) is None,
        },
{
    match item {
        None => {
            let v: Vec<String> = Vec::new();
            assert(texts(v@) =~= Seq::<Seq<char>>::empty());
            Some(v)
        },
        Some(Item::List(items)) => {
            proof {
                lemma_list_model(*items);
            }
            read_texts(items)
        },
        _ => None,
    }
}

fn read_page(item: Option<&Item>) -> (r: Option<Option<PageDecl>>)
    ensures
        match r {
            Some(page) => page_in(super::toml_item::opt_model(item)) == Some(page_title(page)),
            None => page_in(super::toml_item::opt_model(item)) is None,
        },
{
    match item {
        None => Some(None),
        Some(Item::Table(fields)) => {
            proof {
                lemma_table_model(*fields);
            }
            match read_text(field(fields, "title")) {
                Some(title) => Some(Some(PageDecl { title })),
                None => None,
            }
        },
        Some(Item::List(items)) => {
            proof {
                lemma_list_model(*items);
            }
            if items.len() > 0 {
                assert(items_model(items@)[0] == items@[0].model());
                match &items[0] {
                    Item::Text(title) => Some(Some(PageDecl { title: title.clone() })),
                    _ => None,
                }
            } else {
                None
            }
        },
        _ => None,
    }
}

fn read_config(item: &Item) -> (r: Option<ConfigDecl>)
    ensures
        match r {
            Some(decl) => config_in(item.model()) == Some(decl@),
            None => config_in(item.model()) is None,
        },
{
    match item {
        Item::Table(fields) => {
            proof {
                lemma_table_model(*fields);
            }
            let key = match read_text(field(fields, "key")) {
                Some(key) => key,
                None => {
                    return None;
                },
            };
            let label = match read_optional_text(field(fields, "label")) {
                Some(label) => label,
                None => {
                    return None;
                },
            };
            let required = match read_boolean(field(fields, "required")) {
                Some(required) => required,
                None => {
                    return None;
                },
            };
            let hint = match read_optional_text(field(fields, "hint")) {
                Some(hint) => hint,
                None => {
                    return None;
                },
            };
            Some(ConfigDecl { key, label, required, hint })
        },
        Item::List(items) => {
            proof {
                lemma_list_model(*items);
            }
            if items.len() < 4 {
                return None;
            }
            assert(items_model(items@)[0] == items@[0].model());
            assert(items_model(items@)[1] == items@[1].model());
            assert(items_model(items@)[2] == items@[2].model());
            assert(items_model(items@)[3] == items@[3].model());
            match (&items[0], &items[1], &items[2], &items[3]) {
                (
                    Item::Text(key),
                    Item::Text(label),
                    Item::Boolean(required),
                    Item::Text(hint),
                ) => Some(
                    ConfigDecl {
                        key: key.clone(),
                        label: Some(label.clone()),
                        required: *required,
                        hint: Some(hint.clone()),
                    },
                ),
                _ => None,
            }
        },
        _ => None,
    }
}

fn read_configs(items: &Vec<Item>) -> (r: Option<Vec<ConfigDecl>>)
    ensures
        match r {
            Some(v) => configs_in(items_model(items@)) == Some(config_models(v@)),
            None => configs_in(items_model(items@)) is None,
        },
{
    let ghost model = items_model(items@);
    let mut v: Vec<ConfigDecl> = Vec::new();
    let mut i: usize = 0;
    let mut fits = true;
    assert(model.take(0) =~= Seq::<ItemModel>::empty());
    assert(config_models(v@) =~= Seq::<ConfigModel>::empty());
    while i < items.len()
        invariant
            i <= items@.len(),
            model == items_model(items@),
            fits ==> configs_in(model.take(i as int)) == Some(config_models(v@)),
            !fits ==> configs_in(model.take(i as int)) is None,
        decreases items@.len() - i,
    {
        assert(model.take(i + 1).drop_last() =~= model.take(i as int));
        assert(model.take(i + 1).last() == items@[i as int].model());
        if fits {
            match read_config(&items[i]) {
                Some(decl) => {
                    let ghost before = v@;
                    v.push(decl);
                    assert(config_models(v@) =~= config_models(before).push(decl@));
                },
                None => {
                    fits = false;
                },
            }
        }
        i = i + 1;
    }
    assert(model.take(i as int) =~= model);
    if fits {
        Some(v)
    } else {
        None
    }
}

fn read_config_list(item: Option<&Item>) -> (r: Option<Vec<ConfigDecl>>)
    ensures
        match r {
            Some(v) => config_list_in(super::toml_item::opt_model(item)) == Some(
                config_models(v@),
            ),
            None => config_list_in(super::toml_item::opt_model(item)) is None,
        },
{
    match item {
        None => {
            let v: Vec<ConfigDecl> = Vec::new();
            assert(config_models(v@) =~= Seq::<ConfigModel>::empty());
            Some(v)
        },
        Some(Item::List(items)) => {
            proof {
                lemma_list_model(*items);
            }
            read_configs(items)
        },
        _ => None,
    }
}

/// The name of the module's file where a manifest gives none.
pub fn default_wasm_entry() -> (r: String)
    ensures
        r@ == "plugin.wasm"@,
{
    "plugin.wasm".to_owned()
}

fn read_entry(item: Option<&Item>) -> (r: Option<String>)
    ensures
        crate::db::opt_text(r) == entry_in(super::toml_item::opt_model(item)),
{
    match item {
        None => Some(default_wasm_entry()),
        _ => read_text(item),
    }
}

fn shape(fields: &Vec<(String, Item)>) -> (r: Result<Manifest, &'static str>)
    ensures
        match r {
            Ok(m) => shaped(fields_model(fields@)) == Ok::<ManifestModel, Seq<char>>(m@),
            Err(name) => shaped(fields_model(fields@)) == Err::<ManifestModel, Seq<char>>(name@),
        },
{
    let plugin_id = match read_text(field(fields, "plugin_id")) {
        Some(v) => v,
        None => {
            return Err("plugin_id");
        },
    };
    let name = match read_text(field(fields, "name")) {
        Some(v) => v,
        None => {
            return Err("name");
        },
    };
    let version = match read_text(field(fields, "version")) {
        Some(v) => v,
        None => {
            return Err("version");
        },
    };
    let abi_version: i64 = match read_integer(field(fields, "abi_version")) {
        Some(v) => v,
        None => {
            return Err("abi_version");
        },
    };
    let subscribes = match read_text_list(field(fields, "subscribes")) {
        Some(v) => v,
        None => {
            return Err("subscribes");
        },
    };
    let tick = match read_declared(field(fields, "tick")) {
        Some(v) => v,
        None => {
            return Err("tick");
        },
    };
    let page = match read_page(field(fields, "page")) {
        Some(v) => v,
        None => {
            return Err("page");
        },
    };
    let cleanup = match read_declared(field(fields, "cleanup")) {
        Some(v) => v,
        None => {
            return Err("cleanup");
        },
    };
    let wasm_entry = match read_entry(field(fields, "wasm_entry")) {
        Some(v) => v,
        None => {
            return Err("wasm_entry");
        },
    };
    let config = match read_config_list(field(fields, "config")) {
        Some(v) => v,
        None => {
            return Err("config");
        },
    };
    Ok(
        Manifest {
            plugin_id,
            name,
            version,
            abi_version,
            subscribes,
            tick,
            page,
            cleanup,
            wasm_entry,
            config,
        },
    )
}

// ---------------------------------------------------------------------------
// Rules
// ---------------------------------------------------------------------------

/// What is wrong with a manifest.
pub ghost enum Fault {
    EmptyPluginId,
    ColonInPluginId,
    EmptyName,
    EmptyVersion,
    WrongAbi(i64),
    EmptyPageTitle,
    EmptyConfigKey,
    BlankAroundConfigKey(Seq<char>),
    ColonInConfigKey,
    LongConfigKey(Seq<char>),
    RepeatedConfigKey(Seq<char>),
    NoWorkSurface,
    UnknownEvent(Seq<char>),
}

/// Nothing but whitespace.
pub open spec fn blank(s: Seq<char>) -> bool {
    trimmed(s).len() == 0
}

/// An event that the hub emits itself.
pub open spec fn is_known_event(name: Seq<char>) -> bool {
    name == "agent_offline"@ || name == "agent_online"@
}

/// The name of an event that a plugin emits: the prefix and something behind
/// it.
pub open spec fn is_plugin_event(name: Seq<char>) -> bool {
    "plugin_"@.is_prefix_of(name) && name.len() > "plugin_"@.len()
}

/// What is wrong with the key of the `[[config]]` entry `i`, the entries before
/// it taken for right.
pub open spec fn key_fault(config: Seq<ConfigModel>, i: int) -> Option<Fault> {
    let key = config[i].key;
    if blank(key) {
        Some(Fault::EmptyConfigKey)
    } else if key != trimmed(key) {
        Some(Fault::BlankAroundConfigKey(key))
    } else if key.contains(':') {
        Some(Fault::ColonInConfigKey)
    } else if encode_utf8(key).len() > KV_KEY_MAX {
        Some(Fault::LongConfigKey(key))
    } else if exists|j: int| 0 <= j < i && (#[trigger] config[j]).key == key {
        Some(Fault::RepeatedConfigKey(key))
    } else {
        None
    }
}

/// The first fault of the `[[config]]` entries from `i` on.
pub open spec fn config_fault(config: Seq<ConfigModel>, i: int) -> Option<Fault>
    decreases config.len() - i,
{
    if i < 0 || i >= config.len() {
        None
    } else if key_fault(config, i) is Some {
        key_fault(config, i)
    } else {
        config_fault(config, i + 1)
    }
}

/// The first subscription from `i` on to an event that neither the hub nor a
/// plugin can emit.
pub open spec fn event_fault(subscribes: Seq<Seq<char>>, i: int) -> Option<Fault>
    decreases subscribes.len() - i,
{
    if i < 0 || i >= subscribes.len() {
        None
    } else if !is_known_event(subscribes[i]) && !is_plugin_event(subscribes[i]) {
        Some(Fault::UnknownEvent(subscribes[i]))
    } else {
        event_fault(subscribes, i + 1)
    }
}

impl ManifestModel {
    /// Something calls the plugin: an event, the clock, its page or its
    /// cleanup.
    pub open spec fn has_work_surface(self) -> bool {
        self.subscribes.len() > 0 || self.tick || self.page is Some || self.cleanup
    }

    /// The first thing that is wrong with a manifest.
    pub open spec fn fault(self) -> Option<Fault> {
        if blank(self.plugin_id) {
            Some(Fault::EmptyPluginId)
        } else if self.plugin_id.contains(':') {
            Some(Fault::ColonInPluginId)
        } else if blank(self.name) {
            Some(Fault::EmptyName)
        } else if blank(self.version) {
            Some(Fault::EmptyVersion)
        } else if self.abi_version != ABI_VERSION {
            Some(Fault::WrongAbi(self.abi_version))
        } else if self.page matches Some(title) && blank(title) {
            Some(Fault::EmptyPageTitle)
        } else if config_fault(self.config, 0) is Some {
            config_fault(self.config, 0)
        } else if !self.has_work_surface() {
            Some(Fault::NoWorkSurface)
        } else {
            event_fault(self.subscribes, 0)
        }
    }
}

/// Why a manifest was refused.
#[derive(Debug)]
pub enum ManifestError {
    /// The text is no TOML; what the parser says of it.
    NotToml { detail: String },
    /// A field is missing or has another type.
    BadField { field: &'static str },
    EmptyPluginId,
    ColonInPluginId,
    EmptyName,
    EmptyVersion,
    WrongAbi { found: i64 },
    EmptyPageTitle,
    EmptyConfigKey,
    BlankAroundConfigKey { key: String },
    ColonInConfigKey,
    LongConfigKey { key: String },
    RepeatedConfigKey { key: String },
    NoWorkSurface,
    UnknownEvent { event: String },
}

impl ManifestError {
    /// The fault that the error reports, for a manifest of the right shape.
    pub open spec fn fault(self) -> Option<Fault> {
        match self {
            ManifestError::NotToml { .. } => None,
            ManifestError::BadField { .. } => None,
            ManifestError::EmptyPluginId => Some(Fault::EmptyPluginId),
            ManifestError::ColonInPluginId => Some(Fault::ColonInPluginId),
            ManifestError::EmptyName => Some(Fault::EmptyName),
            ManifestError::EmptyVersion => Some(Fault::EmptyVersion),
            ManifestError::WrongAbi { found } => Some(Fault::WrongAbi(found)),
            ManifestError::EmptyPageTitle => Some(Fault::EmptyPageTitle),
            ManifestError::EmptyConfigKey => Some(Fault::EmptyConfigKey),
            ManifestError::BlankAroundConfigKey { key } => Some(Fault::BlankAroundConfigKey(key@)),
            ManifestError::ColonInConfigKey => Some(Fault::ColonInConfigKey),
            ManifestError::LongConfigKey { key } => Some(Fault::LongConfigKey(key@)),
            ManifestError::RepeatedConfigKey { key } => Some(Fault::RepeatedConfigKey(key@)),
            ManifestError::NoWorkSurface => Some(Fault::NoWorkSurface),
            ManifestError::UnknownEvent { event } => Some(Fault::UnknownEvent(event@)),
        }
    }

    /// The error in words, without what lies behind it.
    pub open spec fn headline(self) -> Seq<char> {
        match self {
            ManifestError::NotToml { .. } => "manifest 不是合法的 TOML"@,
            ManifestError::BadField { .. } => "manifest 不是合法的 TOML"@,
            ManifestError::EmptyPluginId => "manifest.plugin_id 不能为空"@,
            ManifestError::ColonInPluginId =>
                "manifest.plugin_id 不能包含 ':'(它是 kv 命名空间的分隔符)"@,
            ManifestError::EmptyName => "manifest.name 不能为空"@,
            ManifestError::EmptyVersion => "manifest.version 不能为空"@,
            ManifestError::WrongAbi { found } => "manifest.abi_version 必须为 2(当前 "@
                + crate::text::signed_decimal(found as int)
                + ");v2 起不兼容 v1 插件,请用 v2 SDK 重build"@,
            ManifestError::EmptyPageTitle => "manifest.page.title 不能为空"@,
            ManifestError::EmptyConfigKey => "manifest.config.key 不能为空"@,
            ManifestError::BlankAroundConfigKey { key } => "manifest.config.key `"@ + key@
                + "` 首尾不能有空白:面板写入的是原样 key"@,
            ManifestError::ColonInConfigKey =>
                "manifest.config.key 不能包含 ':'(它是 kv 命名空间的分隔符)"@,
            ManifestError::LongConfigKey { key } => "manifest.config.key `"@ + key@
                + "` 超过 128 字节的上限"@,
            ManifestError::RepeatedConfigKey { key } => "manifest.config 里 key `"@ + key@
                + "` 重复"@,
            ManifestError::NoWorkSurface =>
                "manifest.subscribes 至少要订阅一个事件;不订阅事件的插件要声明 tick、page 或 cleanup 之一(声明 [[config]] 不算工作面)"@,
            ManifestError::UnknownEvent { event } => "manifest.subscribes 含未知事件 `"@ + event@
                + "`;v2 支持的宿主事件: agent_offline, agent_online,插件事件以 `plugin_` 前缀声明"@,
        }
    }

    /// The error in words, with what lies behind it.
    pub open spec fn full_text(self) -> Seq<char> {
        match self {
            ManifestError::NotToml { detail } => self.headline() + ": "@ + detail@,
            ManifestError::BadField { field } => self.headline() + ": "@
                + "missing or mistyped field `"@ + field@ + "`"@,
            _ => self.headline(),
        }
    }

    fn around(front: &str, middle: &str, back: &str) -> (r: String)
        ensures
            r@ == front@ + middle@ + back@,
    {
        let mut r = front.to_owned();
        r.append(middle);
        r.append(back);
        r
    }

    /// The error in words, without what lies behind it.
    pub fn message(&self) -> (r: String)
        ensures
            r@ == self.headline(),
    {
        match self {
            ManifestError::NotToml { .. } => "manifest 不是合法的 TOML".to_owned(),
            ManifestError::BadField { .. } => "manifest 不是合法的 TOML".to_owned(),
            ManifestError::EmptyPluginId => "manifest.plugin_id 不能为空".to_owned(),
            ManifestError::ColonInPluginId =>
                "manifest.plugin_id 不能包含 ':'(它是 kv 命名空间的分隔符)".to_owned(),
            ManifestError::EmptyName => "manifest.name 不能为空".to_owned(),
            ManifestError::EmptyVersion => "manifest.version 不能为空".to_owned(),
            ManifestError::WrongAbi { found } => Self::around(
                "manifest.abi_version 必须为 2(当前 ",
                decimal_i64(*found).as_str(),
                ");v2 起不兼容 v1 插件,请用 v2 SDK 重build",
            ),
            ManifestError::EmptyPageTitle => "manifest.page.title 不能为空".to_owned(),
            ManifestError::EmptyConfigKey => "manifest.config.key 不能为空".to_owned(),
            ManifestError::BlankAroundConfigKey { key } => Self::around(
                "manifest.config.key `",
                key.as_str(),
                "` 首尾不能有空白:面板写入的是原样 key",
            ),
            ManifestError::ColonInConfigKey =>
                "manifest.config.key 不能包含 ':'(它是 kv 命名空间的分隔符)".to_owned(),
            ManifestError::LongConfigKey { key } => Self::around(
                "manifest.config.key `",
                key.as_str(),
                "` 超过 128 字节的上限",
            ),
            ManifestError::RepeatedConfigKey { key } => Self::around(
                "manifest.config 里 key `",
                key.as_str(),
                "` 重复",
            ),
            ManifestError::NoWorkSurface =>
                "manifest.subscribes 至少要订阅一个事件;不订阅事件的插件要声明 tick、page 或 cleanup 之一(声明 [[config]] 不算工作面)".to_owned(),
            ManifestError::UnknownEvent { event } => Self::around(
                "manifest.subscribes 含未知事件 `",
                event.as_str(),
                "`;v2 支持的宿主事件: agent_offline, agent_online,插件事件以 `plugin_` 前缀声明",
            ),
        }
    }

    /// The error in words, with what lies behind it.
    pub fn chain(&self) -> (r: String)
        ensures
            r@ == self.full_text(),
    {
        let mut r = self.message();
        match self {
            ManifestError::NotToml { detail } => {
                r.append(": ");
                r.append(detail.as_str());
            },
            ManifestError::BadField { field } => {
                r.append(": ");
                r.append("missing or mistyped field `");
                r.append(field);
                r.append("`");
            },
            _ => {},
        }
        r
    }
}

/// What comes of a manifest's text: it is no TOML document, a field has the
/// wrong shape, a rule is broken, or it is accepted as it stands.
pub open spec fn parse_outcome(
    document: Result<ItemModel, Seq<char>>,
    r: Result<Manifest, ManifestError>,
) -> bool {
    match document {
        Ok(ItemModel::Table(fields)) => match shaped(fields) {
            Err(name) => r matches Err(ManifestError::BadField { field }) && field@ == name,
            Ok(m) => match r {
                Ok(manifest) => manifest@ == m && m.fault() is None,
                Err(e) => m.fault() is Some && e.fault() == m.fault(),
            },
        },
        Ok(_) => r matches Err(ManifestError::NotToml { detail }) && detail@ == "not a table"@,
        Err(words) => r matches Err(ManifestError::NotToml { detail }) && detail@ == words,
    }
}

impl Manifest {
    /// Reads and checks a manifest.
    pub fn parse(toml_text: &str) -> (r: Result<Manifest, ManifestError>)
        ensures
            parse_outcome(toml_document(toml_text@), r),
    {
        match parse_toml(toml_text) {
            Ok(value) => Self::from_document(item_of(&value)),
            Err(detail) => Err(ManifestError::NotToml { detail }),
        }
    }

    /// Reads and checks the manifest that a TOML document holds.
    pub fn from_document(document: Item) -> (r: Result<Manifest, ManifestError>)
        ensures
            parse_outcome(Ok(document.model()), r),
    {
        match document {
            Item::Table(fields) => {
                proof {
                    lemma_table_model(fields);
                }
                match shape(&fields) {
                    Err(field) => Err(ManifestError::BadField { field }),
                    Ok(m) => match m.check() {
                        Ok(()) => Ok(m),
                        Err(e) => Err(e),
                    },
                }
            },
            _ => Err(ManifestError::NotToml { detail: "not a table".to_owned() }),
        }
    }

    /// Checks the rules that a manifest obeys.
    pub fn check(&self) -> (r: Result<(), ManifestError>)
        ensures
            match r {
                Ok(()) => self@.fault() is None,
                Err(e) => self@.fault() is Some && e.fault() == self@.fault(),
            },
    {
        if is_blank(self.plugin_id.as_str()) {
            return Err(ManifestError::EmptyPluginId);
        }
        if contains_char(self.plugin_id.as_str(), ':') {
            return Err(ManifestError::ColonInPluginId);
        }
        if is_blank(self.name.as_str()) {
            return Err(ManifestError::EmptyName);
        }
        if is_blank(self.version.as_str()) {
            return Err(ManifestError::EmptyVersion);
        }
        if self.abi_version != ABI_VERSION {
            return Err(ManifestError::WrongAbi { found: self.abi_version });
        }
        if let Some(page) = &self.page {
            if is_blank(page.title.as_str()) {
                return Err(ManifestError::EmptyPageTitle);
            }
        }
        match self.check_config() {
            Ok(()) => {},
            Err(e) => {
                return Err(e);
            },
        }
        if self.subscribes.len() == 0 && !self.tick && self.page.is_none() && !self.cleanup {
            return Err(ManifestError::NoWorkSurface);
        }
        self.check_subscribes()
    }

    fn check_config(&self) -> (r: Result<(), ManifestError>)
        ensures
            match r {
                Ok(()) => config_fault(self@.config, 0) is None,
                Err(e) => config_fault(self@.config, 0) is Some && e.fault() == config_fault(
                    self@.config,
                    0,
                ),
            },
    {
        let ghost config = self@.config;
        let mut i: usize = 0;
        while i < self.config.len()
            invariant
                i <= self.config@.len(),
                config == self@.config,
                config_fault(config, i as int) == config_fault(config, 0),
            decreases self.config@.len() - i,
        {
            let key = self.config[i].key.as_str();
            assert(config[i as int].key == key@);
            if is_blank(key) {
                return Err(ManifestError::EmptyConfigKey);
            }
            if !same_text(key, trim(key).as_str()) {
                return Err(ManifestError::BlankAroundConfigKey { key: key.to_owned() });
            }
            if contains_char(key, ':') {
                return Err(ManifestError::ColonInConfigKey);
            }
            if byte_len(key) > KV_KEY_MAX {
                return Err(ManifestError::LongConfigKey { key: key.to_owned() });
            }
            let mut j: usize = 0;
            while j < i
                invariant
                    j <= i < self.config@.len(),
                    config == self@.config,
                    forall|k: int| 0 <= k < j ==> (#[trigger] config[k]).key != key@,
                    config[i as int].key == key@,
                    config_fault(config, i as int) == config_fault(config, 0),
                    !blank(key@),
                    key@ == trimmed(key@),
                    !key@.contains(':'),
                    encode_utf8(key@).len() <= KV_KEY_MAX,
                decreases i - j,
            {
                assert(config[j as int].key == self.config@[j as int].key@);
                if same_text(self.config[j].key.as_str(), key) {
                    assert(key_fault(config, i as int) == Some(Fault::RepeatedConfigKey(key@)));
                    return Err(ManifestError::RepeatedConfigKey { key: key.to_owned() });
                }
                j = j + 1;
            }
            i = i + 1;
        }
        Ok(())
    }

    fn check_subscribes(&self) -> (r: Result<(), ManifestError>)
        ensures
            match r {
                Ok(()) => event_fault(self@.subscribes, 0) is None,
                Err(e) => event_fault(self@.subscribes, 0) is Some && e.fault() == event_fault(
                    self@.subscribes,
                    0,
                ),
            },
    {
        let ghost subscribes = self@.subscribes;
        let mut i: usize = 0;
        while i < self.subscribes.len()
            invariant
                i <= self.subscribes@.len(),
                subscribes == self@.subscribes,
                event_fault(subscribes, i as int) == event_fault(subscribes, 0),
            decreases self.subscribes@.len() - i,
        {
            let event = self.subscribes[i].as_str();
            assert(subscribes[i as int] == event@);
            if !known_event(event) && !plugin_event(event) {
                return Err(ManifestError::UnknownEvent { event: event.to_owned() });
            }
            i = i + 1;
        }
        Ok(())
    }
}

/// Whether the hub itself emits events of this name.
pub fn known_event(name: &str) -> (r: bool)
    ensures
        r == is_known_event(name@),
{
    same_text(name, Event::AGENT_OFFLINE) || same_text(name, Event::AGENT_ONLINE)
}

/// Whether a plugin may emit events of this name.
pub fn plugin_event(name: &str) -> (r: bool)
    ensures
        r == is_plugin_event(name@),
{
    starts_with(name, PLUGIN_EVENT_PREFIX) && crate::text::chars_of(name).len()
        > crate::text::chars_of(PLUGIN_EVENT_PREFIX).len()
}

/// The manifest that a document holds, where it is accepted.
pub open spec fn accepted(document: Result<ItemModel, Seq<char>>) -> Option<ManifestModel> {
    match document {
        Ok(ItemModel::Table(fields)) => match shaped(fields) {
            Ok(m) => if m.fault() is None {
                Some(m)
            } else {
                None
            },
            Err(_) => None,
        },
        _ => None,
    }
}

fn copy_optional(s: &Option<String>) -> (r: Option<String>)
    ensures
        crate::db::opt_text(r) == crate::db::opt_text(*s),
{
    match s {
        Some(t) => Some(t.clone()),
        None => None,
    }
}

impl Clone for ConfigDecl {
    fn clone(&self) -> (r: Self)
        ensures
            r@ == self@,
    {
        ConfigDecl {
            key: self.key.clone(),
            label: copy_optional(&self.label),
            required: self.required,
            hint: copy_optional(&self.hint),
        }
    }
}

impl Clone for Manifest {
    fn clone(&self) -> (r: Self)
        ensures
            r@ == self@,
    {
        let subscribes = self.subscribes.clone();
        assert(texts(subscribes@) =~= texts(self.subscribes@));
        let config = self.config.clone();
        assert(config_models(config@) =~= config_models(self.config@));
        Manifest {
            plugin_id: self.plugin_id.clone(),
            name: self.name.clone(),
            version: self.version.clone(),
            abi_version: self.abi_version,
            subscribes,
            tick: self.tick,
            page: (match &self.page {
                Some(p) => Some(PageDecl { title: p.title.clone() }),
                None => None,
            }),
            cleanup: self.cleanup,
            wasm_entry: self.wasm_entry.clone(),
            config,
        }
    }
}

// ---------------------------------------------------------------------------
// Laws
// ---------------------------------------------------------------------------

proof fn lemma_no_config_fault(config: Seq<ConfigModel>, i: int, k: int)
    requires
        0 <= i <= k < config.len(),
        config_fault(config, i) is None,
    ensures
        key_fault(config, k) is None,
    decreases k - i,
{
    if i < k {
        lemma_no_config_fault(config, i + 1, k);
    }
}

proof fn lemma_no_event_fault(subscribes: Seq<Seq<char>>, i: int, k: int)
    requires
        0 <= i <= k < subscribes.len(),
        event_fault(subscribes, i) is None,
    ensures
        is_known_event(subscribes[k]) || is_plugin_event(subscribes[k]),
    decreases k - i,
{
    if i < k {
        lemma_no_event_fault(subscribes, i + 1, k);
    }
}

/// Every accepted manifest has a name without `:`, the right version, something
/// that calls it, subscriptions that can be served, and distinct keys that can
/// be stored.
pub proof fn law_accepted_manifest(document: Result<ItemModel, Seq<char>>)
    requires
        accepted(document) is Some,
    ensures
        ({
            let m = accepted(document)->0;
            &&& !blank(m.plugin_id) && !m.plugin_id.contains(':')
            &&& !blank(m.name) && !blank(m.version)
            &&& m.abi_version == ABI_VERSION
            &&& m.page matches Some(title) ==> !blank(title)
            &&& m.has_work_surface()
            &&& forall|k: int|
                0 <= k < m.subscribes.len() ==> is_known_event(#[trigger] m.subscribes[k])
                    || is_plugin_event(m.subscribes[k])
            &&& forall|k: int|
                0 <= k < m.config.len() ==> {
                    let key = (#[trigger] m.config[k]).key;
                    !blank(key) && key == trimmed(key) && !key.contains(':') && encode_utf8(
                        key,
                    ).len() <= KV_KEY_MAX
                }
            &&& forall|j: int, k: int|
                0 <= j < k < m.config.len() ==> (#[trigger] m.config[j]).key != (
                #[trigger] m.config[k]).key
        }),
{
    let m = accepted(document)->0;
    assert forall|k: int| 0 <= k < m.subscribes.len() implies is_known_event(
        #[trigger] m.subscribes[k],
    ) || is_plugin_event(m.subscribes[k]) by {
        lemma_no_event_fault(m.subscribes, 0, k);
    }
    assert forall|k: int| 0 <= k < m.config.len() implies key_fault(m.config, k) is None by {
        lemma_no_config_fault(m.config, 0, k);
    }
    assert forall|k: int| 0 <= k < m.config.len() implies {
        let key = (#[trigger] m.config[k]).key;
        !blank(key) && key == trimmed(key) && !key.contains(':') && encode_utf8(key).len()
            <= KV_KEY_MAX
    } by {
        assert(key_fault(m.config, k) is None);
    }
    assert forall|j: int, k: int| 0 <= j < k < m.config.len() implies (#[trigger] m.config[j]).key
        != (#[trigger] m.config[k]).key by {
        assert(key_fault(m.config, k) is None);
    }
}

/// Declaring settings is no work surface: a manifest that declares nothing else
/// is refused, whatever its settings.
pub proof fn law_settings_are_no_work_surface(m: ManifestModel)
    requires
        m.subscribes.len() == 0,
        !m.tick,
        m.page is None,
        !m.cleanup,
    ensures
        m.fault() is Some,
{
}

} // verus!
