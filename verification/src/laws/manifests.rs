//! Manifests: what is read from which field, which manifests are accepted, and
//! which modules can serve them.

use vstd::prelude::*;
use vstd::utf8::*;

use crate::plugin::loader::{has_export, missing_export, KindModel};
use crate::plugin::manifest::{
    accepted, blank, config_in, configs_in, shaped, texts_in, ConfigModel, Fault, ManifestModel,
};
use crate::plugin::toml_item::{field_of, ItemModel};
use crate::text::trimmed;

verus! {

broadcast use vstd::seq_lib::group_seq_properties;

/// The value of a field is that of the first member under its key.
pub proof fn law_field(fields: Seq<(Seq<char>, ItemModel)>, key: Seq<char>)
    ensures
        field_of(fields, key) is None <==> forall|i: int|
            0 <= i < fields.len() ==> (#[trigger] fields[i]).0 != key,
        forall|i: int|
            0 <= i < fields.len() && (#[trigger] fields[i]).0 == key && (forall|k: int|
                0 <= k < i ==> (#[trigger] fields[k]).0 != key) ==> field_of(fields, key) == Some(
                fields[i].1,
            ),
    decreases fields.len(),
{
    if fields.len() > 0 {
        let rest = fields.skip(1);
        law_field(rest, key);
        assert forall|i: int| 0 <= i < rest.len() implies rest[i] == #[trigger] fields[i + 1] by {}
        if fields[0].0 != key {
            if forall|i: int| 0 <= i < fields.len() ==> (#[trigger] fields[i]).0 != key {
                assert forall|i: int| 0 <= i < rest.len() implies (#[trigger] rest[i]).0 != key by {
                    assert(fields[i + 1].0 != key);
                }
            }
            if field_of(fields, key) is None {
                assert forall|i: int| 0 <= i < fields.len() implies (#[trigger] fields[i]).0
                    != key by {
                    if i > 0 {
                        assert(rest[i - 1] == fields[i]);
                    }
                }
            }
            assert forall|i: int|
                0 <= i < fields.len() && (#[trigger] fields[i]).0 == key && (forall|k: int|
                    0 <= k < i ==> (#[trigger] fields[k]).0 != key) implies field_of(fields, key)
                == Some(fields[i].1) by {
                assert(rest[i - 1] == fields[i]);
                assert forall|k: int| 0 <= k < i - 1 implies (#[trigger] rest[k]).0 != key by {
                    assert(fields[k + 1].0 != key);
                }
            }
        }
    }
}

/// The texts of an accepted manifest are those of its fields, letter for
/// letter, and its interface version is the number given.
pub proof fn law_texts_of_a_manifest(fields: Seq<(Seq<char>, ItemModel)>)
    requires
        accepted(Ok(ItemModel::Table(fields))) is Some,
    ensures
        ({
            let m = accepted(Ok(ItemModel::Table(fields)))->0;
            &&& field_of(fields, "plugin_id"@) == Some(ItemModel::Text(m.plugin_id))
            &&& field_of(fields, "name"@) == Some(ItemModel::Text(m.name))
            &&& field_of(fields, "version"@) == Some(ItemModel::Text(m.version))
            &&& field_of(fields, "abi_version"@) == Some(ItemModel::Integer(2))
            &&& m.abi_version == 2
        }),
{
}

/// The name of the module's file is the one that the manifest gives, and
/// `plugin.wasm` exactly where it gives none.
pub proof fn law_wasm_entry(fields: Seq<(Seq<char>, ItemModel)>, s: Seq<char>)
    requires
        accepted(Ok(ItemModel::Table(fields))) is Some,
    ensures
        ({
            let m = accepted(Ok(ItemModel::Table(fields)))->0;
            &&& field_of(fields, "wasm_entry"@) is None ==> m.wasm_entry == "plugin.wasm"@
            &&& field_of(fields, "wasm_entry"@) == Some(ItemModel::Text(s)) ==> m.wasm_entry == s
            &&& field_of(fields, "wasm_entry"@) matches Some(item) ==> item is Text
        }),
{
}

/// The clock and the cleanup are declared by `true` or by a table, and not by
/// `false` or by nothing.
pub proof fn law_declarations(fields: Seq<(Seq<char>, ItemModel)>)
    requires
        accepted(Ok(ItemModel::Table(fields))) is Some,
    ensures
        ({
            let m = accepted(Ok(ItemModel::Table(fields)))->0;
            &&& match field_of(fields, "tick"@) {
                None => !m.tick,
                Some(ItemModel::Boolean(b)) => m.tick == b,
                Some(ItemModel::Table(_)) => m.tick,
                _ => false,
            }
            &&& match field_of(fields, "cleanup"@) {
                None => !m.cleanup,
                Some(ItemModel::Boolean(b)) => m.cleanup == b,
                Some(ItemModel::Table(_)) => m.cleanup,
                _ => false,
            }
        }),
{
}

/// The page is the one whose title the `page` table gives, and there is none
/// without such a table.
pub proof fn law_page(fields: Seq<(Seq<char>, ItemModel)>)
    requires
        accepted(Ok(ItemModel::Table(fields))) is Some,
    ensures
        ({
            let m = accepted(Ok(ItemModel::Table(fields)))->0;
            match field_of(fields, "page"@) {
                None => m.page is None,
                Some(ItemModel::Table(inner)) => m.page matches Some(title) && field_of(
                    inner,
                    "title"@,
                ) == Some(ItemModel::Text(title)),
                Some(ItemModel::List(items)) => m.page matches Some(title) && items.len() > 0
                    && items[0] == ItemModel::Text(title),
                _ => false,
            }
        }),
{
}

/// The subscriptions are the texts of the list, all of them and in their order;
/// without a list there are none.
pub proof fn law_subscriptions(fields: Seq<(Seq<char>, ItemModel)>)
    requires
        accepted(Ok(ItemModel::Table(fields))) is Some,
    ensures
        ({
            let m = accepted(Ok(ItemModel::Table(fields)))->0;
            match field_of(fields, "subscribes"@) {
                None => m.subscribes.len() == 0,
                Some(ItemModel::List(items)) => m.subscribes.len() == items.len() && forall|i: int|
                    0 <= i < items.len() ==> #[trigger] items[i] == ItemModel::Text(
                        m.subscribes[i],
                    ),
                _ => false,
            }
        }),
{
    if let Some(ItemModel::List(items)) = field_of(fields, "subscribes"@) {
        lemma_texts_in(items);
    }
}

proof fn lemma_texts_in(items: Seq<ItemModel>)
    ensures
        texts_in(items) matches Some(found) ==> found.len() == items.len() && forall|i: int|
            0 <= i < items.len() ==> #[trigger] items[i] == ItemModel::Text(found[i]),
        texts_in(items) is None ==> exists|i: int|
            0 <= i < items.len() && !((#[trigger] items[i]) is Text),
    decreases items.len(),
{
    if items.len() > 0 {
        let front = items.drop_last();
        lemma_texts_in(front);
        assert(forall|i: int| 0 <= i < front.len() ==> front[i] == #[trigger] items[i]);
        if texts_in(items) is None {
            if texts_in(front) is None {
                let i = choose|i: int| 0 <= i < front.len() && !((#[trigger] front[i]) is Text);
                assert(!(items[i] is Text));
            } else {
                assert(!(items[items.len() - 1] is Text));
            }
        }
    }
}

/// The settings that the panel shows are the entries of the list, all of them
/// and in their order, each with its key, label, need and hint.
pub proof fn law_config_entries(fields: Seq<(Seq<char>, ItemModel)>)
    requires
        accepted(Ok(ItemModel::Table(fields))) is Some,
    ensures
        ({
            let m = accepted(Ok(ItemModel::Table(fields)))->0;
            match field_of(fields, "config"@) {
                None => m.config.len() == 0,
                Some(ItemModel::List(items)) => m.config.len() == items.len() && forall|i: int|
                    0 <= i < items.len() ==> config_in(#[trigger] items[i]) == Some(m.config[i]),
                _ => false,
            }
        }),
{
    if let Some(ItemModel::List(items)) = field_of(fields, "config"@) {
        lemma_configs_in(items);
    }
}

proof fn lemma_configs_in(items: Seq<ItemModel>)
    ensures
        configs_in(items) matches Some(found) ==> found.len() == items.len() && forall|i: int|
            0 <= i < items.len() ==> config_in(#[trigger] items[i]) == Some(found[i]),
        configs_in(items) is None ==> exists|i: int|
            0 <= i < items.len() && config_in(#[trigger] items[i]) is None,
    decreases items.len(),
{
    if items.len() > 0 {
        let front = items.drop_last();
        lemma_configs_in(front);
        assert(forall|i: int| 0 <= i < front.len() ==> front[i] == #[trigger] items[i]);
        if configs_in(items) is None {
            if configs_in(front) is None {
                let i = choose|i: int| 0 <= i < front.len() && config_in(#[trigger] front[i]) is None;
                assert(config_in(items[i]) is None);
            } else {
                assert(config_in(items[items.len() - 1]) is None);
            }
        }
    }
}

/// An entry of settings that is a table says what its fields say: the key is a
/// text, label and hint are texts or missing, and the need is a boolean, false
/// where it is missing.
pub proof fn law_config_entry(inner: Seq<(Seq<char>, ItemModel)>, entry: ConfigModel)
    ensures
        config_in(ItemModel::Table(inner)) == Some(entry) <==> {
            &&& field_of(inner, "key"@) == Some(ItemModel::Text(entry.key))
            &&& match entry.label {
                Some(label) => field_of(inner, "label"@) == Some(ItemModel::Text(label)),
                None => field_of(inner, "label"@) is None,
            }
            &&& match entry.hint {
                Some(hint) => field_of(inner, "hint"@) == Some(ItemModel::Text(hint)),
                None => field_of(inner, "hint"@) is None,
            }
            &&& field_of(inner, "required"@) == Some(ItemModel::Boolean(entry.required)) || (
            field_of(inner, "required"@) is None && !entry.required)
        },
{
}

/// A text that says something.
pub open spec fn says(s: Seq<char>) -> bool {
    trimmed(s).len() > 0
}

/// A key under which the panel can store a setting.
pub open spec fn storable(key: Seq<char>) -> bool {
    says(key) && trimmed(key) == key && !key.contains(':') && encode_utf8(key).len() <= 128
}

/// A manifest is accepted exactly where its texts say something, the id holds
/// no colon, the interface version is 2, a page has a title, the keys of its
/// settings can be stored and are distinct, something calls the plugin, and
/// every event it subscribes to can happen.
pub proof fn law_accepted_manifests(m: ManifestModel)
    ensures
        m.fault() is None <==> {
            &&& says(m.plugin_id) && !m.plugin_id.contains(':')
            &&& says(m.name) && says(m.version)
            &&& m.abi_version == 2
            &&& m.page matches Some(title) ==> says(title)
            &&& forall|i: int| 0 <= i < m.config.len() ==> storable((#[trigger] m.config[i]).key)
            &&& forall|i: int, j: int|
                0 <= i < j < m.config.len() ==> (#[trigger] m.config[i]).key != (
                #[trigger] m.config[j]).key
            &&& m.subscribes.len() > 0 || m.tick || m.page is Some || m.cleanup
            &&& forall|i: int|
                0 <= i < m.subscribes.len() ==> (#[trigger] m.subscribes[i]) == "agent_offline"@
                    || m.subscribes[i] == "agent_online"@ || (m.subscribes[i].len() > 7
                    && m.subscribes[i].take(7) == "plugin_"@)
        },
{
    reveal_strlit("plugin_");
    assert forall|s: Seq<char>| s.len() >= 7 implies ("plugin_"@.is_prefix_of(s)
        <==> #[trigger] s.take(7) == "plugin_"@) by {}
    lemma_config_fault(m.config, 0);
    lemma_event_fault(m.subscribes, 0);
    if crate::plugin::manifest::config_fault(m.config, 0) is None {
        assert forall|i: int| 0 <= i < m.config.len() implies storable(
            (#[trigger] m.config[i]).key,
        ) by {
            assert(crate::plugin::manifest::key_fault(m.config, i) is None);
        }
        assert forall|i: int, j: int| 0 <= i < j < m.config.len() implies (
        #[trigger] m.config[i]).key != (#[trigger] m.config[j]).key by {
            assert(crate::plugin::manifest::key_fault(m.config, j) is None);
        }
    } else {
        let i = choose|i: int|
            0 <= i < m.config.len() && #[trigger] crate::plugin::manifest::key_fault(
                m.config,
                i,
            ) is Some;
        if storable(m.config[i].key) {
            let j = choose|j: int| 0 <= j < i && (#[trigger] m.config[j]).key == m.config[i].key;
            assert(m.config[j].key == m.config[i].key);
        }
    }
}

proof fn lemma_config_fault(config: Seq<ConfigModel>, i: int)
    requires
        0 <= i <= config.len(),
    ensures
        crate::plugin::manifest::config_fault(config, i) is None <==> forall|k: int|
            i <= k < config.len() ==> #[trigger] crate::plugin::manifest::key_fault(
                config,
                k,
            ) is None,
    decreases config.len() - i,
{
    if i < config.len() {
        lemma_config_fault(config, i + 1);
        assert(crate::plugin::manifest::key_fault(config, i) is None
            || crate::plugin::manifest::key_fault(config, i) is Some);
    }
}

proof fn lemma_event_fault(subscribes: Seq<Seq<char>>, i: int)
    requires
        0 <= i <= subscribes.len(),
    ensures
        crate::plugin::manifest::event_fault(subscribes, i) is None <==> forall|k: int|
            i <= k < subscribes.len() ==> crate::plugin::manifest::is_known_event(
                #[trigger] subscribes[k],
            ) || crate::plugin::manifest::is_plugin_event(subscribes[k]),
    decreases subscribes.len() - i,
{
    if i < subscribes.len() {
        lemma_event_fault(subscribes, i + 1);
    }
}

/// What is reported of a manifest is the first thing that is wrong with it: its
/// id, its name, its version, the interface, the page, the settings, that
/// nothing calls it, and at last an event that cannot happen.
pub proof fn law_first_fault(m: ManifestModel)
    ensures
        !says(m.plugin_id) ==> m.fault() == Some(Fault::EmptyPluginId),
        says(m.plugin_id) && m.plugin_id.contains(':') ==> m.fault() == Some(
            Fault::ColonInPluginId,
        ),
        says(m.plugin_id) && !m.plugin_id.contains(':') ==> {
            &&& !says(m.name) ==> m.fault() == Some(Fault::EmptyName)
            &&& says(m.name) && !says(m.version) ==> m.fault() == Some(Fault::EmptyVersion)
            &&& says(m.name) && says(m.version) && m.abi_version != 2 ==> m.fault() == Some(
                Fault::WrongAbi(m.abi_version),
            )
            &&& says(m.name) && says(m.version) && m.abi_version == 2 ==> {
                &&& (m.page matches Some(title) && !says(title)) ==> m.fault() == Some(
                    Fault::EmptyPageTitle,
                )
                &&& (m.page is None && m.config.len() == 0 && m.subscribes.len() == 0 && !m.tick
                    && !m.cleanup) ==> m.fault() == Some(Fault::NoWorkSurface)
            }
        },
{
}

/// Where all else is right, a manifest that nothing calls is refused for that,
/// and one with an event that cannot happen for the first such event.
pub proof fn law_last_faults(m: ManifestModel, i: int)
    requires
        says(m.plugin_id) && !m.plugin_id.contains(':'),
        says(m.name) && says(m.version),
        m.abi_version == 2,
        m.page matches Some(title) ==> says(title),
        forall|k: int| 0 <= k < m.config.len() ==> storable((#[trigger] m.config[k]).key),
        forall|j: int, k: int|
            0 <= j < k < m.config.len() ==> (#[trigger] m.config[j]).key != (
            #[trigger] m.config[k]).key,
    ensures
        m.subscribes.len() == 0 && !m.tick && m.page is None && !m.cleanup ==> m.fault() == Some(
            Fault::NoWorkSurface,
        ),
        ({
            &&& 0 <= i < m.subscribes.len()
            &&& m.subscribes[i] != "agent_offline"@ && m.subscribes[i] != "agent_online"@
            &&& !(m.subscribes[i].len() > 7 && m.subscribes[i].take(7) == "plugin_"@)
            &&& forall|k: int|
                0 <= k < i ==> (#[trigger] m.subscribes[k]) == "agent_offline"@ || m.subscribes[k]
                    == "agent_online"@ || (m.subscribes[k].len() > 7 && m.subscribes[k].take(7)
                    == "plugin_"@)
        }) ==> m.fault() == Some(Fault::UnknownEvent(m.subscribes[i])),
{
    reveal_strlit("plugin_");
    assert forall|s: Seq<char>| s.len() >= 7 implies ("plugin_"@.is_prefix_of(s)
        <==> #[trigger] s.take(7) == "plugin_"@) by {}
    lemma_config_fault(m.config, 0);
    assert forall|k: int| 0 <= k < m.config.len() implies #[trigger]
        crate::plugin::manifest::key_fault(m.config, k) is None by {
        assert(storable(m.config[k].key));
    }
    if 0 <= i < m.subscribes.len() && forall|k: int|
        0 <= k < i ==> (#[trigger] m.subscribes[k]) == "agent_offline"@ || m.subscribes[k]
            == "agent_online"@ || (m.subscribes[k].len() > 7 && m.subscribes[k].take(7)
            == "plugin_"@) {
        lemma_event_fault_from(m.subscribes, 0, i);
    }
}

proof fn lemma_event_fault_from(subscribes: Seq<Seq<char>>, at: int, i: int)
    requires
        0 <= at <= i < subscribes.len(),
        forall|k: int|
            0 <= k < i ==> crate::plugin::manifest::is_known_event(#[trigger] subscribes[k])
                || crate::plugin::manifest::is_plugin_event(subscribes[k]),
    ensures
        crate::plugin::manifest::event_fault(subscribes, at)
            == crate::plugin::manifest::event_fault(subscribes, i),
    decreases i - at,
{
    if at < i {
        lemma_event_fault_from(subscribes, at + 1, i);
    }
}

/// What is reported of the first key that cannot be stored, and of a key that
/// stands there already.
pub proof fn law_first_bad_key(config: Seq<ConfigModel>, i: int)
    requires
        0 <= i < config.len(),
        forall|k: int| 0 <= k < i ==> storable((#[trigger] config[k]).key),
        forall|j: int, k: int|
            0 <= j < k < i ==> (#[trigger] config[j]).key != (#[trigger] config[k]).key,
    ensures
        ({
            let key = config[i].key;
            let found = crate::plugin::manifest::config_fault(config, 0);
            &&& !says(key) ==> found == Some(Fault::EmptyConfigKey)
            &&& says(key) && trimmed(key) != key ==> found == Some(Fault::BlankAroundConfigKey(key))
            &&& says(key) && trimmed(key) == key && key.contains(':') ==> found == Some(
                Fault::ColonInConfigKey,
            )
            &&& says(key) && trimmed(key) == key && !key.contains(':') && encode_utf8(key).len()
                > 128 ==> found == Some(Fault::LongConfigKey(key))
            &&& storable(key) && (exists|j: int| 0 <= j < i && (#[trigger] config[j]).key == key)
                ==> found == Some(Fault::RepeatedConfigKey(key))
        }),
{
    lemma_config_fault_from(config, 0, i);
}

proof fn lemma_config_fault_from(config: Seq<ConfigModel>, at: int, i: int)
    requires
        0 <= at <= i < config.len(),
        forall|k: int| 0 <= k < i ==> storable((#[trigger] config[k]).key),
        forall|j: int, k: int|
            0 <= j < k < i ==> (#[trigger] config[j]).key != (#[trigger] config[k]).key,
    ensures
        crate::plugin::manifest::config_fault(config, at)
            == crate::plugin::manifest::config_fault(config, i),
    decreases i - at,
{
    if at < i {
        lemma_config_fault_from(config, at + 1, i);
        assert(storable(config[at].key));
        assert(crate::plugin::manifest::key_fault(config, at) is None);
    }
}

/// A document is read where every field that it has to have is there and every
/// field has its type; the fields that may be missing can all be.
pub proof fn law_readable_document(
    fields: Seq<(Seq<char>, ItemModel)>,
    plugin_id: Seq<char>,
    name: Seq<char>,
    version: Seq<char>,
    abi_version: i64,
)
    requires
        field_of(fields, "plugin_id"@) == Some(ItemModel::Text(plugin_id)),
        field_of(fields, "name"@) == Some(ItemModel::Text(name)),
        field_of(fields, "version"@) == Some(ItemModel::Text(version)),
        field_of(fields, "abi_version"@) == Some(ItemModel::Integer(abi_version)),
        match field_of(fields, "subscribes"@) {
            None => true,
            Some(ItemModel::List(items)) => forall|i: int|
                0 <= i < items.len() ==> (#[trigger] items[i]) is Text,
            _ => false,
        },
        match field_of(fields, "config"@) {
            None => true,
            Some(ItemModel::List(items)) => forall|i: int|
                0 <= i < items.len() ==> config_in(#[trigger] items[i]) is Some,
            _ => false,
        },
        match field_of(fields, "page"@) {
            None => true,
            Some(ItemModel::Table(inner)) => field_of(inner, "title"@) matches Some(title)
                && title is Text,
            _ => false,
        },
        field_of(fields, "tick"@) matches Some(item) ==> item is Boolean || item is Table,
        field_of(fields, "cleanup"@) matches Some(item) ==> item is Boolean || item is Table,
        field_of(fields, "wasm_entry"@) matches Some(item) ==> item is Text,
    ensures
        shaped(fields) is Ok,
        shaped(fields) matches Ok(m) ==> {
            &&& m.plugin_id == plugin_id
            &&& m.name == name
            &&& m.version == version
            &&& m.abi_version == abi_version
            &&& accepted(Ok(ItemModel::Table(fields))) == (if m.fault() is None {
                Some(m)
            } else {
                None
            })
        },
{
    if let Some(ItemModel::List(items)) = field_of(fields, "subscribes"@) {
        lemma_texts_in(items);
    }
    if let Some(ItemModel::List(items)) = field_of(fields, "config"@) {
        lemma_configs_in(items);
    }
}

/// A manifest that lacks a field, or has another type there, is refused over
/// that field; a text that is no TOML, or no table, is never accepted.
pub proof fn law_unreadable_document(fields: Seq<(Seq<char>, ItemModel)>, words: Seq<char>)
    ensures
        !(field_of(fields, "plugin_id"@) matches Some(item) && item is Text) ==> shaped(fields)
            == Err::<ManifestModel, Seq<char>>("plugin_id"@),
        (shaped(fields) matches Ok(_)) ==> (field_of(fields, "name"@) matches Some(item)
            && item is Text),
        (shaped(fields) matches Ok(_)) ==> (field_of(fields, "version"@) matches Some(item)
            && item is Text),
        (shaped(fields) matches Ok(_)) ==> (field_of(fields, "abi_version"@) matches Some(item)
            && item is Integer),
        accepted(Err(words)) is None,
        accepted(Ok(ItemModel::Text(words))) is None,
{
}

// ---------------------------------------------------------------------------
// Modules
// ---------------------------------------------------------------------------

/// A module exports a function of this name that takes and gives so many
/// 32-bit integers.
pub open spec fn exports_entry(
    exports: Seq<(Seq<char>, KindModel)>,
    name: Seq<char>,
    takes: nat,
    gives: nat,
) -> bool {
    exists|i: int|
        0 <= i < exports.len() && (#[trigger] exports[i]).0 == name && (exports[i].1 matches
            KindModel::Func { params, results } && params == Seq::new(takes, |k: int| true)
            && results == Seq::new(gives, |k: int| true))
}

/// A module exports a function of this name.
pub open spec fn exports_function(exports: Seq<(Seq<char>, KindModel)>, name: Seq<char>) -> bool {
    exists|i: int| 0 <= i < exports.len() && (#[trigger] exports[i]).0 == name && exports[i].1 is Func
}

/// A module can serve a manifest exactly where it exports a memory, `on_event`
/// and `__alloc` with their signatures, and a function for each entry that the
/// manifest declares. Further exports do no harm.
pub proof fn law_serving_modules(m: ManifestModel, exports: Seq<(Seq<char>, KindModel)>)
    ensures
        missing_export(m, exports) is None <==> {
            &&& exists|i: int|
                0 <= i < exports.len() && (#[trigger] exports[i]) == ("memory"@, KindModel::Memory)
            &&& exports_entry(exports, "on_event"@, 2, 1)
            &&& exports_entry(exports, "__alloc"@, 1, 1)
            &&& m.tick ==> exports_function(exports, "on_tick"@)
            &&& m.page is Some ==> exports_function(exports, "render_page"@) && exports_function(
                exports,
                "on_action"@,
            )
            &&& m.cleanup ==> exports_function(exports, "on_cleanup"@)
        },
{
    lemma_memory(exports);
    lemma_entry(exports, "on_event"@, 2);
    lemma_entry(exports, "__alloc"@, 1);
    lemma_names();
    lemma_function(exports, "on_tick"@);
    lemma_function(exports, "render_page"@);
    lemma_function(exports, "on_action"@);
    lemma_function(exports, "on_cleanup"@);
    let names = crate::plugin::loader::required_exports(m);
    lemma_missing(exports, names, 0);
    if missing_export(m, exports) is None {
        let ticks: int = if m.tick {
            1
        } else {
            0
        };
        let pages: int = if m.page is Some {
            2
        } else {
            0
        };
        assert(names[0] == "memory"@ && names[1] == "on_event"@ && names[2] == "__alloc"@);
        assert(has_export(exports, names[0]) && has_export(exports, names[1]) && has_export(
            exports,
            names[2],
        ));
        if m.tick {
            assert(has_export(exports, names[3]));
        }
        if m.page is Some {
            assert(has_export(exports, names[3 + ticks]) && has_export(exports, names[4 + ticks]));
        }
        if m.cleanup {
            assert(has_export(exports, names[3 + ticks + pages]));
        }
    } else {
        let k = choose|k: int| 0 <= k < names.len() && !has_export(exports, #[trigger] names[k]);
        assert(!has_export(exports, names[k]));
    }
}

proof fn lemma_names()
    ensures
        "on_tick"@ != "memory"@ && "on_tick"@ != "on_event"@ && "on_tick"@ != "__alloc"@,
        "render_page"@ != "memory"@ && "render_page"@ != "on_event"@ && "render_page"@
            != "__alloc"@,
        "on_action"@ != "memory"@ && "on_action"@ != "on_event"@ && "on_action"@ != "__alloc"@,
        "on_cleanup"@ != "memory"@ && "on_cleanup"@ != "on_event"@ && "on_cleanup"@ != "__alloc"@,
        "on_event"@ != "memory"@,
        "__alloc"@ != "memory"@,
        "__alloc"@ != "on_event"@,
{
    reveal_strlit("memory");
    reveal_strlit("on_event");
    reveal_strlit("__alloc");
    reveal_strlit("on_tick");
    reveal_strlit("render_page");
    reveal_strlit("on_action");
    reveal_strlit("on_cleanup");
    assert("on_tick"@[0] != "__alloc"@[0]);
    assert("on_event"@[0] != "__alloc"@[0]);
    assert("on_tick"@.len() == 7 && "memory"@.len() == 6 && "on_event"@.len() == 8);
    assert("render_page"@.len() == 11 && "on_action"@.len() == 9 && "on_cleanup"@.len() == 10);
    assert("__alloc"@.len() == 7);
}

proof fn lemma_memory(exports: Seq<(Seq<char>, KindModel)>)
    ensures
        has_export(exports, "memory"@) <==> exists|i: int|
            0 <= i < exports.len() && (#[trigger] exports[i]) == ("memory"@, KindModel::Memory),
{
    if has_export(exports, "memory"@) {
        let i = choose|i: int|
            0 <= i < exports.len() && (#[trigger] exports[i]).0 == "memory"@
                && crate::plugin::loader::serves("memory"@, exports[i].1);
        assert(exports[i] == ("memory"@, KindModel::Memory));
    }
}

proof fn lemma_entry(exports: Seq<(Seq<char>, KindModel)>, name: Seq<char>, takes: nat)
    requires
        (name == "on_event"@ && takes == 2) || (name == "__alloc"@ && takes == 1),
    ensures
        has_export(exports, name) <==> exports_entry(exports, name, takes, 1),
{
    lemma_names();
    if has_export(exports, name) {
        let i = choose|i: int|
            0 <= i < exports.len() && (#[trigger] exports[i]).0 == name
                && crate::plugin::loader::serves(name, exports[i].1);
        if let KindModel::Func { params, results } = exports[i].1 {
            assert(params =~= Seq::new(takes, |k: int| true));
            assert(results =~= Seq::new(1, |k: int| true));
        }
        assert(exports[i].0 == name);
    }
    if exports_entry(exports, name, takes, 1) {
        let i = choose|i: int|
            0 <= i < exports.len() && (#[trigger] exports[i]).0 == name && (exports[i].1 matches
                KindModel::Func { params, results } && params == Seq::new(takes, |k: int| true)
                && results == Seq::new(1, |k: int| true));
        assert(crate::plugin::loader::serves(name, exports[i].1));
    }
}

proof fn lemma_function(exports: Seq<(Seq<char>, KindModel)>, name: Seq<char>)
    requires
        name != "memory"@,
        name != "on_event"@,
        name != "__alloc"@,
    ensures
        has_export(exports, name) <==> exports_function(exports, name),
{
    if has_export(exports, name) {
        let i = choose|i: int|
            0 <= i < exports.len() && (#[trigger] exports[i]).0 == name
                && crate::plugin::loader::serves(name, exports[i].1);
        assert(exports[i].0 == name);
    }
    if exports_function(exports, name) {
        let i = choose|i: int|
            0 <= i < exports.len() && (#[trigger] exports[i]).0 == name && exports[i].1 is Func;
        assert(crate::plugin::loader::serves(name, exports[i].1));
    }
}

proof fn lemma_missing(exports: Seq<(Seq<char>, KindModel)>, names: Seq<Seq<char>>, i: int)
    requires
        0 <= i <= names.len(),
    ensures
        crate::plugin::loader::first_missing(exports, names, i) is None <==> forall|k: int|
            i <= k < names.len() ==> has_export(exports, #[trigger] names[k]),
    decreases names.len() - i,
{
    if i < names.len() {
        lemma_missing(exports, names, i + 1);
    }
}

/// The export that is reported missing is missing: there is none of its name
/// that can serve.
pub proof fn law_reported_export_is_missing(
    m: ManifestModel,
    exports: Seq<(Seq<char>, KindModel)>,
)
    ensures
        missing_export(m, exports) matches Some(name) ==> !has_export(exports, name),
        (forall|i: int| 0 <= i < exports.len() ==> (#[trigger] exports[i]).0 != "memory"@)
            ==> missing_export(m, exports) == Some("memory"@),
{
    lemma_reported(exports, crate::plugin::loader::required_exports(m), 0);
    assert(crate::plugin::loader::required_exports(m)[0] == "memory"@);
}

proof fn lemma_reported(exports: Seq<(Seq<char>, KindModel)>, names: Seq<Seq<char>>, i: int)
    requires
        0 <= i <= names.len(),
    ensures
        crate::plugin::loader::first_missing(exports, names, i) matches Some(name) ==> !has_export(
            exports,
            name,
        ),
    decreases names.len() - i,
{
    if i < names.len() {
        lemma_reported(exports, names, i + 1);
    }
}

/// Blank is what has nothing but whitespace.
pub proof fn law_blank(s: Seq<char>)
    ensures
        blank(s) <==> !says(s),
{
}

} // verus!
