use monitor::plugin::manifest::{Manifest, ManifestError, KV_KEY_MAX};

const MANIFEST: &str = r#"
plugin_id = "com.example.test"
name = "Test Plugin"
version = "1.0.0"
abi_version = 2
subscribes = ["agent_offline", "plugin_expiry_soon"]
"#;

fn refused(text: &str) -> String {
    Manifest::parse(text).unwrap_err().message()
}

#[test]
fn manifest_a_valid_manifest_parses() {
    let m = Manifest::parse(MANIFEST).unwrap();
    assert_eq!(m.plugin_id, "com.example.test");
    assert_eq!(m.subscribes, ["agent_offline", "plugin_expiry_soon"]);
    assert_eq!(m.wasm_entry, "plugin.wasm");
    assert!(!m.tick);
    assert!(m.page.is_none());
    assert!(!m.cleanup);
    for (field, value, needle) in [
        ("abi_version", "1", "abi_version"),
        ("abi_version", "3", "abi_version"),
        ("plugin_id", "\"a:b\"", "':'"),
        ("plugin_id", "\"\"", "不能为空"),
        ("version", "\"\"", "不能为空"),
        ("subscribes", "[\"expiryy_soon\"]", "未知事件"),
    ] {
        let edited = MANIFEST
            .lines()
            .map(|line| if line.starts_with(field) { format!("{field} = {value}") } else { line.to_string() })
            .collect::<Vec<_>>()
            .join("\n");
        let err = refused(&edited);
        assert!(err.contains(needle), "`{field}` = {value}: `{needle}` is not in {err}");
    }
    let v1 = MANIFEST.replace("abi_version = 2", "abi_version = 1");
    let err = refused(&v1);
    assert!(err.contains("不兼容 v1"), "{err}");
}

#[test]
fn config_declarations_are_parsed_and_validated() {
    let with = |block: &str| format!("{MANIFEST}\n{block}");
    let m = Manifest::parse(&with(
        "[[config]]\nkey = \"bot_token\"\nlabel = \"Bot Token\"\nrequired = true\nhint = \"向 @BotFather 申请\"\n",
    ))
    .unwrap();
    assert_eq!(m.config.len(), 1);
    assert_eq!(m.config[0].key, "bot_token");
    assert_eq!(m.config[0].label.as_deref(), Some("Bot Token"));
    assert!(m.config[0].required);
    assert_eq!(m.config[0].hint.as_deref(), Some("向 @BotFather 申请"));
    let m = Manifest::parse(&with("[[config]]\nkey = \"chat_id\"\n")).unwrap();
    assert_eq!(m.config[0].label, None);
    assert_eq!(m.config[0].hint, None);
    assert!(!m.config[0].required);
    assert!(Manifest::parse(MANIFEST).unwrap().config.is_empty());

    let over_long = format!("[[config]]\nkey = \"{}\"\n", "k".repeat(KV_KEY_MAX + 1));
    for (block, needle) in [
        ("[[config]]\nkey = \"\"\n", "不能为空"),
        ("[[config]]\nkey = \" bot\"\n", "空白"),
        ("[[config]]\nkey = \"a:b\"\n", "':'"),
        (over_long.as_str(), "上限"),
        ("[[config]]\nkey = \"t\"\n[[config]]\nkey = \"t\"\n", "重复"),
    ] {
        let err = refused(&with(block));
        assert!(err.contains(needle), "`{block}`: `{needle}` is not in {err}");
    }
}

#[test]
fn plugin_event_names_are_accepted_by_prefix() {
    let m = Manifest::parse(&format!("{MANIFEST}\ntick = true\n")).unwrap();
    assert!(m.tick);
    let bad = MANIFEST.replace(
        "subscribes = [\"agent_offline\", \"plugin_expiry_soon\"]",
        "subscribes = [\"plugin_\"]",
    );
    assert!(Manifest::parse(&bad).is_err());
}

#[test]
fn subscribes_may_be_empty_only_with_a_work_surface() {
    for decl in ["tick = true", "[page]\ntitle = \"X\"", "cleanup = true"] {
        let text = format!(
            "plugin_id = \"com.example.test\"\nname = \"t\"\nversion = \"1\"\nabi_version = 2\nsubscribes = []\n{decl}"
        );
        assert!(Manifest::parse(&text).is_ok(), "{decl} allows empty subscribes");
    }
    let bare = "plugin_id = \"com.example.test\"\nname = \"t\"\nversion = \"1\"\nabi_version = 2\nsubscribes = []";
    let err = refused(bare);
    assert!(err.contains("至少"), "{err}");
    let config_only = format!("{bare}\n[[config]]\nkey = \"bot_token\"\nrequired = true\n");
    let err = refused(&config_only);
    assert!(err.contains("至少"), "{err}");
}

#[test]
fn manifest_a_broken_manifest_is_not_toml() {
    assert!(Manifest::parse("plugin_id = ").is_err());
}

#[test]
fn a_broken_text_is_told_from_a_broken_field() {
    let broken = Manifest::parse("plugin_id = ").unwrap_err();
    assert!(matches!(broken, ManifestError::NotToml { .. }));
    assert_eq!(broken.message(), "manifest 不是合法的 TOML");
    assert!(broken.chain().starts_with("manifest 不是合法的 TOML: "));
    for (text, field) in [
        (MANIFEST.replace("name = \"Test Plugin\"", ""), "name"),
        (MANIFEST.replace("abi_version = 2", "abi_version = \"2\""), "abi_version"),
        (MANIFEST.replace("abi_version = 2", "abi_version = 2.0"), "abi_version"),
        (format!("{MANIFEST}\ntick = 1\n"), "tick"),
        (format!("{MANIFEST}\npage = \"x\"\n"), "page"),
        (format!("{MANIFEST}\n[page]\n"), "page"),
        (format!("{MANIFEST}\nwasm_entry = 1979-05-27\n"), "wasm_entry"),
        (format!("{MANIFEST}\n[[config]]\nlabel = \"x\"\n"), "config"),
        (format!("{MANIFEST}\n[config]\nkey = \"x\"\n"), "config"),
    ] {
        let err = Manifest::parse(&text).unwrap_err();
        assert_eq!(err.message(), "manifest 不是合法的 TOML");
        assert!(err.chain().ends_with(&format!("`{field}`")), "{}", err.chain());
    }
}

#[test]
fn declarations_may_be_tables() {
    let m = Manifest::parse(&format!("{MANIFEST}\n[tick]\n[cleanup]\n[page]\ntitle = \"X\"\n")).unwrap();
    assert!(m.tick && m.cleanup);
    assert_eq!(m.page.unwrap().title, "X");
    let m = Manifest::parse(&format!("{MANIFEST}\ntick = false\nunknown = 1\n")).unwrap();
    assert!(!m.tick);
    let m = Manifest::parse(&format!("{MANIFEST}\npage = [\"Y\"]\nconfig = [[\"k\", \"l\", true, \"h\"]]\n")).unwrap();
    assert_eq!(m.page.unwrap().title, "Y");
    assert_eq!(m.config[0].key, "k");
    assert_eq!(m.config[0].hint.as_deref(), Some("h"));
    assert!(Manifest::parse(&format!("{MANIFEST}\nconfig = [[\"k\"]]\n")).is_err());
}

#[test]
fn each_rule_has_its_words() {
    let with = |from: &str, to: &str| refused(&MANIFEST.replace(from, to));
    assert_eq!(with("\"com.example.test\"", "\" \\t\""), "manifest.plugin_id 不能为空");
    assert_eq!(
        with("\"com.example.test\"", "\"a:b\""),
        "manifest.plugin_id 不能包含 ':'(它是 kv 命名空间的分隔符)"
    );
    assert_eq!(with("\"Test Plugin\"", "\"\""), "manifest.name 不能为空");
    assert_eq!(with("\"1.0.0\"", "\"\u{3000}\""), "manifest.version 不能为空");
    assert_eq!(
        with("abi_version = 2", "abi_version = -1"),
        "manifest.abi_version 必须为 2(当前 -1);v2 起不兼容 v1 插件,请用 v2 SDK 重build"
    );
    assert_eq!(
        with("\"plugin_expiry_soon\"", "\"nope\""),
        "manifest.subscribes 含未知事件 `nope`;v2 支持的宿主事件: agent_offline, agent_online,插件事件以 `plugin_` 前缀声明"
    );
    let append = |block: &str| refused(&format!("{MANIFEST}\n{block}"));
    assert_eq!(append("[page]\ntitle = \" \""), "manifest.page.title 不能为空");
    assert_eq!(append("[[config]]\nkey = \"  \""), "manifest.config.key 不能为空");
    assert_eq!(
        append("[[config]]\nkey = \"a \""),
        "manifest.config.key `a ` 首尾不能有空白:面板写入的是原样 key"
    );
    assert_eq!(
        append("[[config]]\nkey = \"a:\""),
        "manifest.config.key 不能包含 ':'(它是 kv 命名空间的分隔符)"
    );
    assert_eq!(append("[[config]]\nkey = \"t\"\n[[config]]\nkey = \"t\""), "manifest.config 里 key `t` 重复");
    let long = "k".repeat(129);
    assert_eq!(
        append(&format!("[[config]]\nkey = \"{long}\"")),
        format!("manifest.config.key `{long}` 超过 128 字节的上限")
    );
    let fits = "k".repeat(128);
    assert!(Manifest::parse(&format!("{MANIFEST}\n[[config]]\nkey = \"{fits}\"")).is_ok());
}
