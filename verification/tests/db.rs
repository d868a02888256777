use monitor::db::{like_escaped, Db, DbError, LogKey, LogRow};

fn db() -> Db {
    Db::new()
}

#[test]
fn plugins_round_trip_and_a_duplicate_plugin_id_is_refused() {
    let mut db = db();
    let wasm = b"\0asm-fake-module".to_vec();
    let created =
        db.create_plugin("mailer", "Mailer", "1.0.0", "{\"entry\":\"send\"}", &wasm, "sha").unwrap();
    assert_eq!(
        (created.id, created.plugin_id.as_str(), created.status.as_str()),
        (1, "mailer", "disabled")
    );
    assert!(!created.enabled);

    let back = db.get_plugin(created.id).unwrap().unwrap();
    assert_eq!(back.wasm_blob, wasm, "the stored module comes back whole");
    assert_eq!((back.name.as_str(), back.version.as_str()), ("Mailer", "1.0.0"));

    let duplicate = db
        .create_plugin("mailer", "Mailer", "2.0.0", "{}", &wasm, "sha2")
        .expect_err("a second upload of the same plugin_id must be refused");
    assert!(duplicate.message().contains("already uploaded"), "{}", duplicate.message());
    assert!(db.get_plugin(created.id).unwrap().unwrap().version == "1.0.0", "the first upload stands");

    let second = db.create_plugin("webhook", "Webhook", "0.1", "{}", b"m2", "sha3").unwrap();
    // Newest upload first.
    let listed = db.list_plugins().unwrap();
    assert_eq!(
        listed.iter().map(|p| p.plugin_id.as_str()).collect::<Vec<_>>(),
        vec!["webhook", "mailer"]
    );

    let summaries = db.plugin_summaries().unwrap();
    assert_eq!(summaries.len(), 2);
    assert!(summaries.iter().all(|p| p.wasm_blob.is_empty()), "the list never carries the bytes");
    assert_eq!(summaries[1].id, created.id, "everything but the blob is the same row");

    db.set_plugin_enabled(created.id, true).unwrap();
    let enabled = db.get_plugin(created.id).unwrap().unwrap();
    assert!(enabled.enabled && enabled.status == "enabled" && enabled.last_error.is_none());

    db.set_plugin_status(created.id, "error", Some("wasm would not start")).unwrap();
    assert_eq!(
        db.get_plugin(created.id).unwrap().unwrap().last_error.as_deref(),
        Some("wasm would not start")
    );

    db.delete_plugin(second.id).unwrap();
    assert!(db.get_plugin(second.id).unwrap().is_none());
    assert!(db.delete_plugin(second.id).is_err(), "deleting a removed plugin must not report success");
}

#[test]
fn deleting_a_plugin_takes_its_kv_rows_in_the_same_transaction() {
    let mut db = db();
    let row = db.create_plugin("mailer", "Mailer", "1.0.0", "{}", b"m", "sha").unwrap();
    db.set("plugin.mailer:token", "x").unwrap();
    db.set("plugin.mailer:webhook", "y").unwrap();
    db.set("plugin.other:token", "kept").unwrap();

    db.delete_plugin_with_kv(row.id, "mailer").unwrap();
    assert!(db.get_plugin(row.id).unwrap().is_none());
    assert_eq!(db.get("plugin.mailer:token"), None);
    assert_eq!(db.get("plugin.mailer:webhook"), None);
    assert_eq!(db.get("plugin.other:token").as_deref(), Some("kept"));

    assert!(
        db.delete_plugin_with_kv(row.id, "mailer").is_err(),
        "deleting a removed plugin must not report success"
    );
}

#[test]
fn plugin_kv_prefixes_match_the_plugin_id_not_like_wildcards() {
    let mut db = db();
    for (key, value) in [
        ("plugin.a_b:token", "underscore"),
        ("plugin.a.b:token", "dot"),
        ("plugin.a%b:token", "percent"),
        ("plugin.aXb:token", "wildcard-victim"),
        ("plugin.a_bee:token", "longer-name"),
    ] {
        db.set(key, value).unwrap();
    }

    let kv = db.plugin_kv("a_b").unwrap();
    assert_eq!(kv, vec![("token".to_string(), "underscore".to_string())]);
    let kv = db.plugin_kv("a.b").unwrap();
    assert_eq!(kv, vec![("token".to_string(), "dot".to_string())]);

    assert_eq!(db.delete_plugin_kv("a_b").unwrap(), 1);
    assert_eq!(db.get("plugin.a_b:token"), None);
    assert_eq!(db.get("plugin.aXb:token").as_deref(), Some("wildcard-victim"));
    assert_eq!(db.get("plugin.a_bee:token").as_deref(), Some("longer-name"));
    assert_eq!(db.delete_plugin_kv("a%b").unwrap(), 1);
    assert_eq!(db.get("plugin.aXb:token").as_deref(), Some("wildcard-victim"));
}

#[test]
fn an_expiry_dispatch_is_recorded_once_and_its_result_written_back() {
    let mut db = db();
    assert!(!db.dispatch_already_sent(7, "expiry_soon", 42).unwrap(), "nothing sent, nothing recorded");

    assert!(db.record_dispatch(7, "expiry_soon", 42, 100).unwrap(), "the first dispatch records");
    assert!(db.dispatch_already_sent(7, "expiry_soon", 42).unwrap(), "and is remembered");
    assert!(!db.record_dispatch(7, "expiry_soon", 42, 200).unwrap(), "a repeat is the duplicate");
    // A different tier, or a different cycle's key, is its own dispatch.
    assert!(!db.dispatch_already_sent(7, "expiry_soon", 43).unwrap());
    assert!(!db.dispatch_already_sent(8, "expiry_soon", 42).unwrap());

    db.mark_dispatch_result(7, "expiry_soon", 42, true, "sent to 2 channels").unwrap();
    let (success, detail) = db.notification_log_row(7, "expiry_soon", 42).unwrap().unwrap();
    assert_eq!((success, detail.as_str()), (true, "sent to 2 channels"));
}

#[test]
fn state_events_transition_once_per_side() {
    let mut db = db();
    assert_eq!(db.current_state_event(5).unwrap(), None, "never reported, never recorded");

    assert!(
        db.transition_state_event(5, "agent_offline", 100).unwrap(),
        "the first offline is a transition"
    );
    assert!(!db.transition_state_event(5, "agent_offline", 200).unwrap(), "a repeat is not");
    assert_eq!(db.current_state_event(5).unwrap(), Some(("agent_offline".to_string(), 100)));

    assert!(db.transition_state_event(5, "agent_online", 300).unwrap(), "coming back is");
    assert_eq!(db.current_state_event(5).unwrap(), Some(("agent_online".to_string(), 300)));
    let mut offline_rows = 0;
    let mut i = 0;
    while let Some((key, _)) = db.notification_at(i) {
        if key.node_id == 5 && key.event_type == "agent_offline" {
            offline_rows += 1;
        }
        i += 1;
    }
    assert_eq!(offline_rows, 0, "the offline row died with the transition");

    assert!(db.transition_state_event(5, "agent_offline", 400).unwrap(), "going offline again re-alerts");
}

#[test]
fn plugin_data_list_filters_by_prefix() {
    let mut db = db();
    db.plugin_data_put("com.example.test", "node:1", "a").unwrap();
    db.plugin_data_put("com.example.test", "node:2", "b").unwrap();
    db.plugin_data_put("com.example.test", "fx", "c").unwrap();
    let nodes = db.plugin_data_list("com.example.test", "node:").unwrap();
    assert_eq!(nodes.len(), 2);
    assert_eq!(nodes[0].0, "node:1");
    let all = db.plugin_data_list("com.example.test", "").unwrap();
    assert_eq!(all.len(), 3);
}

#[test]
fn deleting_a_plugin_takes_its_data_rows() {
    let mut db = db();
    let row = db.create_plugin("com.example.gone", "Gone", "1", "{}", b"m", "sha").unwrap();
    db.plugin_data_put("com.example.gone", "node:1", "v").unwrap();
    db.plugin_data_put("com.example.other", "node:1", "keep").unwrap();
    db.delete_plugin_with_kv(row.id, "com.example.gone").unwrap();
    assert_eq!(db.plugin_data_get("com.example.gone", "node:1").unwrap(), None);
    assert_eq!(
        db.plugin_data_get("com.example.other", "node:1").unwrap().as_deref(),
        Some("keep")
    );
}

#[test]
fn an_upload_carries_the_time_it_was_made_at() {
    let mut db = db();
    let row = db.create_plugin_at("a", "A", "1", "{}", b"m", "s", 1234).unwrap();
    assert_eq!(row.uploaded_at, 1234);
    let other = db.create_plugin("b", "B", "1", "{}", b"m", "s").unwrap();
    assert!(other.uploaded_at > 1_600_000_000, "the clock is past the year 2020");
    assert_eq!(other.id, 2);
}

#[test]
fn listings_put_the_newest_upload_first() {
    let mut db = db();
    db.create_plugin_at("old", "O", "1", "{}", b"m", "s", 10).unwrap();
    db.create_plugin_at("new", "N", "1", "{}", b"m", "s", 30).unwrap();
    db.create_plugin_at("mid", "M", "1", "{}", b"m", "s", 20).unwrap();
    db.create_plugin_at("mid2", "M", "1", "{}", b"m", "s", 20).unwrap();
    let names: Vec<String> = db.list_plugins().unwrap().into_iter().map(|p| p.plugin_id).collect();
    assert_eq!(names, vec!["new", "mid2", "mid", "old"]);
    db.set_plugin_enabled(1, true).unwrap();
    db.set_plugin_enabled(3, true).unwrap();
    let names: Vec<String> = db.enabled_plugins().unwrap().into_iter().map(|p| p.plugin_id).collect();
    assert_eq!(names, vec!["mid", "old"]);
    assert_eq!(db.plugin_id_of(2).unwrap().as_deref(), Some("new"));
    assert_eq!(db.plugin_id_of(9).unwrap(), None);
}

#[test]
fn ids_follow_the_greatest_in_use() {
    let mut db = db();
    let a = db.create_plugin("a", "A", "1", "{}", b"m", "s").unwrap();
    let b = db.create_plugin("b", "B", "1", "{}", b"m", "s").unwrap();
    assert_eq!((a.id, b.id), (1, 2));
    db.delete_plugin(1).unwrap();
    assert_eq!(db.create_plugin("c", "C", "1", "{}", b"m", "s").unwrap().id, 3);
    let gone = db.delete_plugin(77).expect_err("no such row");
    assert_eq!(gone.message(), "no plugin 77");
    assert!(matches!(gone, DbError::NoPlugin { id: 77 }));
}

#[test]
fn settings_are_stored_replaced_and_deleted() {
    let mut db = db();
    assert_eq!(db.get("k"), None);
    db.set("k", "1").unwrap();
    db.set("k", "2").unwrap();
    assert_eq!(db.get("k").as_deref(), Some("2"));
    db.delete_setting("k").unwrap();
    db.delete_setting("k").unwrap();
    assert_eq!(db.get("k"), None);
}

#[test]
fn plugin_kv_lists_in_the_order_of_the_keys() {
    let mut db = db();
    for key in ["b", "a", "\u{e9}", "B"] {
        db.set(&format!("plugin.p:{key}"), key).unwrap();
    }
    let keys: Vec<String> = db.plugin_kv("p").unwrap().into_iter().map(|(k, _)| k).collect();
    assert_eq!(keys, vec!["B", "a", "b", "\u{e9}"]);
}

#[test]
fn records_are_stored_and_isolated() {
    let mut db = db();
    assert!(db.plugin_data_put("a", "k", "1").unwrap(), "the record is new");
    assert!(!db.plugin_data_put("a", "k", "2").unwrap(), "the record is replaced");
    assert!(db.plugin_data_put("b", "k", "3").unwrap());
    assert_eq!(db.plugin_data_get("a", "k").unwrap().as_deref(), Some("2"));
    assert_eq!(db.plugin_data_get("b", "k").unwrap().as_deref(), Some("3"));
    assert!(db.plugin_data_delete("a", "k").unwrap());
    assert!(!db.plugin_data_delete("a", "k").unwrap());
    assert_eq!(db.plugin_data_get("b", "k").unwrap().as_deref(), Some("3"));
    assert_eq!(db.delete_plugin_data("b").unwrap(), 1);
    assert_eq!(db.plugin_data_get("b", "k").unwrap(), None);
}

#[test]
fn usage_counts_records_and_bytes() {
    let mut db = db();
    db.plugin_data_put("b", "k1", "\u{e9}\u{e9}").unwrap();
    db.plugin_data_put("b", "k2", "abc").unwrap();
    db.plugin_data_put("a", "k", "x").unwrap();
    assert_eq!(db.plugin_data_usage("b").unwrap(), (2, 7));
    assert_eq!(db.plugin_data_usage("none").unwrap(), (0, 0));
    assert_eq!(
        db.plugin_data_usage_all().unwrap(),
        vec![("a".to_string(), 1, 1), ("b".to_string(), 2, 7)]
    );
}

#[test]
fn a_quota_counts_the_increment_of_a_replaced_record() {
    let mut db = db();
    assert_eq!(db.plugin_data_put_within_quota("p", "a", "12345", 10).unwrap(), Some(true));
    assert_eq!(db.plugin_data_put_within_quota("p", "b", "12345", 10).unwrap(), Some(true));
    assert_eq!(db.plugin_data_put_within_quota("p", "c", "1", 10).unwrap(), None);
    assert_eq!(db.plugin_data_get("p", "c").unwrap(), None);
    assert_eq!(db.plugin_data_put_within_quota("p", "b", "54321", 10).unwrap(), Some(false));
    assert_eq!(db.plugin_data_put_within_quota("p", "b", "654321", 10).unwrap(), None);
    assert_eq!(db.plugin_data_get("p", "b").unwrap().as_deref(), Some("54321"));
    assert_eq!(db.plugin_data_put_within_quota("q", "a", "1234567890", 10).unwrap(), Some(true));
}

#[test]
fn marking_a_dispatch_that_does_not_stand_is_harmless() {
    let mut db = db();
    db.mark_dispatch_result(1, "x", 2, true, "d").unwrap();
    assert_eq!(db.notification_log_row(1, "x", 2).unwrap(), None);
}

#[test]
fn wildcards_are_escaped() {
    assert_eq!(like_escaped("a_b%c\\d"), "a\\_b\\%c\\\\d");
    assert_eq!(like_escaped("plain"), "plain");
}

#[test]
fn tables_are_read_out_and_put_back() {
    let mut db = Db::new();
    let a = db.create_plugin_at("com.a", "A", "1", "m", b"x", "s", 10).unwrap();
    let b = db.create_plugin_at("com.b", "B", "1", "m", b"y", "s", 20).unwrap();
    db.set("k2", "v2").unwrap();
    db.set("k1", "v1").unwrap();
    db.plugin_data_put_at("com.b", "r", "two", 4).unwrap();
    db.plugin_data_put_at("com.a", "r", "one", 3).unwrap();
    db.record_dispatch(7, "plugin_x", 42, 99).unwrap();
    db.mark_dispatch_result(7, "plugin_x", 42, true, "fine").unwrap();

    assert_eq!(db.setting_at(0), Some(("k1", "v1")));
    assert_eq!(db.setting_at(1), Some(("k2", "v2")));
    assert_eq!(db.setting_at(2), None);
    let (key, row) = db.record_at(0).unwrap();
    assert_eq!((key.plugin_id.as_str(), key.record_key.as_str()), ("com.a", "r"));
    assert_eq!((row.data.as_str(), row.updated_at), ("one", 3));
    assert!(db.record_at(2).is_none());
    let (key, row) = db.notification_at(0).unwrap();
    assert_eq!((key.node_id, key.event_type.as_str(), key.key), (7, "plugin_x", 42));
    assert_eq!((row.sent_at, row.success, row.detail.as_str()), (99, true, "fine"));
    assert!(db.notification_at(1).is_none());

    let mut again = Db::new();
    assert!(again.restore_plugin(b.clone()));
    assert!(!again.restore_plugin(b.clone()), "the id is taken");
    let mut other = b.clone();
    other.id = 9;
    assert!(!again.restore_plugin(other), "the plugin_id is taken");
    assert!(again.restore_plugin(a));
    let ids: Vec<i64> = again.list_plugins().unwrap().iter().map(|r| r.id).collect();
    assert_eq!(ids, vec![2, 1]);
    let key = LogKey { node_id: 7, event_type: "plugin_x".to_string(), key: 42 };
    again.restore_notification(key, LogRow { sent_at: 99, success: true, detail: "fine".to_string() });
    assert_eq!(
        again.notification_log_row(7, "plugin_x", 42).unwrap(),
        Some((true, "fine".to_string()))
    );
}

#[test]
fn settings_and_records_do_not_mix() {
    let mut db = db();
    db.set("plugin.p:k", "setting").unwrap();
    db.plugin_data_put("p", "k", "record").unwrap();
    assert_eq!(db.plugin_kv("p").unwrap(), vec![("k".to_string(), "setting".to_string())]);
    assert_eq!(db.plugin_data_list("p", "").unwrap(), vec![("k".to_string(), "record".to_string())]);
    db.delete_setting("plugin.p:k").unwrap();
    assert_eq!(db.plugin_data_get("p", "k").unwrap().as_deref(), Some("record"));
}

#[test]
fn a_plugin_stores_settings_of_its_own() {
    let mut db = db();
    db.set("plugin.com.a:token", "one").unwrap();
    db.set("plugin.com.ab:token", "two").unwrap();
    assert_eq!(db.plugin_kv("com.a").unwrap(), vec![("token".to_string(), "one".to_string())]);
    db.set("plugin.com.a:token", "three").unwrap();
    assert_eq!(db.get("plugin.com.a:token").as_deref(), Some("three"));
    assert_eq!(db.get("plugin.com.ab:token").as_deref(), Some("two"));
}
