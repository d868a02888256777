use monitor::db::{Db, LogKey, LogRow};
use monitor::hub::App;
use monitor::notification_bus::{
    emit, emit_at, hash_name, key_of_cycle, Event, Json, Member, Payload,
};
use monitor::plugin::loader::new_engine;

fn app() -> App {
    App::new(Db::new(), new_engine())
}

fn payload(text: &str) -> Payload {
    Payload::parse(text).unwrap()
}

fn expiry(node_id: i64, expires_at: &str, days_left: i64, threshold_days: i64) -> Event {
    Event::Plugin {
        name: "plugin_expiry_soon".to_string(),
        payload: payload(&format!(
            "{{\"node_id\":{node_id},\"name\":\"edge-1\",\"expires_at\":\"{expires_at}\",\"days_left\":{days_left},\"threshold_days\":{threshold_days}}}"
        )),
    }
}

fn recorded(app: &App, node_id: i64, event_type: &str, key: i64) -> bool {
    app.db.dispatch_already_sent(node_id, event_type, key).unwrap()
}

fn offline(node_id: i64) -> Event {
    Event::AgentOffline { node_id, name: "edge-1".to_string(), observed_at: 100, last_seen_at: 90 }
}

fn online(node_id: i64) -> Event {
    Event::AgentOnline { node_id, name: "edge-1".to_string(), observed_at: 300 }
}

#[test]
fn an_expiry_event_emits_once_per_key() {
    let mut app = app();
    let event = expiry(7, "2026-10-01", 7, 7);
    let key = event.threshold_or_state_key();
    emit(&mut app, &event).unwrap();
    emit(&mut app, &event).unwrap();
    assert!(recorded(&app, 7, "plugin_expiry_soon", key), "the first emission records");
    assert_eq!(app.plugins.dispatch_count(), 1, "the duplicate must not re-dispatch");
}

#[test]
fn a_renewed_cycle_realerts_at_the_same_tier() {
    let mut app = app();
    let old = expiry(7, "2026-10-01", 7, 7);
    emit(&mut app, &old).unwrap();
    // Same tier, same date: suppressed.
    emit(&mut app, &expiry(7, "2026-10-01", 6, 7)).unwrap();
    assert_eq!(app.plugins.dispatch_count(), 1);
    // The date rolled forward by a renewal: a new billing cycle's key.
    let renewed = expiry(7, "2026-11-01", 30, 7);
    emit(&mut app, &renewed).unwrap();
    assert!(recorded(&app, 7, "plugin_expiry_soon", renewed.threshold_or_state_key()));
    assert_eq!(app.plugins.dispatch_count(), 2);
}

#[test]
fn state_events_transition_rather_than_accumulate() {
    let mut app = app();
    let offline = offline(5);
    let online = online(5);

    emit(&mut app, &offline).unwrap();
    assert_eq!(
        app.db.current_state_event(5).unwrap().map(|(t, _)| t),
        Some("agent_offline".to_string())
    );

    // Same side again within the same window: no re-dispatch.
    emit(&mut app, &offline).unwrap();
    assert_eq!(app.plugins.dispatch_count(), 1);

    // Coming back clears the offline row rather than joining it.
    emit(&mut app, &online).unwrap();
    assert_eq!(
        app.db.current_state_event(5).unwrap().map(|(t, _)| t),
        Some("agent_online".to_string())
    );
    assert!(!recorded(&app, 5, "agent_offline", 0), "the opposite side's row must be cleared");

    // Going offline again is a new outage and must re-alert.
    emit(&mut app, &offline).unwrap();
    assert_eq!(app.plugins.dispatch_count(), 3);
    assert!(recorded(&app, 5, "agent_offline", 0));
}

#[test]
fn the_key_encodes_tier_and_cycle() {
    let k = |expires_at: &str, threshold_days: i64| {
        expiry(1, expires_at, 7, threshold_days).threshold_or_state_key()
    };
    assert_ne!(k("2026-10-01", 7), k("2026-10-01", 3), "different tiers");
    assert_ne!(k("2026-10-01", 7), k("2026-11-01", 7), "different cycles");
    assert_eq!(k("2026-10-01", 7), k("2026-10-01", 7));
    assert_eq!(k("2026-12-31", 1) / 1_000_000, 1);
    // State events are keyed by the node alone.
    let offline =
        Event::AgentOffline { node_id: 1, name: String::new(), observed_at: 0, last_seen_at: 0 };
    let online = Event::AgentOnline { node_id: 1, name: String::new(), observed_at: 0 };
    assert_eq!(offline.threshold_or_state_key(), 0);
    assert_eq!(online.threshold_or_state_key(), 0);
    assert!(offline.is_state_event() && online.is_state_event());
    assert!(!expiry(1, "2026-10-01", 7, 7).is_state_event());
}

#[test]
fn the_json_payload_carries_a_type_tag() {
    let event = Event::Plugin {
        name: "plugin_expiry_soon".to_string(),
        payload: payload(
            r#"{"node_id":7,"name":"edge-1","expires_at":"2026-10-01","days_left":7,"threshold_days":7}"#,
        ),
    };
    let value: serde_json::Value = serde_json::from_str(&event.to_json()).unwrap();
    let expected: serde_json::Value = serde_json::from_str(
        r#"{"type":"plugin_expiry_soon","node_id":7,"name":"edge-1","expires_at":"2026-10-01","days_left":7,"threshold_days":7}"#,
    )
    .unwrap();
    assert_eq!(value, expected);
    assert_eq!(
        offline(5).to_json(),
        r#"{"type":"agent_offline","node_id":5,"name":"edge-1","observed_at":100,"last_seen_at":90}"#
    );
    assert_eq!(
        online(5).to_json(),
        r#"{"type":"agent_online","node_id":5,"name":"edge-1","observed_at":300}"#
    );
}

#[test]
fn the_day_of_an_expiry_counts_from_the_common_era() {
    // 1970-01-01 is the day 719163.
    assert_eq!(expiry(1, "1970-01-01", 0, 2).threshold_or_state_key(), 2_719_163);
    assert_eq!(expiry(1, "0001-01-01", 0, 0).threshold_or_state_key(), 1);
    // A text that is no date counts as the day 0 and keeps the tiers apart.
    assert_eq!(expiry(1, "soon", 0, 3).threshold_or_state_key(), 3_000_000);
    assert_eq!(key_of_cycle("x", 7, Some(5)), 7_000_005);
    assert_eq!(key_of_cycle("x", -1, None), -1_000_000);
}

#[test]
fn an_event_without_a_cycle_is_keyed_by_its_name() {
    let plain = |name: &str| Event::Plugin { name: name.to_string(), payload: payload("{}") };
    let key = plain("plugin_a").threshold_or_state_key();
    assert_eq!(key, hash_name("plugin_a"));
    assert_eq!(key, plain("plugin_a").threshold_or_state_key());
    assert_ne!(key, plain("plugin_b").threshold_or_state_key());
    assert_ne!(key, 0);
    // The hash is the one that the standard library gives the name.
    let mut h = std::collections::hash_map::DefaultHasher::new();
    std::hash::Hash::hash("plugin_a", &mut h);
    assert_eq!(key, std::hash::Hasher::finish(&h) as i64);
}

#[test]
fn payloads_are_read_field_by_field() {
    let event = Event::Plugin {
        name: "plugin_x".to_string(),
        payload: payload(r#"{"node_id":"7","name":5,"type":"agent_offline","z":[1,{"a":null}],"b":"q\"\n"}"#),
    };
    assert_eq!(event.event_type(), "plugin_x");
    assert_eq!(event.node_id(), 0, "a string is no id");
    assert_eq!(event.name(), "", "a number is no name");
    assert_eq!(
        event.to_json(),
        r#"{"type":"plugin_x","b":"q\"\n","name":5,"node_id":"7","z":[1,{"a":null}]}"#,
        "a type in the payload is left out"
    );
    let event = Event::Plugin { name: "plugin_x".to_string(), payload: payload(r#"{"node_id":7,"name":"n"}"#) };
    assert_eq!((event.node_id(), event.name()), (7, "n"));
    // JSON that is no object has no members.
    let list = Event::Plugin { name: "plugin_x".to_string(), payload: payload("[1,2]") };
    assert_eq!(list.to_json(), r#"{"type":"plugin_x"}"#);
    assert!(Payload::parse("{").is_none());
}

#[test]
fn names_are_escaped_in_json() {
    let event = Event::AgentOnline {
        node_id: -1,
        name: "a\"\\\u{8}\u{c}\n\r\t\u{1}\u{1f}\u{7f}é".to_string(),
        observed_at: i64::MIN,
    };
    assert_eq!(
        event.to_json(),
        "{\"type\":\"agent_online\",\"node_id\":-1,\"name\":\"a\\\"\\\\\\b\\f\\n\\r\\t\\u0001\\u001f\u{7f}é\",\"observed_at\":-9223372036854775808}"
    );
}

#[test]
fn an_emission_is_recorded_at_its_time() {
    let mut app = app();
    emit_at(&mut app, &offline(3), 77).unwrap();
    assert_eq!(app.db.current_state_event(3).unwrap(), Some(("agent_offline".to_string(), 77)));
    emit_at(&mut app, &offline(3), 99).unwrap();
    assert_eq!(app.db.current_state_event(3).unwrap(), Some(("agent_offline".to_string(), 77)));
    // Another node is another alert.
    emit_at(&mut app, &offline(4), 100).unwrap();
    assert_eq!(app.plugins.dispatch_count(), 2);
}

#[test]
fn a_repeat_is_new_only_behind_a_later_report_of_the_other_side() {
    let stray = |sent_at: i64| {
        let mut app = app();
        let key = LogKey { node_id: 5, event_type: "agent_offline".to_string(), key: 9 };
        let row = LogRow { sent_at, success: false, detail: String::new() };
        app.db.restore_notification(key, row);
        emit_at(&mut app, &online(5), 100).unwrap();
        assert_eq!(app.plugins.dispatch_count(), 1);
        emit_at(&mut app, &online(5), 100).unwrap();
        app.plugins.dispatch_count()
    };
    assert_eq!(stray(99), 1);
    assert_eq!(stray(100), 2);
    assert_eq!(stray(101), 2);
}

#[test]
fn a_payload_that_is_no_object_has_no_members() {
    for text in ["null", "true", "7", "\"x\"", "[1]", "{}"] {
        assert!(payload(text).members.is_empty(), "{text}");
    }
    for value in [Json::Null, Json::Boolean, Json::Number, Json::Text, Json::List] {
        assert!(Payload::of(value).members.is_empty());
    }
    let member =
        Member { key: "k".to_string(), json: "7".to_string(), integer: Some(7), text: None };
    assert_eq!(Payload::of(Json::Object(vec![member])).integer("k"), 7);
    assert!(Payload::parse("{").is_none());
}
