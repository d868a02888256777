use std::sync::{Arc, Mutex};
use std::time::{Duration, Instant};

use monitor::db::{Db, PluginRow};
use monitor::hub::App;
use monitor::notification_bus::{Event, Payload};
use monitor::plugin::call::{allocation, hand_over, take_answer};
use monitor::plugin::host::{
    emit_event, host_log, now, resp_write_plan, resp_write_plan_capped, HttpRequest, Node, PluginState,
    RECORD_MAX,
};
use monitor::plugin::http::{plugin_http_fetch, Address, Fetch, FetchEvent, HTTP_RESP_MAX};
use monitor::plugin::loader::{finish_load, load, new_engine, LoadedPlugin};
use monitor::plugin::log::{new_log_sink, render_log, LogSink};
use monitor::plugin::manifest::Manifest;
use monitor::plugin::registry::{
    entry_of, result_text, tick_entry, CallLimits, CallOutcome, Dispatch, DispatchEntry, DEFAULT_FUEL_LIMIT,
    DEFAULT_TIMEOUT_MS, DISPATCH_LOG_CAP,
};
use wasmtime::{Caller, Extern, Instance, Linker, Memory, Store};

const MANIFEST: &str = r#"
plugin_id = "com.example.test"
name = "Test Plugin"
version = "1.0.0"
abi_version = 2
subscribes = ["agent_offline", "plugin_expiry_soon"]
"#;

const MINIMAL_WAT: &str = r#"
(module
  (memory (export "memory") 1)
  (global $heap (mut i32) (i32.const 1024))
  (func (export "__alloc") (param $cap i32) (result i32)
    (local $ptr i32)
    (local.set $ptr (global.get $heap))
    (global.set $heap (i32.add (global.get $heap) (local.get $cap)))
    (local.get $ptr))
  (func (export "on_event") (param i32 i32) (result i32) (i32.const 0)))"#;

struct Host {
    state: PluginState,
    app: Arc<Mutex<App>>,
    nodes: Vec<Node>,
    online: Vec<i64>,
    deadline: Instant,
    logs: Arc<Mutex<LogSink>>,
}

struct Handle {
    store: Store<Host>,
    instance: Instance,
}

fn compile(wat_text: &str) -> Vec<u8> {
    wat::parse_str(wat_text).unwrap()
}

/// An engine as the library makes it, but with small memory reservations.
fn small_engine() -> wasmtime::Engine {
    let mut config = wasmtime::Config::new();
    config.consume_fuel(true);
    config.memory_reservation(1 << 20);
    config.memory_reservation_for_growth(1 << 16);
    config.memory_guard_size(1 << 16);
    wasmtime::Engine::new(&config).unwrap()
}

#[test]
fn the_engine_counts_fuel() {
    let mut store = Store::new(&new_engine(), ());
    store.set_fuel(5).unwrap();
    assert_eq!(store.get_fuel().unwrap(), 5);
}

fn shared_app() -> Arc<Mutex<App>> {
    Arc::new(Mutex::new(App::new(Db::new(), small_engine())))
}

fn expiry_event() -> Event {
    Event::Plugin {
        name: "plugin_expiry_soon".to_string(),
        payload: Payload::parse(
            r#"{"node_id":7,"name":"edge-1","expires_at":"2026-10-01","days_left":7,"threshold_days":7}"#,
        )
        .unwrap(),
    }
}

fn row(wasm: Vec<u8>) -> PluginRow {
    PluginRow {
        id: 1,
        plugin_id: "com.example.test".to_string(),
        name: "Test".to_string(),
        version: "1.0.0".to_string(),
        manifest_json: MANIFEST.to_string(),
        wasm_blob: wasm,
        wasm_sha256: String::new(),
        enabled: true,
        status: "enabled".to_string(),
        last_error: None,
        uploaded_at: 0,
    }
}

fn memory(caller: &mut Caller<'_, Host>) -> Memory {
    caller.get_export("memory").and_then(Extern::into_memory).unwrap()
}

/// Runs a fetch as far as it gets without a network: literal addresses are
/// told, nothing can be looked up or sent.
fn fetch(request: &HttpRequest) -> Result<Vec<u8>, i32> {
    let mut state = plugin_http_fetch(&request.url, request.download_cap);
    loop {
        let event = match &state {
            Fetch::Check { host, .. } => FetchEvent::Literal(literal(host)),
            Fetch::Resolve { .. } => FetchEvent::Resolved(None),
            Fetch::Send { .. } => FetchEvent::Answered(None),
            Fetch::Read { .. } => FetchEvent::End,
            Fetch::Done { .. } => FetchEvent::End,
        };
        state = match state {
            Fetch::Done { result } => return result,
            other => other.next(event),
        };
    }
}

fn literal(host: &str) -> Option<Address> {
    let parts: Vec<u8> = host.split('.').map(|p| p.parse().ok()).collect::<Option<Vec<u8>>>()?;
    if parts.len() == 4 {
        Some(Address::V4 { octets: [parts[0], parts[1], parts[2], parts[3]] })
    } else {
        None
    }
}

fn linker(engine: &wasmtime::Engine) -> Linker<Host> {
    let mut l: Linker<Host> = Linker::new(engine);
    l.func_wrap("host", "log", |mut c: Caller<'_, Host>, _level: i32, ptr: i32, len: i32| {
        let (mem, host) = memory(&mut c).data_and_store_mut(&mut c);
        let _ = host_log(&mut host.logs.lock().unwrap(), mem, ptr, len);
    })
    .unwrap();
    l.func_wrap("host", "now", || -> i64 { now() }).unwrap();
    l.func_wrap(
        "host",
        "kv_get",
        |mut c: Caller<'_, Host>, kp: i32, kl: i32, op: i32, oc: i32| -> i32 {
            let (mem, host) = memory(&mut c).data_and_store_mut(&mut c);
            let expired = Instant::now() >= host.deadline;
            host.state.kv_get(&host.app.lock().unwrap().db, expired, mem, kp, kl, op, oc)
        },
    )
    .unwrap();
    l.func_wrap(
        "host",
        "kv_set",
        |mut c: Caller<'_, Host>, kp: i32, kl: i32, vp: i32, vl: i32| -> i32 {
            let (mem, host) = memory(&mut c).data_and_store_mut(&mut c);
            host.state.kv_set(&mut host.app.lock().unwrap().db, mem, kp, kl, vp, vl)
        },
    )
    .unwrap();
    l.func_wrap("host", "resp_alloc", |mut c: Caller<'_, Host>, cap: i32| -> i32 {
        let mut allocated = None;
        if PluginState::resp_alloc_wanted(cap) {
            let func = c.get_export("__alloc").and_then(Extern::into_func).unwrap();
            let typed = func.typed::<(i32,), i32>(&c).unwrap();
            allocated = typed.call(&mut c, (cap,)).ok();
        }
        c.data_mut().state.resp_alloc(cap, allocated)
    })
    .unwrap();
    l.func_wrap(
        "host",
        "http_post",
        |mut c: Caller<'_, Host>,
         mp: i32,
         ml: i32,
         up: i32,
         ul: i32,
         bp: i32,
         bl: i32,
         rp: i32,
         rc: i32|
         -> i32 {
            let (mem, host) = memory(&mut c).data_and_store_mut(&mut c);
            let expired = Instant::now() >= host.deadline;
            match host.state.http_post(expired, mem, mp, ml, up, ul, bp, bl, rp, rc) {
                Err(code) => code,
                Ok(request) => match fetch(&request) {
                    Err(code) => code,
                    Ok(body) => host.state.http_answer(mem, rp, rc, &body),
                },
            }
        },
    )
    .unwrap();
    l.func_wrap(
        "host",
        "http_get",
        |mut c: Caller<'_, Host>, up: i32, ul: i32, rp: i32, rc: i32| -> i32 {
            let (mem, host) = memory(&mut c).data_and_store_mut(&mut c);
            let expired = Instant::now() >= host.deadline;
            match host.state.http_get(expired, mem, up, ul, rp, rc) {
                Err(code) => code,
                Ok(request) => match fetch(&request) {
                    Err(code) => code,
                    Ok(body) => host.state.http_answer(mem, rp, rc, &body),
                },
            }
        },
    )
    .unwrap();
    l.func_wrap("host", "nodes_query", |mut c: Caller<'_, Host>, op: i32, oc: i32| -> i32 {
        let (mem, host) = memory(&mut c).data_and_store_mut(&mut c);
        let expired = Instant::now() >= host.deadline;
        host.state.nodes_query(&host.nodes, &host.online, expired, mem, op, oc)
    })
    .unwrap();
    l.func_wrap(
        "host",
        "emit_event",
        |mut c: Caller<'_, Host>, np: i32, nl: i32, pp: i32, pl: i32| -> i32 {
            let (mem, host) = memory(&mut c).data_and_store_mut(&mut c);
            emit_event(&mut host.app.lock().unwrap(), mem, np, nl, pp, pl)
        },
    )
    .unwrap();
    l.func_wrap(
        "host",
        "data_put",
        |mut c: Caller<'_, Host>, kp: i32, kl: i32, vp: i32, vl: i32| -> i32 {
            let (mem, host) = memory(&mut c).data_and_store_mut(&mut c);
            host.state.data_put(&mut host.app.lock().unwrap().db, mem, kp, kl, vp, vl)
        },
    )
    .unwrap();
    l.func_wrap(
        "host",
        "data_get",
        |mut c: Caller<'_, Host>, kp: i32, kl: i32, op: i32, oc: i32| -> i32 {
            let (mem, host) = memory(&mut c).data_and_store_mut(&mut c);
            host.state.data_get(&host.app.lock().unwrap().db, mem, kp, kl, op, oc)
        },
    )
    .unwrap();
    l.func_wrap("host", "data_delete", |mut c: Caller<'_, Host>, kp: i32, kl: i32| -> i32 {
        let (mem, host) = memory(&mut c).data_and_store_mut(&mut c);
        host.state.data_delete(&mut host.app.lock().unwrap().db, mem, kp, kl)
    })
    .unwrap();
    l.func_wrap(
        "host",
        "data_list",
        |mut c: Caller<'_, Host>, pp: i32, pl: i32, op: i32, oc: i32| -> i32 {
            let (mem, host) = memory(&mut c).data_and_store_mut(&mut c);
            host.state.data_list(&host.app.lock().unwrap().db, mem, pp, pl, op, oc)
        },
    )
    .unwrap();
    l
}

fn instantiate(
    engine: &wasmtime::Engine,
    app: &Arc<Mutex<App>>,
    plugin_id: &str,
    module: &wasmtime::Module,
    limits: &CallLimits,
    logs: &Arc<Mutex<LogSink>>,
) -> Handle {
    let mut store = Store::new(
        engine,
        Host {
            state: PluginState::new(plugin_id),
            app: app.clone(),
            nodes: Vec::new(),
            online: Vec::new(),
            deadline: Instant::now() + Duration::from_millis(limits.timeout_ms),
            logs: logs.clone(),
        },
    );
    store.set_fuel(limits.fuel_limit).unwrap();
    let instance = linker(engine).instantiate(&mut store, module).unwrap();
    Handle { store, instance }
}

fn sink() -> Arc<Mutex<LogSink>> {
    Arc::new(Mutex::new(new_log_sink()))
}

fn defaults() -> CallLimits {
    CallLimits { fuel_limit: DEFAULT_FUEL_LIMIT, timeout_ms: DEFAULT_TIMEOUT_MS }
}

fn spawn_as(engine: &wasmtime::Engine, app: &Arc<Mutex<App>>, plugin_id: &str, wat_text: &str) -> Handle {
    let module = wasmtime::Module::new(engine, compile(wat_text)).unwrap();
    instantiate(engine, app, plugin_id, &module, &defaults(), &sink())
}

fn spawn(engine: &wasmtime::Engine, app: &Arc<Mutex<App>>, wat_text: &str) -> Handle {
    spawn_as(engine, app, "com.example.test", wat_text)
}

fn drive(h: &mut Handle) -> i32 {
    let f = h.instance.get_typed_func::<(i32, i32), i32>(&mut h.store, "on_event").unwrap();
    f.call(&mut h.store, (0, 0)).unwrap()
}

fn call_on_event(
    engine: &wasmtime::Engine,
    app: &Arc<Mutex<App>>,
    plugin: &LoadedPlugin,
    event: &Event,
    limits: &CallLimits,
) -> Result<i32, String> {
    let mut h =
        instantiate(engine, app, &plugin.manifest.plugin_id, &plugin.module, limits, &sink());
    let payload = event.to_json().into_bytes();
    let alloc = h.instance.get_typed_func::<(i32,), i32>(&mut h.store, "__alloc").unwrap();
    let on_event = h.instance.get_typed_func::<(i32, i32), i32>(&mut h.store, "on_event").unwrap();
    let size = allocation("on_event", payload.len());
    let ptr = alloc.call(&mut h.store, (size,)).map_err(|e| format!("{e:#}"))?;
    let mem = h.instance.get_memory(&mut h.store, "memory").unwrap();
    let arguments =
        hand_over(mem.data_mut(&mut h.store), ptr, &payload).map_err(|e| e.message("on_event"))?;
    on_event.call(&mut h.store, arguments).map_err(|e| format!("{e:#}"))
}

// ---------------------------------------------------------------------------
// Loading
// ---------------------------------------------------------------------------

#[test]
fn host_a_minimal_plugin_loads_and_handles_events() {
    let engine = small_engine();
    let app = shared_app();
    let plugin = load(&engine, &row(compile(MINIMAL_WAT))).ok().unwrap();
    assert_eq!(call_on_event(&engine, &app, &plugin, &expiry_event(), &defaults()).unwrap(), 0);
    let online = Event::AgentOnline { node_id: 5, name: "edge-1".to_string(), observed_at: 300 };
    assert_eq!(call_on_event(&engine, &app, &plugin, &online, &defaults()).unwrap(), 0);
}

#[test]
fn host_the_event_payload_reaches_the_plugin() {
    let wat_text = r#"
(module
  (memory (export "memory") 1)
  (global $heap (mut i32) (i32.const 1024))
  (func (export "__alloc") (param $cap i32) (result i32)
    (local $ptr i32)
    (local.set $ptr (global.get $heap))
    (global.set $heap (i32.add (global.get $heap) (local.get $cap)))
    (local.get $ptr))
  (func (export "on_event") (param $ptr i32) (param $len i32) (result i32)
    (global.set $heap (i32.add (i32.const 16384) (local.get $len)))
    (memory.copy (i32.const 16384) (local.get $ptr) (local.get $len))
    (local.get $len)))"#;
    let engine = small_engine();
    let app = shared_app();
    let plugin = load(&engine, &row(compile(wat_text))).ok().unwrap();
    let event = expiry_event();
    let n = call_on_event(&engine, &app, &plugin, &event, &defaults()).unwrap();
    assert_eq!(n as usize, event.to_json().len());
}

#[test]
fn host_corrupt_wasm_fails_to_load() {
    let engine = small_engine();
    let err = load(&engine, &row(b"\0asm\xde\xad\xbe\xef".to_vec())).err().unwrap();
    assert!(err.message().contains("编译失败"), "{}", err.message());
}

#[test]
fn host_a_module_missing_exports_is_rejected() {
    let engine = small_engine();
    for (wat_text, needle) in [
        (
            r#"(module (memory (export "memory") 1)
                (func (export "__alloc") (param i32) (result i32) (i32.const 0)))"#,
            "on_event",
        ),
        (
            r#"(module (memory (export "memory") 1)
                (func (export "on_event") (param i32 i32) (result i32) (i32.const 0)))"#,
            "__alloc",
        ),
        (
            r#"(module (func (export "on_event") (param i32 i32) (result i32) (i32.const 0))
                (func (export "__alloc") (param i32) (result i32) (i32.const 0)))"#,
            "memory",
        ),
    ] {
        let err = load(&engine, &row(compile(wat_text))).err().unwrap();
        assert!(err.message().contains(needle), "`{needle}` is not in {}", err.message());
    }
}

#[test]
fn host_a_wrong_abi_version_fails_at_load() {
    let engine = small_engine();
    let mut r = row(compile(MINIMAL_WAT));
    r.manifest_json = MANIFEST.replace("abi_version = 2", "abi_version = 3");
    let err = load(&engine, &r).err().unwrap();
    let whole = err.chain();
    assert!(whole.contains("abi_version"), "{whole}");
    assert_eq!(err.message(), "插件 1(com.example.test) 的 manifest 无效");
}

#[test]
fn plugin_a_wrong_abi_version_fails_at_load() {
    let retired = r#"
plugin_id = "com.example.test"
name = "Test Plugin"
version = "1.0.0"
abi_version = 1
subscribes = ["expiry_soon", "agent_offline"]
"#;
    let engine = small_engine();
    let mut r = row(compile(MINIMAL_WAT));
    r.manifest_json = retired.replace("abi_version = 1", "abi_version = 3");
    let whole = load(&engine, &r).err().unwrap().chain();
    assert!(whole.contains("abi_version"), "{whole}");
}

#[test]
fn plugin_a_broken_manifest_is_not_toml() {
    assert!(Manifest::parse("plugin_id = ").is_err());
}

#[test]
fn what_the_compiler_says_is_passed_on() {
    let engine = small_engine();
    let r = row(compile(MINIMAL_WAT));
    let manifest = || Manifest::parse(MANIFEST).unwrap();
    let err = finish_load(&r, manifest(), Err("boom".to_string())).err().unwrap();
    assert_eq!(err.message(), "插件 1(com.example.test) 的 wasm 模块编译失败: boom");
    let module = wasmtime::Module::new(&engine, compile("(module)")).unwrap();
    let err = finish_load(&r, manifest(), Ok(module)).err().unwrap();
    assert_eq!(err.message(), "插件 com.example.test 的模块缺少导出 `memory`");
    let module = wasmtime::Module::new(&engine, &r.wasm_blob).unwrap();
    assert_eq!(finish_load(&r, manifest(), Ok(module)).ok().unwrap().manifest.name, "Test Plugin");
}

#[test]
fn declared_entries_have_to_be_exported() {
    let engine = small_engine();
    for (decl, name) in [
        ("tick = true", "on_tick"),
        ("cleanup = true", "on_cleanup"),
        ("page = { title = \"X\" }", "render_page"),
    ] {
        let mut r = row(compile(MINIMAL_WAT));
        r.manifest_json = format!("{MANIFEST}\n{decl}\n");
        let err = load(&engine, &r).err().unwrap();
        assert_eq!(
            err.message(),
            format!("插件 com.example.test 的模块缺少导出 `{name}`(manifest 声明了该能力)")
        );
    }
}

#[test]
fn entries_with_other_signatures_are_rejected() {
    let engine = small_engine();
    let module = |event: &str, alloc: &str| {
        compile(&format!(
            r#"(module (memory (export "memory") 1)
                (func (export "on_event") {event})
                (func (export "__alloc") {alloc}))"#
        ))
    };
    let event = "(param i32 i32) (result i32) (i32.const 0)";
    let alloc = "(param i32) (result i32) (i32.const 0)";
    assert!(load(&engine, &row(module(event, alloc))).is_ok());
    for (event, alloc, name) in [
        ("(param i32) (result i32) (i32.const 0)", alloc, "on_event"),
        ("(param i32 i64) (result i32) (i32.const 0)", alloc, "on_event"),
        ("(param i32 i32)", alloc, "on_event"),
        (event, "(param i64) (result i32) (i32.const 0)", "__alloc"),
        (event, "(param i32) (result i64) (i64.const 0)", "__alloc"),
    ] {
        let err = load(&engine, &row(module(event, alloc))).err().unwrap();
        assert!(err.message().contains(name), "{}", err.message());
    }
    // A table under a function's name is no function.
    let wat_text = r#"(module (memory (export "memory") 1) (table (export "on_event") 1 funcref)
        (func (export "__alloc") (param i32) (result i32) (i32.const 0)))"#;
    let err = load(&engine, &row(compile(wat_text))).err().unwrap();
    assert!(err.message().contains("on_event"), "{}", err.message());
}

// ---------------------------------------------------------------------------
// Host functions
// ---------------------------------------------------------------------------

const DATA_WAT: &str = r#"
(module
  (import "host" "data_put" (func $put (param i32 i32 i32 i32) (result i32)))
  (import "host" "data_get" (func $get (param i32 i32 i32 i32) (result i32)))
  (import "host" "data_delete" (func $del (param i32 i32) (result i32)))
  (memory (export "memory") 1)
  (data (i32.const 1024) "node:1")
  (data (i32.const 2048) "{\"price\":10}")
  (func (export "__alloc") (param i32) (result i32) (i32.const 8192))
  (func (export "on_event") (param i32 i32) (result i32)
    (drop (call $put (i32.const 1024) (i32.const 6) (i32.const 2048) (i32.const 12)))
    (drop (call $get (i32.const 1024) (i32.const 6) (i32.const 4096) (i32.const 128)))
    (drop (call $del (i32.const 1024) (i32.const 6)))
    (call $get (i32.const 1024) (i32.const 6) (i32.const 4096) (i32.const 128))))"#;

#[test]
fn plugin_data_round_trips_and_isolates_namespaces() {
    let engine = small_engine();
    let app = shared_app();
    let mut a = spawn_as(&engine, &app, "com.example.a", DATA_WAT);
    assert_eq!(drive(&mut a), 0);
    assert_eq!(app.lock().unwrap().db.plugin_data_get("com.example.a", "node:1").unwrap(), None);
    let mut b = spawn_as(&engine, &app, "com.example.b", DATA_WAT);
    assert_eq!(drive(&mut b), 0);
    let mut app = app.lock().unwrap();
    app.db.plugin_data_put("com.example.a", "node:9", "{\"x\":1}").unwrap();
    assert_eq!(app.db.plugin_data_get("com.example.b", "node:9").unwrap(), None);
    assert_eq!(
        app.db.plugin_data_get("com.example.a", "node:9").unwrap().as_deref(),
        Some("{\"x\":1}")
    );
}

#[test]
fn plugin_data_record_over_the_cap_is_refused() {
    let app = shared_app();
    let engine = small_engine();
    assert_eq!(RECORD_MAX, 262144);
    let wat = r#"
(module
  (import "host" "data_put" (func $put (param i32 i32 i32 i32) (result i32)))
  (memory (export "memory") 8)
  (data (i32.const 1024) "k")
  (func (export "__alloc") (param i32) (result i32) (i32.const 8192))
  (func (export "on_event") (param i32 i32) (result i32)
    (call $put (i32.const 1024) (i32.const 1) (i32.const 8192) (i32.const 262145))))"#;
    let mut h = spawn(&engine, &app, wat);
    assert_eq!(drive(&mut h), -6);
}

#[test]
fn emit_event_refuses_names_without_the_plugin_prefix() {
    let engine = small_engine();
    let app = shared_app();
    let wat = r#"
(module
  (import "host" "emit_event" (func $emit (param i32 i32 i32 i32) (result i32)))
  (memory (export "memory") 1)
  (data (i32.const 1024) "expiry_soon")
  (data (i32.const 2048) "{}")
  (func (export "__alloc") (param i32) (result i32) (i32.const 8192))
  (func (export "on_event") (param i32 i32) (result i32)
    (call $emit (i32.const 1024) (i32.const 11) (i32.const 2048) (i32.const 2))))"#;
    let mut h = spawn(&engine, &app, wat);
    assert_eq!(drive(&mut h), -7);
}

#[test]
fn emit_event_records_through_the_bus() {
    let engine = small_engine();
    let app = shared_app();
    let wat = r#"
(module
  (import "host" "emit_event" (func $emit (param i32 i32 i32 i32) (result i32)))
  (memory (export "memory") 1)
  (data (i32.const 1024) "plugin_expiry_soon")
  (data (i32.const 2048) "{\"node_id\":7,\"expires_at\":\"2026-10-01\",\"threshold_days\":7}")
  (func (export "__alloc") (param i32) (result i32) (i32.const 8192))
  (func (export "on_event") (param i32 i32) (result i32)
    (call $emit (i32.const 1024) (i32.const 18) (i32.const 2048) (i32.const 58))))"#;
    let mut h = spawn(&engine, &app, wat);
    let code = drive(&mut h);
    assert!(code >= 0, "{code}");
    let key = Event::Plugin {
        name: "plugin_expiry_soon".to_string(),
        payload: Payload::parse(r#"{"node_id":7,"expires_at":"2026-10-01","threshold_days":7}"#).unwrap(),
    }
    .threshold_or_state_key();
    assert!(app.lock().unwrap().db.dispatch_already_sent(7, "plugin_expiry_soon", key).unwrap());
}

#[test]
fn nodes_query_reports_online_state() {
    let engine = small_engine();
    let app = shared_app();
    let wat = r#"
(module
  (import "host" "nodes_query" (func $q (param i32 i32) (result i32)))
  (memory (export "memory") 1)
  (func (export "__alloc") (param i32) (result i32) (i32.const 8192))
  (func (export "on_event") (param i32 i32) (result i32)
    (call $q (i32.const 4096) (i32.const 4096))))"#;
    let mut h = spawn(&engine, &app, wat);
    h.store.data_mut().nodes = vec![
        Node { id: 1, name: "edge-up".to_string() },
        Node { id: 2, name: "edge-down".to_string() },
    ];
    h.store.data_mut().online = vec![1];
    let n = drive(&mut h);
    assert!(n > 0, "{n}");
    let mem = h.instance.get_memory(&mut h.store, "memory").unwrap();
    let bytes = &mem.data(&h.store)[4096..4096 + n as usize];
    assert_eq!(
        std::str::from_utf8(bytes).unwrap(),
        r#"[{"id":1,"name":"edge-up","online":true},{"id":2,"name":"edge-down","online":false}]"#
    );
    let arr: serde_json::Value = serde_json::from_slice(bytes).unwrap();
    let arr = arr.as_array().unwrap();
    assert_eq!(arr.len(), 2, "{arr:?}");
    let by_id = |id: i64| arr.iter().find(|v| v["id"] == id).cloned().unwrap();
    assert_eq!(by_id(1)["name"], "edge-up");
    assert_eq!(by_id(1)["online"], true);
    assert_eq!(by_id(2)["online"], false);
}

#[test]
fn http_get_refuses_plain_http_urls() {
    let engine = small_engine();
    let app = shared_app();
    let wat = r#"
(module
  (import "host" "http_get" (func $get (param i32 i32 i32 i32) (result i32)))
  (memory (export "memory") 1)
  (data (i32.const 1024) "http://example.com/rate")
  (func (export "__alloc") (param i32) (result i32) (i32.const 8192))
  (func (export "on_event") (param i32 i32) (result i32)
    (call $get (i32.const 1024) (i32.const 25) (i32.const 8192) (i32.const 256))))"#;
    let mut h = spawn(&engine, &app, wat);
    assert_eq!(drive(&mut h), -2);
}

#[test]
fn http_get_refuses_private_targets_end_to_end() {
    let engine = small_engine();
    let app = shared_app();
    let url = "https://169.254.169.254/latest/meta-data";
    let wat = format!(
        r#"
(module
  (import "host" "http_get" (func $get (param i32 i32 i32 i32) (result i32)))
  (memory (export "memory") 2)
  (data (i32.const 1024) "{url}")
  (func (export "__alloc") (param i32) (result i32) (i32.const 8192))
  (func (export "on_event") (param i32 i32) (result i32)
    (call $get (i32.const 1024) (i32.const {len}) (i32.const 8192) (i32.const 256))))"#,
        len = url.len()
    );
    let mut h = spawn(&engine, &app, &wat);
    assert_eq!(drive(&mut h), -9);
}

const KV_WAT: &str = r#"
(module
  (import "host" "kv_set" (func $kv_set (param i32 i32 i32 i32) (result i32)))
  (import "host" "kv_get" (func $kv_get (param i32 i32 i32 i32) (result i32)))
  (import "host" "log" (func $log (param i32 i32 i32)))
  (import "host" "now" (func $now (result i64)))
  (memory (export "memory") 1)
  (data (i32.const 1024) "mykey")
  (data (i32.const 2048) "myvalue")
  (func (export "__alloc") (param $cap i32) (result i32)
    (local $ptr i32)
    (local.set $ptr (i32.const 8192))
    (i32.add (local.get $ptr) (local.get $cap)))
  (func (export "on_event") (param i32 i32) (result i32)
    (local $now i64)
    (local.set $now (call $now))
    (call $log (i32.const 1) (i32.const 2048) (i32.const 7))
    (drop (call $kv_set (i32.const 1024) (i32.const 5) (i32.const 2048) (i32.const 7)))
    (call $kv_get (i32.const 1024) (i32.const 5) (i32.const 4096) (i32.const 64))))"#;

fn kv_round_trip() {
    let engine = small_engine();
    let app = shared_app();
    let mut h = spawn(&engine, &app, KV_WAT);
    assert_eq!(drive(&mut h), 7);
    let mem = h.instance.get_memory(&mut h.store, "memory").unwrap();
    assert_eq!(&mem.data(&h.store)[4096..4103], b"myvalue");
    let app = app.lock().unwrap();
    assert_eq!(app.db.get("plugin.com.example.test:mykey").as_deref(), Some("myvalue"));
    assert_eq!(app.db.get("plugin.other:mykey"), None);
}

#[test]
fn host_kv_round_trips_through_the_setting_table() {
    kv_round_trip();
}

#[test]
fn plugin_kv_round_trips_through_the_setting_table() {
    kv_round_trip();
}

const OOB_WAT: &str = r#"
(module
  (import "host" "log" (func $log (param i32 i32 i32)))
  (import "host" "kv_set" (func $kv_set (param i32 i32 i32 i32) (result i32)))
  (import "host" "kv_get" (func $kv_get (param i32 i32 i32 i32) (result i32)))
  (memory (export "memory") 1)
  (data (i32.const 1024) "k")
  (func (export "__alloc") (param i32) (result i32) (i32.const 8192))
  (func (export "on_event") (param i32 i32) (result i32)
    (call $log (i32.const 3) (i32.const 268435456) (i32.const 100))
    (call $log (i32.const 3) (i32.const 8192) (i32.const 4))
    (drop (call $kv_set (i32.const 1024) (i32.const 1) (i32.const 1024) (i32.const 1)))
    (call $kv_get (i32.const 1024) (i32.const 1) (i32.const 268435456) (i32.const 4))))"#;

fn out_of_bounds() {
    let engine = small_engine();
    let app = shared_app();
    let mut h = spawn(&engine, &app, OOB_WAT);
    assert_eq!(drive(&mut h), -1);
}

#[test]
fn host_out_of_bounds_accesses_return_errors_not_panics() {
    out_of_bounds();
}

#[test]
fn plugin_out_of_bounds_accesses_return_errors_not_panics() {
    out_of_bounds();
}

const HTTP_WAT: &str = r#"
(module
  (import "host" "http_post"
    (func $http_post (param i32 i32 i32 i32 i32 i32 i32 i32) (result i32)))
  (memory (export "memory") 1)
  (data (i32.const 1024) "POST")
  (data (i32.const 2048) "http://example.com/hook")
  (data (i32.const 4096) "{}")
  (func (export "__alloc") (param i32) (result i32) (i32.const 8192))
  (func (export "on_event") (param i32 i32) (result i32)
    (call $http_post (i32.const 1024) (i32.const 4)
                      (i32.const 2048) (i32.const 23)
                      (i32.const 4096) (i32.const 2)
                      (i32.const 8192) (i32.const 256))))"#;

fn post_result(wat_text: &str) -> i32 {
    let engine = small_engine();
    let app = shared_app();
    let mut h = spawn(&engine, &app, wat_text);
    drive(&mut h)
}

#[test]
fn host_http_post_refuses_plain_http_urls() {
    assert_eq!(post_result(HTTP_WAT), -2);
}

#[test]
fn plugin_http_post_refuses_plain_http_urls() {
    assert_eq!(post_result(HTTP_WAT), -2);
}

#[test]
fn host_http_post_refuses_non_post_methods() {
    assert_eq!(post_result(&HTTP_WAT.replace("\"POST\"", "\"GET\"")), -3);
}

#[test]
fn plugin_http_post_refuses_non_post_methods() {
    assert_eq!(post_result(&HTTP_WAT.replace("\"POST\"", "\"GET\"")), -3);
}

fn post_without_a_network() {
    let wat_text = HTTP_WAT.replace("http://example.com/hook", "https://example.com/hook");
    assert!(post_result(&wat_text) < 0);
}

#[test]
fn host_http_post_without_a_runtime_returns_an_error_code() {
    post_without_a_network();
}

#[test]
fn plugin_http_post_without_a_runtime_returns_an_error_code() {
    post_without_a_network();
}

#[test]
fn host_a_runaway_loop_is_cut_off_by_fuel() {
    let engine = small_engine();
    let app = shared_app();
    let plugin = load(&engine, &row(compile(SPIN_WAT))).ok().unwrap();
    let limits = CallLimits { fuel_limit: 10_000, timeout_ms: DEFAULT_TIMEOUT_MS };
    let whole = call_on_event(&engine, &app, &plugin, &expiry_event(), &limits).unwrap_err();
    assert!(whole.to_lowercase().contains("fuel"), "{whole}");
    assert_eq!(result_text(&CallOutcome::Failed(whole)), "fuel_exhausted");
}

#[test]
fn a_host_call_loop_is_cut_off_by_the_deadline() {
    let wat_text = r#"
(module
  (import "host" "kv_get" (func $kv_get (param i32 i32 i32 i32) (result i32)))
  (memory (export "memory") 1)
  (data (i32.const 1024) "k")
  (func (export "__alloc") (param i32) (result i32) (i32.const 8192))
  (func (export "on_event") (param i32 i32) (result i32)
    (local $r i32)
    (loop $again
      (local.set $r (call $kv_get (i32.const 1024) (i32.const 1) (i32.const 4096) (i32.const 64)))
      (br_if $again (i32.eqz (local.get $r))))
    (local.get $r)))"#;
    let engine = small_engine();
    let app = shared_app();
    let plugin = load(&engine, &row(compile(wat_text))).ok().unwrap();
    let started = Instant::now();
    let limits = CallLimits { fuel_limit: 1_000_000_000, timeout_ms: 50 };
    let code = call_on_event(&engine, &app, &plugin, &expiry_event(), &limits).unwrap();
    let elapsed = started.elapsed();
    assert_eq!(code, -1);
    assert!(elapsed < Duration::from_secs(5), "{elapsed:?}");
}

#[test]
fn host_log_lines_land_in_the_sink() {
    let wat_text = r#"
(module
  (import "host" "log" (func $log (param i32 i32 i32)))
  (memory (export "memory") 1)
  (data (i32.const 1024) "no bot_token")
  (func (export "__alloc") (param i32) (result i32) (i32.const 8192))
  (func (export "on_event") (param i32 i32) (result i32)
    (call $log (i32.const 2) (i32.const 1024) (i32.const 12))
    (i32.const 7)))"#;
    let engine = small_engine();
    let app = shared_app();
    let module = wasmtime::Module::new(&engine, compile(wat_text)).unwrap();
    let logs = sink();
    let mut handle = instantiate(&engine, &app, "com.example.test", &module, &defaults(), &logs);
    assert_eq!(drive(&mut handle), 7);
    let detail = render_log(&logs.lock().unwrap(), 500).unwrap();
    assert_eq!(detail, "no bot_token");
}

#[test]
fn resp_write_plan_covers_full_truncated_fallback_and_limits() {
    assert_eq!(resp_write_plan(8192, 256, (0, 0), 100), Some((8192, 100)));
    assert_eq!(resp_write_plan(8192, 10, (0, 0), 100), Some((8192, 10)));
    assert_eq!(resp_write_plan(0, 0, (4096, 32), 100), Some((4096, 32)));
    assert_eq!(resp_write_plan(8192, i32::MAX, (0, 0), usize::MAX), Some((8192, HTTP_RESP_MAX)));
    assert_eq!(resp_write_plan(0, 0, (0, 0), 100), None);
    assert_eq!(resp_write_plan(8192, -1, (0, 0), 100), None);
}

#[test]
fn a_larger_bound_lets_more_through() {
    assert_eq!(resp_write_plan_capped(1, 100_000, (0, 0), 90_000, 80_000), Some((1, 80_000)));
    assert_eq!(resp_write_plan_capped(1, 100_000, (0, 0), 90_000, 95_000), Some((1, 90_000)));
}

#[test]
fn an_answer_buffer_comes_from_the_allocator() {
    let wat_text = r#"
(module
  (import "host" "resp_alloc" (func $alloc (param i32) (result i32)))
  (import "host" "data_list" (func $list (param i32 i32 i32 i32) (result i32)))
  (memory (export "memory") 1)
  (data (i32.const 1024) "node:")
  (func (export "__alloc") (param i32) (result i32) (i32.const 8192))
  (func (export "on_event") (param i32 i32) (result i32)
    (drop (call $alloc (i32.const 512)))
    (call $list (i32.const 1024) (i32.const 5) (i32.const 0) (i32.const 0))))"#;
    let engine = small_engine();
    let app = shared_app();
    app.lock().unwrap().db.plugin_data_put("com.example.test", "node:1", "{\"a\":1}").unwrap();
    app.lock().unwrap().db.plugin_data_put("com.example.test", "other", "x").unwrap();
    app.lock().unwrap().db.plugin_data_put("com.example.b", "node:2", "y").unwrap();
    let mut h = spawn(&engine, &app, wat_text);
    let n = drive(&mut h);
    let expected = r#"[{"data":"{\"a\":1}","key":"node:1"}]"#;
    assert_eq!(n as usize, expected.len());
    assert_eq!((h.store.data().state.resp_ptr, h.store.data().state.resp_cap), (8192, 512));
    let mem = h.instance.get_memory(&mut h.store, "memory").unwrap();
    assert_eq!(&mem.data(&h.store)[8192..8192 + n as usize], expected.as_bytes());
    assert_eq!(take_answer(mem.data(&h.store), n, 8192, 512).unwrap(), expected.as_bytes());
    // Too small a buffer is refused rather than cut.
    let state = PluginState::new("com.example.test");
    let mut bytes = vec![0u8; 64];
    bytes[..5].copy_from_slice(b"node:");
    let app = app.lock().unwrap();
    assert_eq!(state.data_list(&app.db, &mut bytes, 0, 5, 8, 10), -6);
    assert_eq!(state.data_list(&app.db, &mut bytes, 0, 5, 0, 10), 0, "no buffer at all");
    assert_eq!(state.data_list(&app.db, &mut bytes, 0, 5, 50, 1000), -1, "outside the memory");
}

#[test]
fn settings_are_cut_on_character_boundaries() {
    let mut db = Db::new();
    db.set("plugin.p:k", "aéb").unwrap();
    let state = PluginState::new("p");
    let mut mem = vec![0u8; 32];
    mem[0] = b'k';
    assert_eq!(state.kv_get(&db, false, &mut mem, 0, 1, 8, 2), 1);
    assert_eq!(&mem[8..10], b"a\0");
    assert_eq!(state.kv_get(&db, false, &mut mem, 0, 1, 8, 3), 3);
    assert_eq!(&mem[8..11], "aé".as_bytes());
    assert_eq!(state.kv_get(&db, true, &mut mem, 0, 1, 8, 3), -1, "the time ran out");
    assert_eq!(state.kv_get(&db, false, &mut mem, 0, 1, -1, 3), -1);
    assert_eq!(state.kv_get(&db, false, &mut mem, 0, 1, 31, 4), -1);
    assert_eq!(state.kv_get(&db, false, &mut mem, 1, 1, 8, 4), 0, "no such setting");
    mem[2] = 0xff;
    assert_eq!(state.kv_get(&db, false, &mut mem, 2, 1, 8, 4), -1, "no UTF-8");
}

#[test]
fn settings_and_records_have_their_bounds() {
    let mut db = Db::new();
    let state = PluginState::new("p");
    let mut mem = vec![b'x'; 300_000];
    assert_eq!(state.kv_set(&mut db, &mem, 0, 1, 0, 8192), 0);
    assert_eq!(state.kv_set(&mut db, &mem, 0, 1, 0, 8193), -1);
    assert_eq!(db.get("plugin.p:x").unwrap().len(), 8192);
    assert_eq!(state.data_put(&mut db, &mem, 0, 0, 0, 1), -6, "an empty key");
    for i in 0..64 {
        mem[0] = b'0' + i;
        assert_eq!(state.data_put(&mut db, &mem, 0, 1, 1, 262_144), 0);
    }
    mem[0] = b'z';
    assert_eq!(state.data_put(&mut db, &mem, 0, 1, 1, 1), -6, "the quota of 16 MiB");
    mem[0] = b'0';
    assert_eq!(state.data_put(&mut db, &mem, 0, 1, 1, 100), 0, "a smaller record makes room");
    mem[0] = b'z';
    assert_eq!(state.data_put(&mut db, &mem, 0, 1, 1, 1), 0);
    assert_eq!(state.data_get(&db, &mut mem, 0, 1, 10, 10), 1);
    assert_eq!(state.data_delete(&mut db, &mem, 0, 1), 0);
    assert_eq!(state.data_delete(&mut db, &mem, 0, 1), 0);
    assert_eq!(state.data_get(&db, &mut mem, 0, 1, 10, 10), 0);
    assert_eq!(state.data_delete(&mut db, &mem, -1, 1), -1);
}

#[test]
fn requests_are_looked_at_before_they_go_out() {
    let state = PluginState::new("p");
    let mem = b"POSThttps://example.com/x{}".to_vec();
    let post = |expired: bool| state.http_post(expired, &mem, 0, 4, 4, 21, 25, 2, 0, 0);
    let request = post(false).ok().unwrap();
    assert_eq!(request.url, "https://example.com/x");
    assert_eq!(request.body.as_deref(), Some(b"{}".as_slice()));
    assert_eq!(request.download_cap, 65_536);
    assert_eq!(post(true).err(), Some(-4));
    assert_eq!(state.http_post(false, &mem, 0, 4, 4, 21, 25, 3, 0, 0).err(), Some(-1));
    assert_eq!(state.http_get(false, &mem, 4, 21, 16, 99).ok().unwrap().download_cap, 99);
    assert_eq!(state.http_get(true, &mem, 0, 4, 0, 0).err(), Some(-4));
    assert_eq!(state.http_get(false, &mem, 0, 4, 0, 0).err(), Some(-2));
    let mut buffer = vec![0u8; 8];
    assert_eq!(state.http_answer(&mut buffer, 2, 3, &b"abcdef".to_vec()), 3);
    assert_eq!(buffer, b"\0\0abc\0\0\0");
    assert_eq!(state.http_answer(&mut buffer, 0, 3, &b"abcdef".to_vec()), 0);
    assert_eq!(state.http_answer(&mut buffer, 6, 3, &b"abcdef".to_vec()), -1);
}

#[test]
fn answers_of_entries_are_not_trusted() {
    let mem = b"0123456789".to_vec();
    assert_eq!(take_answer(&mem, 4, 2, 3).unwrap(), b"234", "cut to the buffer");
    assert_eq!(take_answer(&mem, 4, 2, 0).unwrap(), b"2345", "no buffer size was set");
    assert_eq!(take_answer(&mem, 0, 2, 3).unwrap(), b"");
    assert_eq!(take_answer(&mem, 4, 0, 3).unwrap(), b"");
    assert_eq!(take_answer(&mem, -3, 2, 3).unwrap_err().message("render_page"), "render_page 返回错误码 -3");
    assert_eq!(take_answer(&mem, 9, 2, 9).unwrap_err().message("on_action"), "响应超出线性内存");
    let mut mem = mem;
    assert_eq!(hand_over(&mut mem, 0, b"x").unwrap_err().message("f"), "__alloc 返回非正指针 0");
    assert_eq!(hand_over(&mut mem, -1, b"x").unwrap_err().message("on_event"), "__alloc 返回了非正指针 -1");
    assert_eq!(hand_over(&mut mem, 9, b"xy").unwrap_err().message("f"), "__alloc 指针 9 超出线性内存");
    assert_eq!(hand_over(&mut mem, 8, b"xy").unwrap(), (8, 2));
    assert_eq!(mem, b"01234567xy");
    assert_eq!(allocation("on_event", 0), 0);
    assert_eq!(allocation("on_event", 17), 17);
    assert_eq!(allocation("render_page", 0), 1);
    assert_eq!(allocation("render_page", 17), 17);
}

// ---------------------------------------------------------------------------
// Registry
// ---------------------------------------------------------------------------

const KV_CALLED_WAT: &str = r#"
(module
  (import "host" "kv_set" (func $kv_set (param i32 i32 i32 i32) (result i32)))
  (memory (export "memory") 1)
  (data (i32.const 1024) "called")
  (data (i32.const 2048) "1")
  (func (export "__alloc") (param $cap i32) (result i32) (i32.const 8192))
  (func (export "on_event") (param i32 i32) (result i32)
    (drop (call $kv_set (i32.const 1024) (i32.const 6) (i32.const 2048) (i32.const 1)))
    (i32.const 0)))"#;

const SPIN_WAT: &str = r#"
(module
  (memory (export "memory") 1)
  (func (export "__alloc") (param i32) (result i32) (i32.const 1024))
  (func (export "on_event") (param i32 i32) (result i32)
    (loop (br 0))
    (i32.const 0)))"#;

fn manifest_of(plugin_id: &str, subscribes: &[&str]) -> String {
    let names: Vec<String> = subscribes.iter().map(|s| format!("\"{s}\"")).collect();
    format!(
        "plugin_id = \"{plugin_id}\"\nname = \"t\"\nversion = \"1\"\nabi_version = 2\nsubscribes = [{}]\n",
        names.join(", ")
    )
}

fn insert(app: &Arc<Mutex<App>>, plugin_id: &str, subscribes: &[&str], wasm: Vec<u8>) -> i64 {
    let mut app = app.lock().unwrap();
    let manifest = manifest_of(plugin_id, subscribes);
    let row = app.db.create_plugin(plugin_id, "t", "1", &manifest, &wasm, "sha").unwrap();
    app.db.set_plugin_enabled(row.id, true).unwrap();
    row.id
}

fn install(app: &Arc<Mutex<App>>, plugin_id: &str, subscribes: &[&str], wasm: Vec<u8>) -> i64 {
    let id = insert(app, plugin_id, subscribes, wasm);
    app.lock().unwrap().enable_plugin(id).unwrap();
    id
}

fn run_one(app: &Arc<Mutex<App>>, id: i64, event: &Event, limits: &CallLimits) -> DispatchEntry {
    let (engine, plugin) = {
        let app = app.lock().unwrap();
        let p = app.plugins.plugin(id).unwrap();
        let plugin = LoadedPlugin { manifest: p.manifest.clone(), module: p.module.clone() };
        (app.plugins.engine().clone(), plugin)
    };
    let outcome = match call_on_event(&engine, app, &plugin, event, limits) {
        Ok(code) => CallOutcome::Returned(code),
        Err(words) => CallOutcome::Failed(words),
    };
    entry_of(now(), &plugin.manifest.plugin_id, event.event_type(), 1, &outcome)
}

fn run_pending(app: &Arc<Mutex<App>>) -> usize {
    let mut runs = 0;
    loop {
        let next: Option<Dispatch> = app.lock().unwrap().plugins.next_dispatch();
        let Some(dispatch) = next else { return runs };
        let entries: Vec<DispatchEntry> = dispatch
            .subscribers
            .iter()
            .map(|id| run_one(app, *id, &dispatch.event, &dispatch.limits))
            .collect();
        app.lock().unwrap().finish_dispatch(&dispatch, &entries);
        runs += 1;
    }
}

fn dispatch(app: &Arc<Mutex<App>>, event: &Event) {
    let mut guard = app.lock().unwrap();
    let App { db, plugins } = &mut *guard;
    plugins.dispatch(db, event);
}

fn snapshot(app: &Arc<Mutex<App>>) -> Vec<DispatchEntry> {
    app.lock().unwrap().plugins.dispatch_log_snapshot()
}

#[test]
fn subscribers_of_the_event_are_dispatched_to() {
    let app = shared_app();
    install(&app, "com.test.a", &["plugin_expiry_soon"], compile(KV_CALLED_WAT));
    install(&app, "com.test.b", &["plugin_expiry_soon"], compile(KV_CALLED_WAT));
    dispatch(&app, &expiry_event());
    run_pending(&app);
    let entries = snapshot(&app);
    assert_eq!(entries.len(), 2);
    for entry in &entries {
        assert_eq!(entry.result, "success", "{entry:?}");
        assert_eq!(entry.event_type, "plugin_expiry_soon");
    }
    let app = app.lock().unwrap();
    assert_eq!(app.db.get("plugin.com.test.a:called").as_deref(), Some("1"));
    assert_eq!(app.db.get("plugin.com.test.b:called").as_deref(), Some("1"));
}

#[test]
fn a_plugin_subscribing_to_other_events_is_skipped() {
    let app = shared_app();
    install(&app, "com.test.a", &["plugin_expiry_soon"], compile(KV_CALLED_WAT));
    install(&app, "com.test.b", &["agent_offline"], compile(KV_CALLED_WAT));
    dispatch(&app, &expiry_event());
    run_pending(&app);
    let entries = snapshot(&app);
    assert_eq!(entries.len(), 1);
    assert_eq!(entries[0].plugin_id, "com.test.a");
    assert_eq!(app.lock().unwrap().db.get("plugin.com.test.b:called"), None);
}

#[test]
fn a_plugin_that_fails_to_load_does_not_block_the_rest() {
    let app = shared_app();
    let bad = insert(&app, "com.test.bad", &["plugin_expiry_soon"], b"\0asm\xde\xad\xbe\xef".to_vec());
    let good = insert(&app, "com.test.good", &["plugin_expiry_soon"], compile(KV_CALLED_WAT));
    app.lock().unwrap().init();
    assert!(!app.lock().unwrap().plugins.is_loaded(bad));
    assert!(app.lock().unwrap().plugins.is_loaded(good));
    let bad_row = app.lock().unwrap().db.get_plugin(bad).unwrap().unwrap();
    assert_eq!(bad_row.status, "failed");
    assert!(bad_row.last_error.unwrap().contains("编译失败"));
    dispatch(&app, &expiry_event());
    run_pending(&app);
    assert_eq!(snapshot(&app).len(), 1);
    assert_eq!(app.lock().unwrap().db.get("plugin.com.test.good:called").as_deref(), Some("1"));
}

#[test]
fn an_event_with_no_subscribers_records_nothing() {
    let app = shared_app();
    install(&app, "com.test.a", &["agent_offline"], compile(KV_CALLED_WAT));
    dispatch(&app, &expiry_event());
    assert_eq!(run_pending(&app), 0);
    assert!(snapshot(&app).is_empty());
    assert_eq!(app.lock().unwrap().plugins.dispatch_count(), 1);
}

#[test]
fn a_runaway_plugin_is_cut_off_by_fuel_at_dispatch() {
    let app = shared_app();
    install(&app, "com.test.spin", &["plugin_expiry_soon"], compile(SPIN_WAT));
    app.lock().unwrap().db.set("plugin.fuel_limit", "10000").unwrap();
    dispatch(&app, &expiry_event());
    run_pending(&app);
    let entries = snapshot(&app);
    assert_eq!(entries[0].result, "fuel_exhausted");
    assert_eq!(entries[0].plugin_id, "com.test.spin");
}

#[test]
fn the_dispatch_log_is_a_ring_of_one_thousand() {
    let app = shared_app();
    let id = install(&app, "com.test.a", &["plugin_expiry_soon"], compile(MINIMAL_WAT));
    for _ in 0..=DISPATCH_LOG_CAP {
        let limits = {
            let app = app.lock().unwrap();
            app.plugins.call_plan(&app.db, id).unwrap()
        };
        let entry = run_one(&app, id, &expiry_event(), &limits);
        assert_eq!(entry.result, "success");
        app.lock().unwrap().plugins.record(entry);
    }
    assert_eq!(snapshot(&app).len(), DISPATCH_LOG_CAP);
}

#[test]
fn the_oldest_record_makes_room() {
    let app = shared_app();
    for i in 0..=DISPATCH_LOG_CAP {
        let entry = entry_of(i as i64, "com.test.a", "plugin_expiry_soon", 1, &CallOutcome::Returned(0));
        app.lock().unwrap().plugins.record(entry);
    }
    let log = snapshot(&app);
    assert_eq!(log.len(), DISPATCH_LOG_CAP);
    assert_eq!((log[0].at, log[DISPATCH_LOG_CAP - 1].at), (1000, 1));
}

#[test]
fn a_stuck_plugin_is_cut_off_by_the_timeout() {
    let app = shared_app();
    install(&app, "com.test.spin", &["plugin_expiry_soon"], compile(SPIN_WAT));
    app.lock().unwrap().db.set("plugin.fuel_limit", "400000000").unwrap();
    app.lock().unwrap().db.set("plugin.timeout_ms", "50").unwrap();
    dispatch(&app, &expiry_event());
    let waiting = app.lock().unwrap().plugins.next_dispatch().unwrap();
    let timeout_ms = waiting.limits.timeout_ms;
    let limits = CallLimits { fuel_limit: waiting.limits.fuel_limit, timeout_ms };
    let runtime = tokio::runtime::Builder::new_multi_thread()
        .worker_threads(2)
        .enable_time()
        .build()
        .unwrap();
    let started = Instant::now();
    let (shared, id) = (app.clone(), waiting.subscribers[0]);
    let ended = runtime.block_on(async move {
        let call = tokio::task::spawn_blocking(move || run_one(&shared, id, &expiry_event(), &limits));
        tokio::time::timeout(Duration::from_millis(timeout_ms), call).await
    });
    assert!(ended.is_err(), "the call is given up");
    let elapsed = started.elapsed().as_millis() as u64;
    let entry =
        entry_of(now(), "com.test.spin", "plugin_expiry_soon", elapsed, &CallOutcome::TimedOut);
    app.lock().unwrap().finish_dispatch(&waiting, &vec![entry]);
    runtime.shutdown_background();
    let entries = snapshot(&app);
    assert_eq!(entries[0].result, "timeout");
    assert!(entries[0].elapsed_ms >= 50, "{entries:?}");
}

#[test]
fn a_fully_successful_dispatch_marks_the_log_row() {
    let app = shared_app();
    install(&app, "com.test.a", &["plugin_expiry_soon"], compile(KV_CALLED_WAT));
    let event = expiry_event();
    let key = event.threshold_or_state_key();
    app.lock().unwrap().db.record_dispatch(event.node_id(), "plugin_expiry_soon", key, 0).unwrap();
    let row = |app: &Arc<Mutex<App>>| {
        app.lock().unwrap().db.notification_log_row(7, "plugin_expiry_soon", key).unwrap().unwrap()
    };
    let (ok, detail) = row(&app);
    assert!(!ok && detail.is_empty());
    dispatch(&app, &event);
    run_pending(&app);
    assert_eq!(row(&app), (true, String::new()));
}

#[test]
fn a_partial_failure_keeps_the_row_unsuccessful_and_names_the_failure() {
    let app = shared_app();
    install(&app, "com.test.good", &["plugin_expiry_soon"], compile(KV_CALLED_WAT));
    install(&app, "com.test.bad", &["plugin_expiry_soon"], compile(SPIN_WAT));
    app.lock().unwrap().db.set("plugin.fuel_limit", "200000").unwrap();
    let event = expiry_event();
    let key = event.threshold_or_state_key();
    app.lock().unwrap().db.record_dispatch(event.node_id(), "plugin_expiry_soon", key, 0).unwrap();
    dispatch(&app, &event);
    run_pending(&app);
    assert_eq!(snapshot(&app).len(), 2);
    let (ok, detail) =
        app.lock().unwrap().db.notification_log_row(7, "plugin_expiry_soon", key).unwrap().unwrap();
    assert!(!ok);
    assert!(detail.contains("com.test.bad: fuel_exhausted"), "{detail}");
    assert!(!detail.contains("com.test.good"), "{detail}");
}

#[test]
fn dispatch_one_returns_the_newest_log_entry() {
    let app = shared_app();
    let id = install(&app, "com.test.a", &["plugin_expiry_soon"], compile(MINIMAL_WAT));
    let limits = {
        let app = app.lock().unwrap();
        app.plugins.call_plan(&app.db, id).unwrap()
    };
    let entry = run_one(&app, id, &expiry_event(), &limits);
    app.lock().unwrap().plugins.record(entry.clone());
    assert_eq!(entry.result, "success");
    assert_eq!(entry.event_type, "plugin_expiry_soon");
    assert_eq!(entry.plugin_id, "com.test.a");
    let snap = snapshot(&app);
    assert_eq!(snap.len(), 1);
    assert_eq!(snap[0].plugin_id, entry.plugin_id);
    assert_eq!(snap[0].result, entry.result);
    assert_eq!(snap[0].elapsed_ms, entry.elapsed_ms);
    let app = app.lock().unwrap();
    let err = app.plugins.call_plan(&app.db, id + 1);
    assert_eq!(err.unwrap_err().message(), format!("插件 {} 未加载", id + 1));
}

#[test]
fn results_have_their_words() {
    assert_eq!(result_text(&CallOutcome::Returned(0)), "success");
    assert_eq!(result_text(&CallOutcome::Returned(-7)), "other:-7");
    assert_eq!(result_text(&CallOutcome::TimedOut), "timeout");
    assert_eq!(result_text(&CallOutcome::Failed("All FUEL consumed".to_string())), "fuel_exhausted");
    assert_eq!(result_text(&CallOutcome::Failed("trap".to_string())), "host_error:trap");
    let long = result_text(&CallOutcome::Failed("e".repeat(501)));
    assert_eq!(long, format!("host_error:{}…", "e".repeat(500)));
    assert_eq!(result_text(&CallOutcome::Crashed("join".to_string())), "host_error:join");
}

#[test]
fn limits_come_from_the_settings() {
    let app = shared_app();
    let id = install(&app, "com.test.a", &["agent_online"], compile(MINIMAL_WAT));
    let limits = |app: &Arc<Mutex<App>>| {
        let app = app.lock().unwrap();
        let l = app.plugins.call_plan(&app.db, id).unwrap();
        (l.fuel_limit, l.timeout_ms)
    };
    assert_eq!(limits(&app), (1_000_000, 5_000));
    app.lock().unwrap().db.set("plugin.fuel_limit", " 42 ").unwrap();
    app.lock().unwrap().db.set("plugin.timeout_ms", "abc").unwrap();
    assert_eq!(limits(&app), (42, 5_000));
    app.lock().unwrap().db.set("plugin.timeout_ms", "+7").unwrap();
    app.lock().unwrap().db.set("plugin.fuel_limit", "18446744073709551616").unwrap();
    assert_eq!(limits(&app), (1_000_000, 7));
    app.lock().unwrap().db.set("plugin.fuel_limit", "18446744073709551615").unwrap();
    assert_eq!(limits(&app).0, u64::MAX);
}

#[test]
fn enabling_and_disabling_move_a_plugin_in_and_out() {
    let app = shared_app();
    let id = install(&app, "com.test.a", &["agent_online"], compile(MINIMAL_WAT));
    assert_eq!(app.lock().unwrap().plugins.manifest_of(id).unwrap().plugin_id, "com.test.a");
    app.lock().unwrap().plugins.disable_plugin(id);
    assert!(!app.lock().unwrap().plugins.is_loaded(id));
    assert!(app.lock().unwrap().plugins.manifest_of(id).is_none());
    app.lock().unwrap().enable_plugin(id).unwrap();
    app.lock().unwrap().plugins.remove_plugin(id);
    app.lock().unwrap().plugins.remove_plugin(id);
    assert!(!app.lock().unwrap().plugins.is_loaded(id));
    let missing = app.lock().unwrap().enable_plugin(99).unwrap_err();
    assert_eq!(missing.message(), "插件 99 不存在");
    let bad = insert(&app, "com.test.bad", &["agent_online"], vec![1, 2, 3]);
    assert!(app.lock().unwrap().enable_plugin(bad).is_err());
    let row = app.lock().unwrap().db.get_plugin(bad).unwrap().unwrap();
    assert_eq!(row.status, "failed");
    assert!(row.last_error.unwrap().starts_with(&format!("插件 {bad}(com.test.bad) 的 wasm 模块编译失败: ")));
}

#[test]
fn the_clock_calls_those_that_declare_it() {
    let app = shared_app();
    let ticking = r#"(module (memory (export "memory") 1)
        (func (export "__alloc") (param i32) (result i32) (i32.const 1024))
        (func (export "on_event") (param i32 i32) (result i32) (i32.const 0))
        (func (export "on_tick") (result i32) (i32.const 0)))"#;
    let id = {
        let mut app = app.lock().unwrap();
        let manifest = format!("{}tick = true\n", manifest_of("com.test.tick", &[]));
        let row = app.db.create_plugin("com.test.tick", "t", "1", &manifest, &compile(ticking), "s").unwrap();
        app.db.set_plugin_enabled(row.id, true).unwrap();
        row.id
    };
    insert(&app, "com.test.still", &["agent_online"], compile(MINIMAL_WAT));
    app.lock().unwrap().init();
    let app = app.lock().unwrap();
    let (ids, limits) = app.plugins.dispatch_ticks(&app.db);
    assert_eq!(ids, vec![id]);
    assert_eq!((limits.fuel_limit, limits.timeout_ms), (1_000_000, 5_000));
    assert_eq!(app.db.get_plugin(id).unwrap().unwrap().status, "enabled");
}

#[test]
fn failures_disable_nothing_and_are_not_sent_again() {
    let app = shared_app();
    let id = install(&app, "com.test.a", &["plugin_expiry_soon"], compile(MINIMAL_WAT));
    for _ in 0..3 {
        dispatch(&app, &expiry_event());
        let mut app = app.lock().unwrap();
        let waiting = app.plugins.next_dispatch().unwrap();
        assert_eq!(waiting.subscribers, vec![id]);
        let entry = entry_of(1, "com.test.a", "plugin_expiry_soon", 1, &CallOutcome::TimedOut);
        app.finish_dispatch(&waiting, &vec![entry]);
        assert!(app.plugins.next_dispatch().is_none());
        assert!(app.plugins.is_loaded(id));
        let row = app.db.get_plugin(id).unwrap().unwrap();
        assert_eq!((row.enabled, row.status.as_str(), row.last_error), (true, "enabled", None));
    }
    assert_eq!(snapshot(&app).len(), 3);
    assert_eq!(snapshot(&app)[0].result, "timeout");
}

#[test]
fn the_clock_shows_a_second_since_the_epoch() {
    let before = std::time::SystemTime::now()
        .duration_since(std::time::SystemTime::UNIX_EPOCH)
        .unwrap()
        .as_secs() as i64;
    let shown = now();
    assert!(0 <= before && before <= shown, "{before} {shown}");
    assert!(shown <= before + 60, "{before} {shown}");
    assert!(shown <= 8_210_266_876_799);
}

#[test]
fn a_round_of_the_clock_is_recorded_as_a_tick() {
    let entry = tick_entry(9, "com.test.tick", 3, &CallOutcome::Returned(2));
    assert_eq!((entry.at, entry.plugin_id.as_str(), entry.elapsed_ms), (9, "com.test.tick", 3));
    assert_eq!((entry.event_type.as_str(), entry.result.as_str()), ("tick", "other:2"));
}

#[test]
fn a_module_belongs_to_the_engine_that_loads_it() {
    let (one, other) = (small_engine(), small_engine());
    let plugin = load(&one, &row(compile(MINIMAL_WAT))).ok().unwrap();
    assert!(wasmtime::Engine::same(plugin.module.engine(), &one));
    assert!(!wasmtime::Engine::same(plugin.module.engine(), &other));
    let app = shared_app();
    let id = install(&app, "com.test.a", &["agent_online"], compile(MINIMAL_WAT));
    app.lock().unwrap().init();
    let app = app.lock().unwrap();
    let module = &app.plugins.plugin(id).unwrap().module;
    assert!(wasmtime::Engine::same(module.engine(), app.plugins.engine()));
}

#[test]
fn enabling_a_row_again_takes_its_new_code() {
    let app = shared_app();
    let id = install(&app, "com.test.a", &["plugin_expiry_soon"], compile(MINIMAL_WAT));
    app.lock().unwrap().db.delete_plugin(id).unwrap();
    let changed = MINIMAL_WAT.replace("(result i32) (i32.const 0)))", "(result i32) (i32.const 5)))");
    assert_ne!(changed, MINIMAL_WAT);
    assert_eq!(insert(&app, "com.test.a", &["plugin_expiry_soon"], compile(&changed)), id);
    assert_eq!(run_one(&app, id, &expiry_event(), &defaults()).result, "success", "the old code");
    app.lock().unwrap().enable_plugin(id).unwrap();
    assert_eq!(run_one(&app, id, &expiry_event(), &defaults()).result, "other:5");
}
