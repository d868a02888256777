//! The functions that the hub offers to plugins. Each works on the plugin's
//! memory and the hub's state and answers with a code: a negative one is an
//! error.
//!
//! | code | meaning |
//! |---|---|
//! | -1 | out of bounds, no UTF-8, a value that is too large, no allocator |
//! | -2 | the URL is not `https://`, or a setting could not be stored |
//! | -3 | the method is not `POST` |
//! | -4 | the network failed, or the time of the call ran out |
//! | -5 | the answer is no success |
//! | -6 | a record or all records of the plugin are too large |
//! | -7 | the event's name does not begin with `plugin_` |
//! | -8 | the database failed |
//! | -9 | the target is a private or reserved address |

use vstd::prelude::*;
use vstd::slice::slice_subrange;
use vstd::string::*;
use vstd::utf8::*;

use crate::db::{
    data_pairs, kv_prefix, kv_prefix_text, pair_texts, with_record, DataModel, Db, DbModel,
};
use crate::hub::{App, AppModel};
use crate::json::{array, array_json, boolean, boolean_text, object, object_json, quoted};
use crate::notification_bus::{emit_at, emitted, payload_in, Event, EventModel, Payload};
use crate::outside::{clock_second, quote, utc_now};
use crate::text::{byte_len, decimal_i64, same_text, starts_with, texts};

use super::http::{ERR_NETWORK, ERR_URL, HTTP_RESP_MAX};
use super::log::{LogModel, LogSink};
use super::manifest::{is_plugin_event, plugin_event};
use super::memory::{
    copied_out, copy_out, guest_bytes, guest_text, read_mem, read_text, writable, write_mem,
    written, ERR_BOUNDS,
};

verus! {

broadcast use vstd::seq_lib::group_seq_properties;

/// The most bytes of a setting that a plugin stores.
pub const KV_VALUE_MAX: usize = 8_192;

/// The most bytes of one record.
pub const RECORD_MAX: usize = 262_144;

/// The most bytes of all records of one plugin.
pub const PLUGIN_DATA_MAX: i64 = 16_777_216;

/// A record or all records of a plugin are too large.
pub const ERR_QUOTA: i32 = -6;

/// The database failed.
pub const ERR_DB: i32 = -8;

/// A setting could not be stored.
pub const ERR_KV: i32 = -2;

/// The method is not `POST`.
pub const ERR_METHOD: i32 = -3;

/// The event's name does not begin with `plugin_`.
pub const ERR_EVENT_NAME: i32 = -7;

/// What the hub keeps of one call of a plugin.
pub struct PluginState {
    /// Whose settings and records the call works on.
    pub plugin_id: String,
    /// The buffer that the plugin last had allocated for answers, 0 for none.
    pub resp_ptr: i32,
    pub resp_cap: i32,
}

impl PluginState {
    /// The state at the start of a call.
    pub fn new(plugin_id: &str) -> (r: PluginState)
        ensures
            r.plugin_id@ == plugin_id@,
            r.resp_ptr == 0,
            r.resp_cap == 0,
    {
        PluginState { plugin_id: plugin_id.to_owned(), resp_ptr: 0, resp_cap: 0 }
    }
}

/// The current Unix time in seconds: some second since the epoch, as the system
/// clock has it.
pub fn now() -> (r: i64)
    ensures
        clock_second(r),
{
    utc_now()
}

// ---------------------------------------------------------------------------
// Log
// ---------------------------------------------------------------------------

/// The log after a call of the plugin's log function: a bad range and an empty
/// text leave it as it is.
pub open spec fn logged(log: LogModel, text: Option<Seq<char>>) -> LogModel {
    match text {
        Some(s) => if s.len() == 0 {
            log
        } else {
            log.pushed(s)
        },
        None => log,
    }
}

/// Keeps a line that a plugin logs, and returns it for the hub's own log.
/// `None` where the plugin passed a bad range: that is the hub's to say, and
/// does not go among the plugin's lines.
pub fn host_log(sink: &mut LogSink, mem: &[u8], ptr: i32, len: i32) -> (r: Option<String>)
    requires
        old(sink)@.wf(),
    ensures
        final(sink)@.wf(),
        crate::db::opt_text(r) == guest_text(mem@, ptr, len),
        final(sink)@ == logged(old(sink)@, guest_text(mem@, ptr, len)),
{
    match read_text(mem, ptr, len) {
        Some(text) => {
            if !text.as_str().is_empty() {
                sink.push(text.as_str());
            }
            Some(text)
        },
        None => None,
    }
}

// ---------------------------------------------------------------------------
// Answers
// ---------------------------------------------------------------------------

/// Into which buffer an answer goes and how many of its bytes: the buffer that
/// the plugin names, or the one it had allocated last; no more than the buffer
/// and `max` hold. `None` where there is no buffer.
pub open spec fn write_plan(
    resp_ptr: i32,
    resp_cap: i32,
    last: (i32, i32),
    len: int,
    max: int,
) -> Option<(i32, int)> {
    let (ptr, cap) = if resp_ptr > 0 {
        (resp_ptr, resp_cap)
    } else {
        last
    };
    if ptr <= 0 || cap < 0 {
        None
    } else {
        let room = if cap <= max {
            cap as int
        } else {
            max
        };
        Some(
            (
                ptr,
                if len <= room {
                    len
                } else {
                    room
                },
            ),
        )
    }
}

/// Plans where an answer goes, within `max` bytes.
pub fn resp_write_plan_capped(
    resp_ptr: i32,
    resp_cap: i32,
    last: (i32, i32),
    bytes_len: usize,
    max: usize,
) -> (r: Option<(i32, usize)>)
    ensures
        match r {
            Some((ptr, n)) => write_plan(resp_ptr, resp_cap, last, bytes_len as int, max as int)
                == Some((ptr, n as int)),
            None => write_plan(resp_ptr, resp_cap, last, bytes_len as int, max as int) is None,
        },
{
    let (ptr, cap): (i32, i32) = if resp_ptr > 0 {
        (resp_ptr, resp_cap)
    } else {
        last
    };
    if ptr <= 0 || cap < 0 {
        return None;
    }
    let room: usize = if cap as usize <= max {
        cap as usize
    } else {
        max
    };
    Some(
        (
            ptr,
            if bytes_len <= room {
                bytes_len
            } else {
                room
            },
        ),
    )
}

/// Plans where the answer to a request goes.
pub fn resp_write_plan(resp_ptr: i32, resp_cap: i32, last: (i32, i32), bytes_len: usize) -> (r:
    Option<(i32, usize)>)
    ensures
        match r {
            Some((ptr, n)) => write_plan(
                resp_ptr,
                resp_cap,
                last,
                bytes_len as int,
                HTTP_RESP_MAX as int,
            ) == Some((ptr, n as int)),
            None => write_plan(
                resp_ptr,
                resp_cap,
                last,
                bytes_len as int,
                HTTP_RESP_MAX as int,
            ) is None,
        },
{
    resp_write_plan_capped(resp_ptr, resp_cap, last, bytes_len, HTTP_RESP_MAX)
}

/// The code of an answer that is cut to its buffer, and the memory after it.
pub open spec fn answered_cut(
    mem: Seq<u8>,
    resp_ptr: i32,
    resp_cap: i32,
    last: (i32, i32),
    bytes: Seq<u8>,
) -> (i32, Seq<u8>) {
    match write_plan(resp_ptr, resp_cap, last, bytes.len() as int, HTTP_RESP_MAX as int) {
        None => (0, mem),
        Some((ptr, n)) => if writable(mem, ptr, bytes.take(n)) {
            (n as i32, written(mem, ptr, bytes.take(n)))
        } else {
            (ERR_BOUNDS, mem)
        },
    }
}

/// The code of an answer that is given whole or not at all, and the memory
/// after it. A cut JSON text would read as an empty list, and an empty list
/// means something else.
pub open spec fn answered_whole(
    mem: Seq<u8>,
    out_ptr: i32,
    out_cap: i32,
    last: (i32, i32),
    bytes: Seq<u8>,
) -> (i32, Seq<u8>) {
    match write_plan(out_ptr, out_cap, last, bytes.len() as int, PLUGIN_DATA_MAX as int) {
        None => (0, mem),
        Some((ptr, n)) => if n < bytes.len() {
            (ERR_QUOTA, mem)
        } else if writable(mem, ptr, bytes) {
            (n as i32, written(mem, ptr, bytes))
        } else {
            (ERR_BOUNDS, mem)
        },
    }
}

impl PluginState {
    fn answer_whole(&self, mem: &mut [u8], out_ptr: i32, out_cap: i32, text: &str) -> (r: i32)
        ensures
            (r, final(mem)@) == answered_whole(
                old(mem)@,
                out_ptr,
                out_cap,
                (self.resp_ptr, self.resp_cap),
                encode_utf8(text@),
            ),
    {
        let bytes = text.as_bytes();
        let last: (i32, i32) = (self.resp_ptr, self.resp_cap);
        match resp_write_plan_capped(out_ptr, out_cap, last, bytes.len(), PLUGIN_DATA_MAX as usize) {
            None => 0,
            Some((ptr, n)) => {
                if n < bytes.len() {
                    return ERR_QUOTA;
                }
                if !write_mem(mem, ptr, bytes) {
                    return ERR_BOUNDS;
                }
                n as i32
            },
        }
    }

    /// Gives the body of an answer to the plugin, cut to its buffer.
    pub fn http_answer(&self, mem: &mut [u8], resp_ptr: i32, resp_cap: i32, body: &Vec<u8>) -> (r:
        i32)
        ensures
            (r, final(mem)@) == answered_cut(
                old(mem)@,
                resp_ptr,
                resp_cap,
                (self.resp_ptr, self.resp_cap),
                body@,
            ),
    {
        let last: (i32, i32) = (self.resp_ptr, self.resp_cap);
        match resp_write_plan(resp_ptr, resp_cap, last, body.len()) {
            None => 0,
            Some((ptr, n)) => {
                let front = slice_subrange(body.as_slice(), 0, n);
                assert(front@ =~= body@.take(n as int));
                if !write_mem(mem, ptr, front) {
                    return ERR_BOUNDS;
                }
                n as i32
            },
        }
    }

    /// Whether the plugin's allocator is to be asked for an answer buffer.
    pub fn resp_alloc_wanted(cap: i32) -> (r: bool)
        ensures
            r == (cap > 0),
    {
        cap > 0
    }

    /// Takes in the answer of the plugin's allocator: `None` where it is
    /// missing or failed.
    pub fn resp_alloc(&mut self, cap: i32, allocated: Option<i32>) -> (r: i32)
        ensures
            final(self).plugin_id@ == old(self).plugin_id@,
            match allocated {
                Some(ptr) if cap > 0 && ptr > 0 => {
                    &&& r == ptr
                    &&& final(self).resp_ptr == ptr
                    &&& final(self).resp_cap == cap
                },
                _ => {
                    &&& r == ERR_BOUNDS
                    &&& final(self).resp_ptr == old(self).resp_ptr
                    &&& final(self).resp_cap == old(self).resp_cap
                },
            },
    {
        if cap <= 0 {
            return ERR_BOUNDS;
        }
        match allocated {
            Some(ptr) => {
                if ptr > 0 {
                    self.resp_ptr = ptr;
                    self.resp_cap = cap;
                    ptr
                } else {
                    ERR_BOUNDS
                }
            },
            None => ERR_BOUNDS,
        }
    }
}

// ---------------------------------------------------------------------------
// Settings
// ---------------------------------------------------------------------------

/// The name under which a plugin's setting is stored.
pub open spec fn setting_name(plugin_id: Seq<char>, key: Seq<char>) -> Seq<char> {
    kv_prefix(plugin_id) + key
}

fn setting_name_text(plugin_id: &str, key: &str) -> (r: String)
    ensures
        r@ == setting_name(plugin_id@, key@),
{
    let mut r = kv_prefix_text(plugin_id);
    r.append(key);
    r
}

/// The code of a read of a setting, and the memory after it.
pub open spec fn kv_got(
    settings: Map<Seq<char>, Seq<char>>,
    plugin_id: Seq<char>,
    expired: bool,
    mem: Seq<u8>,
    key: Option<Seq<char>>,
    out_ptr: i32,
    out_cap: i32,
) -> (i32, Seq<u8>) {
    match key {
        Some(k) if !expired => if settings.contains_key(setting_name(plugin_id, k)) {
            copied_out(mem, settings[setting_name(plugin_id, k)], out_ptr, out_cap)
        } else {
            (0, mem)
        },
        _ => (ERR_BOUNDS, mem),
    }
}

/// The code of a write of a setting, and the database after it.
pub open spec fn kv_put(
    db: DbModel,
    plugin_id: Seq<char>,
    key: Option<Seq<char>>,
    value: Option<Seq<char>>,
) -> (i32, DbModel) {
    match (key, value) {
        (Some(k), Some(v)) => if encode_utf8(v).len() > KV_VALUE_MAX {
            (ERR_BOUNDS, db)
        } else {
            (0, DbModel { settings: db.settings.insert(setting_name(plugin_id, k), v), ..db })
        },
        _ => (ERR_BOUNDS, db),
    }
}

impl PluginState {
    /// Reads one of the plugin's settings into its memory, cut to `out_cap`
    /// bytes on a character boundary. 0 where there is none. A call whose time
    /// ran out gets an error, so that a loop around this function ends.
    pub fn kv_get(
        &self,
        db: &Db,
        expired: bool,
        mem: &mut [u8],
        key_ptr: i32,
        key_len: i32,
        out_ptr: i32,
        out_cap: i32,
    ) -> (r: i32)
        requires
            db.wf(),
        ensures
            (r, final(mem)@) == kv_got(
                db@.settings,
                self.plugin_id@,
                expired,
                old(mem)@,
                guest_text(old(mem)@, key_ptr, key_len),
                out_ptr,
                out_cap,
            ),
    {
        if expired {
            return ERR_BOUNDS;
        }
        let key = match read_text(mem, key_ptr, key_len) {
            Some(key) => key,
            None => {
                return ERR_BOUNDS;
            },
        };
        let name = setting_name_text(self.plugin_id.as_str(), key.as_str());
        match db.get(name.as_str()) {
            Some(value) => copy_out(mem, value.as_str(), out_ptr, out_cap),
            None => 0,
        }
    }

    /// Stores one of the plugin's settings.
    pub fn kv_set(
        &self,
        db: &mut Db,
        mem: &[u8],
        key_ptr: i32,
        key_len: i32,
        val_ptr: i32,
        val_len: i32,
    ) -> (r: i32)
        requires
            old(db).wf(),
        ensures
            final(db).wf(),
            (r, final(db)@) == kv_put(
                old(db)@,
                self.plugin_id@,
                guest_text(mem@, key_ptr, key_len),
                guest_text(mem@, val_ptr, val_len),
            ),
    {
        let key = match read_text(mem, key_ptr, key_len) {
            Some(key) => key,
            None => {
                return ERR_BOUNDS;
            },
        };
        let value = match read_text(mem, val_ptr, val_len) {
            Some(value) => value,
            None => {
                return ERR_BOUNDS;
            },
        };
        if byte_len(value.as_str()) > KV_VALUE_MAX {
            return ERR_BOUNDS;
        }
        let name = setting_name_text(self.plugin_id.as_str(), key.as_str());
        match db.set(name.as_str(), value.as_str()) {
            Ok(()) => 0,
            Err(_) => ERR_KV,
        }
    }
}

// ---------------------------------------------------------------------------
// Requests
// ---------------------------------------------------------------------------

/// A request that a plugin may make.
pub struct HttpRequest {
    pub url: String,
    /// The body of a `POST`; a request without one is a `GET`.
    pub body: Option<Vec<u8>>,
    /// The most bytes that are taken of the answer.
    pub download_cap: usize,
}

/// The most bytes that are taken of an answer: what its buffer holds, and
/// without a buffer what is taken of any answer.
pub open spec fn download_cap(resp_ptr: i32, resp_cap: i32, last: (i32, i32)) -> int {
    match write_plan(resp_ptr, resp_cap, last, usize::MAX as int, HTTP_RESP_MAX as int) {
        Some((_, n)) => n,
        None => HTTP_RESP_MAX as int,
    }
}

/// What is wrong with a `POST`, in the order in which it is looked for.
pub open spec fn post_refusal(
    method: Option<Seq<char>>,
    url: Option<Seq<char>>,
    body: Option<Seq<u8>>,
    expired: bool,
) -> Option<i32> {
    if method is None || url is None || body is None {
        Some(ERR_BOUNDS)
    } else if expired {
        Some(ERR_NETWORK)
    } else if method->0 != "POST"@ {
        Some(ERR_METHOD)
    } else if !"https://"@.is_prefix_of(url->0) {
        Some(ERR_URL)
    } else {
        None
    }
}

/// What is wrong with a `GET`, in the order in which it is looked for.
pub open spec fn get_refusal(url: Option<Seq<char>>, expired: bool) -> Option<i32> {
    if url is None {
        Some(ERR_BOUNDS)
    } else if expired {
        Some(ERR_NETWORK)
    } else if !"https://"@.is_prefix_of(url->0) {
        Some(ERR_URL)
    } else {
        None
    }
}

impl PluginState {
    fn capacity(&self, resp_ptr: i32, resp_cap: i32) -> (r: usize)
        ensures
            r == download_cap(resp_ptr, resp_cap, (self.resp_ptr, self.resp_cap)),
    {
        let last: (i32, i32) = (self.resp_ptr, self.resp_cap);
        match resp_write_plan(resp_ptr, resp_cap, last, usize::MAX) {
            Some((_, n)) => n,
            None => HTTP_RESP_MAX,
        }
    }

    /// The `POST` that a plugin asks for, or the code with which it is refused.
    /// Nothing goes out before all of it was looked at.
    pub fn http_post(
        &self,
        expired: bool,
        mem: &[u8],
        method_ptr: i32,
        method_len: i32,
        url_ptr: i32,
        url_len: i32,
        body_ptr: i32,
        body_len: i32,
        resp_ptr: i32,
        resp_cap: i32,
    ) -> (r: Result<HttpRequest, i32>)
        ensures
            ({
                let url = guest_text(mem@, url_ptr, url_len);
                let body = guest_bytes(mem@, body_ptr, body_len);
                let refusal = post_refusal(
                    guest_text(mem@, method_ptr, method_len),
                    url,
                    body,
                    expired,
                );
                match r {
                    Ok(request) => {
                        &&& refusal is None
                        &&& url == Some(request.url@)
                        &&& request.body matches Some(b) && body == Some(b@)
                        &&& request.download_cap == download_cap(
                            resp_ptr,
                            resp_cap,
                            (self.resp_ptr, self.resp_cap),
                        )
                    },
                    Err(code) => refusal == Some(code),
                }
            }),
    {
        let method = match read_text(mem, method_ptr, method_len) {
            Some(method) => method,
            None => {
                return Err(ERR_BOUNDS);
            },
        };
        let url = match read_text(mem, url_ptr, url_len) {
            Some(url) => url,
            None => {
                return Err(ERR_BOUNDS);
            },
        };
        let body = match read_mem(mem, body_ptr, body_len) {
            Some(body) => body,
            None => {
                return Err(ERR_BOUNDS);
            },
        };
        if expired {
            return Err(ERR_NETWORK);
        }
        if !same_text(method.as_str(), "POST") {
            return Err(ERR_METHOD);
        }
        if !starts_with(url.as_str(), "https://") {
            return Err(ERR_URL);
        }
        Ok(
            HttpRequest {
                url,
                body: Some(body),
                download_cap: self.capacity(resp_ptr, resp_cap),
            },
        )
    }

    /// The `GET` that a plugin asks for, or the code with which it is refused.
    pub fn http_get(
        &self,
        expired: bool,
        mem: &[u8],
        url_ptr: i32,
        url_len: i32,
        resp_ptr: i32,
        resp_cap: i32,
    ) -> (r: Result<HttpRequest, i32>)
        ensures
            ({
                let url = guest_text(mem@, url_ptr, url_len);
                let refusal = get_refusal(url, expired);
                match r {
                    Ok(request) => {
                        &&& refusal is None
                        &&& url == Some(request.url@)
                        &&& request.body is None
                        &&& request.download_cap == download_cap(
                            resp_ptr,
                            resp_cap,
                            (self.resp_ptr, self.resp_cap),
                        )
                    },
                    Err(code) => refusal == Some(code),
                }
            }),
    {
        let url = match read_text(mem, url_ptr, url_len) {
            Some(url) => url,
            None => {
                return Err(ERR_BOUNDS);
            },
        };
        if expired {
            return Err(ERR_NETWORK);
        }
        if !starts_with(url.as_str(), "https://") {
            return Err(ERR_URL);
        }
        Ok(HttpRequest { url, body: None, download_cap: self.capacity(resp_ptr, resp_cap) })
    }
}

// ---------------------------------------------------------------------------
// Nodes
// ---------------------------------------------------------------------------

/// A node as plugins see it.
pub struct Node {
    pub id: i64,
    pub name: String,
}

/// What a node says, and whether it is online.
pub open spec fn node_json(id: i64, name: Seq<char>, online: bool) -> Seq<char> {
    object_json(
        seq![
            ("id"@, crate::text::signed_decimal(id as int)),
            ("name"@, quoted(name)),
            ("online"@, boolean(online)),
        ],
    )
}

/// The nodes as JSON. A node is online where it is among `online`.
pub open spec fn nodes_json(nodes: Seq<Node>, online: Seq<i64>) -> Seq<char> {
    array_json(
        Seq::new(
            nodes.len(),
            |i: int| node_json(nodes[i].id, nodes[i].name@, online.contains(nodes[i].id)),
        ),
    )
}

fn is_online(online: &Vec<i64>, id: i64) -> (r: bool)
    ensures
        r == online@.contains(id),
{
    let mut i: usize = 0;
    while i < online.len()
        invariant
            i <= online@.len(),
            forall|j: int| 0 <= j < i ==> #[trigger] online@[j] != id,
        decreases online@.len() - i,
    {
        if online[i] == id {
            return true;
        }
        i = i + 1;
    }
    false
}

/// Writes the nodes as JSON.
pub fn nodes_text(nodes: &Vec<Node>, online: &Vec<i64>) -> (r: String)
    ensures
        r@ == nodes_json(nodes@, online@),
{
    let mut elements: Vec<String> = Vec::new();
    let ghost whole = Seq::new(
        nodes@.len(),
        |i: int| node_json(nodes@[i].id, nodes@[i].name@, online@.contains(nodes@[i].id)),
    );
    let mut i: usize = 0;
    while i < nodes.len()
        invariant
            i <= nodes@.len(),
            whole == Seq::new(
                nodes@.len(),
                |i: int| node_json(nodes@[i].id, nodes@[i].name@, online@.contains(nodes@[i].id)),
            ),
            elements@.len() == i,
            forall|j: int| 0 <= j < i ==> (#[trigger] elements@[j])@ == whole[j],
        decreases nodes@.len() - i,
    {
        let node = &nodes[i];
        let mut members: Vec<(String, String)> = Vec::new();
        members.push(("id".to_owned(), decimal_i64(node.id)));
        members.push(("name".to_owned(), quote(node.name.as_str())));
        members.push(("online".to_owned(), boolean_text(is_online(online, node.id))));
        assert(crate::json::member_models(members@) =~= seq![
            ("id"@, crate::text::signed_decimal(node.id as int)),
            ("name"@, quoted(node.name@)),
            ("online"@, boolean(online@.contains(node.id))),
        ]);
        elements.push(object(&members));
        i = i + 1;
    }
    assert(texts(elements@) =~= whole);
    array(&elements)
}

impl PluginState {
    /// Gives the nodes to the plugin: id, name and whether they are online.
    pub fn nodes_query(
        &self,
        nodes: &Vec<Node>,
        online: &Vec<i64>,
        expired: bool,
        mem: &mut [u8],
        out_ptr: i32,
        out_cap: i32,
    ) -> (r: i32)
        ensures
            (r, final(mem)@) == (if expired {
                (ERR_NETWORK, old(mem)@)
            } else {
                answered_whole(
                    old(mem)@,
                    out_ptr,
                    out_cap,
                    (self.resp_ptr, self.resp_cap),
                    encode_utf8(nodes_json(nodes@, online@)),
                )
            }),
    {
        if expired {
            return ERR_NETWORK;
        }
        let text = nodes_text(nodes, online);
        self.answer_whole(mem, out_ptr, out_cap, text.as_str())
    }
}

// ---------------------------------------------------------------------------
// Events
// ---------------------------------------------------------------------------

/// The code of an emission by a plugin at the second `now`, and the hub after
/// it.
pub open spec fn plugin_emitted(
    before: AppModel,
    name: Option<Seq<char>>,
    payload: Option<Seq<char>>,
    now: i64,
) -> (i32, AppModel) {
    if name is None || payload is None {
        (ERR_BOUNDS, before)
    } else if !is_plugin_event(name->0) {
        (ERR_EVENT_NAME, before)
    } else {
        match payload_in(payload->0) {
            None => (ERR_BOUNDS, before),
            Some(members) => (
                0,
                emitted(before, EventModel::Plugin { name: name->0, payload: members }, now),
            ),
        }
    }
}

/// Emits an event of a plugin. Its name has to begin with `plugin_`, its
/// payload to be JSON.
pub fn emit_event(
    app: &mut App,
    mem: &[u8],
    name_ptr: i32,
    name_len: i32,
    payload_ptr: i32,
    payload_len: i32,
) -> (r: i32)
    requires
        old(app).wf(),
    ensures
        final(app).wf(),
        exists|now: i64|
            clock_second(now) && (r, final(app)@) == #[trigger] plugin_emitted(
                old(app)@,
                guest_text(mem@, name_ptr, name_len),
                guest_text(mem@, payload_ptr, payload_len),
                now,
            ),
{
    let now: i64 = utc_now();
    emit_event_at(app, mem, name_ptr, name_len, payload_ptr, payload_len, now)
}

/// Emits an event of a plugin at the second `now`.
pub fn emit_event_at(
    app: &mut App,
    mem: &[u8],
    name_ptr: i32,
    name_len: i32,
    payload_ptr: i32,
    payload_len: i32,
    now: i64,
) -> (r: i32)
    requires
        old(app).wf(),
    ensures
        final(app).wf(),
        (r, final(app)@) == plugin_emitted(
            old(app)@,
            guest_text(mem@, name_ptr, name_len),
            guest_text(mem@, payload_ptr, payload_len),
            now,
        ),
{
    let name = match read_text(mem, name_ptr, name_len) {
        Some(name) => name,
        None => {
            return ERR_BOUNDS;
        },
    };
    let text = match read_text(mem, payload_ptr, payload_len) {
        Some(text) => text,
        None => {
            return ERR_BOUNDS;
        },
    };
    if !plugin_event(name.as_str()) {
        return ERR_EVENT_NAME;
    }
    let payload = match Payload::parse(text.as_str()) {
        Some(payload) => payload,
        None => {
            return ERR_BOUNDS;
        },
    };
    let event = Event::Plugin { name, payload };
    match emit_at(app, &event, now) {
        Ok(()) => 0,
        Err(_) => ERR_DB,
    }
}

// ---------------------------------------------------------------------------
// Records
// ---------------------------------------------------------------------------

/// The code of a write of a record at the second `now`, with the database
/// before and after it.
pub open spec fn data_stored(
    before: DbModel,
    plugin_id: Seq<char>,
    key: Option<Seq<char>>,
    value: Option<Seq<char>>,
    now: i64,
    r: i32,
    after: DbModel,
) -> bool {
    if key is None || value is None {
        r == ERR_BOUNDS && after == before
    } else if (key->0).len() == 0 || encode_utf8(value->0).len() > RECORD_MAX {
        r == ERR_QUOTA && after == before
    } else if !crate::db::usage_fits(before.data, plugin_id) {
        r == ERR_DB && after == before
    } else if crate::db::bytes_after_put(before.data, plugin_id, key->0, value->0)
        > PLUGIN_DATA_MAX {
        r == ERR_QUOTA && after == before
    } else {
        r == 0 && after == with_record(before, plugin_id, key->0, value->0, now)
    }
}

/// The code of a read of a record, and the memory after it.
pub open spec fn data_got(
    data: Map<(Seq<char>, Seq<char>), DataModel>,
    plugin_id: Seq<char>,
    mem: Seq<u8>,
    key: Option<Seq<char>>,
    out_ptr: i32,
    out_cap: i32,
) -> (i32, Seq<u8>) {
    match key {
        None => (ERR_BOUNDS, mem),
        Some(k) => if data.contains_key((plugin_id, k)) {
            copied_out(mem, data[(plugin_id, k)].data, out_ptr, out_cap)
        } else {
            (0, mem)
        },
    }
}

/// The code of a deletion of a record, and the database after it.
pub open spec fn data_deleted(db: DbModel, plugin_id: Seq<char>, key: Option<Seq<char>>) -> (
    i32,
    DbModel,
) {
    match key {
        None => (ERR_BOUNDS, db),
        Some(k) => (0, DbModel { data: db.data.remove((plugin_id, k)), ..db }),
    }
}

/// One record in a listing.
pub open spec fn record_json(pair: (Seq<char>, Seq<char>)) -> Seq<char> {
    object_json(seq![("data"@, quoted(pair.1)), ("key"@, quoted(pair.0))])
}

/// A listing of records.
pub open spec fn records_json(pairs: Seq<(Seq<char>, Seq<char>)>) -> Seq<char> {
    array_json(pairs.map_values(|p: (Seq<char>, Seq<char>)| record_json(p)))
}

fn records_text(pairs: &Vec<(String, String)>) -> (r: String)
    ensures
        r@ == records_json(pair_texts(pairs@)),
{
    let ghost models = pair_texts(pairs@);
    let ghost f = |p: (Seq<char>, Seq<char>)| record_json(p);
    let mut elements: Vec<String> = Vec::new();
    let mut i: usize = 0;
    while i < pairs.len()
        invariant
            i <= pairs@.len(),
            models == pair_texts(pairs@),
            elements@.len() == i,
            forall|j: int| 0 <= j < i ==> (#[trigger] elements@[j])@ == record_json(models[j]),
        decreases pairs@.len() - i,
    {
        let mut members: Vec<(String, String)> = Vec::new();
        members.push(("data".to_owned(), quote(pairs[i].1.as_str())));
        members.push(("key".to_owned(), quote(pairs[i].0.as_str())));
        assert(crate::json::member_models(members@) =~= seq![
            ("data"@, quoted(models[i as int].1)),
            ("key"@, quoted(models[i as int].0)),
        ]);
        elements.push(object(&members));
        i = i + 1;
    }
    assert(texts(elements@) =~= models.map_values(f));
    array(&elements)
}

impl PluginState {
    /// Stores one of the plugin's records, within the bounds of one record and
    /// of all the plugin's records.
    pub fn data_put(
        &self,
        db: &mut Db,
        mem: &[u8],
        key_ptr: i32,
        key_len: i32,
        val_ptr: i32,
        val_len: i32,
    ) -> (r: i32)
        requires
            old(db).wf(),
        ensures
            final(db).wf(),
            exists|now: i64|
                clock_second(now) && #[trigger] data_stored(
                    old(db)@,
                    self.plugin_id@,
                    guest_text(mem@, key_ptr, key_len),
                    guest_text(mem@, val_ptr, val_len),
                    now,
                    r,
                    final(db)@,
                ),
    {
        let now: i64 = utc_now();
        self.data_put_at(db, mem, key_ptr, key_len, val_ptr, val_len, now)
    }

    /// Stores one of the plugin's records at the second `now`.
    pub fn data_put_at(
        &self,
        db: &mut Db,
        mem: &[u8],
        key_ptr: i32,
        key_len: i32,
        val_ptr: i32,
        val_len: i32,
        now: i64,
    ) -> (r: i32)
        requires
            old(db).wf(),
        ensures
            final(db).wf(),
            data_stored(
                old(db)@,
                self.plugin_id@,
                guest_text(mem@, key_ptr, key_len),
                guest_text(mem@, val_ptr, val_len),
                now,
                r,
                final(db)@,
            ),
    {
        let key = match read_text(mem, key_ptr, key_len) {
            Some(key) => key,
            None => {
                return ERR_BOUNDS;
            },
        };
        let value = match read_text(mem, val_ptr, val_len) {
            Some(value) => value,
            None => {
                return ERR_BOUNDS;
            },
        };
        if key.as_str().is_empty() || byte_len(value.as_str()) > RECORD_MAX {
            return ERR_QUOTA;
        }
        match db.plugin_data_put_within_quota_at(
            self.plugin_id.as_str(),
            key.as_str(),
            value.as_str(),
            PLUGIN_DATA_MAX,
            now,
        ) {
            Ok(Some(_)) => 0,
            Ok(None) => ERR_QUOTA,
            Err(_) => ERR_DB,
        }
    }

    /// Reads one of the plugin's records into its memory, cut to `out_cap`
    /// bytes on a character boundary. 0 where there is none.
    pub fn data_get(
        &self,
        db: &Db,
        mem: &mut [u8],
        key_ptr: i32,
        key_len: i32,
        out_ptr: i32,
        out_cap: i32,
    ) -> (r: i32)
        requires
            db.wf(),
        ensures
            (r, final(mem)@) == data_got(
                db@.data,
                self.plugin_id@,
                old(mem)@,
                guest_text(old(mem)@, key_ptr, key_len),
                out_ptr,
                out_cap,
            ),
    {
        let key = match read_text(mem, key_ptr, key_len) {
            Some(key) => key,
            None => {
                return ERR_BOUNDS;
            },
        };
        match db.plugin_data_get(self.plugin_id.as_str(), key.as_str()) {
            Ok(Some(value)) => copy_out(mem, value.as_str(), out_ptr, out_cap),
            _ => 0,
        }
    }

    /// Deletes one of the plugin's records. A record that is not there is no
    /// error.
    pub fn data_delete(&self, db: &mut Db, mem: &[u8], key_ptr: i32, key_len: i32) -> (r: i32)
        requires
            old(db).wf(),
        ensures
            final(db).wf(),
            (r, final(db)@) == data_deleted(
                old(db)@,
                self.plugin_id@,
                guest_text(mem@, key_ptr, key_len),
            ),
    {
        let key = match read_text(mem, key_ptr, key_len) {
            Some(key) => key,
            None => {
                return ERR_BOUNDS;
            },
        };
        match db.plugin_data_delete(self.plugin_id.as_str(), key.as_str()) {
            Ok(_) => 0,
            Err(_) => ERR_DB,
        }
    }

    /// Gives the plugin its records whose keys begin with a prefix.
    pub fn data_list(
        &self,
        db: &Db,
        mem: &mut [u8],
        prefix_ptr: i32,
        prefix_len: i32,
        out_ptr: i32,
        out_cap: i32,
    ) -> (r: i32)
        requires
            db.wf(),
        ensures
            (r, final(mem)@) == (match guest_text(old(mem)@, prefix_ptr, prefix_len) {
                None => (ERR_BOUNDS, old(mem)@),
                Some(prefix) => answered_whole(
                    old(mem)@,
                    out_ptr,
                    out_cap,
                    (self.resp_ptr, self.resp_cap),
                    encode_utf8(records_json(data_pairs(db@.data, self.plugin_id@, prefix))),
                ),
            }),
    {
        let prefix = match read_text(mem, prefix_ptr, prefix_len) {
            Some(prefix) => prefix,
            None => {
                return ERR_BOUNDS;
            },
        };
        match db.plugin_data_list(self.plugin_id.as_str(), prefix.as_str()) {
            Ok(pairs) => {
                let text = records_text(&pairs);
                self.answer_whole(mem, out_ptr, out_cap, text.as_str())
            },
            Err(_) => ERR_DB,
        }
    }
}

// ---------------------------------------------------------------------------
// Laws
// ---------------------------------------------------------------------------

/// An answer never takes more of a buffer than the buffer holds, nor more than
/// the bound; and where it fits both, it is whole.
pub proof fn law_answer_stays_in_its_buffer(
    resp_ptr: i32,
    resp_cap: i32,
    last: (i32, i32),
    len: nat,
    max: nat,
)
    ensures
        write_plan(resp_ptr, resp_cap, last, len as int, max as int) matches Some((ptr, n)) ==> {
            let cap = if resp_ptr > 0 {
                resp_cap
            } else {
                last.1
            };
            &&& ptr > 0
            &&& 0 <= n <= cap
            &&& n <= max
            &&& n <= len
            &&& len <= cap && len <= max ==> n == len
        },
{
}

/// What a plugin stores as a setting it reads back, and another plugin finds
/// its own settings as they were, as long as neither id holds a colon.
pub proof fn law_setting_round_trip(
    db: DbModel,
    plugin_id: Seq<char>,
    key: Seq<char>,
    value: Seq<char>,
    other_id: Seq<char>,
    other_key: Seq<char>,
    mem: Seq<u8>,
    out_ptr: i32,
    out_cap: i32,
)
    requires
        encode_utf8(value).len() <= KV_VALUE_MAX,
        !plugin_id.contains(':'),
        !other_id.contains(':'),
    ensures
        ({
            let (code, after) = kv_put(db, plugin_id, Some(key), Some(value));
            &&& code == 0
            &&& kv_got(after.settings, plugin_id, false, mem, Some(key), out_ptr, out_cap)
                == copied_out(mem, value, out_ptr, out_cap)
            &&& plugin_id != other_id ==> kv_got(
                after.settings,
                other_id,
                false,
                mem,
                Some(other_key),
                out_ptr,
                out_cap,
            ) == kv_got(db.settings, other_id, false, mem, Some(other_key), out_ptr, out_cap)
        }),
{
    if plugin_id != other_id && setting_name(plugin_id, key) == setting_name(other_id, other_key) {
        crate::db::lemma_kv_names_differ(plugin_id, key, other_id, other_key);
    }
}

/// What a plugin stores as a record it reads back until it deletes it, and
/// another plugin, or another key, finds its own record as it was.
pub proof fn law_record_is_read_back(
    before: DbModel,
    plugin_id: Seq<char>,
    key: Seq<char>,
    value: Seq<char>,
    now: i64,
    after: DbModel,
    other: (Seq<char>, Seq<char>),
    mem: Seq<u8>,
    out_ptr: i32,
    out_cap: i32,
)
    requires
        data_stored(before, plugin_id, Some(key), Some(value), now, 0, after),
        other != (plugin_id, key),
    ensures
        ({
            let gone = data_deleted(after, plugin_id, Some(key)).1;
            &&& data_got(after.data, plugin_id, mem, Some(key), out_ptr, out_cap) == copied_out(
                mem,
                value,
                out_ptr,
                out_cap,
            )
            &&& data_got(gone.data, plugin_id, mem, Some(key), out_ptr, out_cap) == (0i32, mem)
            &&& data_got(after.data, other.0, mem, Some(other.1), out_ptr, out_cap) == data_got(
                before.data,
                other.0,
                mem,
                Some(other.1),
                out_ptr,
                out_cap,
            )
            &&& data_got(gone.data, other.0, mem, Some(other.1), out_ptr, out_cap) == data_got(
                before.data,
                other.0,
                mem,
                Some(other.1),
                out_ptr,
                out_cap,
            )
        }),
{
}

} // verus!
