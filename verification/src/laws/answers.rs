//! What the host functions answer: codes, and what they leave in a plugin's
//! memory and in the hub's tables.

use vstd::prelude::*;
use vstd::utf8::*;

use crate::db::{data_bytes, data_count, DataModel, DbModel};
use crate::hub::AppModel;
use crate::json::{array_json, quoted};
use crate::notification_bus::{emitted, payload_in, EventModel};
use crate::plugin::call::{answer_model, bytes_wanted, CallError};
use crate::plugin::host::{
    answered_cut, answered_whole, data_deleted, data_got, data_stored, download_cap, get_refusal,
    kv_got, kv_put, logged, nodes_json, plugin_emitted, post_refusal, records_json, write_plan,
    Node,
};
use crate::plugin::log::LogModel;
use crate::plugin::memory::{copied_out, guest_bytes, guest_text, writable, written};
use crate::text::{clipped, signed_decimal};

verus! {

broadcast use vstd::seq_lib::group_seq_properties;

/// The bounds that the documentation promises to plugins and operators.
pub proof fn law_documented_bounds()
    ensures
        crate::plugin::host::KV_VALUE_MAX == 8 * 1024,
        crate::plugin::manifest::KV_KEY_MAX == 128,
        crate::plugin::host::RECORD_MAX == 256 * 1024,
        crate::plugin::host::PLUGIN_DATA_MAX == 16 * 1024 * 1024,
        crate::plugin::http::HTTP_RESP_MAX == 64 * 1024,
        crate::plugin::http::HTTP_TIMEOUT_MS == 4 * 1000,
        crate::plugin::registry::DEFAULT_FUEL_LIMIT == 1000 * 1000,
        crate::plugin::registry::DEFAULT_TIMEOUT_MS == 5 * 1000,
        crate::plugin::registry::DISPATCH_LOG_CAP == 1000,
        crate::plugin::registry::DETAIL_MAX == 500,
        crate::plugin::manifest::ABI_VERSION == 2,
        crate::plugin::log::LOG_LINES_MAX == 16,
        crate::plugin::log::LOG_LINE_MAX == 200,
        crate::plugin::log::NOTE_RESERVE == 48,
{
}

// ---------------------------------------------------------------------------
// Memory
// ---------------------------------------------------------------------------

/// A range of the memory can be read exactly where all of it is there, and what
/// is read is what stands there; it is a text exactly where it is UTF-8.
pub proof fn law_reading(mem: Seq<u8>, ptr: i32, len: i32)
    ensures
        guest_bytes(mem, ptr, len) is Some <==> 0 <= ptr && 0 <= len && ptr + len <= mem.len(),
        guest_bytes(mem, ptr, len) matches Some(bytes) ==> bytes.len() == len && forall|i: int|
            0 <= i < len ==> #[trigger] bytes[i] == mem[ptr + i],
        guest_text(mem, ptr, len) is Some <==> (guest_bytes(mem, ptr, len) matches Some(bytes)
            && valid_utf8(bytes)),
        guest_text(mem, ptr, len) matches Some(s) ==> guest_bytes(mem, ptr, len) == Some(
            encode_utf8(s),
        ),
{
    if guest_text(mem, ptr, len) is Some {
        decode_utf8_encode_utf8(guest_bytes(mem, ptr, len)->0);
    }
}

/// Bytes can be written exactly where the memory has room for all of them from
/// the address on; they then stand there, and all else is as before.
pub proof fn law_writing(mem: Seq<u8>, ptr: i32, bytes: Seq<u8>)
    ensures
        writable(mem, ptr, bytes) <==> 0 <= ptr && ptr + bytes.len() <= mem.len(),
        writable(mem, ptr, bytes) ==> written(mem, ptr, bytes).len() == mem.len() && forall|i: int|
            0 <= i < mem.len() ==> #[trigger] written(mem, ptr, bytes)[i] == (if ptr <= i < ptr
                + bytes.len() {
                bytes[i - ptr]
            } else {
                mem[i]
            }),
{
}

/// A value goes to a plugin as the longest front of whole characters that fits
/// its buffer, the answer says how many bytes that is, and -1 is answered, with
/// nothing written, where the buffer is not in the memory.
pub proof fn law_value_in_a_buffer(mem: Seq<u8>, value: Seq<char>, ptr: i32, cap: i32)
    ensures
        ptr < 0 || cap < 0 ==> copied_out(mem, value, ptr, cap) == (-1i32, mem),
        0 <= ptr && 0 <= cap ==> {
            let front = encode_utf8(clipped(value, cap as int));
            &&& ptr + front.len() > mem.len() ==> copied_out(mem, value, ptr, cap) == (-1i32, mem)
            &&& ptr + front.len() <= mem.len() ==> copied_out(mem, value, ptr, cap) == (
                front.len() as i32,
                written(mem, ptr, front),
            )
        },
{
}

// ---------------------------------------------------------------------------
// Answers to a buffer
// ---------------------------------------------------------------------------

/// An answer goes to the buffer that the call names, else to the last one that
/// was allocated, and is as long as the buffer, the bound and the answer allow.
pub proof fn law_where_an_answer_goes(
    ptr: i32,
    cap: i32,
    last: (i32, i32),
    len: nat,
    max: nat,
)
    ensures
        ptr > 0 && cap < 0 ==> write_plan(ptr, cap, last, len as int, max as int) is None,
        ptr <= 0 && (last.0 <= 0 || last.1 < 0) ==> write_plan(
            ptr,
            cap,
            last,
            len as int,
            max as int,
        ) is None,
        ptr <= 0 ==> write_plan(ptr, cap, last, len as int, max as int) == write_plan(
            last.0,
            last.1,
            last,
            len as int,
            max as int,
        ),
        ptr > 0 && cap >= 0 && len <= cap && len <= max ==> write_plan(
            ptr,
            cap,
            last,
            len as int,
            max as int,
        ) == Some((ptr, len as int)),
        ptr > 0 && cap >= 0 && cap <= len && cap <= max ==> write_plan(
            ptr,
            cap,
            last,
            len as int,
            max as int,
        ) == Some((ptr, cap as int)),
        ptr > 0 && cap >= 0 && max <= len && max <= cap ==> write_plan(
            ptr,
            cap,
            last,
            len as int,
            max as int,
        ) == Some((ptr, max as int)),
{
}

/// The body of an answer is cut to the plugin's buffer and to 64 KiB; without a
/// buffer nothing is written and 0 is answered; a buffer outside the memory
/// gives -1.
pub proof fn law_body_in_a_buffer(mem: Seq<u8>, ptr: i32, cap: i32, last: (i32, i32), body: Seq<u8>)
    requires
        ptr > 0,
    ensures
        cap < 0 ==> answered_cut(mem, ptr, cap, last, body) == (0i32, mem),
        cap >= 0 ==> {
            let most = if cap < 65536 {
                cap as int
            } else {
                65536
            };
            let n = if body.len() < most {
                body.len() as int
            } else {
                most
            };
            &&& ptr + n <= mem.len() ==> answered_cut(mem, ptr, cap, last, body) == (
                n as i32,
                written(mem, ptr, body.take(n)),
            )
            &&& ptr + n > mem.len() ==> answered_cut(mem, ptr, cap, last, body) == (-1i32, mem)
        },
        forall|p: i32, c: i32|
            p <= 0 ==> #[trigger] answered_cut(mem, p, c, (ptr, cap), body) == answered_cut(
                mem,
                ptr,
                cap,
                last,
                body,
            ),
{
}

/// A listing is given whole or not at all: -6 where it is longer than the
/// buffer or 16 MiB, -1 where the buffer is outside the memory, 0 without a
/// buffer; and nothing is written in any of these.
pub proof fn law_listing_in_a_buffer(
    mem: Seq<u8>,
    ptr: i32,
    cap: i32,
    last: (i32, i32),
    bytes: Seq<u8>,
)
    requires
        ptr > 0,
    ensures
        cap < 0 ==> answered_whole(mem, ptr, cap, last, bytes) == (0i32, mem),
        cap >= 0 && (bytes.len() > cap || bytes.len() > 16 * 1024 * 1024) ==> answered_whole(
            mem,
            ptr,
            cap,
            last,
            bytes,
        ) == (-6i32, mem),
        cap >= 0 && bytes.len() <= cap && bytes.len() <= 16 * 1024 * 1024 && ptr + bytes.len()
            > mem.len() ==> answered_whole(mem, ptr, cap, last, bytes) == (-1i32, mem),
        cap >= 0 && bytes.len() <= cap && bytes.len() <= 16 * 1024 * 1024 && ptr + bytes.len()
            <= mem.len() ==> answered_whole(mem, ptr, cap, last, bytes) == (
            bytes.len() as i32,
            written(mem, ptr, bytes),
        ),
        forall|p: i32, c: i32|
            p <= 0 ==> #[trigger] answered_whole(mem, p, c, (ptr, cap), bytes) == answered_whole(
                mem,
                ptr,
                cap,
                last,
                bytes,
            ),
{
}

/// Without any buffer an answer is 0 bytes.
pub proof fn law_no_buffer(mem: Seq<u8>, ptr: i32, cap: i32, last: (i32, i32), bytes: Seq<u8>)
    requires
        ptr <= 0,
        last.0 <= 0,
    ensures
        answered_cut(mem, ptr, cap, last, bytes) == (0i32, mem),
        answered_whole(mem, ptr, cap, last, bytes) == (0i32, mem),
        download_cap(ptr, cap, last) == 65536,
{
}

/// As much of an answer is taken as its buffer holds, and never more than
/// 64 KiB.
pub proof fn law_download_bound(ptr: i32, cap: i32, last: (i32, i32))
    requires
        ptr > 0,
        cap >= 0,
    ensures
        cap <= 65536 ==> download_cap(ptr, cap, last) == cap,
        cap > 65536 ==> download_cap(ptr, cap, last) == 65536,
        forall|p: i32, c: i32|
            p <= 0 ==> #[trigger] download_cap(p, c, (ptr, cap)) == download_cap(ptr, cap, last),
{
}

// ---------------------------------------------------------------------------
// Settings
// ---------------------------------------------------------------------------

/// A plugin's setting is the one under `plugin.<id>:<key>`. A key that cannot
/// be read, and a call whose time ran out, answer -1.
pub proof fn law_reading_a_setting(
    settings: Map<Seq<char>, Seq<char>>,
    id: Seq<char>,
    key: Seq<char>,
    mem: Seq<u8>,
    ptr: i32,
    cap: i32,
)
    ensures
        ({
            let name = "plugin."@ + id + seq![':'] + key;
            &&& settings.contains_key(name) ==> kv_got(
                settings,
                id,
                false,
                mem,
                Some(key),
                ptr,
                cap,
            ) == copied_out(mem, settings[name], ptr, cap)
            &&& !settings.contains_key(name) ==> kv_got(
                settings,
                id,
                false,
                mem,
                Some(key),
                ptr,
                cap,
            ) == (0i32, mem)
        }),
        kv_got(settings, id, true, mem, Some(key), ptr, cap) == (-1i32, mem),
        kv_got(settings, id, false, mem, None, ptr, cap) == (-1i32, mem),
{
}

/// A plugin's setting of up to 8 KiB is stored under `plugin.<id>:<key>` and
/// changes nothing else; a longer one, or one that cannot be read, is refused
/// with -1.
pub proof fn law_writing_a_setting(db: DbModel, id: Seq<char>, key: Seq<char>, value: Seq<char>)
    ensures
        encode_utf8(value).len() <= 8192 ==> {
            let (code, after) = kv_put(db, id, Some(key), Some(value));
            &&& code == 0
            &&& after.settings == db.settings.insert("plugin."@ + id + seq![':'] + key, value)
            &&& after.plugins == db.plugins
            &&& after.data == db.data
            &&& after.log == db.log
        },
        encode_utf8(value).len() > 8192 ==> kv_put(db, id, Some(key), Some(value)) == (-1i32, db),
        kv_put(db, id, None, Some(value)) == (-1i32, db),
        kv_put(db, id, Some(key), None) == (-1i32, db),
{
}

// ---------------------------------------------------------------------------
// Requests
// ---------------------------------------------------------------------------

/// A request goes out exactly where it can be read, there is time left, the
/// method is `POST` and the URL is an `https` one; else the first of these that
/// fails gives the code.
pub proof fn law_refused_requests(method: Seq<char>, url: Seq<char>, body: Seq<u8>)
    ensures
        ({
            let https = url.len() >= 8 && url.take(8) == "https://"@;
            &&& post_refusal(Some(method), Some(url), Some(body), true) == Some(-4i32)
            &&& get_refusal(Some(url), true) == Some(-4i32)
            &&& method != "POST"@ ==> post_refusal(Some(method), Some(url), Some(body), false)
                == Some(-3i32)
            &&& !https ==> post_refusal(Some("POST"@), Some(url), Some(body), false) == Some(-2i32)
            &&& https ==> post_refusal(Some("POST"@), Some(url), Some(body), false) is None
            &&& !https ==> get_refusal(Some(url), false) == Some(-2i32)
            &&& https ==> get_refusal(Some(url), false) is None
        }),
        forall|expired: bool|
            #![trigger get_refusal(None, expired)]
            get_refusal(None, expired) == Some(-1i32) && post_refusal(
                None,
                Some(url),
                Some(body),
                expired,
            ) == Some(-1i32) && post_refusal(Some(method), None, Some(body), expired) == Some(-1i32)
                && post_refusal(Some(method), Some(url), None, expired) == Some(-1i32),
{
    reveal_strlit("https://");
    if url.len() >= 8 {
        assert("https://"@.is_prefix_of(url) <==> url.take(8) == "https://"@);
    }
}

// ---------------------------------------------------------------------------
// Nodes and records
// ---------------------------------------------------------------------------

/// The text of one node.
pub open spec fn node_text(id: i64, name: Seq<char>, state: Seq<char>) -> Seq<char> {
    seq!['{'] + quoted("id"@) + seq![':'] + signed_decimal(id as int) + seq![','] + quoted("name"@)
        + seq![':'] + quoted(name) + seq![','] + quoted("online"@) + seq![':'] + state + seq!['}']
}

/// The listing of nodes has one object for each, in their order, and a node is
/// online exactly where its id occurs among the connected ones, wherever it
/// stands there.
pub proof fn law_nodes_listing(
    nodes: Seq<Node>,
    online: Seq<i64>,
    elements: Seq<Seq<char>>,
)
    requires
        elements.len() == nodes.len(),
        forall|i: int|
            0 <= i < nodes.len() ==> (#[trigger] elements[i]) == node_text(
                nodes[i].id,
                nodes[i].name@,
                if exists|j: int| 0 <= j < online.len() && #[trigger] online[j] == nodes[i].id {
                    "true"@
                } else {
                    "false"@
                },
            ),
    ensures
        nodes_json(nodes, online) == array_json(elements),
{
    let texts = Seq::new(
        nodes.len(),
        |i: int|
            crate::plugin::host::node_json(
                nodes[i].id,
                nodes[i].name@,
                online.contains(nodes[i].id),
            ),
    );
    assert forall|i: int| 0 <= i < nodes.len() implies texts[i] == elements[i] by {
        let (id, name) = (nodes[i].id, nodes[i].name@);
        let up = online.contains(id);
        let state = crate::json::boolean(up);
        let first = seq![("id"@, signed_decimal(id as int))];
        let second = first.push(("name"@, quoted(name)));
        let third = second.push(("online"@, state));
        crate::laws::texts::law_object_text(first, "id"@, signed_decimal(id as int));
        crate::laws::texts::law_object_text(first, "name"@, quoted(name));
        crate::laws::texts::law_object_text(second, "online"@, state);
        assert(third =~= seq![
            ("id"@, signed_decimal(id as int)),
            ("name"@, quoted(name)),
            ("online"@, state),
        ]);
        assert(crate::json::object_json(third) =~= node_text(id, name, state));
        assert(elements[i] == node_text(id, name, state));
    }
    assert(texts =~= elements);
}

/// Which nodes are connected is a set: neither the order nor repetitions in it
/// change a listing.
pub proof fn law_connected_nodes_are_a_set(nodes: Seq<Node>, one: Seq<i64>, other: Seq<i64>)
    requires
        forall|id: i64| #[trigger] one.contains(id) <==> other.contains(id),
    ensures
        nodes_json(nodes, one) == nodes_json(nodes, other),
{
    let a = Seq::new(
        nodes.len(),
        |i: int|
            crate::plugin::host::node_json(nodes[i].id, nodes[i].name@, one.contains(nodes[i].id)),
    );
    let b = Seq::new(
        nodes.len(),
        |i: int|
            crate::plugin::host::node_json(
                nodes[i].id,
                nodes[i].name@,
                other.contains(nodes[i].id),
            ),
    );
    assert forall|i: int| 0 <= i < nodes.len() implies a[i] == b[i] by {
        assert(one.contains(nodes[i].id) <==> other.contains(nodes[i].id));
    }
    assert(a =~= b);
}

/// A listing of records has one object for each, in their order, with the data
/// and the key of the record.
pub proof fn law_records_listing(pairs: Seq<(Seq<char>, Seq<char>)>, elements: Seq<Seq<char>>)
    requires
        elements.len() == pairs.len(),
        forall|i: int|
            0 <= i < pairs.len() ==> (#[trigger] elements[i]) == seq!['{'] + quoted("data"@) + seq![
                ':',
            ] + quoted(pairs[i].1) + seq![','] + quoted("key"@) + seq![':'] + quoted(pairs[i].0)
                + seq!['}'],
    ensures
        records_json(pairs) == array_json(elements),
{
    let texts = pairs.map_values(
        |p: (Seq<char>, Seq<char>)| crate::plugin::host::record_json(p),
    );
    assert forall|i: int| 0 <= i < pairs.len() implies texts[i] == elements[i] by {
        let first = seq![("data"@, quoted(pairs[i].1))];
        crate::laws::texts::law_object_text(first, "data"@, quoted(pairs[i].1));
        crate::laws::texts::law_object_text(first, "key"@, quoted(pairs[i].0));
        assert(first.push(("key"@, quoted(pairs[i].0))) =~= seq![
            ("data"@, quoted(pairs[i].1)),
            ("key"@, quoted(pairs[i].0)),
        ]);
        assert(crate::plugin::host::record_json(pairs[i]) =~= elements[i]);
    }
    assert(texts =~= elements);
}

/// A record of up to 256 KiB under a key that is not empty is stored where the
/// plugin's records then take up to 16 MiB; else it is refused with -6. What
/// cannot be read is refused with -1. A refused record changes nothing.
pub proof fn law_storing_a_record(
    before: DbModel,
    id: Seq<char>,
    key: Seq<char>,
    value: Seq<char>,
    now: i64,
    r: i32,
    after: DbModel,
)
    requires
        data_stored(before, id, Some(key), Some(value), now, r, after),
        data_count(before.data, id) <= i64::MAX,
        data_bytes(before.data, id) <= i64::MAX,
    ensures
        ({
            let standing = if before.data.contains_key((id, key)) {
                encode_utf8(before.data[(id, key)].data).len()
            } else {
                0
            };
            let size = encode_utf8(value).len();
            let fits = key.len() > 0 && size <= 256 * 1024 && data_bytes(before.data, id) - standing
                + size <= 16 * 1024 * 1024;
            &&& fits ==> {
                &&& r == 0
                &&& after.data == before.data.insert(
                    (id, key),
                    DataModel { data: value, updated_at: now },
                )
                &&& after.plugins == before.plugins
                &&& after.settings == before.settings
                &&& after.log == before.log
            }
            &&& !fits ==> r == -6 && after == before
        }),
{
}

/// What cannot be read is refused with -1 and changes nothing.
pub proof fn law_unreadable_record(
    before: DbModel,
    id: Seq<char>,
    key: Option<Seq<char>>,
    value: Option<Seq<char>>,
    now: i64,
    r: i32,
    after: DbModel,
)
    requires
        data_stored(before, id, key, value, now, r, after),
        key is None || value is None,
    ensures
        r == -1,
        after == before,
        data_deleted(before, id, None) == (-1i32, before),
{
}

/// A record is read from the plugin's own ones, and deleted from them alone.
pub proof fn law_reading_a_record(
    db: DbModel,
    id: Seq<char>,
    key: Seq<char>,
    mem: Seq<u8>,
    ptr: i32,
    cap: i32,
)
    ensures
        db.data.contains_key((id, key)) ==> data_got(db.data, id, mem, Some(key), ptr, cap)
            == copied_out(mem, db.data[(id, key)].data, ptr, cap),
        !db.data.contains_key((id, key)) ==> data_got(db.data, id, mem, Some(key), ptr, cap) == (
            0i32,
            mem,
        ),
        data_got(db.data, id, mem, None, ptr, cap) == (-1i32, mem),
        ({
            let (code, after) = data_deleted(db, id, Some(key));
            &&& code == 0
            &&& after.data == db.data.remove((id, key))
            &&& after.plugins == db.plugins
            &&& after.settings == db.settings
            &&& after.log == db.log
        }),
{
}

// ---------------------------------------------------------------------------
// Events, log lines, entries
// ---------------------------------------------------------------------------

/// A plugin emits an event exactly where the name is `plugin_` and something
/// behind it and the payload is JSON; it is then emitted under that name with
/// that payload, and 0 is answered. Another name answers -7, what cannot be
/// read -1; neither changes anything.
pub proof fn law_emitting(app: AppModel, name: Seq<char>, text: Seq<char>, now: i64)
    ensures
        ({
            let named = name.len() > 7 && name.take(7) == "plugin_"@;
            &&& !named ==> plugin_emitted(app, Some(name), Some(text), now) == (-7i32, app)
            &&& named && payload_in(text) is None ==> plugin_emitted(
                app,
                Some(name),
                Some(text),
                now,
            ) == (-1i32, app)
            &&& named && payload_in(text) is Some ==> plugin_emitted(
                app,
                Some(name),
                Some(text),
                now,
            ) == (0i32, emitted(app, EventModel::Plugin { name, payload: payload_in(text)->0 }, now))
            &&& plugin_emitted(app, None, Some(text), now) == (-1i32, app)
            &&& plugin_emitted(app, Some(name), None, now) == (-1i32, app)
        }),
{
    reveal_strlit("plugin_");
    if name.len() >= 7 {
        assert("plugin_"@.is_prefix_of(name) <==> name.take(7) == "plugin_"@);
    }
}

/// A line that a plugin logs is kept, but for an empty one and one that cannot
/// be read.
pub proof fn law_logging(log: LogModel, text: Seq<char>)
    ensures
        text.len() > 0 ==> logged(log, Some(text)) == log.pushed(text),
        text.len() == 0 ==> logged(log, Some(text)) == log,
        logged(log, None) == log,
{
}

/// The answer of an entry is the front of the buffer that was allocated last:
/// as many bytes as the entry says, but never more than were allocated. Without
/// a buffer or bytes it is empty, and a negative number is an error.
pub proof fn law_answers_of_entries(mem: Seq<u8>, n: i32, ptr: i32, cap: i32)
    ensures
        n < 0 ==> answer_model(mem, n, ptr, cap) == Err::<Seq<u8>, CallError>(
            CallError::ErrorCode { code: n },
        ),
        n == 0 || (n > 0 && ptr <= 0) ==> answer_model(mem, n, ptr, cap) == Ok::<
            Seq<u8>,
            CallError,
        >(Seq::empty()),
        n > 0 && ptr > 0 ==> {
            let len = if 0 < cap && cap < n {
                cap as int
            } else {
                n as int
            };
            &&& ptr + len <= mem.len() ==> answer_model(mem, n, ptr, cap) == Ok::<
                Seq<u8>,
                CallError,
            >(mem.subrange(ptr as int, ptr + len))
            &&& ptr + len > mem.len() ==> answer_model(mem, n, ptr, cap) == Err::<
                Seq<u8>,
                CallError,
            >(CallError::AnswerOutsideMemory)
        },
{
}

/// An entry's data is given room for all of it; empty data is still given a
/// byte, but for an event.
pub proof fn law_room_for_data(hook: Seq<char>, len: nat)
    ensures
        len > 0 ==> bytes_wanted(hook, len) == len,
        bytes_wanted("on_event"@, 0) == 0,
        hook != "on_event"@ ==> bytes_wanted(hook, 0) == 1,
{
}

} // verus!
