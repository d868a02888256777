//! Events: what tells two alerts apart, what a plugin is handed, and when an
//! emission becomes a dispatch.

use std::collections::hash_map::DefaultHasher;
use vstd::prelude::*;
use vstd::std_specs::hash::DefaultHasherAdditionalSpecFns;
use vstd::utf8::*;

use crate::db::{latest_in, latest_state, stands, LogKey, LogRowModel};
use crate::hub::AppModel;
use crate::json::{object_json, quoted};
use crate::notification_bus::{
    emitted, int_under, member_under, payload_in, payload_json_members, text_under, EventModel,
    JsonModel, MemberModel,
};
use crate::outside::{date_days, json_value};
use crate::table::in_order;
use crate::text::signed_decimal;

verus! {

broadcast use vstd::seq_lib::group_seq_properties;

/// The place of the first member under a key.
pub open spec fn first_under(payload: Seq<MemberModel>, key: Seq<char>, i: int) -> bool {
    &&& 0 <= i < payload.len()
    &&& payload[i].0 == key
    &&& forall|k: int| 0 <= k < i ==> (#[trigger] payload[k]).0 != key
}

/// No member stands under a key.
pub open spec fn none_under(payload: Seq<MemberModel>, key: Seq<char>) -> bool {
    forall|k: int| 0 <= k < payload.len() ==> (#[trigger] payload[k]).0 != key
}

/// A member is found under its key wherever it stands.
pub proof fn law_member_is_found(payload: Seq<MemberModel>, key: Seq<char>, i: int)
    requires
        first_under(payload, key, i),
    ensures
        member_under(payload, key) == Some(payload[i]),
        payload[i].2 matches Some(n) ==> int_under(payload, key) == n,
        payload[i].2 is None ==> int_under(payload, key) == 0,
        text_under(payload, key) == payload[i].3,
    decreases i,
{
    if i > 0 {
        assert(payload[0].0 != key);
        assert forall|k: int| 0 <= k < i - 1 implies (#[trigger] payload.skip(1)[k]).0 != key by {
            assert(payload.skip(1)[k] == payload[k + 1]);
        }
        assert(payload.skip(1)[i - 1] == payload[i]);
        law_member_is_found(payload.skip(1), key, i - 1);
    }
}

/// A key without a member gives 0 for an integer and nothing for a text.
pub proof fn law_missing_member(payload: Seq<MemberModel>, key: Seq<char>)
    requires
        none_under(payload, key),
    ensures
        member_under(payload, key) is None,
        int_under(payload, key) == 0,
        text_under(payload, key) is None,
    decreases payload.len(),
{
    if payload.len() > 0 {
        assert(payload[0].0 != key);
        assert forall|k: int| 0 <= k < payload.skip(1).len() implies (#[trigger] payload.skip(
            1,
        )[k]).0 != key by {
            assert(payload.skip(1)[k] == payload[k + 1]);
        }
        law_missing_member(payload.skip(1), key);
    }
}

/// The JSON object in a text is the payload, member for member; any other JSON
/// value is an empty payload, and a text that is no JSON is none.
pub proof fn law_payload_is_the_object(text: Seq<char>)
    ensures
        json_value(text) is None <==> payload_in(text) is None,
        json_value(text) matches Some(JsonModel::Object(members)) ==> payload_in(text) == Some(
            members,
        ),
        (json_value(text) matches Some(value) && !(value is Object)) ==> payload_in(text) == Some(
            Seq::<MemberModel>::empty(),
        ),
{
}

/// An alert is keyed by its tier and the very day on which the cycle ends: the
/// tier times a million plus the day of the common era that the date in
/// `expires_at` is, wherever in the payload the two stand.
pub proof fn law_key_is_tier_and_day(
    name: Seq<char>,
    payload: Seq<MemberModel>,
    tier_at: int,
    date_at: int,
    tier: i64,
    date: Seq<char>,
    day: i32,
)
    requires
        first_under(payload, "threshold_days"@, tier_at),
        payload[tier_at].2 == Some(tier),
        first_under(payload, "expires_at"@, date_at),
        payload[date_at].3 == Some(date),
        date_days(date) == Some(day),
        i64::MIN <= tier * 1_000_000 <= i64::MAX,
        i64::MIN <= tier * 1_000_000 + day <= i64::MAX,
        tier * 1_000_000 + day != 0,
    ensures
        (EventModel::Plugin { name, payload }).dedup_key() == tier * 1_000_000 + day,
        (EventModel::Plugin { name, payload }).log_key() == (
            (EventModel::Plugin { name, payload }).node_id(),
            name,
            (tier * 1_000_000 + day) as i64,
        ),
{
    law_member_is_found(payload, "threshold_days"@, tier_at);
    law_member_is_found(payload, "expires_at"@, date_at);
    assert(tier.wrapping_mul(1_000_000) == tier * 1_000_000);
}

/// Two alerts of one tier and name on one node are the same alert exactly where
/// their cycles end on the same day: a renewal that moves the date alerts anew.
pub proof fn law_renewal_is_a_new_alert(
    name: Seq<char>,
    one: Seq<MemberModel>,
    one_at: (int, int),
    one_date: Seq<char>,
    one_day: i32,
    other: Seq<MemberModel>,
    other_at: (int, int),
    other_date: Seq<char>,
    other_day: i32,
    tier: i64,
)
    requires
        first_under(one, "threshold_days"@, one_at.0),
        one[one_at.0].2 == Some(tier),
        first_under(one, "expires_at"@, one_at.1),
        one[one_at.1].3 == Some(one_date),
        date_days(one_date) == Some(one_day),
        first_under(other, "threshold_days"@, other_at.0),
        other[other_at.0].2 == Some(tier),
        first_under(other, "expires_at"@, other_at.1),
        other[other_at.1].3 == Some(other_date),
        date_days(other_date) == Some(other_day),
        i64::MIN <= tier * 1_000_000 <= i64::MAX,
        i64::MIN <= tier * 1_000_000 + one_day <= i64::MAX,
        i64::MIN <= tier * 1_000_000 + other_day <= i64::MAX,
        tier * 1_000_000 + one_day != 0,
        tier * 1_000_000 + other_day != 0,
        (EventModel::Plugin { name, payload: one }).node_id() == (EventModel::Plugin {
            name,
            payload: other,
        }).node_id(),
    ensures
        (EventModel::Plugin { name, payload: one }).log_key() == (EventModel::Plugin {
            name,
            payload: other,
        }).log_key() <==> one_day == other_day,
{
    law_key_is_tier_and_day(name, one, one_at.0, one_at.1, tier, one_date, one_day);
    law_key_is_tier_and_day(name, other, other_at.0, other_at.1, tier, other_date, other_day);
}

/// A tier without a date that can be read is keyed by the tier alone, and an
/// event with neither by the hash of its name, whatever else its payload holds.
pub proof fn law_key_without_a_day(name: Seq<char>, payload: Seq<MemberModel>, tier: i64)
    requires
        int_under(payload, "threshold_days"@) == tier,
        text_under(payload, "expires_at"@) matches Some(date) ==> date_days(date) is None,
        i64::MIN <= tier * 1_000_000 <= i64::MAX,
    ensures
        tier != 0 ==> (EventModel::Plugin { name, payload }).dedup_key() == tier * 1_000_000,
        tier == 0 ==> (EventModel::Plugin { name, payload }).dedup_key()
            == DefaultHasher::spec_finish(seq![encode_utf8(name), seq![0xffu8]]) as i64,
{
    assert(tier.wrapping_mul(1_000_000) == tier * 1_000_000);
}

/// What an event is about is what its fields or its payload say; a connectivity
/// event goes by its own name and by no key but the node.
pub proof fn law_event_speaks_of_its_node(
    node_id: i64,
    name: Seq<char>,
    observed_at: i64,
    last_seen_at: i64,
)
    ensures
        ({
            let off = EventModel::AgentOffline { node_id, name, observed_at, last_seen_at };
            &&& off.log_key() == (node_id, "agent_offline"@, 0i64)
            &&& off.name() == name
            &&& off.is_state()
        }),
        ({
            let on = EventModel::AgentOnline { node_id, name, observed_at };
            &&& on.log_key() == (node_id, "agent_online"@, 0i64)
            &&& on.name() == name
            &&& on.is_state()
        }),
{
}

/// A plugin's event goes by the name the plugin gave it, on the node and with
/// the node's name that its payload gives.
pub proof fn law_plugin_event_speaks_of_its_payload(
    name: Seq<char>,
    payload: Seq<MemberModel>,
    node_at: int,
    name_at: int,
    node_id: i64,
    node_name: Seq<char>,
)
    requires
        first_under(payload, "node_id"@, node_at),
        payload[node_at].2 == Some(node_id),
        first_under(payload, "name"@, name_at),
        payload[name_at].3 == Some(node_name),
    ensures
        ({
            let event = EventModel::Plugin { name, payload };
            &&& event.node_id() == node_id
            &&& event.name() == node_name
            &&& event.event_type() == name
            &&& !event.is_state()
            &&& event.log_key().0 == node_id
            &&& event.log_key().1 == name
        }),
{
    law_member_is_found(payload, "node_id"@, node_at);
    law_member_is_found(payload, "name"@, name_at);
}

/// A payload that names no node speaks of node 0 without a name.
pub proof fn law_event_without_a_node(name: Seq<char>, payload: Seq<MemberModel>)
    requires
        none_under(payload, "node_id"@),
        none_under(payload, "name"@),
    ensures
        (EventModel::Plugin { name, payload }).node_id() == 0,
        (EventModel::Plugin { name, payload }).name() == ""@,
{
    law_missing_member(payload, "node_id"@);
    law_missing_member(payload, "name"@);
}

// ---------------------------------------------------------------------------
// What a plugin is handed
// ---------------------------------------------------------------------------

/// One more member of a payload is one more member at the end of the event's
/// object, with its key and its JSON text, unless it is called `type`; an empty
/// payload gives the tag alone.
pub proof fn law_every_member_is_handed_on(
    name: Seq<char>,
    payload: Seq<MemberModel>,
    m: MemberModel,
)
    ensures
        (EventModel::Plugin { name, payload: Seq::empty() }).json_members() == seq![
            ("type"@, quoted(name)),
        ],
        (EventModel::Plugin { name, payload: payload.push(m) }).json_members() == (if m.0
            == "type"@ {
            (EventModel::Plugin { name, payload }).json_members()
        } else {
            (EventModel::Plugin { name, payload }).json_members().push((m.0, m.1))
        }),
{
    reveal(Seq::filter);
    let p = |m: MemberModel| m.0 != "type"@;
    let f = |m: MemberModel| (m.0, m.1);
    let none = Seq::<MemberModel>::empty();
    assert(none.filter(p) =~= none);
    assert(payload_json_members(none) =~= Seq::<(Seq<char>, Seq<char>)>::empty());
    assert((EventModel::Plugin { name, payload: none }).json_members() =~= seq![
        ("type"@, quoted(name)),
    ]);
    assert(payload.push(m).drop_last() =~= payload);
    if m.0 != "type"@ {
        assert(payload.push(m).filter(p) =~= payload.filter(p).push(m));
        assert(payload_json_members(payload.push(m)) =~= payload_json_members(payload).push(
            (m.0, m.1),
        ));
        assert((EventModel::Plugin { name, payload: payload.push(m) }).json_members()
            =~= (EventModel::Plugin { name, payload }).json_members().push((m.0, m.1)));
    } else {
        assert(payload.push(m).filter(p) =~= payload.filter(p));
    }
}

/// A pair is the key and the JSON text of a member that is not called `type`.
pub open spec fn is_member(payload: Seq<MemberModel>, pair: (Seq<char>, Seq<char>)) -> bool {
    exists|i: int|
        0 <= i < payload.len() && (#[trigger] payload[i]).0 != "type"@ && (payload[i].0, payload[i].1)
            == pair
}

/// The object of a plugin's event holds the tag, every member of the payload
/// but `type`, and nothing else.
pub proof fn law_object_holds_the_payload(name: Seq<char>, payload: Seq<MemberModel>)
    ensures
        ({
            let members = (EventModel::Plugin { name, payload }).json_members();
            &&& members.len() > 0
            &&& members[0] == ("type"@, quoted(name))
            &&& forall|i: int|
                0 <= i < payload.len() && (#[trigger] payload[i]).0 != "type"@ ==> members.skip(
                    1,
                ).contains((payload[i].0, payload[i].1))
            &&& forall|k: int|
                0 < k < members.len() ==> is_member(payload, #[trigger] members[k])
        }),
    decreases payload.len(),
{
    let event = EventModel::Plugin { name, payload };
    let members = event.json_members();
    if payload.len() == 0 {
        assert(payload =~= Seq::empty());
        law_every_member_is_handed_on(name, payload, ("type"@, ""@, None, None));
        assert(members =~= seq![("type"@, quoted(name))]);
    } else {
        let front = payload.drop_last();
        let m = payload.last();
        law_object_holds_the_payload(name, front);
        law_every_member_is_handed_on(name, front, m);
        assert(front.push(m) =~= payload);
        let before = (EventModel::Plugin { name, payload: front }).json_members();
        assert forall|i: int|
            0 <= i < payload.len() && (#[trigger] payload[i]).0 != "type"@ implies members.skip(
            1,
        ).contains((payload[i].0, payload[i].1)) by {
            if i < front.len() {
                assert(front[i] == payload[i]);
                let k = choose|k: int|
                    0 <= k < before.skip(1).len() && before.skip(1)[k] == (
                    payload[i].0,
                    payload[i].1,
                );
                assert(members.skip(1)[k] == before.skip(1)[k]);
            } else {
                assert(members.skip(1)[members.len() - 2] == (m.0, m.1));
            }
        }
        assert(members[0] == before[0]);
        assert forall|k: int| 0 < k < members.len() implies is_member(
            payload,
            #[trigger] members[k],
        ) by {
            if k < before.len() {
                assert(before[k] == members[k]);
                assert(is_member(front, before[k]));
                let i = choose|i: int|
                    0 <= i < front.len() && (#[trigger] front[i]).0 != "type"@ && (front[i].0,
                    front[i].1) == before[k];
                assert(payload[i] == front[i]);
            } else {
                assert(payload[payload.len() - 1] == m);
            }
        }
    }
}

/// The object of a connectivity event: the tag, the node, its name, when it was
/// observed and, for one that went away, when it was last seen.
pub proof fn law_object_of_a_state_event(
    node_id: i64,
    name: Seq<char>,
    observed_at: i64,
    last_seen_at: i64,
)
    ensures
        ({
            let off = EventModel::AgentOffline { node_id, name, observed_at, last_seen_at };
            let on = EventModel::AgentOnline { node_id, name, observed_at };
            &&& on.json_members().len() == 4
            &&& off.json_members().len() == 5
            &&& on.json_members()[0] == ("type"@, quoted("agent_online"@))
            &&& off.json_members()[0] == ("type"@, quoted("agent_offline"@))
            &&& on.json_members().skip(1) == off.json_members().subrange(1, 4)
            &&& on.json_members()[1] == ("node_id"@, signed_decimal(node_id as int))
            &&& on.json_members()[2] == ("name"@, quoted(name))
            &&& on.json_members()[3] == ("observed_at"@, signed_decimal(observed_at as int))
            &&& off.json_members()[4] == ("last_seen_at"@, signed_decimal(last_seen_at as int))
        }),
{
    let off = EventModel::AgentOffline { node_id, name, observed_at, last_seen_at };
    let on = EventModel::AgentOnline { node_id, name, observed_at };
    assert(on.json_members().skip(1) =~= off.json_members().subrange(1, 4));
}

/// An event's text is the object of its members, written out: each key in
/// quotes, a colon and the value, commas between them, braces around all.
pub proof fn law_event_text(event: EventModel)
    ensures
        event.json() == object_json(event.json_members()),
{
}

// ---------------------------------------------------------------------------
// When an emission becomes a dispatch
// ---------------------------------------------------------------------------

/// A plugin's alert is recorded and handed on exactly where its row does not
/// stand: the node, the name and the key of the row are those of the event, its
/// time is the emission's, and every other row stays.
pub proof fn law_plugin_alert(app: AppModel, name: Seq<char>, payload: Seq<MemberModel>, now: i64)
    ensures
        ({
            let event = EventModel::Plugin { name, payload };
            let row = (event.node_id(), name, event.dedup_key());
            let after = emitted(app, event, now);
            &&& app.db.log.contains_key(row) ==> after == app
            &&& !app.db.log.contains_key(row) ==> {
                &&& after.db.log.dom() == app.db.log.dom().insert(row)
                &&& after.db.log[row].sent_at == now
                &&& !after.db.log[row].success
                &&& after.db.log[row].detail == ""@
                &&& forall|k: (i64, Seq<char>, i64)| #[trigger]
                    app.db.log.contains_key(k) ==> after.db.log[k] == app.db.log[k]
                &&& after.db.plugins == app.db.plugins
                &&& after.db.settings == app.db.settings
                &&& after.db.data == app.db.data
                &&& after.plugins == app.plugins.handed(event, app.db.settings)
            }
        }),
{
    let event = EventModel::Plugin { name, payload };
    let row = (event.node_id(), name, event.dedup_key());
    assert(event.log_key() == row);
    if !app.db.log.contains_key(row) {
        assert(emitted(app, event, now).db.log.dom() =~= app.db.log.dom().insert(row));
    }
}

/// A report of the other side's name.
pub open spec fn other_side(name: Seq<char>, other: Seq<char>) -> bool {
    (name == "agent_offline"@ && other == "agent_online"@) || (name == "agent_online"@ && other
        == "agent_offline"@)
}

/// A node is on a side where a report of that side is later than every report
/// of the other side, and not on it where a report of the other side is later
/// than every one of this side, or there is none of this side.
pub proof fn law_latest_report_decides(
    log: Map<(i64, Seq<char>, i64), LogRowModel>,
    node_id: i64,
    name: Seq<char>,
    other: Seq<char>,
)
    requires
        log.dom().finite(),
        other_side(name, other),
    ensures
        (exists|a: i64|
            #![trigger log.contains_key((node_id, name, a))]
            log.contains_key((node_id, name, a)) && forall|b: i64| #[trigger]
                log.contains_key((node_id, other, b)) ==> log[(node_id, other, b)].sent_at < log[(
                    node_id,
                    name,
                    a,
                )].sent_at) ==> stands(log, node_id, name),
        (forall|a: i64| !#[trigger] log.contains_key((node_id, name, a))) ==> !stands(
            log,
            node_id,
            name,
        ),
        (exists|b: i64|
            #![trigger log.contains_key((node_id, other, b))]
            log.contains_key((node_id, other, b)) && forall|a: i64| #[trigger]
                log.contains_key((node_id, name, a)) ==> log[(node_id, name, a)].sent_at < log[(
                    node_id,
                    other,
                    b,
                )].sent_at) ==> !stands(log, node_id, name),
{
    let rows = in_order::<LogKey, LogRowModel>(log);
    crate::table::lemma_listed::<LogKey, LogRowModel>(log);
    lemma_latest_is_a_row(rows, node_id);
    crate::db::lemma_state_names();
    if let Some(latest) = latest_state(log, node_id) {
        let i = choose|i: int|
            0 <= i < rows.len() && (#[trigger] rows[i]).0.0 == node_id && rows[i].0.1 == latest.0
                && rows[i].1.sent_at == latest.1 && (latest.0 == "agent_offline"@ || latest.0
                == "agent_online"@);
        let top = rows[i].0;
        assert(log.contains_key((node_id, top.1, top.2)) && log[top] == rows[i].1);
        assert forall|k: (i64, Seq<char>, i64)|
            #[trigger] log.contains_key(k) && k.0 == node_id && (k.1 == "agent_offline"@ || k.1
                == "agent_online"@) implies log[k].sent_at <= latest.1 by {
            let j = choose|j: int| 0 <= j < rows.len() && (#[trigger] rows[j]).0 == k;
            assert(rows[j].1.sent_at <= latest.1);
        }
        if exists|a: i64|
            #![trigger log.contains_key((node_id, name, a))]
            log.contains_key((node_id, name, a)) && forall|b: i64| #[trigger]
                log.contains_key((node_id, other, b)) ==> log[(node_id, other, b)].sent_at < log[(
                    node_id,
                    name,
                    a,
                )].sent_at {
            let a = choose|a: i64|
                #![trigger log.contains_key((node_id, name, a))]
                log.contains_key((node_id, name, a)) && forall|b: i64| #[trigger]
                    log.contains_key((node_id, other, b)) ==> log[(node_id, other, b)].sent_at
                        < log[(node_id, name, a)].sent_at;
            assert(log[(node_id, name, a)].sent_at <= latest.1);
            if latest.0 == other {
                assert(log.contains_key((node_id, other, top.2)));
            }
        }
        if exists|b: i64|
            #![trigger log.contains_key((node_id, other, b))]
            log.contains_key((node_id, other, b)) && forall|a: i64| #[trigger]
                log.contains_key((node_id, name, a)) ==> log[(node_id, name, a)].sent_at < log[(
                    node_id,
                    other,
                    b,
                )].sent_at {
            let b = choose|b: i64|
                #![trigger log.contains_key((node_id, other, b))]
                log.contains_key((node_id, other, b)) && forall|a: i64| #[trigger]
                    log.contains_key((node_id, name, a)) ==> log[(node_id, name, a)].sent_at
                        < log[(node_id, other, b)].sent_at;
            assert(log[(node_id, other, b)].sent_at <= latest.1);
            if latest.0 == name {
                assert(log.contains_key((node_id, name, top.2)));
            }
        }
    } else {
        assert forall|a: i64| !#[trigger] log.contains_key((node_id, name, a)) by {
            if log.contains_key((node_id, name, a)) {
                let j = choose|j: int|
                    0 <= j < rows.len() && (#[trigger] rows[j]).0 == (node_id, name, a);
                assert(rows[j].0.0 == node_id);
            }
        }
    }
}

proof fn lemma_latest_is_a_row(
    rows: Seq<((i64, Seq<char>, i64), LogRowModel)>,
    node_id: i64,
)
    ensures
        match latest_in(rows, node_id) {
            Some((name, sent_at)) => {
                &&& exists|i: int|
                    0 <= i < rows.len() && (#[trigger] rows[i]).0.0 == node_id && rows[i].0.1
                        == name && rows[i].1.sent_at == sent_at && (name == "agent_offline"@
                        || name == "agent_online"@)
                &&& forall|j: int|
                    0 <= j < rows.len() && (#[trigger] rows[j]).0.0 == node_id && (rows[j].0.1
                        == "agent_offline"@ || rows[j].0.1 == "agent_online"@)
                        ==> rows[j].1.sent_at <= sent_at
            },
            None => forall|j: int|
                0 <= j < rows.len() && (#[trigger] rows[j]).0.0 == node_id ==> rows[j].0.1
                    != "agent_offline"@ && rows[j].0.1 != "agent_online"@,
        },
    decreases rows.len(),
{
    if rows.len() > 0 {
        let front = rows.drop_last();
        lemma_latest_is_a_row(front, node_id);
        assert(forall|j: int| 0 <= j < front.len() ==> front[j] == #[trigger] rows[j]);
        if let Some((name, sent_at)) = latest_in(rows, node_id) {
            if latest_in(front, node_id) == latest_in(rows, node_id) {
                let i = choose|i: int|
                    0 <= i < front.len() && (#[trigger] front[i]).0.0 == node_id && front[i].0.1
                        == name && front[i].1.sent_at == sent_at && (name == "agent_offline"@
                        || name == "agent_online"@);
                assert(rows[i].0.0 == node_id);
            } else {
                assert(rows[rows.len() - 1].0.1 == name);
            }
        }
    }
}

/// A connectivity event of a node that is not on that side is recorded under
/// key 0 at the time of the emission, clears the other side's row, leaves every
/// other row, and is handed on; on a node that is on that side it does nothing.
pub proof fn law_state_alert(app: AppModel, event: EventModel, other: Seq<char>, now: i64)
    requires
        !(event is Plugin),
        other_side(event.event_type(), other),
    ensures
        ({
            let node = event.node_id();
            let row = (node, event.event_type(), 0i64);
            let gone = (node, other, 0i64);
            let after = emitted(app, event, now);
            &&& stands(app.db.log, node, event.event_type()) ==> after == app
            &&& !stands(app.db.log, node, event.event_type()) ==> {
                &&& after.db.log.contains_key(row)
                &&& after.db.log[row].sent_at == now
                &&& !after.db.log[row].success
                &&& after.db.log[row].detail == ""@
                &&& !after.db.log.contains_key(gone)
                &&& forall|k: (i64, Seq<char>, i64)|
                    k != row && k != gone ==> #[trigger] after.db.log.contains_key(k)
                        == app.db.log.contains_key(k) && after.db.log[k] == app.db.log[k]
                &&& after.db.plugins == app.db.plugins
                &&& after.db.settings == app.db.settings
                &&& after.db.data == app.db.data
                &&& after.plugins == app.plugins.handed(event, app.db.settings)
            }
        }),
{
    crate::db::lemma_state_names();
}

} // verus!
