//! The events that the hub carries, and the rules that decide whether an
//! emission becomes a dispatch.

use std::collections::hash_map::DefaultHasher;
use std::hash::Hasher;
use vstd::prelude::*;
use vstd::std_specs::hash::DefaultHasherAdditionalSpecFns;
use vstd::string::*;
use vstd::utf8::*;

use crate::db::{
    flipped, fresh_row, is_state_name, is_state_row, latest_in, latest_state, opposite, stands,
    DbError, DbModel, LogKey, LogRowModel,
};
use crate::hub::{App, AppModel};
use crate::json::object;
use crate::outside::{clock_second, json_value, parse_date, parse_json, quote, utc_now};
use crate::plugin::manifest::is_plugin_event;
use crate::table::{in_order, RowKey};
use crate::text::{decimal_i64, same_text};

verus! {

broadcast use vstd::seq_lib::group_seq_properties;

// ---------------------------------------------------------------------------
// Payloads
// ---------------------------------------------------------------------------

/// What one member of a payload says: its key, the JSON text of its value, and
/// the value as an integer and as a string where it is one.
pub type MemberModel = (Seq<char>, Seq<char>, Option<i64>, Option<Seq<char>>);

/// One member of a payload.
#[derive(Debug)]
pub struct Member {
    pub key: String,
    /// The JSON text of the value.
    pub json: String,
    /// The value, where it is an integer of 64 bits.
    pub integer: Option<i64>,
    /// The value, where it is a string.
    pub text: Option<String>,
}

impl View for Member {
    type V = MemberModel;

    open spec fn view(&self) -> MemberModel {
        (self.key@, self.json@, self.integer, crate::db::opt_text(self.text))
    }
}

/// What a sequence of members says.
pub open spec fn member_views(members: Seq<Member>) -> Seq<MemberModel> {
    Seq::new(members.len(), |i: int| members[i]@)
}

/// No key occurs twice.
pub open spec fn unique_keys(members: Seq<MemberModel>) -> bool {
    forall|i: int, j: int|
        0 <= i < j < members.len() ==> (#[trigger] members[i]).0 != (#[trigger] members[j]).0
}

/// What a JSON value says: its type, and of an object the members.
pub ghost enum JsonModel {
    Null,
    Boolean,
    Number,
    Text,
    List,
    Object(Seq<MemberModel>),
}

/// A JSON value: its type, and of an object the members.
pub enum Json {
    Null,
    Boolean,
    Number,
    Text,
    List,
    Object(Vec<Member>),
}

impl View for Json {
    type V = JsonModel;

    open spec fn view(&self) -> JsonModel {
        match self {
            Json::Null => JsonModel::Null,
            Json::Boolean => JsonModel::Boolean,
            Json::Number => JsonModel::Number,
            Json::Text => JsonModel::Text,
            Json::List => JsonModel::List,
            Json::Object(members) => JsonModel::Object(member_views(members@)),
        }
    }
}

/// The payload that a JSON value is: the members of an object, none for any
/// other value.
pub open spec fn payload_of(value: JsonModel) -> Seq<MemberModel> {
    match value {
        JsonModel::Object(members) => members,
        _ => Seq::empty(),
    }
}

/// The payload in a text; `None` where the text is no JSON.
pub open spec fn payload_in(text: Seq<char>) -> Option<Seq<MemberModel>> {
    match json_value(text) {
        Some(value) => Some(payload_of(value)),
        None => None,
    }
}

/// The member under a key.
pub open spec fn member_under(members: Seq<MemberModel>, key: Seq<char>) -> Option<MemberModel>
    decreases members.len(),
{
    if members.len() == 0 {
        None
    } else if members[0].0 == key {
        Some(members[0])
    } else {
        member_under(members.skip(1), key)
    }
}

/// The integer under a key; 0 where there is none.
pub open spec fn int_under(members: Seq<MemberModel>, key: Seq<char>) -> i64 {
    match member_under(members, key) {
        Some((_, _, Some(n), _)) => n,
        _ => 0,
    }
}

/// The string under a key.
pub open spec fn text_under(members: Seq<MemberModel>, key: Seq<char>) -> Option<Seq<char>> {
    match member_under(members, key) {
        Some((_, _, _, Some(s))) => Some(s),
        _ => None,
    }
}

/// The payload of a plugin's event: the members of a JSON object. A payload
/// that is JSON but no object has none.
#[derive(Debug)]
pub struct Payload {
    pub members: Vec<Member>,
}

impl View for Payload {
    type V = Seq<MemberModel>;

    open spec fn view(&self) -> Seq<MemberModel> {
        member_views(self.members@)
    }
}

impl Member {
    fn copy(&self) -> (r: Member)
        ensures
            r@ == self@,
    {
        Member {
            key: self.key.clone(),
            json: self.json.clone(),
            integer: self.integer,
            text: (match &self.text {
                Some(s) => Some(s.clone()),
                None => None,
            }),
        }
    }
}

impl Payload {
    /// Reads a payload. `None` where the text is no JSON.
    pub fn parse(text: &str) -> (r: Option<Payload>)
        ensures
            match r {
                Some(p) => payload_in(text@) == Some(p@) && unique_keys(p@),
                None => payload_in(text@) is None,
            },
    {
        match parse_json(text) {
            Some(value) => Some(Self::of(value)),
            None => None,
        }
    }

    /// The payload that a JSON value is.
    pub fn of(value: Json) -> (r: Payload)
        ensures
            r@ == payload_of(value@),
    {
        let members = match value {
            Json::Object(members) => members,
            Json::Null | Json::Boolean | Json::Number | Json::Text | Json::List => Vec::new(),
        };
        let r = Payload { members };
        assert(r@ =~= payload_of(value@));
        r
    }

    fn find(&self, key: &str) -> (r: Option<&Member>)
        ensures
            match r {
                Some(m) => member_under(self@, key@) == Some(m@),
                None => member_under(self@, key@) is None,
            },
    {
        let mut i: usize = 0;
        assert(self@.skip(0) =~= self@);
        while i < self.members.len()
            invariant
                i <= self.members@.len(),
                member_under(self@.skip(i as int), key@) == member_under(self@, key@),
            decreases self.members@.len() - i,
        {
            assert(self@.skip(i as int)[0] == self.members@[i as int]@);
            if same_text(self.members[i].key.as_str(), key) {
                return Some(&self.members[i]);
            }
            assert(self@.skip(i as int).skip(1) =~= self@.skip(i + 1));
            i = i + 1;
        }
        None
    }

    /// The integer under a key, 0 where there is none.
    pub fn integer(&self, key: &str) -> (r: i64)
        ensures
            r == int_under(self@, key@),
    {
        match self.find(key) {
            Some(m) => match m.integer {
                Some(n) => n,
                None => 0,
            },
            None => 0,
        }
    }

    /// The string under a key.
    pub fn text(&self, key: &str) -> (r: Option<&str>)
        ensures
            match r {
                Some(s) => text_under(self@, key@) == Some(s@),
                None => text_under(self@, key@) is None,
            },
    {
        match self.find(key) {
            Some(m) => match &m.text {
                Some(s) => Some(s.as_str()),
                None => None,
            },
            None => None,
        }
    }

    fn copy(&self) -> (r: Payload)
        ensures
            r@ == self@,
    {
        let mut members: Vec<Member> = Vec::new();
        let mut i: usize = 0;
        while i < self.members.len()
            invariant
                i <= self.members@.len(),
                member_views(members@) == self@.take(i as int),
            decreases self.members@.len() - i,
        {
            let ghost before = members@;
            members.push(self.members[i].copy());
            assert(member_views(members@) =~= member_views(before).push(self@[i as int]));
            assert(self@.take(i + 1) =~= self@.take(i as int).push(self@[i as int]));
            i = i + 1;
        }
        assert(self@.take(i as int) =~= self@);
        Payload { members }
    }
}

// ---------------------------------------------------------------------------
// Events
// ---------------------------------------------------------------------------

/// What an event says.
pub ghost enum EventModel {
    AgentOffline { node_id: i64, name: Seq<char>, observed_at: i64, last_seen_at: i64 },
    AgentOnline { node_id: i64, name: Seq<char>, observed_at: i64 },
    Plugin { name: Seq<char>, payload: Seq<MemberModel> },
}

/// The event types that the bus carries. Plugins emit their own as
/// [`Event::Plugin`], under a name that starts with `plugin_`.
#[derive(Debug)]
pub enum Event {
    AgentOffline { node_id: i64, name: String, observed_at: i64, last_seen_at: i64 },
    AgentOnline { node_id: i64, name: String, observed_at: i64 },
    Plugin { name: String, payload: Payload },
}

impl View for Event {
    type V = EventModel;

    open spec fn view(&self) -> EventModel {
        match self {
            Event::AgentOffline { node_id, name, observed_at, last_seen_at } => {
                EventModel::AgentOffline {
                    node_id: *node_id,
                    name: name@,
                    observed_at: *observed_at,
                    last_seen_at: *last_seen_at,
                }
            },
            Event::AgentOnline { node_id, name, observed_at } => {
                EventModel::AgentOnline {
                    node_id: *node_id,
                    name: name@,
                    observed_at: *observed_at,
                }
            },
            Event::Plugin { name, payload } => {
                EventModel::Plugin { name: name@, payload: payload@ }
            },
        }
    }
}

impl Clone for Event {
    fn clone(&self) -> (r: Self)
        ensures
            r@ == self@,
    {
        match self {
            Event::AgentOffline { node_id, name, observed_at, last_seen_at } => {
                Event::AgentOffline {
                    node_id: *node_id,
                    name: name.clone(),
                    observed_at: *observed_at,
                    last_seen_at: *last_seen_at,
                }
            },
            Event::AgentOnline { node_id, name, observed_at } => {
                Event::AgentOnline {
                    node_id: *node_id,
                    name: name.clone(),
                    observed_at: *observed_at,
                }
            },
            Event::Plugin { name, payload } => {
                Event::Plugin { name: name.clone(), payload: payload.copy() }
            },
        }
    }
}

/// The day of an expiry in days of the common era, 0 for a text that is no
/// date.
pub open spec fn expiry_day(expires_at: Option<Seq<char>>) -> i64 {
    match expires_at {
        Some(s) => match crate::outside::date_days(s) {
            Some(d) => d as i64,
            None => 0,
        },
        None => 0,
    }
}

/// The tier times a million plus the day, in 64 bits.
pub open spec fn tier_key(threshold: i64, day: i64) -> i64 {
    threshold.wrapping_mul(1_000_000).wrapping_add(day)
}

/// The hash of an event name.
pub open spec fn name_hash(name: Seq<char>) -> i64 {
    DefaultHasher::spec_finish(seq![encode_utf8(name), seq![0xffu8]]) as i64
}

/// The key of an event whose payload has this tier and this day.
pub open spec fn cycle_key(name: Seq<char>, threshold: i64, day: i64) -> i64 {
    if tier_key(threshold, day) == 0 {
        name_hash(name)
    } else {
        tier_key(threshold, day)
    }
}

impl EventModel {
    /// The name under which the event is recorded, and its JSON `type`.
    pub open spec fn event_type(self) -> Seq<char> {
        match self {
            EventModel::AgentOffline { .. } => "agent_offline"@,
            EventModel::AgentOnline { .. } => "agent_online"@,
            EventModel::Plugin { name, .. } => name,
        }
    }

    /// The node that the event is about.
    pub open spec fn node_id(self) -> i64 {
        match self {
            EventModel::AgentOffline { node_id, .. } => node_id,
            EventModel::AgentOnline { node_id, .. } => node_id,
            EventModel::Plugin { payload, .. } => int_under(payload, "node_id"@),
        }
    }

    /// The node's name.
    pub open spec fn name(self) -> Seq<char> {
        match self {
            EventModel::AgentOffline { name, .. } => name,
            EventModel::AgentOnline { name, .. } => name,
            EventModel::Plugin { payload, .. } => match text_under(payload, "name"@) {
                Some(s) => s,
                None => ""@,
            },
        }
    }

    /// Whether the event is one of the two sides of connectivity.
    pub open spec fn is_state(self) -> bool {
        !(self is Plugin)
    }

    /// What tells two alerts of one name on one node apart: nothing for a state
    /// event, the tier and the day for an expiry, the name for any other.
    pub open spec fn dedup_key(self) -> i64 {
        match self {
            EventModel::Plugin { name, payload } => cycle_key(
                name,
                int_under(payload, "threshold_days"@),
                expiry_day(text_under(payload, "expires_at"@)),
            ),
            _ => 0,
        }
    }

    /// The row of the notification log that stands for the event.
    pub open spec fn log_key(self) -> (i64, Seq<char>, i64) {
        (self.node_id(), self.event_type(), self.dedup_key())
    }

    /// The members of the event's JSON object. The event's name comes first
    /// under `type`; a `type` in a payload is left out, so that a plugin cannot
    /// rewrite the word by which events are routed.
    pub open spec fn json_members(self) -> Seq<(Seq<char>, Seq<char>)> {
        let kind = ("type"@, crate::json::quoted(self.event_type()));
        match self {
            EventModel::AgentOffline { node_id, name, observed_at, last_seen_at } => seq![
                kind,
                ("node_id"@, crate::text::signed_decimal(node_id as int)),
                ("name"@, crate::json::quoted(name)),
                ("observed_at"@, crate::text::signed_decimal(observed_at as int)),
                ("last_seen_at"@, crate::text::signed_decimal(last_seen_at as int)),
            ],
            EventModel::AgentOnline { node_id, name, observed_at } => seq![
                kind,
                ("node_id"@, crate::text::signed_decimal(node_id as int)),
                ("name"@, crate::json::quoted(name)),
                ("observed_at"@, crate::text::signed_decimal(observed_at as int)),
            ],
            EventModel::Plugin { payload, .. } => seq![kind] + payload_json_members(payload),
        }
    }

    /// The event's JSON text.
    pub open spec fn json(self) -> Seq<char> {
        crate::json::object_json(self.json_members())
    }
}

/// The members of a payload that go into the event's JSON object.
pub open spec fn payload_json_members(payload: Seq<MemberModel>) -> Seq<(Seq<char>, Seq<char>)> {
    payload.filter(|m: MemberModel| m.0 != "type"@).map_values(|m: MemberModel| (m.0, m.1))
}

/// Hashes an event name.
pub fn hash_name(name: &str) -> (r: i64)
    ensures
        r == name_hash(name@),
{
    let mut h = DefaultHasher::new();
    h.write(name.as_bytes());
    let mut end: Vec<u8> = Vec::new();
    end.push(0xff);
    assert(end@ =~= seq![0xffu8]);
    h.write(end.as_slice());
    assert(h@ =~= seq![encode_utf8(name@), seq![0xffu8]]);
    h.finish() as i64
}

impl Event {
    /// The names of the hub's own events.
    pub const AGENT_OFFLINE: &'static str = "agent_offline";

    pub const AGENT_ONLINE: &'static str = "agent_online";

    /// All names of the hub's own events.
    pub const KNOWN: [&'static str; 2] = [Self::AGENT_OFFLINE, Self::AGENT_ONLINE];

    /// The name under which the event is recorded, and its JSON `type`.
    pub fn event_type(&self) -> (r: &str)
        ensures
            r@ == self@.event_type(),
    {
        match self {
            Event::AgentOffline { .. } => Self::AGENT_OFFLINE,
            Event::AgentOnline { .. } => Self::AGENT_ONLINE,
            Event::Plugin { name, .. } => name.as_str(),
        }
    }

    /// The node that the event is about, 0 where a payload does not say.
    pub fn node_id(&self) -> (r: i64)
        ensures
            r == self@.node_id(),
    {
        match self {
            Event::AgentOffline { node_id, .. } => *node_id,
            Event::AgentOnline { node_id, .. } => *node_id,
            Event::Plugin { payload, .. } => payload.integer("node_id"),
        }
    }

    /// The node's name, empty where a payload does not say.
    pub fn name(&self) -> (r: &str)
        ensures
            r@ == self@.name(),
    {
        match self {
            Event::AgentOffline { name, .. } => name.as_str(),
            Event::AgentOnline { name, .. } => name.as_str(),
            Event::Plugin { payload, .. } => match payload.text("name") {
                Some(s) => s,
                None => "",
            },
        }
    }

    /// What tells two alerts of one name on one node apart.
    ///
    /// State events have 0: they hold one row per node. An expiry has its tier
    /// times a million plus the day on which it falls, so the tiers do not
    /// collide with one another and a renewal that moves the day lets the same
    /// tier fire again. An event without either has the hash of its name.
    pub fn threshold_or_state_key(&self) -> (r: i64)
        ensures
            r == self@.dedup_key(),
    {
        match self {
            Event::AgentOffline { .. } => 0,
            Event::AgentOnline { .. } => 0,
            Event::Plugin { name, payload } => {
                let threshold: i64 = payload.integer("threshold_days");
                let day: Option<i32> = match payload.text("expires_at") {
                    Some(s) => parse_date(s),
                    None => None,
                };
                key_of_cycle(name.as_str(), threshold, day)
            },
        }
    }

    /// Whether the event is one of the two sides of connectivity.
    pub fn is_state_event(&self) -> (r: bool)
        ensures
            r == self@.is_state(),
    {
        match self {
            Event::AgentOffline { .. } => true,
            Event::AgentOnline { .. } => true,
            Event::Plugin { .. } => false,
        }
    }

    /// The event as JSON, as a plugin receives it: the name under `type`, then
    /// the fields.
    pub fn to_json(&self) -> (r: String)
        ensures
            r@ == self@.json(),
    {
        let mut members: Vec<(String, String)> = Vec::new();
        members.push(("type".to_owned(), quote(self.event_type())));
        match self {
            Event::AgentOffline { node_id, name, observed_at, last_seen_at } => {
                members.push(("node_id".to_owned(), decimal_i64(*node_id)));
                members.push(("name".to_owned(), quote(name.as_str())));
                members.push(("observed_at".to_owned(), decimal_i64(*observed_at)));
                members.push(("last_seen_at".to_owned(), decimal_i64(*last_seen_at)));
                assert(crate::json::member_models(members@) =~= self@.json_members());
            },
            Event::AgentOnline { node_id, name, observed_at } => {
                members.push(("node_id".to_owned(), decimal_i64(*node_id)));
                members.push(("name".to_owned(), quote(name.as_str())));
                members.push(("observed_at".to_owned(), decimal_i64(*observed_at)));
                assert(crate::json::member_models(members@) =~= self@.json_members());
            },
            Event::Plugin { payload, .. } => {
                let ghost kind = members@[0];
                let ghost p = |m: MemberModel| m.0 != "type"@;
                let ghost f = |m: MemberModel| (m.0, m.1);
                let ghost head = seq![(kind.0@, kind.1@)];
                let mut i: usize = 0;
                assert(crate::json::member_models(members@) =~= head + payload@.take(0).filter(
                    p,
                ).map_values(f)) by {
                    reveal(Seq::filter);
                }
                while i < payload.members.len()
                    invariant
                        i <= payload.members@.len(),
                        p == (|m: MemberModel| m.0 != "type"@),
                        f == (|m: MemberModel| (m.0, m.1)),
                        crate::json::member_models(members@) == head + payload@.take(
                            i as int,
                        ).filter(p).map_values(f),
                    decreases payload.members@.len() - i,
                {
                    let m = &payload.members[i];
                    proof {
                        crate::table::lemma_filter_step(payload@, p, i as int);
                    }
                    if !same_text(m.key.as_str(), "type") {
                        let ghost before = members@;
                        let ghost kept = payload@.take(i as int).filter(p);
                        let pair = (m.key.clone(), m.json.clone());
                        members.push(pair);
                        proof {
                            crate::json::lemma_member_push(before, pair);
                            assert(kept.push(m@).map_values(f) =~= kept.map_values(f).push(f(m@)));
                            assert(head + kept.map_values(f).push(f(m@)) =~= (head
                                + kept.map_values(f)).push(f(m@)));
                        }
                    }
                    i = i + 1;
                }
                assert(payload@.take(i as int) =~= payload@);
            },
        }
        object(&members)
    }
}

/// The key of an event with this tier and this day, where the payload has a
/// date.
pub fn key_of_cycle(name: &str, threshold: i64, day: Option<i32>) -> (r: i64)
    ensures
        r == cycle_key(
            name@,
            threshold,
            match day {
                Some(d) => d as i64,
                None => 0,
            },
        ),
{
    let day: i64 = match day {
        Some(d) => d as i64,
        None => 0,
    };
    let base: i64 = threshold.wrapping_mul(1_000_000).wrapping_add(day);
    if base == 0 {
        hash_name(name)
    } else {
        base
    }
}

// ---------------------------------------------------------------------------
// Emission
// ---------------------------------------------------------------------------

/// The hub has reported this alert already: for a state event the node is on
/// that side, for any other its row stands in the log.
pub open spec fn already_reported(
    log: Map<(i64, Seq<char>, i64), LogRowModel>,
    event: EventModel,
) -> bool {
    if event.is_state() {
        stands(log, event.node_id(), event.event_type())
    } else {
        log.contains_key(event.log_key())
    }
}

/// The log after an alert was reported.
pub open spec fn reported(
    log: Map<(i64, Seq<char>, i64), LogRowModel>,
    event: EventModel,
    now: i64,
) -> Map<(i64, Seq<char>, i64), LogRowModel> {
    if event.is_state() {
        flipped(log, event.node_id(), event.event_type(), now)
    } else {
        log.insert(event.log_key(), fresh_row(now))
    }
}

/// The hub after an emission at the second `now`: unchanged where the alert was
/// reported already, else with its row in the log and the event handed to the
/// plugins.
pub open spec fn emitted(before: AppModel, event: EventModel, now: i64) -> AppModel {
    if already_reported(before.db.log, event) {
        before
    } else {
        AppModel {
            db: DbModel { log: reported(before.db.log, event, now), ..before.db },
            plugins: before.plugins.handed(event, before.db.settings),
        }
    }
}

/// Emits an event: deduplicate, record, then hand to the plugins. A duplicate
/// is no error, since its source goes on either way.
pub fn emit(app: &mut App, event: &Event) -> (r: Result<(), DbError>)
    requires
        old(app).wf(),
    ensures
        final(app).wf(),
        r is Ok,
        exists|now: i64|
            clock_second(now) && final(app)@ == #[trigger] emitted(old(app)@, event@, now),
{
    let now: i64 = utc_now();
    emit_at(app, event, now)
}

/// Emits an event at the second `now`.
pub fn emit_at(app: &mut App, event: &Event, now: i64) -> (r: Result<(), DbError>)
    requires
        old(app).wf(),
    ensures
        final(app).wf(),
        r is Ok,
        final(app)@ == emitted(old(app)@, event@, now),
{
    let node_id: i64 = event.node_id();
    let name = event.event_type();
    if event.is_state_event() {
        // The transition is itself the check: it writes nothing where the node
        // is on this side already.
        match app.db.transition_state_event(node_id, name, now) {
            Ok(true) => {},
            Ok(false) => {
                return Ok(());
            },
            Err(e) => {
                return Err(e);
            },
        }
    } else {
        let key: i64 = event.threshold_or_state_key();
        match app.db.dispatch_already_sent(node_id, name, key) {
            Ok(false) => {},
            Ok(true) => {
                return Ok(());
            },
            Err(e) => {
                return Err(e);
            },
        }
        match app.db.record_dispatch(node_id, name, key, now) {
            Ok(true) => {},
            Ok(false) => {
                return Ok(());
            },
            Err(e) => {
                return Err(e);
            },
        }
    }
    app.plugins.dispatch(&app.db, event);
    Ok(())
}

// ---------------------------------------------------------------------------
// Laws
// ---------------------------------------------------------------------------

/// The state rows of a log: each has the key 0, and no node has both sides.
pub open spec fn one_side_each(log: Map<(i64, Seq<char>, i64), LogRowModel>) -> bool {
    &&& log.dom().finite()
    &&& forall|k: (i64, Seq<char>, i64)| #[trigger]
        log.contains_key(k) && is_state_name(k.1) ==> k.2 == 0
    &&& forall|node_id: i64|
        !(#[trigger] log.contains_key((node_id, "agent_offline"@, 0)) && log.contains_key(
            (node_id, "agent_online"@, 0),
        ))
}

/// An event as it may be emitted: a plugin's bears a plugin's name.
pub open spec fn well_named(event: EventModel) -> bool {
    event matches EventModel::Plugin { name, .. } ==> is_plugin_event(name)
}

/// A row of the log comes before another one in the reports of a node: it is
/// later, or at the same time and first in the order of the log.
pub open spec fn outranks(
    log: Map<(i64, Seq<char>, i64), LogRowModel>,
    a: (i64, Seq<char>, i64),
    b: (i64, Seq<char>, i64),
) -> bool {
    ||| log[a].sent_at > log[b].sent_at
    ||| log[a].sent_at == log[b].sent_at && <LogKey as RowKey>::before(a, b)
}

/// Every report of the other side on a node is outranked by one of this side.
pub open spec fn side_prevails(
    log: Map<(i64, Seq<char>, i64), LogRowModel>,
    node_id: i64,
    name: Seq<char>,
) -> bool {
    forall|k: (i64, Seq<char>, i64)| #[trigger]
        log.contains_key(k) && k.0 == node_id && opposite(name) == Some(k.1) ==> exists|
            j: (i64, Seq<char>, i64),
        | #[trigger]
            log.contains_key(j) && j.0 == node_id && j.1 == name && outranks(log, j, k)
}

/// The row at `i` is the latest report on a node.
spec fn is_latest_at(
    rows: Seq<((i64, Seq<char>, i64), LogRowModel)>,
    node_id: i64,
    i: int,
) -> bool {
    &&& 0 <= i < rows.len()
    &&& is_state_row(rows[i].0, node_id)
    &&& forall|j: int|
        0 <= j < rows.len() && is_state_row((#[trigger] rows[j]).0, node_id) ==> rows[j].1.sent_at
            < rows[i].1.sent_at || (rows[j].1.sent_at == rows[i].1.sent_at && i <= j)
}

proof fn lemma_plugin_name_is_no_state(name: Seq<char>)
    requires
        is_plugin_event(name),
    ensures
        !is_state_name(name),
{
    reveal_strlit("plugin_");
    reveal_strlit("agent_offline");
    reveal_strlit("agent_online");
    assert(name.take(7)[0] == 'p');
    assert(name[0] == 'p');
    assert("agent_offline"@[0] == 'a');
    assert("agent_online"@[0] == 'a');
}

/// What the latest report among rows is: a row of the node, if there is any;
/// none of the node's rows is later, and those at the same time come behind it.
proof fn lemma_latest_in(rows: Seq<((i64, Seq<char>, i64), LogRowModel)>, node_id: i64)
    ensures
        match latest_in(rows, node_id) {
            Some((name, sent_at)) => exists|i: int|
                is_latest_at(rows, node_id, i) && rows[i].0.1 == name && rows[i].1.sent_at
                    == sent_at,
            None => forall|i: int|
                0 <= i < rows.len() ==> !is_state_row((#[trigger] rows[i]).0, node_id),
        },
    decreases rows.len(),
{
    if rows.len() > 0 {
        let front = rows.drop_last();
        let last = rows.len() - 1;
        lemma_latest_in(front, node_id);
        assert(forall|i: int| 0 <= i < front.len() ==> front[i] == #[trigger] rows[i]);
        match latest_in(rows, node_id) {
            Some((name, sent_at)) => {
                let taken = is_state_row(rows[last].0, node_id) && (latest_in(
                    front,
                    node_id,
                ) matches Some(e) ==> e.1 < rows[last].1.sent_at);
                if taken {
                    if latest_in(front, node_id) is Some {
                        let e = latest_in(front, node_id)->0;
                        let i = choose|i: int|
                            is_latest_at(front, node_id, i) && front[i].0.1 == e.0
                                && front[i].1.sent_at == e.1;
                        assert(is_latest_at(front, node_id, i));
                    }
                    assert(is_latest_at(rows, node_id, last));
                } else {
                    let i = choose|i: int|
                        is_latest_at(front, node_id, i) && front[i].0.1 == name
                            && front[i].1.sent_at == sent_at;
                    assert(is_latest_at(rows, node_id, i));
                }
            },
            None => {},
        }
    }
}

/// Where every node has one side at most, a node is on a side exactly where
/// that side's row stands.
proof fn lemma_side_stands(
    log: Map<(i64, Seq<char>, i64), LogRowModel>,
    node_id: i64,
    name: Seq<char>,
)
    requires
        one_side_each(log),
        is_state_name(name),
    ensures
        stands(log, node_id, name) == log.contains_key((node_id, name, 0)),
{
    let rows = in_order::<LogKey, LogRowModel>(log);
    crate::table::lemma_listed::<LogKey, LogRowModel>(log);
    lemma_latest_in(rows, node_id);
    crate::db::lemma_state_names();
    if stands(log, node_id, name) {
        let latest = latest_state(log, node_id)->0;
        let i = choose|i: int|
            is_latest_at(rows, node_id, i) && rows[i].0.1 == latest.0 && rows[i].1.sent_at
                == latest.1;
        assert(log.contains_key(rows[i].0));
        assert(rows[i].0 == (node_id, name, 0i64));
    }
    if log.contains_key((node_id, name, 0)) {
        let i = choose|i: int| 0 <= i < rows.len() && (#[trigger] rows[i]).0 == (node_id, name, 0i64);
        assert(is_state_row(rows[i].0, node_id));
        let latest = latest_state(log, node_id)->0;
        let j = choose|j: int|
            is_latest_at(rows, node_id, j) && rows[j].0.1 == latest.0 && rows[j].1.sent_at
                == latest.1;
        assert(log.contains_key(rows[j].0));
        assert(rows[j].0 == (node_id, latest.0, 0i64));
        assert(!(log.contains_key((node_id, "agent_offline"@, 0)) && log.contains_key(
            (node_id, "agent_online"@, 0),
        )));
    }
}

/// Where a node has a report of a side, it is on that side exactly where the
/// side prevails.
proof fn lemma_prevailing_side_stands(
    log: Map<(i64, Seq<char>, i64), LogRowModel>,
    node_id: i64,
    name: Seq<char>,
    key: i64,
)
    requires
        log.dom().finite(),
        is_state_name(name),
        log.contains_key((node_id, name, key)),
    ensures
        stands(log, node_id, name) == side_prevails(log, node_id, name),
{
    let rows = in_order::<LogKey, LogRowModel>(log);
    crate::table::lemma_listed::<LogKey, LogRowModel>(log);
    lemma_latest_in(rows, node_id);
    crate::db::lemma_state_names();
    let own = choose|i: int| 0 <= i < rows.len() && (#[trigger] rows[i]).0 == (node_id, name, key);
    assert(is_state_row(rows[own].0, node_id));
    let latest = latest_state(log, node_id)->0;
    let i = choose|i: int|
        is_latest_at(rows, node_id, i) && rows[i].0.1 == latest.0 && rows[i].1.sent_at == latest.1;
    assert(is_latest_at(rows, node_id, i));
    let first = rows[i].0;
    assert(log.contains_key(first) && log[first] == rows[i].1);
    if first.1 == name {
        assert forall|k: (i64, Seq<char>, i64)| #[trigger]
            log.contains_key(k) && k.0 == node_id && opposite(name) == Some(k.1) implies exists|
            j: (i64, Seq<char>, i64),
        | #[trigger] log.contains_key(j) && j.0 == node_id && j.1 == name && outranks(log, j, k) by {
            let at = choose|at: int| 0 <= at < rows.len() && (#[trigger] rows[at]).0 == k;
            assert(is_state_row(rows[at].0, node_id));
            if i < at {
                assert(<LogKey as RowKey>::before(rows[i].0, rows[at].0));
            }
            assert(outranks(log, first, k));
        }
    } else {
        assert(opposite(name) == Some(first.1));
        if side_prevails(log, node_id, name) {
            let j = choose|j: (i64, Seq<char>, i64)| #[trigger]
                log.contains_key(j) && j.0 == node_id && j.1 == name && outranks(log, j, first);
            let at = choose|at: int| 0 <= at < rows.len() && (#[trigger] rows[at]).0 == j;
            assert(is_state_row(rows[at].0, node_id));
            if i < at {
                assert(<LogKey as RowKey>::before(rows[i].0, rows[at].0));
                LogKey::lemma_transitive(first, j, first);
                LogKey::lemma_irreflexive(first);
            } else if i == at {
                LogKey::lemma_irreflexive(first);
            }
            assert(false);
        }
    }
}

/// Whatever is emitted, no node ever has both sides in the log, and state rows
/// keep the key 0.
pub proof fn law_one_side_each(app: AppModel, event: EventModel, now: i64)
    requires
        one_side_each(app.db.log),
        well_named(event),
    ensures
        one_side_each(emitted(app, event, now).db.log),
{
    crate::db::lemma_state_names();
    let log = app.db.log;
    let after = emitted(app, event, now).db.log;
    if let EventModel::Plugin { name, .. } = event {
        lemma_plugin_name_is_no_state(name);
    }
    assert forall|node_id: i64|
        !(#[trigger] after.contains_key((node_id, "agent_offline"@, 0)) && after.contains_key(
            (node_id, "agent_online"@, 0),
        )) by {
        assert(!(log.contains_key((node_id, "agent_offline"@, 0)) && log.contains_key(
            (node_id, "agent_online"@, 0),
        )));
    }
}

/// An event that was emitted is reported: its row stands, and a second emission
/// of the same alert changes nothing, whenever it comes and whatever else its
/// payload says.
pub proof fn law_emitted_once(
    app: AppModel,
    first: EventModel,
    again: EventModel,
    now: i64,
    later: i64,
)
    requires
        first.is_state() ==> one_side_each(app.db.log),
        first.is_state() == again.is_state(),
        first.log_key() == again.log_key(),
    ensures
        emitted(app, first, now).db.log.contains_key(first.log_key()),
        emitted(emitted(app, first, now), again, later) == emitted(app, first, now),
{
    crate::db::lemma_state_names();
    let after = emitted(app, first, now);
    if first.is_state() {
        let node_id = first.node_id();
        let name = first.event_type();
        lemma_side_stands(app.db.log, node_id, name);
        law_one_side_each(app, first, now);
        lemma_side_stands(after.db.log, node_id, name);
        assert(after.db.log.contains_key((node_id, name, 0)));
    }
}

/// Going over to the other side clears the side on which the node was, so that
/// coming back is a new alert: it is recorded and handed to the plugins.
pub proof fn law_flip_realerts(
    app: AppModel,
    one: EventModel,
    other: EventModel,
    now: i64,
    later: i64,
)
    requires
        one_side_each(app.db.log),
        one.is_state(),
        other.is_state(),
        one.node_id() == other.node_id(),
        one.event_type() != other.event_type(),
    ensures
        !emitted(app, other, now).db.log.contains_key(one.log_key()),
        emitted(emitted(app, other, now), one, later).plugins == emitted(
            app,
            other,
            now,
        ).plugins.handed(one, app.db.settings),
        emitted(emitted(app, other, now), one, later).db.log.contains_key(one.log_key()),
{
    crate::db::lemma_state_names();
    let after = emitted(app, other, now);
    let node_id = one.node_id();
    lemma_side_stands(app.db.log, node_id, other.event_type());
    law_one_side_each(app, other, now);
    lemma_side_stands(after.db.log, node_id, one.event_type());
    assert(!(app.db.log.contains_key((node_id, "agent_offline"@, 0)) && app.db.log.contains_key(
        (node_id, "agent_online"@, 0),
    )));
}

/// An alert that was not reported is recorded and handed to the plugins once:
/// another side, another tier, another cycle and another node alert anew.
pub proof fn law_new_alert_is_dispatched(app: AppModel, event: EventModel, now: i64)
    requires
        !already_reported(app.db.log, event),
    ensures
        ({
            let after = emitted(app, event, now);
            &&& after.db.log.contains_key(event.log_key())
            &&& after.db.log[event.log_key()] == fresh_row(now)
            &&& after.db.log == reported(app.db.log, event, now)
            &&& !event.is_state() ==> after.db.log == app.db.log.insert(
                event.log_key(),
                fresh_row(now),
            )
            &&& after.plugins == app.plugins.handed(event, app.db.settings)
            &&& after.plugins.dispatched == app.plugins.dispatched.wrapping_add(1)
        }),
{
    crate::db::lemma_state_names();
}

/// Of two emissions of the same alert in a row, the second changes nothing and
/// is not dispatched: always so for a plugin's event and for a node that was on
/// that side before. For a node that changes sides it is so exactly where the
/// new side prevails in the log, which it does unless a report of the other
/// side under another key is later.
pub proof fn law_repeated_emission(
    app: AppModel,
    first: EventModel,
    again: EventModel,
    now: i64,
    later: i64,
)
    requires
        app.db.log.dom().finite(),
        first.is_state() == again.is_state(),
        first.log_key() == again.log_key(),
    ensures
        emitted(emitted(app, first, now), again, later) == emitted(app, first, now) <==> {
            ||| !first.is_state()
            ||| already_reported(app.db.log, first)
            ||| side_prevails(
                reported(app.db.log, first, now),
                first.node_id(),
                first.event_type(),
            )
        },
        one_side_each(app.db.log) && first.is_state() && !already_reported(app.db.log, first)
            ==> side_prevails(
            reported(app.db.log, first, now),
            first.node_id(),
            first.event_type(),
        ),
{
    crate::db::lemma_state_names();
    let once = emitted(app, first, now);
    if first.is_state() && !already_reported(app.db.log, first) {
        law_new_alert_is_dispatched(app, first, now);
        assert(once.db.log.contains_key((first.node_id(), first.event_type(), 0i64)));
        lemma_prevailing_side_stands(once.db.log, first.node_id(), first.event_type(), 0);
        assert(already_reported(once.db.log, again) == stands(
            once.db.log,
            first.node_id(),
            first.event_type(),
        ));
        if !already_reported(once.db.log, again) {
            law_new_alert_is_dispatched(once, again, later);
            let twice = emitted(once, again, later);
            assert(twice.plugins.dispatched != once.plugins.dispatched);
        }
    } else if !first.is_state() && !already_reported(app.db.log, first) {
        law_new_alert_is_dispatched(app, first, now);
    }
}

/// A suppressed emission leaves no row and no dispatch.
pub proof fn law_duplicate_changes_nothing(app: AppModel, event: EventModel, now: i64)
    requires
        already_reported(app.db.log, event),
    ensures
        emitted(app, event, now) == app,
{
}

proof fn lemma_tier_key(tier: i64, day: i64)
    requires
        i64::MIN <= tier * 1_000_000 <= i64::MAX,
        i64::MIN <= tier * 1_000_000 + day <= i64::MAX,
    ensures
        tier_key(tier, day) == tier * 1_000_000 + day,
{
    assert(tier.wrapping_mul(1_000_000) == tier * 1_000_000);
}

/// The key of an expiry tells its tier and its day apart from any other, for
/// every tier whose key fits 64 bits and every day below a million. The key
/// divided by a million is the tier.
pub proof fn law_key_tells_tier_and_cycle(
    name1: Seq<char>,
    tier1: i64,
    day1: i64,
    name2: Seq<char>,
    tier2: i64,
    day2: i64,
)
    requires
        i64::MIN <= tier1 * 1_000_000,
        tier1 * 1_000_000 + day1 <= i64::MAX,
        i64::MIN <= tier2 * 1_000_000,
        tier2 * 1_000_000 + day2 <= i64::MAX,
        0 <= day1 < 1_000_000,
        0 <= day2 < 1_000_000,
        tier1 != 0 || day1 != 0,
        tier2 != 0 || day2 != 0,
    ensures
        cycle_key(name1, tier1, day1) == tier1 * 1_000_000 + day1,
        cycle_key(name1, tier1, day1) as int / 1_000_000 == tier1,
        cycle_key(name1, tier1, day1) == cycle_key(name2, tier2, day2) <==> tier1 == tier2 && day1
            == day2,
{
    lemma_tier_key(tier1, day1);
    lemma_tier_key(tier2, day2);
    let key1 = tier1 * 1_000_000 + day1;
    let key2 = tier2 * 1_000_000 + day2;
    assert(key1 / 1_000_000 == tier1 && key2 / 1_000_000 == tier2);
    assert(key1 != 0 && key2 != 0);
}

/// The keys of an event's JSON object are distinct, and the first of them is
/// `type` with the event's name, whatever the payload holds.
pub proof fn law_json_is_tagged(event: EventModel)
    requires
        event matches EventModel::Plugin { payload, .. } ==> unique_keys(payload),
    ensures
        event.json_members().len() > 0,
        event.json_members()[0] == ("type"@, crate::json::quoted(event.event_type())),
        forall|i: int, j: int|
            0 <= i < j < event.json_members().len() ==> (#[trigger] event.json_members()[i]).0 != (
            #[trigger] event.json_members()[j]).0,
{
    let members = event.json_members();
    match event {
        EventModel::Plugin { payload, .. } => {
            lemma_payload_keys(payload);
            let rest = payload_json_members(payload);
            assert forall|i: int, j: int| 0 <= i < j < members.len() implies (
            #[trigger] members[i]).0 != (#[trigger] members[j]).0 by {
                assert(members[j] == rest[j - 1]);
                if i > 0 {
                    assert(members[i] == rest[i - 1]);
                }
            }
        },
        _ => {
            reveal_strlit("type");
            reveal_strlit("node_id");
            reveal_strlit("name");
            reveal_strlit("observed_at");
            reveal_strlit("last_seen_at");
            assert("type"@[0] != "name"@[0]);
            assert("type"@.len() == 4 && "name"@.len() == 4 && "node_id"@.len() == 7);
            assert("observed_at"@.len() == 11 && "last_seen_at"@.len() == 12);
        },
    }
}

proof fn lemma_payload_keys(payload: Seq<MemberModel>)
    requires
        unique_keys(payload),
    ensures
        forall|i: int|
            0 <= i < payload_json_members(payload).len() ==> (
            #[trigger] payload_json_members(payload)[i]).0 != "type"@,
        forall|i: int, j: int|
            0 <= i < j < payload_json_members(payload).len() ==> (
            #[trigger] payload_json_members(payload)[i]).0 != (
            #[trigger] payload_json_members(payload)[j]).0,
    decreases payload.len(),
{
    reveal(Seq::filter);
    let p = |m: MemberModel| m.0 != "type"@;
    let f = |m: MemberModel| (m.0, m.1);
    let all = payload_json_members(payload);
    if payload.len() > 0 {
        let front = payload.drop_last();
        assert forall|i: int, j: int| 0 <= i < j < front.len() implies (#[trigger] front[i]).0 != (
        #[trigger] front[j]).0 by {
            assert(payload[i] == front[i] && payload[j] == front[j]);
        }
        lemma_payload_keys(front);
        let before = payload_json_members(front);
        if p(payload.last()) {
            assert(all =~= before.push(f(payload.last())));
            assert forall|i: int| 0 <= i < before.len() implies (#[trigger] before[i]).0
                != payload.last().0 by {
                let kept = front.filter(p);
                assert(kept.contains(kept[i]));
                crate::table::lemma_filter_member(front, p, kept[i]);
                let k = choose|k: int| 0 <= k < front.len() && front[k] == kept[i];
                assert(payload[k] == kept[i]);
                assert(payload[k].0 != payload[payload.len() - 1].0);
            }
            assert forall|i: int, j: int| 0 <= i < j < all.len() implies (#[trigger] all[i]).0 != (
            #[trigger] all[j]).0 by {
                assert(all[i] == before[i]);
                if j < before.len() {
                    assert(all[j] == before[j]);
                }
            }
            assert forall|i: int| 0 <= i < all.len() implies (#[trigger] all[i]).0 != "type"@ by {
                if i < before.len() {
                    assert(all[i] == before[i]);
                }
            }
        } else {
            assert(all =~= before);
        }
    }
}

} // verus!
