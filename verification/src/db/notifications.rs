//! The notification log: what was sent, and on which side each node stands.

use vstd::prelude::*;

use crate::db::{Db, DbError, DbModel, LogKey, LogRow, LogRowModel};
use crate::notification_bus::Event;
use crate::text::same_text;

verus! {

broadcast use vstd::seq_lib::group_seq_properties;

/// The names of the two state events.
pub open spec fn is_state_name(name: Seq<char>) -> bool {
    name == "agent_offline"@ || name == "agent_online"@
}

/// The state event on the other side of `name`, if it names one.
pub open spec fn opposite(name: Seq<char>) -> Option<Seq<char>> {
    if name == "agent_offline"@ {
        Some("agent_online"@)
    } else if name == "agent_online"@ {
        Some("agent_offline"@)
    } else {
        None
    }
}

/// The two state events have different names.
pub proof fn lemma_state_names()
    ensures
        "agent_offline"@ != "agent_online"@,
{
    reveal_strlit("agent_offline");
    reveal_strlit("agent_online");
    assert("agent_offline"@.len() != "agent_online"@.len());
}

/// The state event on the other side of `event_type`, if it names one. A state
/// event's row and its opposite's are a pair: at most one may stand, or the hub
/// would replay "offline" while the node is already known to be offline.
pub fn opposite_state(event_type: &str) -> (r: Option<&'static str>)
    ensures
        match r {
            Some(other) => opposite(event_type@) == Some(other@),
            None => opposite(event_type@) is None,
        },
{
    if same_text(event_type, Event::AGENT_OFFLINE) {
        Some(Event::AGENT_ONLINE)
    } else if same_text(event_type, Event::AGENT_ONLINE) {
        Some(Event::AGENT_OFFLINE)
    } else {
        None
    }
}

/// A row of the log that reports a node's state.
pub open spec fn is_state_row(k: (i64, Seq<char>, i64), node_id: i64) -> bool {
    k.0 == node_id && is_state_name(k.1)
}

/// The latest state report on a node among `rows`: its name and its time. Of
/// two at the same time the first of the rows.
pub open spec fn latest_in(
    rows: Seq<((i64, Seq<char>, i64), LogRowModel)>,
    node_id: i64,
) -> Option<(Seq<char>, i64)>
    decreases rows.len(),
{
    if rows.len() == 0 {
        None
    } else {
        let earlier = latest_in(rows.drop_last(), node_id);
        let row = rows.last();
        if is_state_row(row.0, node_id) && (earlier matches Some(e) ==> e.1 < row.1.sent_at) {
            Some((row.0.1, row.1.sent_at))
        } else {
            earlier
        }
    }
}

/// The latest state report on a node.
pub open spec fn latest_state(
    log: Map<(i64, Seq<char>, i64), LogRowModel>,
    node_id: i64,
) -> Option<(Seq<char>, i64)> {
    latest_in(crate::table::in_order::<LogKey, LogRowModel>(log), node_id)
}

/// The node's latest report is of this state.
pub open spec fn stands(
    log: Map<(i64, Seq<char>, i64), LogRowModel>,
    node_id: i64,
    event_type: Seq<char>,
) -> bool {
    latest_state(log, node_id) matches Some(latest) && latest.0 == event_type
}

/// A dispatch that was recorded and not yet answered.
pub open spec fn fresh_row(sent_at: i64) -> LogRowModel {
    LogRowModel { sent_at, success: false, detail: ""@ }
}

/// The log after a node went over to a state: that state's row stands, the
/// opposite one is gone. State rows have the key 0.
pub open spec fn flipped(
    log: Map<(i64, Seq<char>, i64), LogRowModel>,
    node_id: i64,
    event_type: Seq<char>,
    sent_at: i64,
) -> Map<(i64, Seq<char>, i64), LogRowModel> {
    let written = log.insert((node_id, event_type, 0), fresh_row(sent_at));
    match opposite(event_type) {
        Some(other) => written.remove((node_id, other, 0)),
        None => written,
    }
}

fn log_key(node_id: i64, event_type: &str, key: i64) -> (k: LogKey)
    ensures
        k@ == (node_id, event_type@, key),
{
    LogKey { node_id, event_type: event_type.to_owned(), key }
}

impl Db {
    /// Whether this dispatch has been recorded. The key tells the tiers and the
    /// cycles of an expiry apart: one alert per node, per tier, per cycle.
    pub fn dispatch_already_sent(&self, node_id: i64, event_type: &str, key: i64) -> (r: Result<
        bool,
        DbError,
    >)
        requires
            self.wf(),
        ensures
            r matches Ok(sent) && sent == self@.log.contains_key((node_id, event_type@, key)),
    {
        Ok(self.log.contains(&log_key(node_id, event_type, key)))
    }

    /// Records a dispatch. Returns false and changes nothing where it stands
    /// already, so that the caller knows its own to be the duplicate.
    pub fn record_dispatch(&mut self, node_id: i64, event_type: &str, key: i64, sent_at: i64) -> (r:
        Result<bool, DbError>)
        requires
            old(self).wf(),
        ensures
            final(self).wf(),
            r matches Ok(recorded) && recorded == !old(self)@.log.contains_key(
                (node_id, event_type@, key),
            ),
            final(self)@ == (if old(self)@.log.contains_key((node_id, event_type@, key)) {
                old(self)@
            } else {
                DbModel {
                    log: old(self)@.log.insert((node_id, event_type@, key), fresh_row(sent_at)),
                    ..old(self)@
                }
            }),
    {
        let k = log_key(node_id, event_type, key);
        if self.log.contains(&k) {
            return Ok(false);
        }
        let _ = self.log.put(k, LogRow { sent_at, success: false, detail: "".to_owned() });
        Ok(true)
    }

    /// The node's most recent state event, whichever side it was.
    pub fn current_state_event(&self, node_id: i64) -> (r: Result<Option<(String, i64)>, DbError>)
        requires
            self.wf(),
        ensures
            match r {
                Ok(Some((name, sent_at))) => latest_state(self@.log, node_id) == Some(
                    (name@, sent_at),
                ),
                Ok(None) => latest_state(self@.log, node_id) is None,
                Err(_) => false,
            },
    {
        let n: usize = self.log.len();
        let ghost rows = crate::table::in_order::<LogKey, LogRowModel>(self@.log);
        let mut latest: Option<(String, i64)> = None;
        let mut i: usize = 0;
        assert(rows.take(0) =~= Seq::<((i64, Seq<char>, i64), LogRowModel)>::empty());
        while i < n
            invariant
                i <= n,
                n == rows.len(),
                n == self@.log.len(),
                self.wf(),
                rows == crate::table::in_order::<LogKey, LogRowModel>(self@.log),
                match latest {
                    Some((name, sent_at)) => latest_in(rows.take(i as int), node_id) == Some(
                        (name@, sent_at),
                    ),
                    None => latest_in(rows.take(i as int), node_id) is None,
                },
            decreases n - i,
        {
            assert(rows.take(i + 1).drop_last() =~= rows.take(i as int));
            let key = self.log.key_at(i);
            let row = self.log.value_at(i);
            let name = key.event_type.as_str();
            if key.node_id == node_id && (same_text(name, Event::AGENT_OFFLINE) || same_text(
                name,
                Event::AGENT_ONLINE,
            )) {
                let later = match &latest {
                    Some((_, sent_at)) => *sent_at < row.sent_at,
                    None => true,
                };
                if later {
                    latest = Some((key.event_type.clone(), row.sent_at));
                }
            }
            i = i + 1;
        }
        assert(rows.take(i as int) =~= rows);
        Ok(latest)
    }

    /// Takes the node over to `event_type` and clears the opposite side's row.
    /// Returns false without writing where the node is on that side already: an
    /// offline node with a flapping connection must not alert again.
    pub fn transition_state_event(&mut self, node_id: i64, event_type: &str, sent_at: i64) -> (r:
        Result<bool, DbError>)
        requires
            old(self).wf(),
        ensures
            final(self).wf(),
            r matches Ok(moved) && moved == !stands(old(self)@.log, node_id, event_type@),
            final(self)@ == (if stands(old(self)@.log, node_id, event_type@) {
                old(self)@
            } else {
                DbModel {
                    log: flipped(old(self)@.log, node_id, event_type@, sent_at),
                    ..old(self)@
                }
            }),
    {
        match self.current_state_event(node_id) {
            Err(e) => {
                return Err(e);
            },
            Ok(Some((current, _))) => {
                if same_text(current.as_str(), event_type) {
                    return Ok(false);
                }
            },
            Ok(None) => {},
        }
        let row = LogRow { sent_at, success: false, detail: "".to_owned() };
        let _ = self.log.put(log_key(node_id, event_type, 0), row);
        if let Some(other) = opposite_state(event_type) {
            let _ = self.log.delete(&log_key(node_id, other, 0));
        }
        Ok(true)
    }

    /// Writes the outcome of a dispatch back to its row, where there is one.
    pub fn mark_dispatch_result(
        &mut self,
        node_id: i64,
        event_type: &str,
        key: i64,
        success: bool,
        detail: &str,
    ) -> (r: Result<(), DbError>)
        requires
            old(self).wf(),
        ensures
            final(self).wf(),
            r is Ok,
            final(self)@ == with_result(
                old(self)@,
                (node_id, event_type@, key),
                success,
                detail@,
            ),
    {
        let k = log_key(node_id, event_type, key);
        if let Some(row) = self.log.take(&k) {
            let sent_at: i64 = row.sent_at;
            let changed = LogRow { sent_at, success, detail: detail.to_owned() };
            let ghost model = changed@;
            let _ = self.log.put(k, changed);
            assert(self@.log =~= old(self)@.log.insert((node_id, event_type@, key), model));
        } else {
            assert(self@.log =~= old(self)@.log);
        }
        Ok(())
    }

    /// The outcome of one dispatch, or `None` where no such row stands.
    pub fn notification_log_row(&self, node_id: i64, event_type: &str, key: i64) -> (r: Result<
        Option<(bool, String)>,
        DbError,
    >)
        requires
            self.wf(),
        ensures
            match r {
                Ok(Some((success, detail))) => {
                    let k = (node_id, event_type@, key);
                    &&& self@.log.contains_key(k)
                    &&& self@.log[k].success == success
                    &&& self@.log[k].detail == detail@
                },
                Ok(None) => !self@.log.contains_key((node_id, event_type@, key)),
                Err(_) => false,
            },
    {
        match self.log.get(&log_key(node_id, event_type, key)) {
            Some(row) => Ok(Some((row.success, row.detail.clone()))),
            None => Ok(None),
        }
    }
}

/// The database with the outcome of a dispatch in its row; where there is no
/// such row, the database unchanged.
pub open spec fn with_result(
    db: DbModel,
    k: (i64, Seq<char>, i64),
    success: bool,
    detail: Seq<char>,
) -> DbModel {
    if db.log.contains_key(k) {
        DbModel {
            log: db.log.insert(k, LogRowModel { success, detail, ..db.log[k] }),
            ..db
        }
    } else {
        db
    }
}

} // verus!
