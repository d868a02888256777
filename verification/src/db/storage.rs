//! Reading the tables out row by row, and putting kept rows back.

use vstd::prelude::*;

use crate::db::{DataKey, DataModel, DataRow, Db, DbModel, LogKey, LogRow, LogRowModel, PluginRow};
use crate::table::{in_order, lemma_listed, lists, RowKey};

verus! {

broadcast use vstd::seq_lib::group_seq_properties;

/// The table that comes of storing `rows` one after the other.
pub open spec fn rebuilt<K, B>(rows: Seq<(K, B)>) -> Map<K, B>
    decreases rows.len(),
{
    if rows.len() == 0 {
        Map::empty()
    } else {
        rebuilt(rows.drop_last()).insert(rows.last().0, rows.last().1)
    }
}

impl Db {
    /// The setting at a place in the order of the names.
    pub fn setting_at(&self, i: usize) -> (r: Option<(&str, &str)>)
        requires
            self.wf(),
        ensures
            match r {
                Some((key, value)) => {
                    &&& i < self@.settings.len()
                    &&& in_order::<String, Seq<char>>(self@.settings)[i as int] == (key@, value@)
                },
                None => i >= self@.settings.len(),
            },
    {
        if i < self.settings.len() {
            Some((self.settings.key_at(i).as_str(), self.settings.value_at(i).as_str()))
        } else {
            None
        }
    }

    /// The record at a place in the order of the plugins and the keys.
    pub fn record_at(&self, i: usize) -> (r: Option<(&DataKey, &DataRow)>)
        requires
            self.wf(),
        ensures
            match r {
                Some((key, row)) => {
                    &&& i < self@.data.len()
                    &&& in_order::<DataKey, DataModel>(self@.data)[i as int] == (key@, row@)
                },
                None => i >= self@.data.len(),
            },
    {
        if i < self.data.len() {
            Some((self.data.key_at(i), self.data.value_at(i)))
        } else {
            None
        }
    }

    /// The row of the notification log at a place in the order of its keys.
    pub fn notification_at(&self, i: usize) -> (r: Option<(&LogKey, &LogRow)>)
        requires
            self.wf(),
        ensures
            match r {
                Some((key, row)) => {
                    &&& i < self@.log.len()
                    &&& in_order::<LogKey, LogRowModel>(self@.log)[i as int] == (key@, row@)
                },
                None => i >= self@.log.len(),
            },
    {
        if i < self.log.len() {
            Some((self.log.key_at(i), self.log.value_at(i)))
        } else {
            None
        }
    }

    /// Puts a kept plugin back under its id. Returns false and changes nothing
    /// where the id or the `plugin_id` is taken.
    pub fn restore_plugin(&mut self, row: PluginRow) -> (stored: bool)
        requires
            old(self).wf(),
        ensures
            final(self).wf(),
            stored == (!old(self)@.plugins.contains_key(row.id) && !old(self)@.has_plugin(
                row.plugin_id@,
            )),
            final(self)@ == (if stored {
                DbModel { plugins: old(self)@.plugins.insert(row.id, row@), ..old(self)@ }
            } else {
                old(self)@
            }),
    {
        if self.plugins.contains(&row.id) || self.plugin_id_taken(row.plugin_id.as_str()) {
            return false;
        }
        let id: i64 = row.id;
        let _ = self.plugins.put(id, row);
        true
    }

    /// Puts a kept row of the notification log back.
    pub fn restore_notification(&mut self, key: LogKey, row: LogRow)
        requires
            old(self).wf(),
        ensures
            final(self).wf(),
            final(self)@ == (DbModel { log: old(self)@.log.insert(key@, row@), ..old(self)@ }),
    {
        let _ = self.log.put(key, row);
    }
}

/// A table that is read out row by row and stored row by row again is the same
/// table.
pub proof fn law_rows_rebuild_their_table<K: RowKey, B>(table: Map<<K as View>::V, B>)
    requires
        table.dom().finite(),
    ensures
        rebuilt(in_order::<K, B>(table)) == table,
{
    lemma_listed::<K, B>(table);
    lemma_rebuilt::<K, B>(in_order::<K, B>(table), table);
}

proof fn lemma_rebuilt<K: RowKey, B>(
    rows: Seq<(<K as View>::V, B)>,
    table: Map<<K as View>::V, B>,
)
    requires
        lists::<K, B>(rows, table),
    ensures
        rebuilt(rows) == table,
    decreases rows.len(),
{
    if rows.len() == 0 {
        assert(rebuilt(rows) =~= table);
    } else {
        let last = rows.last();
        let front = rows.drop_last();
        let rest = table.remove(last.0);
        assert forall|i: int| 0 <= i < front.len() implies rest.contains_key(
            (#[trigger] front[i]).0,
        ) && rest[front[i].0] == front[i].1 by {
            assert(front[i] == rows[i]);
            assert(K::before(rows[i].0, rows[rows.len() - 1].0));
            K::lemma_irreflexive(last.0);
        }
        assert forall|k: <K as View>::V| #[trigger] rest.contains_key(k) implies exists|i: int|
            0 <= i < front.len() && (#[trigger] front[i]).0 == k by {
            let i = choose|i: int| 0 <= i < rows.len() && (#[trigger] rows[i]).0 == k;
            assert(front[i] == rows[i]);
        }
        assert(lists::<K, B>(front, rest));
        lemma_rebuilt::<K, B>(front, rest);
        assert(rest.insert(last.0, last.1) =~= table);
    }
}

} // verus!
