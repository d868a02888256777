//! The plugins' own records and their quota.

use vstd::prelude::*;
use vstd::utf8::*;

use crate::db::{opt_text, pair_texts, DataKey, DataModel, DataRow, Db, DbError, DbModel};
use crate::outside::{clock_second, utc_now};
use crate::table::RowKey;
use crate::text::{byte_len, same_text, starts_with};

verus! {

broadcast use vstd::seq_lib::group_seq_properties;

/// A record of one plugin whose key begins with `prefix`.
pub open spec fn record_test(plugin_id: Seq<char>, prefix: Seq<char>) -> spec_fn(
    ((Seq<char>, Seq<char>), DataModel),
) -> bool {
    |row: ((Seq<char>, Seq<char>), DataModel)|
        row.0.0 == plugin_id && prefix.is_prefix_of(row.0.1)
}

/// The records of one plugin whose keys begin with `prefix`, in the order of
/// their keys.
pub open spec fn data_pairs(
    data: Map<(Seq<char>, Seq<char>), DataModel>,
    plugin_id: Seq<char>,
    prefix: Seq<char>,
) -> Seq<(Seq<char>, Seq<char>)> {
    crate::table::in_order::<DataKey, DataModel>(data).filter(
        record_test(plugin_id, prefix),
    ).map_values(|row: ((Seq<char>, Seq<char>), DataModel)| (row.0.1, row.1.data))
}

/// The bytes of the records among `rows` that are one plugin's.
pub open spec fn bytes_in(
    rows: Seq<((Seq<char>, Seq<char>), DataModel)>,
    plugin_id: Seq<char>,
) -> nat
    decreases rows.len(),
{
    if rows.len() == 0 {
        0
    } else {
        bytes_in(rows.drop_last(), plugin_id) + (if rows.last().0.0 == plugin_id {
            encode_utf8(rows.last().1.data).len()
        } else {
            0
        })
    }
}

/// The records among `rows` that are one plugin's.
pub open spec fn count_in(
    rows: Seq<((Seq<char>, Seq<char>), DataModel)>,
    plugin_id: Seq<char>,
) -> nat
    decreases rows.len(),
{
    if rows.len() == 0 {
        0
    } else {
        count_in(rows.drop_last(), plugin_id) + (if rows.last().0.0 == plugin_id {
            1nat
        } else {
            0
        })
    }
}

/// How many bytes a plugin's records take.
pub open spec fn data_bytes(
    data: Map<(Seq<char>, Seq<char>), DataModel>,
    plugin_id: Seq<char>,
) -> nat {
    bytes_in(crate::table::in_order::<DataKey, DataModel>(data), plugin_id)
}

/// How many records a plugin has.
pub open spec fn data_count(
    data: Map<(Seq<char>, Seq<char>), DataModel>,
    plugin_id: Seq<char>,
) -> nat {
    count_in(crate::table::in_order::<DataKey, DataModel>(data), plugin_id)
}

/// A plugin's usage fits 64 bits.
pub open spec fn usage_fits(
    data: Map<(Seq<char>, Seq<char>), DataModel>,
    plugin_id: Seq<char>,
) -> bool {
    data_count(data, plugin_id) <= i64::MAX && data_bytes(data, plugin_id) <= i64::MAX
}

/// Some plugin has a record.
pub open spec fn has_data(
    data: Map<(Seq<char>, Seq<char>), DataModel>,
    plugin_id: Seq<char>,
) -> bool {
    exists|key: Seq<char>| #[trigger] data.contains_key((plugin_id, key))
}

/// One line for each plugin that has records, in the order of the `plugin_id`s,
/// with its usage.
pub open spec fn lists_usage(
    lines: Seq<(String, i64, i64)>,
    data: Map<(Seq<char>, Seq<char>), DataModel>,
) -> bool {
    &&& forall|i: int, j: int|
        0 <= i < j < lines.len() ==> crate::table::text_before(
            (#[trigger] lines[i]).0@,
            (#[trigger] lines[j]).0@,
        )
    &&& forall|i: int|
        0 <= i < lines.len() ==> {
            &&& has_data(data, (#[trigger] lines[i]).0@)
            &&& lines[i].1 == data_count(data, lines[i].0@)
            &&& lines[i].2 == data_bytes(data, lines[i].0@)
        }
    &&& forall|plugin_id: Seq<char>| #[trigger]
        has_data(data, plugin_id) ==> exists|i: int|
            0 <= i < lines.len() && (#[trigger] lines[i]).0@ == plugin_id
}

/// How many bytes a plugin's records take once `value` stands under `key`.
pub open spec fn bytes_after_put(
    data: Map<(Seq<char>, Seq<char>), DataModel>,
    plugin_id: Seq<char>,
    key: Seq<char>,
    value: Seq<char>,
) -> int {
    let standing = if data.contains_key((plugin_id, key)) {
        encode_utf8(data[(plugin_id, key)].data).len() as int
    } else {
        0
    };
    data_bytes(data, plugin_id) - standing + encode_utf8(value).len()
}

/// What a write of `value` under `key` at the second `now` leaves behind.
pub open spec fn with_record(
    db: DbModel,
    plugin_id: Seq<char>,
    key: Seq<char>,
    value: Seq<char>,
    now: i64,
) -> DbModel {
    DbModel {
        data: db.data.insert((plugin_id, key), DataModel { data: value, updated_at: now }),
        ..db
    }
}

/// What a write within a quota does at the second `now`: nothing where the
/// plugin's records would take more than `max` bytes.
pub open spec fn quota_outcome(
    before: DbModel,
    plugin_id: Seq<char>,
    key: Seq<char>,
    value: Seq<char>,
    max: i64,
    now: i64,
    r: Result<Option<bool>, DbError>,
    after: DbModel,
) -> bool {
    match r {
        Ok(Some(fresh)) => {
            &&& usage_fits(before.data, plugin_id)
            &&& bytes_after_put(before.data, plugin_id, key, value) <= max
            &&& fresh == !before.data.contains_key((plugin_id, key))
            &&& after == with_record(before, plugin_id, key, value, now)
        },
        Ok(None) => {
            &&& usage_fits(before.data, plugin_id)
            &&& bytes_after_put(before.data, plugin_id, key, value) > max
            &&& after == before
        },
        Err(e) => {
            &&& !usage_fits(before.data, plugin_id)
            &&& e == DbError::TooLarge
            &&& after == before
        },
    }
}

impl Db {
    /// Stores a record in place of the one that stood there. Returns whether
    /// it is new.
    pub fn plugin_data_put(&mut self, plugin_id: &str, key: &str, data: &str) -> (r: Result<
        bool,
        DbError,
    >)
        requires
            old(self).wf(),
        ensures
            final(self).wf(),
            r matches Ok(fresh) && fresh == !old(self)@.data.contains_key((plugin_id@, key@)),
            exists|now: i64|
                clock_second(now) && final(self)@ == #[trigger] with_record(
                    old(self)@,
                    plugin_id@,
                    key@,
                    data@,
                    now,
                ),
    {
        let now: i64 = utc_now();
        self.plugin_data_put_at(plugin_id, key, data, now)
    }

    /// Stores a record at the second `now`.
    pub fn plugin_data_put_at(&mut self, plugin_id: &str, key: &str, data: &str, now: i64) -> (r:
        Result<bool, DbError>)
        requires
            old(self).wf(),
        ensures
            final(self).wf(),
            r matches Ok(fresh) && fresh == !old(self)@.data.contains_key((plugin_id@, key@)),
            final(self)@ == with_record(old(self)@, plugin_id@, key@, data@, now),
    {
        let k = DataKey { plugin_id: plugin_id.to_owned(), record_key: key.to_owned() };
        let fresh = self.data.put(k, DataRow { data: data.to_owned(), updated_at: now });
        Ok(fresh)
    }

    /// Stores a record unless the plugin's records would then take more than
    /// `max` bytes; a record that is replaced counts with its increment only.
    /// Returns whether it is new, or `None` where it was not stored.
    pub fn plugin_data_put_within_quota(
        &mut self,
        plugin_id: &str,
        key: &str,
        value: &str,
        max: i64,
    ) -> (r: Result<Option<bool>, DbError>)
        requires
            old(self).wf(),
        ensures
            final(self).wf(),
            exists|now: i64|
                clock_second(now) && #[trigger] quota_outcome(
                    old(self)@,
                    plugin_id@,
                    key@,
                    value@,
                    max,
                    now,
                    r,
                    final(self)@,
                ),
    {
        let now: i64 = utc_now();
        self.plugin_data_put_within_quota_at(plugin_id, key, value, max, now)
    }

    /// Stores a record within a quota at the second `now`.
    pub fn plugin_data_put_within_quota_at(
        &mut self,
        plugin_id: &str,
        key: &str,
        value: &str,
        max: i64,
        now: i64,
    ) -> (r: Result<Option<bool>, DbError>)
        requires
            old(self).wf(),
        ensures
            final(self).wf(),
            quota_outcome(old(self)@, plugin_id@, key@, value@, max, now, r, final(self)@),
    {
        let (_, bytes) = match self.plugin_data_usage(plugin_id) {
            Ok(usage) => usage,
            Err(e) => {
                return Err(e);
            },
        };
        let k = DataKey { plugin_id: plugin_id.to_owned(), record_key: key.to_owned() };
        let standing: usize = match self.data.get(&k) {
            Some(row) => byte_len(row.data.as_str()),
            None => 0,
        };
        let total: i128 = bytes as i128 - standing as i128 + byte_len(value) as i128;
        if total > max as i128 {
            return Ok(None);
        }
        match self.plugin_data_put_at(plugin_id, key, value, now) {
            Ok(fresh) => Ok(Some(fresh)),
            Err(e) => Err(e),
        }
    }

    /// One record.
    pub fn plugin_data_get(&self, plugin_id: &str, key: &str) -> (r: Result<
        Option<String>,
        DbError,
    >)
        requires
            self.wf(),
        ensures
            r matches Ok(found) && opt_text(found) == (if self@.data.contains_key(
                (plugin_id@, key@),
            ) {
                Some(self@.data[(plugin_id@, key@)].data)
            } else {
                None
            }),
    {
        let k = DataKey { plugin_id: plugin_id.to_owned(), record_key: key.to_owned() };
        match self.data.get(&k) {
            Some(row) => Ok(Some(row.data.clone())),
            None => Ok(None),
        }
    }

    /// Deletes one record. Returns whether there was one.
    pub fn plugin_data_delete(&mut self, plugin_id: &str, key: &str) -> (r: Result<bool, DbError>)
        requires
            old(self).wf(),
        ensures
            final(self).wf(),
            r matches Ok(gone) && gone == old(self)@.data.contains_key((plugin_id@, key@)),
            final(self)@ == (DbModel {
                data: old(self)@.data.remove((plugin_id@, key@)),
                ..old(self)@
            }),
    {
        let k = DataKey { plugin_id: plugin_id.to_owned(), record_key: key.to_owned() };
        Ok(self.data.delete(&k))
    }

    /// A plugin's records whose keys begin with `prefix`, in the order of the
    /// keys. The empty prefix lists all.
    pub fn plugin_data_list(&self, plugin_id: &str, prefix: &str) -> (r: Result<
        Vec<(String, String)>,
        DbError,
    >)
        requires
            self.wf(),
        ensures
            r matches Ok(pairs) && pair_texts(pairs@) == data_pairs(
                self@.data,
                plugin_id@,
                prefix@,
            ),
    {
        let n: usize = self.data.len();
        let ghost rows = crate::table::in_order::<DataKey, DataModel>(self@.data);
        let ghost p = record_test(plugin_id@, prefix@);
        let ghost f = |row: ((Seq<char>, Seq<char>), DataModel)| (row.0.1, row.1.data);
        let mut pairs: Vec<(String, String)> = Vec::new();
        let mut i: usize = 0;
        assert(pair_texts(pairs@) =~= rows.take(0).filter(p).map_values(f)) by {
            reveal(Seq::filter);
        }
        while i < n
            invariant
                i <= n,
                n == rows.len(),
                n == self@.data.len(),
                self.wf(),
                rows == crate::table::in_order::<DataKey, DataModel>(self@.data),
                p == record_test(plugin_id@, prefix@),
                f == (|row: ((Seq<char>, Seq<char>), DataModel)| (row.0.1, row.1.data)),
                pair_texts(pairs@) == rows.take(i as int).filter(p).map_values(f),
            decreases n - i,
        {
            proof {
                crate::table::lemma_filter_step(rows, p, i as int);
            }
            let key = self.data.key_at(i);
            if same_text(key.plugin_id.as_str(), plugin_id) && starts_with(
                key.record_key.as_str(),
                prefix,
            ) {
                let ghost before = pairs@;
                pairs.push((key.record_key.clone(), self.data.value_at(i).data.clone()));
                assert(pair_texts(pairs@) =~= pair_texts(before).push(f(rows[i as int])));
                assert(rows.take(i as int).filter(p).push(rows[i as int]).map_values(f)
                    =~= rows.take(i as int).filter(p).map_values(f).push(f(rows[i as int])));
            }
            i = i + 1;
        }
        assert(rows.take(i as int) =~= rows);
        Ok(pairs)
    }

    /// How many records a plugin has and how many bytes they take.
    pub fn plugin_data_usage(&self, plugin_id: &str) -> (r: Result<(i64, i64), DbError>)
        requires
            self.wf(),
        ensures
            match r {
                Ok((count, bytes)) => {
                    &&& count == data_count(self@.data, plugin_id@)
                    &&& bytes == data_bytes(self@.data, plugin_id@)
                },
                Err(e) => !usage_fits(self@.data, plugin_id@) && e == DbError::TooLarge,
            },
    {
        let n: usize = self.data.len();
        let ghost rows = crate::table::in_order::<DataKey, DataModel>(self@.data);
        let mut count: u64 = 0;
        let mut bytes: u128 = 0;
        let mut i: usize = 0;
        assert(rows.take(0) =~= Seq::<((Seq<char>, Seq<char>), DataModel)>::empty());
        while i < n
            invariant
                i <= n,
                n == rows.len(),
                n == self@.data.len(),
                self.wf(),
                rows == crate::table::in_order::<DataKey, DataModel>(self@.data),
                count == count_in(rows.take(i as int), plugin_id@),
                bytes == bytes_in(rows.take(i as int), plugin_id@),
                count <= i,
                bytes <= i * 0xffff_ffff_ffff_ffff,
            decreases n - i,
        {
            assert(rows.take(i + 1).drop_last() =~= rows.take(i as int));
            if same_text(self.data.key_at(i).plugin_id.as_str(), plugin_id) {
                let len: usize = byte_len(self.data.value_at(i).data.as_str());
                assert(bytes + len <= (i + 1) * 0xffff_ffff_ffff_ffff) by (nonlinear_arith)
                    requires
                        bytes <= i * 0xffff_ffff_ffff_ffff,
                        len <= 0xffff_ffff_ffff_ffff,
                ;
                assert((i + 1) * 0xffff_ffff_ffff_ffff <= u128::MAX) by (nonlinear_arith)
                    requires
                        i + 1 <= 0xffff_ffff_ffff_ffff,
                ;
                count = count + 1;
                bytes = bytes + len as u128;
            } else {
                assert(bytes <= (i + 1) * 0xffff_ffff_ffff_ffff) by (nonlinear_arith)
                    requires
                        bytes <= i * 0xffff_ffff_ffff_ffff,
                ;
            }
            i = i + 1;
        }
        assert(rows.take(i as int) =~= rows);
        if count > i64::MAX as u64 || bytes > i64::MAX as u128 {
            return Err(DbError::TooLarge);
        }
        Ok((count as i64, bytes as i64))
    }

    /// The usage of every plugin that has records, in the order of the
    /// `plugin_id`s.
    pub fn plugin_data_usage_all(&self) -> (r: Result<Vec<(String, i64, i64)>, DbError>)
        requires
            self.wf(),
        ensures
            match r {
                Ok(lines) => lists_usage(lines@, self@.data),
                Err(e) => e == DbError::TooLarge && exists|plugin_id: Seq<char>|
                    has_data(self@.data, plugin_id) && !#[trigger] usage_fits(
                        self@.data,
                        plugin_id,
                    ),
            },
    {
        let n: usize = self.data.len();
        let ghost rows = crate::table::in_order::<DataKey, DataModel>(self@.data);
        let mut lines: Vec<(String, i64, i64)> = Vec::new();
        let mut i: usize = 0;
        while i < n
            invariant
                i <= n,
                n == rows.len(),
                n == self@.data.len(),
                self.wf(),
                rows == crate::table::in_order::<DataKey, DataModel>(self@.data),
                crate::table::lists::<DataKey, DataModel>(rows, self@.data),
                forall|a: int, b: int|
                    0 <= a < b < lines@.len() ==> crate::table::text_before(
                        (#[trigger] lines@[a]).0@,
                        (#[trigger] lines@[b]).0@,
                    ),
                forall|a: int|
                    0 <= a < lines@.len() ==> {
                        &&& has_data(self@.data, (#[trigger] lines@[a]).0@)
                        &&& lines@[a].1 == data_count(self@.data, lines@[a].0@)
                        &&& lines@[a].2 == data_bytes(self@.data, lines@[a].0@)
                    },
                forall|j: int|
                    0 <= j < i ==> exists|a: int|
                        0 <= a < lines@.len() && (#[trigger] lines@[a]).0@ == (
                        #[trigger] rows[j]).0.0,
                i > 0 ==> lines@.len() > 0 && lines@.last().0@ == rows[i - 1].0.0,
                i == 0 ==> lines@.len() == 0,
            decreases n - i,
        {
            let plugin_id = self.data.key_at(i).plugin_id.as_str();
            let seen = lines.len() > 0 && same_text(lines[lines.len() - 1].0.as_str(), plugin_id);
            let ghost before = lines@;
            assert(self@.data.contains_key(rows[i as int].0));
            assert(self@.data.contains_key((rows[i as int].0.0, rows[i as int].0.1)));
            if !seen {
                match self.plugin_data_usage(plugin_id) {
                    Err(e) => {
                        assert(has_data(self@.data, plugin_id@));
                        return Err(e);
                    },
                    Ok((count, bytes)) => {
                        lines.push((plugin_id.to_owned(), count, bytes));
                    },
                }
                proof {
                    let id = rows[i as int].0.0;
                    if i > 0 {
                        assert(<DataKey as RowKey>::before(rows[i - 1].0, rows[i as int].0));
                        assert forall|a: int| 0 <= a < before.len() implies crate::table::text_before(
                            (#[trigger] before[a]).0@,
                            id,
                        ) by {
                            if a < before.len() - 1 {
                                crate::table::lemma_text_transitive(
                                    before[a].0@,
                                    before.last().0@,
                                    id,
                                );
                            }
                        }
                    }
                    assert(lines@.last().0@ == id);
                    assert forall|j: int| 0 <= j < i + 1 implies exists|a: int|
                        0 <= a < lines@.len() && (#[trigger] lines@[a]).0@ == (
                        #[trigger] rows[j]).0.0 by {
                        if j < i {
                            let a = choose|a: int|
                                0 <= a < before.len() && (#[trigger] before[a]).0@ == rows[j].0.0;
                            assert(lines@[a].0@ == rows[j].0.0);
                        } else {
                            assert(lines@[lines@.len() - 1].0@ == rows[j].0.0);
                        }
                    }
                }
            } else {
                assert forall|j: int| 0 <= j < i + 1 implies exists|a: int|
                    0 <= a < lines@.len() && (#[trigger] lines@[a]).0@ == (
                    #[trigger] rows[j]).0.0 by {
                    if j == i {
                        assert(lines@[lines@.len() - 1].0@ == rows[j].0.0);
                    }
                }
            }
            i = i + 1;
        }
        proof {
            assert forall|plugin_id: Seq<char>| #[trigger]
                has_data(self@.data, plugin_id) implies exists|a: int|
                0 <= a < lines@.len() && (#[trigger] lines@[a]).0@ == plugin_id by {
                let key = choose|key: Seq<char>| #[trigger]
                    self@.data.contains_key((plugin_id, key));
                let j = choose|j: int|
                    0 <= j < rows.len() && (#[trigger] rows[j]).0 == (plugin_id, key);
                assert(rows[j].0.0 == plugin_id);
            }
        }
        Ok(lines)
    }
}

} // verus!
