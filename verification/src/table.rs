//! Tables: rows under unique keys, kept in the keys' order.

use vstd::prelude::*;
use vstd::utf8::*;

verus! {

/// How one key stands to another.
pub enum Rel {
    Before,
    Same,
    After,
}

/// A key of a table: a strict total order on what the key stands for.
pub trait RowKey: View + Sized {
    /// `a` comes before `b`.
    spec fn before(a: <Self as View>::V, b: <Self as View>::V) -> bool;

    proof fn lemma_irreflexive(a: <Self as View>::V)
        ensures
            !Self::before(a, a),
    ;

    proof fn lemma_transitive(
        a: <Self as View>::V,
        b: <Self as View>::V,
        c: <Self as View>::V,
    )
        requires
            Self::before(a, b),
            Self::before(b, c),
        ensures
            Self::before(a, c),
    ;

    proof fn lemma_total(a: <Self as View>::V, b: <Self as View>::V)
        ensures
            a == b || Self::before(a, b) || Self::before(b, a),
    ;

    /// Compares two keys.
    fn relate(&self, other: &Self) -> (r: Rel)
        ensures
            match r {
                Rel::Before => Self::before(self@, other@),
                Rel::Same => self@ == other@,
                Rel::After => Self::before(other@, self@),
            },
    ;
}

/// The rows stand in strictly ascending order of their keys.
pub open spec fn ascending<K: RowKey, B>(rows: Seq<(<K as View>::V, B)>) -> bool {
    forall|i: int, j: int|
        0 <= i < j < rows.len() ==> K::before((#[trigger] rows[i]).0, (#[trigger] rows[j]).0)
}

/// The rows are exactly those of `m`, in ascending order.
pub open spec fn lists<K: RowKey, B>(
    rows: Seq<(<K as View>::V, B)>,
    m: Map<<K as View>::V, B>,
) -> bool {
    &&& ascending::<K, B>(rows)
    &&& forall|i: int|
        0 <= i < rows.len() ==> m.contains_key((#[trigger] rows[i]).0) && m[rows[i].0] == rows[i].1
    &&& forall|k: <K as View>::V| #[trigger]
        m.contains_key(k) ==> exists|i: int| 0 <= i < rows.len() && (#[trigger] rows[i]).0 == k
}

/// The rows of `m` in the order of their keys.
pub open spec fn in_order<K: RowKey, B>(m: Map<<K as View>::V, B>) -> Seq<(<K as View>::V, B)> {
    choose|rows: Seq<(<K as View>::V, B)>| lists::<K, B>(rows, m)
}

/// There is one listing of a map in the order of its keys.
pub proof fn lemma_listing_unique<K: RowKey, B>(
    r1: Seq<(<K as View>::V, B)>,
    r2: Seq<(<K as View>::V, B)>,
    m: Map<<K as View>::V, B>,
)
    requires
        lists::<K, B>(r1, m),
        lists::<K, B>(r2, m),
    ensures
        r1 == r2,
    decreases r1.len(),
{
    if r1.len() == 0 {
        if r2.len() > 0 {
            assert(m.contains_key(r2[0].0));
        }
        assert(r1 =~= r2);
    } else {
        let k = r1[0].0;
        assert(m.contains_key(k));
        let j = choose|j: int| 0 <= j < r2.len() && (#[trigger] r2[j]).0 == k;
        if j > 0 {
            assert(K::before(r2[0].0, r2[j].0));
            let first = r2[0].0;
            assert(m.contains_key(first));
            let i = choose|i: int| 0 <= i < r1.len() && (#[trigger] r1[i]).0 == first;
            K::lemma_irreflexive(k);
            if i > 0 {
                assert(K::before(r1[0].0, r1[i].0));
                K::lemma_transitive(k, first, k);
            }
            assert(false);
        }
        let t1 = r1.drop_first();
        let t2 = r2.drop_first();
        let rest = m.remove(k);
        lemma_listing_tail::<K, B>(r1, m);
        lemma_listing_tail::<K, B>(r2, m);
        lemma_listing_unique::<K, B>(t1, t2, rest);
        assert(r1 =~= seq![r1[0]] + t1);
        assert(r2 =~= seq![r2[0]] + t2);
    }
}

proof fn lemma_listing_tail<K: RowKey, B>(
    rows: Seq<(<K as View>::V, B)>,
    m: Map<<K as View>::V, B>,
)
    requires
        lists::<K, B>(rows, m),
        rows.len() > 0,
    ensures
        lists::<K, B>(rows.drop_first(), m.remove(rows[0].0)),
{
    let tail = rows.drop_first();
    let rest = m.remove(rows[0].0);
    assert forall|i: int| 0 <= i < tail.len() implies rest.contains_key((#[trigger] tail[i]).0)
        && rest[tail[i].0] == tail[i].1 by {
        assert(tail[i] == rows[i + 1]);
        assert(K::before(rows[0].0, rows[i + 1].0));
        K::lemma_irreflexive(rows[0].0);
    }
    assert forall|k: <K as View>::V| #[trigger] rest.contains_key(k) implies exists|i: int|
        0 <= i < tail.len() && (#[trigger] tail[i]).0 == k by {
        assert(m.contains_key(k));
        let i = choose|i: int| 0 <= i < rows.len() && (#[trigger] rows[i]).0 == k;
        assert(tail[i - 1].0 == k);
    }
}

/// A listing is the listing.
pub proof fn lemma_in_order<K: RowKey, B>(
    rows: Seq<(<K as View>::V, B)>,
    m: Map<<K as View>::V, B>,
)
    requires
        lists::<K, B>(rows, m),
    ensures
        in_order::<K, B>(m) == rows,
{
    let chosen = in_order::<K, B>(m);
    assert(lists::<K, B>(chosen, m));
    lemma_listing_unique::<K, B>(chosen, rows, m);
}

/// A listing is as long as the map is large.
pub proof fn lemma_listing_len<K: RowKey, B>(
    rows: Seq<(<K as View>::V, B)>,
    m: Map<<K as View>::V, B>,
)
    requires
        lists::<K, B>(rows, m),
    ensures
        m.dom().finite(),
        m.len() == rows.len(),
    decreases rows.len(),
{
    if rows.len() == 0 {
        assert(m.dom() =~= Set::empty());
    } else {
        lemma_listing_tail::<K, B>(rows, m);
        lemma_listing_len::<K, B>(rows.drop_first(), m.remove(rows[0].0));
        assert(m.contains_key(rows[0].0));
        assert(m.dom() =~= m.remove(rows[0].0).dom().insert(rows[0].0));
    }
}

/// The listing after a row was inserted under a new key.
pub proof fn lemma_listing_insert<K: RowKey, B>(
    rows: Seq<(<K as View>::V, B)>,
    m: Map<<K as View>::V, B>,
    at: int,
    k: <K as View>::V,
    v: B,
)
    requires
        lists::<K, B>(rows, m),
        0 <= at <= rows.len(),
        forall|i: int| 0 <= i < at ==> K::before((#[trigger] rows[i]).0, k),
        forall|i: int| at <= i < rows.len() ==> K::before(k, (#[trigger] rows[i]).0),
    ensures
        !m.contains_key(k),
        lists::<K, B>(rows.insert(at, (k, v)), m.insert(k, v)),
{
    let wider = rows.insert(at, (k, v));
    let larger = m.insert(k, v);
    if m.contains_key(k) {
        let i = choose|i: int| 0 <= i < rows.len() && (#[trigger] rows[i]).0 == k;
        K::lemma_irreflexive(k);
    }
    assert forall|i: int, j: int| 0 <= i < j < wider.len() implies K::before(
        (#[trigger] wider[i]).0,
        (#[trigger] wider[j]).0,
    ) by {
        let p = if i < at {
            i
        } else {
            i - 1
        };
        let q = if j < at {
            j
        } else {
            j - 1
        };
        if i != at {
            assert(wider[i] == rows[p]);
        }
        if j != at {
            assert(wider[j] == rows[q]);
        }
    }
    assert forall|i: int| 0 <= i < wider.len() implies larger.contains_key((#[trigger] wider[i]).0)
        && larger[wider[i].0] == wider[i].1 by {
        if i < at {
            assert(wider[i] == rows[i]);
            K::lemma_irreflexive(k);
        } else if i > at {
            assert(wider[i] == rows[i - 1]);
            K::lemma_irreflexive(k);
        }
    }
    assert forall|x: <K as View>::V| #[trigger] larger.contains_key(x) implies exists|i: int|
        0 <= i < wider.len() && (#[trigger] wider[i]).0 == x by {
        if x == k {
            assert(wider[at].0 == x);
        } else {
            assert(m.contains_key(x));
            let i = choose|i: int| 0 <= i < rows.len() && (#[trigger] rows[i]).0 == x;
            if i < at {
                assert(wider[i].0 == x);
            } else {
                assert(wider[i + 1].0 == x);
            }
        }
    }
}

proof fn lemma_place<K: RowKey, B>(rows: Seq<(<K as View>::V, B)>, k: <K as View>::V) -> (at: int)
    requires
        ascending::<K, B>(rows),
        forall|i: int| 0 <= i < rows.len() ==> (#[trigger] rows[i]).0 != k,
    ensures
        0 <= at <= rows.len(),
        forall|i: int| 0 <= i < at ==> K::before((#[trigger] rows[i]).0, k),
        forall|i: int| at <= i < rows.len() ==> K::before(k, (#[trigger] rows[i]).0),
    decreases rows.len(),
{
    if rows.len() == 0 {
        0
    } else {
        let n = rows.len() - 1;
        K::lemma_total(rows[n].0, k);
        if K::before(rows[n].0, k) {
            assert forall|i: int| 0 <= i < rows.len() implies K::before((#[trigger] rows[i]).0, k) by {
                if i < n {
                    K::lemma_transitive(rows[i].0, rows[n].0, k);
                }
            }
            rows.len() as int
        } else {
            let shorter = rows.drop_last();
            assert forall|i: int| 0 <= i < shorter.len() implies (#[trigger] shorter[i]).0 != k by {
                assert(shorter[i] == rows[i]);
            }
            let at = lemma_place::<K, B>(shorter, k);
            assert forall|i: int| 0 <= i < at implies K::before((#[trigger] rows[i]).0, k) by {
                assert(shorter[i] == rows[i]);
            }
            assert forall|i: int| at <= i < rows.len() implies K::before(
                k,
                (#[trigger] rows[i]).0,
            ) by {
                if i < n {
                    assert(shorter[i] == rows[i]);
                }
            }
            at
        }
    }
}

/// Every finite map has a listing, and `in_order` is it.
pub proof fn lemma_listed<K: RowKey, B>(m: Map<<K as View>::V, B>)
    requires
        m.dom().finite(),
    ensures
        lists::<K, B>(in_order::<K, B>(m), m),
        in_order::<K, B>(m).len() == m.len(),
    decreases m.len(),
{
    if m.dom().len() == 0 {
        assert(m.dom() =~= Set::empty());
        let none = Seq::<(<K as View>::V, B)>::empty();
        assert forall|k: <K as View>::V| #[trigger] m.contains_key(k) implies false by {
            assert(m.dom().contains(k));
        }
        assert(lists::<K, B>(none, m));
    } else {
        let k = m.dom().choose();
        assert(m.dom().contains(k));
        let rest = m.remove(k);
        lemma_listed::<K, B>(rest);
        let rows = in_order::<K, B>(rest);
        assert forall|i: int| 0 <= i < rows.len() implies (#[trigger] rows[i]).0 != k by {
            assert(rest.contains_key(rows[i].0));
        }
        let at = lemma_place::<K, B>(rows, k);
        lemma_listing_insert::<K, B>(rows, rest, at, k, m[k]);
        assert(rest.insert(k, m[k]) =~= m);
    }
    lemma_listing_len::<K, B>(in_order::<K, B>(m), m);
}

/// The listing after a value was put under a key: one row is replaced, or one
/// is inserted.
pub proof fn lemma_in_order_put<K: RowKey, B>(m: Map<<K as View>::V, B>, k: <K as View>::V, v: B) -> (at:
    int)
    requires
        m.dom().finite(),
    ensures
        m.contains_key(k) ==> 0 <= at < in_order::<K, B>(m).len() && in_order::<K, B>(m)[at] == (
            k,
            m[k],
        ) && in_order::<K, B>(m.insert(k, v)) == in_order::<K, B>(m).update(at, (k, v)),
        !m.contains_key(k) ==> 0 <= at <= in_order::<K, B>(m).len() && in_order::<K, B>(
            m.insert(k, v),
        ) == in_order::<K, B>(m).insert(at, (k, v)),
{
    let rows = in_order::<K, B>(m);
    lemma_listed::<K, B>(m);
    if m.contains_key(k) {
        let at = choose|at: int| 0 <= at < rows.len() && (#[trigger] rows[at]).0 == k;
        assert(rows[at] == (k, m[k]));
        lemma_listing_update::<K, B>(rows, m, at, v);
        lemma_in_order::<K, B>(rows.update(at, (k, v)), m.insert(k, v));
        at
    } else {
        assert forall|i: int| 0 <= i < rows.len() implies (#[trigger] rows[i]).0 != k by {
            assert(m.contains_key(rows[i].0));
        }
        let at = lemma_place::<K, B>(rows, k);
        lemma_listing_insert::<K, B>(rows, m, at, k, v);
        lemma_in_order::<K, B>(rows.insert(at, (k, v)), m.insert(k, v));
        at
    }
}

/// The listing after a row was replaced.
pub proof fn lemma_listing_update<K: RowKey, B>(
    rows: Seq<(<K as View>::V, B)>,
    m: Map<<K as View>::V, B>,
    at: int,
    v: B,
)
    requires
        lists::<K, B>(rows, m),
        0 <= at < rows.len(),
    ensures
        lists::<K, B>(rows.update(at, (rows[at].0, v)), m.insert(rows[at].0, v)),
{
    let k = rows[at].0;
    let changed = rows.update(at, (k, v));
    let larger = m.insert(k, v);
    assert forall|i: int, j: int| 0 <= i < j < changed.len() implies K::before(
        (#[trigger] changed[i]).0,
        (#[trigger] changed[j]).0,
    ) by {
        assert(changed[i].0 == rows[i].0);
        assert(changed[j].0 == rows[j].0);
    }
    assert forall|i: int| 0 <= i < changed.len() implies larger.contains_key(
        (#[trigger] changed[i]).0,
    ) && larger[changed[i].0] == changed[i].1 by {
        assert(changed[i].0 == rows[i].0);
        K::lemma_irreflexive(k);
        if i < at {
            assert(K::before(rows[i].0, rows[at].0));
        } else if i > at {
            assert(K::before(rows[at].0, rows[i].0));
        }
    }
    assert forall|x: <K as View>::V| #[trigger] larger.contains_key(x) implies exists|i: int|
        0 <= i < changed.len() && (#[trigger] changed[i]).0 == x by {
        if x == k {
            assert(changed[at].0 == x);
        } else {
            assert(m.contains_key(x));
            let i = choose|i: int| 0 <= i < rows.len() && (#[trigger] rows[i]).0 == x;
            assert(changed[i].0 == x);
        }
    }
}

/// The listing after a row was removed.
pub proof fn lemma_listing_remove<K: RowKey, B>(
    rows: Seq<(<K as View>::V, B)>,
    m: Map<<K as View>::V, B>,
    at: int,
)
    requires
        lists::<K, B>(rows, m),
        0 <= at < rows.len(),
    ensures
        lists::<K, B>(rows.remove(at), m.remove(rows[at].0)),
{
    let k = rows[at].0;
    let fewer = rows.remove(at);
    let smaller = m.remove(k);
    assert forall|i: int, j: int| 0 <= i < j < fewer.len() implies K::before(
        (#[trigger] fewer[i]).0,
        (#[trigger] fewer[j]).0,
    ) by {
        let p = if i < at {
            i
        } else {
            i + 1
        };
        let q = if j < at {
            j
        } else {
            j + 1
        };
        assert(fewer[i] == rows[p]);
        assert(fewer[j] == rows[q]);
    }
    assert forall|i: int| 0 <= i < fewer.len() implies smaller.contains_key(
        (#[trigger] fewer[i]).0,
    ) && smaller[fewer[i].0] == fewer[i].1 by {
        K::lemma_irreflexive(k);
        if i < at {
            assert(fewer[i] == rows[i]);
            assert(K::before(rows[i].0, rows[at].0));
        } else {
            assert(fewer[i] == rows[i + 1]);
            assert(K::before(rows[at].0, rows[i + 1].0));
        }
    }
    assert forall|x: <K as View>::V| #[trigger] smaller.contains_key(x) implies exists|i: int|
        0 <= i < fewer.len() && (#[trigger] fewer[i]).0 == x by {
        assert(m.contains_key(x));
        let i = choose|i: int| 0 <= i < rows.len() && (#[trigger] rows[i]).0 == x;
        if i < at {
            assert(fewer[i].0 == x);
        } else {
            assert(fewer[i - 1].0 == x);
        }
    }
}

/// Filtering one more element.
pub proof fn lemma_filter_step<A>(s: Seq<A>, p: spec_fn(A) -> bool, i: int)
    requires
        0 <= i < s.len(),
    ensures
        s.take(i + 1).filter(p) == (if p(s[i]) {
            s.take(i).filter(p).push(s[i])
        } else {
            s.take(i).filter(p)
        }),
{
    reveal(Seq::filter);
    assert(s.take(i + 1).drop_last() =~= s.take(i));
}

/// What a filter keeps was there, and passes.
pub proof fn lemma_filter_member<A>(
    rows: Seq<A>,
    p: spec_fn(A) -> bool,
    x: A,
)
    requires
        rows.filter(p).contains(x),
    ensures
        rows.contains(x),
        p(x),
    decreases rows.len(),
{
    reveal(Seq::filter);
    if rows.len() > 0 {
        let front = rows.drop_last();
        let i = choose|i: int| 0 <= i < rows.filter(p).len() && rows.filter(p)[i] == x;
        if i < front.filter(p).len() {
            assert(front.filter(p)[i] == x);
            lemma_filter_member(front, p, x);
            let j = choose|j: int| 0 <= j < front.len() && front[j] == x;
            assert(rows[j] == x);
        } else {
            assert(rows[rows.len() - 1] == x);
        }
    }
}

/// What passes a filter is kept.
pub proof fn lemma_filter_keeps<A>(
    rows: Seq<A>,
    p: spec_fn(A) -> bool,
    x: A,
)
    requires
        rows.contains(x),
        p(x),
    ensures
        rows.filter(p).contains(x),
    decreases rows.len(),
{
    reveal(Seq::filter);
    let front = rows.drop_last();
    let i = choose|i: int| 0 <= i < rows.len() && rows[i] == x;
    if i < front.len() {
        assert(front[i] == x);
        lemma_filter_keeps(front, p, x);
        let j = choose|j: int| 0 <= j < front.filter(p).len() && front.filter(p)[j] == x;
        assert(rows.filter(p)[j] == x);
    } else {
        assert(rows.filter(p)[rows.filter(p).len() - 1] == x);
    }
}

/// A filter keeps the order of the rows.
pub proof fn lemma_filter_ascending<K: RowKey, B>(
    rows: Seq<(<K as View>::V, B)>,
    p: spec_fn((<K as View>::V, B)) -> bool,
)
    requires
        ascending::<K, B>(rows),
    ensures
        ascending::<K, B>(rows.filter(p)),
    decreases rows.len(),
{
    reveal(Seq::filter);
    if rows.len() > 0 {
        let front = rows.drop_last();
        assert forall|i: int, j: int| 0 <= i < j < front.len() implies K::before(
            (#[trigger] front[i]).0,
            (#[trigger] front[j]).0,
        ) by {
            assert(rows[i] == front[i] && rows[j] == front[j]);
        }
        lemma_filter_ascending::<K, B>(front, p);
        let kept = rows.filter(p);
        assert forall|i: int, j: int| 0 <= i < j < kept.len() implies K::before(
            (#[trigger] kept[i]).0,
            (#[trigger] kept[j]).0,
        ) by {
            if j == front.filter(p).len() {
                assert(kept[j] == rows.last());
                assert(front.filter(p)[i] == kept[i]);
                assert(front.filter(p).contains(kept[i]));
                lemma_filter_member(front, p, kept[i]);
                let k = choose|k: int| 0 <= k < front.len() && front[k] == kept[i];
                assert(rows[k] == kept[i]);
                assert(K::before(rows[k].0, rows[rows.len() - 1].0));
            } else {
                assert(front.filter(p)[i] == kept[i]);
                assert(front.filter(p)[j] == kept[j]);
            }
        }
    }
}

// ---------------------------------------------------------------------------
// The table
// ---------------------------------------------------------------------------

/// Rows under unique keys.
pub struct Table<K: RowKey, V: View> {
    entries: Vec<(K, V)>,
}

impl<K: RowKey, V: View> Table<K, V> {
    spec fn rows(self) -> Seq<(<K as View>::V, <V as View>::V)> {
        Seq::new(self.entries@.len(), |i: int| (self.entries@[i].0@, self.entries@[i].1@))
    }

    /// The keys are unique and stand in order.
    pub closed spec fn wf(self) -> bool {
        ascending::<K, <V as View>::V>(self.rows())
    }
}

impl<K: RowKey, V: View> View for Table<K, V> {
    type V = Map<<K as View>::V, <V as View>::V>;

    closed spec fn view(&self) -> Map<<K as View>::V, <V as View>::V> {
        let rows = self.rows();
        Map::new(
            |k: <K as View>::V| exists|i: int| 0 <= i < rows.len() && (#[trigger] rows[i]).0 == k,
            |k: <K as View>::V|
                rows[choose|i: int| 0 <= i < rows.len() && (#[trigger] rows[i]).0 == k].1,
        )
    }
}

impl<K: RowKey, V: View> Table<K, V> {
    proof fn lemma_rows(self)
        requires
            self.wf(),
        ensures
            lists::<K, <V as View>::V>(self.rows(), self@),
            in_order::<K, <V as View>::V>(self@) == self.rows(),
            self@.dom().finite(),
            self@.len() == self.rows().len(),
    {
        let rows = self.rows();
        assert forall|i: int| 0 <= i < rows.len() implies self@.contains_key((#[trigger] rows[i]).0)
            && self@[rows[i].0] == rows[i].1 by {
            let k = rows[i].0;
            let j = choose|j: int| 0 <= j < rows.len() && (#[trigger] rows[j]).0 == k;
            K::lemma_irreflexive(k);
            if i < j {
                assert(K::before(rows[i].0, rows[j].0));
            } else if j < i {
                assert(K::before(rows[j].0, rows[i].0));
            }
        }
        lemma_in_order::<K, <V as View>::V>(rows, self@);
        lemma_listing_len::<K, <V as View>::V>(rows, self@);
    }

    /// A table whose rows list `m` is a table of `m`.
    proof fn lemma_rows_are(self, m: Map<<K as View>::V, <V as View>::V>)
        requires
            lists::<K, <V as View>::V>(self.rows(), m),
        ensures
            self.wf(),
            self@ == m,
    {
        self.lemma_rows();
        assert(self@ =~= m) by {
            assert forall|k: <K as View>::V| #[trigger] m.contains_key(k) implies self@.contains_key(k)
                && self@[k] == m[k] by {
                let i = choose|i: int|
                    0 <= i < self.rows().len() && (#[trigger] self.rows()[i]).0 == k;
                assert(self@.contains_key(self.rows()[i].0));
            }
            assert forall|k: <K as View>::V| #[trigger] self@.contains_key(k) implies m.contains_key(
                k,
            ) by {
                let i = choose|i: int|
                    0 <= i < self.rows().len() && (#[trigger] self.rows()[i]).0 == k;
                assert(m.contains_key(self.rows()[i].0));
            }
        }
    }

    /// A table holds finitely many rows.
    pub proof fn lemma_finite(self)
        requires
            self.wf(),
        ensures
            self@.dom().finite(),
    {
        self.lemma_rows();
    }

    /// A table without rows.
    pub fn new() -> (t: Self)
        ensures
            t.wf(),
            t@ == Map::<<K as View>::V, <V as View>::V>::empty(),
    {
        let t = Table { entries: Vec::new() };
        assert(t@ =~= Map::<<K as View>::V, <V as View>::V>::empty());
        t
    }

    /// How many rows there are.
    pub fn len(&self) -> (n: usize)
        requires
            self.wf(),
        ensures
            n == self@.len(),
            n == in_order::<K, <V as View>::V>(self@).len(),
            lists::<K, <V as View>::V>(in_order::<K, <V as View>::V>(self@), self@),
    {
        proof {
            self.lemma_rows();
        }
        self.entries.len()
    }

    /// The key of the row at a place.
    pub fn key_at(&self, i: usize) -> (k: &K)
        requires
            self.wf(),
            i < self@.len(),
        ensures
            k@ == in_order::<K, <V as View>::V>(self@)[i as int].0,
    {
        proof {
            self.lemma_rows();
        }
        assert(self.rows()[i as int].0 == self.entries@[i as int].0@);
        &self.entries[i].0
    }

    /// The value of the row at a place.
    pub fn value_at(&self, i: usize) -> (v: &V)
        requires
            self.wf(),
            i < self@.len(),
        ensures
            v@ == in_order::<K, <V as View>::V>(self@)[i as int].1,
    {
        proof {
            self.lemma_rows();
        }
        assert(self.rows()[i as int].1 == self.entries@[i as int].1@);
        &self.entries[i].1
    }

    /// The place of a key, or the place where it belongs.
    fn find(&self, key: &K) -> (r: (usize, bool))
        requires
            self.wf(),
        ensures
            r.0 <= self.rows().len(),
            r.1 ==> r.0 < self.rows().len() && self.rows()[r.0 as int].0 == key@,
            !r.1 ==> forall|i: int|
                0 <= i < r.0 ==> K::before((#[trigger] self.rows()[i]).0, key@),
            !r.1 ==> forall|i: int|
                r.0 <= i < self.rows().len() ==> K::before(key@, (#[trigger] self.rows()[i]).0),
    {
        let mut low: usize = 0;
        let mut high: usize = self.entries.len();
        let ghost rows = self.rows();
        while low < high
            invariant
                low <= high <= self.entries@.len(),
                rows == self.rows(),
                self.wf(),
                forall|i: int| 0 <= i < low ==> K::before((#[trigger] rows[i]).0, key@),
                forall|i: int| high <= i < rows.len() ==> K::before(key@, (#[trigger] rows[i]).0),
            decreases high - low,
        {
            let mid: usize = low + (high - low) / 2;
            assert(rows[mid as int].0 == self.entries@[mid as int].0@);
            match self.entries[mid].0.relate(key) {
                Rel::Same => {
                    return (mid, true);
                },
                Rel::Before => {
                    assert forall|i: int| 0 <= i < mid + 1 implies K::before(
                        (#[trigger] rows[i]).0,
                        key@,
                    ) by {
                        if i < mid {
                            K::lemma_transitive(rows[i].0, rows[mid as int].0, key@);
                        }
                    }
                    low = mid + 1;
                },
                Rel::After => {
                    assert forall|i: int| mid <= i < rows.len() implies K::before(
                        key@,
                        (#[trigger] rows[i]).0,
                    ) by {
                        if i > mid {
                            K::lemma_transitive(key@, rows[mid as int].0, rows[i].0);
                        }
                    }
                    high = mid;
                },
            }
        }
        (low, false)
    }

    proof fn lemma_absent(self, key: <K as View>::V, at: int)
        requires
            self.wf(),
            0 <= at <= self.rows().len(),
            forall|i: int| 0 <= i < at ==> K::before((#[trigger] self.rows()[i]).0, key),
            forall|i: int|
                at <= i < self.rows().len() ==> K::before(key, (#[trigger] self.rows()[i]).0),
        ensures
            !self@.contains_key(key),
    {
        if self@.contains_key(key) {
            let i = choose|i: int| 0 <= i < self.rows().len() && (#[trigger] self.rows()[i]).0 == key;
            K::lemma_irreflexive(key);
        }
    }

    /// The value under a key.
    pub fn get(&self, key: &K) -> (r: Option<&V>)
        requires
            self.wf(),
        ensures
            match r {
                Some(v) => self@.contains_key(key@) && v@ == self@[key@],
                None => !self@.contains_key(key@),
            },
    {
        let (at, found) = self.find(key);
        proof {
            self.lemma_rows();
        }
        if found {
            assert(self@.contains_key(self.rows()[at as int].0));
            Some(&self.entries[at].1)
        } else {
            proof {
                self.lemma_absent(key@, at as int);
            }
            None
        }
    }

    /// Whether there is a row under a key.
    pub fn contains(&self, key: &K) -> (r: bool)
        requires
            self.wf(),
        ensures
            r == self@.contains_key(key@),
    {
        match self.get(key) {
            Some(_) => true,
            None => false,
        }
    }

    /// Stores a value under a key, in place of the one that stood there.
    /// Returns whether the key is new.
    pub fn put(&mut self, key: K, value: V) -> (fresh: bool)
        requires
            old(self).wf(),
        ensures
            final(self).wf(),
            final(self)@ == old(self)@.insert(key@, value@),
            fresh == !old(self)@.contains_key(key@),
    {
        let (at, found) = self.find(&key);
        let ghost before = *self;
        let ghost k = key@;
        let ghost v = value@;
        proof {
            self.lemma_rows();
        }
        if found {
            assert(self@.contains_key(self.rows()[at as int].0));
            self.entries[at] = (key, value);
            proof {
                lemma_listing_update::<K, <V as View>::V>(before.rows(), before@, at as int, v);
                assert(self.rows() =~= before.rows().update(at as int, (k, v)));
                self.lemma_rows_are(before@.insert(k, v));
            }
            false
        } else {
            proof {
                self.lemma_absent(k, at as int);
            }
            self.entries.insert(at, (key, value));
            proof {
                lemma_listing_insert::<K, <V as View>::V>(before.rows(), before@, at as int, k, v);
                assert(self.rows() =~= before.rows().insert(at as int, (k, v)));
                self.lemma_rows_are(before@.insert(k, v));
            }
            true
        }
    }

    /// Removes the row at a place and returns its value.
    pub fn remove_at(&mut self, i: usize) -> (v: V)
        requires
            old(self).wf(),
            i < old(self)@.len(),
        ensures
            final(self).wf(),
            final(self)@ == old(self)@.remove(
                in_order::<K, <V as View>::V>(old(self)@)[i as int].0,
            ),
            in_order::<K, <V as View>::V>(final(self)@) == in_order::<K, <V as View>::V>(
                old(self)@,
            ).remove(i as int),
            final(self)@.len() == old(self)@.len() - 1,
            v@ == in_order::<K, <V as View>::V>(old(self)@)[i as int].1,
    {
        let ghost before = *self;
        proof {
            self.lemma_rows();
        }
        assert(self.rows()[i as int].1 == self.entries@[i as int].1@);
        let (_, v) = self.entries.remove(i);
        proof {
            lemma_listing_remove::<K, <V as View>::V>(before.rows(), before@, i as int);
            assert(self.rows() =~= before.rows().remove(i as int));
            self.lemma_rows_are(before@.remove(before.rows()[i as int].0));
            self.lemma_rows();
        }
        v
    }

    /// Removes the row under a key and returns its value.
    pub fn take(&mut self, key: &K) -> (r: Option<V>)
        requires
            old(self).wf(),
        ensures
            final(self).wf(),
            final(self)@ == old(self)@.remove(key@),
            match r {
                Some(v) => old(self)@.contains_key(key@) && v@ == old(self)@[key@],
                None => !old(self)@.contains_key(key@),
            },
    {
        let (at, found) = self.find(key);
        proof {
            self.lemma_rows();
        }
        if found {
            assert(self@.contains_key(self.rows()[at as int].0));
            Some(self.remove_at(at))
        } else {
            proof {
                self.lemma_absent(key@, at as int);
                assert(self@.remove(key@) =~= self@);
            }
            None
        }
    }

    /// Removes the row under a key. Returns whether there was one.
    pub fn delete(&mut self, key: &K) -> (gone: bool)
        requires
            old(self).wf(),
        ensures
            final(self).wf(),
            final(self)@ == old(self)@.remove(key@),
            gone == old(self)@.contains_key(key@),
    {
        match self.take(key) {
            Some(_) => true,
            None => false,
        }
    }
}

// ---------------------------------------------------------------------------
// Orders
// ---------------------------------------------------------------------------

impl RowKey for i64 {
    open spec fn before(a: i64, b: i64) -> bool {
        a < b
    }

    proof fn lemma_irreflexive(a: i64) {
    }

    proof fn lemma_transitive(a: i64, b: i64, c: i64) {
    }

    proof fn lemma_total(a: i64, b: i64) {
    }

    fn relate(&self, other: &Self) -> (r: Rel) {
        let a: i64 = *self;
        let b: i64 = *other;
        assert(self@ == a && other@ == b);
        if a < b {
            assert(<i64 as RowKey>::before(a, b));
            Rel::Before
        } else if a == b {
            Rel::Same
        } else {
            assert(<i64 as RowKey>::before(b, a));
            Rel::After
        }
    }
}

/// `a` comes before `b` byte by byte, a proper front part before the whole.
pub open spec fn bytes_before(a: Seq<u8>, b: Seq<u8>) -> bool
    decreases a.len(),
{
    if b.len() == 0 {
        false
    } else if a.len() == 0 {
        true
    } else if a[0] == b[0] {
        bytes_before(a.drop_first(), b.drop_first())
    } else {
        a[0] < b[0]
    }
}

/// `a` comes before `b` in the order of their UTF-8 bytes.
pub open spec fn text_before(a: Seq<char>, b: Seq<char>) -> bool {
    bytes_before(encode_utf8(a), encode_utf8(b))
}

proof fn lemma_bytes_irreflexive(a: Seq<u8>)
    ensures
        !bytes_before(a, a),
    decreases a.len(),
{
    if a.len() > 0 {
        lemma_bytes_irreflexive(a.drop_first());
    }
}

proof fn lemma_bytes_transitive(a: Seq<u8>, b: Seq<u8>, c: Seq<u8>)
    requires
        bytes_before(a, b),
        bytes_before(b, c),
    ensures
        bytes_before(a, c),
    decreases a.len(),
{
    if a.len() > 0 && a[0] == b[0] && b[0] == c[0] {
        lemma_bytes_transitive(a.drop_first(), b.drop_first(), c.drop_first());
    }
}

proof fn lemma_bytes_total(a: Seq<u8>, b: Seq<u8>)
    ensures
        a == b || bytes_before(a, b) || bytes_before(b, a),
    decreases a.len(),
{
    if a.len() == 0 || b.len() == 0 {
        if a.len() == b.len() {
            assert(a =~= b);
        }
    } else if a[0] == b[0] {
        lemma_bytes_total(a.drop_first(), b.drop_first());
        if a.drop_first() == b.drop_first() {
            assert(a =~= seq![a[0]] + a.drop_first());
            assert(b =~= seq![b[0]] + b.drop_first());
        }
    }
}

pub proof fn lemma_text_irreflexive(a: Seq<char>)
    ensures
        !text_before(a, a),
{
    lemma_bytes_irreflexive(encode_utf8(a));
}

pub proof fn lemma_text_transitive(a: Seq<char>, b: Seq<char>, c: Seq<char>)
    requires
        text_before(a, b),
        text_before(b, c),
    ensures
        text_before(a, c),
{
    lemma_bytes_transitive(encode_utf8(a), encode_utf8(b), encode_utf8(c));
}

pub proof fn lemma_text_total(a: Seq<char>, b: Seq<char>)
    ensures
        a == b || text_before(a, b) || text_before(b, a),
{
    lemma_bytes_total(encode_utf8(a), encode_utf8(b));
    if encode_utf8(a) == encode_utf8(b) {
        crate::text::lemma_encode_injective(a, b);
    }
}

/// Compares two texts by their UTF-8 bytes.
pub fn relate_text(a: &str, b: &str) -> (r: Rel)
    ensures
        match r {
            Rel::Before => text_before(a@, b@),
            Rel::Same => a@ == b@,
            Rel::After => text_before(b@, a@),
        },
{
    let x = a.as_bytes();
    let y = b.as_bytes();
    let mut i: usize = 0;
    assert(x@.skip(0) =~= x@);
    assert(y@.skip(0) =~= y@);
    while i < x.len() && i < y.len()
        invariant
            i <= x@.len(),
            i <= y@.len(),
            x@ == encode_utf8(a@),
            y@ == encode_utf8(b@),
            bytes_before(x@, y@) == bytes_before(x@.skip(i as int), y@.skip(i as int)),
            bytes_before(y@, x@) == bytes_before(y@.skip(i as int), x@.skip(i as int)),
            x@.take(i as int) == y@.take(i as int),
        decreases x@.len() - i,
    {
        if x[i] < y[i] {
            return Rel::Before;
        }
        if y[i] < x[i] {
            return Rel::After;
        }
        assert(x@.skip(i as int).drop_first() =~= x@.skip(i + 1));
        assert(y@.skip(i as int).drop_first() =~= y@.skip(i + 1));
        assert(x@.take(i + 1) =~= x@.take(i as int).push(x@[i as int]));
        assert(y@.take(i + 1) =~= y@.take(i as int).push(y@[i as int]));
        i = i + 1;
    }
    if x.len() == y.len() {
        proof {
            assert(x@.take(i as int) =~= x@);
            assert(y@.take(i as int) =~= y@);
            crate::text::lemma_encode_injective(a@, b@);
        }
        Rel::Same
    } else if x.len() < y.len() {
        Rel::Before
    } else {
        Rel::After
    }
}

impl RowKey for String {
    open spec fn before(a: Seq<char>, b: Seq<char>) -> bool {
        text_before(a, b)
    }

    proof fn lemma_irreflexive(a: Seq<char>) {
        lemma_text_irreflexive(a);
    }

    proof fn lemma_transitive(a: Seq<char>, b: Seq<char>, c: Seq<char>) {
        lemma_text_transitive(a, b, c);
    }

    proof fn lemma_total(a: Seq<char>, b: Seq<char>) {
        lemma_text_total(a, b);
    }

    fn relate(&self, other: &Self) -> (r: Rel) {
        relate_text(self.as_str(), other.as_str())
    }
}

} // verus!
