//! Slot-keyed pools.
//!
//! A [`SlotPool`] keeps, for each slot, the list of items filed under it, in
//! insertion order; the buckets themselves are kept in strictly increasing
//! slot order.  The async-message pool and the event pool are both instances.
//! Its model is a sequence of `(Slot, Seq<item view>)` buckets; [`due_count`],
//! [`flatten_msgs`] and [`window_msgs`] give the drain and range semantics.

use vstd::prelude::*;

use crate::slot::{slot_le, slot_lt, Slot};

verus! {

/// An item a pool can hold: it can be duplicated preserving its model.
pub trait PoolItem: View + Sized {
    fn dup(&self) -> (r: Self)
        ensures
            r@ == self@,
    ;
}

/// The items filed under one slot, in insertion order.
pub struct SlotBucket<T> {
    pub slot: Slot,
    pub items: Vec<T>,
}

/// A pool of items keyed by slot, bucket list sorted by slot.
pub struct SlotPool<T> {
    pub buckets: Vec<SlotBucket<T>>,
}

/// The model of a pool: buckets in order, each item by its model.
pub type PoolV<M> = Seq<(Slot, Seq<M>)>;

/// Bucket slots strictly increase.
pub open spec fn pool_sorted<M>(p: PoolV<M>) -> bool {
    forall|i: int, j: int| 0 <= i < j < p.len() ==> slot_lt(p[i].0, p[j].0)
}

/// How many leading buckets are due at slot `s` (their slot is `<= s`).
pub open spec fn due_count<M>(p: PoolV<M>, s: Slot) -> int
    decreases p.len(),
{
    if p.len() == 0 {
        0
    } else if slot_le(p[0].0, s) {
        1 + due_count(p.drop_first(), s)
    } else {
        0
    }
}

/// All items of `p` flattened: slot order, then insertion order.
pub open spec fn flatten_msgs<M>(p: PoolV<M>) -> Seq<M>
    decreases p.len(),
{
    if p.len() == 0 {
        Seq::empty()
    } else {
        p[0].1 + flatten_msgs(p.drop_first())
    }
}

/// Whether slot `s` lies in the half-open window `[start, end)`, either bound
/// absent meaning unbounded.
pub open spec fn in_window(s: Slot, start: Option<Slot>, end: Option<Slot>) -> bool {
    &&& match start {
        Some(a) => slot_le(a, s),
        None => true,
    }
    &&& match end {
        Some(b) => slot_lt(s, b),
        None => true,
    }
}

/// The items of the buckets whose slot lies in the window, in pool order.
pub open spec fn window_msgs<M>(p: PoolV<M>, start: Option<Slot>, end: Option<Slot>) -> Seq<M>
    decreases p.len(),
{
    if p.len() == 0 {
        Seq::empty()
    } else {
        (if in_window(p[0].0, start, end) {
            p[0].1
        } else {
            Seq::empty()
        }) + window_msgs(p.drop_first(), start, end)
    }
}

/// The pool after filing `m` under slot `s`: appended to the bucket at `s` if
/// one exists, else a new singleton bucket in slot position.
pub open spec fn pool_insert<M>(p: PoolV<M>, s: Slot, m: M) -> PoolV<M>
    decreases p.len(),
{
    if p.len() == 0 {
        seq![(s, seq![m])]
    } else if slot_lt(p[0].0, s) {
        seq![p[0]] + pool_insert(p.drop_first(), s, m)
    } else if p[0].0 == s {
        seq![(s, p[0].1.push(m))] + p.drop_first()
    } else {
        seq![(s, seq![m])] + p
    }
}

/// Where `pool_insert` lands once the insertion point `k` is known: an update
/// of bucket `k` when its slot matches, else a new bucket at `k`.  The result
/// stays sorted.
pub proof fn lemma_pool_insert_at<M>(p: PoolV<M>, s: Slot, m: M, k: int)
    requires
        pool_sorted(p),
        0 <= k <= p.len(),
        forall|i: int| 0 <= i < k ==> slot_lt(p[i].0, s),
        k < p.len() ==> !slot_lt(p[k].0, s),
    ensures
        pool_insert(p, s, m) == if k < p.len() && p[k].0 == s {
            p.update(k, (s, p[k].1.push(m)))
        } else {
            p.insert(k, (s, seq![m]))
        },
        pool_sorted(pool_insert(p, s, m)),
    decreases p.len(),
{
    if p.len() == 0 {
        assert(pool_insert(p, s, m) =~= p.insert(0, (s, seq![m])));
    } else if k == 0 {
        if p[0].0 == s {
            assert(pool_insert(p, s, m) =~= p.update(0, (s, p[0].1.push(m))));
        } else {
            assert(!slot_lt(p[0].0, s));
            assert(pool_insert(p, s, m) =~= p.insert(0, (s, seq![m])));
            assert forall|i: int, j: int| 0 <= i < j < p.len() + 1 implies slot_lt(
                p.insert(0, (s, seq![m]))[i].0, p.insert(0, (s, seq![m]))[j].0) by {
                if i == 0 {
                    assert(slot_lt(s, p[j - 1].0) || s == p[j - 1].0 || slot_lt(p[j - 1].0, s));
                    assert(slot_le(p[0].0, p[j - 1].0));
                }
            }
        }
    } else {
        let q = p.drop_first();
        assert(pool_sorted(q));
        assert(forall|i: int| 0 <= i < k - 1 ==> slot_lt(q[i].0, s));
        lemma_pool_insert_at(q, s, m, k - 1);
        assert(slot_lt(p[0].0, s));
        if k < p.len() && p[k].0 == s {
            assert(q[k - 1].0 == s);
            assert(pool_insert(p, s, m) =~= p.update(k, (s, p[k].1.push(m))));
            assert(pool_sorted(p.update(k, (s, p[k].1.push(m)))));
        } else {
            let r = p.insert(k, (s, seq![m]));
            assert(pool_insert(p, s, m) =~= r);
            assert forall|i: int, j: int| 0 <= i < j < r.len() implies slot_lt(r[i].0, r[j].0) by {
                if j == k {
                    assert(r[j].0 == s);
                    assert(r[i] == p[i]);
                } else if i == k {
                    assert(r[i].0 == s);
                    assert(r[j] == p[j - 1]);
                    assert(!slot_lt(p[k].0, s) || k == p.len());
                } else if i < k && j > k {
                    assert(r[i] == p[i] && r[j] == p[j - 1]);
                } else if j < k {
                    assert(r[i] == p[i] && r[j] == p[j]);
                } else {
                    assert(r[i] == p[i - 1] && r[j] == p[j - 1]);
                }
            }
        }
    }
}

/// `due_count` splits at a prefix of due buckets.
pub proof fn lemma_due_count_split<M>(p: PoolV<M>, s: Slot, j: int)
    requires
        0 <= j <= p.len(),
        forall|i: int| 0 <= i < j ==> slot_le(p[i].0, s),
    ensures
        due_count(p, s) == j + due_count(p.skip(j), s),
    decreases j,
{
    if j > 0 {
        assert(slot_le(p[0].0, s));
        lemma_due_count_split(p.drop_first(), s, j - 1);
        assert(p.drop_first().skip(j - 1) =~= p.skip(j));
    } else {
        assert(p.skip(0) =~= p);
    }
}

/// A pool whose first bucket is not due has no due bucket at all.
pub proof fn lemma_due_count_none<M>(p: PoolV<M>, s: Slot)
    requires
        p.len() == 0 || !slot_le(p[0].0, s),
    ensures
        due_count(p, s) == 0,
{
}

/// `due_count` counts exactly the due buckets of a sorted pool: every bucket
/// before it is due, none from it on is.
pub proof fn lemma_due_count_bounds<M>(p: PoolV<M>, s: Slot)
    requires
        pool_sorted(p),
    ensures
        0 <= due_count(p, s) <= p.len(),
        forall|i: int| 0 <= i < due_count(p, s) ==> slot_le(p[i].0, s),
        forall|i: int| due_count(p, s) <= i < p.len() ==> !slot_le(p[i].0, s),
    decreases p.len(),
{
    if p.len() > 0 {
        let q = p.drop_first();
        assert(pool_sorted(q));
        lemma_due_count_bounds(q, s);
        if slot_le(p[0].0, s) {
            assert forall|i: int| due_count(p, s) <= i < p.len() implies !slot_le(p[i].0, s) by {
                assert(q[i - 1] == p[i]);
            }
            assert forall|i: int| 0 <= i < due_count(p, s) implies slot_le(p[i].0, s) by {
                if i > 0 {
                    assert(q[i - 1] == p[i]);
                }
            }
        } else {
            assert forall|i: int| 0 <= i < p.len() implies !slot_le(p[i].0, s) by {
                if i > 0 {
                    assert(slot_lt(p[0].0, p[i].0));
                }
            }
        }
    }
}

/// Flattening one more bucket appends its items.
pub proof fn lemma_flatten_take_snoc<M>(p: PoolV<M>, j: int)
    requires
        0 <= j < p.len(),
    ensures
        flatten_msgs(p.take(j + 1)) == flatten_msgs(p.take(j)) + p[j].1,
    decreases j,
{
    if j == 0 {
        assert(p.take(1).drop_first() =~= p.take(0));
        assert(flatten_msgs(p.take(1)) =~= flatten_msgs(p.take(0)) + p[0].1);
    } else {
        let q = p.drop_first();
        lemma_flatten_take_snoc(q, j - 1);
        assert(p.take(j + 1).drop_first() =~= q.take(j));
        assert(p.take(j).drop_first() =~= q.take(j - 1));
        assert(p.take(j + 1)[0] == p[0]);
        assert(p.take(j)[0] == p[0]);
        assert(q[j - 1] == p[j]);
        assert(flatten_msgs(p.take(j + 1)) == p[0].1 + flatten_msgs(q.take(j)));
        assert(flatten_msgs(p.take(j)) + p[j].1 == p[0].1 + (flatten_msgs(q.take(j - 1)) + q[j
            - 1].1));
        assert(p[0].1 + (flatten_msgs(q.take(j - 1)) + q[j - 1].1) =~= p[0].1 + flatten_msgs(
            q.take(j - 1)) + q[j - 1].1);
        assert(flatten_msgs(p.take(j + 1)) =~= flatten_msgs(p.take(j)) + p[j].1);
    }
}

/// A window scan over one more bucket appends its items when the bucket lies
/// in the window, and nothing otherwise.
pub proof fn lemma_window_take_snoc<M>(p: PoolV<M>, start: Option<Slot>, end: Option<Slot>, j: int)
    requires
        0 <= j < p.len(),
    ensures
        window_msgs(p.take(j + 1), start, end) == window_msgs(p.take(j), start, end) + (
        if in_window(p[j].0, start, end) {
            p[j].1
        } else {
            Seq::<M>::empty()
        }),
    decreases j,
{
    let extra: Seq<M> = if in_window(p[j].0, start, end) {
        p[j].1
    } else {
        Seq::empty()
    };
    if j == 0 {
        assert(p.take(1).drop_first() =~= p.take(0));
        assert(window_msgs(p.take(1), start, end) =~= window_msgs(p.take(0), start, end) + extra);
    } else {
        let q = p.drop_first();
        lemma_window_take_snoc(q, start, end, j - 1);
        assert(p.take(j + 1).drop_first() =~= q.take(j));
        assert(p.take(j).drop_first() =~= q.take(j - 1));
        assert(p.take(j + 1)[0] == p[0]);
        assert(p.take(j)[0] == p[0]);
        assert(q[j - 1] == p[j]);
        let head: Seq<M> = if in_window(p[0].0, start, end) {
            p[0].1
        } else {
            Seq::empty()
        };
        assert(window_msgs(p.take(j + 1), start, end) == head + window_msgs(q.take(j), start,
            end));
        assert(head + (window_msgs(q.take(j - 1), start, end) + extra) =~= head + window_msgs(
            q.take(j - 1), start, end) + extra);
        assert(window_msgs(p.take(j + 1), start, end) =~= window_msgs(p.take(j), start, end)
            + extra);
    }
}

impl<T: View> View for SlotPool<T> {
    type V = PoolV<T::V>;

    open spec fn view(&self) -> PoolV<T::V> {
        self.buckets@.map_values(|b: SlotBucket<T>| (b.slot, b.items@.map_values(|t: T| t@)))
    }
}

impl<T: View> SlotPool<T> {
    /// Buckets are in strictly increasing slot order.
    pub open spec fn wf(&self) -> bool {
        pool_sorted(self@)
    }

    /// An empty pool.
    pub fn new() -> (r: SlotPool<T>)
        ensures
            r.wf(),
            r@ == Seq::<(Slot, Seq<T::V>)>::empty(),
    {
        let r = SlotPool::<T> { buckets: Vec::new() };
        assert(r@ =~= Seq::<(Slot, Seq<T::V>)>::empty());
        r
    }

    /// File `item` under `slot`, after any item already filed there.
    pub fn push_at(&mut self, slot: Slot, item: T)
        requires
            old(self).wf(),
        ensures
            final(self).wf(),
            final(self)@ == pool_insert(old(self)@, slot, item@),
    {
        let ghost p0 = self@;
        let n = self.buckets.len();
        let mut k: usize = 0;
        while k < n && self.buckets[k].slot.is_before(&slot)
            invariant
                n == self.buckets@.len(),
                0 <= k <= n,
                forall|i: int| 0 <= i < k ==> slot_lt(self.buckets@[i].slot, slot),
                *self == *old(self),
            decreases n - k,
        {
            k = k + 1;
        }
        proof {
            assert(forall|i: int| 0 <= i < k ==> p0[i].0 == self.buckets@[i].slot);
            lemma_pool_insert_at(p0, slot, item@, k as int);
        }
        if k < n && self.buckets[k].slot == slot {
            let mut b = self.buckets.remove(k);
            b.items.push(item);
            self.buckets.insert(k, b);
            proof {
                let target = p0.update(k as int, (slot, p0[k as int].1.push(item@)));
                assert forall|i: int| 0 <= i < self@.len() implies self@[i] == target[i] by {
                    if i == k {
                        assert(self.buckets@[i].items@ =~= old(self).buckets@[i].items@.push(
                            item));
                        assert(self.buckets@[i].items@.map_values(|t: T| t@) =~= p0[
                            i].1.push(item@));
                    } else {
                        assert(self.buckets@[i] == old(self).buckets@[i]);
                    }
                }
                assert(self@ =~= target);
            }
        } else {
            let mut items: Vec<T> = Vec::new();
            items.push(item);
            self.buckets.insert(k, SlotBucket { slot, items });
            proof {
                let target = p0.insert(k as int, (slot, seq![item@]));
                assert forall|i: int| 0 <= i < self@.len() implies self@[i] == target[i] by {
                    if i == k {
                        assert(self.buckets@[i].slot == slot);
                        assert(self.buckets@[i].items@.map_values(|t: T| t@) =~= seq![item@]);
                    } else if i < k {
                        assert(self.buckets@[i] == old(self).buckets@[i]);
                    } else {
                        assert(self.buckets@[i] == old(self).buckets@[i - 1]);
                    }
                }
                assert(self@ =~= target);
            }
        }
    }

    /// Remove and return every item whose bucket is due at `current`, in slot
    /// order then insertion order.  This is consume-once: the returned items
    /// leave the pool.
    #[verifier::loop_isolation(false)]
    pub fn drain_due(&mut self, current: &Slot) -> (r: Vec<T>)
        requires
            old(self).wf(),
        ensures
            final(self).wf(),
            final(self)@ == old(self)@.skip(due_count(old(self)@, *current)),
            r@.map_values(|t: T| t@) == flatten_msgs(old(self)@.take(due_count(old(self)@,
                *current))),
    {
        let ghost p0 = self@;
        let ghost total = due_count(p0, *current);
        proof {
            lemma_due_count_bounds(p0, *current);
        }
        let mut out: Vec<T> = Vec::new();
        let ghost j: int = 0;
        while self.buckets.len() > 0 && self.buckets[0].slot.is_at_or_before(current)
            invariant
                0 <= j <= p0.len(),
                self.buckets@ =~= old(self).buckets@.skip(j),
                forall|i: int| 0 <= i < j ==> slot_le(p0[i].0, *current),
                out@.map_values(|t: T| t@) == flatten_msgs(p0.take(j)),
            decreases self.buckets@.len(),
        {
            let mut b = self.buckets.remove(0);
            proof {
                assert(old(self).buckets@[j] == b);
                assert(p0[j].0 == b.slot && p0[j].1 == b.items@.map_values(|t: T| t@));
                lemma_flatten_take_snoc(p0, j);
            }
            let ghost out_before = out@;
            let ghost bitems = b.items@;
            out.append(&mut b.items);
            proof {
                assert(out@.map_values(|t: T| t@) =~= out_before.map_values(|t: T| t@)
                    + bitems.map_values(|t: T| t@));
                j = j + 1;
                assert(self.buckets@ =~= old(self).buckets@.skip(j));
            }
        }
        proof {
            lemma_due_count_split(p0, *current, j);
            if j < p0.len() {
                assert(self.buckets@[0] == old(self).buckets@[j]);
                assert(!slot_le(p0.skip(j)[0].0, *current));
                lemma_due_count_none(p0.skip(j), *current);
            } else {
                assert(p0.skip(j) =~= Seq::<(Slot, Seq<T::V>)>::empty());
            }
            assert(total == j);
            assert(self@ =~= p0.skip(j));
            assert(pool_sorted(self@));
        }
        out
    }
}

impl<T: PoolItem> SlotPool<T> {
    /// The items filed in the half-open slot window `[start, end)`, in slot
    /// order then insertion order; the pool is untouched.
    #[verifier::loop_isolation(false)]
    pub fn items_in_window(&self, start: Option<Slot>, end: Option<Slot>) -> (r: Vec<T>)
        ensures
            r@.map_values(|t: T| t@) == window_msgs(self@, start, end),
    {
        let n = self.buckets.len();
        let mut out: Vec<T> = Vec::new();
        let mut i: usize = 0;
        while i < n
            invariant
                n == self.buckets@.len(),
                0 <= i <= n,
                out@.map_values(|t: T| t@) == window_msgs(self@.take(i as int), start, end),
            decreases n - i,
        {
            proof {
                lemma_window_take_snoc(self@, start, end, i as int);
            }
            let due = match (&start, &end) {
                (Some(a), Some(b)) => a.is_at_or_before(&self.buckets[i].slot)
                    && self.buckets[i].slot.is_before(b),
                (Some(a), None) => a.is_at_or_before(&self.buckets[i].slot),
                (None, Some(b)) => self.buckets[i].slot.is_before(b),
                (None, None) => true,
            };
            if due {
                let m = self.buckets[i].items.len();
                let ghost out_at_bucket = out@;
                let mut q: usize = 0;
                while q < m
                    invariant
                        m == self.buckets@[i as int].items@.len(),
                        i < self.buckets@.len(),
                        0 <= q <= m,
                        out@.map_values(|t: T| t@) =~= out_at_bucket.map_values(|t: T| t@)
                            + self.buckets@[i as int].items@.take(q as int).map_values(
                            |t: T| t@),
                    decreases m - q,
                {
                    let d = self.buckets[i].items[q].dup();
                    let ghost out_pre = out@;
                    out.push(d);
                    proof {
                        let f = |t: T| t@;
                        let items = self.buckets@[i as int].items@;
                        assert(d@ == items[q as int]@);
                        assert(out@ =~= out_pre.push(d));
                        assert(out@.map_values(f) =~= out_pre.map_values(f).push(d@));
                        assert(items.take(q as int + 1).map_values(f) =~= items.take(
                            q as int).map_values(f).push(f(items[q as int])));
                        assert(out_pre.map_values(f) + items.take(q as int).map_values(f).push(
                            f(items[q as int])) =~= out_pre.map_values(f) + items.take(
                            q as int).map_values(f) + seq![d@]);
                        assert(out@.map_values(f) =~= out_at_bucket.map_values(f) + items.take(
                            q as int + 1).map_values(f));
                    }
                    q = q + 1;
                }
            }
            i = i + 1;
            assert(out@.map_values(|t: T| t@) =~= window_msgs(self@.take(i as int), start, end));
        }
        assert(self@.take(n as int) =~= self@);
        out
    }
}

} // verus!
