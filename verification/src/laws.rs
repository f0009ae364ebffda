//! Laws of the host, stated and proved over the same models the operation
//! contracts use.

use vstd::prelude::*;

use crate::ledger::{spec_transfer, LedgerV};
use crate::pool::{due_count, flatten_msgs, in_window, lemma_due_count_bounds, lemma_due_count_none,
    pool_insert, pool_sorted, window_msgs, PoolV};
use crate::slot::{slot_le, slot_lt, Slot};

verus! {

/// The sum of all balances of a ledger.
pub open spec fn sum_balances(l: LedgerV) -> int
    decreases l.dom().len(),
    when l.dom().finite()
{
    if l.dom().len() == 0 {
        0
    } else {
        let k = l.dom().choose();
        l[k].balance + sum_balances(l.remove(k))
    }
}

/// Taking one key out of the sum: the total is that key's balance plus the
/// sum of the rest, whichever key is taken.
pub proof fn lemma_sum_remove(l: LedgerV, k: Seq<char>)
    requires
        l.dom().finite(),
        l.contains_key(k),
    ensures
        sum_balances(l) == l[k].balance + sum_balances(l.remove(k)),
    decreases l.dom().len(),
{
    let c = l.dom().choose();
    assert(l.dom().contains(c));
    assert(l.dom().len() > 0);
    if c == k {
    } else {
        lemma_sum_remove(l.remove(c), k);
        lemma_sum_remove(l.remove(k), c);
        assert(l.remove(c).remove(k) =~= l.remove(k).remove(c));
        assert(l.remove(c)[k] == l[k]);
        assert(l.remove(k)[c] == l[c]);
    }
}

/// What one insert does to the sum: the new balance replaces the old one, or
/// joins the total when the key is new.
pub proof fn lemma_sum_insert(l: LedgerV, k: Seq<char>, e: crate::ledger::EntryV)
    requires
        l.dom().finite(),
    ensures
        sum_balances(l.insert(k, e)) == sum_balances(l) + e.balance - (
        if l.contains_key(k) {
            l[k].balance as int
        } else {
            0
        }),
{
    let l2 = l.insert(k, e);
    lemma_sum_remove(l2, k);
    if l.contains_key(k) {
        lemma_sum_remove(l, k);
        assert(l2.remove(k) =~= l.remove(k));
    } else {
        assert(l2.remove(k) =~= l);
    }
}

/// One successful transfer moves coins; the total supply is untouched.
pub proof fn lemma_transfer_conserves(l: LedgerV, from: Seq<char>, to: Seq<char>, amount: u64)
    requires
        l.dom().finite(),
        spec_transfer(l, from, to, amount) is Ok,
    ensures
        sum_balances(spec_transfer(l, from, to, amount).unwrap()) == sum_balances(l),
{
    let e1 = crate::ledger::EntryV { balance: (l[from].balance - amount) as u64, ..l[from] };
    let l1 = l.insert(from, e1);
    lemma_sum_insert(l, from, e1);
    let e2 = crate::ledger::EntryV { balance: (l1[to].balance + amount) as u64, ..l1[to] };
    lemma_sum_insert(l1, to, e2);
}

/// Transfer atomicity.  A transfer between two distinct funded accounts
/// whose credit would overflow the target's 64-bit balance is refused with
/// `BalanceOverflow`, and the operation contracts then leave the ledger —
/// the sender's balance in particular — exactly as it was.  A self-transfer
/// of a covered amount succeeds and leaves the ledger equal: debit and
/// credit land on the same entry.
pub proof fn lemma_transfer_atomicity(l: LedgerV, from: Seq<char>, to: Seq<char>, amount: u64)
    ensures
        (l.contains_key(from) && l.contains_key(to) && from != to && amount <= l[from].balance
            && l[to].balance + amount > u64::MAX) ==> spec_transfer(l, from, to, amount) == Err::<
            LedgerV,
            crate::errors::ExecError,
        >(crate::errors::ExecError::BalanceOverflow),
        (l.contains_key(from) && from == to && amount <= l[from].balance) ==> spec_transfer(l,
            from, to, amount) == Ok::<LedgerV, crate::errors::ExecError>(l),
{
    if l.contains_key(from) && from == to && amount <= l[from].balance {
        let l1 = l.insert(from, crate::ledger::EntryV {
            balance: (l[from].balance - amount) as u64,
            ..l[from]
        });
        assert(l1[to].balance + amount <= u64::MAX);
        let l2 = l1.insert(to, crate::ledger::EntryV {
            balance: (l1[to].balance + amount) as u64,
            ..l1[to]
        });
        assert(l2[from] =~= l[from]);
        assert(l2 =~= l);
    }
}

/// The ledger after a sequence of attempted transfers: a refused transfer
/// leaves the ledger as it was and the run continues.
pub open spec fn apply_transfers(l: LedgerV, ops: Seq<(Seq<char>, Seq<char>, u64)>) -> LedgerV
    decreases ops.len(),
{
    if ops.len() == 0 {
        l
    } else {
        let next = match spec_transfer(l, ops[0].0, ops[0].1, ops[0].2) {
            Ok(l2) => l2,
            Err(_) => l,
        };
        apply_transfers(next, ops.drop_first())
    }
}

/// Balance conservation: however many transfers run, and whichever of them
/// succeed, the sum of all balances in the ledger never changes.
pub proof fn lemma_transfer_sequence_conserves(l: LedgerV, ops: Seq<(Seq<char>, Seq<char>, u64)>)
    requires
        l.dom().finite(),
    ensures
        sum_balances(apply_transfers(l, ops)) == sum_balances(l),
        apply_transfers(l, ops).dom().finite(),
    decreases ops.len(),
{
    if ops.len() > 0 {
        match spec_transfer(l, ops[0].0, ops[0].1, ops[0].2) {
            Ok(l2) => {
                lemma_transfer_conserves(l, ops[0].0, ops[0].1, ops[0].2);
                lemma_transfer_sequence_conserves(l2, ops.drop_first());
            },
            Err(_) => {
                lemma_transfer_sequence_conserves(l, ops.drop_first());
            },
        }
    }
}

/// Every item of a bucket is in the pool's flattening.
pub proof fn lemma_flatten_contains<M>(p: PoolV<M>, i: int, q: int)
    requires
        0 <= i < p.len(),
        0 <= q < p[i].1.len(),
    ensures
        flatten_msgs(p).contains(p[i].1[q]),
    decreases i,
{
    if i == 0 {
        assert(flatten_msgs(p)[q] == p[0].1[q]);
    } else {
        lemma_flatten_contains(p.drop_first(), i - 1, q);
        let inner = flatten_msgs(p.drop_first());
        let j = choose|j: int| 0 <= j < inner.len() && inner[j] == p[i].1[q];
        assert(flatten_msgs(p)[p[0].1.len() + j] == inner[j]);
    }
}

/// Async delivery gating.  Draining a sorted pool at slot `s` takes exactly
/// the leading buckets due at `s`: every message in them is delivered, in
/// slot order; a message filed for a slot after `s` stays pooled untouched;
/// and draining what remains at the same slot delivers nothing, so no message
/// is ever delivered twice.
pub proof fn lemma_async_delivery_gating<M>(p: PoolV<M>, s: Slot)
    requires
        pool_sorted(p),
    ensures
        forall|i: int| 0 <= i < due_count(p, s) ==> slot_le(p[i].0, s),
        forall|i: int| due_count(p, s) <= i < p.len() ==> slot_lt(s, p[i].0),
        forall|i: int, q: int|
            0 <= i < due_count(p, s) && 0 <= q < p[i].1.len() ==> flatten_msgs(p.take(due_count(p,
                s))).contains(p[i].1[q]),
        forall|i: int| due_count(p, s) <= i < p.len() ==> p.skip(due_count(p, s))[i - due_count(p,
            s)] == p[i],
        due_count(p.skip(due_count(p, s)), s) == 0,
        flatten_msgs(p.take(0)) == Seq::<M>::empty(),
{
    let d = due_count(p, s);
    lemma_due_count_bounds(p, s);
    assert forall|i: int| d <= i < p.len() implies slot_lt(s, p[i].0) by {
        crate::slot::lemma_slot_order_total(p[i].0, s);
    }
    assert forall|i: int, q: int| 0 <= i < d && 0 <= q < p[i].1.len() implies flatten_msgs(p.take(
        d)).contains(p[i].1[q]) by {
        assert(p.take(d)[i] == p[i]);
        lemma_flatten_contains(p.take(d), i, q);
    }
    let rest = p.skip(d);
    if d < p.len() {
        assert(!slot_le(rest[0].0, s));
        lemma_due_count_none(rest, s);
    } else {
        assert(rest.len() == 0);
    }
}

/// Filing an item under slot `t` leaves it in the pool under exactly that
/// slot, as the newest item of its bucket.  With the delivery-gating law
/// this closes the loop: the message stays pooled while the execution slot
/// is before `t`, and is delivered the first time it is not.
pub proof fn lemma_pool_insert_carries<M>(p: PoolV<M>, t: Slot, m: M)
    ensures
        exists|k: int|
            0 <= k < pool_insert(p, t, m).len() && (#[trigger] pool_insert(p, t, m)[k]).0 == t
                && pool_insert(p, t, m)[k].1.len() > 0 && pool_insert(p, t, m)[k].1.last() == m,
    decreases p.len(),
{
    let q = pool_insert(p, t, m);
    if p.len() == 0 {
        assert(q[0].0 == t && q[0].1.len() > 0 && q[0].1.last() == m);
    } else if slot_lt(p[0].0, t) {
        lemma_pool_insert_carries(p.drop_first(), t, m);
        let inner = pool_insert(p.drop_first(), t, m);
        let k = choose|k: int|
            0 <= k < inner.len() && #[trigger] inner[k].0 == t && inner[k].1.len() > 0
                && inner[k].1.last() == m;
        assert(q[k + 1] == inner[k]);
    } else if p[0].0 == t {
        assert(q[0].0 == t && q[0].1.len() > 0 && q[0].1.last() == m);
    } else {
        assert(q[0].0 == t && q[0].1.len() > 0 && q[0].1.last() == m);
    }
}

/// Range-query membership: the window scan returns an item exactly when some
/// bucket inside the window holds it.
pub proof fn lemma_window_msgs_exact<M>(p: PoolV<M>, start: Option<Slot>, end: Option<Slot>, m: M)
    ensures
        window_msgs(p, start, end).contains(m) <==> exists|i: int, q: int|
            0 <= i < p.len() && in_window(p[i].0, start, end) && 0 <= q < p[i].1.len() && p[i].1[q]
                == m,
    decreases p.len(),
{
    let w = window_msgs(p, start, end);
    if p.len() == 0 {
        assert(!w.contains(m));
    } else {
        let head: Seq<M> = if in_window(p[0].0, start, end) {
            p[0].1
        } else {
            Seq::empty()
        };
        let tail = window_msgs(p.drop_first(), start, end);
        lemma_window_msgs_exact(p.drop_first(), start, end, m);
        if w.contains(m) {
            let j = choose|j: int| 0 <= j < w.len() && w[j] == m;
            if j < head.len() {
                assert(p[0].1[j] == m && in_window(p[0].0, start, end));
            } else {
                assert(tail[j - head.len()] == m);
                assert(tail.contains(m));
                let (i, q): (int, int) = choose|i: int, q: int|
                    0 <= i < p.drop_first().len() && in_window(p.drop_first()[i].0, start, end)
                        && 0 <= q < p.drop_first()[i].1.len() && p.drop_first()[i].1[q] == m;
                assert(p[i + 1].1[q] == m && in_window(p[i + 1].0, start, end));
            }
        }
        if exists|i: int, q: int|
            0 <= i < p.len() && in_window(p[i].0, start, end) && 0 <= q < p[i].1.len() && p[i].1[q]
                == m {
            let (i, q): (int, int) = choose|i: int, q: int|
                0 <= i < p.len() && in_window(p[i].0, start, end) && 0 <= q < p[i].1.len() && p[
                    i].1[q] == m;
            if i == 0 {
                assert(w[q] == m);
            } else {
                assert(p.drop_first()[i - 1].1[q] == m && in_window(p.drop_first()[i - 1].0,
                    start, end));
                assert(tail.contains(m));
                let j = choose|j: int| 0 <= j < tail.len() && tail[j] == m;
                assert(w[head.len() + j] == m);
            }
            assert(w.contains(m));
        }
    }
}

} // verus!
