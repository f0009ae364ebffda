//! Slots: the discrete scheduling unit of the ledger, ordered
//! lexicographically by `(period, thread)`.

use vstd::prelude::*;

verus! {

/// One scheduling tick: a period and a thread within that period.
#[derive(Clone, Copy, Debug, PartialEq, Eq, Structural)]
pub struct Slot {
    pub period: u64,
    pub thread: u8,
}

/// Strict lexicographic order on slots.
pub open spec fn slot_lt(a: Slot, b: Slot) -> bool {
    a.period < b.period || (a.period == b.period && a.thread < b.thread)
}

/// Lexicographic order on slots, inclusive.
pub open spec fn slot_le(a: Slot, b: Slot) -> bool {
    slot_lt(a, b) || a == b
}

impl Slot {
    pub fn new(period: u64, thread: u8) -> (r: Slot)
        ensures
            r == (Slot { period, thread }),
    {
        Slot { period, thread }
    }

    /// Whether `self` comes strictly before `other` in slot order.
    pub fn is_before(&self, other: &Slot) -> (r: bool)
        ensures
            r == slot_lt(*self, *other),
    {
        self.period < other.period || (self.period == other.period && self.thread < other.thread)
    }

    /// Whether `self` comes no later than `other` in slot order.
    pub fn is_at_or_before(&self, other: &Slot) -> (r: bool)
        ensures
            r == slot_le(*self, *other),
    {
        self.period < other.period || (self.period == other.period && self.thread <= other.thread)
    }
}

impl PartialOrd for Slot {
    fn partial_cmp(&self, other: &Self) -> (r: Option<core::cmp::Ordering>) {
        if self.period < other.period {
            Some(core::cmp::Ordering::Less)
        } else if other.period < self.period {
            Some(core::cmp::Ordering::Greater)
        } else if self.thread < other.thread {
            Some(core::cmp::Ordering::Less)
        } else if other.thread < self.thread {
            Some(core::cmp::Ordering::Greater)
        } else {
            Some(core::cmp::Ordering::Equal)
        }
    }
}

impl vstd::std_specs::cmp::PartialOrdSpecImpl for Slot {
    open spec fn obeys_partial_cmp_spec() -> bool {
        true
    }

    open spec fn partial_cmp_spec(&self, other: &Self) -> Option<core::cmp::Ordering> {
        if slot_lt(*self, *other) {
            Some(core::cmp::Ordering::Less)
        } else if slot_lt(*other, *self) {
            Some(core::cmp::Ordering::Greater)
        } else {
            Some(core::cmp::Ordering::Equal)
        }
    }
}

/// The slot order is total: of two slots one comes no later than the other,
/// and only equal slots satisfy both directions.
pub proof fn lemma_slot_order_total(a: Slot, b: Slot)
    ensures
        slot_le(a, b) || slot_le(b, a),
        slot_le(a, b) && slot_le(b, a) ==> a == b,
        slot_lt(a, b) ==> !slot_le(b, a),
{
}

} // verus!
