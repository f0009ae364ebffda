//! The execution context: the one owner of all mutable host state.
//!
//! [`InterfaceImpl`] composes the ledger, the call stack, the ownership set,
//! the two slot pools and the execution trace behind narrow, named
//! operations; the host-interface layer and the step scheduler go through
//! these alone.  The model of the whole state is [`StateV`]; every operation
//! says how it maps the old model to the new one.

use vstd::prelude::*;

use crate::errors::ExecError;
use crate::ledger::{clone_string, Entry, Ledger, LedgerV};
use crate::msg::{AsyncMessage, AsyncMessageV, CallItem, CallItemV, Event, EventV};
use crate::pool::{due_count, flatten_msgs, pool_insert, window_msgs, PoolV, SlotPool};
use crate::slot::Slot;
use crate::trace::{strings_view, trace_view, TraceRecord, TraceRecordV};

verus! {

/// The model of the whole execution context.
#[verifier::ext_equal]
pub ghost struct StateV {
    pub ledger: LedgerV,
    pub stack: Seq<CallItemV>,
    pub owned: Seq<Seq<char>>,
    pub apool: PoolV<AsyncMessageV>,
    pub epool: PoolV<EventV>,
    pub trace: Seq<TraceRecordV>,
    pub slot: Slot,
}

/// The addresses of the frames of a call stack, bottom first.
pub open spec fn stack_addresses(s: Seq<CallItemV>) -> Seq<Seq<char>> {
    s.map_values(|c: CallItemV| c.address)
}

/// The service object owning ledger, call stack, ownership set, message and
/// event pools, execution trace and the current execution slot.
pub struct InterfaceImpl {
    pub ledger: Ledger,
    pub call_stack: Vec<CallItem>,
    pub owned: Vec<String>,
    pub async_pool: SlotPool<AsyncMessage>,
    pub event_pool: SlotPool<Event>,
    pub trace: Vec<TraceRecord>,
    pub execution_slot: Slot,
}

impl View for InterfaceImpl {
    type V = StateV;

    open spec fn view(&self) -> StateV {
        StateV {
            ledger: self.ledger@,
            stack: self.call_stack@.map_values(|c: CallItem| c@),
            owned: strings_view(self.owned@),
            apool: self.async_pool@,
            epool: self.event_pool@,
            trace: trace_view(self.trace@),
            slot: self.execution_slot,
        }
    }
}

impl InterfaceImpl {
    /// The ledger's keys are distinct, its entries well formed, and the pool
    /// buckets are in slot order.
    pub open spec fn wf(&self) -> bool {
        &&& self.ledger.wf()
        &&& self.async_pool.wf()
        &&& self.event_pool.wf()
    }

    /// A fresh context over the given ledger: empty per-run state, execution
    /// slot at the origin.
    pub fn with_ledger(ledger: Ledger) -> (r: InterfaceImpl)
        requires
            ledger.wf(),
        ensures
            r.wf(),
            r@ == (StateV {
                ledger: ledger@,
                stack: Seq::empty(),
                owned: Seq::empty(),
                apool: Seq::empty(),
                epool: Seq::empty(),
                trace: Seq::empty(),
                slot: Slot { period: 0, thread: 0 },
            }),
    {
        let r = InterfaceImpl {
            ledger,
            call_stack: Vec::new(),
            owned: Vec::new(),
            async_pool: SlotPool::new(),
            event_pool: SlotPool::new(),
            trace: Vec::new(),
            execution_slot: Slot { period: 0, thread: 0 },
        };
        proof {
            assert(r@.stack =~= Seq::<CallItemV>::empty());
            assert(r@.owned =~= Seq::<Seq<char>>::empty());
            assert(r@.trace =~= Seq::<TraceRecordV>::empty());
        }
        r
    }

    /// A fresh context over an empty ledger.
    pub fn new() -> (r: InterfaceImpl)
        ensures
            r.wf(),
            r@ == (StateV {
                ledger: Map::empty(),
                stack: Seq::empty(),
                owned: Seq::empty(),
                apool: Seq::empty(),
                epool: Seq::empty(),
                trace: Seq::empty(),
                slot: Slot { period: 0, thread: 0 },
            }),
    {
        InterfaceImpl::with_ledger(Ledger::new())
    }

    /// A copy of the entry at `address`, or `NotFound`.
    pub fn get_entry(&self, address: &String) -> (r: Result<Entry, ExecError>)
        requires
            self.wf(),
        ensures
            match r {
                Ok(e) => self@.ledger.contains_key(address@) && e@ == self@.ledger[address@]
                    && e.wf(),
                Err(e) => e == ExecError::NotFound && !self@.ledger.contains_key(address@),
            },
    {
        self.ledger.get(address)
    }

    /// A copy of the entry at `address`, or `NotFound`.
    pub fn get(&self, address: &String) -> (r: Result<Entry, ExecError>)
        requires
            self.wf(),
        ensures
            match r {
                Ok(e) => self@.ledger.contains_key(address@) && e@ == self@.ledger[address@]
                    && e.wf(),
                Err(e) => e == ExecError::NotFound && !self@.ledger.contains_key(address@),
            },
    {
        self.ledger.get(address)
    }

    /// Replace-or-create the whole entry at `address`: the administrative
    /// seeding path, not subject to access control.
    pub fn create_new_entry(&mut self, address: String, entry: Entry)
        requires
            old(self).wf(),
            entry.wf(),
        ensures
            final(self).wf(),
            final(self)@ == (StateV {
                ledger: old(self)@.ledger.insert(address@, entry@),
                ..old(self)@
            }),
    {
        self.ledger.set_entry(address, entry);
    }

    /// Push one frame onto the call stack.
    pub fn call_stack_push(&mut self, item: CallItem)
        ensures
            final(self).wf() == old(self).wf(),
            final(self)@ == (StateV { stack: old(self)@.stack.push(item@), ..old(self)@ }),
    {
        let ghost itemv = item@;
        self.call_stack.push(item);
        proof {
            assert(self@.stack =~= old(self)@.stack.push(itemv));
            assert(self@ =~= (StateV { stack: old(self)@.stack.push(itemv), ..old(self)@ }));
        }
    }

    /// Pop the top frame; fails with `EmptyStack` exactly on an empty stack,
    /// leaving the state unchanged.
    pub fn call_stack_pop(&mut self) -> (r: Result<(), ExecError>)
        ensures
            final(self).wf() == old(self).wf(),
            match r {
                Ok(()) => old(self)@.stack.len() > 0 && final(self)@ == (StateV {
                    stack: old(self)@.stack.drop_last(),
                    ..old(self)@
                }),
                Err(e) => e == ExecError::EmptyStack && old(self)@.stack.len() == 0 && final(
                    self)@ == old(self)@,
            },
    {
        match self.call_stack.pop() {
            Some(_) => {
                proof {
                    assert(self@.stack =~= old(self)@.stack.drop_last());
                    assert(self@ =~= (StateV { stack: old(self)@.stack.drop_last(), ..old(
                        self)@ }));
                }
                Ok(())
            },
            None => Err(ExecError::EmptyStack),
        }
    }

    /// A copy of the top frame; fails with `EmptyStack` exactly on an empty
    /// stack.
    pub fn call_stack_peek(&self) -> (r: Result<CallItem, ExecError>)
        ensures
            match r {
                Ok(item) => self@.stack.len() > 0 && item@ == self@.stack.last(),
                Err(e) => e == ExecError::EmptyStack && self@.stack.len() == 0,
            },
    {
        let n = self.call_stack.len();
        if n == 0 {
            Err(ExecError::EmptyStack)
        } else {
            Ok(self.call_stack[n - 1].dup())
        }
    }

    /// Create-or-update of one datastore key at `address` (auto-creating a
    /// default entry), not subject to access control.
    pub fn set_data_entry(&mut self, address: String, key: String, value: Vec<u8>)
        requires
            old(self).wf(),
        ensures
            final(self).wf(),
            final(self)@ == (StateV {
                ledger: old(self)@.ledger.insert(address@, crate::ledger::spec_set_data(old(
                    self)@.ledger, address@, key@, value@)),
                ..old(self)@
            }),
    {
        self.ledger.set_data_entry(address, key, value);
    }

    /// Create-or-update of the bytecode at `address` (auto-creating a default
    /// entry).
    pub fn set_module(&mut self, address: String, module: &Vec<u8>)
        requires
            old(self).wf(),
        ensures
            final(self).wf(),
            final(self)@ == (StateV {
                ledger: old(self)@.ledger.insert(address@, crate::ledger::spec_set_module(old(
                    self)@.ledger, address@, module@)),
                ..old(self)@
            }),
    {
        self.ledger.set_module(address, module);
    }

    /// Checked debit on the ledger; see [`Ledger::sub`].
    pub fn sub(&mut self, address: &String, amount: u64) -> (r: Result<(), ExecError>)
        requires
            old(self).wf(),
        ensures
            final(self).wf(),
            match r {
                Ok(()) => {
                    &&& old(self)@.ledger.contains_key(address@)
                    &&& amount <= old(self)@.ledger[address@].balance
                    &&& final(self)@ == (StateV {
                        ledger: old(self)@.ledger.insert(address@, crate::ledger::EntryV {
                            balance: (old(self)@.ledger[address@].balance - amount) as u64,
                            ..old(self)@.ledger[address@]
                        }),
                        ..old(self)@
                    })
                },
                Err(e) => {
                    &&& final(self)@ == old(self)@
                    &&& if !old(self)@.ledger.contains_key(address@) {
                        e == ExecError::NotFound
                    } else {
                        e == ExecError::InsufficientBalance && amount > old(self)@.ledger[
                            address@].balance
                    }
                },
            },
    {
        let r = self.ledger.sub(address, amount);
        proof {
            if r is Ok {
                assert(self@ =~= (StateV {
                    ledger: old(self)@.ledger.insert(address@, crate::ledger::EntryV {
                        balance: (old(self)@.ledger[address@].balance - amount) as u64,
                        ..old(self)@.ledger[address@]
                    }),
                    ..old(self)@
                }));
            } else {
                assert(self@ =~= old(self)@);
            }
        }
        r
    }

    /// Checked credit on the ledger; see [`Ledger::add`].
    pub fn add(&mut self, address: &String, amount: u64) -> (r: Result<(), ExecError>)
        requires
            old(self).wf(),
        ensures
            final(self).wf(),
            match r {
                Ok(()) => {
                    &&& old(self)@.ledger.contains_key(address@)
                    &&& old(self)@.ledger[address@].balance + amount <= u64::MAX
                    &&& final(self)@ == (StateV {
                        ledger: old(self)@.ledger.insert(address@, crate::ledger::EntryV {
                            balance: (old(self)@.ledger[address@].balance + amount) as u64,
                            ..old(self)@.ledger[address@]
                        }),
                        ..old(self)@
                    })
                },
                Err(e) => {
                    &&& final(self)@ == old(self)@
                    &&& if !old(self)@.ledger.contains_key(address@) {
                        e == ExecError::NotFound
                    } else {
                        e == ExecError::BalanceOverflow && old(self)@.ledger[address@].balance
                            + amount > u64::MAX
                    }
                },
            },
    {
        let r = self.ledger.add(address, amount);
        proof {
            if r is Ok {
                assert(self@ =~= (StateV {
                    ledger: old(self)@.ledger.insert(address@, crate::ledger::EntryV {
                        balance: (old(self)@.ledger[address@].balance + amount) as u64,
                        ..old(self)@.ledger[address@]
                    }),
                    ..old(self)@
                }));
            } else {
                assert(self@ =~= old(self)@);
            }
        }
        r
    }

    /// The addresses of the call stack, bottom first.
    pub fn callstack_to_vec(&self) -> (r: Vec<String>)
        ensures
            strings_view(r@) == stack_addresses(self@.stack),
    {
        let n = self.call_stack.len();
        let mut out: Vec<String> = Vec::new();
        let mut i: usize = 0;
        while i < n
            invariant
                n == self.call_stack@.len(),
                0 <= i <= n,
                out@.len() == i,
                forall|j: int| #![trigger out@[j]] 0 <= j < i ==> out@[j]@ == self.call_stack@[
                    j].address@,
            decreases n - i,
        {
            out.push(clone_string(&self.call_stack[i].address));
            i = i + 1;
        }
        proof {
            assert(strings_view(out@) =~= stack_addresses(self@.stack));
        }
        out
    }

    /// A snapshot of the ownership set, in insertion order.
    pub fn owned_to_vec(&self) -> (r: Vec<String>)
        ensures
            strings_view(r@) == self@.owned,
    {
        let n = self.owned.len();
        let mut out: Vec<String> = Vec::new();
        let mut i: usize = 0;
        while i < n
            invariant
                n == self.owned@.len(),
                0 <= i <= n,
                out@.len() == i,
                forall|j: int| #![trigger out@[j]] 0 <= j < i ==> out@[j]@ == self.owned@[j]@,
            decreases n - i,
        {
            out.push(clone_string(&self.owned[i]));
            i = i + 1;
        }
        proof {
            assert(strings_view(out@) =~= self@.owned);
        }
        out
    }

    /// Whether `address` was created during the current step.
    pub fn own(&self, address: &String) -> (r: bool)
        ensures
            r == self@.owned.contains(address@),
    {
        let n = self.owned.len();
        let mut i: usize = 0;
        while i < n
            invariant
                n == self.owned@.len(),
                0 <= i <= n,
                forall|j: int| 0 <= j < i ==> self.owned@[j]@ != address@,
            decreases n - i,
        {
            if self.owned[i] == *address {
                proof {
                    assert(self@.owned[i as int] == address@);
                }
                return true;
            }
            i = i + 1;
        }
        proof {
            assert forall|j: int| 0 <= j < self@.owned.len() implies self@.owned[j] != address@
            by {
                assert(self.owned@[j]@ != address@);
            }
        }
        false
    }

    /// Record `address` as created during the current step.
    pub fn own_insert(&mut self, address: &String)
        ensures
            final(self).wf() == old(self).wf(),
            final(self)@ == (StateV { owned: old(self)@.owned.push(address@), ..old(self)@ }),
    {
        self.owned.push(clone_string(address));
        proof {
            assert(self@.owned =~= old(self)@.owned.push(address@));
            assert(self@ =~= (StateV { owned: old(self)@.owned.push(address@), ..old(self)@ }));
        }
    }

    /// Step reset: clear the call stack and the ownership set.
    pub fn reset_addresses(&mut self)
        ensures
            final(self).wf() == old(self).wf(),
            final(self)@ == (StateV {
                stack: Seq::empty(),
                owned: Seq::empty(),
                ..old(self)@
            }),
    {
        self.owned.clear();
        self.call_stack.clear();
        proof {
            assert(self@.stack =~= Seq::<CallItemV>::empty());
            assert(self@.owned =~= Seq::<Seq<char>>::empty());
            assert(self@ =~= (StateV {
                stack: Seq::empty(),
                owned: Seq::empty(),
                ..old(self)@
            }));
        }
    }

    /// Move the execution slot: done by the scheduler before a step's action
    /// and before message replay.
    pub fn set_execution_slot(&mut self, slot: Slot)
        ensures
            final(self).wf() == old(self).wf(),
            final(self)@ == (StateV { slot, ..old(self)@ }),
    {
        self.execution_slot = slot;
        proof {
            assert(self@ =~= (StateV { slot, ..old(self)@ }));
        }
    }

    /// File `message` under `slot` in the async pool, after any message
    /// already filed there.
    pub fn push_async_message(&mut self, slot: Slot, message: AsyncMessage)
        requires
            old(self).wf(),
        ensures
            final(self).wf(),
            final(self)@ == (StateV {
                apool: pool_insert(old(self)@.apool, slot, message@),
                ..old(self)@
            }),
    {
        let ghost mv = message@;
        self.async_pool.push_at(slot, message);
        proof {
            assert(self@ =~= (StateV {
                apool: pool_insert(old(self)@.apool, slot, mv),
                ..old(self)@
            }));
        }
    }

    /// Remove and return every pooled message due at the current execution
    /// slot, in slot order then insertion order.  Consume-once: a returned
    /// message has left the pool.
    pub fn get_async_messages_to_execute(&mut self) -> (r: Vec<AsyncMessage>)
        requires
            old(self).wf(),
        ensures
            final(self).wf(),
            final(self)@ == (StateV {
                apool: old(self)@.apool.skip(due_count(old(self)@.apool, old(self)@.slot)),
                ..old(self)@
            }),
            r@.map_values(|m: AsyncMessage| m@) == flatten_msgs(old(self)@.apool.take(due_count(
                old(self)@.apool, old(self)@.slot))),
    {
        let current = self.execution_slot;
        let r = self.async_pool.drain_due(&current);
        proof {
            assert(self@ =~= (StateV {
                apool: old(self)@.apool.skip(due_count(old(self)@.apool, old(self)@.slot)),
                ..old(self)@
            }));
        }
        r
    }

    /// The pooled messages with slot in the half-open window `[start, end)`,
    /// either bound absent meaning unbounded; the pool is untouched.
    pub fn get_async_messages_in(&self, start: Option<Slot>, end: Option<Slot>) -> (r: Vec<
        AsyncMessage>)
        ensures
            r@.map_values(|m: AsyncMessage| m@) == window_msgs(self@.apool, start, end),
    {
        self.async_pool.items_in_window(start, end)
    }

    /// File an event under `slot`.
    pub fn push_event(&mut self, slot: Slot, addr: String, data: String)
        requires
            old(self).wf(),
        ensures
            final(self).wf(),
            final(self)@ == (StateV {
                epool: pool_insert(old(self)@.epool, slot, EventV {
                    sender_address: addr@,
                    data: data@,
                }),
                ..old(self)@
            }),
    {
        let event = Event { sender_address: addr, data };
        let ghost ev = event@;
        self.event_pool.push_at(slot, event);
        proof {
            assert(self@ =~= (StateV {
                epool: pool_insert(old(self)@.epool, slot, ev),
                ..old(self)@
            }));
        }
    }

    /// The pooled events with slot in the half-open window `[start, end)`.
    pub fn get_events_in(&self, start: Option<Slot>, end: Option<Slot>) -> (r: Vec<Event>)
        ensures
            r@.map_values(|e: Event| e@) == window_msgs(self@.epool, start, end),
    {
        self.event_pool.items_in_window(start, end)
    }

    /// Append one record to the execution trace.
    pub fn update_execution_trace(&mut self, record: TraceRecord)
        ensures
            final(self).wf() == old(self).wf(),
            final(self)@ == (StateV { trace: old(self)@.trace.push(record@), ..old(self)@ }),
    {
        let ghost rv = record@;
        self.trace.push(record);
        proof {
            assert(self@.trace =~= old(self)@.trace.push(rv));
            assert(self@ =~= (StateV { trace: old(self)@.trace.push(rv), ..old(self)@ }));
        }
    }

    /// Return the accumulated trace and clear it: called exactly once per
    /// virtual-machine invocation to isolate that invocation's trace.
    pub fn take_execution_trace(&mut self) -> (r: Vec<TraceRecord>)
        ensures
            final(self).wf() == old(self).wf(),
            trace_view(r@) == old(self)@.trace,
            final(self)@ == (StateV { trace: Seq::empty(), ..old(self)@ }),
    {
        let mut taken: Vec<TraceRecord> = Vec::new();
        core::mem::swap(&mut self.trace, &mut taken);
        proof {
            assert(self@.trace =~= Seq::<TraceRecordV>::empty());
            assert(self@ =~= (StateV { trace: Seq::empty(), ..old(self)@ }));
        }
        taken
    }
}

} // verus!
