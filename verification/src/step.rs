//! The step scheduler's decision logic.
//!
//! One configured step runs as: reset the per-step context, execute the
//! step's action, replay every due asynchronous message, persist the ledger.
//! The virtual machine itself and all file handling live outside this crate,
//! so [`InterfaceImpl::execute_step`] carries a step up to the point where a
//! VM invocation (if any) is needed and returns a [`StepOutcome`] telling the
//! caller what to run; [`InterfaceImpl::prepare_message_replay`] does the
//! same for each drained message.  Every state effect on the context is
//! stated and proved here; the caller only moves bytes in and out of the VM.

use vstd::prelude::*;

use crate::assoc::KV;
use crate::context::{InterfaceImpl, StateV};
use crate::errors::ExecError;
use crate::ledger::{clone_string, Entry, EntryV};
use crate::msg::{AsyncMessage, AsyncMessageV, CallItem, CallItemV, Event};
use crate::pool::{pool_insert, window_msgs};
use crate::slot::Slot;

verus! {

/// One configured step: deploy, call, query, or direct ledger/message edit.
pub enum StepConfig {
    /// Run a contract loaded from a file outside the ledger.
    ExecuteSC {
        path: String,
        function: Option<String>,
        parameter: Option<Vec<u8>>,
        gas: u64,
        call_stack: Vec<CallItem>,
    },
    /// Run a contract stored in the ledger.
    CallSC {
        address: String,
        function: Option<String>,
        parameter: Option<Vec<u8>>,
        gas: u64,
        call_stack: Vec<CallItem>,
    },
    /// Query the event pool.
    ReadEvents { start: Option<Slot>, end: Option<Slot> },
    /// Query one ledger entry.
    ReadLedgerEntry { address: String },
    /// Administrative seeding of one ledger entry, not subject to access
    /// control.
    WriteLedgerEntry {
        address: String,
        balance: Option<u64>,
        bytecode: Option<Vec<u8>>,
        datastore: Option<Vec<KV<Vec<u8>>>>,
    },
    /// Query the async-message pool.
    ReadAsyncMessages { start: Option<Slot>, end: Option<Slot> },
    /// Direct enqueue of one asynchronous message.
    WriteAsyncMessage {
        sender_address: String,
        target_address: String,
        target_handler: String,
        execution_slot: Slot,
        gas: u64,
        coins: u64,
        data: String,
    },
}

/// What a step's action amounts to once the context is prepared: either the
/// caller must now run the virtual machine, or the action is already done and
/// its result is here.
#[derive(Debug)]
pub enum StepOutcome {
    /// Run the VM on a module read from `path`.
    VmFile { path: String, function: Option<String>, parameter: Option<Vec<u8>>, gas: u64 },
    /// Run the VM on this bytecode from the ledger.
    VmBytecode { bytecode: Vec<u8>, function: Option<String>, parameter: Option<Vec<u8>>, gas: u64 },
    /// The queried events.
    Events { events: Vec<Event> },
    /// The queried ledger entry.
    LedgerEntry { entry: Entry },
    /// The queried messages.
    Messages { messages: Vec<AsyncMessage> },
    /// A direct write completed.
    Written,
}

/// The models of a vector of call frames, bottom first.
pub open spec fn frames_view(s: Seq<CallItem>) -> Seq<CallItemV> {
    s.map_values(|c: CallItem| c@)
}

/// The entry a `WriteLedgerEntry` step builds: absent fields default, and a
/// repeated datastore key keeps its last value.
pub open spec fn spec_seed_entry(
    balance: Option<u64>,
    bytecode: Option<Vec<u8>>,
    datastore: Option<Vec<KV<Vec<u8>>>>,
) -> EntryV {
    EntryV {
        balance: match balance {
            Some(b) => b,
            None => 0,
        },
        bytecode: match bytecode {
            Some(b) => b@,
            None => Seq::empty(),
        },
        datastore: match datastore {
            Some(d) => crate::assoc::kv_map(d@),
            None => Map::empty(),
        },
    }
}

impl InterfaceImpl {
    /// Step reset: clear the call stack and the ownership set, install the
    /// step's frames, and move the execution slot to the step's target.
    pub fn begin_step(&mut self, slot: Slot, call_stack: Vec<CallItem>)
        requires
            old(self).wf(),
        ensures
            final(self).wf(),
            final(self)@ == (StateV {
                stack: frames_view(call_stack@),
                owned: Seq::empty(),
                slot,
                ..old(self)@
            }),
    {
        let ghost cs0 = call_stack@;
        self.reset_addresses();
        self.set_execution_slot(slot);
        let mut rest = call_stack;
        let ghost mut j: int = 0;
        while rest.len() > 0
            invariant
                self.wf() == old(self).wf(),
                0 <= j <= cs0.len(),
                rest@ =~= cs0.skip(j),
                self@ == (StateV {
                    stack: frames_view(cs0.take(j)),
                    owned: Seq::empty(),
                    slot,
                    ..old(self)@
                }),
            decreases rest@.len(),
        {
            let item = rest.remove(0);
            proof {
                assert(item == cs0[j]);
            }
            self.call_stack_push(item);
            proof {
                j = j + 1;
                assert(rest@ =~= cs0.skip(j));
                assert(frames_view(cs0.take(j)) =~= frames_view(cs0.take(j - 1)).push(cs0[j
                    - 1]@));
                assert(self@ =~= (StateV {
                    stack: frames_view(cs0.take(j)),
                    owned: Seq::empty(),
                    slot,
                    ..old(self)@
                }));
            }
        }
        proof {
            assert(cs0.take(j) =~= cs0);
        }
    }

    /// Prepare the replay of one due message: reset the per-step context,
    /// push the sender frame then the target frame, and look up the target's
    /// bytecode for the caller to run.  The lookup fails with `NotFound`
    /// exactly when the target has no ledger entry; the frames stay in place
    /// either way, as the step then aborts as a whole.
    pub fn prepare_message_replay(&mut self, message: &AsyncMessage) -> (r: Result<
        Vec<u8>,
        ExecError,
    >)
        requires
            old(self).wf(),
        ensures
            final(self).wf(),
            final(self)@ == (StateV {
                stack: seq![
                    CallItemV { address: message@.sender_address, coins: message@.coins },
                    CallItemV { address: message@.target_address, coins: message@.coins },
                ],
                owned: Seq::empty(),
                ..old(self)@
            }),
            match r {
                Ok(bytecode) => old(self)@.ledger.contains_key(message@.target_address)
                    && bytecode@ == old(self)@.ledger[message@.target_address].bytecode,
                Err(e) => e == ExecError::NotFound && !old(self)@.ledger.contains_key(
                    message@.target_address),
            },
    {
        self.reset_addresses();
        self.call_stack_push(CallItem {
            address: clone_string(&message.sender_address),
            coins: message.coins,
        });
        self.call_stack_push(CallItem {
            address: clone_string(&message.target_address),
            coins: message.coins,
        });
        proof {
            assert(self@.stack =~= seq![
                CallItemV { address: message@.sender_address, coins: message@.coins },
                CallItemV { address: message@.target_address, coins: message@.coins },
            ]);
            assert(self@ =~= (StateV {
                stack: seq![
                    CallItemV { address: message@.sender_address, coins: message@.coins },
                    CallItemV { address: message@.target_address, coins: message@.coins },
                ],
                owned: Seq::empty(),
                ..old(self)@
            }));
        }
        let entry = self.get_entry(&message.target_address)?;
        Ok(entry.get_bytecode())
    }

    /// The bytes that persist the ledger after a step: the snapshot encoding
    /// of the whole account map, which the caller writes out.  Decoding them
    /// reproduces the ledger exactly (see the snapshot codec).
    pub fn save(&self) -> (r: Vec<u8>)
        requires
            self.wf(),
        ensures
            r@ == crate::codec::enc_ledger(crate::codec::repr_of_ledger(self.ledger)),
            crate::codec::repr_bounded(crate::codec::repr_of_ledger(self.ledger)),
    {
        crate::codec::encode_snapshot(&self.ledger)
    }

    /// Execute one configured step's action up to (not including) any
    /// virtual-machine run: VM steps get their context installed and hand
    /// back what to run; queries return their data; direct writes are
    /// applied.  The message replay and the snapshot that close the step
    /// follow through [`InterfaceImpl::get_async_messages_to_execute`],
    /// [`InterfaceImpl::prepare_message_replay`] and the snapshot codec.
    pub fn execute_step(&mut self, slot: Slot, config: StepConfig) -> (r: Result<
        StepOutcome,
        ExecError,
    >)
        requires
            old(self).wf(),
        ensures
            final(self).wf(),
            match config {
                StepConfig::ExecuteSC { path, function, parameter, gas, call_stack } => match r {
                    Ok(o) => o == (StepOutcome::VmFile { path, function, parameter, gas })
                        && final(self)@ == (StateV {
                        stack: frames_view(call_stack@),
                        owned: Seq::empty(),
                        slot,
                        ..old(self)@
                    }),
                    Err(_) => false,
                },
                StepConfig::CallSC { address, function, parameter, gas, call_stack } => {
                    let prepared = StateV {
                        stack: frames_view(call_stack@),
                        owned: Seq::empty(),
                        slot,
                        ..old(self)@
                    };
                    match r {
                        Ok(o) => {
                            &&& old(self)@.ledger.contains_key(address@)
                            &&& o matches StepOutcome::VmBytecode {
                                bytecode,
                                function: f,
                                parameter: p,
                                gas: g,
                            } && bytecode@ == old(self)@.ledger[address@].bytecode && f
                                == function && p == parameter && g == gas
                            &&& final(self)@ == prepared
                        },
                        Err(e) => e == ExecError::NotFound && !old(self)@.ledger.contains_key(
                            address@) && final(self)@ == prepared,
                    }
                },
                StepConfig::ReadEvents { start, end } => match r {
                    Ok(o) => o matches StepOutcome::Events { events } && events@.map_values(
                        |e: Event| e@) == window_msgs(old(self)@.epool, start, end) && final(
                        self)@ == old(self)@,
                    Err(_) => false,
                },
                StepConfig::ReadLedgerEntry { address } => match r {
                    Ok(o) => o matches StepOutcome::LedgerEntry { entry } && old(
                        self)@.ledger.contains_key(address@) && entry@ == old(self)@.ledger[
                        address@] && final(self)@ == old(self)@,
                    Err(e) => e == ExecError::NotFound && !old(self)@.ledger.contains_key(
                        address@) && final(self)@ == old(self)@,
                },
                StepConfig::WriteLedgerEntry { address, balance, bytecode, datastore } => match r {
                    Ok(o) => o == StepOutcome::Written && final(self)@ == (StateV {
                        ledger: old(self)@.ledger.insert(address@, spec_seed_entry(balance,
                            bytecode, datastore)),
                        ..old(self)@
                    }),
                    Err(_) => false,
                },
                StepConfig::ReadAsyncMessages { start, end } => match r {
                    Ok(o) => o matches StepOutcome::Messages { messages }
                        && messages@.map_values(|m: AsyncMessage| m@) == window_msgs(old(
                        self)@.apool, start, end) && final(self)@ == old(self)@,
                    Err(_) => false,
                },
                StepConfig::WriteAsyncMessage {
                    sender_address,
                    target_address,
                    target_handler,
                    execution_slot,
                    gas,
                    coins,
                    data,
                } => match r {
                    Ok(o) => o == StepOutcome::Written && final(self)@ == (StateV {
                        apool: pool_insert(old(self)@.apool, execution_slot, AsyncMessageV {
                            sender_address: sender_address@,
                            target_address: target_address@,
                            target_handler: target_handler@,
                            gas,
                            coins,
                            data: vstd::utf8::encode_utf8(data@),
                        }),
                        ..old(self)@
                    }),
                    Err(_) => false,
                },
            },
    {
        match config {
            StepConfig::ExecuteSC { path, function, parameter, gas, call_stack } => {
                self.begin_step(slot, call_stack);
                Ok(StepOutcome::VmFile { path, function, parameter, gas })
            },
            StepConfig::CallSC { address, function, parameter, gas, call_stack } => {
                self.begin_step(slot, call_stack);
                let entry = self.get_entry(&address)?;
                Ok(StepOutcome::VmBytecode {
                    bytecode: entry.get_bytecode(),
                    function,
                    parameter,
                    gas,
                })
            },
            StepConfig::ReadEvents { start, end } => {
                let events = self.get_events_in(start, end);
                Ok(StepOutcome::Events { events })
            },
            StepConfig::ReadLedgerEntry { address } => {
                let entry = self.get_entry(&address)?;
                Ok(StepOutcome::LedgerEntry { entry })
            },
            StepConfig::WriteLedgerEntry { address, balance, bytecode, datastore } => {
                let mut entry = Entry::new_default();
                entry.balance = match balance {
                    Some(b) => b,
                    None => 0,
                };
                entry.bytecode = match bytecode {
                    Some(b) => b,
                    None => Vec::new(),
                };
                let ghost target = spec_seed_entry(balance, bytecode, datastore);
                match datastore {
                    Some(pairs) => {
                        let ghost d0 = pairs@;
                        let mut rest = pairs;
                        let ghost mut j: int = 0;
                        while rest.len() > 0
                            invariant
                                entry.wf(),
                                0 <= j <= d0.len(),
                                rest@ =~= d0.skip(j),
                                entry@.balance == target.balance,
                                entry@.bytecode == target.bytecode,
                                entry@.datastore == crate::assoc::kv_map(d0.take(j)),
                            decreases rest@.len(),
                        {
                            let p = rest.remove(0);
                            proof {
                                assert(p == d0[j]);
                                crate::assoc::lemma_kv_map_push(d0.take(j), d0[j]);
                                assert(d0.take(j).push(d0[j]) =~= d0.take(j + 1));
                            }
                            entry.insert_data(p.key, p.val);
                            proof {
                                j = j + 1;
                                assert(rest@ =~= d0.skip(j));
                            }
                        }
                        proof {
                            assert(d0.take(j) =~= d0);
                            assert(entry@ =~= target);
                        }
                    },
                    None => {
                        proof {
                            assert(entry@ =~= target);
                        }
                    },
                }
                self.create_new_entry(address, entry);
                Ok(StepOutcome::Written)
            },
            StepConfig::ReadAsyncMessages { start, end } => {
                let messages = self.get_async_messages_in(start, end);
                Ok(StepOutcome::Messages { messages })
            },
            StepConfig::WriteAsyncMessage {
                sender_address,
                target_address,
                target_handler,
                execution_slot,
                gas,
                coins,
                data,
            } => {
                let bytes = crate::abi::slice_to_vec(data.as_str().as_bytes());
                let message = AsyncMessage {
                    sender_address,
                    target_address,
                    target_handler,
                    gas,
                    coins,
                    data: bytes,
                };
                self.push_async_message(execution_slot, message);
                Ok(StepOutcome::Written)
            },
        }
    }
}

} // verus!
