//! The host interface: the ABI the virtual machine calls into.
//!
//! Every operation performs its stated effect on the context and, when it
//! succeeds, appends exactly one trace record carrying its request parameters
//! and return value; a failed operation leaves the whole state unchanged.

use vstd::prelude::*;

use crate::context::{stack_addresses, InterfaceImpl, StateV};
use crate::errors::ExecError;
use crate::ledger::{spec_set_data, spec_set_module, spec_transfer, EntryV};
use crate::msg::{AsyncMessageV, CallItem, CallItemV, EventV};
use crate::pool::pool_insert;
use crate::slot::Slot;
use crate::trace::{TraceRecord, TraceRecordV};
use crate::trusted::{b64_of, base64_encode, random_i64, random_u64, random_u8, wyhash64,
    wyhash_of};

verus! {

/// `s` with one more trace record.
pub open spec fn with_trace(s: StateV, r: TraceRecordV) -> StateV {
    StateV { trace: s.trace.push(r), ..s }
}

/// The fixed seed of the host's canonical digest.  Fresh addresses are drawn
/// from the same seeded-wyhash-then-base64 pipeline (with random input); the
/// `hash` operation uses this published seed so that every node computes the
/// same digest.
pub const HOST_HASH_SEED: u64 = 0;

/// The host's canonical digest of a byte string: the base64 text of its
/// wyhash under [`HOST_HASH_SEED`].  Total and deterministic: a function of
/// the bytes alone.
pub open spec fn host_hash(data: Seq<u8>) -> Seq<char> {
    b64_of(spec_u64_be_bytes(wyhash_of(HOST_HASH_SEED, data)))
}

impl InterfaceImpl {
    /// The atomic coin transfer: debit `from`, credit `to`, and undo the
    /// debit if the credit is refused.  The compensation is proved total, so
    /// a failure leaves every balance exactly as it was.
    fn transfer_internal(&mut self, from: &String, to: &String, amount: u64) -> (r: Result<
        (),
        ExecError,
    >)
        requires
            old(self).wf(),
        ensures
            final(self).wf(),
            match r {
                Ok(()) => spec_transfer(old(self)@.ledger, from@, to@, amount) == Ok::<_,
                    ExecError>(final(self)@.ledger) && final(self)@ == (StateV {
                    ledger: final(self)@.ledger,
                    ..old(self)@
                }),
                Err(e) => spec_transfer(old(self)@.ledger, from@, to@, amount) == Err::<
                    crate::ledger::LedgerV,
                    _,
                >(e) && final(self)@ == old(self)@,
            },
    {
        match self.sub(from, amount) {
            Err(e) => Err(e),
            Ok(()) => {
                let ghost l1 = self@.ledger;
                match self.add(to, amount) {
                    Ok(()) => {
                        proof {
                            assert(spec_transfer(old(self)@.ledger, from@, to@, amount)
                                == Ok::<_, ExecError>(final(self)@.ledger));
                        }
                        Ok(())
                    },
                    Err(e) => {
                        let c = self.add(from, amount);
                        proof {
                            assert(l1.contains_key(from@));
                            assert(l1[from@].balance + amount <= u64::MAX);
                            assert(c is Ok);
                            assert(self@.ledger =~= old(self)@.ledger);
                            assert(self@ =~= old(self)@);
                        }
                        Err(e)
                    },
                }
            },
        }
    }

    /// Trace-only: record the virtual machine's `print` call.
    pub fn print(&mut self, message: &str)
        ensures
            final(self).wf() == old(self).wf(),
            final(self)@ == with_trace(old(self)@, TraceRecordV::Print { message: message@ }),
    {
        let record = TraceRecord::Print { message: message.to_owned() };
        self.update_execution_trace(record);
    }

    /// Transfer `raw_amount` coins from `from_address` to `to_address`; see
    /// [`spec_transfer`] for exactly when this succeeds.  On success one
    /// trace record is appended; on failure nothing changes.
    pub fn transfer_coins_for(&mut self, from_address: &str, to_address: &str, raw_amount: u64)
        -> (r: Result<(), ExecError>)
        requires
            old(self).wf(),
        ensures
            final(self).wf(),
            match r {
                Ok(()) => spec_transfer(old(self)@.ledger, from_address@, to_address@, raw_amount)
                    == Ok::<_, ExecError>(final(self)@.ledger) && final(self)@ == with_trace(
                    StateV { ledger: final(self)@.ledger, ..old(self)@ },
                    TraceRecordV::TransferCoinsFor {
                        from_address: from_address@,
                        to_address: to_address@,
                        amount: raw_amount,
                    },
                ),
                Err(e) => spec_transfer(old(self)@.ledger, from_address@, to_address@, raw_amount)
                    == Err::<crate::ledger::LedgerV, _>(e) && final(self)@ == old(self)@,
            },
    {
        let from = from_address.to_owned();
        let to = to_address.to_owned();
        match self.transfer_internal(&from, &to, raw_amount) {
            Ok(()) => {
                self.update_execution_trace(TraceRecord::TransferCoinsFor {
                    from_address: from,
                    to_address: to,
                    amount: raw_amount,
                });
                Ok(())
            },
            Err(e) => Err(e),
        }
    }

    /// Transfer from the currently executing address; fails with `EmptyStack`
    /// when no frame is running.
    pub fn transfer_coins(&mut self, to_address: &str, raw_amount: u64) -> (r: Result<
        (),
        ExecError,
    >)
        requires
            old(self).wf(),
        ensures
            final(self).wf(),
            match r {
                Ok(()) => {
                    &&& old(self)@.stack.len() > 0
                    &&& spec_transfer(old(self)@.ledger, old(self)@.stack.last().address,
                        to_address@, raw_amount) == Ok::<_, ExecError>(final(self)@.ledger)
                    &&& final(self)@ == with_trace(
                        StateV { ledger: final(self)@.ledger, ..old(self)@ },
                        TraceRecordV::TransferCoins {
                            to_address: to_address@,
                            amount: raw_amount,
                        },
                    )
                },
                Err(e) => {
                    &&& final(self)@ == old(self)@
                    &&& if old(self)@.stack.len() == 0 {
                        e == ExecError::EmptyStack
                    } else {
                        spec_transfer(old(self)@.ledger, old(self)@.stack.last().address,
                            to_address@, raw_amount) == Err::<crate::ledger::LedgerV, _>(e)
                    }
                },
            },
    {
        let frame = self.call_stack_peek()?;
        let to = to_address.to_owned();
        match self.transfer_internal(&frame.address, &to, raw_amount) {
            Ok(()) => {
                self.update_execution_trace(TraceRecord::TransferCoins {
                    to_address: to,
                    amount: raw_amount,
                });
                Ok(())
            },
            Err(e) => Err(e),
        }
    }

    /// Enter a call: transfer `raw_coins` (when positive) from the current
    /// frame to `address`, push the new frame, and return the callee's
    /// bytecode.
    pub fn init_call(&mut self, address: &str, raw_coins: u64) -> (r: Result<Vec<u8>, ExecError>)
        requires
            old(self).wf(),
        ensures
            final(self).wf(),
            match r {
                Ok(bytecode) => {
                    &&& old(self)@.ledger.contains_key(address@)
                    &&& old(self)@.stack.len() > 0
                    &&& bytecode@ == old(self)@.ledger[address@].bytecode
                    &&& {
                        let transferred = if raw_coins > 0 {
                            spec_transfer(old(self)@.ledger, old(self)@.stack.last().address,
                                address@, raw_coins)
                        } else {
                            Ok(old(self)@.ledger)
                        };
                        &&& transferred is Ok
                        &&& final(self)@ == with_trace(
                            StateV {
                                ledger: transferred.unwrap(),
                                stack: old(self)@.stack.push(CallItemV {
                                    address: address@,
                                    coins: raw_coins,
                                }),
                                ..old(self)@
                            },
                            TraceRecordV::InitCall { address: address@, coins: raw_coins },
                        )
                    }
                },
                Err(e) => {
                    &&& final(self)@ == old(self)@
                    &&& if !old(self)@.ledger.contains_key(address@) {
                        e == ExecError::NotFound
                    } else if old(self)@.stack.len() == 0 {
                        e == ExecError::EmptyStack
                    } else {
                        raw_coins > 0 && spec_transfer(old(self)@.ledger,
                            old(self)@.stack.last().address, address@, raw_coins) == Err::<
                            crate::ledger::LedgerV,
                            _,
                        >(e)
                    }
                },
            },
    {
        let addr = address.to_owned();
        let entry = self.get_entry(&addr)?;
        let frame = self.call_stack_peek()?;
        if raw_coins > 0 {
            self.transfer_internal(&frame.address, &addr, raw_coins)?;
        }
        self.call_stack_push(CallItem { address: addr, coins: raw_coins });
        self.update_execution_trace(TraceRecord::InitCall {
            address: address.to_owned(),
            coins: raw_coins,
        });
        Ok(entry.get_bytecode())
    }

    /// Leave the innermost call: pop the top frame.
    pub fn finish_call(&mut self) -> (r: Result<(), ExecError>)
        ensures
            final(self).wf() == old(self).wf(),
            match r {
                Ok(()) => old(self)@.stack.len() > 0 && final(self)@ == with_trace(
                    StateV { stack: old(self)@.stack.drop_last(), ..old(self)@ },
                    TraceRecordV::FinishCall,
                ),
                Err(e) => e == ExecError::EmptyStack && old(self)@.stack.len() == 0 && final(
                    self)@ == old(self)@,
            },
    {
        self.call_stack_pop()?;
        self.update_execution_trace(TraceRecord::FinishCall);
        Ok(())
    }

    /// The balance of the currently executing address; `EmptyStack` without a
    /// frame, `NotFound` when the frame's address has no entry.
    pub fn get_balance(&mut self) -> (r: Result<u64, ExecError>)
        requires
            old(self).wf(),
        ensures
            final(self).wf(),
            match r {
                Ok(balance) => {
                    &&& old(self)@.stack.len() > 0
                    &&& old(self)@.ledger.contains_key(old(self)@.stack.last().address)
                    &&& balance == old(self)@.ledger[old(self)@.stack.last().address].balance
                    &&& final(self)@ == with_trace(old(self)@, TraceRecordV::GetBalance {
                        value: balance,
                    })
                },
                Err(e) => {
                    &&& final(self)@ == old(self)@
                    &&& if old(self)@.stack.len() == 0 {
                        e == ExecError::EmptyStack
                    } else {
                        e == ExecError::NotFound && !old(self)@.ledger.contains_key(old(
                            self)@.stack.last().address)
                    }
                },
            },
    {
        let frame = self.call_stack_peek()?;
        let entry = self.get_entry(&frame.address)?;
        let balance = entry.balance;
        self.update_execution_trace(TraceRecord::GetBalance { value: balance });
        Ok(balance)
    }

    /// The balance at `address`; `NotFound` when it has no entry.
    pub fn get_balance_for(&mut self, address: &str) -> (r: Result<u64, ExecError>)
        requires
            old(self).wf(),
        ensures
            final(self).wf(),
            match r {
                Ok(balance) => {
                    &&& old(self)@.ledger.contains_key(address@)
                    &&& balance == old(self)@.ledger[address@].balance
                    &&& final(self)@ == with_trace(old(self)@, TraceRecordV::GetBalanceFor {
                        address: address@,
                        value: balance,
                    })
                },
                Err(e) => e == ExecError::NotFound && !old(self)@.ledger.contains_key(address@)
                    && final(self)@ == old(self)@,
            },
    {
        let addr = address.to_owned();
        let entry = self.get_entry(&addr)?;
        let balance = entry.balance;
        self.update_execution_trace(TraceRecord::GetBalanceFor { address: addr, value: balance });
        Ok(balance)
    }

    /// Deploy `module` under a freshly generated address: the address is a
    /// base64 text of a seeded hash of random bytes, the bytecode is stored
    /// under it, and the address joins the ownership set.  The caller learns
    /// the address from the return value; every other effect is stated in
    /// terms of it.
    pub fn create_module(&mut self, module: &Vec<u8>) -> (r: String)
        requires
            old(self).wf(),
        ensures
            final(self).wf(),
            final(self)@ == with_trace(
                StateV {
                    ledger: old(self)@.ledger.insert(r@, spec_set_module(old(self)@.ledger, r@,
                        module@)),
                    owned: old(self)@.owned.push(r@),
                    ..old(self)@
                },
                TraceRecordV::CreateModule { module: module@, address: r@ },
            ),
    {
        let seed = random_u64();
        let mut noise: Vec<u8> = Vec::new();
        noise.push(random_u8());
        noise.push(random_u8());
        noise.push(random_u8());
        let digest = wyhash64(seed, noise.as_slice());
        let digest_bytes = u64_be_bytes(digest);
        let address = base64_encode(digest_bytes.as_slice());
        self.set_module(clone_str(&address), module);
        self.own_insert(&address);
        self.update_execution_trace(TraceRecord::CreateModule {
            module: crate::ledger::clone_bytes(module),
            address: clone_str(&address),
        });
        address
    }

    /// The datastore value under `key` at `address`, empty bytes when the
    /// key is absent; `NotFound` when the address has no entry.
    pub fn raw_get_data_for(&mut self, address: &str, key: &str) -> (r: Result<Vec<u8>, ExecError>)
        requires
            old(self).wf(),
        ensures
            final(self).wf(),
            match r {
                Ok(value) => {
                    &&& old(self)@.ledger.contains_key(address@)
                    &&& value@ == spec_data_lookup(old(self)@.ledger[address@], key@)
                    &&& final(self)@ == with_trace(old(self)@, TraceRecordV::RawGetDataFor {
                        address: address@,
                        key: key@,
                        value: value@,
                    })
                },
                Err(e) => e == ExecError::NotFound && !old(self)@.ledger.contains_key(address@)
                    && final(self)@ == old(self)@,
            },
    {
        let addr = address.to_owned();
        let key_s = key.to_owned();
        let entry = self.get_entry(&addr)?;
        let value = entry.get_data(&key_s);
        self.update_execution_trace(TraceRecord::RawGetDataFor {
            address: addr,
            key: key_s,
            value: crate::ledger::clone_bytes(&value),
        });
        Ok(value)
    }

    /// The datastore value under `key` at the currently executing address.
    pub fn raw_get_data(&mut self, key: &str) -> (r: Result<Vec<u8>, ExecError>)
        requires
            old(self).wf(),
        ensures
            final(self).wf(),
            match r {
                Ok(value) => {
                    &&& old(self)@.stack.len() > 0
                    &&& old(self)@.ledger.contains_key(old(self)@.stack.last().address)
                    &&& value@ == spec_data_lookup(old(self)@.ledger[old(
                        self)@.stack.last().address], key@)
                    &&& final(self)@ == with_trace(old(self)@, TraceRecordV::RawGetData {
                        key: key@,
                        value: value@,
                    })
                },
                Err(e) => {
                    &&& final(self)@ == old(self)@
                    &&& if old(self)@.stack.len() == 0 {
                        e == ExecError::EmptyStack
                    } else {
                        e == ExecError::NotFound && !old(self)@.ledger.contains_key(old(
                            self)@.stack.last().address)
                    }
                },
            },
    {
        let frame = self.call_stack_peek()?;
        let key_s = key.to_owned();
        let entry = self.get_entry(&frame.address)?;
        let value = entry.get_data(&key_s);
        self.update_execution_trace(TraceRecord::RawGetData {
            key: key_s,
            value: crate::ledger::clone_bytes(&value),
        });
        Ok(value)
    }

    /// Write `value` under `key` at `address`.  Permitted exactly when the
    /// current frame executes `address` itself or `address` is in the
    /// ownership set; otherwise the write fails with `AccessDenied` and the
    /// whole state, datastore included, is unchanged.
    pub fn raw_set_data_for(&mut self, address: &str, key: &str, value: &Vec<u8>) -> (r: Result<
        (),
        ExecError,
    >)
        requires
            old(self).wf(),
        ensures
            final(self).wf(),
            match r {
                Ok(()) => {
                    &&& old(self)@.stack.len() > 0
                    &&& (address@ == old(self)@.stack.last().address || old(
                        self)@.owned.contains(address@))
                    &&& final(self)@ == with_trace(
                        StateV {
                            ledger: old(self)@.ledger.insert(address@, spec_set_data(old(
                                self)@.ledger, address@, key@, value@)),
                            ..old(self)@
                        },
                        TraceRecordV::RawSetDataFor {
                            address: address@,
                            key: key@,
                            value: value@,
                        },
                    )
                },
                Err(e) => {
                    &&& final(self)@ == old(self)@
                    &&& if old(self)@.stack.len() == 0 {
                        e == ExecError::EmptyStack
                    } else {
                        e == ExecError::AccessDenied && address@ != old(
                            self)@.stack.last().address && !old(self)@.owned.contains(address@)
                    }
                },
            },
    {
        let frame = self.call_stack_peek()?;
        let addr = address.to_owned();
        if self.own(&addr) || addr == frame.address {
            self.set_data_entry(clone_str(&addr), key.to_owned(), crate::ledger::clone_bytes(
                value));
            self.update_execution_trace(TraceRecord::RawSetDataFor {
                address: addr,
                key: key.to_owned(),
                value: crate::ledger::clone_bytes(value),
            });
            Ok(())
        } else {
            Err(ExecError::AccessDenied)
        }
    }

    /// Write `value` under `key` at the currently executing address: a frame
    /// may always write its own datastore.
    pub fn raw_set_data(&mut self, key: &str, value: &Vec<u8>) -> (r: Result<(), ExecError>)
        requires
            old(self).wf(),
        ensures
            final(self).wf(),
            match r {
                Ok(()) => {
                    &&& old(self)@.stack.len() > 0
                    &&& final(self)@ == with_trace(
                        StateV {
                            ledger: old(self)@.ledger.insert(old(self)@.stack.last().address,
                                spec_set_data(old(self)@.ledger, old(
                                self)@.stack.last().address, key@, value@)),
                            ..old(self)@
                        },
                        TraceRecordV::RawSetData { key: key@, value: value@ },
                    )
                },
                Err(e) => e == ExecError::EmptyStack && old(self)@.stack.len() == 0 && final(
                    self)@ == old(self)@,
            },
    {
        let frame = self.call_stack_peek()?;
        self.set_data_entry(clone_str(&frame.address), key.to_owned(),
            crate::ledger::clone_bytes(value));
        self.update_execution_trace(TraceRecord::RawSetData {
            key: key.to_owned(),
            value: crate::ledger::clone_bytes(value),
        });
        Ok(())
    }

    /// A snapshot of the ownership set.
    pub fn get_owned_addresses(&mut self) -> (r: Vec<String>)
        ensures
            final(self).wf() == old(self).wf(),
            crate::trace::strings_view(r@) == old(self)@.owned,
            final(self)@ == with_trace(old(self)@, TraceRecordV::GetOwnedAddresses {
                addresses: old(self)@.owned,
            }),
    {
        let out = self.owned_to_vec();
        let recorded = self.owned_to_vec();
        self.update_execution_trace(TraceRecord::GetOwnedAddresses { addresses: recorded });
        out
    }

    /// A snapshot of the call-stack addresses, bottom first.
    pub fn get_call_stack(&mut self) -> (r: Vec<String>)
        ensures
            final(self).wf() == old(self).wf(),
            crate::trace::strings_view(r@) == stack_addresses(old(self)@.stack),
            final(self)@ == with_trace(old(self)@, TraceRecordV::GetCallStack {
                addresses: stack_addresses(old(self)@.stack),
            }),
    {
        let out = self.callstack_to_vec();
        let recorded = self.callstack_to_vec();
        self.update_execution_trace(TraceRecord::GetCallStack { addresses: recorded });
        out
    }

    /// Append an event keyed by the current execution slot, with the current
    /// frame as its sender.
    pub fn generate_event(&mut self, data: String) -> (r: Result<(), ExecError>)
        requires
            old(self).wf(),
        ensures
            final(self).wf(),
            match r {
                Ok(()) => {
                    &&& old(self)@.stack.len() > 0
                    &&& final(self)@ == with_trace(
                        StateV {
                            epool: pool_insert(old(self)@.epool, old(self)@.slot, EventV {
                                sender_address: old(self)@.stack.last().address,
                                data: data@,
                            }),
                            ..old(self)@
                        },
                        TraceRecordV::GenerateEvent { data: data@ },
                    )
                },
                Err(e) => e == ExecError::EmptyStack && old(self)@.stack.len() == 0 && final(
                    self)@ == old(self)@,
            },
    {
        let frame = self.call_stack_peek()?;
        let slot = self.execution_slot;
        self.push_event(slot, frame.address, clone_str(&data));
        self.update_execution_trace(TraceRecord::GenerateEvent { data });
        Ok(())
    }

    /// The coins forwarded into the current call.
    pub fn get_call_coins(&mut self) -> (r: Result<u64, ExecError>)
        ensures
            final(self).wf() == old(self).wf(),
            match r {
                Ok(coins) => old(self)@.stack.len() > 0 && coins == old(
                    self)@.stack.last().coins && final(self)@ == with_trace(old(self)@,
                    TraceRecordV::GetCallCoins { value: coins }),
                Err(e) => e == ExecError::EmptyStack && old(self)@.stack.len() == 0 && final(
                    self)@ == old(self)@,
            },
    {
        let frame = self.call_stack_peek()?;
        self.update_execution_trace(TraceRecord::GetCallCoins { value: frame.coins });
        Ok(frame.coins)
    }

    /// Whether the currently executing address holds `key` in its datastore.
    pub fn has_data(&mut self, key: &str) -> (r: Result<bool, ExecError>)
        requires
            old(self).wf(),
        ensures
            final(self).wf(),
            match r {
                Ok(present) => {
                    &&& old(self)@.stack.len() > 0
                    &&& old(self)@.ledger.contains_key(old(self)@.stack.last().address)
                    &&& present == old(self)@.ledger[old(
                        self)@.stack.last().address].datastore.contains_key(key@)
                    &&& final(self)@ == with_trace(old(self)@, TraceRecordV::HasData {
                        key: key@,
                        value: present,
                    })
                },
                Err(e) => {
                    &&& final(self)@ == old(self)@
                    &&& if old(self)@.stack.len() == 0 {
                        e == ExecError::EmptyStack
                    } else {
                        e == ExecError::NotFound && !old(self)@.ledger.contains_key(old(
                            self)@.stack.last().address)
                    }
                },
            },
    {
        let frame = self.call_stack_peek()?;
        let key_s = key.to_owned();
        let entry = self.get_entry(&frame.address)?;
        let present = entry.has_data(&key_s);
        self.update_execution_trace(TraceRecord::HasData { key: key_s, value: present });
        Ok(present)
    }

    /// The host's canonical digest of `data` (see [`host_hash`]): the same
    /// seeded hash the ledger draws addresses from, under the published
    /// seed.  Total: every byte input has a digest, and equal inputs give
    /// equal digests on every node.
    pub fn hash(&mut self, data: &[u8]) -> (r: String)
        ensures
            final(self).wf() == old(self).wf(),
            r@ == host_hash(data@),
            final(self)@ == with_trace(old(self)@, TraceRecordV::HashBytes {
                key: data@,
                value: host_hash(data@),
            }),
    {
        let digest = wyhash64(HOST_HASH_SEED, data);
        let digest_bytes = u64_be_bytes(digest);
        let text = base64_encode(digest_bytes.as_slice());
        self.update_execution_trace(TraceRecord::HashBytes {
            key: slice_to_vec(data),
            value: clone_str(&text),
        });
        text
    }

    /// Overwrite the bytecode at `address`, creating a default entry when the
    /// address is new.
    pub fn raw_set_bytecode_for(&mut self, address: &str, bytecode: &Vec<u8>)
        requires
            old(self).wf(),
        ensures
            final(self).wf(),
            final(self)@ == with_trace(
                StateV {
                    ledger: old(self)@.ledger.insert(address@, spec_set_module(old(self)@.ledger,
                        address@, bytecode@)),
                    ..old(self)@
                },
                TraceRecordV::RawSetBytecodeFor { address: address@, bytecode: bytecode@ },
            ),
    {
        self.set_module(address.to_owned(), bytecode);
        self.update_execution_trace(TraceRecord::RawSetBytecodeFor {
            address: address.to_owned(),
            bytecode: crate::ledger::clone_bytes(bytecode),
        });
    }

    /// Overwrite the bytecode of the currently executing address.
    pub fn raw_set_bytecode(&mut self, bytecode: &Vec<u8>) -> (r: Result<(), ExecError>)
        requires
            old(self).wf(),
        ensures
            final(self).wf(),
            match r {
                Ok(()) => {
                    &&& old(self)@.stack.len() > 0
                    &&& final(self)@ == with_trace(
                        StateV {
                            ledger: old(self)@.ledger.insert(old(self)@.stack.last().address,
                                spec_set_module(old(self)@.ledger, old(
                                self)@.stack.last().address, bytecode@)),
                            ..old(self)@
                        },
                        TraceRecordV::RawSetBytecode { bytecode: bytecode@ },
                    )
                },
                Err(e) => e == ExecError::EmptyStack && old(self)@.stack.len() == 0 && final(
                    self)@ == old(self)@,
            },
    {
        let frame = self.call_stack_peek()?;
        self.set_module(clone_str(&frame.address), bytecode);
        self.update_execution_trace(TraceRecord::RawSetBytecode {
            bytecode: crate::ledger::clone_bytes(bytecode),
        });
        Ok(())
    }

    /// A non-deterministic draw, recorded in the trace.  The value is not
    /// reproducible between runs: real nodes must use a verifiable or seeded
    /// source instead.
    pub fn unsafe_random(&mut self) -> (r: i64)
        ensures
            final(self).wf() == old(self).wf(),
            final(self)@ == with_trace(old(self)@, TraceRecordV::UnsafeRandom { value: r }),
    {
        let value = random_i64();
        self.update_execution_trace(TraceRecord::UnsafeRandom { value });
        value
    }

    /// The period of the current execution slot.
    pub fn get_current_period(&mut self) -> (r: u64)
        ensures
            final(self).wf() == old(self).wf(),
            r == old(self)@.slot.period,
            final(self)@ == with_trace(old(self)@, TraceRecordV::GetCurrentPeriod { value: r }),
    {
        let value = self.execution_slot.period;
        self.update_execution_trace(TraceRecord::GetCurrentPeriod { value });
        value
    }

    /// The thread of the current execution slot.
    pub fn get_current_thread(&mut self) -> (r: u8)
        ensures
            final(self).wf() == old(self).wf(),
            r == old(self)@.slot.thread,
            final(self)@ == with_trace(old(self)@, TraceRecordV::GetCurrentThread { value: r }),
    {
        let value = self.execution_slot.thread;
        self.update_execution_trace(TraceRecord::GetCurrentThread { value });
        value
    }

    /// Enqueue an asynchronous message at `validity_start`, with the sender
    /// forced to the currently executing address so provenance cannot be
    /// spoofed; `EmptyStack` without a frame.
    pub fn send_message(
        &mut self,
        target_address: &str,
        target_handler: &str,
        validity_start: Slot,
        validity_end: Slot,
        max_gas: u64,
        gas_price: u64,
        coins: u64,
        data: &[u8],
    ) -> (r: Result<(), ExecError>)
        requires
            old(self).wf(),
        ensures
            final(self).wf(),
            match r {
                Ok(()) => {
                    &&& old(self)@.stack.len() > 0
                    &&& final(self)@ == with_trace(
                        StateV {
                            apool: pool_insert(old(self)@.apool, validity_start, AsyncMessageV {
                                sender_address: old(self)@.stack.last().address,
                                target_address: target_address@,
                                target_handler: target_handler@,
                                gas: max_gas,
                                coins,
                                data: data@,
                            }),
                            ..old(self)@
                        },
                        TraceRecordV::SendMessage {
                            target_address: target_address@,
                            target_handler: target_handler@,
                            validity_start,
                            validity_end,
                            max_gas,
                            gas_price,
                            coins,
                            data: data@,
                        },
                    )
                },
                Err(e) => e == ExecError::EmptyStack && old(self)@.stack.len() == 0 && final(
                    self)@ == old(self)@,
            },
    {
        let frame = self.call_stack_peek()?;
        let message = crate::msg::AsyncMessage {
            sender_address: frame.address,
            target_address: target_address.to_owned(),
            target_handler: target_handler.to_owned(),
            gas: max_gas,
            coins,
            data: slice_to_vec(data),
        };
        self.push_async_message(validity_start, message);
        self.update_execution_trace(TraceRecord::SendMessage {
            target_address: target_address.to_owned(),
            target_handler: target_handler.to_owned(),
            validity_start,
            validity_end,
            max_gas,
            gas_price,
            coins,
            data: slice_to_vec(data),
        });
        Ok(())
    }
}

/// What a datastore read returns: the stored value, or empty bytes for an
/// absent key.
pub open spec fn spec_data_lookup(e: EntryV, key: Seq<char>) -> Seq<u8> {
    if e.datastore.contains_key(key) {
        e.datastore[key]
    } else {
        Seq::empty()
    }
}

/// The big-endian bytes of `x`, most significant first.
pub fn u64_be_bytes(x: u64) -> (r: Vec<u8>)
    ensures
        r@ == spec_u64_be_bytes(x),
{
    let mut r: Vec<u8> = Vec::new();
    r.push((x >> 56) as u8);
    r.push((x >> 48) as u8);
    r.push((x >> 40) as u8);
    r.push((x >> 32) as u8);
    r.push((x >> 24) as u8);
    r.push((x >> 16) as u8);
    r.push((x >> 8) as u8);
    r.push(x as u8);
    proof {
        assert(r@ =~= spec_u64_be_bytes(x));
    }
    r
}

/// The model of `u64_be_bytes`.
pub open spec fn spec_u64_be_bytes(x: u64) -> Seq<u8> {
    seq![
        (x >> 56) as u8,
        (x >> 48) as u8,
        (x >> 40) as u8,
        (x >> 32) as u8,
        (x >> 24) as u8,
        (x >> 16) as u8,
        (x >> 8) as u8,
        x as u8,
    ]
}

/// A copy of `s` (a `String` clone with its contract visible here).
pub fn clone_str(s: &String) -> (r: String)
    ensures
        r == *s,
{
    crate::ledger::clone_string(s)
}

/// A byte-for-byte copy of the slice.
pub fn slice_to_vec(s: &[u8]) -> (r: Vec<u8>)
    ensures
        r@ == s@,
{
    let mut r: Vec<u8> = Vec::new();
    let n = s.len();
    let mut i: usize = 0;
    while i < n
        invariant
            n == s@.len(),
            0 <= i <= n,
            r@.len() == i,
            forall|j: int| 0 <= j < i ==> r@[j] == s@[j],
        decreases n - i,
    {
        r.push(s[i]);
        i = i + 1;
    }
    assert(r@ =~= s@);
    r
}

} // verus!

