//! Call-stack frames, asynchronous messages and events.

use vstd::prelude::*;

use crate::ledger::clone_bytes;
use crate::pool::PoolItem;

verus! {

/// The model of one call frame.
#[verifier::ext_equal]
pub ghost struct CallItemV {
    pub address: Seq<char>,
    pub coins: u64,
}

/// One call-stack frame: the address being executed and the coins forwarded
/// into the call.
#[derive(Debug)]
pub struct CallItem {
    pub address: String,
    pub coins: u64,
}

impl View for CallItem {
    type V = CallItemV;

    open spec fn view(&self) -> CallItemV {
        CallItemV { address: self.address@, coins: self.coins }
    }
}

impl CallItem {
    /// A frame for `address` that forwards no coins.
    pub fn address(address: &str) -> (r: Self)
        ensures
            r@ == (CallItemV { address: address@, coins: 0 }),
    {
        CallItem { address: address.to_owned(), coins: 0 }
    }

    /// A copy of the frame.
    pub fn dup(&self) -> (r: Self)
        ensures
            r@ == self@,
    {
        CallItem { address: self.address.clone(), coins: self.coins }
    }
}

/// The model of one asynchronous message.
#[verifier::ext_equal]
pub ghost struct AsyncMessageV {
    pub sender_address: Seq<char>,
    pub target_address: Seq<char>,
    pub target_handler: Seq<char>,
    pub gas: u64,
    pub coins: u64,
    pub data: Seq<u8>,
}

/// A cross-contract message scheduled for delivery at or after a target slot.
#[derive(Debug)]
pub struct AsyncMessage {
    pub sender_address: String,
    pub target_address: String,
    pub target_handler: String,
    pub gas: u64,
    pub coins: u64,
    pub data: Vec<u8>,
}

impl View for AsyncMessage {
    type V = AsyncMessageV;

    open spec fn view(&self) -> AsyncMessageV {
        AsyncMessageV {
            sender_address: self.sender_address@,
            target_address: self.target_address@,
            target_handler: self.target_handler@,
            gas: self.gas,
            coins: self.coins,
            data: self.data@,
        }
    }
}

impl PoolItem for AsyncMessage {
    fn dup(&self) -> (r: Self)
        ensures
            r@ == self@,
    {
        AsyncMessage {
            sender_address: self.sender_address.clone(),
            target_address: self.target_address.clone(),
            target_handler: self.target_handler.clone(),
            gas: self.gas,
            coins: self.coins,
            data: clone_bytes(&self.data),
        }
    }
}

/// The model of one event.
#[verifier::ext_equal]
pub ghost struct EventV {
    pub sender_address: Seq<char>,
    pub data: Seq<char>,
}

/// An append-only record emitted for off-chain observers.
#[derive(Debug)]
pub struct Event {
    pub sender_address: String,
    pub data: String,
}

impl View for Event {
    type V = EventV;

    open spec fn view(&self) -> EventV {
        EventV { sender_address: self.sender_address@, data: self.data@ }
    }
}

impl PoolItem for Event {
    fn dup(&self) -> (r: Self)
        ensures
            r@ == self@,
    {
        Event { sender_address: self.sender_address.clone(), data: self.data.clone() }
    }
}

} // verus!
