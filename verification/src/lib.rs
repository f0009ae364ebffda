//! Execution host for a slot-scheduled smart-contract ledger.
//!
//! The crate maintains account state (balances, bytecode, key-value
//! datastores), enforces call-stack based access control, keeps a pool of
//! slot-keyed asynchronous messages and an event pool, and records a trace of
//! every host-interface call made by a running contract.  All state
//! transitions are specified by contracts and proved.

pub mod abi;
pub mod assoc;
pub mod codec;
pub mod context;
pub mod errors;
pub mod laws;
pub mod ledger;
pub mod msg;
pub mod pool;
pub mod trace;
pub mod slot;
pub mod step;
pub mod trusted;
