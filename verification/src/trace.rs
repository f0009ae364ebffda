//! The execution trace: one record per host-interface call.
//!
//! A virtual-machine invocation accumulates records in call order; the
//! scheduler drains them once the invocation returns, so each invocation gets
//! an isolated trace.

use vstd::prelude::*;

use crate::slot::Slot;

verus! {

/// The model of one trace record.
#[verifier::ext_equal]
pub ghost enum TraceRecordV {
    Print { message: Seq<char> },
    InitCall { address: Seq<char>, coins: u64 },
    FinishCall,
    GetBalance { value: u64 },
    GetBalanceFor { address: Seq<char>, value: u64 },
    CreateModule { module: Seq<u8>, address: Seq<char> },
    RawGetData { key: Seq<char>, value: Seq<u8> },
    RawGetDataFor { address: Seq<char>, key: Seq<char>, value: Seq<u8> },
    RawSetData { key: Seq<char>, value: Seq<u8> },
    RawSetDataFor { address: Seq<char>, key: Seq<char>, value: Seq<u8> },
    TransferCoins { to_address: Seq<char>, amount: u64 },
    TransferCoinsFor { from_address: Seq<char>, to_address: Seq<char>, amount: u64 },
    GetOwnedAddresses { addresses: Seq<Seq<char>> },
    GetCallStack { addresses: Seq<Seq<char>> },
    GenerateEvent { data: Seq<char> },
    GetCallCoins { value: u64 },
    HasData { key: Seq<char>, value: bool },
    HashBytes { key: Seq<u8>, value: Seq<char> },
    RawSetBytecode { bytecode: Seq<u8> },
    RawSetBytecodeFor { address: Seq<char>, bytecode: Seq<u8> },
    UnsafeRandom { value: i64 },
    GetCurrentPeriod { value: u64 },
    GetCurrentThread { value: u8 },
    SendMessage {
        target_address: Seq<char>,
        target_handler: Seq<char>,
        validity_start: Slot,
        validity_end: Slot,
        max_gas: u64,
        gas_price: u64,
        coins: u64,
        data: Seq<u8>,
    },
}

/// One host-interface call: its request parameters and, where one exists, its
/// return value.
pub enum TraceRecord {
    Print { message: String },
    InitCall { address: String, coins: u64 },
    FinishCall,
    GetBalance { value: u64 },
    GetBalanceFor { address: String, value: u64 },
    CreateModule { module: Vec<u8>, address: String },
    RawGetData { key: String, value: Vec<u8> },
    RawGetDataFor { address: String, key: String, value: Vec<u8> },
    RawSetData { key: String, value: Vec<u8> },
    RawSetDataFor { address: String, key: String, value: Vec<u8> },
    TransferCoins { to_address: String, amount: u64 },
    TransferCoinsFor { from_address: String, to_address: String, amount: u64 },
    GetOwnedAddresses { addresses: Vec<String> },
    GetCallStack { addresses: Vec<String> },
    GenerateEvent { data: String },
    GetCallCoins { value: u64 },
    HasData { key: String, value: bool },
    HashBytes { key: Vec<u8>, value: String },
    RawSetBytecode { bytecode: Vec<u8> },
    RawSetBytecodeFor { address: String, bytecode: Vec<u8> },
    UnsafeRandom { value: i64 },
    GetCurrentPeriod { value: u64 },
    GetCurrentThread { value: u8 },
    SendMessage {
        target_address: String,
        target_handler: String,
        validity_start: Slot,
        validity_end: Slot,
        max_gas: u64,
        gas_price: u64,
        coins: u64,
        data: Vec<u8>,
    },
}

/// The models of a sequence of address strings.
pub open spec fn strings_view(s: Seq<String>) -> Seq<Seq<char>> {
    s.map_values(|x: String| x@)
}

impl View for TraceRecord {
    type V = TraceRecordV;

    open spec fn view(&self) -> TraceRecordV {
        match self {
            TraceRecord::Print { message } => TraceRecordV::Print { message: message@ },
            TraceRecord::InitCall { address, coins } => TraceRecordV::InitCall {
                address: address@,
                coins: *coins,
            },
            TraceRecord::FinishCall => TraceRecordV::FinishCall,
            TraceRecord::GetBalance { value } => TraceRecordV::GetBalance { value: *value },
            TraceRecord::GetBalanceFor { address, value } => TraceRecordV::GetBalanceFor {
                address: address@,
                value: *value,
            },
            TraceRecord::CreateModule { module, address } => TraceRecordV::CreateModule {
                module: module@,
                address: address@,
            },
            TraceRecord::RawGetData { key, value } => TraceRecordV::RawGetData {
                key: key@,
                value: value@,
            },
            TraceRecord::RawGetDataFor { address, key, value } => TraceRecordV::RawGetDataFor {
                address: address@,
                key: key@,
                value: value@,
            },
            TraceRecord::RawSetData { key, value } => TraceRecordV::RawSetData {
                key: key@,
                value: value@,
            },
            TraceRecord::RawSetDataFor { address, key, value } => TraceRecordV::RawSetDataFor {
                address: address@,
                key: key@,
                value: value@,
            },
            TraceRecord::TransferCoins { to_address, amount } => TraceRecordV::TransferCoins {
                to_address: to_address@,
                amount: *amount,
            },
            TraceRecord::TransferCoinsFor { from_address, to_address, amount } =>
                TraceRecordV::TransferCoinsFor {
                from_address: from_address@,
                to_address: to_address@,
                amount: *amount,
            },
            TraceRecord::GetOwnedAddresses { addresses } => TraceRecordV::GetOwnedAddresses {
                addresses: strings_view(addresses@),
            },
            TraceRecord::GetCallStack { addresses } => TraceRecordV::GetCallStack {
                addresses: strings_view(addresses@),
            },
            TraceRecord::GenerateEvent { data } => TraceRecordV::GenerateEvent { data: data@ },
            TraceRecord::GetCallCoins { value } => TraceRecordV::GetCallCoins { value: *value },
            TraceRecord::HasData { key, value } => TraceRecordV::HasData {
                key: key@,
                value: *value,
            },
            TraceRecord::HashBytes { key, value } => TraceRecordV::HashBytes {
                key: key@,
                value: value@,
            },
            TraceRecord::RawSetBytecode { bytecode } => TraceRecordV::RawSetBytecode {
                bytecode: bytecode@,
            },
            TraceRecord::RawSetBytecodeFor { address, bytecode } =>
                TraceRecordV::RawSetBytecodeFor {
                address: address@,
                bytecode: bytecode@,
            },
            TraceRecord::UnsafeRandom { value } => TraceRecordV::UnsafeRandom { value: *value },
            TraceRecord::GetCurrentPeriod { value } => TraceRecordV::GetCurrentPeriod {
                value: *value,
            },
            TraceRecord::GetCurrentThread { value } => TraceRecordV::GetCurrentThread {
                value: *value,
            },
            TraceRecord::SendMessage {
                target_address,
                target_handler,
                validity_start,
                validity_end,
                max_gas,
                gas_price,
                coins,
                data,
            } => TraceRecordV::SendMessage {
                target_address: target_address@,
                target_handler: target_handler@,
                validity_start: *validity_start,
                validity_end: *validity_end,
                max_gas: *max_gas,
                gas_price: *gas_price,
                coins: *coins,
                data: data@,
            },
        }
    }
}

/// The model of a whole trace.
pub open spec fn trace_view(t: Seq<TraceRecord>) -> Seq<TraceRecordV> {
    t.map_values(|r: TraceRecord| r@)
}

} // verus!
