//! End-to-end tests of the ledger host: ledger arithmetic, transfers,
//! access control, async delivery, range queries and the snapshot codec.

use ledger_host::context::InterfaceImpl;
use ledger_host::errors::ExecError;
use ledger_host::codec::{decode_snapshot, encode_snapshot};
use ledger_host::ledger::{Entry, Ledger};
use ledger_host::msg::{AsyncMessage, CallItem};
use ledger_host::slot::Slot;
use ledger_host::step::{StepConfig, StepOutcome};
use ledger_host::trace::TraceRecord;

use base64::Engine;
use std::hash::Hasher;

fn wallet(balance: u64) -> Entry {
    let mut e = Entry::new_default();
    e.balance = balance;
    e
}

fn ctx_with(accounts: &[(&str, u64)]) -> InterfaceImpl {
    let mut ledger = Ledger::new();
    for (addr, bal) in accounts {
        ledger.set_entry(addr.to_string(), wallet(*bal));
    }
    InterfaceImpl::with_ledger(ledger)
}

fn message_to(target: &str, handler: &str) -> AsyncMessage {
    AsyncMessage {
        sender_address: "sender".to_string(),
        target_address: target.to_string(),
        target_handler: handler.to_string(),
        gas: 1_000,
        coins: 0,
        data: vec![1, 2, 3],
    }
}

#[test]
fn fresh_transfer_splits_balances() {
    // Fresh ledger; A starts at 100, B at 0; moving 30 leaves 70/30.
    let mut ctx = ctx_with(&[("A", 100), ("B", 0)]);
    ctx.transfer_coins_for("A", "B", 30).unwrap();
    assert_eq!(ctx.get_entry(&"A".to_string()).unwrap().balance, 70);
    assert_eq!(ctx.get_entry(&"B".to_string()).unwrap().balance, 30);
}

#[test]
fn overdraft_fails_and_changes_nothing() {
    let mut ctx = ctx_with(&[("A", 100), ("B", 0)]);
    ctx.transfer_coins_for("A", "B", 30).unwrap();
    let err = ctx.transfer_coins_for("A", "C", 1000).unwrap_err();
    assert_eq!(err, ExecError::InsufficientBalance);
    assert_eq!(ctx.get_entry(&"A".to_string()).unwrap().balance, 70);
}

#[test]
fn transfer_to_missing_account_restores_debit() {
    let mut ctx = ctx_with(&[("A", 50)]);
    let err = ctx.transfer_coins_for("A", "nowhere", 10).unwrap_err();
    assert_eq!(err, ExecError::NotFound);
    assert_eq!(ctx.get_entry(&"A".to_string()).unwrap().balance, 50);
}

#[test]
fn credit_overflow_leaves_sender_untouched() {
    // Crediting B would overflow its 64-bit balance: A must be refunded.
    let mut ctx = ctx_with(&[("A", 100), ("B", u64::MAX - 5)]);
    let err = ctx.transfer_coins_for("A", "B", 10).unwrap_err();
    assert_eq!(err, ExecError::BalanceOverflow);
    assert_eq!(ctx.get_entry(&"A".to_string()).unwrap().balance, 100);
    assert_eq!(ctx.get_entry(&"B".to_string()).unwrap().balance, u64::MAX - 5);
}

#[test]
fn balances_are_conserved_over_many_transfers() {
    let mut ctx = ctx_with(&[("A", 60), ("B", 25), ("C", 15)]);
    let total = |c: &InterfaceImpl| {
        ["A", "B", "C"]
            .iter()
            .map(|a| c.get_entry(&a.to_string()).unwrap().balance)
            .sum::<u64>()
    };
    assert_eq!(total(&ctx), 100);
    ctx.transfer_coins_for("A", "B", 13).unwrap();
    ctx.transfer_coins_for("B", "C", 38).unwrap();
    ctx.transfer_coins_for("C", "A", 1).unwrap();
    assert!(ctx.transfer_coins_for("C", "A", 10_000).is_err());
    assert_eq!(total(&ctx), 100);
}

#[test]
fn sub_never_goes_negative_randomized() {
    // Randomized check of the debit against u64::checked_sub: the balance
    // never wraps below zero, and a refused debit changes nothing.
    for _ in 0..500 {
        let balance: u64 = rand::random();
        let amount: u64 = if rand::random::<bool>() {
            rand::random()
        } else {
            // Cluster near the balance so both outcomes are exercised often.
            balance.wrapping_add(rand::random::<u8>() as u64).wrapping_sub(128)
        };
        let mut ledger = Ledger::new();
        ledger.set_entry("A".to_string(), wallet(balance));
        let r = ledger.sub(&"A".to_string(), amount);
        match balance.checked_sub(amount) {
            Some(left) => {
                assert!(r.is_ok());
                assert_eq!(ledger.get(&"A".to_string()).unwrap().balance, left);
            }
            None => {
                assert_eq!(r.unwrap_err(), ExecError::InsufficientBalance);
                assert_eq!(ledger.get(&"A".to_string()).unwrap().balance, balance);
            }
        }
    }
}

#[test]
fn sub_matches_checked_sub() {
    for (balance, amount) in [(0u64, 0u64), (0, 1), (7, 7), (7, 8), (u64::MAX, 1), (5, u64::MAX)] {
        let mut ledger = Ledger::new();
        ledger.set_entry("A".to_string(), wallet(balance));
        let r = ledger.sub(&"A".to_string(), amount);
        match balance.checked_sub(amount) {
            Some(left) => {
                r.unwrap();
                assert_eq!(ledger.get(&"A".to_string()).unwrap().balance, left);
            }
            None => {
                assert_eq!(r.unwrap_err(), ExecError::InsufficientBalance);
                assert_eq!(ledger.get(&"A".to_string()).unwrap().balance, balance);
            }
        }
    }
}

#[test]
fn add_matches_checked_add() {
    for (balance, amount) in [(0u64, 0u64), (1, u64::MAX), (u64::MAX, 0), (u64::MAX - 1, 2)] {
        let mut ledger = Ledger::new();
        ledger.set_entry("A".to_string(), wallet(balance));
        let r = ledger.add(&"A".to_string(), amount);
        match balance.checked_add(amount) {
            Some(now) => {
                r.unwrap();
                assert_eq!(ledger.get(&"A".to_string()).unwrap().balance, now);
            }
            None => {
                assert_eq!(r.unwrap_err(), ExecError::BalanceOverflow);
                assert_eq!(ledger.get(&"A".to_string()).unwrap().balance, balance);
            }
        }
    }
}

#[test]
fn missing_account_reports_not_found() {
    let mut ledger = Ledger::new();
    assert_eq!(ledger.get(&"ghost".to_string()).unwrap_err(), ExecError::NotFound);
    assert_eq!(ledger.sub(&"ghost".to_string(), 1).unwrap_err(), ExecError::NotFound);
    assert_eq!(ledger.add(&"ghost".to_string(), 1).unwrap_err(), ExecError::NotFound);
}

#[test]
fn owned_address_may_be_written_others_not() {
    // Frame A deploys K and may write K's datastore; frame B may not.
    let mut ctx = ctx_with(&[("A", 0), ("B", 0)]);
    ctx.call_stack_push(CallItem::address("A"));
    let k = ctx.create_module(&vec![0x00, 0x61, 0x73, 0x6d]);
    ctx.raw_set_data_for(&k, "k", &b"v".to_vec()).unwrap();
    assert_eq!(ctx.get_entry(&k).unwrap().get_data(&"k".to_string()), b"v".to_vec());

    ctx.reset_addresses();
    ctx.call_stack_push(CallItem::address("B"));
    let err = ctx.raw_set_data_for(&k, "k", &b"w".to_vec()).unwrap_err();
    assert_eq!(err, ExecError::AccessDenied);
    assert_eq!(ctx.get_entry(&k).unwrap().get_data(&"k".to_string()), b"v".to_vec());
}

#[test]
fn frame_always_writes_itself() {
    let mut ctx = ctx_with(&[("A", 0)]);
    ctx.call_stack_push(CallItem::address("A"));
    ctx.raw_set_data_for("A", "slot0", &vec![9]).unwrap();
    assert_eq!(ctx.get_entry(&"A".to_string()).unwrap().get_data(&"slot0".to_string()), vec![9]);
}

#[test]
fn generated_address_is_base64_of_eight_bytes() {
    // The address is the base64 text of an 8-byte digest: always 12
    // characters, never the module bytes themselves.
    let mut ctx = ctx_with(&[]);
    ctx.call_stack_push(CallItem::address("A"));
    let module = vec![1, 2, 3, 4, 5];
    let addr = ctx.create_module(&module);
    assert_eq!(addr.len(), 12);
    assert_eq!(ctx.get_entry(&addr).unwrap().get_bytecode(), module);
    assert_eq!(ctx.get_owned_addresses(), vec![addr]);
}

#[test]
fn message_waits_for_its_slot() {
    // A message for Slot(10,2) is not due at (10,1); it is delivered exactly
    // once at (10,2) and never again.
    let mut ctx = ctx_with(&[]);
    ctx.set_execution_slot(Slot::new(10, 1));
    ctx.push_async_message(Slot::new(10, 2), message_to("T", "h"));
    assert!(ctx.get_async_messages_to_execute().is_empty());

    ctx.set_execution_slot(Slot::new(10, 2));
    let due = ctx.get_async_messages_to_execute();
    assert_eq!(due.len(), 1);
    assert_eq!(due[0].target_address, "T");
    assert!(ctx.get_async_messages_to_execute().is_empty());
}

#[test]
fn drain_flattens_in_slot_then_insertion_order() {
    let mut ctx = ctx_with(&[]);
    ctx.push_async_message(Slot::new(2, 0), message_to("late", "h"));
    ctx.push_async_message(Slot::new(1, 0), message_to("early-a", "h"));
    ctx.push_async_message(Slot::new(1, 0), message_to("early-b", "h"));
    ctx.push_async_message(Slot::new(3, 5), message_to("future", "h"));
    ctx.set_execution_slot(Slot::new(2, 9));
    let due = ctx.get_async_messages_to_execute();
    let order: Vec<&str> = due.iter().map(|m| m.target_address.as_str()).collect();
    assert_eq!(order, vec!["early-a", "early-b", "late"]);
    ctx.set_execution_slot(Slot::new(3, 5));
    let rest = ctx.get_async_messages_to_execute();
    assert_eq!(rest.len(), 1);
    assert_eq!(rest[0].target_address, "future");
}

#[test]
fn range_query_is_half_open_and_ordered() {
    // Pool at slots (4,0), (5,0), (9,3), (10,0); window [(5,0), (10,0))
    // returns the (5,0) and (9,3) messages, in that order.
    let mut ctx = ctx_with(&[]);
    ctx.push_async_message(Slot::new(4, 0), message_to("m4", "h"));
    ctx.push_async_message(Slot::new(5, 0), message_to("m5", "h"));
    ctx.push_async_message(Slot::new(9, 3), message_to("m9", "h"));
    ctx.push_async_message(Slot::new(10, 0), message_to("m10", "h"));
    let hits = ctx.get_async_messages_in(Some(Slot::new(5, 0)), Some(Slot::new(10, 0)));
    let order: Vec<&str> = hits.iter().map(|m| m.target_address.as_str()).collect();
    assert_eq!(order, vec!["m5", "m9"]);
    // The query does not consume: everything is still pooled.
    let all = ctx.get_async_messages_in(None, None);
    assert_eq!(all.len(), 4);
}

#[test]
fn snapshot_round_trips_exactly() {
    let mut ledger = Ledger::new();
    let mut contract = wallet(41);
    contract.bytecode = vec![0, 159, 146, 150];
    contract.insert_data("greeting".to_string(), b"hello".to_vec());
    contract.insert_data("empty".to_string(), Vec::new());
    ledger.set_entry("wallet".to_string(), wallet(7));
    ledger.set_entry("contract".to_string(), contract);

    let bytes = encode_snapshot(&ledger);
    let back = decode_snapshot(&bytes).expect("snapshot must parse");
    for addr in ["wallet", "contract"] {
        let a = ledger.get(&addr.to_string()).unwrap();
        let b = back.get(&addr.to_string()).unwrap();
        assert_eq!(a.balance, b.balance);
        assert_eq!(a.get_bytecode(), b.get_bytecode());
        assert_eq!(a.get_data(&"greeting".to_string()), b.get_data(&"greeting".to_string()));
        assert_eq!(a.has_data(&"empty".to_string()), b.has_data(&"empty".to_string()));
    }
    assert_eq!(back.get(&"ghost".to_string()).unwrap_err(), ExecError::NotFound);
}

#[test]
fn context_save_round_trips_through_decode() {
    let mut ctx = ctx_with(&[("A", 100), ("B", 30)]);
    ctx.transfer_coins_for("A", "B", 60).unwrap();
    let back = decode_snapshot(&ctx.save()).expect("saved snapshot must parse");
    assert_eq!(back.get(&"A".to_string()).unwrap().balance, 40);
    assert_eq!(back.get(&"B".to_string()).unwrap().balance, 90);
}

#[test]
fn empty_snapshot_round_trips() {
    let ledger = Ledger::new();
    let bytes = encode_snapshot(&ledger);
    let back = decode_snapshot(&bytes).expect("empty snapshot must parse");
    assert!(!back.contains(&"anyone".to_string()));
}

#[test]
fn truncated_snapshot_is_rejected() {
    let mut ledger = Ledger::new();
    ledger.set_entry("A".to_string(), wallet(1));
    let bytes = encode_snapshot(&ledger);
    assert!(decode_snapshot(&bytes[..bytes.len() - 1]).is_none());
    assert!(decode_snapshot(&[]).is_none());
}

#[test]
fn datastore_key_keeps_last_value() {
    let mut e = Entry::new_default();
    e.insert_data("k".to_string(), vec![1]);
    e.insert_data("k".to_string(), vec![2]);
    assert_eq!(e.get_data(&"k".to_string()), vec![2]);
    assert!(e.has_data(&"k".to_string()));
    assert!(!e.has_data(&"other".to_string()));
    assert_eq!(e.get_data(&"missing".to_string()), Vec::<u8>::new());
}

#[test]
fn empty_stack_operations_fail() {
    let mut ctx = ctx_with(&[("A", 5)]);
    assert_eq!(ctx.call_stack_pop().unwrap_err(), ExecError::EmptyStack);
    assert_eq!(ctx.call_stack_peek().unwrap_err(), ExecError::EmptyStack);
    assert_eq!(ctx.get_call_coins().unwrap_err(), ExecError::EmptyStack);
    assert_eq!(ctx.transfer_coins("A", 1).unwrap_err(), ExecError::EmptyStack);
    assert_eq!(ctx.send_message("T", "h", Slot::new(0, 0), Slot::new(0, 0), 0, 0, 0, b"")
        .unwrap_err(), ExecError::EmptyStack);
}

#[test]
fn hash_is_the_canonical_seeded_digest() {
    // The digest must match the ledger's canonical pipeline exactly: the
    // wyhash of the bytes under the published seed, as base64 text.
    let expected = |data: &[u8]| {
        let mut h = wyhash::WyHash::with_seed(ledger_host::abi::HOST_HASH_SEED);
        h.write(data);
        base64::engine::general_purpose::STANDARD.encode(h.finish().to_be_bytes())
    };
    let mut ctx = ctx_with(&[]);
    assert_eq!(ctx.hash(b"abc"), expected(b"abc"));
    assert_eq!(ctx.hash(&[0xff, 0xfe]), expected(&[0xff, 0xfe]));
    assert_eq!(ctx.hash(b""), expected(b""));
    // Deterministic across calls, 12 base64 characters of an 8-byte digest,
    // and input-sensitive.
    let d = ctx.hash(b"abc");
    assert_eq!(d, ctx.hash(b"abc"));
    assert_eq!(d.len(), 12);
    assert_ne!(d, ctx.hash(b"abd"));
}

#[test]
fn init_call_transfers_and_pushes_frame() {
    let mut ctx = ctx_with(&[("caller", 100), ("callee", 0)]);
    let mut callee = wallet(0);
    callee.bytecode = vec![42];
    ctx.create_new_entry("callee".to_string(), callee);
    ctx.call_stack_push(CallItem::address("caller"));
    let bytecode = ctx.init_call("callee", 25).unwrap();
    assert_eq!(bytecode, vec![42]);
    assert_eq!(ctx.get_entry(&"caller".to_string()).unwrap().balance, 75);
    assert_eq!(ctx.get_entry(&"callee".to_string()).unwrap().balance, 25);
    assert_eq!(ctx.get_call_stack(), vec!["caller", "callee"]);
    assert_eq!(ctx.get_call_coins().unwrap(), 25);
    ctx.finish_call().unwrap();
    assert_eq!(ctx.get_call_stack(), vec!["caller"]);
}

#[test]
fn send_message_forces_sender_to_current_frame() {
    let mut ctx = ctx_with(&[]);
    ctx.call_stack_push(CallItem::address("me"));
    ctx.send_message("you", "handle", Slot::new(3, 0), Slot::new(4, 0), 77, 1, 5, b"hi")
        .unwrap();
    let pooled = ctx.get_async_messages_in(None, None);
    assert_eq!(pooled.len(), 1);
    assert_eq!(pooled[0].sender_address, "me");
    assert_eq!(pooled[0].target_address, "you");
    assert_eq!(pooled[0].gas, 77);
    assert_eq!(pooled[0].data, b"hi".to_vec());
}

#[test]
fn write_and_read_steps_drive_the_ledger() {
    let mut ctx = ctx_with(&[]);
    let outcome = ctx
        .execute_step(Slot::new(1, 0), StepConfig::WriteLedgerEntry {
            address: "seeded".to_string(),
            balance: Some(9),
            bytecode: None,
            datastore: None,
        })
        .unwrap();
    assert!(matches!(outcome, StepOutcome::Written));
    match ctx
        .execute_step(Slot::new(1, 1), StepConfig::ReadLedgerEntry {
            address: "seeded".to_string(),
        })
        .unwrap()
    {
        StepOutcome::LedgerEntry { entry } => assert_eq!(entry.balance, 9),
        _ => panic!("expected a ledger entry"),
    }
    let err = ctx
        .execute_step(Slot::new(1, 2), StepConfig::ReadLedgerEntry {
            address: "missing".to_string(),
        })
        .unwrap_err();
    assert_eq!(err, ExecError::NotFound);
}

#[test]
fn write_async_message_step_enqueues_verbatim() {
    // A direct enqueue step keeps the configured sender (it bypasses the
    // call stack) and stores the data string's bytes.
    let mut ctx = ctx_with(&[]);
    let outcome = ctx
        .execute_step(Slot::new(0, 0), StepConfig::WriteAsyncMessage {
            sender_address: "alice".to_string(),
            target_address: "bob".to_string(),
            target_handler: "on_ping".to_string(),
            execution_slot: Slot::new(8, 0),
            gas: 99,
            coins: 1,
            data: "abc".to_string(),
        })
        .unwrap();
    assert!(matches!(outcome, StepOutcome::Written));
    match ctx
        .execute_step(Slot::new(0, 1), StepConfig::ReadAsyncMessages {
            start: Some(Slot::new(8, 0)),
            end: None,
        })
        .unwrap()
    {
        StepOutcome::Messages { messages } => {
            assert_eq!(messages.len(), 1);
            assert_eq!(messages[0].sender_address, "alice");
            assert_eq!(messages[0].target_handler, "on_ping");
            assert_eq!(messages[0].data, b"abc".to_vec());
        }
        _ => panic!("expected pooled messages"),
    }
}

#[test]
fn call_step_installs_frames_and_returns_bytecode() {
    let mut ctx = ctx_with(&[]);
    let mut contract = wallet(0);
    contract.bytecode = vec![7, 7, 7];
    ctx.create_new_entry("C".to_string(), contract);
    let outcome = ctx
        .execute_step(Slot::new(2, 0), StepConfig::CallSC {
            address: "C".to_string(),
            function: Some("go".to_string()),
            parameter: None,
            gas: 10,
            call_stack: vec![CallItem::address("user")],
        })
        .unwrap();
    match outcome {
        StepOutcome::VmBytecode { bytecode, function, gas, .. } => {
            assert_eq!(bytecode, vec![7, 7, 7]);
            assert_eq!(function.as_deref(), Some("go"));
            assert_eq!(gas, 10);
        }
        _ => panic!("expected bytecode to run"),
    }
    assert_eq!(ctx.get_call_stack(), vec!["user"]);
    assert!(ctx.get_owned_addresses().is_empty());
}

#[test]
fn message_replay_sets_sender_then_target_frame() {
    let mut ctx = ctx_with(&[]);
    let mut target = wallet(0);
    target.bytecode = vec![9];
    ctx.create_new_entry("T".to_string(), target);
    let m = AsyncMessage {
        sender_address: "S".to_string(),
        target_address: "T".to_string(),
        target_handler: "on_msg".to_string(),
        gas: 5,
        coins: 3,
        data: vec![],
    };
    let bytecode = ctx.prepare_message_replay(&m).unwrap();
    assert_eq!(bytecode, vec![9]);
    assert_eq!(ctx.get_call_stack(), vec!["S", "T"]);
    assert_eq!(ctx.get_call_coins().unwrap(), 3);

    let missing = message_to("absent", "h");
    assert_eq!(ctx.prepare_message_replay(&missing).unwrap_err(), ExecError::NotFound);
}

#[test]
fn trace_records_accumulate_and_drain_once() {
    let mut ctx = ctx_with(&[("A", 3)]);
    ctx.call_stack_push(CallItem::address("A"));
    ctx.print("hello");
    let _ = ctx.get_balance().unwrap();
    let trace = ctx.take_execution_trace();
    assert_eq!(trace.len(), 2);
    assert!(matches!(&trace[0], TraceRecord::Print { message } if message == "hello"));
    assert!(matches!(&trace[1], TraceRecord::GetBalance { value: 3 }));
    assert!(ctx.take_execution_trace().is_empty());
}

#[test]
fn events_are_pooled_by_slot() {
    let mut ctx = ctx_with(&[]);
    ctx.set_execution_slot(Slot::new(6, 0));
    ctx.call_stack_push(CallItem::address("emitter"));
    ctx.generate_event("boom".to_string()).unwrap();
    let events = ctx.get_events_in(Some(Slot::new(6, 0)), Some(Slot::new(7, 0)));
    assert_eq!(events.len(), 1);
    assert_eq!(events[0].sender_address, "emitter");
    assert_eq!(events[0].data, "boom");
    assert!(ctx.get_events_in(Some(Slot::new(7, 0)), None).is_empty());
}

#[test]
fn balance_queries_follow_the_frame() {
    let mut ctx = ctx_with(&[("A", 11), ("B", 22)]);
    ctx.call_stack_push(CallItem::address("A"));
    assert_eq!(ctx.get_balance().unwrap(), 11);
    assert_eq!(ctx.get_balance_for("B").unwrap(), 22);
    assert_eq!(ctx.get_balance_for("missing").unwrap_err(), ExecError::NotFound);
}

#[test]
fn bytecode_writes_follow_access_paths() {
    let mut ctx = ctx_with(&[("A", 0)]);
    ctx.call_stack_push(CallItem::address("A"));
    ctx.raw_set_bytecode(&vec![1]).unwrap();
    assert_eq!(ctx.get_entry(&"A".to_string()).unwrap().get_bytecode(), vec![1]);
    ctx.raw_set_bytecode_for("fresh", &vec![2]);
    assert_eq!(ctx.get_entry(&"fresh".to_string()).unwrap().get_bytecode(), vec![2]);
    assert_eq!(ctx.get_entry(&"fresh".to_string()).unwrap().balance, 0);
}

#[test]
fn has_data_and_raw_get_follow_the_frame() {
    let mut ctx = ctx_with(&[("A", 0)]);
    ctx.call_stack_push(CallItem::address("A"));
    ctx.raw_set_data("k", &vec![5]).unwrap();
    assert!(ctx.has_data("k").unwrap());
    assert!(!ctx.has_data("absent").unwrap());
    assert_eq!(ctx.raw_get_data("k").unwrap(), vec![5]);
    assert_eq!(ctx.raw_get_data("absent").unwrap(), Vec::<u8>::new());
    assert_eq!(ctx.raw_get_data_for("A", "k").unwrap(), vec![5]);
    assert_eq!(ctx.raw_get_data_for("missing", "k").unwrap_err(), ExecError::NotFound);
}

#[test]
fn current_slot_is_visible_to_contracts() {
    let mut ctx = ctx_with(&[]);
    ctx.set_execution_slot(Slot::new(123, 4));
    assert_eq!(ctx.get_current_period(), 123);
    assert_eq!(ctx.get_current_thread(), 4);
}
