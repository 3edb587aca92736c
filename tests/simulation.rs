use revm_proxy::env::{build_intent, gas_limit_of, CallRequest, TxTarget, DEFAULT_GAS_LIMIT};
use revm_proxy::error::{HaltReason, SimError};
use revm_proxy::outcome::{call_result, estimate_result, ExecutionOutcome};
use revm_proxy::overlay::{AccountRecord, BlockRef, Overlay};
use revm_proxy::overrides::{apply_overrides, StateOverrideSet};
use revm_proxy::types::{Address, Word};

fn addr(n: u64) -> Address {
    Address { hi: 0, mid: 0, lo: n }
}

fn word(n: u64) -> Word {
    Word { l0: n, l1: 0, l2: 0, l3: 0 }
}

fn record(balance: u64, nonce: u64) -> AccountRecord {
    AccountRecord { balance: word(balance), nonce, code: vec![0x60, 0x00] }
}

fn empty_request() -> CallRequest {
    CallRequest {
        from: None,
        to: None,
        value: None,
        input: None,
        data: None,
        gas: None,
        gas_price: None,
        nonce: None,
    }
}

#[test]
fn cached_account_is_served_without_a_second_fetch() {
    let mut o = Overlay::new(BlockRef::Number(100));
    assert!(o.cached_account(addr(1)).is_none());
    let got = o.fill_account(addr(1), Ok(record(5, 2))).unwrap();
    assert_eq!(got.balance, word(5));
    assert_eq!(o.account_fetches(), 1);
    for _ in 0..3 {
        let r = o.cached_account(addr(1)).unwrap();
        assert_eq!(r.balance, word(5));
        assert_eq!(r.nonce, 2);
        assert_eq!(r.code, vec![0x60, 0x00]);
    }
    assert_eq!(o.account_fetches(), 1);
    assert_eq!(o.block(), BlockRef::Number(100));
}

#[test]
fn cached_slot_is_served_without_a_second_fetch() {
    let mut o = Overlay::new(BlockRef::Latest);
    assert!(o.cached_slot(addr(1), word(7)).is_none());
    assert_eq!(o.fill_slot(addr(1), word(7), Ok(word(42))).unwrap(), word(42));
    assert_eq!(o.cached_slot(addr(1), word(7)), Some(word(42)));
    assert_eq!(o.cached_slot(addr(1), word(7)), Some(word(42)));
    assert!(o.cached_slot(addr(1), word(8)).is_none());
    assert!(o.cached_slot(addr(2), word(7)).is_none());
    assert_eq!(o.slot_fetches(), 1);
}

#[test]
fn failed_fetch_is_a_setup_failure() {
    let mut o = Overlay::new(BlockRef::Latest);
    match o.fill_account(addr(3), Err("connection refused".to_string())) {
        Err(SimError::Setup(m)) => assert_eq!(m, "connection refused"),
        _ => panic!("expected a setup failure"),
    }
    assert!(!o.has_account(addr(3)));
    assert_eq!(o.account_fetches(), 0);
    match o.fill_slot(addr(3), word(1), Err("timeout".to_string())) {
        Err(SimError::Setup(m)) => assert_eq!(m, "timeout"),
        _ => panic!("expected a setup failure"),
    }
    assert_eq!(o.slot_fetches(), 0);
}

#[test]
fn storage_override_shadows_remote_value() {
    let mut o = Overlay::new(BlockRef::Latest);
    o.fill_slot(addr(1), word(1), Ok(word(10))).unwrap();
    let set = StateOverrideSet { balances: vec![], slots: vec![(addr(1), word(1), word(99))] };
    assert_eq!(apply_overrides(&mut o, &set), Ok(()));
    assert_eq!(o.cached_slot(addr(1), word(1)), Some(word(99)));
    // a fetch of another key at the same address leaves the override in place
    o.fill_slot(addr(1), word(2), Ok(word(20))).unwrap();
    assert_eq!(o.cached_slot(addr(1), word(1)), Some(word(99)));
    assert_eq!(o.cached_slot(addr(1), word(2)), Some(word(20)));
}

#[test]
fn storage_override_needs_no_fetch() {
    let mut o = Overlay::new(BlockRef::Latest);
    let set = StateOverrideSet { balances: vec![], slots: vec![(addr(4), word(0), word(1))] };
    assert_eq!(apply_overrides(&mut o, &set), Ok(()));
    assert_eq!(o.cached_slot(addr(4), word(0)), Some(word(1)));
    assert_eq!(o.slot_fetches(), 0);
}

#[test]
fn balance_override_asks_for_missing_account_then_keeps_nonce_and_code() {
    let mut o = Overlay::new(BlockRef::Latest);
    let set = StateOverrideSet { balances: vec![(addr(9), word(1000))], slots: vec![] };
    assert_eq!(apply_overrides(&mut o, &set), Err(addr(9)));
    assert!(!o.has_account(addr(9)));
    o.fill_account(addr(9), Ok(record(1, 6))).unwrap();
    assert_eq!(apply_overrides(&mut o, &set), Ok(()));
    let r = o.cached_account(addr(9)).unwrap();
    assert_eq!(r.balance, word(1000));
    assert_eq!(r.nonce, 6);
    assert_eq!(r.code, vec![0x60, 0x00]);
    assert_eq!(o.account_fetches(), 1);
}

#[test]
fn applying_overrides_twice_is_the_same_as_once() {
    let mut once = Overlay::new(BlockRef::Latest);
    let mut twice = Overlay::new(BlockRef::Latest);
    once.fill_account(addr(1), Ok(record(3, 1))).unwrap();
    twice.fill_account(addr(1), Ok(record(3, 1))).unwrap();
    let set = StateOverrideSet {
        balances: vec![(addr(1), word(50))],
        slots: vec![(addr(1), word(5), word(6)), (addr(2), word(5), word(7))],
    };
    apply_overrides(&mut once, &set).unwrap();
    apply_overrides(&mut twice, &set).unwrap();
    apply_overrides(&mut twice, &set).unwrap();
    for o in [&once, &twice] {
        assert_eq!(o.cached_account(addr(1)).unwrap().balance, word(50));
        assert_eq!(o.cached_slot(addr(1), word(5)), Some(word(6)));
        assert_eq!(o.cached_slot(addr(2), word(5)), Some(word(7)));
    }
    assert_eq!(once.account_fetches(), twice.account_fetches());
}

#[test]
fn later_override_entry_wins() {
    let mut o = Overlay::new(BlockRef::Latest);
    let set = StateOverrideSet {
        balances: vec![],
        slots: vec![(addr(1), word(1), word(2)), (addr(1), word(1), word(3))],
    };
    apply_overrides(&mut o, &set).unwrap();
    assert_eq!(o.cached_slot(addr(1), word(1)), Some(word(3)));
}

#[test]
fn gas_limit_above_engine_maximum_is_clamped() {
    assert_eq!(gas_limit_of(Some(u128::MAX)), u64::MAX);
    assert_eq!(gas_limit_of(Some(u64::MAX as u128 + 1)), u64::MAX);
    assert_eq!(gas_limit_of(Some(u64::MAX as u128)), u64::MAX);
    assert_eq!(gas_limit_of(Some(21000)), 21000);
    assert_eq!(gas_limit_of(None), DEFAULT_GAS_LIMIT);
    let mut req = empty_request();
    req.gas = Some(1u128 << 100);
    assert_eq!(build_intent(req).gas_limit, u64::MAX);
}

#[test]
fn empty_request_takes_the_defaults() {
    let intent = build_intent(empty_request());
    assert_eq!(intent.caller, Address { hi: 0, mid: 0, lo: 0 });
    assert_eq!(intent.target, TxTarget::Create);
    assert_eq!(intent.value, word(0));
    assert!(intent.data.is_empty());
    assert_eq!(intent.gas_limit, DEFAULT_GAS_LIMIT);
    assert_eq!(intent.gas_price, word(0));
    assert_eq!(intent.nonce, None);
}

#[test]
fn request_fields_are_carried_over() {
    let req = CallRequest {
        from: Some(addr(1)),
        to: Some(addr(2)),
        value: Some(word(3)),
        input: None,
        data: Some(vec![0xaa, 0xbb]),
        gas: Some(50_000),
        gas_price: Some((7u128 << 64) + 9),
        nonce: Some(4),
    };
    let intent = build_intent(req);
    assert_eq!(intent.caller, addr(1));
    assert_eq!(intent.target, TxTarget::Call(addr(2)));
    assert_eq!(intent.value, word(3));
    assert_eq!(intent.data, vec![0xaa, 0xbb]);
    assert_eq!(intent.gas_limit, 50_000);
    assert_eq!(intent.gas_price, Word { l0: 9, l1: 7, l2: 0, l3: 0 });
    assert_eq!(intent.nonce, Some(4));
}

#[test]
fn input_takes_precedence_over_data() {
    let mut req = empty_request();
    req.input = Some(vec![1]);
    req.data = Some(vec![2]);
    assert_eq!(build_intent(req).data, vec![1]);
}

#[test]
fn estimate_returns_gas_of_a_plain_transfer() {
    let r = estimate_result(ExecutionOutcome::Success { gas_used: 21000, output: vec![] });
    assert_eq!(r.unwrap(), 21000);
}

#[test]
fn estimate_against_reverting_contract_is_execution_reverted() {
    let r = estimate_result(ExecutionOutcome::Revert { gas_used: 23000, output: vec![0x08, 0xc3] });
    match r {
        Err(SimError::ExecutionReverted { halt, data }) => {
            assert_eq!(halt, None);
            assert_eq!(data, vec![0x08, 0xc3]);
        }
        _ => panic!("expected Execution Reverted"),
    }
}

#[test]
fn call_returns_output_bytes() {
    let r = call_result(ExecutionOutcome::Success { gas_used: 30000, output: vec![0, 0, 1] });
    assert_eq!(r.unwrap(), vec![0, 0, 1]);
}

#[test]
fn call_halt_is_execution_reverted_with_reason() {
    let r = call_result(ExecutionOutcome::Halt { gas_used: 100, reason: HaltReason::OutOfFunds });
    match r {
        Err(SimError::ExecutionReverted { halt, data }) => {
            assert_eq!(halt, Some(HaltReason::OutOfFunds));
            assert!(data.is_empty());
        }
        _ => panic!("expected Execution Reverted"),
    }
}

#[test]
fn word_from_u128_splits_limbs() {
    assert_eq!(Word::from_u128(u128::MAX), Word { l0: u64::MAX, l1: u64::MAX, l2: 0, l3: 0 });
    assert_eq!(Word::from_u128(5), word(5));
    assert_eq!(Address::zero(), addr(0));
}
