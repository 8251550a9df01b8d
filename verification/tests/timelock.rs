use soroban_sdk::testutils::EnvTestConfig;
use soroban_sdk::xdr::{AccountId, ContractId, PublicKey, ScAddress, ToXdr, Uint256};
use soroban_sdk::{Bytes, Env, TryFromVal};
use stellar_router::timelock::{
    address_to_xdr, op_id, op_preimage_bytes, u64_be_bytes, Address, AddressKind, RouterTimelock,
    TimelockError, TimelockEvent,
};

fn test_env() -> Env {
    Env::new_with_config(EnvTestConfig { capture_snapshot_at_drop: false })
}

fn contract_address(n: u8) -> Address {
    Address { kind: AddressKind::Contract, key: [n; 32] }
}

fn account_address(n: u8) -> Address {
    Address { kind: AddressKind::Account, key: [n; 32] }
}

fn setup() -> (RouterTimelock, Address) {
    let mut timelock = RouterTimelock::new();
    let admin = contract_address(1);
    timelock.initialize(admin, 3600).unwrap();
    (timelock, admin)
}

fn desc() -> Vec<u8> {
    b"upgrade oracle".to_vec()
}

#[test]
fn test_queue_returns_op_id() {
    let (mut timelock, admin) = setup();
    let target = contract_address(2);
    let deps = Vec::new();
    let op_id = timelock.queue(&admin, desc(), target, 3600, &deps, 0).unwrap();
    assert!(!op_id.is_empty());
    assert_eq!(op_id.len(), 32);
}

#[test]
fn test_queue_emits_op_queued_event() {
    let (mut timelock, admin) = setup();
    let target = contract_address(2);
    let deps = Vec::new();

    let op_id = timelock.queue(&admin, desc(), target, 3600, &deps, 0).unwrap();

    let last = timelock.events().last().unwrap();
    assert_eq!(last.topic(), "op_queued");
    match last {
        TimelockEvent::OpQueued { op_id: emitted_id, target: emitted_target, eta } => {
            assert_eq!(*emitted_id, op_id);
            assert_eq!(*emitted_target, target);
            assert!(*eta > 0);
        }
        _ => panic!("expected op_queued"),
    }
}

#[test]
fn test_queue_stores_op() {
    let (mut timelock, admin) = setup();
    let target = contract_address(2);
    let deps = Vec::new();

    let op_id = timelock.queue(&admin, desc(), target, 3600, &deps, 0).unwrap();
    let op = timelock.get_op(&op_id).unwrap();

    assert_eq!(op.target, target);
    assert!(!op.executed);
    assert!(!op.cancelled);
}

#[test]
fn test_execute_before_eta_fails() {
    let (mut timelock, admin) = setup();
    let target = contract_address(2);
    let deps = Vec::new();

    let op_id = timelock.queue(&admin, desc(), target, 3600, &deps, 0).unwrap();
    let result = timelock.execute(&admin, &op_id, 0);
    assert_eq!(result, Err(TimelockError::NotReady));
}

#[test]
fn test_execute_after_eta_succeeds() {
    let (mut timelock, admin) = setup();
    let target = contract_address(2);
    let deps = Vec::new();

    let op_id = timelock.queue(&admin, desc(), target, 3600, &deps, 0).unwrap();
    timelock.execute(&admin, &op_id, 3601).unwrap();

    let op = timelock.get_op(&op_id).unwrap();
    assert!(op.executed);
}

#[test]
fn test_cancel_op() {
    let (mut timelock, admin) = setup();
    let target = contract_address(2);
    let deps = Vec::new();

    let op_id = timelock.queue(&admin, desc(), target, 3600, &deps, 0).unwrap();
    timelock.cancel(&admin, &op_id).unwrap();

    let op = timelock.get_op(&op_id).unwrap();
    assert!(op.cancelled);
}

#[test]
fn test_execute_cancelled_op_fails() {
    let (mut timelock, admin) = setup();
    let target = contract_address(2);
    let deps = Vec::new();

    let op_id = timelock.queue(&admin, desc(), target, 3600, &deps, 0).unwrap();
    timelock.cancel(&admin, &op_id).unwrap();
    let result = timelock.execute(&admin, &op_id, 3601);
    assert_eq!(result, Err(TimelockError::Cancelled));
}

#[test]
fn test_execute_twice_fails() {
    let (mut timelock, admin) = setup();
    let target = contract_address(2);
    let deps = Vec::new();

    let op_id = timelock.queue(&admin, desc(), target, 3600, &deps, 0).unwrap();
    timelock.execute(&admin, &op_id, 3601).unwrap();
    let result = timelock.execute(&admin, &op_id, 3601);
    assert_eq!(result, Err(TimelockError::AlreadyExecuted));
}

#[test]
fn test_delay_too_short_fails() {
    let (mut timelock, admin) = setup();
    let target = contract_address(2);
    let deps = Vec::new();
    // min_delay is 3600, passing 100 should fail
    let result = timelock.queue(&admin, desc(), target, 100, &deps, 0);
    assert_eq!(result, Err(TimelockError::DelayTooShort));
}

#[test]
fn test_unauthorized_queue_fails() {
    let (mut timelock, _admin) = setup();
    let attacker = contract_address(9);
    let target = contract_address(2);
    let deps = Vec::new();
    let result = timelock.queue(&attacker, desc(), target, 3600, &deps, 0);
    assert_eq!(result, Err(TimelockError::Unauthorized));
}

#[test]
fn test_execute_emits_op_executed_event() {
    let (mut timelock, admin) = setup();
    let target = contract_address(2);
    let deps = Vec::new();

    let op_id = timelock.queue(&admin, desc(), target, 3600, &deps, 0).unwrap();
    timelock.execute(&admin, &op_id, 3601).unwrap();

    let last = timelock.events().last().unwrap();
    assert_eq!(last.topic(), "op_executed");
}

#[test]
fn test_cancel_emits_op_cancelled_event() {
    let (mut timelock, admin) = setup();
    let target = contract_address(2);
    let deps = Vec::new();

    let op_id = timelock.queue(&admin, desc(), target, 3600, &deps, 0).unwrap();
    timelock.cancel(&admin, &op_id).unwrap();

    let last = timelock.events().last().unwrap();
    assert_eq!(last.topic(), "op_cancelled");
}

// The scenarios below start the ledger clock at 1000.

#[test]
fn test_timelock_execute_too_early() {
    let (mut timelock, admin) = setup();
    let deps = Vec::new();
    let op_id = timelock
        .queue(&admin, desc(), contract_address(3), 3600, &deps, 1000)
        .unwrap();

    let result = timelock.execute(&admin, &op_id, 1000);
    assert_eq!(result, Err(TimelockError::NotReady));
}

#[test]
fn test_timelock_delay_below_minimum_fails() {
    let (mut timelock, admin) = setup();
    let deps = Vec::new();
    let result = timelock.queue(&admin, desc(), contract_address(3), 100, &deps, 1000);
    assert_eq!(result, Err(TimelockError::DelayTooShort));
}

#[test]
fn test_timelock_execute_cancelled_op_fails() {
    let (mut timelock, admin) = setup();
    let deps = Vec::new();
    let op_id = timelock
        .queue(&admin, desc(), contract_address(3), 3600, &deps, 1000)
        .unwrap();
    timelock.cancel(&admin, &op_id).unwrap();

    let result = timelock.execute(&admin, &op_id, 1000 + 3601);
    assert_eq!(result, Err(TimelockError::Cancelled));
}

#[test]
fn test_timelock_double_execute_fails() {
    let (mut timelock, admin) = setup();
    let deps = Vec::new();
    let op_id = timelock
        .queue(&admin, desc(), contract_address(3), 3600, &deps, 1000)
        .unwrap();
    timelock.execute(&admin, &op_id, 1000 + 3601).unwrap();

    let result = timelock.execute(&admin, &op_id, 1000 + 3601);
    assert_eq!(result, Err(TimelockError::AlreadyExecuted));
}

#[test]
fn test_timelock_unauthorized_queue_fails() {
    let (mut timelock, _admin) = setup();
    let attacker = contract_address(9);
    let deps = Vec::new();
    let result = timelock.queue(&attacker, b"malicious".to_vec(), contract_address(3), 3600, &deps, 1000);
    assert_eq!(result, Err(TimelockError::Unauthorized));
}

// ── further cases ────────────────────────────────────────────────────────────

#[test]
fn initialize_twice_is_refused() {
    let (mut timelock, admin) = setup();
    assert_eq!(timelock.initialize(contract_address(7), 10), Err(TimelockError::AlreadyInitialized));
    assert_eq!(timelock.admin(), admin);
    assert_eq!(timelock.min_delay(), 3600);
}

#[test]
fn uninitialized_timelock_refuses_everything() {
    let mut timelock = RouterTimelock::new();
    let caller = contract_address(1);
    let deps = Vec::new();
    assert_eq!(timelock.min_delay(), 0);
    assert_eq!(
        timelock.queue(&caller, desc(), contract_address(2), 3600, &deps, 0),
        Err(TimelockError::NotInitialized)
    );
    assert_eq!(timelock.cancel(&caller, &vec![0u8; 32]), Err(TimelockError::NotInitialized));
    assert_eq!(timelock.execute(&caller, &vec![0u8; 32], 0), Err(TimelockError::NotInitialized));
    assert!(timelock.events().is_empty());
}

#[test]
fn unknown_operation_is_not_found() {
    let (mut timelock, admin) = setup();
    assert_eq!(timelock.cancel(&admin, &vec![5u8; 32]), Err(TimelockError::NotFound));
    assert_eq!(timelock.execute(&admin, &vec![5u8; 32], 99_999), Err(TimelockError::NotFound));
    assert_eq!(timelock.get_op(&vec![5u8; 32]), None);
}

#[test]
fn executed_operation_cannot_be_cancelled() {
    let (mut timelock, admin) = setup();
    let deps = Vec::new();
    let id = timelock.queue(&admin, desc(), contract_address(2), 3600, &deps, 0).unwrap();
    timelock.execute(&admin, &id, 3600).unwrap();
    assert_eq!(timelock.cancel(&admin, &id), Err(TimelockError::AlreadyExecuted));
}

#[test]
fn cancelled_operation_cannot_be_cancelled_again() {
    let (mut timelock, admin) = setup();
    let deps = Vec::new();
    let id = timelock.queue(&admin, desc(), contract_address(2), 3600, &deps, 0).unwrap();
    timelock.cancel(&admin, &id).unwrap();
    assert_eq!(timelock.cancel(&admin, &id), Err(TimelockError::Cancelled));
}

#[test]
fn only_admin_may_cancel_or_execute() {
    let (mut timelock, admin) = setup();
    let deps = Vec::new();
    let id = timelock.queue(&admin, desc(), contract_address(2), 3600, &deps, 0).unwrap();
    let attacker = account_address(1);
    assert_eq!(timelock.cancel(&attacker, &id), Err(TimelockError::Unauthorized));
    assert_eq!(timelock.execute(&attacker, &id, 10_000), Err(TimelockError::Unauthorized));
    let op = timelock.get_op(&id).unwrap();
    assert!(!op.executed && !op.cancelled);
    assert_eq!(timelock.events().len(), 1);
}

#[test]
fn execution_is_allowed_exactly_at_eta() {
    let (mut timelock, admin) = setup();
    let deps = Vec::new();
    let id = timelock.queue(&admin, desc(), contract_address(2), 4000, &deps, 500).unwrap();
    assert_eq!(timelock.get_op(&id).unwrap().eta, 4500);
    assert_eq!(timelock.execute(&admin, &id, 4499), Err(TimelockError::NotReady));
    assert_eq!(timelock.execute(&admin, &id, 4500), Ok(()));
}

#[test]
fn queued_operation_keeps_what_was_proposed() {
    let (mut timelock, admin) = setup();
    let deps = Vec::new();
    let target = account_address(4);
    let id = timelock.queue(&admin, desc(), target, 3600, &deps, 10).unwrap();
    let op = timelock.get_op(&id).unwrap();
    assert_eq!(op.proposer, admin);
    assert_eq!(op.description, desc());
    assert_eq!(op.target, target);
    assert_eq!(op.eta, 3610);
}

#[test]
fn other_operations_are_untouched() {
    let (mut timelock, admin) = setup();
    let deps = Vec::new();
    let a = timelock.queue(&admin, b"first".to_vec(), contract_address(2), 3600, &deps, 0).unwrap();
    let b = timelock.queue(&admin, b"second".to_vec(), contract_address(2), 3600, &deps, 0).unwrap();
    assert_ne!(a, b);
    timelock.execute(&admin, &a, 4000).unwrap();
    let other = timelock.get_op(&b).unwrap();
    assert!(!other.executed && !other.cancelled);
    assert_eq!(other.description, b"second".to_vec());
}

#[test]
fn executed_operation_cannot_be_queued_again() {
    let (mut timelock, admin) = setup();
    let deps = Vec::new();
    let id = timelock.queue(&admin, desc(), contract_address(2), 3600, &deps, 0).unwrap();
    timelock.execute(&admin, &id, 3600).unwrap();
    let again = timelock.queue(&admin, desc(), contract_address(2), 3600, &deps, 0);
    assert_eq!(again, Err(TimelockError::AlreadyExecuted));
    assert!(timelock.get_op(&id).unwrap().executed);
    assert_eq!(timelock.execute(&admin, &id, 3600), Err(TimelockError::AlreadyExecuted));
}

#[test]
fn cancelled_operation_cannot_be_revived() {
    let (mut timelock, admin) = setup();
    let deps = Vec::new();
    let id = timelock.queue(&admin, desc(), contract_address(2), 7200, &deps, 0).unwrap();
    timelock.cancel(&admin, &id).unwrap();
    let again = timelock.queue(&admin, desc(), contract_address(2), 3600, &deps, 3600);
    assert_eq!(again, Err(TimelockError::Cancelled));
    assert_eq!(timelock.execute(&admin, &id, 7200), Err(TimelockError::Cancelled));
    assert_eq!(timelock.events().len(), 2);
}

#[test]
fn pending_operation_may_be_queued_again() {
    let (mut timelock, admin) = setup();
    let deps = Vec::new();
    let id = timelock.queue(&admin, desc(), contract_address(2), 3600, &deps, 0).unwrap();
    let again = timelock.queue(&admin, desc(), contract_address(2), 3600, &deps, 0).unwrap();
    assert_eq!(id, again);
    let op = timelock.get_op(&id).unwrap();
    assert!(!op.executed && !op.cancelled);
}

#[test]
fn queue_with_id_stores_under_the_given_id() {
    let (mut timelock, admin) = setup();
    let id = vec![42u8; 32];
    let r = timelock.queue_with_id(&admin, desc(), contract_address(2), 3600, 7, id.clone());
    assert_eq!(r, Ok(id.clone()));
    assert_eq!(timelock.get_op(&id).unwrap().eta, 3607);
    assert_eq!(
        timelock.queue_with_id(&admin, desc(), contract_address(2), 5, 7, id.clone()),
        Err(TimelockError::DelayTooShort)
    );
    timelock.cancel(&admin, &id).unwrap();
    assert_eq!(
        timelock.queue_with_id(&admin, desc(), contract_address(2), 3600, 7, id.clone()),
        Err(TimelockError::Cancelled)
    );
}

#[test]
fn op_id_is_sha256_of_preimage() {
    let env = test_env();
    let target = contract_address(2);
    let preimage = op_preimage_bytes(&desc(), &target, 3600);
    let expected = env.crypto().sha256(&Bytes::from_slice(&env, &preimage)).to_array();
    let id = op_id(&desc(), &target, 3600);
    assert_eq!(id, expected.to_vec());
    assert_ne!(id, preimage);
    let mut p = desc();
    p.extend_from_slice(&address_to_xdr(&target));
    p.extend_from_slice(&3600u64.to_be_bytes());
    assert_eq!(preimage, p);
}

#[test]
fn address_xdr_matches_soroban() {
    let env = test_env();
    let contract = contract_address(0xAB);
    let sc = ScAddress::Contract(ContractId(soroban_sdk::xdr::Hash([0xAB; 32])));
    let addr = soroban_sdk::Address::try_from_val(&env, &sc).unwrap();
    let bytes: Vec<u8> = addr.to_xdr(&env).iter().collect();
    assert_eq!(address_to_xdr(&contract), bytes);

    let account = account_address(0x11);
    let sc = ScAddress::Account(AccountId(PublicKey::PublicKeyTypeEd25519(Uint256([0x11; 32]))));
    let addr = soroban_sdk::Address::try_from_val(&env, &sc).unwrap();
    let bytes: Vec<u8> = addr.to_xdr(&env).iter().collect();
    assert_eq!(address_to_xdr(&account), bytes);
}

#[test]
fn be_bytes_match_std() {
    for x in [0u64, 1, 255, 256, 3600, 0x0102030405060708, u64::MAX] {
        assert_eq!(u64_be_bytes(x), x.to_be_bytes().to_vec());
    }
}
