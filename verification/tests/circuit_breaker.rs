use arbishield::address::Address;
use arbishield::circuit_breaker::{CircuitBreaker, CircuitBreakerEvent, Error, OPERATOR_ROLE};
use arbishield::word::U256;

fn w(x: u64) -> U256 {
    U256::from_u64(x)
}

fn addr(b: u8) -> Address {
    Address::new([b; 20])
}

fn breaker(owner: Address) -> CircuitBreaker {
    let mut cb = CircuitBreaker::new();
    cb.init(&owner).unwrap();
    cb
}

// ========================================
// State machine
// ========================================

#[test]
fn test_initial_state_not_tripped() {
    let cb = breaker(addr(1));
    assert!(!cb.is_active(), "Circuit should start un-tripped");
}

#[test]
fn test_trip_sets_active() {
    let owner = addr(1);
    let mut cb = breaker(owner);
    cb.trip(&owner, 100).unwrap();
    assert!(cb.is_active());
}

#[test]
fn test_reset_clears_active() {
    let owner = addr(1);
    let mut cb = breaker(owner);
    cb.trip(&owner, 100).unwrap();
    cb.reset(&owner, 200).unwrap();
    assert!(!cb.is_active());
}

#[test]
fn test_full_trip_reset_cycle() {
    let owner = addr(1);
    let mut cb = breaker(owner);
    for i in 0..5u64 {
        assert!(!cb.is_active());
        cb.trip(&owner, 10 * i).unwrap();
        assert!(cb.is_active());
        cb.reset(&owner, 10 * i + 5).unwrap();
    }
    assert_eq!(cb.get_trip_count(), w(5));
}

#[test]
fn test_already_tripped_guard() {
    let owner = addr(1);
    let mut cb = breaker(owner);
    cb.trip(&owner, 1).unwrap();
    assert_eq!(cb.trip(&owner, 2), Err(Error::AlreadyTripped), "Should reject trip when already tripped");
    assert_eq!(cb.get_trip_count(), w(1));
}

#[test]
fn test_not_tripped_guard() {
    let owner = addr(1);
    let mut cb = breaker(owner);
    assert_eq!(cb.reset(&owner, 1), Err(Error::NotTripped), "Should reject reset when not tripped");
}

// ========================================
// Trip count arithmetic
// ========================================

#[test]
fn test_trip_count_starts_zero() {
    let cb = breaker(addr(1));
    assert_eq!(cb.get_trip_count(), U256::zero());
    assert_eq!(U256::zero(), w(0));
}

#[test]
fn test_trip_count_increments_correctly() {
    let owner = addr(1);
    let mut cb = breaker(owner);
    for i in 1..=10u64 {
        cb.trip(&owner, i).unwrap();
        assert_eq!(cb.get_trip_count(), w(i));
        cb.reset(&owner, i).unwrap();
    }
}

#[test]
fn test_trip_count_near_max() {
    let count = U256::max().saturating_sub(&w(1));
    let next = count.saturating_add(&w(1));
    assert_eq!(next, U256::max());
    assert_eq!(next.saturating_add(&w(1)), U256::max());
}

#[test]
fn test_trip_count_not_reset_on_circuit_reset() {
    let owner = addr(1);
    let mut cb = breaker(owner);
    for t in 0..5u64 {
        cb.trip(&owner, t).unwrap();
        cb.reset(&owner, t).unwrap();
    }
    assert_eq!(cb.get_trip_count(), w(5));
    cb.trip(&owner, 99).unwrap();
    assert_eq!(cb.get_trip_count(), w(6));
}

// ========================================
// Timestamps
// ========================================

#[test]
fn test_timestamp_zero_before_first_trip() {
    let cb = breaker(addr(1));
    assert_eq!(cb.get_last_trip_time(), U256::zero());
}

#[test]
fn test_timestamp_records_on_trip() {
    let owner = addr(1);
    let mut cb = breaker(owner);
    cb.trip(&owner, 1_700_000_000).unwrap();
    assert_eq!(cb.get_last_trip_time(), w(1_700_000_000));
    assert!(cb.get_last_trip_time().gt(&U256::zero()));
}

#[test]
fn test_timestamp_overwrites_on_subsequent_trip() {
    let owner = addr(1);
    let mut cb = breaker(owner);
    cb.trip(&owner, 1_700_000_000).unwrap();
    cb.reset(&owner, 1_700_000_500).unwrap();
    cb.trip(&owner, 1_700_001_000).unwrap();
    assert_eq!(cb.get_last_trip_time(), w(1_700_001_000));
    assert!(cb.get_last_trip_time().gt(&w(1_700_000_000)));
}

// ========================================
// Addresses
// ========================================

#[test]
fn test_non_zero_address_valid() {
    let a = addr(0x01);
    assert_ne!(a, Address::zero());
    assert!(!a.is_zero());
}

#[test]
fn test_address_equality() {
    assert_eq!(addr(0xAB), addr(0xAB));
}

#[test]
fn test_address_inequality() {
    let owner = addr(0x01);
    let caller = addr(0x02);
    assert_ne!(owner, caller);
    let mut cb = breaker(owner);
    assert_eq!(cb.trip(&caller, 1), Err(Error::UnauthorizedCaller(caller)));
}

// ========================================
// Error encoding
// ========================================

#[test]
fn test_already_tripped_error_encodes() {
    let encoded = Error::AlreadyTripped.abi_encode();
    assert!(encoded.len() >= 4, "Must have selector bytes");
    assert_eq!(encoded.len(), 4);
}

#[test]
fn test_not_tripped_error_encodes() {
    let encoded = Error::NotTripped.abi_encode();
    assert_eq!(encoded.len(), 4);
}

#[test]
fn test_unauthorized_caller_encodes_with_address() {
    let encoded = Error::UnauthorizedCaller(addr(0xAA)).abi_encode();
    assert_eq!(encoded.len(), 36);
}

#[test]
fn test_invalid_owner_encodes_with_address() {
    let encoded = Error::InvalidOwner(Address::zero()).abi_encode();
    assert_eq!(encoded.len(), 36);
    assert!(encoded[4..].iter().all(|b| *b == 0));
}

#[test]
fn test_encoded_address_present_in_unauthorized_error() {
    let a = addr(0xCC);
    let encoded = Error::UnauthorizedCaller(a).abi_encode();
    assert!(encoded[4..16].iter().all(|b| *b == 0));
    assert_eq!(&encoded[16..36], &a.bytes[..]);
}

// ========================================
// Ownership transfer
// ========================================

#[test]
fn test_ownership_transfer_updates() {
    let owner = addr(0x01);
    let new_owner = addr(0x02);
    let mut cb = breaker(owner);
    cb.transfer_ownership(&owner, new_owner).unwrap();
    assert_eq!(cb.owner(), new_owner);
    assert_ne!(cb.owner(), owner);
    assert_eq!(
        cb.events().last(),
        Some(&CircuitBreakerEvent::OwnershipTransferred { previous_owner: owner, new_owner })
    );
}

#[test]
fn test_transfer_to_zero_rejected() {
    let owner = addr(0x01);
    let mut cb = breaker(owner);
    assert_eq!(
        cb.transfer_ownership(&owner, Address::zero()),
        Err(Error::InvalidOwner(Address::zero())),
        "Transfer to zero should be caught"
    );
    assert_eq!(cb.owner(), owner);
}

// ========================================
// Debug
// ========================================

#[test]
fn test_error_debug_has_variant_name() {
    assert!(format!("{:?}", Error::AlreadyTripped).contains("AlreadyTripped"));
    assert!(format!("{:?}", Error::NotTripped).contains("NotTripped"));
    assert!(format!("{:?}", Error::UnauthorizedCaller(Address::zero())).contains("UnauthorizedCaller"));
    assert!(format!("{:?}", Error::InvalidOwner(Address::zero())).contains("InvalidOwner"));
}

// ========================================
// Protocol-level operations
// ========================================

#[test]
fn cb_register_and_pause_protocol() {
    let owner = addr(1);
    let p = addr(0x50);
    let mut cb = breaker(owner);
    assert_eq!(cb.get_protocol_count(), w(0));
    cb.register_protocol(&owner, p, 10).unwrap();
    assert!(cb.is_protocol_registered(p));
    assert_eq!(cb.get_protocol_count(), w(1));
    assert_eq!(cb.get_protocol_at_index(w(0)), Ok(p));
    assert_eq!(
        cb.get_protocol_at_index(w(1)),
        Err(Error::IndexOutOfBounds { index: w(1), length: w(1) })
    );
    assert_eq!(cb.register_protocol(&owner, p, 11), Err(Error::ProtocolAlreadyRegistered(p)));

    cb.trip_protocol(&owner, p, 1000).unwrap();
    assert!(cb.is_protocol_paused(p));
    assert_eq!(cb.get_protocol_trip_count(p), w(1));
    assert_eq!(cb.get_protocol_pause_time(p), w(1000));
    assert_eq!(cb.trip_protocol(&owner, p, 1001), Err(Error::ProtocolAlreadyPaused(p)));
}

#[test]
fn cb_reset_protocol_respects_min_pause() {
    let owner = addr(1);
    let p = addr(0x50);
    let mut cb = breaker(owner);
    cb.register_protocol(&owner, p, 0).unwrap();
    cb.trip_protocol(&owner, p, 1000).unwrap();
    assert!(!cb.can_reset(p, 1000 + 3599));
    assert_eq!(cb.get_remaining_pause_time(p, 1000 + 600), w(3000));
    assert_eq!(
        cb.reset_protocol(&owner, p, 1000 + 600),
        Err(Error::MinimumPauseDurationNotMet { elapsed: w(600), required: w(3600) })
    );
    assert!(cb.can_reset(p, 1000 + 3600));
    assert_eq!(cb.get_remaining_pause_time(p, 1000 + 3600), w(0));
    cb.reset_protocol(&owner, p, 1000 + 3600).unwrap();
    assert!(!cb.is_protocol_paused(p));
    assert_eq!(cb.reset_protocol(&owner, p, 9999), Err(Error::ProtocolNotPaused(p)));
}

#[test]
fn cb_protocol_errors() {
    let owner = addr(1);
    let p = addr(0x50);
    let mut cb = breaker(owner);
    assert_eq!(cb.trip_protocol(&owner, p, 1), Err(Error::ProtocolNotRegistered(p)));
    assert_eq!(cb.register_protocol(&owner, Address::zero(), 1), Err(Error::InvalidProtocol(Address::zero())));
    assert_eq!(cb.unregister_protocol(&owner, p, 1), Err(Error::ProtocolNotRegistered(p)));
    assert_eq!(
        cb.register_protocol(&addr(7), p, 1),
        Err(Error::InsufficientRole { caller: addr(7), required_role: 0x01 })
    );
}

#[test]
fn cb_unregister_keeps_list_position() {
    let owner = addr(1);
    let mut cb = breaker(owner);
    for b in 0x50..0x54u8 {
        cb.register_protocol(&owner, addr(b), 0).unwrap();
    }
    cb.unregister_protocol(&owner, addr(0x51), 5).unwrap();
    assert!(!cb.is_protocol_registered(addr(0x51)));
    assert_eq!(cb.get_protocol_count(), w(3));
    assert_eq!(cb.get_protocol_at_index(w(0)), Ok(addr(0x50)));
    assert_eq!(cb.get_protocol_at_index(w(1)), Err(Error::ProtocolNotRegistered(addr(0x51))));
    assert_eq!(cb.get_protocol_at_index(w(3)), Ok(addr(0x53)));
    assert_eq!(
        cb.get_protocol_at_index(w(4)),
        Err(Error::IndexOutOfBounds { index: w(4), length: w(4) })
    );
    // a paused protocol cannot be unregistered
    cb.trip_protocol(&owner, addr(0x52), 6).unwrap();
    assert_eq!(cb.unregister_protocol(&owner, addr(0x52), 7), Err(Error::ProtocolAlreadyPaused(addr(0x52))));
    // re-registration after unregistering works
    // the list keeps its old entry too, but each protocol counts once
    cb.register_protocol(&owner, addr(0x51), 8).unwrap();
    assert_eq!(cb.get_protocol_count(), w(4));
    assert_eq!(cb.get_protocol_at_index(w(4)), Ok(addr(0x51)));
}

#[test]
fn cb_batch_trip_and_reset() {
    let owner = addr(1);
    let mut cb = breaker(owner);
    let ps: Vec<Address> = (0x60..0x63u8).map(addr).collect();
    for p in &ps {
        cb.register_protocol(&owner, *p, 0).unwrap();
    }
    // one already paused: skipped, not an error
    cb.trip_protocol(&owner, ps[0], 10).unwrap();
    assert_eq!(cb.trip_multiple_protocols(&owner, ps.clone(), 20), Ok(()));
    assert_eq!(
        cb.events().last(),
        Some(&CircuitBreakerEvent::BatchProtocolsTripped { count: w(2), timestamp: w(20), operator: owner })
    );
    for p in &ps {
        assert!(cb.is_protocol_paused(*p));
    }
    // ps[0] paused at 10, others at 20; at 3615 only ps[0] is due
    assert_eq!(cb.reset_multiple_protocols(&owner, ps.clone(), 3615), Ok(()));
    assert_eq!(
        cb.events().last(),
        Some(&CircuitBreakerEvent::BatchProtocolsReset { count: w(1), timestamp: w(3615), operator: owner })
    );
    assert!(!cb.is_protocol_paused(ps[0]));
    assert!(cb.is_protocol_paused(ps[1]));
    assert_eq!(cb.trip_multiple_protocols(&owner, Vec::new(), 1), Err(Error::EmptyProtocolList));
    let many: Vec<Address> = (0..101u8).map(|_| ps[0]).collect();
    assert_eq!(
        cb.trip_multiple_protocols(&owner, many, 1),
        Err(Error::BatchSizeTooLarge { size: w(101), max: w(100) })
    );
}

#[test]
fn cb_role_management() {
    let owner = addr(1);
    let op = addr(2);
    let mut cb = breaker(owner);
    assert!(cb.has_role(owner, OPERATOR_ROLE));
    assert!(!cb.has_role(op, OPERATOR_ROLE));
    cb.grant_role(&owner, op, OPERATOR_ROLE).unwrap();
    assert!(cb.has_role(op, OPERATOR_ROLE));
    assert_eq!(cb.get_roles(op), OPERATOR_ROLE);
    cb.trip(&op, 5).unwrap();
    assert!(cb.is_active());
    assert_eq!(cb.revoke_role(&op, op, OPERATOR_ROLE), Err(Error::InsufficientRole { caller: op, required_role: 0x01 }));
    assert_eq!(cb.revoke_role(&owner, owner, 0x01), Err(Error::CannotRevokeOwnRole(owner)));
    assert_eq!(cb.grant_role(&owner, op, 0x04), Err(Error::InvalidRole(0x04)));
    assert_eq!(cb.grant_role(&owner, op, 0x00), Err(Error::InvalidRole(0x00)));
    cb.revoke_role(&owner, op, OPERATOR_ROLE).unwrap();
    assert!(!cb.has_role(op, OPERATOR_ROLE));
    assert_eq!(cb.reset(&op, 6), Err(Error::UnauthorizedCaller(op)));
}

#[test]
fn cb_time_lock_configuration() {
    let owner = addr(1);
    let mut cb = breaker(owner);
    assert_eq!(cb.get_min_pause_duration(), w(3600));
    assert_eq!(cb.get_max_pause_duration(), w(604800));
    assert_eq!(cb.get_cooldown_period(), w(300));
    cb.set_min_pause_duration(&owner, w(60)).unwrap();
    assert_eq!(cb.get_min_pause_duration(), w(60));
    assert_eq!(
        cb.set_min_pause_duration(&owner, w(604801)),
        Err(Error::MaxPauseDurationExceeded { duration: w(604801), max: w(604800) })
    );
    assert_eq!(cb.set_max_pause_duration(&owner, w(59)), Err(Error::InvalidDuration(w(59))));
    cb.set_max_pause_duration(&owner, w(86400)).unwrap();
    assert_eq!(cb.get_max_pause_duration(), w(86400));
    assert_eq!(cb.set_cooldown_period(&owner, w(3601)), Err(Error::InvalidDuration(w(3601))));
    cb.set_cooldown_period(&owner, w(0)).unwrap();
    assert_eq!(cb.get_cooldown_period(), w(0));
}

#[test]
fn cb_interfaces_and_init() {
    let owner = addr(1);
    let mut cb = breaker(owner);
    assert!(cb.supports_interface([0x01, 0xff, 0xc9, 0xa7]));
    assert!(cb.supports_interface([0xab, 0xcd, 0xef, 0x12]));
    assert!(!cb.supports_interface([0, 0, 0, 0]));
    assert_eq!(cb.init(&addr(2)), Err(Error::InvalidOwner(owner)));
    assert!(cb.is_authorized(&owner));
    assert!(!cb.is_authorized(&addr(2)));
}

#[test]
fn cb_reset_protocol_waits_for_cooldown() {
    let owner = addr(1);
    let p = addr(0x50);
    let mut cb = breaker(owner);
    cb.set_min_pause_duration(&owner, w(60)).unwrap();
    cb.set_cooldown_period(&owner, w(600)).unwrap();
    cb.register_protocol(&owner, p, 0).unwrap();
    cb.trip_protocol(&owner, p, 1000).unwrap();
    assert_eq!(
        cb.reset_protocol(&owner, p, 1030),
        Err(Error::MinimumPauseDurationNotMet { elapsed: w(30), required: w(60) })
    );
    // the minimum pause has elapsed: `can_reset` says so and nothing remains
    assert!(cb.can_reset(p, 1100));
    assert_eq!(cb.get_remaining_pause_time(p, 1100), w(0));
    // a single reset still waits for the cooldown
    assert_eq!(cb.reset_protocol(&owner, p, 1100), Err(Error::CooldownPeriodActive { remaining: w(500) }));
    assert!(cb.is_protocol_paused(p));
    assert_eq!(cb.get_remaining_pause_time(p, 1050), w(10));
    assert!(!cb.can_reset(p, 1050));
    cb.reset_protocol(&owner, p, 1600).unwrap();
    assert!(!cb.is_protocol_paused(p));
}

#[test]
fn cb_batch_reset_checks_minimum_pause_only() {
    let owner = addr(1);
    let p = addr(0x50);
    let mut cb = breaker(owner);
    cb.set_min_pause_duration(&owner, w(60)).unwrap();
    cb.set_cooldown_period(&owner, w(300)).unwrap();
    cb.register_protocol(&owner, p, 0).unwrap();
    cb.trip_protocol(&owner, p, 1000).unwrap();
    assert!(cb.can_reset(p, 1100));
    assert_eq!(cb.get_remaining_pause_time(p, 1100), w(0));
    assert_eq!(cb.reset_multiple_protocols(&owner, vec![p], 1100), Ok(()));
    assert!(!cb.is_protocol_paused(p));
}
