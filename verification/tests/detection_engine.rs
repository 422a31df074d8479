use arbishield::address::Address;
use arbishield::detection_engine::{is_anomaly, DetectionEngine, DetectionEngineEvent, Error};
use arbishield::word::U256;

fn w(x: u64) -> U256 {
    U256::from_u64(x)
}

fn addr(b: u8) -> Address {
    Address::new([b; 20])
}

fn owned_engine(owner: Address) -> DetectionEngine {
    let mut e = DetectionEngine::new();
    e.init(&owner).unwrap();
    e
}

// ========================================
// Threshold & Anomaly Detection Logic
// ========================================

#[test]
fn test_value_above_threshold_is_anomaly() {
    assert!(is_anomaly(w(150), w(100)), "Value above threshold is an anomaly");
}

#[test]
fn test_value_below_threshold_is_normal() {
    assert!(!is_anomaly(w(50), w(100)), "Value below threshold is normal");
}

#[test]
fn test_value_equal_threshold_is_normal() {
    assert!(!is_anomaly(w(100), w(100)), "Value equal to threshold is NOT anomaly (strict >)");
}

#[test]
fn test_value_one_above_threshold_is_anomaly() {
    assert!(is_anomaly(w(101), w(100)));
}

#[test]
fn test_zero_threshold_any_value_is_anomaly() {
    assert!(is_anomaly(w(1), U256::zero()), "Any positive value exceeds zero threshold");
}

#[test]
fn test_zero_value_zero_threshold_is_normal() {
    assert!(!is_anomaly(U256::zero(), U256::zero()));
}

#[test]
fn test_max_threshold_never_exceeded() {
    assert!(!is_anomaly(U256::max(), U256::max()), "U256::MAX cannot exceed itself");
}

#[test]
fn test_large_threshold_values() {
    let threshold = w(1_000_000_000_000_000_000u64);
    let below = w(999_999_999_999_999_999u64);
    let above = w(1_000_000_000_000_000_001u64);
    assert!(!is_anomaly(below, threshold));
    assert!(is_anomaly(above, threshold));
}

// ========================================
// Metric Count Arithmetic
// ========================================

#[test]
fn test_metric_count_starts_zero() {
    let e = owned_engine(addr(1));
    assert_eq!(e.get_metric_count(), w(0));
}

#[test]
fn test_metric_count_increments() {
    let owner = addr(1);
    let mut e = owned_engine(owner);
    for i in 1..=5u64 {
        e.register_metric(&owner, w(i), w(100)).unwrap();
        assert_eq!(e.get_metric_count(), w(i));
    }
}

#[test]
fn test_metric_count_independent_of_values() {
    let owner = addr(1);
    let mut e = owned_engine(owner);
    for i in 1..=3u64 {
        e.register_metric(&owner, w(i), w(10)).unwrap();
    }
    e.report_metric(w(1), w(1_000_000)).unwrap();
    assert_eq!(e.get_metric_count(), w(3));
    assert_ne!(e.get_metric_count(), e.get_current_value(w(1)));
}

// ========================================
// Metric ID Tests
// ========================================

#[test]
fn test_metric_id_zero_valid() {
    let owner = addr(1);
    let mut e = owned_engine(owner);
    e.register_metric(&owner, U256::zero(), w(5)).unwrap();
    assert_eq!(e.get_threshold(U256::zero()), w(5), "ID 0 is valid");
}

#[test]
fn test_metric_id_large() {
    let owner = addr(1);
    let mut e = owned_engine(owner);
    let id = w(u64::MAX);
    assert!(id.gt(&U256::zero()));
    e.register_metric(&owner, id, w(7)).unwrap();
    assert_eq!(e.get_threshold(id), w(7));
}

#[test]
fn test_metric_ids_distinct() {
    let owner = addr(1);
    let mut e = owned_engine(owner);
    e.register_metric(&owner, w(1), w(10)).unwrap();
    e.register_metric(&owner, w(2), w(20)).unwrap();
    assert_ne!(w(1), w(2));
    assert_eq!(e.get_threshold(w(1)), w(10));
    assert_eq!(e.get_threshold(w(2)), w(20));
}

// ========================================
// Error Encoding Tests
// ========================================

#[test]
fn test_unauthorized_caller_error_encoding() {
    let encoded = Error::UnauthorizedCaller(addr(0xAA)).abi_encode();
    assert_eq!(encoded.len(), 36, "selector(4) + address(32)");
}

#[test]
fn test_metric_not_found_error_encoding() {
    let encoded = Error::MetricNotFound { id: w(42) }.abi_encode();
    assert_eq!(encoded.len(), 36, "selector(4) + uint256(32)");
}

#[test]
fn test_invalid_threshold_error_encoding() {
    let encoded = Error::InvalidThreshold { value: w(999) }.abi_encode();
    assert_eq!(encoded.len(), 36);
}

#[test]
fn test_threshold_exceeded_error_encoding() {
    let encoded = Error::ThresholdExceeded { current: w(200), threshold: w(100) }.abi_encode();
    assert_eq!(encoded.len(), 68, "Should encode both current and threshold");
}

#[test]
fn test_invalid_owner_error_encoding() {
    let encoded = Error::InvalidOwner(Address::zero()).abi_encode();
    assert_eq!(encoded.len(), 36);
}

#[test]
fn mod_test_all_error_selectors_unique() {
    let errors: Vec<Vec<u8>> = vec![
        Error::UnauthorizedCaller(Address::zero()).abi_encode(),
        Error::MetricNotFound { id: U256::zero() }.abi_encode(),
        Error::InvalidThreshold { value: U256::zero() }.abi_encode(),
        Error::ThresholdExceeded { current: U256::zero(), threshold: U256::zero() }.abi_encode(),
        Error::InvalidOwner(Address::zero()).abi_encode(),
    ];
    for i in 0..errors.len() {
        for j in (i + 1)..errors.len() {
            assert_ne!(&errors[i][..4], &errors[j][..4], "Error selectors at indices {i} and {j} must differ");
        }
    }
}

#[test]
fn mod_test_error_encoding_deterministic() {
    let enc1 = Error::MetricNotFound { id: w(7) }.abi_encode();
    let enc2 = Error::MetricNotFound { id: w(7) }.abi_encode();
    assert_eq!(enc1, enc2);
}

#[test]
fn test_zero_address_check() {
    assert_eq!(Address::zero(), Address::zero());
    assert_ne!(addr(1), Address::zero());
    assert!(Address::zero().is_zero());
    assert!(!addr(1).is_zero());
}

#[test]
fn test_all_errors_have_debug() {
    let errors: Vec<Error> = vec![
        Error::UnauthorizedCaller(Address::zero()),
        Error::MetricNotFound { id: U256::zero() },
        Error::InvalidThreshold { value: U256::zero() },
        Error::ThresholdExceeded { current: U256::zero(), threshold: U256::zero() },
        Error::InvalidOwner(Address::zero()),
    ];
    for err in errors {
        assert!(!format!("{err:?}").is_empty());
    }
}

// ========================================
// Contract behaviour
// ========================================

#[test]
fn engine_init_sets_owner_once() {
    let mut e = DetectionEngine::new();
    assert!(e.owner().is_zero());
    e.init(&addr(1)).unwrap();
    assert_eq!(e.owner(), addr(1));
    assert_eq!(e.init(&addr(2)), Err(Error::InvalidOwner(addr(1))));
    assert_eq!(e.owner(), addr(1));
}

#[test]
fn engine_register_requires_owner() {
    let mut e = owned_engine(addr(1));
    assert_eq!(e.register_metric(&addr(2), w(1), w(5)), Err(Error::UnauthorizedCaller(addr(2))));
    assert_eq!(e.get_metric_count(), w(0));
    assert!(e.events().is_empty());
}

#[test]
fn engine_report_and_check_anomaly() {
    let owner = addr(1);
    let mut e = owned_engine(owner);
    e.register_metric(&owner, w(1), w(1000)).unwrap();
    e.report_metric(w(1), w(500)).unwrap();
    assert_eq!(e.check_anomaly(w(1)), Ok(false));
    e.report_metric(w(1), w(1500)).unwrap();
    assert_eq!(e.check_anomaly(w(1)), Ok(true));
    assert_eq!(e.get_current_value(w(1)), w(1500));
    let events = e.events();
    assert_eq!(events.len(), 4);
    assert_eq!(events[0], DetectionEngineEvent::MetricRegistered { id: w(1), threshold: w(1000) });
    assert_eq!(events[1], DetectionEngineEvent::MetricReported { id: w(1), value: w(500) });
    assert_eq!(events[2], DetectionEngineEvent::MetricReported { id: w(1), value: w(1500) });
    assert_eq!(
        events[3],
        DetectionEngineEvent::AnomalyDetected { id: w(1), current: w(1500), threshold: w(1000) }
    );
}

#[test]
fn engine_unknown_metric_not_found() {
    let e = owned_engine(addr(1));
    assert_eq!(e.check_anomaly(w(9)), Err(Error::MetricNotFound { id: w(9) }));
    assert_eq!(e.get_threshold(w(9)), w(0));
}

#[test]
fn engine_report_on_unregistered_metric_fails() {
    let mut e = owned_engine(addr(1));
    assert_eq!(e.report_metric(w(3), w(1)), Err(Error::MetricNotFound { id: w(3) }));
    assert_eq!(e.get_current_value(w(3)), w(0));
    assert!(e.events().is_empty());
    e.register_metric(&addr(1), w(3), w(0)).unwrap();
    assert_eq!(e.check_anomaly(w(3)), Ok(false));
    assert_eq!(e.report_metric(w(3), w(1)), Ok(()));
    assert_eq!(e.check_anomaly(w(3)), Ok(true));
}

#[test]
fn engine_metric_count_saturates_at_max() {
    // the metric count is incremented by a saturating add of one
    let a = U256::max();
    assert_eq!(a.saturating_add(&w(1)), U256::max());
}

#[test]
fn engine_transfer_ownership() {
    let mut e = owned_engine(addr(1));
    assert_eq!(e.transfer_ownership(&addr(2), addr(3)), Err(Error::UnauthorizedCaller(addr(2))));
    assert_eq!(e.transfer_ownership(&addr(1), Address::zero()), Err(Error::InvalidOwner(Address::zero())));
    e.transfer_ownership(&addr(1), addr(3)).unwrap();
    assert_eq!(e.owner(), addr(3));
    assert_eq!(
        e.events()[0],
        DetectionEngineEvent::OwnershipTransferred { previous_owner: addr(1), new_owner: addr(3) }
    );
}
