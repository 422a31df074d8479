//! The ABI words and selectors, and the word arithmetic, on concrete values.
use arbishield::abi::{encode_error, encode_param, encode_selector, AbiParam};
use arbishield::address::Address;
use arbishield::alert_registry::Error as ARError;
use arbishield::circuit_breaker::Error as CBError;
use arbishield::detection_engine::Error as DEError;
use arbishield::word::U256;

fn w(x: u64) -> U256 {
    U256::from_u64(x)
}

fn selector_of(signature: &str) -> Vec<u8> {
    alloy_primitives::keccak256(signature.as_bytes()).0[..4].to_vec()
}

#[test]
fn selectors_are_digest_prefixes() {
    for sig in ["AlreadyTripped()", "UnauthorizedCaller(address)", "MetricNotFound(uint256)", "InvalidRole(uint8)"] {
        let sel = encode_selector(sig);
        assert_eq!(sel, selector_of(sig));
        assert_ne!(sel, sig.as_bytes()[..4].to_vec());
    }
    assert_eq!(CBError::AlreadyTripped.abi_encode(), selector_of("AlreadyTripped()"));
    assert_eq!(&DEError::MetricNotFound { id: w(1) }.abi_encode()[..4], &selector_of("MetricNotFound(uint256)")[..]);
    assert_eq!(&ARError::InvalidAlert.abi_encode()[..], &selector_of("InvalidAlert()")[..]);
}

#[test]
fn uint256_word_is_big_endian() {
    let x = U256::from_limbs([0x0102_0304_0506_0708, 0x1112_1314_1516_1718, 0, 0xF0F1_F2F3_F4F5_F6F7]);
    let word = encode_param(&AbiParam::Uint256(x));
    let mut expected = vec![0xF0, 0xF1, 0xF2, 0xF3, 0xF4, 0xF5, 0xF6, 0xF7];
    expected.extend_from_slice(&[0u8; 8]);
    expected.extend_from_slice(&[0x11, 0x12, 0x13, 0x14, 0x15, 0x16, 0x17, 0x18]);
    expected.extend_from_slice(&[0x01, 0x02, 0x03, 0x04, 0x05, 0x06, 0x07, 0x08]);
    assert_eq!(word, expected);
}

#[test]
fn address_uint8_and_bytes4_words() {
    let a = Address::new([0xAB; 20]);
    let mut expected = vec![0u8; 12];
    expected.extend_from_slice(&[0xAB; 20]);
    assert_eq!(encode_param(&AbiParam::Address(a)), expected);

    let mut expected = vec![0u8; 31];
    expected.push(0xC3);
    assert_eq!(encode_param(&AbiParam::Uint8(0xC3)), expected);

    let mut expected = vec![1u8, 2, 3, 4];
    expected.extend_from_slice(&[0u8; 28]);
    assert_eq!(encode_param(&AbiParam::Bytes4([1, 2, 3, 4])), expected);
}

#[test]
fn error_encoding_layout() {
    let e = encode_error("ThresholdExceeded(uint256,uint256)", &vec![AbiParam::Uint256(w(200)), AbiParam::Uint256(w(100))]);
    assert_eq!(e.len(), 68);
    assert_eq!(&e[..4], &selector_of("ThresholdExceeded(uint256,uint256)")[..]);
    assert_eq!(e[35], 200);
    assert_eq!(e[67], 100);
    assert_eq!(e, DEError::ThresholdExceeded { current: w(200), threshold: w(100) }.abi_encode());
    let r = CBError::InsufficientRole { caller: Address::new([7; 20]), required_role: 2 }.abi_encode();
    assert_eq!(r.len(), 68);
    assert_eq!(&r[16..36], &[7u8; 20][..]);
    assert_eq!(r[67], 2);
}

#[test]
fn word_arithmetic_across_limbs() {
    let a = U256::from_limbs([u64::MAX, 0, 0, 0]);
    let b = a.saturating_add(&w(1));
    assert_eq!(b, U256::from_limbs([0, 1, 0, 0]));
    assert_eq!(b.saturating_sub(&w(1)), a);
    assert_eq!(w(3).saturating_sub(&w(5)), U256::zero());
    assert_eq!(U256::max().saturating_add(&U256::max()), U256::max());
    assert_eq!(U256::max().wrapping_add(&w(2)), w(1));
    assert_eq!(w(2).wrapping_add(&w(3)), w(5));
    assert!(a.lt(&b));
    assert!(b.gt(&a));
    assert!(a.le(&a));
    assert!(!b.le(&a));
    assert!(b.ge(&b));
    assert_eq!(b.saturating_to_u64(), u64::MAX);
    assert_eq!(w(42).saturating_to_u64(), 42);
    assert_eq!(w(42).try_to_usize(), Some(42));
    assert_eq!(b.try_to_usize(), None);
    assert_eq!(U256::from_usize(7), w(7));
    assert_eq!(U256::from_limbs([1, 2, 3, 4]).into_limbs(), [1, 2, 3, 4]);
}
