//! Errors shared by the contracts: an error declared with the same Solidity
//! signature encodes to the same bytes whichever contract reverts with it.
use vstd::prelude::*;

use crate::abi::{AbiParam, error_encoding, zeros};
use crate::address::{Address, InterfaceId};
use crate::alert_registry::Error as RegistryError;
use crate::circuit_breaker::Error as BreakerError;
use crate::detection_engine::Error as EngineError;
use crate::word::U256;

verus! {

/// The encoding of a circuit breaker error.
pub open spec fn breaker_encoding(e: BreakerError) -> Seq<u8> {
    error_encoding(e.signature(), e.abi_params())
}

/// The encoding of a detection engine error.
pub open spec fn engine_encoding(e: EngineError) -> Seq<u8> {
    error_encoding(e.signature(), e.abi_params())
}

/// The encoding of an alert registry error.
pub open spec fn registry_encoding(e: RegistryError) -> Seq<u8> {
    error_encoding(e.signature(), e.abi_params())
}

/// Same-named errors share their selector and their whole encoding across the
/// circuit breaker, the detection engine and the alert registry, for every
/// payload: `UnauthorizedCaller` and `InvalidOwner` in all three, the role,
/// batch and interface errors wherever two of them declare them.
pub proof fn law_shared_errors_encode_identically(
    a: Address,
    role: u8,
    x: U256,
    y: U256,
    id: InterfaceId,
)
    ensures
        breaker_encoding(BreakerError::UnauthorizedCaller(a)) == engine_encoding(
            EngineError::UnauthorizedCaller(a),
        ),
        engine_encoding(EngineError::UnauthorizedCaller(a)) == registry_encoding(
            RegistryError::UnauthorizedCaller(a),
        ),
        breaker_encoding(BreakerError::InvalidOwner(a)) == engine_encoding(
            EngineError::InvalidOwner(a),
        ),
        engine_encoding(EngineError::InvalidOwner(a)) == registry_encoding(
            RegistryError::InvalidOwner(a),
        ),
        breaker_encoding(BreakerError::InsufficientRole { caller: a, required_role: role })
            == engine_encoding(EngineError::InsufficientRole { caller: a, required_role: role }),
        engine_encoding(EngineError::InsufficientRole { caller: a, required_role: role })
            == registry_encoding(RegistryError::InsufficientRole { caller: a, required_role: role }),
        breaker_encoding(BreakerError::InvalidRole(role)) == engine_encoding(
            EngineError::InvalidRole(role),
        ),
        engine_encoding(EngineError::InvalidRole(role)) == registry_encoding(
            RegistryError::InvalidRole(role),
        ),
        breaker_encoding(BreakerError::CannotRevokeOwnRole(a)) == engine_encoding(
            EngineError::CannotRevokeOwnRole(a),
        ),
        engine_encoding(EngineError::CannotRevokeOwnRole(a)) == registry_encoding(
            RegistryError::CannotRevokeOwnRole(a),
        ),
        breaker_encoding(BreakerError::BatchSizeTooLarge { size: x, max: y }) == engine_encoding(
            EngineError::BatchSizeTooLarge { size: x, max: y },
        ),
        engine_encoding(EngineError::BatchSizeTooLarge { size: x, max: y }) == registry_encoding(
            RegistryError::BatchSizeTooLarge { size: x, max: y },
        ),
        breaker_encoding(BreakerError::UnsupportedInterface(id)) == engine_encoding(
            EngineError::UnsupportedInterface(id),
        ),
        engine_encoding(EngineError::UnsupportedInterface(id)) == registry_encoding(
            RegistryError::UnsupportedInterface(id),
        ),
        engine_encoding(EngineError::InvalidAddress(a)) == registry_encoding(
            RegistryError::InvalidAddress(a),
        ),
{
}

/// The parameter bytes of a single address argument.
proof fn lemma_single_address_bytes(a: Address)
    ensures
        crate::abi::params_bytes(seq![AbiParam::Address(a)]) == zeros(12) + a.bytes@,
{
    let ps = seq![AbiParam::Address(a)];
    assert(ps.drop_last() =~= Seq::<AbiParam>::empty());
    assert(ps.last() == AbiParam::Address(a));
    assert(crate::abi::params_bytes(ps.drop_last()) == Seq::<u8>::empty());
    assert(Seq::<u8>::empty() + (zeros(12) + a.bytes@) =~= zeros(12) + a.bytes@);
}

/// An error's encoding determines its address argument: two errors with the
/// same signature and different addresses encode differently.
pub proof fn law_address_payload_recoverable(signature: Seq<char>, a: Address, b: Address)
    ensures
        error_encoding(signature, seq![AbiParam::Address(a)]) == error_encoding(
            signature,
            seq![AbiParam::Address(b)],
        ) ==> a == b,
{
    let ea = error_encoding(signature, seq![AbiParam::Address(a)]);
    let eb = error_encoding(signature, seq![AbiParam::Address(b)]);
    if ea == eb {
        let n = crate::abi::selector(signature).len();
        lemma_single_address_bytes(a);
        lemma_single_address_bytes(b);
        assert(ea.skip(n as int) =~= zeros(12) + a.bytes@);
        assert(eb.skip(n as int) =~= zeros(12) + b.bytes@);
        assert((zeros(12) + a.bytes@).skip(12) =~= a.bytes@);
        assert((zeros(12) + b.bytes@).skip(12) =~= b.bytes@);
        assert(a.bytes@ =~= b.bytes@);
        assert(a.bytes =~= b.bytes);
    }
}

} // verus!
