//! Solidity ABI encoding of custom errors: a 4-byte selector, the first bytes
//! of the keccak-256 digest of the error's signature, followed by one 32-byte
//! word per parameter.
use vstd::prelude::*;

use crate::address::{Address, InterfaceId};
use crate::word::U256;

verus! {

/// A static ABI parameter.
#[derive(Clone, Copy, Debug, PartialEq, Eq)]
pub enum AbiParam {
    Address(Address),
    Uint256(U256),
    Uint8(u8),
    Bytes4(InterfaceId),
}

/// The keccak-256 digest of the UTF-8 encoding of a text.
pub uninterp spec fn keccak256_digest(text: Seq<char>) -> Seq<u8>;

/// `n` zero bytes.
pub open spec fn zeros(n: nat) -> Seq<u8> {
    Seq::new(n, |i: int| 0u8)
}

/// The 32-byte big-endian representation of a number below 2^256.
pub open spec fn be_word(n: nat) -> Seq<u8> {
    Seq::new(
        32,
        |i: int| ((n / vstd::arithmetic::power::pow(256, (31 - i) as nat) as nat) % 256) as u8,
    )
}

/// The ABI word of a parameter: addresses and `uint8` are left-padded with
/// zeros, `uint256` is big-endian, `bytes4` is right-padded with zeros.
pub open spec fn param_word(p: AbiParam) -> Seq<u8> {
    match p {
        AbiParam::Address(a) => zeros(12) + a.bytes@,
        AbiParam::Uint256(x) => be_word(x.value()),
        AbiParam::Uint8(v) => zeros(31).push(v),
        AbiParam::Bytes4(b) => b@ + zeros(28),
    }
}

/// The words of a parameter list, in order.
pub open spec fn params_bytes(ps: Seq<AbiParam>) -> Seq<u8>
    decreases ps.len(),
{
    if ps.len() == 0 {
        Seq::empty()
    } else {
        params_bytes(ps.drop_last()) + param_word(ps.last())
    }
}

/// The selector of a signature: the first four bytes of its digest.
pub open spec fn selector(signature: Seq<char>) -> Seq<u8> {
    keccak256_digest(signature).take(4)
}

/// The encoding of an error with the given signature and parameters.
pub open spec fn error_encoding(signature: Seq<char>, ps: Seq<AbiParam>) -> Seq<u8> {
    selector(signature) + params_bytes(ps)
}

/// `alloy_primitives::keccak256` on the bytes of a text: the claim is that it
/// returns the digest named `keccak256_digest` of that text.
#[verifier::external_body]
fn keccak256_text(text: &str) -> (r: [u8; 32])
    ensures
        r@ == keccak256_digest(text@),
{
    alloy_primitives::keccak256(text.as_bytes()).0
}

/// `alloy_sol_types::SolValue::abi_encode` of an `address`: the claim is that
/// it returns 12 zero bytes followed by the 20 address bytes.
#[verifier::external_body]
fn abi_address_word(a: &Address) -> (r: Vec<u8>)
    ensures
        r@ == zeros(12) + a.bytes@,
{
    alloy_sol_types::SolValue::abi_encode(&alloy_primitives::Address::from(a.bytes))
}

/// `alloy_sol_types::SolValue::abi_encode` of a `uint256`: the claim is that
/// it returns the 32-byte big-endian representation.
#[verifier::external_body]
fn abi_uint256_word(x: &U256) -> (r: Vec<u8>)
    ensures
        r@ == be_word(x.value()),
{
    alloy_sol_types::SolValue::abi_encode(&alloy_primitives::U256::from_limbs(x.limbs))
}

/// `alloy_sol_types::SolType::abi_encode` for `uint8`: the claim is that it
/// returns 31 zero bytes followed by the value.
#[verifier::external_body]
fn abi_uint8_word(v: u8) -> (r: Vec<u8>)
    ensures
        r@ == zeros(31).push(v),
{
    <alloy_sol_types::sol_data::Uint<8> as alloy_sol_types::SolType>::abi_encode(&v)
}

/// `alloy_sol_types::SolValue::abi_encode` of a `bytes4`: the claim is that it
/// returns the 4 bytes followed by 28 zero bytes.
#[verifier::external_body]
fn abi_bytes4_word(b: &InterfaceId) -> (r: Vec<u8>)
    ensures
        r@ == b@ + zeros(28),
{
    alloy_sol_types::SolValue::abi_encode(&alloy_primitives::FixedBytes::<4>::from(*b))
}

/// The ABI word of one parameter.
pub fn encode_param(p: &AbiParam) -> (r: Vec<u8>)
    ensures
        r@ == param_word(*p),
{
    match p {
        AbiParam::Address(a) => abi_address_word(a),
        AbiParam::Uint256(x) => abi_uint256_word(x),
        AbiParam::Uint8(v) => abi_uint8_word(*v),
        AbiParam::Bytes4(b) => abi_bytes4_word(b),
    }
}

/// The selector of a signature: four bytes.
pub fn encode_selector(signature: &str) -> (r: Vec<u8>)
    ensures
        r@ == selector(signature@),
        r@.len() == 4,
{
    let digest = keccak256_text(signature);
    let mut out: Vec<u8> = Vec::new();
    let mut i: usize = 0;
    while i < 4
        invariant
            0 <= i <= 4,
            digest@.len() == 32,
            out@ == digest@.take(i as int),
        decreases 4 - i,
    {
        out.push(digest[i]);
        proof {
            assert(digest@.take(i + 1) =~= digest@.take(i as int).push(digest@[i as int]));
        }
        i = i + 1;
    }
    out
}

/// The ABI encoding of an error: its selector, then one word per parameter;
/// `4 + 32 * n` bytes for `n` parameters.
pub fn encode_error(signature: &str, params: &Vec<AbiParam>) -> (r: Vec<u8>)
    ensures
        r@ == error_encoding(signature@, params@),
        r@.len() == 4 + 32 * params@.len(),
        r@.take(4) == selector(signature@),
        r@.skip(4) == params_bytes(params@),
{
    let mut out = encode_selector(signature);
    let n = params.len();
    let mut i: usize = 0;
    while i < n
        invariant
            0 <= i <= n,
            n == params@.len(),
            out@ == selector(signature@) + params_bytes(params@.take(i as int)),
        decreases n - i,
    {
        let mut w = encode_param(&params[i]);
        let ghost before = out@;
        out.append(&mut w);
        proof {
            assert(params@.take(i + 1).drop_last() =~= params@.take(i as int));
            assert(params@.take(i + 1).last() == params@[i as int]);
            assert(out@ =~= selector(signature@) + params_bytes(params@.take(i + 1)));
        }
        i = i + 1;
    }
    proof {
        assert(params@.take(n as int) =~= params@);
        lemma_params_len(params@);
        assert(out@.take(4) =~= selector(signature@));
        assert(out@.skip(4) =~= params_bytes(params@));
    }
    out
}

/// Every parameter word is 32 bytes long.
pub proof fn lemma_param_word_len(p: AbiParam)
    ensures
        param_word(p).len() == 32,
{
}

/// A parameter list of `n` entries encodes to `32 * n` bytes.
pub proof fn lemma_params_len(ps: Seq<AbiParam>)
    ensures
        params_bytes(ps).len() == 32 * ps.len(),
    decreases ps.len(),
{
    if ps.len() > 0 {
        lemma_params_len(ps.drop_last());
        lemma_param_word_len(ps.last());
    }
}

} // verus!
