//! 256-bit unsigned words, the integer type of the EVM.
//!
//! A word is held as four little-endian 64-bit limbs, the layout that
//! `alloy_primitives::U256` uses itself; its mathematical model is the natural
//! number `value()`. Arithmetic and comparison go through `alloy_primitives`.
use vstd::prelude::*;
use vstd::std_specs::cmp::PartialEqSpecImpl;

verus! {

/// 2^64, the weight of the second limb.
pub open spec fn limb_base() -> nat {
    0x1_0000_0000_0000_0000nat
}

/// The largest value of a 256-bit word, 2^256 - 1.
pub open spec fn word_max() -> nat {
    0xffff_ffff_ffff_ffff_ffff_ffff_ffff_ffff_ffff_ffff_ffff_ffff_ffff_ffff_ffff_ffffnat
}

/// A 256-bit unsigned integer.
#[derive(Clone, Copy, Debug)]
pub struct U256 {
    /// Limbs, least significant first.
    pub limbs: [u64; 4],
}

impl U256 {
    /// The number this word stands for.
    pub open spec fn value(self) -> nat {
        self.limbs[0] as nat
            + self.limbs[1] as nat * 0x1_0000_0000_0000_0000nat
            + self.limbs[2] as nat * 0x1_0000_0000_0000_0000_0000_0000_0000_0000nat
            + self.limbs[3] as nat * 0x1_0000_0000_0000_0000_0000_0000_0000_0000_0000_0000_0000_0000nat
    }

    /// Builds a word from its limbs, least significant first.
    pub fn from_limbs(limbs: [u64; 4]) -> (r: U256)
        ensures
            r.limbs == limbs,
    {
        U256 { limbs }
    }

    /// The limbs of the word, least significant first.
    pub fn into_limbs(self) -> (r: [u64; 4])
        ensures
            r == self.limbs,
    {
        self.limbs
    }

    /// The word 0.
    pub fn zero() -> (r: U256)
        ensures
            r.value() == 0,
            r == word(0),
    {
        let r = U256 { limbs: [0u64, 0u64, 0u64, 0u64] };
        proof { lemma_word_of_value(r); }
        r
    }

    /// The word 2^256 - 1.
    pub fn max() -> (r: U256)
        ensures
            r.value() == word_max(),
            r == word(word_max()),
    {
        let m: u64 = 0xffff_ffff_ffff_ffff;
        let r = U256 { limbs: [m, m, m, m] };
        proof { lemma_word_of_value(r); }
        r
    }

    /// The word holding `x`.
    pub fn from_u64(x: u64) -> (r: U256)
        ensures
            r.value() == x,
            r == word(x as nat),
    {
        let r = U256 { limbs: [x, 0u64, 0u64, 0u64] };
        proof { lemma_word_of_value(r); }
        r
    }

    /// Whether the word is 0.
    pub fn is_zero(&self) -> (r: bool)
        ensures
            r == (self.value() == 0),
    {
        self.limbs[0] == 0 && self.limbs[1] == 0 && self.limbs[2] == 0 && self.limbs[3] == 0
    }

    /// Whether two words have the same limbs.
    pub fn same(&self, other: &U256) -> (r: bool)
        ensures
            r == (*self == *other),
    {
        let r = self.limbs[0] == other.limbs[0] && self.limbs[1] == other.limbs[1]
            && self.limbs[2] == other.limbs[2] && self.limbs[3] == other.limbs[3];
        proof {
            if r {
                assert(self.limbs =~= other.limbs);
            }
        }
        r
    }

    /// `self < other`.
    pub fn lt(&self, other: &U256) -> (r: bool)
        ensures
            r == (self.value() < other.value()),
    {
        word_lt(*self, *other)
    }

    /// `self <= other`.
    pub fn le(&self, other: &U256) -> (r: bool)
        ensures
            r == (self.value() <= other.value()),
    {
        !word_lt(*other, *self)
    }

    /// `self > other`.
    pub fn gt(&self, other: &U256) -> (r: bool)
        ensures
            r == (self.value() > other.value()),
    {
        word_lt(*other, *self)
    }

    /// `self >= other`.
    pub fn ge(&self, other: &U256) -> (r: bool)
        ensures
            r == (self.value() >= other.value()),
    {
        !word_lt(*self, *other)
    }

    /// `self + other`, capped at 2^256 - 1.
    pub fn saturating_add(&self, other: &U256) -> (r: U256)
        ensures
            r.value() == (if self.value() + other.value() > word_max() {
                word_max()
            } else {
                self.value() + other.value()
            }),
            r == word(r.value()),
    {
        let r = word_saturating_add(*self, *other);
        proof { lemma_word_of_value(r); }
        r
    }

    /// `self - other`, floored at 0.
    pub fn saturating_sub(&self, other: &U256) -> (r: U256)
        ensures
            r.value() == (if self.value() < other.value() {
                0
            } else {
                (self.value() - other.value()) as nat
            }),
            r == word(r.value()),
    {
        let r = word_saturating_sub(*self, *other);
        proof { lemma_word_of_value(r); }
        r
    }

    /// `self + other` modulo 2^256, what `+` on a word computes.
    pub fn wrapping_add(&self, other: &U256) -> (r: U256)
        ensures
            r.value() == (self.value() + other.value()) % (word_max() + 1),
            r == word(r.value()),
    {
        let r = word_wrapping_add(*self, *other);
        proof { lemma_word_of_value(r); }
        r
    }

    /// The value as a `u64`, capped at `u64::MAX`.
    pub fn saturating_to_u64(&self) -> (r: u64)
        ensures
            r == (if self.value() > u64::MAX { u64::MAX as nat } else { self.value() }),
    {
        word_saturating_to_u64(*self)
    }

    /// The value as a `usize`, or `None` where it does not fit.
    pub fn try_to_usize(&self) -> (r: Option<usize>)
        ensures
            self.value() <= usize::MAX ==> r == Some(self.value() as usize),
            self.value() > usize::MAX ==> r is None,
    {
        word_try_to_usize(*self)
    }

    /// The word holding a `usize`.
    pub fn from_usize(x: usize) -> (r: U256)
        ensures
            r.value() == x,
            r == word(x as nat),
    {
        U256::from_u64(x as u64)
    }
}

impl PartialEq for U256 {
    fn eq(&self, other: &Self) -> (r: bool) {
        self.same(other)
    }
}

impl PartialEqSpecImpl for U256 {
    open spec fn obeys_eq_spec() -> bool {
        true
    }

    open spec fn eq_spec(&self, other: &Self) -> bool {
        *self == *other
    }
}

impl Eq for U256 {
}

/// `alloy_primitives::U256::lt` (through `<`): the claim is that it compares
/// the numbers that the limbs stand for.
#[verifier::external_body]
fn word_lt(a: U256, b: U256) -> (r: bool)
    ensures
        r == (a.value() < b.value()),
{
    alloy_primitives::U256::from_limbs(a.limbs) < alloy_primitives::U256::from_limbs(b.limbs)
}

/// `alloy_primitives::U256::saturating_add`: the claim is that it returns the
/// sum, or 2^256 - 1 where the sum does not fit.
#[verifier::external_body]
fn word_saturating_add(a: U256, b: U256) -> (r: U256)
    ensures
        r.value() == (if a.value() + b.value() > word_max() {
            word_max()
        } else {
            a.value() + b.value()
        }),
{
    let s = alloy_primitives::U256::from_limbs(a.limbs).saturating_add(
        alloy_primitives::U256::from_limbs(b.limbs),
    );
    U256 { limbs: s.into_limbs() }
}

/// `alloy_primitives::U256::saturating_sub`: the claim is that it returns the
/// difference, or 0 where `b` exceeds `a`.
#[verifier::external_body]
fn word_saturating_sub(a: U256, b: U256) -> (r: U256)
    ensures
        r.value() == (if a.value() < b.value() {
            0
        } else {
            (a.value() - b.value()) as nat
        }),
{
    let s = alloy_primitives::U256::from_limbs(a.limbs).saturating_sub(
        alloy_primitives::U256::from_limbs(b.limbs),
    );
    U256 { limbs: s.into_limbs() }
}

/// `alloy_primitives::U256::wrapping_add` (what `+` calls): the claim is that
/// it returns the sum modulo 2^256.
#[verifier::external_body]
fn word_wrapping_add(a: U256, b: U256) -> (r: U256)
    ensures
        r.value() == (a.value() + b.value()) % (word_max() + 1),
{
    let s = alloy_primitives::U256::from_limbs(a.limbs).wrapping_add(
        alloy_primitives::U256::from_limbs(b.limbs),
    );
    U256 { limbs: s.into_limbs() }
}

/// `alloy_primitives::U256::saturating_to::<u64>`: the claim is that it returns
/// the value, or `u64::MAX` where the value does not fit.
#[verifier::external_body]
fn word_saturating_to_u64(a: U256) -> (r: u64)
    ensures
        r == (if a.value() > u64::MAX { u64::MAX as nat } else { a.value() }),
{
    alloy_primitives::U256::from_limbs(a.limbs).saturating_to::<u64>()
}

/// `usize::try_from(alloy_primitives::U256)`: the claim is that it succeeds
/// exactly when the value fits in a `usize`, and then returns the value.
#[verifier::external_body]
fn word_try_to_usize(a: U256) -> (r: Option<usize>)
    ensures
        a.value() <= usize::MAX ==> r == Some(a.value() as usize),
        a.value() > usize::MAX ==> r is None,
{
    usize::try_from(alloy_primitives::U256::from_limbs(a.limbs)).ok()
}

} // verus!

verus! {

/// The word whose value is `n` (for `n <= word_max()`).
pub open spec fn word(n: nat) -> U256 {
    let q1 = n / limb_base();
    let q2 = q1 / limb_base();
    U256 {
        limbs: [
            (n % limb_base()) as u64,
            (q1 % limb_base()) as u64,
            (q2 % limb_base()) as u64,
            (q2 / limb_base()) as u64,
        ],
    }
}

/// A word is determined by its value.
pub proof fn lemma_value_injective(a: U256, b: U256)
    requires
        a.value() == b.value(),
    ensures
        a == b,
{
    assert(a.limbs[3] == b.limbs[3]);
    assert(a.limbs[2] == b.limbs[2]);
    assert(a.limbs[1] == b.limbs[1]);
    assert(a.limbs[0] == b.limbs[0]);
    assert(a.limbs =~= b.limbs);
}

/// Every word is `word` of its value, and its value is at most `word_max()`.
pub proof fn lemma_word_of_value(a: U256)
    ensures
        a.value() <= word_max(),
        word(a.value()) == a,
{
    lemma_word_value(a.value());
    lemma_value_injective(word(a.value()), a);
}

/// `word(n)` has the value `n`.
pub proof fn lemma_word_value(n: nat)
    requires
        n <= word_max(),
    ensures
        word(n).value() == n,
{
    let b: int = 0x1_0000_0000_0000_0000;
    let q1: int = n as int / b;
    let q2: int = q1 / b;
    let q3: int = q2 / b;
    let r0: int = n as int % b;
    let r1: int = q1 % b;
    let r2: int = q2 % b;
    vstd::arithmetic::div_mod::lemma_fundamental_div_mod(n as int, b);
    vstd::arithmetic::div_mod::lemma_div_pos_is_pos(n as int, b);
    vstd::arithmetic::div_mod::lemma_mod_pos_bound(n as int, b);
    vstd::arithmetic::div_mod::lemma_fundamental_div_mod(q1, b);
    vstd::arithmetic::div_mod::lemma_div_pos_is_pos(q1, b);
    vstd::arithmetic::div_mod::lemma_mod_pos_bound(q1, b);
    vstd::arithmetic::div_mod::lemma_fundamental_div_mod(q2, b);
    vstd::arithmetic::div_mod::lemma_div_pos_is_pos(q2, b);
    vstd::arithmetic::div_mod::lemma_mod_pos_bound(q2, b);
    assert(q3 < b) by (nonlinear_arith)
        requires
            n as int == b * q1 + r0,
            q1 == b * q2 + r1,
            q2 == b * q3 + r2,
            0 <= r0,
            0 <= r1,
            0 <= r2,
            0 <= q3,
            n <= word_max(),
            b == 0x1_0000_0000_0000_0000int,
    ;
    let w = word(n);
    assert(w.limbs[0] as int == r0);
    assert(w.limbs[1] as int == r1);
    assert(w.limbs[2] as int == r2);
    assert(w.limbs[3] as int == q3);
}

} // verus!

verus! {

/// `a + b`, capped at 2^256 - 1.
pub open spec fn sat_add(a: nat, b: nat) -> nat {
    if a + b > word_max() {
        word_max()
    } else {
        a + b
    }
}

/// `a - b`, floored at 0.
pub open spec fn sat_sub(a: nat, b: nat) -> nat {
    if a < b {
        0
    } else {
        (a - b) as nat
    }
}

/// Saturating word arithmetic never wraps: a sum is at least either operand
/// and at most the largest word, commutative and associative; a difference is
/// at most the minuend and 0 where the subtrahend is larger; zero is neutral
/// for both, `a - a` is 0, both are monotone in the first operand, and adding
/// then subtracting `b` (or subtracting then adding it) gives back `a`
/// wherever nothing was capped.
pub proof fn law_saturating_arithmetic(a: nat, b: nat, c: nat)
    requires
        a <= word_max(),
        b <= word_max(),
        c <= word_max(),
    ensures
        a <= sat_add(a, b) <= word_max(),
        b <= sat_add(a, b),
        sat_add(a, b) == sat_add(b, a),
        sat_add(sat_add(a, b), c) == sat_add(a, sat_add(b, c)),
        sat_sub(a, b) <= a,
        a < b ==> sat_sub(a, b) == 0,
        sat_add(a, 0) == a,
        sat_sub(a, 0) == a,
        sat_sub(a, a) == 0,
        sat_add(word_max(), b) == word_max(),
        sat_sub(0, b) == 0,
        a >= c ==> sat_add(a, b) >= sat_add(c, b) && sat_sub(a, b) >= sat_sub(c, b),
        a + b <= word_max() ==> sat_sub(sat_add(a, b), b) == a,
        a >= b ==> sat_add(sat_sub(a, b), b) == a,
        a < word_max() ==> sat_sub(sat_add(a, 1), 1) == a,
{
}

} // verus!
