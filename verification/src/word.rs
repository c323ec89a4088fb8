//! 256-bit unsigned integers.

use vstd::prelude::*;

use crate::bytes::be_value;

verus! {

/// The number of values of a 256-bit word, two to the power 256.
pub open spec fn modulus() -> nat {
    0x1_0000000000000000_0000000000000000_0000000000000000_0000000000000000nat
}

/// The number whose base 2^64 digits, least significant first, are `limbs`.
pub open spec fn limbs_value(limbs: Seq<u64>) -> nat {
    (limbs[0] + limbs[1] * 0x1_0000000000000000 + limbs[2] * 0x1_0000000000000000_0000000000000000
        + limbs[3] * 0x1_0000000000000000_0000000000000000_0000000000000000) as nat
}

/// Numbers that agree in base 2^64 agree in the last digit and in the rest.
proof fn lemma_last_digit(x: int, high_x: int, y: int, high_y: int)
    requires
        0 <= x < 0x1_0000000000000000,
        0 <= y < 0x1_0000000000000000,
        x + high_x * 0x1_0000000000000000 == y + high_y * 0x1_0000000000000000,
    ensures
        x == y,
        high_x == high_y,
{
}

/// Four limbs are determined by the number they spell.
proof fn lemma_limbs_determined(a: Seq<u64>, b: Seq<u64>)
    requires
        limbs_value(a) == limbs_value(b),
    ensures
        a[0] == b[0],
        a[1] == b[1],
        a[2] == b[2],
        a[3] == b[3],
{
    let upper_a = a[2] + a[3] * 0x1_0000000000000000;
    let upper_b = b[2] + b[3] * 0x1_0000000000000000;
    let rest_a = a[1] + upper_a * 0x1_0000000000000000;
    let rest_b = b[1] + upper_b * 0x1_0000000000000000;
    lemma_last_digit(a[0] as int, rest_a, b[0] as int, rest_b);
    lemma_last_digit(a[1] as int, upper_a, b[1] as int, upper_b);
    lemma_last_digit(a[2] as int, a[3] as int, b[2] as int, b[3] as int);
}

/// A 256-bit unsigned integer: four 64-bit limbs, least significant first.
#[derive(Clone, Copy, Debug)]
pub struct U256 {
    pub limbs: [u64; 4],
}

impl View for U256 {
    type V = nat;

    open spec fn view(&self) -> nat {
        limbs_value(self.limbs@)
    }
}

impl vstd::std_specs::cmp::PartialEqSpecImpl for U256 {
    open spec fn obeys_eq_spec() -> bool {
        true
    }

    open spec fn eq_spec(&self, other: &U256) -> bool {
        self@ == other@
    }
}

impl PartialEq for U256 {
    fn eq(&self, other: &U256) -> (equal: bool) {
        proof {
            if self@ == other@ {
                lemma_limbs_determined(self.limbs@, other.limbs@);
            }
        }
        self.limbs[0] == other.limbs[0] && self.limbs[1] == other.limbs[1] && self.limbs[2]
            == other.limbs[2] && self.limbs[3] == other.limbs[3]
    }
}

impl Eq for U256 {

}

impl U256 {
    /// The word with the given limbs, least significant first.
    pub fn from_limbs(limbs: [u64; 4]) -> (word: U256)
        ensures
            word@ == limbs_value(limbs@),
    {
        U256 { limbs }
    }

    /// The word zero.
    pub fn zero() -> (word: U256)
        ensures
            word@ == 0,
    {
        U256 { limbs: [0, 0, 0, 0] }
    }

    /// The word of a 64-bit number.
    pub fn from_u64(value: u64) -> (word: U256)
        ensures
            word@ == value,
    {
        U256 { limbs: [value, 0, 0, 0] }
    }

    /// The word of a 128-bit number.
    pub fn from_u128(value: u128) -> (word: U256)
        ensures
            word@ == value,
    {
        let low = (value % 0x1_0000000000000000) as u64;
        let high = (value / 0x1_0000000000000000) as u64;
        U256 { limbs: [low, high, 0, 0] }
    }

    /// Whether the word is zero.
    pub fn is_zero(&self) -> (zero: bool)
        ensures
            zero == (self@ == 0),
    {
        self.limbs[0] == 0 && self.limbs[1] == 0 && self.limbs[2] == 0 && self.limbs[3] == 0
    }
}

/// `alloy_primitives::U256` has its `*` from ruint's `Uint::wrapping_mul`: the
/// product is taken modulo 2^256.
#[verifier::external_body]
pub(crate) fn wrapping_product(a: U256, b: U256) -> (product: U256)
    ensures
        product@ == (a@ * b@) % modulus(),
{
    let a = alloy_primitives::U256::from_limbs(a.limbs);
    let b = alloy_primitives::U256::from_limbs(b.limbs);
    U256 { limbs: (a * b).into_limbs() }
}

/// `alloy_primitives::U256` has its `+` from ruint's `Uint::wrapping_add`: the
/// sum is taken modulo 2^256.
#[verifier::external_body]
pub(crate) fn wrapping_sum(a: U256, b: U256) -> (sum: U256)
    ensures
        sum@ == (a@ + b@) % modulus(),
{
    let a = alloy_primitives::U256::from_limbs(a.limbs);
    let b = alloy_primitives::U256::from_limbs(b.limbs);
    U256 { limbs: (a + b).into_limbs() }
}

/// `alloy_primitives::U256` has its `/` from ruint's `Uint::wrapping_div`: the
/// quotient is rounded down. It panics on a zero divisor, which is excluded.
#[verifier::external_body]
pub(crate) fn quotient(a: U256, b: U256) -> (ratio: U256)
    requires
        b@ != 0,
    ensures
        ratio@ == a@ / b@,
{
    let a = alloy_primitives::U256::from_limbs(a.limbs);
    let b = alloy_primitives::U256::from_limbs(b.limbs);
    U256 { limbs: (a / b).into_limbs() }
}

/// `Uint::saturating_sub` of `alloy_primitives::U256`: the difference, or zero
/// where it would be negative.
#[verifier::external_body]
pub(crate) fn saturating_difference(a: U256, b: U256) -> (difference: U256)
    ensures
        difference@ == if a@ >= b@ { a@ - b@ } else { 0 },
{
    let a = alloy_primitives::U256::from_limbs(a.limbs);
    let b = alloy_primitives::U256::from_limbs(b.limbs);
    U256 { limbs: a.saturating_sub(b).into_limbs() }
}

/// The `>` of `alloy_primitives::U256`, which goes by ruint's `Ord::cmp` for
/// `Uint`: it compares the two numbers.
#[verifier::external_body]
pub(crate) fn exceeds(a: U256, b: U256) -> (greater: bool)
    ensures
        greater == (a@ > b@),
{
    alloy_primitives::U256::from_limbs(a.limbs) > alloy_primitives::U256::from_limbs(b.limbs)
}

/// `Uint::from_be_slice` of `alloy_primitives::U256`: the number that the bytes
/// spell in base 256, most significant byte first. It panics on more than 32
/// bytes, which are excluded.
#[verifier::external_body]
pub(crate) fn word_from_be_slice(bytes: &[u8]) -> (word: U256)
    requires
        bytes@.len() <= 32,
    ensures
        word@ == be_value(bytes@),
{
    U256 { limbs: alloy_primitives::U256::from_be_slice(bytes).into_limbs() }
}

} // verus!
