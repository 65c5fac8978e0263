//! Arbitrary-precision register values and register indexes.
//!
//! A [`RegisterValue`] wraps a `num_bigint::BigInt`. The verifier cannot look
//! inside that type, so every fact about it enters through the small trusted
//! functions of this module, each stated over the integer the value holds.

use crate::text::{decimal_string, decimal_text};
use num_bigint::BigInt;
use vstd::arithmetic::power2::{lemma2_to64, lemma_pow2_pos, lemma_pow2_unfold, pow2};
use vstd::prelude::*;
use vstd::string::StringExecFns;

verus! {

/// Makes `num_bigint::BigInt` known to the verifier as an opaque type.
#[verifier::external_type_specification]
#[verifier::external_body]
pub struct ExBigInt(BigInt);

/// The mathematical integer that a `BigInt` holds.
pub uninterp spec fn bigint_value(v: BigInt) -> int;

/// Operands whose bit length reaches this ceiling are outside the domain of
/// the arithmetic instructions.
pub const BIT_LENGTH_CEILING: u64 = 32;

/// Absolute value of an integer.
pub open spec fn magnitude(v: int) -> nat {
    if v < 0 {
        (-v) as nat
    } else {
        v as nat
    }
}

/// The fewest binary digits that can express `n`; zero needs none.
pub open spec fn bit_length(n: nat) -> nat
    decreases n,
{
    if n == 0 {
        0
    } else {
        1 + bit_length(n / 2)
    }
}

/// True when the magnitude of `v` stays below the bit-length ceiling.
pub open spec fn magnitude_in_range(v: int) -> bool {
    bit_length(magnitude(v)) < BIT_LENGTH_CEILING
}

/// Quotient of `a` by `b` rounded toward zero: the quotient of the magnitudes,
/// negative when exactly one operand is negative. Zero when `b` is zero.
pub open spec fn truncated_quotient(a: int, b: int) -> int {
    if b == 0 {
        0
    } else if (a < 0) == (b < 0) {
        (magnitude(a) / magnitude(b)) as int
    } else {
        -((magnitude(a) / magnitude(b)) as int)
    }
}

/// How a register is written in program text: a dollar sign and the decimal
/// index.
pub open spec fn index_text(index: RegisterIndex) -> Seq<char> {
    seq!['$'] + decimal_text(index.0 as int)
}

/// A natural number has at most `k` binary digits exactly when it is below
/// two to the `k`.
pub proof fn lemma_bit_length_bound(n: nat, k: nat)
    ensures
        bit_length(n) <= k <==> n < pow2(k),
    decreases k,
{
    if k == 0 {
        lemma2_to64();
    } else {
        lemma_pow2_unfold(k);
        lemma_pow2_pos(k);
        if n != 0 {
            lemma_bit_length_bound(n / 2, (k - 1) as nat);
            assert(n / 2 < pow2((k - 1) as nat) <==> n < 2 * pow2((k - 1) as nat));
        }
    }
}

/// The values inside the arithmetic domain are exactly those strictly between
/// minus and plus two to the thirty-first.
pub proof fn lemma_magnitude_in_range(v: int)
    ensures
        magnitude_in_range(v) <==> -0x8000_0000 < v < 0x8000_0000,
{
    lemma_bit_length_bound(magnitude(v), 31);
    lemma2_to64();
}

/// Calls `BigInt::from` on an `i64`: the result holds exactly `n`.
#[verifier::external_body]
fn bigint_from_i64(n: i64) -> (r: BigInt)
    ensures
        bigint_value(r) == n,
{
    BigInt::from(n)
}

/// Calls `BigInt::from` on a `u64`: the result holds exactly `n`.
#[verifier::external_body]
fn bigint_from_u64(n: u64) -> (r: BigInt)
    ensures
        bigint_value(r) == n,
{
    BigInt::from(n)
}

/// Calls `BigInt::bits`: the fewest bits that express the magnitude, the sign
/// not counted.
#[verifier::external_body]
fn bigint_bits(v: &BigInt) -> (r: u64)
    ensures
        r == bit_length(magnitude(bigint_value(*v))),
{
    v.bits()
}

/// Calls `num_traits::Zero::is_zero` of `BigInt`: true exactly for zero.
#[verifier::external_body]
fn bigint_is_zero(v: &BigInt) -> (r: bool)
    ensures
        r == (bigint_value(*v) == 0),
{
    num_traits::Zero::is_zero(v)
}

/// Calls `PartialEq::eq` of `BigInt`: true exactly when both hold the same
/// integer.
#[verifier::external_body]
fn bigint_eq(a: &BigInt, b: &BigInt) -> (r: bool)
    ensures
        r == (bigint_value(*a) == bigint_value(*b)),
{
    a == b
}

/// Calls `PartialOrd::lt` of `BigInt`: true exactly when the first holds the
/// smaller integer.
#[verifier::external_body]
fn bigint_lt(a: &BigInt, b: &BigInt) -> (r: bool)
    ensures
        r == (bigint_value(*a) < bigint_value(*b)),
{
    a < b
}

/// Calls `Div::div` on two `&BigInt`, which panics on a zero divisor: the
/// result is the quotient rounded toward zero.
#[verifier::external_body]
fn bigint_div(a: &BigInt, b: &BigInt) -> (r: BigInt)
    requires
        bigint_value(*b) != 0,
    ensures
        bigint_value(r) == truncated_quotient(bigint_value(*a), bigint_value(*b)),
{
    a / b
}

/// Calls `Add::add` on two `&BigInt`: the result is the sum.
#[verifier::external_body]
fn bigint_add(a: &BigInt, b: &BigInt) -> (r: BigInt)
    ensures
        bigint_value(r) == bigint_value(*a) + bigint_value(*b),
{
    a + b
}

/// Calls `Sub::sub` on two `&BigInt`: the result is the difference.
#[verifier::external_body]
fn bigint_sub(a: &BigInt, b: &BigInt) -> (r: BigInt)
    ensures
        bigint_value(r) == bigint_value(*a) - bigint_value(*b),
{
    a - b
}

/// Calls `Mul::mul` on two `&BigInt`: the result is the product.
#[verifier::external_body]
fn bigint_mul(a: &BigInt, b: &BigInt) -> (r: BigInt)
    ensures
        bigint_value(r) == bigint_value(*a) * bigint_value(*b),
{
    a * b
}

/// Calls `Clone::clone` of `BigInt`: the copy holds the same integer.
#[verifier::external_body]
fn bigint_clone(v: &BigInt) -> (r: BigInt)
    ensures
        bigint_value(r) == bigint_value(*v),
{
    v.clone()
}

/// Calls `ToString::to_string` of `BigInt`, which goes through its `Display`
/// impl: decimal digits of the magnitude behind a minus sign for negative
/// values.
#[verifier::external_body]
fn bigint_to_string(v: &BigInt) -> (r: String)
    ensures
        r@ == decimal_text(bigint_value(*v)),
{
    v.to_string()
}

/// Identifies one register slot.
#[derive(Clone, Copy, Debug, PartialEq, Eq, Structural, Hash)]
pub struct RegisterIndex(pub u8);

impl RegisterIndex {
    /// The register as written in program text.
    pub fn to_string(&self) -> (r: String)
        ensures
            r@ == index_text(*self),
    {
        let mut text = String::from_str("$");
        let digits = decimal_string(self.0 as u64);
        text.append(digits.as_str());
        proof {
            reveal_strlit("$");
            assert("$"@ =~= seq!['$']);
        }
        text
    }
}

/// An arbitrary-precision signed integer held by a register.
#[derive(Debug)]
pub struct RegisterValue(pub BigInt);

impl View for RegisterValue {
    type V = int;

    open spec fn view(&self) -> int {
        bigint_value(self.0)
    }
}

impl DeepView for RegisterValue {
    type V = int;

    open spec fn deep_view(&self) -> int {
        self@
    }
}

impl Clone for RegisterValue {
    fn clone(&self) -> (r: Self)
        ensures
            r@ == self@,
    {
        RegisterValue(bigint_clone(&self.0))
    }
}

impl RegisterValue {
    /// The value zero.
    pub fn zero() -> (r: Self)
        ensures
            r@ == 0,
    {
        RegisterValue(bigint_from_i64(0))
    }

    /// The value `n`.
    pub fn from_i64(n: i64) -> (r: Self)
        ensures
            r@ == n,
    {
        RegisterValue(bigint_from_i64(n))
    }

    /// The value `n`.
    pub fn from_u64(n: u64) -> (r: Self)
        ensures
            r@ == n,
    {
        RegisterValue(bigint_from_u64(n))
    }

    /// Tells whether the value is zero.
    pub fn is_zero(&self) -> (r: bool)
        ensures
            r == (self@ == 0),
    {
        bigint_is_zero(&self.0)
    }

    /// Number of bits of the magnitude.
    pub fn bits(&self) -> (r: u64)
        ensures
            r == bit_length(magnitude(self@)),
    {
        bigint_bits(&self.0)
    }

    /// Tells whether the magnitude stays below the bit-length ceiling.
    pub fn is_in_range(&self) -> (r: bool)
        ensures
            r == magnitude_in_range(self@),
            r == (-0x8000_0000 < self@ < 0x8000_0000),
    {
        proof {
            lemma_magnitude_in_range(self@);
        }
        self.bits() < BIT_LENGTH_CEILING
    }

    /// Tells whether two values hold the same integer.
    pub fn equals(&self, other: &RegisterValue) -> (r: bool)
        ensures
            r == (self@ == other@),
    {
        bigint_eq(&self.0, &other.0)
    }

    /// Tells whether this value is smaller than `other`.
    pub fn less_than(&self, other: &RegisterValue) -> (r: bool)
        ensures
            r == (self@ < other@),
    {
        bigint_lt(&self.0, &other.0)
    }

    /// Quotient by a non-zero value, rounded toward zero.
    pub fn divide(&self, other: &RegisterValue) -> (r: RegisterValue)
        requires
            other@ != 0,
        ensures
            r@ == truncated_quotient(self@, other@),
    {
        RegisterValue(bigint_div(&self.0, &other.0))
    }

    /// Sum of two values.
    pub fn plus(&self, other: &RegisterValue) -> (r: RegisterValue)
        ensures
            r@ == self@ + other@,
    {
        RegisterValue(bigint_add(&self.0, &other.0))
    }

    /// Difference of two values.
    pub fn minus(&self, other: &RegisterValue) -> (r: RegisterValue)
        ensures
            r@ == self@ - other@,
    {
        RegisterValue(bigint_sub(&self.0, &other.0))
    }

    /// Product of two values.
    pub fn times(&self, other: &RegisterValue) -> (r: RegisterValue)
        ensures
            r@ == self@ * other@,
    {
        RegisterValue(bigint_mul(&self.0, &other.0))
    }

    /// Decimal text of the value.
    pub fn to_string(&self) -> (r: String)
        ensures
            r@ == decimal_text(self@),
    {
        bigint_to_string(&self.0)
    }
}

/// The integers held by a sequence of register values, in order.
pub open spec fn term_values(s: Seq<RegisterValue>) -> Seq<int> {
    Seq::new(s.len(), |i: int| s[i]@)
}

/// Tells whether two vectors hold the same integers in the same order.
pub fn same_values(a: &Vec<RegisterValue>, b: &Vec<RegisterValue>) -> (r: bool)
    ensures
        r == (term_values(a@) == term_values(b@)),
{
    if a.len() != b.len() {
        assert(term_values(a@).len() != term_values(b@).len());
        return false;
    }
    let mut i: usize = 0;
    while i < a.len()
        invariant
            a.len() == b.len(),
            i <= a.len(),
            forall|k: int| 0 <= k < i ==> a@[k]@ == b@[k]@,
        decreases a.len() - i,
    {
        if !a[i].equals(&b[i]) {
            assert(term_values(a@)[i as int] != term_values(b@)[i as int]);
            return false;
        }
        i += 1;
    }
    assert(term_values(a@) =~= term_values(b@));
    true
}

/// Copies a vector of register values, keeping every integer.
pub fn clone_values(a: &Vec<RegisterValue>) -> (r: Vec<RegisterValue>)
    ensures
        term_values(r@) == term_values(a@),
{
    let mut r: Vec<RegisterValue> = Vec::new();
    let mut i: usize = 0;
    while i < a.len()
        invariant
            i <= a.len(),
            r.len() == i,
            forall|k: int| 0 <= k < i ==> r@[k]@ == a@[k]@,
        decreases a.len() - i,
    {
        r.push(a[i].clone());
        i += 1;
    }
    assert(term_values(r@) =~= term_values(a@));
    r
}

} // verus!
