//! Arbitrary-precision natural numbers, stored as base 2^32 digits with the
//! least significant digit first. Arithmetic, comparison and decimal
//! rendering are delegated to `num_bigint::BigUint`.
use num_bigint::BigUint;
use vstd::arithmetic::power2::{lemma2_to64, lemma_pow2_adds, pow2};
use vstd::prelude::*;

verus! {

/// The value of a little-endian sequence of base 2^32 digits.
pub open spec fn digits_value(d: Seq<u32>) -> nat
    decreases d.len(),
{
    if d.len() == 0 {
        0
    } else {
        d[0] as nat + 4294967296 * digits_value(d.drop_first())
    }
}

/// The value of a big-endian sequence of bytes.
pub open spec fn be_bytes_value(b: Seq<u8>) -> nat
    decreases b.len(),
{
    if b.len() == 0 {
        0
    } else {
        be_bytes_value(b.drop_last()) * 256 + b.last() as nat
    }
}

/// A big-endian number of `n` bytes is below 2^(8n).
pub proof fn lemma_be_bytes_value_bound(b: Seq<u8>)
    ensures
        be_bytes_value(b) < pow2(8 * b.len()),
    decreases b.len(),
{
    if b.len() == 0 {
        lemma2_to64();
    } else {
        let rest = b.drop_last();
        lemma_be_bytes_value_bound(rest);
        lemma2_to64();
        lemma_pow2_adds(8 * rest.len(), 8);
        assert(8 * rest.len() + 8 == 8 * b.len());
        let x = be_bytes_value(rest);
        let p = pow2(8 * rest.len());
        let l = b.last() as nat;
        assert(x * 256 + l < p * 256) by (nonlinear_arith)
            requires
                x < p,
                l < 256,
        ;
    }
}

/// The character of a decimal digit.
pub open spec fn digit_char(d: nat) -> char {
    if d == 0 { '0' }
    else if d == 1 { '1' }
    else if d == 2 { '2' }
    else if d == 3 { '3' }
    else if d == 4 { '4' }
    else if d == 5 { '5' }
    else if d == 6 { '6' }
    else if d == 7 { '7' }
    else if d == 8 { '8' }
    else { '9' }
}

/// Decimal notation of `n`: no sign, no leading zeros, "0" for zero.
pub open spec fn decimal_text(n: nat) -> Seq<char>
    decreases n,
{
    if n < 10 {
        seq![digit_char(n)]
    } else {
        decimal_text(n / 10).push(digit_char(n % 10))
    }
}

/// The largest value a target may take: 2^256 - 2.
pub open spec fn max_target() -> nat {
    (4294967296 * 4294967296 * 4294967296 * 4294967296 * 4294967296 * 4294967296 * 4294967296
        * 4294967296 - 2) as nat
}

/// A natural number of any size.
#[derive(Debug, Clone)]
pub struct BigNat {
    digits: Vec<u32>,
}

impl BigNat {
    pub closed spec fn value(&self) -> nat {
        digits_value(self.digits@)
    }

    /// The number `n`.
    pub fn from_u64(n: u64) -> (r: BigNat)
        ensures
            r.value() == n,
    {
        let lo = (n % 4294967296) as u32;
        let hi = (n / 4294967296) as u32;
        let r = BigNat { digits: vec![lo, hi] };
        proof {
            let d = r.digits@;
            assert(d.drop_first().drop_first() =~= Seq::<u32>::empty());
            assert(d.drop_first()[0] == hi);
            assert(digits_value(d.drop_first()) == hi as nat) by {
                reveal_with_fuel(digits_value, 2);
            }
        }
        r
    }

    /// 2^256 - 2, the numerator of every target.
    pub fn max_target() -> (r: BigNat)
        ensures
            r.value() == max_target(),
    {
        let r = BigNat {
            digits: vec![
                4294967294u32,
                4294967295u32,
                4294967295u32,
                4294967295u32,
                4294967295u32,
                4294967295u32,
                4294967295u32,
                4294967295u32,
            ],
        };
        proof {
            let d = r.digits@;
            assert(d =~= seq![
                4294967294u32,
                4294967295u32,
                4294967295u32,
                4294967295u32,
                4294967295u32,
                4294967295u32,
                4294967295u32,
                4294967295u32,
            ]);
            assert(digits_value(
                seq![
                    4294967294u32,
                    4294967295u32,
                    4294967295u32,
                    4294967295u32,
                    4294967295u32,
                    4294967295u32,
                    4294967295u32,
                    4294967295u32,
                ],
            ) == max_target()) by {
                reveal_with_fuel(digits_value, 9);
            }
        }
        r
    }

    /// The decimal notation of this number.
    pub fn to_decimal_string(&self) -> (r: String)
        ensures
            r@ == decimal_text(self.value()),
    {
        big_decimal(self)
    }

    /// A copy of this number.
    pub fn duplicate(&self) -> (r: BigNat)
        ensures
            r.value() == self.value(),
    {
        let d = self.digits.clone();
        assert(d@ =~= self.digits@);
        BigNat { digits: d }
    }
}

} // verus!

verus! {

/// Relies on `Add` for `BigUint`: the exact sum of the two values.
#[verifier::external_body]
pub(crate) fn big_add(a: &BigNat, b: &BigNat) -> (r: BigNat)
    ensures
        r.value() == a.value() + b.value(),
{
    let sum = BigUint::from_slice(&a.digits) + BigUint::from_slice(&b.digits);
    BigNat { digits: sum.to_u32_digits() }
}

/// Relies on `Div` for `BigUint`: the quotient rounded down; it panics on a
/// zero divisor, which `requires` rules out.
#[verifier::external_body]
pub(crate) fn big_div(a: &BigNat, b: &BigNat) -> (r: BigNat)
    requires
        b.value() > 0,
    ensures
        r.value() == a.value() / b.value(),
{
    let quotient = BigUint::from_slice(&a.digits) / BigUint::from_slice(&b.digits);
    BigNat { digits: quotient.to_u32_digits() }
}

/// Relies on `PartialOrd` for `BigUint`: `<=` compares the values.
#[verifier::external_body]
pub(crate) fn big_le(a: &BigNat, b: &BigNat) -> (r: bool)
    ensures
        r == (a.value() <= b.value()),
{
    BigUint::from_slice(&a.digits) <= BigUint::from_slice(&b.digits)
}

/// Relies on `PartialEq` for `BigUint`: `==` compares the values.
#[verifier::external_body]
pub(crate) fn big_eq(a: &BigNat, b: &BigNat) -> (r: bool)
    ensures
        r == (a.value() == b.value()),
{
    BigUint::from_slice(&a.digits) == BigUint::from_slice(&b.digits)
}

/// Relies on `Display` for `BigUint` (`to_str_radix(10)`): plain decimal
/// digits without sign or leading zeros.
#[verifier::external_body]
pub(crate) fn big_decimal(a: &BigNat) -> (r: String)
    ensures
        r@ == decimal_text(a.value()),
{
    BigUint::from_slice(&a.digits).to_string()
}

/// Relies on `BigUint::from_bytes_be`: the bytes read as a big-endian number.
#[verifier::external_body]
pub(crate) fn big_from_bytes_be(bytes: &Vec<u8>) -> (r: BigNat)
    ensures
        r.value() == be_bytes_value(bytes@),
{
    BigNat { digits: BigUint::from_bytes_be(bytes).to_u32_digits() }
}

} // verus!
