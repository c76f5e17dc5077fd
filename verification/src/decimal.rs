//! Exact decimal amounts.
//!
//! An amount is an integer of any size together with a scale, the number of
//! digits after the decimal point. The arithmetic is done by `bigdecimal`;
//! this module holds the plain representation and says what each operation
//! means over one common unit.

use vstd::prelude::*;
use bigdecimal::BigDecimal;
use bigdecimal::num_bigint::BigInt;

verus! {

/// The largest scale, in either direction, that an amount may carry. The
/// bound keeps the cost of bringing two amounts to one scale within reach.
pub const MAX_SCALE: i64 = 16383;

/// Ten to the power `n`.
pub open spec fn pow10(n: nat) -> nat
    decreases n,
{
    if n == 0 {
        1
    } else {
        10 * pow10((n - 1) as nat)
    }
}

/// The integer that a big-endian two's complement byte string stands for.
/// The empty string stands for zero.
pub open spec fn twos_complement(bytes: Seq<u8>) -> int
    decreases bytes.len(),
{
    if bytes.len() == 0 {
        0
    } else if bytes.len() == 1 {
        if bytes[0] < 128 {
            bytes[0] as int
        } else {
            bytes[0] - 256
        }
    } else {
        twos_complement(bytes.drop_last()) * 256 + bytes.last()
    }
}

/// A signed decimal number of arbitrary precision: `unscaled * 10^(-scale)`.
#[derive(Clone, Debug)]
pub struct Decimal {
    /// The unscaled integer, big-endian two's complement.
    pub(crate) unscaled: Vec<u8>,
    /// The number of digits after the decimal point; may be negative.
    pub(crate) scale: i64,
}

impl Decimal {
    /// The scale is within `MAX_SCALE` of zero.
    pub closed spec fn wf(&self) -> bool {
        -MAX_SCALE <= self.scale <= MAX_SCALE
    }

    /// The unscaled integer's bytes.
    pub closed spec fn spec_bytes(&self) -> Seq<u8> {
        self.unscaled@
    }

    /// The scale.
    pub closed spec fn spec_scale(&self) -> int {
        self.scale as int
    }

    /// The amount, counted in units of `10^(-MAX_SCALE)`. Every well-formed
    /// amount is a whole number of these units, so sums, differences and
    /// comparisons of amounts are those of their units.
    pub open spec fn units(&self) -> int {
        twos_complement(self.spec_bytes()) * pow10((MAX_SCALE - self.spec_scale()) as nat)
    }

    /// The amount zero.
    pub fn zero() -> (r: Decimal)
        ensures
            r.wf(),
            r.units() == 0,
            r.spec_bytes() == Seq::<u8>::empty(),
            r.spec_scale() == 0,
    {
        Decimal { unscaled: Vec::new(), scale: 0 }
    }

    /// Builds an amount from its unscaled integer, as big-endian two's
    /// complement bytes, and its scale. `None` when the scale is out of range.
    pub fn from_parts(unscaled: Vec<u8>, scale: i64) -> (r: Option<Decimal>)
        ensures
            r.is_some() <==> -MAX_SCALE <= scale <= MAX_SCALE,
            r.is_some() ==> r.unwrap().wf() && r.unwrap().spec_bytes() == unscaled@
                && r.unwrap().spec_scale() == scale,
    {
        if scale < -MAX_SCALE || scale > MAX_SCALE {
            None
        } else {
            Some(Decimal { unscaled, scale })
        }
    }

    /// The unscaled integer, as big-endian two's complement bytes.
    pub fn unscaled_bytes(&self) -> (r: Vec<u8>)
        ensures
            r@ == self.spec_bytes(),
    {
        self.unscaled.clone()
    }

    /// The number of digits after the decimal point.
    pub fn scale(&self) -> (r: i64)
        ensures
            r == self.spec_scale(),
    {
        self.scale
    }

    /// A copy of this amount.
    pub fn duplicate(&self) -> (r: Decimal)
        ensures
            r.spec_bytes() == self.spec_bytes(),
            r.spec_scale() == self.spec_scale(),
            r.wf() == self.wf(),
            r.units() == self.units(),
    {
        Decimal { unscaled: self.unscaled.clone(), scale: self.scale }
    }

    /// The sum of two amounts.
    pub fn plus(&self, other: &Decimal) -> (r: Decimal)
        requires
            self.wf(),
            other.wf(),
        ensures
            r.wf(),
            r.units() == self.units() + other.units(),
    {
        sum(self, other)
    }

    /// This amount less `other`.
    pub fn minus(&self, other: &Decimal) -> (r: Decimal)
        requires
            self.wf(),
            other.wf(),
        ensures
            r.wf(),
            r.units() == self.units() - other.units(),
    {
        difference(self, other)
    }

    /// Whether this amount is smaller than `other`.
    pub fn lt(&self, other: &Decimal) -> (r: bool)
        requires
            self.wf(),
            other.wf(),
        ensures
            r == (self.units() < other.units()),
    {
        less_than(self, other)
    }

    /// Whether this amount is below zero.
    pub fn is_negative(&self) -> (r: bool)
        requires
            self.wf(),
        ensures
            r == (self.units() < 0),
    {
        let zero = Decimal::zero();
        less_than(self, &zero)
    }

    /// Whether this amount is above zero.
    pub fn is_positive(&self) -> (r: bool)
        requires
            self.wf(),
        ensures
            r == (self.units() > 0),
    {
        let zero = Decimal::zero();
        less_than(&zero, self)
    }
}

/// `bigdecimal`'s `+` on two owned `BigDecimal` values. The sum is exact, and
/// its scale is the larger of the two scales.
#[verifier::external_body]
fn sum(a: &Decimal, b: &Decimal) -> (r: Decimal)
    requires
        a.wf(),
        b.wf(),
    ensures
        r.units() == a.units() + b.units(),
        r.spec_scale() == a.spec_scale() || r.spec_scale() == b.spec_scale(),
{
    let x = BigDecimal::new(BigInt::from_signed_bytes_be(&a.unscaled), a.scale);
    let y = BigDecimal::new(BigInt::from_signed_bytes_be(&b.unscaled), b.scale);
    let (n, scale) = (x + y).into_bigint_and_exponent();
    Decimal { unscaled: n.to_signed_bytes_be(), scale }
}

/// `bigdecimal`'s `-` on two owned `BigDecimal` values. The difference is
/// exact, and its scale is one of the two scales.
#[verifier::external_body]
fn difference(a: &Decimal, b: &Decimal) -> (r: Decimal)
    requires
        a.wf(),
        b.wf(),
    ensures
        r.units() == a.units() - b.units(),
        r.spec_scale() == a.spec_scale() || r.spec_scale() == b.spec_scale(),
{
    let x = BigDecimal::new(BigInt::from_signed_bytes_be(&a.unscaled), a.scale);
    let y = BigDecimal::new(BigInt::from_signed_bytes_be(&b.unscaled), b.scale);
    let (n, scale) = (x - y).into_bigint_and_exponent();
    Decimal { unscaled: n.to_signed_bytes_be(), scale }
}

/// `bigdecimal`'s `<` on two `BigDecimal` values, which compares them as
/// numbers, whatever their scales.
#[verifier::external_body]
fn less_than(a: &Decimal, b: &Decimal) -> (r: bool)
    requires
        a.wf(),
        b.wf(),
    ensures
        r == (a.units() < b.units()),
{
    let x = BigDecimal::new(BigInt::from_signed_bytes_be(&a.unscaled), a.scale);
    let y = BigDecimal::new(BigInt::from_signed_bytes_be(&b.unscaled), b.scale);
    x < y
}

} // verus!
