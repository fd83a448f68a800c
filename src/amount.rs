//! Exact decimal amounts, held as a mantissa and a scale, with arithmetic
//! delegated to `rust_decimal`.

use rust_decimal::Decimal;
use vstd::prelude::*;

verus! {

/// The largest mantissa a decimal can hold: 2^96 - 1.
pub const MAX_MANTISSA: i128 = 0xFFFF_FFFF_FFFF_FFFF_FFFF_FFFF;

/// The largest number of digits after the decimal point.
pub const MAX_SCALE: u32 = 28;

/// `10^n`.
pub open spec fn pow10(n: nat) -> int
    decreases n,
{
    if n == 0 {
        1
    } else {
        10 * pow10((n - 1) as nat)
    }
}

/// A signed decimal number `mantissa * 10^(-scale)`.
#[derive(Clone, Copy, Debug)]
pub struct Amount {
    pub mantissa: i128,
    pub scale: u32,
}

impl Amount {
    /// The ranges a decimal number can take.
    pub open spec fn wf(self) -> bool {
        &&& self.scale <= MAX_SCALE
        &&& -MAX_MANTISSA <= self.mantissa <= MAX_MANTISSA
    }

    /// The exact value, counted in units of `10^-28`.
    pub open spec fn value(self) -> int {
        self.mantissa * pow10((MAX_SCALE - self.scale) as nat)
    }

    /// The amount `mantissa * 10^(-scale)`, if a decimal can hold it.
    pub fn new(mantissa: i128, scale: u32) -> (r: Option<Amount>)
        ensures
            r == (if scale <= MAX_SCALE && -MAX_MANTISSA <= mantissa <= MAX_MANTISSA {
                Some(Amount { mantissa, scale })
            } else {
                None
            }),
    {
        if scale <= MAX_SCALE && -MAX_MANTISSA <= mantissa && mantissa <= MAX_MANTISSA {
            Some(Amount { mantissa, scale })
        } else {
            None
        }
    }

    /// Zero, with no digits after the point.
    pub fn zero() -> (r: Amount)
        ensures
            r == zero_amount(),
            r.wf(),
            r.value() == 0,
    {
        Amount { mantissa: 0, scale: 0 }
    }
}

pub open spec fn zero_amount() -> Amount {
    Amount { mantissa: 0, scale: 0 }
}

/// `v` is a value that a decimal of scale `scale` can hold.
pub open spec fn fits_at(v: int, scale: u32) -> bool {
    let unit = pow10((MAX_SCALE - scale) as nat);
    -(MAX_MANTISSA as int) * unit <= v <= (MAX_MANTISSA as int) * unit
}

/// Both operands and the exact result `va + vb` fit at the larger of the two
/// scales, so no digit has to be dropped.
pub open spec fn exact_at_common_scale(a: Amount, b: Amount, vb: int) -> bool {
    let s = if a.scale >= b.scale { a.scale } else { b.scale };
    &&& fits_at(a.value(), s)
    &&& fits_at(vb, s)
    &&& fits_at(a.value() + vb, s)
}

/// What `Decimal::checked_add` returns on the two amounts.
pub uninterp spec fn decimal_sum(a: Amount, b: Amount) -> Option<Amount>;

/// What `Decimal::checked_sub` returns on the two amounts.
pub uninterp spec fn decimal_difference(a: Amount, b: Amount) -> Option<Amount>;

/// Relies on `Decimal::checked_add`: `None` only on overflow, any result is
/// a decimal in range, where the exact sum fits at the common scale of the
/// operands the sum is exact, and a sum of two non-negative decimals, rounded
/// or not, is non-negative.
#[verifier::external_body]
pub(crate) fn checked_sum(a: Amount, b: Amount) -> (r: Option<Amount>)
    requires
        a.wf(),
        b.wf(),
    ensures
        r == decimal_sum(a, b),
        r matches Some(c) ==> c.wf(),
        exact_at_common_scale(a, b, b.value()) ==> r is Some && r->0.value() == a.value()
            + b.value(),
        r is Some && a.value() >= 0 && b.value() >= 0 ==> r->0.value() >= 0,
{
    let x = Decimal::from_i128_with_scale(a.mantissa, a.scale);
    let y = Decimal::from_i128_with_scale(b.mantissa, b.scale);
    x.checked_add(y).map(|d| Amount { mantissa: d.mantissa(), scale: d.scale() })
}

/// Relies on `Decimal::checked_sub`: `None` only on overflow, any result is
/// a decimal in range, and where the exact difference fits at the common
/// scale of the operands the difference is exact.
#[verifier::external_body]
pub(crate) fn checked_difference(a: Amount, b: Amount) -> (r: Option<Amount>)
    requires
        a.wf(),
        b.wf(),
    ensures
        r == decimal_difference(a, b),
        r matches Some(c) ==> c.wf(),
        exact_at_common_scale(a, b, -b.value()) ==> r is Some && r->0.value() == a.value()
            - b.value(),
{
    let x = Decimal::from_i128_with_scale(a.mantissa, a.scale);
    let y = Decimal::from_i128_with_scale(b.mantissa, b.scale);
    x.checked_sub(y).map(|d| Amount { mantissa: d.mantissa(), scale: d.scale() })
}

/// Relies on `Decimal`'s `Ord`: decimals are ordered by their exact value.
#[verifier::external_body]
pub(crate) fn less_than(a: Amount, b: Amount) -> (r: bool)
    requires
        a.wf(),
        b.wf(),
    ensures
        r == (a.value() < b.value()),
{
    Decimal::from_i128_with_scale(a.mantissa, a.scale) < Decimal::from_i128_with_scale(
        b.mantissa,
        b.scale,
    )
}

} // verus!
