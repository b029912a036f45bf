//! Exact decimal numbers: a plain-value representation of a decimal as an
//! integer mantissa scaled by a power of ten, together with the arithmetic
//! the interpreter needs.

use rust_decimal::Decimal;
use rust_decimal::MathematicalOps;
use vstd::prelude::*;

verus! {

/// Largest magnitude a mantissa may take: `2^96`, the capacity of the
/// backing 96-bit decimal representation.
pub const MANTISSA_LIMIT: i128 = 79228162514264337593543950336;

/// Largest number of fractional digits a decimal may carry.
pub const MAX_SCALE: u32 = 28;

/// An exact decimal number: the value `m / 10^s`.
#[derive(Clone, Copy, Debug, PartialEq, Eq, Structural)]
pub struct Dec {
    /// Signed integer mantissa.
    pub m: i128,
    /// Scale: how many decimal digits of `m` lie behind the decimal point.
    pub s: u32,
}

/// Mathematical model of a decimal: an unbounded mantissa and scale.
pub ghost struct DecV {
    pub m: int,
    pub s: int,
}

impl View for Dec {
    type V = DecV;

    open spec fn view(&self) -> DecV {
        DecV { m: self.m as int, s: self.s as int }
    }
}

/// `10^e`, for nonnegative `e`.
pub open spec fn pow10(e: int) -> int
    decreases e,
{
    if e <= 0 {
        1
    } else {
        10 * pow10(e - 1)
    }
}

impl DecV {
    /// A well-formed decimal: mantissa within the 96-bit range, scale at
    /// most `MAX_SCALE`.
    pub open spec fn wf(self) -> bool {
        &&& -MANTISSA_LIMIT < self.m < MANTISSA_LIMIT
        &&& 0 <= self.s <= MAX_SCALE
    }

    /// `self` and `other` denote the same rational number: the mantissas
    /// agree once both are scaled up to a common power of ten (cross
    /// multiplication, since `m / 10^s == m' / 10^s'` iff
    /// `m * 10^s' == m' * 10^s`).
    pub open spec fn same_value(self, other: DecV) -> bool {
        self.m * pow10(other.s) == other.m * pow10(self.s)
    }

    /// `self` denotes a strictly smaller rational than `other`.
    pub open spec fn lt_value(self, other: DecV) -> bool {
        self.m * pow10(other.s) < other.m * pow10(self.s)
    }
}

/// What `rust_decimal`'s checked addition returns on the decimals
/// `a.m / 10^a.s` and `b.m / 10^b.s`: the sum, rounded to the backing
/// precision, or `None` where even the rounded sum does not fit.
pub uninterp spec fn add_of(a: DecV, b: DecV) -> Option<DecV>;

/// What `rust_decimal`'s checked subtraction returns: `a - b`.
pub uninterp spec fn sub_of(a: DecV, b: DecV) -> Option<DecV>;

/// What `rust_decimal`'s checked multiplication returns: `a * b`.
pub uninterp spec fn mul_of(a: DecV, b: DecV) -> Option<DecV>;

/// What `rust_decimal`'s checked division returns: `a / b`, rounded to the
/// backing precision.
pub uninterp spec fn div_of(a: DecV, b: DecV) -> Option<DecV>;

/// What `rust_decimal`'s checked remainder returns: `a % b`, with the sign
/// of the dividend.
pub uninterp spec fn rem_of(a: DecV, b: DecV) -> Option<DecV>;

/// What `rust_decimal`'s checked exponentiation returns: `a` raised to the
/// (possibly fractional, possibly negative) power `b`.
pub uninterp spec fn pow_of(a: DecV, b: DecV) -> Option<DecV>;

/// What `rust_decimal`'s square root returns on the nonnegative decimal
/// `a.m / 10^a.s`.
pub uninterp spec fn sqrt_of(a: DecV) -> DecV;

/// How `rust_decimal` renders a decimal as text: sign, the digits of the
/// mantissa, and a decimal point with exactly `a.s` fractional digits.
pub uninterp spec fn text_of(a: DecV) -> Seq<char>;

/// Relies on `Decimal::checked_add`: the sum of two decimals, `None` on
/// overflow. The result is a function of the operands alone; where the
/// exact sum, aligned on the larger scale, fits the mantissa range, the
/// result denotes exactly that rational.
#[verifier::external_body]
pub fn dec_add(a: Dec, b: Dec) -> (r: Option<Dec>)
    requires
        a@.wf(),
        b@.wf(),
    ensures
        r is Some <==> add_of(a@, b@) is Some,
        r is Some ==> r->Some_0@ == add_of(a@, b@)->Some_0 && r->Some_0@.wf(),
        ({
            let s = if a@.s >= b@.s { a@.s } else { b@.s };
            let sum = a@.m * pow10(s - a@.s) + b@.m * pow10(s - b@.s);
            (-MANTISSA_LIMIT < sum < MANTISSA_LIMIT) ==> r is Some && (DecV { m: sum, s })
                .same_value(r->Some_0@)
        }),
{
    let x = Decimal::from_i128_with_scale(a.m, a.s);
    let y = Decimal::from_i128_with_scale(b.m, b.s);
    x.checked_add(y).map(|d| Dec { m: d.mantissa(), s: d.scale() })
}

/// Relies on `Decimal::checked_sub`: the difference `a - b`, `None` on
/// overflow; where the exact difference, aligned on the larger scale,
/// fits the mantissa range, the result denotes exactly that rational.
#[verifier::external_body]
pub fn dec_sub(a: Dec, b: Dec) -> (r: Option<Dec>)
    requires
        a@.wf(),
        b@.wf(),
    ensures
        r is Some <==> sub_of(a@, b@) is Some,
        r is Some ==> r->Some_0@ == sub_of(a@, b@)->Some_0 && r->Some_0@.wf(),
        ({
            let s = if a@.s >= b@.s { a@.s } else { b@.s };
            let diff = a@.m * pow10(s - a@.s) - b@.m * pow10(s - b@.s);
            (-MANTISSA_LIMIT < diff < MANTISSA_LIMIT) ==> r is Some && (DecV { m: diff, s })
                .same_value(r->Some_0@)
        }),
{
    let x = Decimal::from_i128_with_scale(a.m, a.s);
    let y = Decimal::from_i128_with_scale(b.m, b.s);
    x.checked_sub(y).map(|d| Dec { m: d.mantissa(), s: d.scale() })
}

/// Relies on `Decimal::checked_mul`: the product `a * b`, `None` on
/// overflow; where the scales' sum stays within the supported precision
/// and the mantissas' product fits the mantissa range, the result denotes
/// exactly the rational product.
#[verifier::external_body]
pub fn dec_mul(a: Dec, b: Dec) -> (r: Option<Dec>)
    requires
        a@.wf(),
        b@.wf(),
    ensures
        r is Some <==> mul_of(a@, b@) is Some,
        r is Some ==> r->Some_0@ == mul_of(a@, b@)->Some_0 && r->Some_0@.wf(),
        (a@.s + b@.s <= MAX_SCALE && -MANTISSA_LIMIT < a@.m * b@.m < MANTISSA_LIMIT) ==> r
            is Some && (DecV { m: a@.m * b@.m, s: a@.s + b@.s }).same_value(r->Some_0@),
{
    let x = Decimal::from_i128_with_scale(a.m, a.s);
    let y = Decimal::from_i128_with_scale(b.m, b.s);
    x.checked_mul(y).map(|d| Dec { m: d.mantissa(), s: d.scale() })
}

/// Relies on `Decimal::checked_div`: the quotient `a / b`, `None` on a zero
/// divisor or on overflow.
#[verifier::external_body]
pub fn dec_div(a: Dec, b: Dec) -> (r: Option<Dec>)
    requires
        a@.wf(),
        b@.wf(),
    ensures
        r is Some <==> div_of(a@, b@) is Some,
        r is Some ==> r->Some_0@ == div_of(a@, b@)->Some_0 && r->Some_0@.wf(),
        b@.m == 0 ==> r is None,
{
    let x = Decimal::from_i128_with_scale(a.m, a.s);
    let y = Decimal::from_i128_with_scale(b.m, b.s);
    x.checked_div(y).map(|d| Dec { m: d.mantissa(), s: d.scale() })
}

/// Relies on `Decimal::checked_rem`: the remainder `a % b`, `None` on a
/// zero divisor or on overflow.
#[verifier::external_body]
pub fn dec_rem(a: Dec, b: Dec) -> (r: Option<Dec>)
    requires
        a@.wf(),
        b@.wf(),
    ensures
        r is Some <==> rem_of(a@, b@) is Some,
        r is Some ==> r->Some_0@ == rem_of(a@, b@)->Some_0 && r->Some_0@.wf(),
        b@.m == 0 ==> r is None,
{
    let x = Decimal::from_i128_with_scale(a.m, a.s);
    let y = Decimal::from_i128_with_scale(b.m, b.s);
    x.checked_rem(y).map(|d| Dec { m: d.mantissa(), s: d.scale() })
}

/// Relies on `Decimal::checked_powd` (the `MathematicalOps` trait): `a`
/// raised to the power `b`, `None` where the result cannot be represented.
#[verifier::external_body]
pub fn dec_pow(a: Dec, b: Dec) -> (r: Option<Dec>)
    requires
        a@.wf(),
        b@.wf(),
    ensures
        r is Some <==> pow_of(a@, b@) is Some,
        r is Some ==> r->Some_0@ == pow_of(a@, b@)->Some_0 && r->Some_0@.wf(),
{
    let x = Decimal::from_i128_with_scale(a.m, a.s);
    let y = Decimal::from_i128_with_scale(b.m, b.s);
    x.checked_powd(y).map(|d| Dec { m: d.mantissa(), s: d.scale() })
}

/// Relies on `Decimal::sqrt` (the `MathematicalOps` trait): the square root
/// of a nonnegative decimal, to the backing precision; `None` exactly on
/// negative input.
#[verifier::external_body]
pub fn dec_sqrt(a: Dec) -> (r: Option<Dec>)
    requires
        a@.wf(),
    ensures
        r is Some <==> a@.m >= 0,
        r is Some ==> r->Some_0@ == sqrt_of(a@) && r->Some_0@.wf(),
{
    let x = Decimal::from_i128_with_scale(a.m, a.s);
    x.sqrt().map(|d| Dec { m: d.mantissa(), s: d.scale() })
}

/// Relies on `Decimal`'s `PartialEq`: two decimals are equal exactly when
/// they denote the same rational number.
#[verifier::external_body]
pub fn dec_eq(a: Dec, b: Dec) -> (r: bool)
    requires
        a@.wf(),
        b@.wf(),
    ensures
        r <==> a@.same_value(b@),
{
    let x = Decimal::from_i128_with_scale(a.m, a.s);
    let y = Decimal::from_i128_with_scale(b.m, b.s);
    x == y
}

/// Relies on `Decimal`'s `PartialOrd`: decimals are ordered as the rational
/// numbers they denote.
#[verifier::external_body]
pub fn dec_lt(a: Dec, b: Dec) -> (r: bool)
    requires
        a@.wf(),
        b@.wf(),
    ensures
        r <==> a@.lt_value(b@),
{
    let x = Decimal::from_i128_with_scale(a.m, a.s);
    let y = Decimal::from_i128_with_scale(b.m, b.s);
    x < y
}

/// Relies on `Decimal`'s `Display` (via `ToString`): the canonical text of
/// a decimal, a function of mantissa and scale alone.
#[verifier::external_body]
pub fn dec_text(a: Dec) -> (r: Vec<char>)
    requires
        a@.wf(),
    ensures
        r@ == text_of(a@),
{
    let x = Decimal::from_i128_with_scale(a.m, a.s);
    x.to_string().chars().collect()
}

} // verus!
