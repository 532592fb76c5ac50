//! Exact decimal amounts, read and printed through `rust_decimal`, and money
//! in a currency.

use vstd::prelude::*;

use crate::currency::CurrencyCode;
use crate::decimal_parts::pow10;
use crate::text::{digit_char, nat_text};
use crate::error::{is_validation_of, AppError};

verus! {

/// The largest magnitude of a `rust_decimal` mantissa (96 bits).
pub const MAX_MANTISSA: i128 = 0xFFFF_FFFF_FFFF_FFFF_FFFF_FFFF;
/// The largest `rust_decimal` scale.
pub const MAX_SCALE: u32 = 28;

/// The (mantissa, scale) of the value that `rust_decimal::Decimal::from_str_exact`
/// reads from a text, or `None` when it rejects the text.
pub uninterp spec fn decimal_reading(text: Seq<char>) -> Option<(i128, u32)>;

/// `n` written with exactly `width` decimal digits, zeros in front.
pub open spec fn padded_digits(n: nat, width: nat) -> Seq<char>
    decreases width,
{
    if width == 0 {
        Seq::empty()
    } else {
        padded_digits(n / 10, (width - 1) as nat).push(digit_char((n % 10) as int))
    }
}

/// The text that `rust_decimal` prints for `mantissa × 10^-scale`: a minus
/// sign for a negative mantissa, the digits of the whole part ("0" when it
/// is zero), and for a positive scale a point followed by exactly `scale`
/// digits of the fraction.
pub open spec fn decimal_display(mantissa: i128, scale: u32) -> Seq<char> {
    let m = magnitude(mantissa as int) as int;
    let unit = pow10(scale as nat);
    let sign = if mantissa < 0 { seq!['-'] } else { Seq::<char>::empty() };
    let fraction = if scale > 0 { seq!['.'] + padded_digits((m % unit) as nat, scale as nat) } else { Seq::<char>::empty() };
    sign + nat_text((m / unit) as nat) + fraction
}

/// The (mantissa, scale) of the value `rust_decimal::Decimal::from_str`
/// reads from a text (rounding digits beyond its precision), or `None`.
pub uninterp spec fn decimal_loose_reading(text: Seq<char>) -> Option<(i128, u32)>;

/// The (mantissa, scale) of `1 / value` as `rust_decimal` computes it, or
/// `None` when it cannot.
pub uninterp spec fn decimal_reciprocal(mantissa: i128, scale: u32) -> Option<(i128, u32)>;

/// The (mantissa, scale) of `a * b` as `rust_decimal::Decimal::checked_mul`
/// computes it (rounding digits beyond its precision), or `None` on overflow.
pub uninterp spec fn decimal_checked_product(a_mantissa: i128, a_scale: u32, b_mantissa: i128, b_scale: u32) -> Option<(i128, u32)>;

/// The (mantissa, scale) of `a / b` as `rust_decimal::Decimal::checked_div`
/// computes it, or `None` for a zero divisor and on overflow.
pub uninterp spec fn decimal_checked_quotient(a_mantissa: i128, a_scale: u32, b_mantissa: i128, b_scale: u32) -> Option<(i128, u32)>;

/// The (mantissa, scale) of `a + b` as `rust_decimal::Decimal::checked_add`
/// computes it (rescaling, and rounding digits beyond its precision), or
/// `None` on overflow.
pub uninterp spec fn decimal_checked_sum(a_mantissa: i128, a_scale: u32, b_mantissa: i128, b_scale: u32) -> Option<(i128, u32)>;

/// A mantissa and scale that `rust_decimal` can hold.
pub open spec fn in_decimal_range(mantissa: int, scale: int) -> bool {
    -MAX_MANTISSA <= mantissa <= MAX_MANTISSA && 0 <= scale <= MAX_SCALE
}

/// `rust_decimal::Decimal::from_str_exact(text)`, taken apart into its
/// mantissa and scale, which the crate keeps within 96 bits and 28 digits.
#[verifier::external_body]
fn read_decimal(text: &str) -> (parts: Option<(i128, u32)>)
    ensures
        parts == decimal_reading(text@),
        parts matches Some(p) ==> in_decimal_range(p.0 as int, p.1 as int),
{
    match ::rust_decimal::Decimal::from_str_exact(text) {
        Ok(value) => Some((value.mantissa(), value.scale())),
        Err(_) => None,
    }
}

/// `rust_decimal::Decimal::from_i128_with_scale(mantissa, scale).to_string()`;
/// the constructor panics outside the crate's range, which `requires` leaves out.
/// `Display` prints every digit of the mantissa with exactly `scale` digits
/// after the point, so `Decimal::from_str_exact` reads the text back to the
/// same mantissa and scale.
#[verifier::external_body]
fn display_decimal(mantissa: i128, scale: u32) -> (text: String)
    requires
        in_decimal_range(mantissa as int, scale as int),
    ensures
        text@ == decimal_display(mantissa, scale),
        decimal_reading(text@) == Some((mantissa, scale)),
{
    ::rust_decimal::Decimal::from_i128_with_scale(mantissa, scale).to_string()
}

/// `text.parse::<rust_decimal::Decimal>()` taken apart into its mantissa
/// and scale.
#[verifier::external_body]
fn read_decimal_loosely(text: &str) -> (parts: Option<(i128, u32)>)
    ensures
        parts == decimal_loose_reading(text@),
        parts matches Some(p) ==> in_decimal_range(p.0 as int, p.1 as int),
{
    match text.parse::<::rust_decimal::Decimal>() {
        Ok(value) => Some((value.mantissa(), value.scale())),
        Err(_) => None,
    }
}

/// `Decimal::ONE.checked_div(value)`, which is `None` for a zero divisor
/// and on overflow.
#[verifier::external_body]
fn reciprocal_parts(mantissa: i128, scale: u32) -> (inverse: Option<(i128, u32)>)
    requires
        in_decimal_range(mantissa as int, scale as int),
    ensures
        inverse == decimal_reciprocal(mantissa, scale),
        mantissa == 0 ==> inverse is None,
        inverse matches Some(p) ==> in_decimal_range(p.0 as int, p.1 as int),
{
    ::rust_decimal::Decimal::ONE
        .checked_div(::rust_decimal::Decimal::from_i128_with_scale(mantissa, scale))
        .map(|value| (value.mantissa(), value.scale()))
}

/// `Decimal::checked_mul` on two values given by mantissa and scale.
#[verifier::external_body]
fn product_parts(a_mantissa: i128, a_scale: u32, b_mantissa: i128, b_scale: u32) -> (product: Option<(i128, u32)>)
    requires
        in_decimal_range(a_mantissa as int, a_scale as int),
        in_decimal_range(b_mantissa as int, b_scale as int),
    ensures
        product == decimal_checked_product(a_mantissa, a_scale, b_mantissa, b_scale),
        product matches Some(p) ==> in_decimal_range(p.0 as int, p.1 as int),
{
    ::rust_decimal::Decimal::from_i128_with_scale(a_mantissa, a_scale)
        .checked_mul(::rust_decimal::Decimal::from_i128_with_scale(b_mantissa, b_scale))
        .map(|value| (value.mantissa(), value.scale()))
}

/// `Decimal::checked_div` on two values given by mantissa and scale; the
/// crate answers `None` for a zero divisor.
#[verifier::external_body]
fn quotient_parts(a_mantissa: i128, a_scale: u32, b_mantissa: i128, b_scale: u32) -> (quotient: Option<(i128, u32)>)
    requires
        in_decimal_range(a_mantissa as int, a_scale as int),
        in_decimal_range(b_mantissa as int, b_scale as int),
    ensures
        quotient == decimal_checked_quotient(a_mantissa, a_scale, b_mantissa, b_scale),
        b_mantissa == 0 ==> quotient is None,
        quotient matches Some(p) ==> in_decimal_range(p.0 as int, p.1 as int),
{
    ::rust_decimal::Decimal::from_i128_with_scale(a_mantissa, a_scale)
        .checked_div(::rust_decimal::Decimal::from_i128_with_scale(b_mantissa, b_scale))
        .map(|value| (value.mantissa(), value.scale()))
}

/// The magnitude of an integer.
pub open spec fn magnitude(value: int) -> nat {
    if value < 0 { (-value) as nat } else { value as nat }
}

/// Drops trailing zero digits of a magnitude while the scale allows it.
pub open spec fn strip_trailing_zeros(digits: nat, scale: nat) -> (nat, nat)
    decreases scale,
{
    if scale > 0 && digits % 10 == 0 {
        strip_trailing_zeros(digits / 10, (scale - 1) as nat)
    } else {
        (digits, scale)
    }
}

/// The same value with the fewest digits after the point (what
/// `rust_decimal::Decimal::normalize` gives).
pub open spec fn normalized(mantissa: int, scale: nat) -> (int, nat) {
    let stripped = strip_trailing_zeros(magnitude(mantissa), scale);
    (if mantissa < 0 { -stripped.0 } else { stripped.0 as int }, stripped.1)
}

/// The normalised value as a mantissa and scale.
pub open spec fn normalized_value(value: (i128, u32)) -> (i128, u32) {
    let n = normalized(value.0 as int, value.1 as nat);
    (n.0 as i128, n.1 as u32)
}

/// The canonical text of a value: its normalised form as `rust_decimal` prints it.
pub open spec fn canonical_text(value: (i128, u32)) -> Seq<char> {
    let n = normalized(value.0 as int, value.1 as nat);
    decimal_display(n.0 as i128, n.1 as u32)
}

/// `Decimal::checked_add` on two values given by mantissa and scale.
#[verifier::external_body]
fn sum_parts(a_mantissa: i128, a_scale: u32, b_mantissa: i128, b_scale: u32) -> (sum: Option<(i128, u32)>)
    requires
        in_decimal_range(a_mantissa as int, a_scale as int),
        in_decimal_range(b_mantissa as int, b_scale as int),
    ensures
        sum == decimal_checked_sum(a_mantissa, a_scale, b_mantissa, b_scale),
        sum matches Some(p) ==> in_decimal_range(p.0 as int, p.1 as int),
{
    ::rust_decimal::Decimal::from_i128_with_scale(a_mantissa, a_scale)
        .checked_add(::rust_decimal::Decimal::from_i128_with_scale(b_mantissa, b_scale))
        .map(|value| (value.mantissa(), value.scale()))
}

proof fn lemma_strip_bounds(digits: nat, scale: nat)
    ensures
        strip_trailing_zeros(digits, scale).0 <= digits,
        strip_trailing_zeros(digits, scale).1 <= scale,
    decreases scale,
{
    if scale > 0 && digits % 10 == 0 {
        lemma_strip_bounds(digits / 10, (scale - 1) as nat);
    }
}

/// An exact decimal number.
#[derive(Debug, Clone, Copy)]
pub struct DecimalValue {
    mantissa: i128,
    scale: u32,
}

impl View for DecimalValue {
    type V = (i128, u32);

    closed spec fn view(&self) -> (i128, u32) {
        (self.mantissa, self.scale)
    }
}

impl DecimalValue {
    #[verifier::type_invariant]
    spec fn fits(self) -> bool {
        in_decimal_range(self.mantissa as int, self.scale as int)
    }

    /// Reads a decimal text.
    pub fn parse(text: &str) -> (value: Option<DecimalValue>)
        ensures
            match value {
                Some(v) => decimal_reading(text@) == Some(v@),
                None => decimal_reading(text@) is None,
            },
    {
        match read_decimal(text) {
            Some(parts) => Some(DecimalValue { mantissa: parts.0, scale: parts.1 }),
            None => None,
        }
    }

    /// Reads a decimal text, rounding digits beyond the precision.
    pub fn parse_loosely(text: &str) -> (value: Option<DecimalValue>)
        ensures
            match value {
                Some(v) => decimal_loose_reading(text@) == Some(v@),
                None => decimal_loose_reading(text@) is None,
            },
    {
        match read_decimal_loosely(text) {
            Some(parts) => Some(DecimalValue { mantissa: parts.0, scale: parts.1 }),
            None => None,
        }
    }

    /// One divided by this value; `None` for zero and on overflow.
    pub fn reciprocal(&self) -> (inverse: Option<DecimalValue>)
        ensures
            match inverse {
                Some(v) => decimal_reciprocal(self@.0, self@.1) == Some(v@),
                None => decimal_reciprocal(self@.0, self@.1) is None,
            },
            self@.0 == 0 ==> inverse is None,
    {
        proof {
            use_type_invariant(self);
        }
        match reciprocal_parts(self.mantissa, self.scale) {
            Some(parts) => Some(DecimalValue { mantissa: parts.0, scale: parts.1 }),
            None => None,
        }
    }

    /// The value `mantissa × 10^-scale`, for a mantissa and scale that
    /// `rust_decimal` can hold.
    pub fn from_parts(mantissa: i128, scale: u32) -> (value: DecimalValue)
        requires
            in_decimal_range(mantissa as int, scale as int),
        ensures
            value@ == (mantissa, scale),
    {
        DecimalValue { mantissa, scale }
    }

    /// The mantissa and scale.
    pub fn parts(&self) -> (parts: (i128, u32))
        ensures
            parts == self@,
            in_decimal_range(parts.0 as int, parts.1 as int),
    {
        proof {
            use_type_invariant(self);
        }
        (self.mantissa, self.scale)
    }

    /// This value times another; `None` on overflow.
    pub fn checked_mul(&self, other: &DecimalValue) -> (product: Option<DecimalValue>)
        ensures
            match product {
                Some(v) => decimal_checked_product(self@.0, self@.1, other@.0, other@.1) == Some(v@),
                None => decimal_checked_product(self@.0, self@.1, other@.0, other@.1) is None,
            },
    {
        proof {
            use_type_invariant(self);
            use_type_invariant(other);
        }
        match product_parts(self.mantissa, self.scale, other.mantissa, other.scale) {
            Some(parts) => Some(DecimalValue { mantissa: parts.0, scale: parts.1 }),
            None => None,
        }
    }

    /// This value plus another; `None` on overflow.
    pub fn checked_add(&self, other: &DecimalValue) -> (sum: Option<DecimalValue>)
        ensures
            match sum {
                Some(v) => decimal_checked_sum(self@.0, self@.1, other@.0, other@.1) == Some(v@),
                None => decimal_checked_sum(self@.0, self@.1, other@.0, other@.1) is None,
            },
    {
        proof {
            use_type_invariant(self);
            use_type_invariant(other);
        }
        match sum_parts(self.mantissa, self.scale, other.mantissa, other.scale) {
            Some(parts) => Some(DecimalValue { mantissa: parts.0, scale: parts.1 }),
            None => None,
        }
    }

    /// The value with its sign flipped; the range is symmetric, so it is exact.
    pub fn negated(&self) -> (negative: DecimalValue)
        ensures
            negative@.0 == -self@.0,
            negative@.1 == self@.1,
    {
        proof {
            use_type_invariant(self);
        }
        DecimalValue { mantissa: 0 - self.mantissa, scale: self.scale }
    }

    /// Zero, at scale zero.
    pub fn zero() -> (value: DecimalValue)
        ensures
            value@ == (0i128, 0u32),
    {
        DecimalValue { mantissa: 0, scale: 0 }
    }

    /// This value divided by another; `None` for a zero divisor and on overflow.
    pub fn checked_div(&self, other: &DecimalValue) -> (quotient: Option<DecimalValue>)
        ensures
            match quotient {
                Some(v) => decimal_checked_quotient(self@.0, self@.1, other@.0, other@.1) == Some(v@),
                None => decimal_checked_quotient(self@.0, self@.1, other@.0, other@.1) is None,
            },
            other@.0 == 0 ==> quotient is None,
    {
        proof {
            use_type_invariant(self);
            use_type_invariant(other);
        }
        match quotient_parts(self.mantissa, self.scale, other.mantissa, other.scale) {
            Some(parts) => Some(DecimalValue { mantissa: parts.0, scale: parts.1 }),
            None => None,
        }
    }

    /// Below zero.
    pub fn is_negative(&self) -> (r: bool)
        ensures
            r == (self@.0 < 0),
    {
        self.mantissa < 0
    }

    /// Exactly zero.
    pub fn is_zero(&self) -> (r: bool)
        ensures
            r == (self@.0 == 0),
    {
        self.mantissa == 0
    }

    /// The canonical text: trailing zeros after the point dropped.
    pub fn canonical(&self) -> (text: String)
        ensures
            text@ == canonical_text(self@),
            decimal_reading(text@) == Some(normalized_value(self@)),
    {
        proof {
            use_type_invariant(self);
        }
        let negative = self.mantissa < 0;
        let mut digits: u128 = if negative { (0 - self.mantissa) as u128 } else { self.mantissa as u128 };
        let mut scale: u32 = self.scale;
        let ghost start = (magnitude(self.mantissa as int), self.scale as nat);
        while scale > 0 && digits % 10 == 0
            invariant
                strip_trailing_zeros(digits as nat, scale as nat) == strip_trailing_zeros(start.0, start.1),
                digits <= start.0,
                scale <= start.1,
                start.0 <= MAX_MANTISSA,
                start.1 <= MAX_SCALE,
            decreases scale,
        {
            digits = digits / 10;
            scale = scale - 1;
        }
        let mantissa: i128 = if negative { 0 - (digits as i128) } else { digits as i128 };
        display_decimal(mantissa, scale)
    }
}

/// An amount of money in a currency.
#[derive(Debug, Clone, Copy)]
pub struct Money {
    pub amount: DecimalValue,
    pub currency: CurrencyCode,
}

impl Money {
    /// Reads an amount in a currency.
    pub fn parse(amount: &str, currency: CurrencyCode) -> (money: Result<Money, AppError>)
        ensures
            match money {
                Ok(m) => decimal_reading(amount@) == Some(m.amount@) && m.currency == currency,
                Err(e) => decimal_reading(amount@) is None && is_validation_of(e, "amount"@),
            },
    {
        match DecimalValue::parse(amount) {
            Some(value) => Ok(Money { amount: value, currency }),
            None => Err(AppError::validation("amount", "The amount must be a decimal number.")),
        }
    }

    /// The amount's canonical text.
    pub fn canonical_amount(&self) -> (text: String)
        ensures
            text@ == canonical_text(self.amount@),
            decimal_reading(text@) == Some(normalized_value(self.amount@)),
    {
        self.amount.canonical()
    }
}

/// An amount as the interface shows it.
#[derive(Debug, Clone)]
pub struct MoneyDto {
    pub amount: String,
    pub currency: String,
}

/// Trailing zeros after the point do not change a value's canonical form:
/// `m × 10^-s` and `10m × 10^-(s+1)` normalise alike.
pub proof fn law_trailing_zeros_do_not_matter(mantissa: int, scale: nat)
    ensures
        normalized(mantissa * 10, scale + 1) == normalized(mantissa, scale),
{
    assert(magnitude(mantissa * 10) == magnitude(mantissa) * 10);
    assert((magnitude(mantissa) * 10) % 10 == 0);
    assert((magnitude(mantissa) * 10) / 10 == magnitude(mantissa));
    assert(strip_trailing_zeros(magnitude(mantissa) * 10, scale + 1)
        == strip_trailing_zeros(magnitude(mantissa), scale));
    lemma_strip_keeps_zero(magnitude(mantissa), scale);
}

/// Stripping keeps a zero magnitude zero and a positive one positive.
proof fn lemma_strip_keeps_zero(digits: nat, scale: nat)
    ensures
        (strip_trailing_zeros(digits, scale).0 == 0) == (digits == 0),
    decreases scale,
{
    if scale > 0 && digits % 10 == 0 {
        lemma_strip_keeps_zero(digits / 10, (scale - 1) as nat);
    }
}

/// A normalised value normalises to itself and prints as the value does.
pub proof fn lemma_normalized_value_is_fixed(value: (i128, u32))
    ensures
        normalized_value(normalized_value(value)) == normalized_value(value),
        canonical_text(normalized_value(value)) == canonical_text(value),
{
    let n = normalized(value.0 as int, value.1 as nat);
    lemma_strip_bounds(magnitude(value.0 as int), value.1 as nat);
    assert(-0x8000_0000_0000_0000_0000_0000_0000_0000 <= n.0 <= 0x7fff_ffff_ffff_ffff_ffff_ffff_ffff_ffff);
    assert((n.0 as i128) as int == n.0);
    assert((n.1 as u32) as nat == n.1);
    law_normalizing_is_idempotent(value.0 as int, value.1 as nat);
}

/// Normalising twice is normalising once.
pub proof fn law_normalizing_is_idempotent(mantissa: int, scale: nat)
    ensures
        normalized(normalized(mantissa, scale).0, normalized(mantissa, scale).1) == normalized(mantissa, scale),
{
    let stripped = strip_trailing_zeros(magnitude(mantissa), scale);
    lemma_strip_is_fixed(magnitude(mantissa), scale);
    lemma_strip_keeps_zero(magnitude(mantissa), scale);
}

/// A stripped magnitude has nothing more to strip.
proof fn lemma_strip_is_fixed(digits: nat, scale: nat)
    ensures
        strip_trailing_zeros(strip_trailing_zeros(digits, scale).0, strip_trailing_zeros(digits, scale).1)
            == strip_trailing_zeros(digits, scale),
    decreases scale,
{
    if scale > 0 && digits % 10 == 0 {
        lemma_strip_is_fixed(digits / 10, (scale - 1) as nat);
    }
}

} // verus!
