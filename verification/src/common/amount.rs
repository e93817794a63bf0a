use crate::common::text::{fixed_digits, nat_text, push_fixed_digits, push_nat};
use rust_decimal::Decimal;
use std::str::FromStr;
use vstd::prelude::*;
use vstd::string::*;

verus! {

/// Number of fractional digits an [`Amount`] keeps.
pub const FRACTION_DIGITS: u32 = 4;

/// Largest magnitude of a decimal's mantissa: `2^96 - 1`.
pub const MAX_MANTISSA: i128 = 79_228_162_514_264_337_593_543_950_335;

/// Largest scale (number of fractional digits) of a decimal.
pub const MAX_SCALE: u32 = 28;

/// `10^n`.
pub open spec fn pow10(n: nat) -> nat
    decreases n,
{
    if n == 0 {
        1
    } else {
        10 * pow10((n - 1) as nat)
    }
}

/// `n / d` rounded to the nearest integer, a tie going to the even neighbour.
pub open spec fn round_half_even(n: nat, d: nat) -> nat
    recommends
        d > 0,
{
    let q: nat = n / d;
    let r: nat = n % d;
    if 2 * r > d || (2 * r == d && q % 2 == 1) {
        q + 1
    } else {
        q
    }
}

/// The decimal `mantissa / 10^scale` rounded half-to-even to at most `dp`
/// fractional digits, as a mantissa and a scale again.
///
/// A decimal that already has no more than `dp` fractional digits is left as
/// it is, scale included; any other comes out with exactly `dp` digits.
pub open spec fn rounded_parts(mantissa: int, scale: nat, dp: nat) -> (int, nat) {
    if scale <= dp {
        (mantissa, scale)
    } else {
        let magnitude: nat = round_half_even(vstd::math::abs(mantissa), pow10((scale - dp) as nat));
        (
            if mantissa < 0 {
                -magnitude
            } else {
                magnitude as int
            },
            dp,
        )
    }
}

/// The number of ten-thousandths that the decimal `mantissa / 10^scale`
/// amounts to once it is rounded half-to-even to four fractional digits.
pub open spec fn units_of(mantissa: int, scale: nat) -> int {
    let (m, s) = rounded_parts(mantissa, scale, FRACTION_DIGITS as nat);
    if s == 0 {
        m * 10_000
    } else if s == 1 {
        m * 1_000
    } else if s == 2 {
        m * 100
    } else if s == 3 {
        m * 10
    } else {
        m
    }
}

/// What `rust_decimal` reads a text as: the mantissa and the scale of the
/// decimal, or `None` where the text is no decimal.
pub uninterp spec fn parsed_decimal(text: Seq<char>) -> Option<(i128, u32)>;

/// The error `rust_decimal` reports for a text that is no decimal.
#[verifier::external_type_specification]
#[verifier::external_body]
pub struct ExDecimalError(rust_decimal::Error);

/// Parses a decimal with `rust_decimal::Decimal::from_str` and hands out its
/// parts as `Decimal::mantissa` and `Decimal::scale` give them.
///
/// Trusted: the outcome is a function of the text alone, a decimal's mantissa
/// has at most 96 bits and its scale is at most 28.
#[verifier::external_body]
pub(crate) fn decimal_from_str(text: &str) -> (r: Result<(i128, u32), rust_decimal::Error>)
    ensures
        r matches Ok(parts) ==> parsed_decimal(text@) == Some(parts),
        r matches Ok(parts) ==> -MAX_MANTISSA <= parts.0 <= MAX_MANTISSA && parts.1 <= MAX_SCALE,
        r is Err ==> parsed_decimal(text@) is None,
{
    match Decimal::from_str(text) {
        Ok(d) => Ok((d.mantissa(), d.scale())),
        Err(e) => Err(e),
    }
}

/// Rounds the decimal `mantissa / 10^scale` with
/// `rust_decimal::Decimal::round_dp`. The decimal is made with
/// `Decimal::from_i128_with_scale`, which takes any mantissa of at most 96
/// bits with a scale of at most 28.
///
/// Trusted: `round_dp` leaves a decimal of at most `dp` fractional digits as it
/// is and rounds any other half-to-even to exactly `dp` digits.
#[verifier::external_body]
pub(crate) fn decimal_round_dp(mantissa: i128, scale: u32, dp: u32) -> (r: (i128, u32))
    requires
        -MAX_MANTISSA <= mantissa <= MAX_MANTISSA,
        scale <= MAX_SCALE,
    ensures
        r.0 == rounded_parts(mantissa as int, scale as nat, dp as nat).0,
        r.1 == rounded_parts(mantissa as int, scale as nat, dp as nat).1,
{
    let rounded = Decimal::from_i128_with_scale(mantissa, scale).round_dp(dp);
    (rounded.mantissa(), rounded.scale())
}

/// An exact amount of money in ten-thousandths of a unit.
///
/// Its view is the number of ten-thousandths as a mathematical integer.
#[derive(Debug, Clone, Copy, PartialEq, Eq, Structural)]
pub struct Amount {
    pub units: i128,
}

impl View for Amount {
    type V = int;

    open spec fn view(&self) -> int {
        self.units as int
    }
}

/// Whether `v` ten-thousandths can be held in an [`Amount`].
pub open spec fn representable(v: int) -> bool {
    i128::MIN <= v <= i128::MAX
}

/// An amount in plain decimal notation with four fractional digits: a `-`
/// if it is negative, the whole units, a point, and the ten-thousandths.
pub open spec fn amount_text(units: int) -> Seq<char> {
    let magnitude: nat = vstd::math::abs(units);
    let sign = if units < 0 {
        seq!['-']
    } else {
        Seq::<char>::empty()
    };
    sign + nat_text(magnitude / 10_000) + seq!['.'] + fixed_digits(magnitude % 10_000, 4)
}

/// Rounding never yields a larger magnitude than it was given.
pub proof fn lemma_rounded_magnitude(n: nat, d: nat)
    requires
        d >= 2,
    ensures
        round_half_even(n, d) <= n,
{
    let q: nat = n / d;
    let r: nat = n % d;
    assert(n == d * q + r) by {
        vstd::arithmetic::div_mod::lemma_fundamental_div_mod(n as int, d as int);
    }
    assert(d * q >= 2 * q) by (nonlinear_arith)
        requires
            d >= 2,
            q >= 0,
    ;
}

/// Rounding by quotient and remainder: where `n` is `q` times `d` and `r`
/// more, `n / d` rounds up to `q + 1` if `r` is more than half of `d`, or
/// just half of it with `q` odd, and down to `q` otherwise.
pub proof fn lemma_round_half_even(n: nat, d: nat, q: nat, r: nat)
    requires
        n == q * d + r,
        r < d,
    ensures
        round_half_even(n, d) == if 2 * r > d || (2 * r == d && q % 2 == 1) {
            q + 1
        } else {
            q
        },
{
    vstd::arithmetic::div_mod::lemma_fundamental_div_mod_converse(
        n as int,
        d as int,
        q as int,
        r as int,
    );
}

/// `10^n` is at least ten from the first power on.
pub proof fn lemma_pow10_at_least_ten(n: nat)
    requires
        n >= 1,
    ensures
        pow10(n) >= 10,
    decreases n,
{
    if n > 1 {
        lemma_pow10_at_least_ten((n - 1) as nat);
    } else {
        reveal_with_fuel(pow10, 2);
    }
}

impl Amount {
    /// No money at all.
    pub fn zero() -> (r: Amount)
        ensures
            r@ == 0,
    {
        Amount { units: 0 }
    }

    /// The amount that the decimal `mantissa / 10^scale` stands for: the
    /// decimal rounded half-to-even to four fractional digits.
    pub fn from_decimal(mantissa: i128, scale: u32) -> (r: Amount)
        requires
            -MAX_MANTISSA <= mantissa <= MAX_MANTISSA,
            scale <= MAX_SCALE,
        ensures
            r@ == units_of(mantissa as int, scale as nat),
    {
        let (m, s) = decimal_round_dp(mantissa, scale, FRACTION_DIGITS);
        proof {
            if scale > FRACTION_DIGITS {
                let d: nat = pow10((scale - FRACTION_DIGITS) as nat);
                lemma_pow10_at_least_ten((scale - FRACTION_DIGITS) as nat);
                lemma_rounded_magnitude(vstd::math::abs(mantissa as int), d);
            }
        }
        let factor: i128 = if s == 0 {
            10_000
        } else if s == 1 {
            1_000
        } else if s == 2 {
            100
        } else if s == 3 {
            10
        } else {
            1
        };
        assert(-MAX_MANTISSA * factor <= m * factor <= MAX_MANTISSA * factor) by (nonlinear_arith)
            requires
                -MAX_MANTISSA <= m <= MAX_MANTISSA,
                1 <= factor,
        ;
        Amount { units: m * factor }
    }

    /// The amount that the decimal `num / 10^scale` stands for.
    pub fn new(num: i64, scale: u32) -> (r: Amount)
        requires
            scale <= MAX_SCALE,
        ensures
            r@ == units_of(num as int, scale as nat),
    {
        Amount::from_decimal(num as i128, scale)
    }

    /// The amount in plain decimal notation with four fractional digits.
    pub fn to_string(&self) -> (r: String)
        ensures
            r@ == amount_text(self@),
    {
        let mut r = String::new();
        let magnitude: u128 = if self.units < 0 {
            proof {
                reveal_strlit("-");
            }
            r.append("-");
            (-(self.units + 1)) as u128 + 1
        } else {
            self.units as u128
        };
        assert(magnitude == vstd::math::abs(self@));
        push_nat(&mut r, magnitude / 10_000);
        proof {
            reveal_strlit(".");
        }
        r.append(".");
        push_fixed_digits(&mut r, magnitude % 10_000, 4);
        assert(r@ =~= amount_text(self@));
        r
    }
}

} // verus!
