//! Fixed-point money amounts with four fractional digits.
use rust_decimal::{Decimal, RoundingStrategy};
use vstd::prelude::*;

verus! {

/// Number of fractional decimal digits that an amount keeps.
pub const FRACTION_DIGITS: u32 = 4;

/// Largest magnitude of a decimal mantissa (96 bits).
pub const MAX_MANTISSA: i128 = 79228162514264337593543950335;

/// Largest scale of a decimal.
pub const MAX_SCALE: u32 = 28;

pub open spec fn pow10(n: nat) -> int
    decreases n,
{
    if n == 0 {
        1
    } else {
        10 * pow10((n - 1) as nat)
    }
}

/// Integer division whose quotient is rounded toward zero.
pub open spec fn div_toward_zero(a: int, d: int) -> int {
    if a >= 0 {
        a / d
    } else {
        -((-a) / d)
    }
}

/// The amount, in ten-thousandths, that a decimal `mantissa * 10^-scale`
/// becomes once cut toward zero to four fractional digits.
pub open spec fn truncated_units(mantissa: int, scale: nat) -> int {
    if scale <= FRACTION_DIGITS {
        mantissa * pow10((FRACTION_DIGITS - scale) as nat)
    } else {
        div_toward_zero(mantissa, pow10((scale - FRACTION_DIGITS) as nat))
    }
}

pub proof fn lemma_pow10_positive(n: nat)
    ensures
        pow10(n) >= 1,
    decreases n,
{
    if n > 0 {
        lemma_pow10_positive((n - 1) as nat);
    }
}

/// A decimal as it arrives from outside: `mantissa * 10^-scale`, with a
/// mantissa of at most 96 bits and a scale of at most 28.
#[derive(Clone, Copy, Debug, PartialEq, Eq)]
pub struct DecimalParts {
    mantissa: i128,
    scale: u32,
}

impl DecimalParts {
    pub closed spec fn spec_mantissa(self) -> int {
        self.mantissa as int
    }

    pub closed spec fn spec_scale(self) -> nat {
        self.scale as nat
    }

    #[verifier::type_invariant]
    spec fn in_decimal_range(self) -> bool {
        &&& self.scale <= MAX_SCALE
        &&& -MAX_MANTISSA <= self.mantissa <= MAX_MANTISSA
    }

    /// The decimal `mantissa * 10^-scale`; `None` where the mantissa needs
    /// more than 96 bits or the scale passes 28.
    pub fn new(mantissa: i128, scale: u32) -> (r: Option<DecimalParts>)
        ensures
            r is Some <==> (scale <= MAX_SCALE && -MAX_MANTISSA <= mantissa <= MAX_MANTISSA),
            r matches Some(d) ==> d.spec_mantissa() == mantissa && d.spec_scale() == scale,
    {
        if scale <= MAX_SCALE && -MAX_MANTISSA <= mantissa && mantissa <= MAX_MANTISSA {
            Some(DecimalParts { mantissa, scale })
        } else {
            None
        }
    }

    pub fn mantissa(&self) -> (r: i128)
        ensures
            r == self.spec_mantissa(),
    {
        self.mantissa
    }

    pub fn scale(&self) -> (r: u32)
        ensures
            r == self.spec_scale(),
    {
        self.scale
    }
}

/// A money amount, counted in ten-thousandths.
#[derive(Clone, Copy, Debug, PartialEq, Eq, Structural)]
pub struct Amount {
    pub units: i128,
}

/// Relies on rust_decimal's `Decimal::from_i128_with_scale`, which panics
/// when the scale passes 28 or the mantissa needs more than 96 bits, and on
/// `Decimal::round_dp_with_strategy` with `RoundingStrategy::ToZero`: a value
/// with at most `dp` fractional digits comes back as it was; a longer one
/// keeps its sign, has its magnitude divided by `10^(scale - dp)` with the
/// remainder dropped, and gets scale `dp`.
#[verifier::external_body]
fn round_toward_zero(mantissa: i128, scale: u32, dp: u32) -> (r: (i128, u32))
    requires
        scale <= MAX_SCALE,
        -MAX_MANTISSA <= mantissa <= MAX_MANTISSA,
    ensures
        scale <= dp ==> r == (mantissa, scale),
        scale > dp ==> r.1 == dp && r.0 == div_toward_zero(
            mantissa as int,
            pow10((scale - dp) as nat),
        ),
{
    let d = Decimal::from_i128_with_scale(mantissa, scale);
    let t = d.round_dp_with_strategy(dp, RoundingStrategy::ToZero);
    (t.mantissa(), t.scale())
}

/// `10^n` for a small `n`.
fn pow10_small(n: u32) -> (r: i128)
    requires
        n <= FRACTION_DIGITS,
    ensures
        r == pow10(n as nat),
        1 <= r <= 10000,
{
    proof {
        reveal_with_fuel(pow10, 5);
    }
    if n == 0 {
        1
    } else if n == 1 {
        10
    } else if n == 2 {
        100
    } else if n == 3 {
        1000
    } else {
        10000
    }
}

impl Amount {
    pub open spec fn value(self) -> int {
        self.units as int
    }

    /// The amount zero.
    pub fn zero() -> (r: Amount)
        ensures
            r.units == 0,
    {
        Amount { units: 0 }
    }

    /// The amount `mantissa * 10^-scale`, for a scale of at most four digits.
    pub fn new(mantissa: i64, scale: u32) -> (r: Amount)
        requires
            scale <= FRACTION_DIGITS,
        ensures
            r.units == mantissa * pow10((FRACTION_DIGITS - scale) as nat),
    {
        let f = pow10_small(FRACTION_DIGITS - scale);
        let m = mantissa as i128;
        proof {
            assert(-0x8000_0000_0000_0000 <= m < 0x8000_0000_0000_0000);
            assert(-0x8000_0000_0000_0000 * 10000 <= m * f <= 0x8000_0000_0000_0000 * 10000)
                by (nonlinear_arith)
                requires
                    -0x8000_0000_0000_0000 <= m < 0x8000_0000_0000_0000,
                    1 <= f <= 10000,
            ;
        }
        Amount { units: m * f }
    }

    /// The amount that a decimal becomes when it is cut toward zero to four
    /// fractional digits.
    pub fn from_decimal(d: DecimalParts) -> (r: Amount)
        ensures
            r.units == truncated_units(d.spec_mantissa(), d.spec_scale()),
    {
        proof {
            use_type_invariant(&d);
        }
        let (m, s) = round_toward_zero(d.mantissa, d.scale, FRACTION_DIGITS);
        proof {
            if d.scale > FRACTION_DIGITS {
                let p = pow10((d.scale - FRACTION_DIGITS) as nat);
                lemma_pow10_positive((d.scale - FRACTION_DIGITS) as nat);
                let a = d.mantissa as int;
                if a >= 0 {
                    assert(0 <= a / p <= a) by (nonlinear_arith)
                        requires
                            a >= 0,
                            p >= 1,
                    ;
                } else {
                    assert(0 <= (-a) / p <= -a) by (nonlinear_arith)
                        requires
                            -a > 0,
                            p >= 1,
                    ;
                }
            }
        }
        let f = pow10_small(FRACTION_DIGITS - s);
        proof {
            assert(-MAX_MANTISSA * 10000 <= m * f <= MAX_MANTISSA * 10000) by (nonlinear_arith)
                requires
                    -MAX_MANTISSA <= m <= MAX_MANTISSA,
                    1 <= f <= 10000,
            ;
        }
        Amount { units: m * f }
    }
}

} // verus!
