//! Exact decimal prices and quantities as integer units of 10^-8.
//!
//! A decimal literal is read by fpdec into a coefficient and a number of
//! fractional digits; the library then expresses that value in units of
//! 10^-8 when it is a non-negative multiple of 10^-8 that fits a `u64`.
use vstd::prelude::*;

verus! {

/// Fractional digits of one unit: a unit is 10^-8.
pub const UNIT_DIGITS: u8 = 8;

/// What fpdec reads from a decimal literal: its coefficient and its number
/// of fractional digits, or `None` when it rejects the literal.
pub uninterp spec fn decimal_literal(s: Seq<char>) -> Option<(int, int)>;

pub open spec fn pow10(n: nat) -> nat
    decreases n,
{
    if n == 0 {
        1
    } else {
        10 * pow10((n - 1) as nat)
    }
}

/// The value `c · 10^-n` in units of 10^-8, when it is a whole number of
/// units between zero and `u64::MAX`.
pub open spec fn units_of(c: int, n: int) -> Option<u64> {
    if c < 0 || n < 0 {
        None
    } else if n <= UNIT_DIGITS {
        let u = c * pow10((UNIT_DIGITS - n) as nat);
        if u <= u64::MAX {
            Some(u as u64)
        } else {
            None
        }
    } else {
        let d = pow10((n - UNIT_DIGITS) as nat) as int;
        if c % d == 0 && c / d <= u64::MAX {
            Some((c / d) as u64)
        } else {
            None
        }
    }
}

/// The units a decimal literal stands for, if any.
pub open spec fn units_of_literal(s: Seq<char>) -> Option<u64> {
    match decimal_literal(s) {
        Some((c, n)) => units_of(c, n),
        None => None,
    }
}

/// Relies on fpdec's `Decimal::from_str`, `Decimal::coefficient` and
/// `Decimal::n_frac_digits`: an accepted literal has the value
/// coefficient · 10^-n_frac_digits with at most 18 (`MAX_N_FRAC_DIGITS`)
/// fractional digits, and what is read depends on the literal alone.
#[verifier::external_body]
fn parse_decimal(s: &str) -> (r: Option<(i128, u8)>)
    ensures
        match r {
            Some((c, n)) => decimal_literal(s@) == Some((c as int, n as int)) && n <= 18,
            None => decimal_literal(s@) is None,
        },
{
    match <fpdec::Decimal as std::str::FromStr>::from_str(s) {
        Ok(d) => Some((d.coefficient(), d.n_frac_digits())),
        Err(_) => None,
    }
}

proof fn lemma_pow10_monotone(i: nat, j: nat)
    requires
        i <= j,
    ensures
        1 <= pow10(i) <= pow10(j),
    decreases j,
{
    if j > i {
        lemma_pow10_monotone(i, (j - 1) as nat);
    } else {
        lemma_pow10_positive(i);
    }
}

proof fn lemma_pow10_positive(n: nat)
    ensures
        pow10(n) >= 1,
    decreases n,
{
    if n > 0 {
        lemma_pow10_positive((n - 1) as nat);
    }
}

/// `10^k` for `k` up to 18.
fn pow10_u128(k: u8) -> (r: u128)
    requires
        k <= 18,
    ensures
        r == pow10(k as nat),
        r <= 1_000_000_000_000_000_000,
{
    proof {
        reveal_with_fuel(pow10, 19);
        lemma_pow10_monotone(k as nat, 18);
    }
    let mut r: u128 = 1;
    let mut i: u8 = 0;
    while i < k
        invariant
            i <= k <= 18,
            r == pow10(i as nat),
            pow10(k as nat) <= 1_000_000_000_000_000_000,
        decreases k - i,
    {
        proof {
            lemma_pow10_monotone((i + 1) as nat, k as nat);
        }
        r = r * 10;
        i += 1;
    }
    r
}

/// Why a literal gives no units.
#[derive(Clone, Copy, PartialEq, Eq, Structural, Debug)]
pub enum UnitsError {
    /// fpdec does not read the literal as a decimal.
    Rejected,
    /// fpdec reads it, but its value is negative, not a whole number of
    /// units of 10^-8, or above `u64::MAX` units.
    OutOfRange,
}

/// The units of a literal, or why there are none.
pub open spec fn units_result(s: Seq<char>) -> Result<u64, UnitsError> {
    match decimal_literal(s) {
        None => Err(UnitsError::Rejected),
        Some((c, n)) => match units_of(c, n) {
            Some(u) => Ok(u),
            None => Err(UnitsError::OutOfRange),
        },
    }
}

/// Reads a decimal literal into units of 10^-8.
pub fn read_units(s: &str) -> (r: Result<u64, UnitsError>)
    ensures
        r == units_result(s@),
{
    let (c, n) = match parse_decimal(s) {
        Some(x) => x,
        None => return Err(UnitsError::Rejected),
    };
    match units_from_parts(c, n) {
        Some(u) => Ok(u),
        None => Err(UnitsError::OutOfRange),
    }
}

/// Parses a decimal literal into units of 10^-8; `None` when fpdec rejects
/// it, or its value is negative, not a whole number of units, or above
/// `u64::MAX` units.
pub fn parse_units(s: &str) -> (r: Option<u64>)
    ensures
        r == units_of_literal(s@),
{
    match read_units(s) {
        Ok(u) => Some(u),
        Err(_) => None,
    }
}

/// The value `c · 10^-n` in units of 10^-8, when it is one.
fn units_from_parts(c: i128, n: u8) -> (r: Option<u64>)
    requires
        n <= 18,
    ensures
        r == units_of(c as int, n as int),
{
    if c < 0 {
        return None;
    }
    if n <= UNIT_DIGITS {
        let m = pow10_u128(UNIT_DIGITS - n);
        if c as u128 > u64::MAX as u128 {
            proof {
                lemma_pow10_monotone(0, (UNIT_DIGITS - n) as nat);
                assert((c as int) * pow10((UNIT_DIGITS - n) as nat) >= c as int) by (nonlinear_arith)
                    requires
                        c >= 0,
                        pow10((UNIT_DIGITS - n) as nat) >= 1,
                ;
            }
            return None;
        }
        proof {
            assert((c as int) * (m as int) <= 0xffff_ffff_ffff_ffffint * 1_000_000_000_000_000_000int) by (nonlinear_arith)
                requires
                    0 <= c <= 0xffff_ffff_ffff_ffffint,
                    0 <= m <= 1_000_000_000_000_000_000int,
            ;
        }
        let u = (c as u128) * m;
        if u > u64::MAX as u128 {
            None
        } else {
            Some(u as u64)
        }
    } else {
        let d = pow10_u128(n - UNIT_DIGITS);
        proof {
            lemma_pow10_monotone(0, (n - UNIT_DIGITS) as nat);
        }
        let cu = c as u128;
        if cu % d != 0 {
            return None;
        }
        let q = cu / d;
        if q > u64::MAX as u128 {
            None
        } else {
            Some(q as u64)
        }
    }
}

} // verus!
