//! Fixed-point monetary amounts: a signed 64-bit integer scaled by 10,000,
//! giving four implied fractional digits. All arithmetic on amounts
//! saturates at the representable bounds instead of overflowing.

use rust_decimal::prelude::ToPrimitive;
use vstd::prelude::*;
use vstd::string::StringExecFns;

verus! {

/// Scale factor for fixed-point arithmetic (4 decimal places).
pub const SCALE: i64 = 10_000;

/// Input amounts arrive as arbitrary-precision decimals of the
/// `rust_decimal` crate; the engine reads them only through the two
/// trusted functions below.
#[verifier::external_type_specification]
#[verifier::external_body]
pub struct ExDecimal(rust_decimal::Decimal);

/// Whether a decimal is strictly positive. The comparison is a pure
/// function of the decimal value alone.
pub uninterp spec fn decimal_pos(d: rust_decimal::Decimal) -> bool;

/// The fixed-point value of a decimal: the decimal times 10,000,
/// truncated toward zero, or zero where that does not fit in `i64`.
pub uninterp spec fn fixed_of(d: rust_decimal::Decimal) -> i64;

/// Relies on `rust_decimal`'s `PartialOrd` for `Decimal`: a total order on
/// decimal values, so `d > 0` is a function of `d` alone.
#[verifier::external_body]
pub fn decimal_is_positive(d: &rust_decimal::Decimal) -> (r: bool)
    ensures
        r == decimal_pos(*d),
{
    *d > rust_decimal::Decimal::ZERO
}

/// Convert a decimal to a fixed-point `i64`: multiply by 10,000 and
/// truncate toward zero; any value that does not fit the `i64` range maps
/// to zero. Relies on `rust_decimal`'s `checked_mul` (exact product, or
/// `None` past the 96-bit mantissa), `trunc` (truncation toward zero, no
/// rounding) and `ToPrimitive::to_i64` (`None` outside the `i64` range);
/// all three are functions of the value alone, and a strictly positive
/// decimal can only map to a non-negative integer.
#[verifier::external_body]
pub fn to_fixed(d: rust_decimal::Decimal) -> (r: i64)
    ensures
        r == fixed_of(d),
        decimal_pos(d) ==> r >= 0,
{
    d.checked_mul(rust_decimal::Decimal::from(SCALE))
        .and_then(|scaled| scaled.trunc().to_i64())
        .unwrap_or(0)
}

/// Saturating addition on the mathematical integers, clamped to `i64` range.
pub open spec fn spec_sat_add(a: int, b: int) -> int {
    if a + b > i64::MAX {
        i64::MAX as int
    } else if a + b < i64::MIN {
        i64::MIN as int
    } else {
        a + b
    }
}

/// Saturating subtraction on the mathematical integers, clamped to `i64` range.
pub open spec fn spec_sat_sub(a: int, b: int) -> int {
    if a - b > i64::MAX {
        i64::MAX as int
    } else if a - b < i64::MIN {
        i64::MIN as int
    } else {
        a - b
    }
}

/// `a + b`, clamped to the `i64` range.
pub fn sat_add(a: i64, b: i64) -> (r: i64)
    ensures
        r as int == spec_sat_add(a as int, b as int),
{
    let wide: i128 = a as i128 + b as i128;
    if wide > i64::MAX as i128 {
        i64::MAX
    } else if wide < i64::MIN as i128 {
        i64::MIN
    } else {
        wide as i64
    }
}

/// `a - b`, clamped to the `i64` range.
pub fn sat_sub(a: i64, b: i64) -> (r: i64)
    ensures
        r as int == spec_sat_sub(a as int, b as int),
{
    let wide: i128 = a as i128 - b as i128;
    if wide > i64::MAX as i128 {
        i64::MAX
    } else if wide < i64::MIN as i128 {
        i64::MIN
    } else {
        wide as i64
    }
}

/// The character for one decimal digit.
pub open spec fn spec_digit_char(d: int) -> char {
    if d == 0 {
        '0'
    } else if d == 1 {
        '1'
    } else if d == 2 {
        '2'
    } else if d == 3 {
        '3'
    } else if d == 4 {
        '4'
    } else if d == 5 {
        '5'
    } else if d == 6 {
        '6'
    } else if d == 7 {
        '7'
    } else if d == 8 {
        '8'
    } else {
        '9'
    }
}

/// The decimal digits of `n`, most significant first, with no leading
/// zeros (a single `'0'` for zero itself).
pub open spec fn spec_digits(n: nat) -> Seq<char>
    decreases n,
{
    if n < 10 {
        seq![spec_digit_char(n as int)]
    } else {
        spec_digits(n / 10).push(spec_digit_char((n % 10) as int))
    }
}

/// Exactly four digits for the fractional part `f` (meaningful for
/// `f < 10_000`), zero-padded on the left.
pub open spec fn spec_frac4(f: nat) -> Seq<char> {
    seq![
        spec_digit_char((f / 1000) as int),
        spec_digit_char((f / 100 % 10) as int),
        spec_digit_char((f / 10 % 10) as int),
        spec_digit_char((f % 10) as int),
    ]
}

/// The magnitude of `v` as a natural number.
pub open spec fn spec_magnitude(v: int) -> nat {
    if v < 0 {
        (-v) as nat
    } else {
        v as nat
    }
}

/// The rendering of a fixed-point value: an optional minus sign, the whole
/// part without leading zeros, a dot, and exactly four fractional digits.
pub open spec fn spec_format_fixed(v: int) -> Seq<char> {
    let mag = spec_magnitude(v);
    let sign: Seq<char> = if v < 0 {
        seq!['-']
    } else {
        Seq::empty()
    };
    sign + spec_digits(mag / 10000) + seq!['.'] + spec_frac4(mag % 10000)
}

/// The one-character string for a decimal digit.
fn digit_str(d: u64) -> (r: &'static str)
    requires
        d < 10,
    ensures
        r@ =~= seq![spec_digit_char(d as int)],
{
    proof {
        reveal_strlit("0");
        reveal_strlit("1");
        reveal_strlit("2");
        reveal_strlit("3");
        reveal_strlit("4");
        reveal_strlit("5");
        reveal_strlit("6");
        reveal_strlit("7");
        reveal_strlit("8");
        reveal_strlit("9");
    }
    if d == 0 {
        "0"
    } else if d == 1 {
        "1"
    } else if d == 2 {
        "2"
    } else if d == 3 {
        "3"
    } else if d == 4 {
        "4"
    } else if d == 5 {
        "5"
    } else if d == 6 {
        "6"
    } else if d == 7 {
        "7"
    } else if d == 8 {
        "8"
    } else {
        "9"
    }
}

/// Append the decimal digits of `n` to `s`, most significant first.
fn push_digits(n: u64, s: &mut String)
    ensures
        final(s)@ == old(s)@ + spec_digits(n as nat),
    decreases n,
{
    if n >= 10 {
        push_digits(n / 10, s);
    }
    let d = digit_str(n % 10);
    s.append(d);
    proof {
        assert(s@ =~= old(s)@ + spec_digits(n as nat));
    }
}

/// Render a fixed-point value as `[-]whole.ffff` with exactly four
/// fractional digits. The most negative representable value is handled by
/// taking its magnitude in a 64-bit unsigned integer.
pub fn format_fixed(value: i64) -> (r: String)
    ensures
        r@ == spec_format_fixed(value as int),
{
    let mut s = String::new();
    if value < 0 {
        s.append("-");
    }
    let mag: u64 = if value >= 0 {
        value as u64
    } else {
        (-(value as i128)) as u64
    };
    assert(mag as nat == spec_magnitude(value as int));
    push_digits(mag / 10000, &mut s);
    s.append(".");
    let frac = mag % 10000;
    s.append(digit_str(frac / 1000));
    s.append(digit_str(frac / 100 % 10));
    s.append(digit_str(frac / 10 % 10));
    s.append(digit_str(frac % 10));
    proof {
        reveal_strlit("-");
        reveal_strlit(".");
        assert(s@ =~= spec_format_fixed(value as int));
    }
    s
}

} // verus!
