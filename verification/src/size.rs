//! Byte counts in words: so many GiB or MiB, to one decimal place.

use vstd::arithmetic::power2;
use vstd::prelude::*;

use crate::text;

verus! {

/// The bytes in one MiB.
pub const MIB: u64 = 0x10_0000;

/// The bytes in one GiB.
pub const GIB: u64 = 0x4000_0000;

/// The integers from here on are not all 64-bit floating-point numbers.
pub const FLOAT_EXACT: u64 = 0x20_0000_0000_0000;

/// `n / d` rounded to the nearest integer, a tie to the even one.
pub open spec fn rounded_quotient(n: int, d: int) -> int {
    let q = n / d;
    let twice = 2 * (n % d);
    if twice < d || (twice == d && q % 2 == 0) {
        q
    } else {
        q + 1
    }
}

/// The distance between neighbouring 64-bit floating-point numbers about `n`,
/// as far as it is a whole number.
pub open spec fn float_spacing(n: nat) -> nat
    decreases n,
{
    if n < FLOAT_EXACT {
        1
    } else {
        2 * float_spacing(n / 2)
    }
}

/// The 64-bit floating-point number nearest to `n`.
pub open spec fn nearest_float(n: nat) -> int {
    rounded_quotient(n as int, float_spacing(n) as int) * float_spacing(n)
}

/// `n` bytes in tenths of a unit, to the nearest.
pub open spec fn tenths(n: nat, unit: int) -> int {
    rounded_quotient(10 * nearest_float(n), unit)
}

/// `n` bytes in units, to one decimal place.
pub open spec fn in_units(n: nat, unit: int) -> Seq<char> {
    text::decimal((tenths(n, unit) / 10) as nat) + "."@ + text::decimal(
        (tenths(n, unit) % 10) as nat,
    )
}

/// `n` bytes in units, to one decimal place, with a minus sign where `n` is
/// negative.
pub open spec fn signed_in_units(n: int, unit: int) -> Seq<char> {
    if n < 0 {
        "-"@ + in_units((-n) as nat, unit)
    } else {
        in_units(n as nat, unit)
    }
}

/// `n / d` rounded to the nearest integer, a tie to the even one.
fn round_quotient(n: u128, d: u128) -> (r: u128)
    requires
        0 < d <= 0x1_0000_0000_0000_0000,
        n < 0x1_0000_0000_0000_0000_0000_0000,
    ensures
        r == rounded_quotient(n as int, d as int),
        r <= n + 1,
{
    let q = n / d;
    let twice = 2 * (n % d);
    assert(q <= n) by (nonlinear_arith)
        requires
            q == n / d,
            d > 0,
            n >= 0,
    ;
    if twice < d || (twice == d && q % 2 == 0) {
        q
    } else {
        q + 1
    }
}

/// The distance between neighbouring 64-bit floating-point numbers about `n`.
fn spacing(n: u64) -> (r: u64)
    ensures
        r == float_spacing(n as nat),
        1 <= r,
        n < FLOAT_EXACT ==> r == 1,
        n >= FLOAT_EXACT ==> r * (FLOAT_EXACT / 2) <= n,
    decreases n,
{
    if n < FLOAT_EXACT {
        1
    } else {
        let half = spacing(n / 2);
        assert(n / 2 >= FLOAT_EXACT / 2);
        2 * half
    }
}

/// A rounded quotient, multiplied back, exceeds the dividend by less than the
/// divisor.
proof fn lemma_multiplied_back(n: int, d: int)
    requires
        n >= 0,
        d > 0,
    ensures
        0 <= rounded_quotient(n, d) * d <= n + d,
        rounded_quotient(n, d) >= 0,
{
    let q = n / d;
    assert(q * d + n % d == n && 0 <= n % d < d && q >= 0 && (q + 1) * d == q * d + d && q * d
        >= 0) by (nonlinear_arith)
        requires
            q == n / d,
            n >= 0,
            d > 0,
    ;
}

/// Writes `n` bytes in units, to one decimal place.
pub fn size_text(n: u64, unit: u64) -> (r: String)
    requires
        unit == MIB || unit == GIB,
    ensures
        r@ == in_units(n as nat, unit as int),
{
    let step = spacing(n);
    let steps = round_quotient(n as u128, step as u128);
    proof {
        lemma_multiplied_back(n as int, step as int);
    }
    let float: u128 = steps * step as u128;
    assert(float == nearest_float(n as nat));
    proof {
        lemma_multiplied_back(10 * float as int, unit as int);
    }
    let t = round_quotient(10 * float, unit as u128);
    let whole: u128 = t / 10;
    assert(whole <= u64::MAX) by {
        let q = rounded_quotient(10 * float as int, unit as int);
        assert(q * 0x10_0000 <= q * unit) by (nonlinear_arith)
            requires
                q >= 0,
                unit >= 0x10_0000,
        ;
    }
    text::decimal_text(whole as u64).concat(".").concat(
        text::decimal_text((t % 10) as u64).as_str(),
    )
}

/// Writes `n` bytes in units, to one decimal place, with a minus sign where
/// `n` is negative.
pub fn signed_size_text(n: i64, unit: u64) -> (r: String)
    requires
        unit == MIB || unit == GIB,
    ensures
        r@ == signed_in_units(n as int, unit as int),
{
    if n < 0 {
        let magnitude: u64 = (-(n + 1)) as u64 + 1;
        "-".to_owned().concat(size_text(magnitude, unit).as_str())
    } else {
        size_text(n as u64, unit)
    }
}

/// A rounded quotient is a nearest integer to the quotient, and of two that are
/// as near the even one.
pub proof fn law_quotients_are_rounded_to_the_nearest(n: int, d: int)
    requires
        n >= 0,
        d > 0,
    ensures
        -d <= 2 * (n - rounded_quotient(n, d) * d) <= d,
        2 * (n - rounded_quotient(n, d) * d) == d ==> rounded_quotient(n, d) % 2 == 0,
        2 * (n - rounded_quotient(n, d) * d) == -d ==> rounded_quotient(n, d) % 2 == 0,
{
    let q = n / d;
    assert(q * d + n % d == n && 0 <= n % d < d && (q + 1) * d == q * d + d) by (nonlinear_arith)
        requires
            q == n / d,
            d > 0,
    ;
}

/// A float about `n` is a multiple of a power of two by which `n` has 53
/// significant bits, and the nearest such one; below 2^53 it is `n` itself.
pub proof fn law_floats_have_53_bits(n: nat)
    ensures
        n < 0x20_0000_0000_0000 ==> float_spacing(n) == 1 && nearest_float(n) == n,
        n >= 0x20_0000_0000_0000 ==> 0x10_0000_0000_0000 * float_spacing(n) <= n
            < 0x20_0000_0000_0000 * float_spacing(n),
        exists|e: nat| float_spacing(n) == #[trigger] power2::pow2(e),
        exists|q: int|
            {
                &&& nearest_float(n) == #[trigger] (q * float_spacing(n))
                &&& -float_spacing(n) <= 2 * (n - q * float_spacing(n)) <= float_spacing(n)
                &&& 2 * (n - q * float_spacing(n)) == float_spacing(n) || 2 * (n - q
                    * float_spacing(n)) == -float_spacing(n) ==> q % 2 == 0
            },
    decreases n,
{
    lemma_spacing_bounds(n);
    let s = float_spacing(n) as int;
    law_quotients_are_rounded_to_the_nearest(n as int, s);
    let q = rounded_quotient(n as int, s);
    assert(nearest_float(n) == q * float_spacing(n));
}

/// How large the spacing is.
proof fn lemma_spacing_bounds(n: nat)
    ensures
        float_spacing(n) >= 1,
        n < 0x20_0000_0000_0000 ==> float_spacing(n) == 1 && nearest_float(n) == n,
        n >= 0x20_0000_0000_0000 ==> 0x10_0000_0000_0000 * float_spacing(n) <= n
            < 0x20_0000_0000_0000 * float_spacing(n),
        exists|e: nat| float_spacing(n) == #[trigger] power2::pow2(e),
    decreases n,
{
    if n < FLOAT_EXACT {
        power2::lemma2_to64();
        assert(power2::pow2(0) == 1);
        assert(n as int / 1 == n && n as int % 1 == 0);
    } else {
        lemma_spacing_bounds(n / 2);
        let e = choose|e: nat| float_spacing(n / 2) == #[trigger] power2::pow2(e);
        power2::lemma_pow2_unfold(e + 1);
        assert(float_spacing(n) == power2::pow2(e + 1));
    }
}

/// A size in words is a whole number, a point and one digit: the nearest tenth
/// of a unit to the float about the size, and of two that are as near the even
/// one. A negative size has the words of its magnitude behind a minus sign.
pub proof fn law_sizes_are_written_to_a_tenth(n: nat, unit: int)
    requires
        unit > 0,
    ensures
        exists|whole: nat, tenth: nat|
            {
                let off = 2 * (10 * nearest_float(n) - (10 * whole + tenth) * unit);
                &&& in_units(n, unit) == #[trigger] text::decimal(whole) + "."@
                    + #[trigger] text::decimal(tenth)
                &&& tenth < 10
                &&& -unit <= off <= unit
                &&& off == unit || off == -unit ==> tenth % 2 == 0
            },
        signed_in_units(n as int, unit) == in_units(n, unit),
        n > 0 ==> signed_in_units(-n, unit) == "-"@ + in_units(n, unit),
{
    law_floats_have_53_bits(n);
    lemma_spacing_bounds(n);
    lemma_multiplied_back(n as int, float_spacing(n) as int);
    let f = 10 * nearest_float(n);
    law_quotients_are_rounded_to_the_nearest(f, unit);
    lemma_multiplied_back(f, unit);
    let t = tenths(n, unit);
    let whole = (t / 10) as nat;
    let tenth = (t % 10) as nat;
    assert(10 * whole + tenth == t);
    assert(in_units(n, unit) == text::decimal(whole) + "."@ + text::decimal(tenth));
}

} // verus!
