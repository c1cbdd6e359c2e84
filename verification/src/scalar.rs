//! Real numbers as IEEE-754 bit patterns.
//!
//! The models hold every real number as the bit pattern of a binary64 value.
//! Order and sign are read off the pattern with integer arithmetic alone.
use vstd::prelude::*;

verus! {

/// The bit pattern of a binary64 value.
pub type Scalar = u64;

/// The sign bit of a binary64 pattern.
pub const SIGN_BIT: u64 = 0x8000_0000_0000_0000;

/// The pattern of positive infinity; every larger magnitude is a NaN.
pub const INFINITY_BITS: u64 = 0x7ff0_0000_0000_0000;

/// The sign bit of a binary32 pattern.
pub const SINGLE_SIGN_BIT: u32 = 0x8000_0000;

/// The number of fraction patterns of a binary32 value: two to the 23rd.
pub const SINGLE_FRACTIONS: u32 = 0x80_0000;

/// Two to the 52nd: the weight of the exponent field in a binary64 pattern.
pub const EXPONENT_UNIT: u64 = 0x10_0000_0000_0000;

/// Two to the 29th: how far a binary32 fraction is shifted to fill a binary64 fraction.
pub const FRACTION_SHIFT: u64 = 0x2000_0000;

/// The pattern without its sign bit.
pub open spec fn magnitude(bits: u64) -> int {
    if bits >= SIGN_BIT {
        bits - SIGN_BIT
    } else {
        bits as int
    }
}

/// Whether the sign bit is set.
pub open spec fn is_negative(bits: u64) -> bool {
    bits >= SIGN_BIT
}

/// Whether the pattern is neither an infinity nor a NaN.
pub open spec fn is_finite(bits: u64) -> bool {
    magnitude(bits) < INFINITY_BITS
}

/// The place of a pattern on the number line: finite values and infinities
/// are ordered by their ordinals exactly as IEEE-754 orders the values, and
/// both zeros have ordinal 0.
pub open spec fn ordinal(bits: u64) -> int {
    if is_negative(bits) {
        -magnitude(bits)
    } else {
        magnitude(bits)
    }
}

/// The pattern of the greatest finite binary32 value, as a binary64 value.
pub const SINGLE_MAX: u64 = 0x47ef_ffff_e000_0000;

/// Whether the number is finite and no greater in magnitude than the
/// greatest binary32 value, so that it stays finite as a binary32 value.
pub open spec fn fits_single(bits: u64) -> bool {
    magnitude(bits) <= SINGLE_MAX
}

/// Whether the pattern is finite and strictly greater than zero.
pub open spec fn is_positive(bits: u64) -> bool {
    is_finite(bits) && ordinal(bits) > 0
}

/// The pattern of the number with the opposite sign; zero stays positive zero.
pub open spec fn negated(bits: u64) -> u64 {
    if magnitude(bits) == 0 {
        0
    } else if bits >= SIGN_BIT {
        (bits - SIGN_BIT) as u64
    } else {
        (bits + SIGN_BIT) as u64
    }
}

/// Negating a number mirrors its place on the number line, and keeps it
/// finite if it was.
pub proof fn lemma_negated_mirrors(bits: u64)
    ensures
        ordinal(negated(bits)) == -ordinal(bits),
        is_finite(negated(bits)) == is_finite(bits),
        negated(negated(bits)) == if magnitude(bits) == 0 {
            0
        } else {
            bits
        },
{
}

/// The number with the opposite sign.
pub fn scalar_negate(bits: u64) -> (r: u64)
    ensures
        r == negated(bits),
{
    if bits == 0 || bits == SIGN_BIT {
        0
    } else if bits >= SIGN_BIT {
        bits - SIGN_BIT
    } else {
        bits + SIGN_BIT
    }
}

/// Whether a pattern is neither an infinity nor a NaN.
pub fn scalar_is_finite(bits: u64) -> (r: bool)
    ensures
        r == is_finite(bits),
{
    let mag = if bits >= SIGN_BIT {
        bits - SIGN_BIT
    } else {
        bits
    };
    mag < INFINITY_BITS
}

/// Whether a pattern is finite and strictly greater than zero.
pub fn scalar_is_positive(bits: u64) -> (r: bool)
    ensures
        r == is_positive(bits),
{
    0 < bits && bits < INFINITY_BITS
}

/// Whether a number stays finite as a binary32 value.
pub fn scalar_fits_single(bits: u64) -> (r: bool)
    ensures
        r == fits_single(bits),
        r ==> is_finite(bits),
{
    let mag = if bits >= SIGN_BIT {
        bits - SIGN_BIT
    } else {
        bits
    };
    mag <= SINGLE_MAX
}

/// Numeric `<=` on two patterns.
pub fn scalar_le(a: u64, b: u64) -> (r: bool)
    ensures
        r == (ordinal(a) <= ordinal(b)),
{
    let a_neg = a >= SIGN_BIT;
    let b_neg = b >= SIGN_BIT;
    let a_mag = if a_neg {
        a - SIGN_BIT
    } else {
        a
    };
    let b_mag = if b_neg {
        b - SIGN_BIT
    } else {
        b
    };
    if a_neg {
        if b_neg {
            a_mag >= b_mag
        } else {
            true
        }
    } else {
        if b_neg {
            a_mag == 0 && b_mag == 0
        } else {
            a_mag <= b_mag
        }
    }
}

/// Numeric `<` on two patterns.
pub fn scalar_lt(a: u64, b: u64) -> (r: bool)
    ensures
        r == (ordinal(a) < ordinal(b)),
{
    !scalar_le(b, a)
}

/// The binary64 magnitude of a binary32 subnormal: `fraction` times two to
/// the power `exponent - 1046`, with `fraction` brought up to 24 bits.
pub open spec fn normalized(fraction: int, exponent: int) -> int
    decreases 2 * SINGLE_FRACTIONS - fraction,
{
    if 0 < fraction < SINGLE_FRACTIONS {
        normalized(2 * fraction, exponent - 1)
    } else {
        exponent * EXPONENT_UNIT + (fraction - SINGLE_FRACTIONS) * FRACTION_SHIFT
    }
}

/// The binary64 magnitude that stands for the same number as a binary32 magnitude.
pub open spec fn widen_magnitude(mag: int) -> int {
    let exponent = mag / (SINGLE_FRACTIONS as int);
    let fraction = mag % (SINGLE_FRACTIONS as int);
    if exponent == 255 {
        INFINITY_BITS + fraction * FRACTION_SHIFT
    } else if exponent > 0 {
        (exponent + 896) * EXPONENT_UNIT + fraction * FRACTION_SHIFT
    } else if fraction == 0 {
        0
    } else {
        normalized(fraction, 897)
    }
}

/// The binary64 pattern of the number that a binary32 pattern stands for.
/// The conversion is exact: infinities stay infinities and NaNs stay NaNs.
pub open spec fn widen(single: u32) -> u64 {
    if single >= SINGLE_SIGN_BIT {
        (SIGN_BIT + widen_magnitude(single - SINGLE_SIGN_BIT)) as u64
    } else {
        widen_magnitude(single as int) as u64
    }
}

/// Whether a binary32 pattern is neither an infinity nor a NaN.
pub open spec fn single_is_finite(single: u32) -> bool {
    if single >= SINGLE_SIGN_BIT {
        single - SINGLE_SIGN_BIT < 0x7f80_0000
    } else {
        single < 0x7f80_0000
    }
}

/// The ordinal of a binary32 pattern among binary32 patterns.
pub open spec fn single_ordinal(single: u32) -> int {
    if single >= SINGLE_SIGN_BIT {
        -(single - SINGLE_SIGN_BIT)
    } else {
        single as int
    }
}

/// Two to the power `n`, for `n` from 0 up.
pub open spec fn pow2_int(n: int) -> int
    decreases n,
{
    if n <= 0 {
        1
    } else {
        2 * pow2_int(n - 1)
    }
}

proof fn lemma_pow2_23()
    ensures
        pow2_int(23) == SINGLE_FRACTIONS,
{
    assert(pow2_int(4) == 16) by {
        reveal_with_fuel(pow2_int, 5);
    }
    assert(pow2_int(8) == 256) by {
        reveal_with_fuel(pow2_int, 5);
    }
    assert(pow2_int(12) == 4096) by {
        reveal_with_fuel(pow2_int, 5);
    }
    assert(pow2_int(16) == 65536) by {
        reveal_with_fuel(pow2_int, 5);
    }
    assert(pow2_int(20) == 1048576) by {
        reveal_with_fuel(pow2_int, 5);
    }
    assert(pow2_int(23) == 8388608) by {
        reveal_with_fuel(pow2_int, 4);
    }
}

/// Brings a binary32 subnormal fraction up to 24 bits and packs it as a
/// binary64 magnitude.
fn normalize(fraction: u64) -> (r: u64)
    requires
        0 < fraction < SINGLE_FRACTIONS,
    ensures
        r == normalized(fraction as int, 897),
        r < 898 * EXPONENT_UNIT,
{
    let mut m: u64 = fraction;
    let mut e: u64 = 897;
    let ghost mut low: int = 1;
    let ghost mut k: int = 0;
    proof {
        lemma_pow2_23();
    }
    while m < 0x80_0000
        invariant
            0 < m < 2 * SINGLE_FRACTIONS,
            low <= m,
            e == 897 - k,
            0 <= k <= 23,
            low * pow2_int(23 - k) == SINGLE_FRACTIONS,
            normalized(m as int, e as int) == normalized(fraction as int, 897),
        decreases 2 * SINGLE_FRACTIONS - m,
    {
        proof {
            assert((2 * low) * pow2_int(23 - k - 1) == low * pow2_int(23 - k)) by (nonlinear_arith)
                requires
                    pow2_int(23 - k) == 2 * pow2_int(23 - k - 1),
            ;
            low = 2 * low;
            k = k + 1;
        }
        m = 2 * m;
        e = e - 1;
    }
    assert(e * EXPONENT_UNIT <= 897 * EXPONENT_UNIT) by (nonlinear_arith)
        requires
            e <= 897,
    ;
    e * EXPONENT_UNIT + (m - 0x80_0000) * FRACTION_SHIFT
}

/// Converts a binary32 pattern to the binary64 pattern of the same number.
pub fn widen_single(single: u32) -> (r: u64)
    ensures
        r == widen(single),
{
    let negative = single >= SINGLE_SIGN_BIT;
    let mag: u32 = if negative {
        single - SINGLE_SIGN_BIT
    } else {
        single
    };
    let exponent: u64 = (mag / SINGLE_FRACTIONS) as u64;
    let fraction: u64 = (mag % SINGLE_FRACTIONS) as u64;
    let wide: u64 = if exponent == 255 {
        INFINITY_BITS + fraction * FRACTION_SHIFT
    } else if exponent > 0 {
        assert((exponent + 896) * EXPONENT_UNIT <= 1150 * EXPONENT_UNIT) by (nonlinear_arith)
            requires
                exponent <= 254,
        ;
        (exponent + 896) * EXPONENT_UNIT + fraction * FRACTION_SHIFT
    } else if fraction == 0 {
        0
    } else {
        normalize(fraction)
    };
    if negative {
        SIGN_BIT + wide
    } else {
        wide
    }
}

proof fn lemma_units()
    ensures
        SINGLE_FRACTIONS * FRACTION_SHIFT == EXPONENT_UNIT,
        2047 * EXPONENT_UNIT == INFINITY_BITS,
        2 * INFINITY_BITS < SIGN_BIT + INFINITY_BITS,
{
}

proof fn lemma_normalized_below(g: int, e: int)
    requires
        0 < g < 2 * SINGLE_FRACTIONS,
    ensures
        normalized(g, e) < (e + 1) * EXPONENT_UNIT,
    decreases 2 * SINGLE_FRACTIONS - g,
{
    lemma_units();
    if g < SINGLE_FRACTIONS {
        lemma_normalized_below(2 * g, e - 1);
    } else {
        assert((g - SINGLE_FRACTIONS) * FRACTION_SHIFT < SINGLE_FRACTIONS * FRACTION_SHIFT)
            by (nonlinear_arith)
            requires
                g - SINGLE_FRACTIONS < SINGLE_FRACTIONS,
        ;
    }
}

proof fn lemma_normalized_above(g: int, e: int, room: int)
    requires
        0 < g < 2 * SINGLE_FRACTIONS,
        0 <= room,
        g * pow2_int(room) >= SINGLE_FRACTIONS,
    ensures
        normalized(g, e) >= (e - room) * EXPONENT_UNIT,
    decreases 2 * SINGLE_FRACTIONS - g,
{
    if g < SINGLE_FRACTIONS {
        assert((2 * g) * pow2_int(room - 1) == g * pow2_int(room)) by (nonlinear_arith)
            requires
                pow2_int(room) == 2 * pow2_int(room - 1),
        ;
        lemma_normalized_above(2 * g, e - 1, room - 1);
        assert((e - 1 - (room - 1)) * EXPONENT_UNIT == (e - room) * EXPONENT_UNIT)
            by (nonlinear_arith);
    } else {
        assert((g - SINGLE_FRACTIONS) * FRACTION_SHIFT >= 0) by (nonlinear_arith)
            requires
                g >= SINGLE_FRACTIONS,
        ;
        assert(e * EXPONENT_UNIT >= (e - room) * EXPONENT_UNIT) by (nonlinear_arith)
            requires
                room >= 0,
        ;
    }
}

proof fn lemma_normalized_grows(f1: int, f2: int, e: int)
    requires
        0 < f1 < f2 < 2 * SINGLE_FRACTIONS,
    ensures
        normalized(f1, e) < normalized(f2, e),
    decreases 2 * SINGLE_FRACTIONS - f1,
{
    if f2 < SINGLE_FRACTIONS {
        lemma_normalized_grows(2 * f1, 2 * f2, e - 1);
    } else if f1 < SINGLE_FRACTIONS {
        lemma_normalized_below(2 * f1, e - 1);
        assert((f2 - SINGLE_FRACTIONS) * FRACTION_SHIFT >= 0) by (nonlinear_arith)
            requires
                f2 >= SINGLE_FRACTIONS,
        ;
    } else {
        assert((f1 - SINGLE_FRACTIONS) * FRACTION_SHIFT < (f2 - SINGLE_FRACTIONS) * FRACTION_SHIFT)
            by (nonlinear_arith)
            requires
                f1 < f2,
        ;
    }
}

/// What a finite binary32 magnitude widens to lies in one of the bands of
/// its exponent: at or above the band's floor and below the next one.
proof fn lemma_widen_band(m: int)
    requires
        0 < m < 0x7f80_0000,
    ensures
        m / (SINGLE_FRACTIONS as int) > 0 ==> (m / (SINGLE_FRACTIONS as int) + 896) * EXPONENT_UNIT
            <= widen_magnitude(m) < (m / (SINGLE_FRACTIONS as int) + 897) * EXPONENT_UNIT,
        m / (SINGLE_FRACTIONS as int) == 0 ==> 0 < widen_magnitude(m) < 897 * EXPONENT_UNIT,
{
    lemma_units();
    let e = m / (SINGLE_FRACTIONS as int);
    let f = m % (SINGLE_FRACTIONS as int);
    if e > 0 {
        assert(f * FRACTION_SHIFT < SINGLE_FRACTIONS * FRACTION_SHIFT) by (nonlinear_arith)
            requires
                f < SINGLE_FRACTIONS,
        ;
        assert(f * FRACTION_SHIFT >= 0) by (nonlinear_arith)
            requires
                f >= 0,
        ;
        assert((e + 897) * EXPONENT_UNIT == (e + 896) * EXPONENT_UNIT + EXPONENT_UNIT)
            by (nonlinear_arith);
    } else {
        lemma_normalized_below(2 * f, 896);
        lemma_pow2_23();
        assert(f * pow2_int(23) >= SINGLE_FRACTIONS) by (nonlinear_arith)
            requires
                f >= 1,
                pow2_int(23) == SINGLE_FRACTIONS,
        ;
        lemma_normalized_above(f, 897, 23);
    }
}

/// Widening keeps the order of finite magnitudes, and keeps them finite.
pub proof fn lemma_widen_magnitude_grows(a: int, b: int)
    requires
        0 <= a < b < 0x7f80_0000,
    ensures
        widen_magnitude(a) < widen_magnitude(b) < INFINITY_BITS,
        widen_magnitude(0) == 0,
{
    lemma_units();
    lemma_widen_band(b);
    let ea = a / (SINGLE_FRACTIONS as int);
    let eb = b / (SINGLE_FRACTIONS as int);
    let fa = a % (SINGLE_FRACTIONS as int);
    let fb = b % (SINGLE_FRACTIONS as int);
    assert((eb + 897) * EXPONENT_UNIT <= 2047 * EXPONENT_UNIT) by (nonlinear_arith)
        requires
            eb <= 254,
    ;
    if a > 0 {
        lemma_widen_band(a);
        if ea == eb {
            if ea > 0 {
                assert(fa * FRACTION_SHIFT < fb * FRACTION_SHIFT) by (nonlinear_arith)
                    requires
                        fa < fb,
                ;
            } else {
                lemma_normalized_grows(fa, fb, 897);
            }
        } else {
            assert((ea + 897) * EXPONENT_UNIT <= (eb + 896) * EXPONENT_UNIT) by (nonlinear_arith)
                requires
                    ea + 1 <= eb,
            ;
        }
    } else {
        assert((eb + 896) * EXPONENT_UNIT > 0) by (nonlinear_arith)
            requires
                eb >= 0,
        ;
    }
}

/// Widening a finite binary32 pattern gives a finite binary64 pattern, and
/// two finite patterns are in the same order before and after.
pub proof fn lemma_widen_keeps_order(a: u32, b: u32)
    requires
        single_is_finite(a),
        single_is_finite(b),
    ensures
        is_finite(widen(a)),
        is_finite(widen(b)),
        ordinal(widen(a)) <= ordinal(widen(b)) <==> single_ordinal(a) <= single_ordinal(b),
{
    lemma_units();
    let ma: int = if a >= SINGLE_SIGN_BIT {
        a - SINGLE_SIGN_BIT
    } else {
        a as int
    };
    let mb: int = if b >= SINGLE_SIGN_BIT {
        b - SINGLE_SIGN_BIT
    } else {
        b as int
    };
    lemma_widen_magnitude_grows(0, 1);
    if ma > 0 {
        lemma_widen_magnitude_grows(0, ma);
    }
    if mb > 0 {
        lemma_widen_magnitude_grows(0, mb);
    }
    if ma < mb {
        lemma_widen_magnitude_grows(ma, mb);
    } else if mb < ma {
        lemma_widen_magnitude_grows(mb, ma);
    }
}

} // verus!
