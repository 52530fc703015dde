//! Conversions between the 32-, 16- and 8-bit floating-point formats, on
//! bit patterns.
//!
//! A 32-bit pattern is read arithmetically: bit 31 is the sign, the next
//! eight bits the biased exponent, the low 23 bits the mantissa. Narrowing
//! is one rounded division of the significand.

use vstd::arithmetic::power2::*;
use vstd::bits::*;
use vstd::prelude::*;

verus! {

/// `n / d` rounded to the nearest integer, ties to the even one.
pub open spec fn rne(n: nat, d: nat) -> nat {
    let q = n / d;
    let r = n % d;
    if 2 * r > d || (2 * r == d && q % 2 == 1) {
        q + 1
    } else {
        q
    }
}

/// The pattern without its sign bit.
pub open spec fn magnitude(b: u32) -> nat {
    b as nat % 0x8000_0000
}

/// Whether the sign bit is set.
pub open spec fn is_negative(b: u32) -> bool {
    b >= 0x8000_0000
}

/// Whether the pattern stands for no number.
pub open spec fn is_nan32(b: u32) -> bool {
    magnitude(b) > 0x7f80_0000
}

/// Biased exponent of a magnitude; subnormals share that of the smallest
/// normal number.
pub open spec fn exponent(m: nat) -> nat {
    if m / 0x80_0000 == 0 {
        1
    } else {
        m / 0x80_0000
    }
}

/// Significand of a magnitude, with the hidden bit of normal numbers. The
/// value of a magnitude is `significand * 2^(exponent - 150)`.
pub open spec fn significand(m: nat) -> nat {
    if m / 0x80_0000 == 0 {
        m
    } else {
        m % 0x80_0000 + 0x80_0000
    }
}

/// Magnitude in a narrower format that keeps `23 - drop` mantissa bits and
/// whose smallest normal number has the biased 32-bit exponent `min_exp`,
/// were its exponent range unbounded above. Below that exponent the grid
/// stays that of the subnormals.
pub open spec fn narrowed(m: nat, drop: nat, min_exp: nat) -> nat {
    let e = exponent(m);
    if e < min_exp {
        rne(significand(m), pow2((drop + (min_exp - e)) as nat))
    } else {
        rne(significand(m), pow2(drop)) + (e - min_exp) as nat * pow2((23 - drop) as nat)
    }
}

/// Magnitude bits of the nearest half-precision number; from the midpoint
/// above the largest finite one on, infinity.
pub open spec fn half_magnitude(m: nat) -> nat {
    let h = narrowed(m, 13, 113);
    if h >= 0x7c00 {
        0x7c00
    } else {
        h
    }
}

/// Magnitude bits of the nearest E4M3 number, saturated at 448.
pub open spec fn e4m3_magnitude(m: nat) -> nat {
    let h = narrowed(m, 20, 121);
    if h >= 0x7e {
        0x7e
    } else {
        h
    }
}

/// Half-precision pattern of a 32-bit pattern; every NaN becomes the quiet
/// one without payload, of the same sign.
pub open spec fn half_bits(b: u32) -> nat {
    (if is_negative(b) {
        0x8000nat
    } else {
        0
    }) + (if is_nan32(b) {
        0x7e00
    } else {
        half_magnitude(magnitude(b))
    })
}

/// Half-precision pattern of a 32-bit pattern; a NaN is made quiet and keeps
/// the upper mantissa bits that fit.
pub open spec fn half_bits_with_payload(b: u32) -> nat {
    if is_nan32(b) {
        half_bits(b) + (magnitude(b) / 0x2000) % 0x200
    } else {
        half_bits(b)
    }
}

/// E4M3 pattern of a 32-bit pattern: a NaN is `0x7f`, both zeros are `0`.
pub open spec fn e4m3_bits(b: u32) -> nat {
    if is_nan32(b) {
        0x7f
    } else if magnitude(b) == 0 {
        0
    } else {
        (if is_negative(b) {
            0x80nat
        } else {
            0
        }) + e4m3_magnitude(magnitude(b))
    }
}

/// Upper half of a 32-bit pattern, rounded to nearest, ties to even. The
/// rounding is on the pattern as an unsigned number and wraps at its end,
/// which only NaN patterns reach.
pub open spec fn bf16_bits(b: u32) -> nat {
    rne(b as nat, 0x1_0000) % 0x1_0000
}

/// The 32-bit pattern of a bf16 pattern.
pub open spec fn widened(h: u16) -> nat {
    h as nat * 0x1_0000
}

/// A quotient whose divisor exceeds four times the dividend rounds to zero.
proof fn lemma_rne_small(n: nat, d: nat)
    requires
        4 * n < d,
    ensures
        rne(n, d) == 0,
{
    assert(n / d == 0 && n % d == n) by (nonlinear_arith)
        requires
            4 * n < d,
    ;
}

/// Rounding never moves by more than half a step, and a tie goes to the even
/// neighbour.
pub proof fn lemma_rne_nearest(n: nat, d: nat)
    requires
        d > 0,
    ensures
        2 * (n - d * rne(n, d)) <= d,
        2 * (d * rne(n, d) - n) <= d,
        2 * (n - d * rne(n, d)) == d || 2 * (d * rne(n, d) - n) == d ==> rne(n, d) % 2 == 0,
{
    let q = n / d;
    let r = n % d;
    assert(n == d * q + r && 0 <= r < d) by {
        vstd::arithmetic::div_mod::lemma_fundamental_div_mod(n as int, d as int);
        vstd::arithmetic::div_mod::lemma_mod_bound(n as int, d as int);
    }
    assert(d * (q + 1) == d * q + d) by (nonlinear_arith);
}

/// Rounding keeps the order of the dividends.
pub proof fn lemma_rne_monotone(a: nat, b: nat, d: nat)
    requires
        a <= b,
        d > 0,
    ensures
        rne(a, d) <= rne(b, d),
{
    let qa = a / d;
    let qb = b / d;
    vstd::arithmetic::div_mod::lemma_div_is_ordered(a as int, b as int, d as int);
    if qa == qb {
        vstd::arithmetic::div_mod::lemma_fundamental_div_mod(a as int, d as int);
        vstd::arithmetic::div_mod::lemma_fundamental_div_mod(b as int, d as int);
        assert(d * qa == d * qb);
        assert(a % d <= b % d);
    }
}

/// A rounded quotient lies between bounds that the exact quotient lies
/// between.
pub proof fn lemma_rne_bounds(n: nat, d: nat, lo: nat, hi: nat)
    requires
        d > 0,
        lo * d <= n <= hi * d,
    ensures
        lo <= rne(n, d) <= hi,
{
    lemma_rne_monotone(lo * d, n, d);
    lemma_rne_monotone(n, hi * d, d);
    lemma_rne_exact(lo, d);
    lemma_rne_exact(hi, d);
}

/// A multiple of the divisor is not rounded.
pub proof fn lemma_rne_exact(k: nat, d: nat)
    requires
        d > 0,
    ensures
        rne(k * d, d) == k,
{
    vstd::arithmetic::div_mod::lemma_div_multiples_vanish(k as int, d as int);
    vstd::arithmetic::div_mod::lemma_mod_multiples_basic(k as int, d as int);
    assert(d * k == k * d) by (nonlinear_arith);
}

/// Magnitude in a narrower format; see [`narrowed`].
fn narrow_magnitude(m: u32, drop: u32, min_exp: u32) -> (r: u64)
    requires
        m <= 0x7f80_0000,
        drop <= 23,
        0 < min_exp <= 255,
    ensures
        r == narrowed(m as nat, drop as nat, min_exp as nat),
{
    let field: u32 = m / 0x80_0000;
    let e: u32 = if field == 0 {
        1
    } else {
        field
    };
    let s: u64 = if field == 0 {
        m as u64
    } else {
        (m % 0x80_0000) as u64 + 0x80_0000
    };
    let shift: u32 = if e < min_exp {
        drop + (min_exp - e)
    } else {
        drop
    };
    proof {
        lemma2_to64();
    }
    let rounded: u64 = if shift > 26 {
        proof {
            if shift as nat > 27 {
                lemma_pow2_strictly_increases(27, shift as nat);
            }
            lemma_rne_small(s as nat, pow2(shift as nat));
        }
        0
    } else {
        proof {
            if shift > 0 {
                lemma_pow2_strictly_increases(0, shift as nat);
            }
            if (shift as nat) < 26 {
                lemma_pow2_strictly_increases(shift as nat, 26);
            }
            lemma_u64_shl_is_mul(1, shift as u64);
        }
        let d: u64 = 1u64 << (shift as u64);
        assert(d == pow2(shift as nat));
        let q: u64 = s / d;
        let r: u64 = s % d;
        if 2 * r > d || (2 * r == d && q % 2 == 1) {
            q + 1
        } else {
            q
        }
    };
    assert(rounded == rne(s as nat, pow2(shift as nat)));
    if e < min_exp {
        rounded
    } else {
        proof {
            let up = (23 - drop) as nat;
            if up > 0 {
                lemma_pow2_strictly_increases(0, up);
            }
            if up < 23 {
                lemma_pow2_strictly_increases(up, 23);
            }
            lemma_u64_shl_is_mul(1, (23 - drop) as u64);
            lemma_pow2_pos(shift as nat);
            lemma_rne_bounds_by_self(s as nat, pow2(shift as nat));
        }
        let step: u64 = 1u64 << ((23 - drop) as u64);
        assert(step == pow2((23 - drop) as nat));
        assert((e - min_exp) * step <= 255 * 0x80_0000) by (nonlinear_arith)
            requires
                0 <= e - min_exp <= 255,
                0 <= step <= 0x80_0000,
        ;
        rounded + (e - min_exp) as u64 * step
    }
}

/// A rounded quotient is at most the dividend, or one.
proof fn lemma_rne_bounds_by_self(n: nat, d: nat)
    requires
        d > 0,
    ensures
        rne(n, d) <= n + 1,
{
    assert(n / d <= n) by (nonlinear_arith)
        requires
            d > 0,
    ;
}

/// Half-precision pattern of a 32-bit pattern: round to nearest, ties to
/// even, with subnormal results, overflow to infinity and the quiet NaN.
pub fn f32_to_f16_bits(b: u32) -> (r: u16)
    ensures
        r == half_bits(b),
{
    let m: u32 = b % 0x8000_0000;
    let sign: u16 = if b >= 0x8000_0000 {
        0x8000
    } else {
        0
    };
    if m > 0x7f80_0000 {
        return sign + 0x7e00;
    }
    let h: u64 = narrow_magnitude(m, 13, 113);
    if h >= 0x7c00 {
        sign + 0x7c00
    } else {
        sign + (h as u16)
    }
}

/// Half-precision pattern of a 32-bit pattern that keeps the upper payload
/// bits of a NaN.
pub fn f32_to_f16_bits_with_payload(b: u32) -> (r: u16)
    ensures
        r == half_bits_with_payload(b),
{
    let m: u32 = b % 0x8000_0000;
    let h: u16 = f32_to_f16_bits(b);
    if m > 0x7f80_0000 {
        h + ((m / 0x2000) % 0x200) as u16
    } else {
        h
    }
}

/// E4M3 pattern of a 32-bit pattern: round to nearest, ties to even,
/// saturating at 448.
pub fn fp8_e4m3_encode(b: u32) -> (r: u8)
    ensures
        r == e4m3_bits(b),
{
    let m: u32 = b % 0x8000_0000;
    if m > 0x7f80_0000 {
        return 0x7f;
    }
    if m == 0 {
        return 0;
    }
    let sign: u8 = if b >= 0x8000_0000 {
        0x80
    } else {
        0
    };
    let h: u64 = narrow_magnitude(m, 20, 121);
    if h >= 0x7e {
        sign + 0x7e
    } else {
        sign + (h as u8)
    }
}

/// Value of a finite half-precision magnitude, in units of `2^-24`.
pub open spec fn half_units(h: nat) -> nat {
    if h / 0x400 == 0 {
        h
    } else {
        (h % 0x400 + 0x400) * pow2((h / 0x400 - 1) as nat)
    }
}

/// The step of the grid that has `width` significant bits, at a number of
/// units: the least power of two by which it is below `2^width`.
pub open spec fn grid_step(units: nat, width: nat) -> nat
    decreases units,
{
    if units < pow2(width) || units == 0 {
        0
    } else {
        1 + grid_step(units / 2, width)
    }
}

/// A number of units rounded to 24 significant bits, ties to even: the
/// 32-bit number it becomes.
pub open spec fn single_units(units: nat) -> nat {
    let k = grid_step(units, 24);
    rne(units, pow2(k)) * pow2(k)
}

/// Half-precision magnitude of a number of units: rounded to 11 significant
/// bits, ties to even, infinite from the midpoint above the largest finite
/// number on.
pub open spec fn half_of_units(units: nat) -> nat {
    let k = grid_step(units, 11);
    let h = rne(units, pow2(k)) + k * 0x400;
    if h >= 0x7c00 {
        0x7c00
    } else {
        h
    }
}

/// Half-precision pattern of a half-precision number plus one, added in
/// 32-bit precision. Infinities stay, a NaN is made quiet.
pub open spec fn half_plus_one(h: u16) -> nat {
    let m = h as nat % 0x8000;
    if m > 0x7c00 {
        if (h as nat / 0x200) % 2 == 0 {
            h as nat + 0x200
        } else {
            h as nat
        }
    } else if m == 0x7c00 {
        h as nat
    } else if h < 0x8000 {
        half_of_units(single_units(half_units(m) + 0x100_0000))
    } else if half_units(m) <= 0x100_0000 {
        half_of_units(single_units((0x100_0000 - half_units(m)) as nat))
    } else {
        0x8000 + half_of_units(single_units((half_units(m) - 0x100_0000) as nat))
    }
}

/// The quotient rounded to nearest, ties to even.
fn rounded_quotient(n: u64, d: u64) -> (r: u64)
    requires
        0 < d <= 0x1000_0000_0000,
        n < 0x1000_0000_0000_0000,
    ensures
        r == rne(n as nat, d as nat),
{
    let q: u64 = n / d;
    let r: u64 = n % d;
    if 2 * r > d || (2 * r == d && q % 2 == 1) {
        q + 1
    } else {
        q
    }
}

/// The grid step and its power of two.
fn find_grid(units: u64, width: u64) -> (r: (u64, u64))
    requires
        units < 0x1000_0000_0000,
        0 < width <= 24,
    ensures
        r.0 == grid_step(units as nat, width as nat),
        r.1 == pow2(r.0 as nat),
        r.0 <= 44,
        1 <= r.1 <= 0x1000_0000_0000,
{
    proof {
        lemma2_to64();
        lemma2_to64_rest();
        lemma_pow2_strictly_increases(0, width as nat);
        if width < 24 {
            lemma_pow2_strictly_increases(width as nat, 24);
        }
        lemma_u64_shl_is_mul(1, width);
    }
    let limit: u64 = 1u64 << width;
    let mut k: u64 = 0;
    let mut d: u64 = 1;
    let mut rest: u64 = units;
    while rest >= limit
        invariant
            limit == pow2(width as nat),
            limit >= 2,
            units < 0x1000_0000_0000,
            pow2(44) == 0x1000_0000_0000,
            0 <= k <= 44,
            d == pow2(k as nat),
            1 <= d <= 0x1000_0000_0000,
            rest * d <= units,
            grid_step(units as nat, width as nat) == k + grid_step(rest as nat, width as nat),
        decreases rest,
    {
        let half_rest: u64 = rest / 2;
        assert(half_rest * (2 * d) <= rest * d && 2 * d <= half_rest * (2 * d)) by (nonlinear_arith)
            requires
                1 <= half_rest,
                2 * half_rest <= rest,
                d >= 1,
        ;
        proof {
            lemma_pow2_unfold((k + 1) as nat);
            if k + 1 > 44 {
                lemma_pow2_strictly_increases(44, (k + 1) as nat);
            }
        }
        rest = half_rest;
        d = 2 * d;
        k = k + 1;
    }
    assert(grid_step(rest as nat, width as nat) == 0);
    (k, d)
}

/// A number of units rounded to 24 significant bits.
pub fn single_of_units(units: u64) -> (r: u64)
    requires
        units < 0x200_0000_0000,
    ensures
        r == single_units(units as nat),
        r < 0x1000_0000_0000,
{
    let (k, d) = find_grid(units, 24);
    let q: u64 = rounded_quotient(units, d);
    proof {
        lemma_single_units_bound(units as nat);
        assert(q * d == d * q) by (nonlinear_arith);
    }
    q * d
}

/// Rounding to 24 significant bits at most doubles a number of units.
proof fn lemma_single_units_bound(units: nat)
    ensures
        single_units(units) <= 2 * units,
{
    let k = grid_step(units, 24);
    lemma_grid_step_fits(units, 24);
    lemma_pow2_pos(k);
    lemma_rne_nearest(units, pow2(k));
    let q = rne(units, pow2(k));
    assert(q * pow2(k) == pow2(k) * q) by (nonlinear_arith);
    if units == 0 {
        assert(q == 0) by {
            lemma_rne_exact(0, pow2(k));
        }
        assert(q * pow2(k) == 0);
    }
}

/// The grid step is no larger than the number it is taken at.
proof fn lemma_grid_step_fits(units: nat, width: nat)
    requires
        width > 0,
    ensures
        units > 0 ==> pow2(grid_step(units, width)) <= units,
    decreases units,
{
    lemma2_to64();
    lemma_pow2_strictly_increases(0, width);
    if !(units < pow2(width) || units == 0) {
        lemma_grid_step_fits(units / 2, width);
        let k = grid_step(units / 2, width);
        lemma_pow2_unfold((k + 1) as nat);
    }
}

fn half_from_units(units: u64) -> (r: u16)
    requires
        units < 0x1000_0000_0000,
    ensures
        r == half_of_units(units as nat),
        r <= 0x7c00,
{
    let (k, d) = find_grid(units, 11);
    let q: u64 = rounded_quotient(units, d);
    proof {
        lemma_rne_bounds_by_self(units as nat, d as nat);
    }
    let h: u64 = q + k * 0x400;
    if h >= 0x7c00 {
        0x7c00
    } else {
        h as u16
    }
}

/// Half-precision pattern of a half-precision number plus one.
pub fn f16_plus_one(h: u16) -> (r: u16)
    ensures
        r == half_plus_one(h),
{
    let m: u16 = h % 0x8000;
    if m > 0x7c00 {
        return if (h / 0x200) % 2 == 0 {
            h + 0x200
        } else {
            h
        };
    }
    if m == 0x7c00 {
        return h;
    }
    let e: u16 = m / 0x400;
    let units: u64 = if e == 0 {
        m as u64
    } else {
        proof {
            lemma2_to64();
            if e > 1 {
                lemma_pow2_strictly_increases(0, (e - 1) as nat);
            }
            if e < 30 {
                lemma_pow2_strictly_increases((e - 1) as nat, 29);
            }
            lemma_u64_shl_is_mul(1, (e - 1) as u64);
        }
        let d: u64 = 1u64 << ((e - 1) as u64);
        assert(d == pow2((e - 1) as nat));
        assert((m % 0x400 + 0x400) * d <= 0x7ff * 0x2000_0000) by (nonlinear_arith)
            requires
                m % 0x400 + 0x400 <= 0x7ff,
                d <= 0x2000_0000,
        ;
        (m % 0x400 + 0x400) as u64 * d
    };
    assert(units == half_units(m as nat));
    if h < 0x8000 {
        half_from_units(single_of_units(units + 0x100_0000))
    } else if units <= 0x100_0000 {
        half_from_units(single_of_units(0x100_0000 - units))
    } else {
        0x8000 + half_from_units(single_of_units(units - 0x100_0000))
    }
}

/// Pattern of the 32-bit number nearest to a 64-bit one; infinity from the
/// midpoint above the largest finite number on; the quiet NaN for a NaN.
pub open spec fn single_bits(b: u64) -> nat {
    let m = b as nat % 0x8000_0000_0000_0000;
    let sign: nat = if b >= 0x8000_0000_0000_0000 {
        0x8000_0000
    } else {
        0
    };
    let field = m / 0x10_0000_0000_0000;
    let e: nat = if field == 0 {
        1
    } else {
        field
    };
    let s = if field == 0 {
        m
    } else {
        m % 0x10_0000_0000_0000 + 0x10_0000_0000_0000
    };
    if m > 0x7ff0_0000_0000_0000 {
        sign + 0x7fc0_0000
    } else {
        let h = if e < 897 {
            rne(s, pow2((29 + (897 - e)) as nat))
        } else {
            rne(s, 0x2000_0000) + (e - 897) as nat * 0x80_0000
        };
        if h >= 0x7f80_0000 {
            sign + 0x7f80_0000
        } else {
            sign + h
        }
    }
}

/// Pattern of the 32-bit number nearest to a 64-bit one.
pub fn f64_to_f32_bits(b: u64) -> (r: u32)
    ensures
        r == single_bits(b),
{
    let m: u64 = b % 0x8000_0000_0000_0000;
    let sign: u32 = if b >= 0x8000_0000_0000_0000 {
        0x8000_0000
    } else {
        0
    };
    if m > 0x7ff0_0000_0000_0000 {
        return sign + 0x7fc0_0000;
    }
    let field: u64 = m / 0x10_0000_0000_0000;
    let e: u64 = if field == 0 {
        1
    } else {
        field
    };
    let s: u64 = if field == 0 {
        m
    } else {
        m % 0x10_0000_0000_0000 + 0x10_0000_0000_0000
    };
    proof {
        lemma2_to64();
        lemma2_to64_rest();
    }
    let h: u64 = if e >= 897 {
        let q: u64 = rounded_quotient(s, 0x2000_0000);
        proof {
            lemma_rne_bounds(s as nat, 0x2000_0000, 0, 0x100_0000);
        }
        q + (e - 897) * 0x80_0000
    } else if 29 + (897 - e) >= 56 {
        proof {
            let k = (29 + (897 - e)) as nat;
            if k > 56 {
                lemma_pow2_strictly_increases(56, k);
            }
            lemma_rne_small(s as nat, pow2(k));
        }
        0
    } else {
        let shift: u64 = 29 + (897 - e);
        proof {
            lemma_pow2_strictly_increases(0, shift as nat);
            lemma_pow2_strictly_increases(shift as nat, 56);
            lemma_u64_shl_is_mul(1, shift);
            lemma_rne_bounds_by_self(s as nat, pow2(shift as nat));
        }
        let d: u64 = 1u64 << shift;
        let q: u64 = s / d;
        let r: u64 = s % d;
        if 2 * r > d || (2 * r == d && q % 2 == 1) {
            q + 1
        } else {
            q
        }
    };
    if h >= 0x7f80_0000 {
        sign + 0x7f80_0000
    } else {
        sign + (h as u32)
    }
}

/// Upper half of a 32-bit pattern, rounded to nearest, ties to even.
pub fn f32_to_bf16_bits(b: u32) -> (r: u16)
    ensures
        r == bf16_bits(b),
{
    let q: u32 = b / 0x1_0000;
    let low: u32 = b % 0x1_0000;
    if low > 0x8000 || (low == 0x8000 && q % 2 == 1) {
        if q == 0xffff {
            0
        } else {
            (q + 1) as u16
        }
    } else {
        q as u16
    }
}

/// The 32-bit pattern of a bf16 pattern.
pub fn bf16_to_f32_bits(h: u16) -> (r: u32)
    ensures
        r == widened(h),
{
    h as u32 * 0x1_0000
}

/// 32-bit pattern of a bf16 pattern, where a NaN is made quiet.
pub open spec fn widened_quiet(h: u16) -> nat {
    if h as nat % 0x8000 > 0x7f80 && (h as nat / 0x40) % 2 == 0 {
        widened(h) + 0x40_0000
    } else {
        widened(h)
    }
}

/// 32-bit pattern of a bf16 pattern, where a NaN is made quiet.
pub fn bf16_to_f32_bits_quiet(h: u16) -> (r: u32)
    ensures
        r == widened_quiet(h),
{
    if h % 0x8000 > 0x7f80 && (h / 0x40) % 2 == 0 {
        h as u32 * 0x1_0000 + 0x40_0000
    } else {
        h as u32 * 0x1_0000
    }
}

/// Narrows each 32-bit pattern to bf16.
pub fn narrow_to_bf16(xs: &[u32]) -> (r: Vec<u16>)
    ensures
        r@.len() == xs@.len(),
        forall|i: int| 0 <= i < xs@.len() ==> #[trigger] r@[i] == bf16_bits(xs@[i]),
{
    let mut r: Vec<u16> = Vec::new();
    let mut i: usize = 0;
    while i < xs.len()
        invariant
            i <= xs@.len(),
            r@.len() == i,
            forall|j: int| 0 <= j < i ==> #[trigger] r@[j] == bf16_bits(xs@[j]),
        decreases xs@.len() - i,
    {
        r.push(f32_to_bf16_bits(xs[i]));
        i = i + 1;
    }
    r
}

/// Widens each bf16 pattern to 32 bits.
pub fn widen_from_bf16(xs: &[u16]) -> (r: Vec<u32>)
    ensures
        r@.len() == xs@.len(),
        forall|i: int| 0 <= i < xs@.len() ==> #[trigger] r@[i] == widened(xs@[i]),
{
    let mut r: Vec<u32> = Vec::new();
    let mut i: usize = 0;
    while i < xs.len()
        invariant
            i <= xs@.len(),
            r@.len() == i,
            forall|j: int| 0 <= j < i ==> #[trigger] r@[j] == widened(xs@[j]),
        decreases xs@.len() - i,
    {
        r.push(bf16_to_f32_bits(xs[i]));
        i = i + 1;
    }
    r
}

/// Value of a finite 32-bit magnitude, in units of `2^-149`.
pub open spec fn fine_units(m: nat) -> nat {
    significand(m) * pow2((exponent(m) - 1) as nat)
}

/// Whether a 32-bit pattern stands for the same number as a half-precision
/// one. A NaN is made quiet and keeps the rest of its payload.
pub open spec fn widens_half(h: u16, b: u32) -> bool {
    let m = h as nat % 0x8000;
    &&& is_negative(b) == (h >= 0x8000)
    &&& if m > 0x7c00 {
        magnitude(b) == 0x7fc0_0000 + (m % 0x200) * 0x2000
    } else if m == 0x7c00 {
        magnitude(b) == 0x7f80_0000
    } else {
        &&& magnitude(b) < 0x7f80_0000
        &&& fine_units(magnitude(b)) == half_units(m) * pow2(125)
    }
}

/// The magnitude with a significand of eleven bits `g * 2^13` and a biased
/// exponent.
proof fn lemma_fine_units(e: nat, g: nat)
    requires
        1 <= e < 255,
        0x400 <= g < 0x800,
    ensures
        fine_units(e * 0x80_0000 + (g - 0x400) as nat * 0x2000) == g * pow2(12 + e),
{
    let m = (e * 0x80_0000 + (g - 0x400) as nat * 0x2000) as nat;
    assert(m / 0x80_0000 == e && m % 0x80_0000 == (g - 0x400) * 0x2000);
    lemma2_to64();
    lemma_pow2_adds(13, (e - 1) as nat);
    assert(g * 0x2000 * pow2((e - 1) as nat) == g * (0x2000 * pow2((e - 1) as nat)))
        by (nonlinear_arith);
    assert(13 + (e - 1) == 12 + e);
}

/// 32-bit pattern of a half-precision pattern.
pub fn f16_to_f32_bits(h: u16) -> (r: u32)
    ensures
        widens_half(h, r),
{
    let m: u32 = h as u32 % 0x8000;
    let sign: u32 = if h >= 0x8000 {
        0x8000_0000
    } else {
        0
    };
    if m > 0x7c00 {
        return sign + 0x7fc0_0000 + (m % 0x200) * 0x2000;
    }
    if m == 0x7c00 {
        return sign + 0x7f80_0000;
    }
    let e: u32 = m / 0x400;
    if e > 0 {
        let f: u32 = m % 0x400;
        proof {
            lemma_fine_units((e + 112) as nat, (f + 0x400) as nat);
            lemma_pow2_adds((e - 1) as nat, 125);
            assert((e - 1) + 125 == 12 + (e + 112));
            assert((f + 0x400) * (pow2((e - 1) as nat) * pow2(125)) == (f + 0x400) * pow2(
                (e - 1) as nat,
            ) * pow2(125)) by (nonlinear_arith);
        }
        return sign + (e + 112) * 0x80_0000 + f * 0x2000;
    }
    if m == 0 {
        proof {
            assert(half_units(0) * pow2(125) == 0) by (nonlinear_arith)
                requires
                    half_units(0) == 0,
            ;
            assert(fine_units(0) == 0) by (nonlinear_arith)
                requires
                    significand(0) == 0,
                    fine_units(0) == significand(0) * pow2((exponent(0) - 1) as nat),
            ;
        }
        return sign;
    }
    let mut g: u32 = m;
    let mut e: u32 = 113;
    proof {
        lemma2_to64();
        assert((113 - e) as nat == 0);
        assert(pow2(0) == 1);
        assert(m * pow2((113 - e) as nat) == m) by (nonlinear_arith)
            requires
                pow2((113 - e) as nat) == 1,
        ;
    }
    while g < 0x400
        invariant
            1 <= m < 0x400,
            1 <= g < 0x800,
            103 <= e <= 113,
            g >= pow2((113 - e) as nat),
            g == m * pow2((113 - e) as nat),
            g < 0x400 ==> e > 103,
        decreases e,
    {
        proof {
            lemma_pow2_unfold((114 - e) as nat);
            let p = pow2((113 - e) as nat);
            assert(m * (2 * p) == 2 * (m * p)) by (nonlinear_arith);
            lemma2_to64();
            if e == 104 {
                assert(pow2(10) == 0x400);
                assert(2 * g >= 0x400);
            }
        }
        g = g * 2;
        e = e - 1;
    }
    proof {
        lemma_fine_units(e as nat, g as nat);
        let s = (113 - e) as nat;
        lemma_pow2_adds(s, (12 + e) as nat);
        assert(s + (12 + e) == 125);
        assert(m * pow2(s) * pow2((12 + e) as nat) == m * (pow2(s) * pow2((12 + e) as nat)))
            by (nonlinear_arith);
    }
    sign + e * 0x80_0000 + (g - 0x400) * 0x2000
}

/// Scaling dividend and divisor alike leaves the rounded quotient alone.
pub proof fn lemma_rne_scale(n: nat, d: nat, k: nat)
    requires
        d > 0,
        k > 0,
    ensures
        rne(n * k, d * k) == rne(n, d),
{
    let q = n / d;
    let r = n % d;
    vstd::arithmetic::div_mod::lemma_fundamental_div_mod(n as int, d as int);
    assert(n * k == q * (d * k) + r * k && r * k < d * k && d * k > 0) by (nonlinear_arith)
        requires
            n == d * q + r,
            0 <= r < d,
            k > 0,
            d > 0,
    ;
    vstd::arithmetic::div_mod::lemma_fundamental_div_mod_converse(
        (n * k) as int,
        (d * k) as int,
        q as int,
        (r * k) as int,
    );
    assert(2 * (r * k) > d * k <==> 2 * r > d) by (nonlinear_arith)
        requires
            k > 0,
    ;
    assert(2 * (r * k) == d * k <==> 2 * r == d) by (nonlinear_arith)
        requires
            k > 0,
    ;
}

/// Narrowing keeps the order of magnitudes.
pub proof fn law_narrowing_keeps_order(a: nat, b: nat, drop: nat, min_exp: nat)
    requires
        a <= b <= 0x7f80_0000,
        drop <= 23,
        1 <= min_exp,
    ensures
        narrowed(a, drop, min_exp) <= narrowed(b, drop, min_exp),
{
    let (ea, eb) = (exponent(a), exponent(b));
    let (sa, sb) = (significand(a), significand(b));
    let step = pow2((23 - drop) as nat);
    lemma2_to64();
    assert(pow2(23) == 0x80_0000);
    lemma_pow2_pos(drop);
    lemma_pow2_pos((23 - drop) as nat);
    lemma_pow2_adds(drop, (23 - drop) as nat);
    assert(ea <= eb);
    if ea == eb {
        assert(sa <= sb);
        if ea < min_exp {
            lemma_pow2_pos((drop + (min_exp - ea)) as nat);
            lemma_rne_monotone(sa, sb, pow2((drop + (min_exp - ea)) as nat));
        } else {
            lemma_rne_monotone(sa, sb, pow2(drop));
        }
    } else {
        assert(sa <= 0x100_0000 && sb >= 0x80_0000);
        if eb < min_exp {
            let k = pow2((eb - ea) as nat);
            let db = pow2((drop + (min_exp - eb)) as nat);
            lemma_pow2_adds((drop + (min_exp - eb)) as nat, (eb - ea) as nat);
            lemma_pow2_pos((drop + (min_exp - eb)) as nat);
            lemma_pow2_pos((eb - ea) as nat);
            if eb - ea > 1 {
                lemma_pow2_strictly_increases(1, (eb - ea) as nat);
            }
            assert(k >= 2);
            assert(sb * k >= 0x100_0000) by (nonlinear_arith)
                requires
                    sb >= 0x80_0000,
                    k >= 2,
            ;
            lemma_rne_scale(sb, db, k);
            assert(db * k > 0) by (nonlinear_arith)
                requires
                    db > 0,
                    k > 0,
            ;
            lemma_rne_monotone(sa, sb * k, db * k);
        } else {
            assert(sb == (sb - 0x80_0000) + 0x80_0000);
            assert(step * pow2(drop) == 0x80_0000) by (nonlinear_arith)
                requires
                    pow2(drop) * step == 0x80_0000,
            ;
            lemma_rne_monotone(0x80_0000, sb, pow2(drop));
            lemma_rne_exact(step, pow2(drop));
            if ea < min_exp {
                let k = pow2((min_exp - ea) as nat);
                lemma_pow2_adds(drop, (min_exp - ea) as nat);
                lemma_pow2_pos((min_exp - ea) as nat);
                if min_exp - ea > 1 {
                    lemma_pow2_strictly_increases(1, (min_exp - ea) as nat);
                }
                assert(k >= 2);
                assert(0x80_0000 * k >= 0x100_0000);
                lemma_rne_scale(0x80_0000, pow2(drop), k);
                assert(pow2(drop) * k > 0) by (nonlinear_arith)
                    requires
                        pow2(drop) > 0,
                        k > 0,
                ;
                lemma_rne_monotone(sa, 0x80_0000 * k, pow2(drop) * k);
                assert((eb - min_exp) as nat * step >= 0) by (nonlinear_arith)
                    requires
                        eb >= min_exp,
                ;
            } else {
                lemma_rne_monotone(sa, 0x100_0000, pow2(drop));
                lemma_rne_exact(2 * step, pow2(drop));
                assert(2 * step * pow2(drop) == 0x100_0000) by (nonlinear_arith)
                    requires
                        step * pow2(drop) == 0x80_0000,
                ;
                assert(2 * step + (ea - min_exp) as nat * step <= step + (eb - min_exp) as nat
                    * step) by (nonlinear_arith)
                    requires
                        min_exp <= ea < eb,
                        step > 0,
                ;
            }
        }
    }
}

/// Of two numbers of the same sign, the one of larger magnitude has no
/// smaller half-precision magnitude.
pub proof fn law_half_keeps_order(a: u32, b: u32)
    requires
        !is_nan32(a),
        !is_nan32(b),
        is_negative(a) == is_negative(b),
        magnitude(a) <= magnitude(b),
    ensures
        half_bits(a) <= half_bits(b),
{
    law_narrowing_keeps_order(magnitude(a), magnitude(b), 13, 113);
}

/// Of two numbers of the same sign, the one of larger magnitude has no
/// smaller E4M3 magnitude; no number is encoded as NaN.
pub proof fn law_e4m3_keeps_order(a: u32, b: u32)
    requires
        !is_nan32(a),
        !is_nan32(b),
        is_negative(a) == is_negative(b),
        0 < magnitude(a) <= magnitude(b),
    ensures
        e4m3_bits(a) <= e4m3_bits(b),
        e4m3_bits(b) % 0x80 <= 0x7e,
{
    law_narrowing_keeps_order(magnitude(a), magnitude(b), 20, 121);
}

/// Changing the sign of a number changes only the sign of its half-precision
/// pattern.
pub proof fn law_half_sign(a: u32, b: u32)
    requires
        magnitude(a) == magnitude(b),
        is_negative(a),
        !is_negative(b),
    ensures
        half_bits(a) == half_bits(b) + 0x8000,
{
}

/// Widening a bf16 pattern and narrowing it again gives it back.
pub proof fn law_bf16_round_trip(h: u16)
    ensures
        bf16_bits(widened(h) as u32) == h,
{
    lemma_rne_exact(h as nat, 0x1_0000);
}

/// On a number, narrowing to bf16 is the rounded upper half, with no wrap.
pub proof fn law_bf16_nearest(b: u32)
    requires
        !is_nan32(b),
    ensures
        bf16_bits(b) == rne(b as nat, 0x1_0000),
{
    let top: nat = if is_negative(b) {
        0xff80
    } else {
        0x7f80
    };
    lemma_rne_bounds(b as nat, 0x1_0000, 0, top);
}

/// A half-precision result within the normal range is off by at most half a
/// unit in its last place.
pub proof fn law_half_nearest(b: u32)
    requires
        !is_nan32(b),
        exponent(magnitude(b)) >= 113,
        half_magnitude(magnitude(b)) < 0x7c00,
    ensures
        ({
            let m = magnitude(b);
            let units = half_magnitude(m) - (exponent(m) - 113) * 0x400;
            &&& 2 * (significand(m) - 0x2000 * units) <= 0x2000
            &&& 2 * (0x2000 * units - significand(m)) <= 0x2000
        }),
{
    lemma2_to64();
    lemma_rne_nearest(significand(magnitude(b)), 0x2000);
}

/// Two significands of 24 bits and their scales are told apart by the product.
proof fn lemma_scale_unique(a: nat, i: nat, b: nat, j: nat)
    requires
        0x80_0000 <= a < 0x100_0000,
        0x80_0000 <= b < 0x100_0000,
        a * pow2(i) == b * pow2(j),
    ensures
        a == b,
        i == j,
    decreases i,
{
    if i < j {
        let d = (j - i - 1) as nat;
        lemma_pow2_adds(i, (j - i) as nat);
        lemma_pow2_unfold((j - i) as nat);
        lemma_pow2_pos(i);
        lemma_pow2_pos(d);
        let p = pow2(i);
        let q = pow2(d);
        assert(b * (p * (2 * q)) >= 2 * b * p) by (nonlinear_arith)
            requires
                q >= 1,
        ;
        assert(a * p < 2 * b * p) by (nonlinear_arith)
            requires
                a < 2 * b,
                p >= 1,
        ;
    } else if j < i {
        lemma_scale_unique(b, j, a, i);
    } else {
        lemma_pow2_pos(i);
        let p = pow2(i);
        assert(a == b) by (nonlinear_arith)
            requires
                a * p == b * p,
                p >= 1,
        ;
    }
}

/// A small number times a power of two has eleven bits.
proof fn lemma_eleven_bits(m: nat) -> (s: nat)
    requires
        1 <= m < 0x400,
    ensures
        1 <= s <= 10,
        0x400 <= m * pow2(s) < 0x800,
    decreases 0x400 - m,
{
    lemma2_to64();
    if m >= 0x200 {
        1
    } else {
        let s = lemma_eleven_bits(2 * m);
        lemma_pow2_unfold((s + 1) as nat);
        let p = pow2(s);
        assert(m * (2 * p) == 2 * m * p) by (nonlinear_arith);
        if s == 10 {
            assert(pow2(10) == 0x400);
            assert(2 * m * p >= 0x800) by (nonlinear_arith)
                requires
                    m >= 1,
                    p == 0x400,
            ;
        }
        s + 1
    }
}

/// Widening a half-precision number and narrowing it again gives it back.
pub proof fn law_half_round_trip(h: u16, b: u32)
    requires
        widens_half(h, b),
        h as nat % 0x8000 <= 0x7c00,
    ensures
        half_bits(b) == h,
{
    let m = h as nat % 0x8000;
    let w = magnitude(b);
    lemma2_to64();
    if m == 0x7c00 {
        lemma_rne_exact(0x400, 0x2000);
        assert((255 - 113) as nat * pow2((23 - 13) as nat) == 142 * 0x400) by (nonlinear_arith)
            requires
                pow2((23 - 13) as nat) == 0x400,
        ;
    } else {
        let units = half_units(m);
        let top = exponent(w);
        let sig = significand(w);
        lemma_pow2_pos(125);
        lemma_pow2_adds(61, 64);
        if m == 0 {
            lemma_pow2_pos((top - 1) as nat);
            let p = pow2((top - 1) as nat);
            assert(sig == 0) by (nonlinear_arith)
                requires
                    sig * p == 0 * pow2(125),
                    p >= 1,
            ;
            assert(w == 0);
            lemma_pow2_pos(125);
            assert(13 + (113 - 1) == 125);
            lemma_rne_exact(0, pow2(125));
            assert(narrowed(w, 13, 113) == 0);
        } else {
            let (e, g): (nat, nat) = if m < 0x400 {
                let s = lemma_eleven_bits(m);
                ((113 - s) as nat, m * pow2(s))
            } else {
                ((m / 0x400 + 112) as nat, (m % 0x400 + 0x400) as nat)
            };
            if m < 0x400 {
                let s = (113 - e) as nat;
                lemma_pow2_adds(s, (125 - s) as nat);
                assert(m * pow2(s) * pow2((125 - s) as nat) == m * (pow2(s) * pow2(
                    (125 - s) as nat,
                ))) by (nonlinear_arith);
                assert(12 + e == 125 - s);
            } else {
                let j = (m / 0x400 - 1) as nat;
                lemma_pow2_adds(j, 125);
                assert(g * pow2(j) * pow2(125) == g * (pow2(j) * pow2(125))) by (nonlinear_arith);
                assert(12 + e == j + 125);
            }
            assert(units * pow2(125) == g * pow2(12 + e));
            lemma_pow2_adds(13, (e - 1) as nat);
            assert(13 + (e - 1) == 12 + e);
            let p = pow2((e - 1) as nat);
            assert(g * (0x2000 * p) == g * 0x2000 * p) by (nonlinear_arith);
            assert(fine_units(w) == g * 0x2000 * p);
            if w < 0x80_0000 {
                assert(fine_units(w) == w * 1);
                lemma_pow2_pos((e - 1) as nat);
                lemma_pow2_strictly_increases(24, (e - 1) as nat);
                assert(g * 0x2000 * p > 0x100_0000) by (nonlinear_arith)
                    requires
                        g >= 0x400,
                        p >= 0x100_0000,
                ;
            }
            lemma_scale_unique(sig, (top - 1) as nat, (g * 0x2000) as nat, (e - 1) as nat);
            if m < 0x400 {
                let s = (113 - e) as nat;
                lemma_pow2_adds(s, 13);
                assert(m * pow2(s) * 0x2000 == m * (pow2(s) * 0x2000)) by (nonlinear_arith);
                lemma_pow2_pos((s + 13) as nat);
                lemma_rne_exact(m, pow2((s + 13) as nat));
                assert(13 + (113 - e) == s + 13);
                assert(narrowed(w, 13, 113) == m);
            } else {
                lemma_rne_exact(g, 0x2000);
                assert((top - 113) as nat * pow2((23 - 13) as nat) == (top - 113) * 0x400)
                    by (nonlinear_arith)
                    requires
                        pow2((23 - 13) as nat) == 0x400,
                        top >= 113,
                ;
                assert(narrowed(w, 13, 113) == m);
            }
        }
    }
}

} // verus!
