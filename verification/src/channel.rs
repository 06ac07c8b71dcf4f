//! Quantization of a color channel, given as the bit pattern of an IEEE 754 binary32
//! value, to an 8-bit channel: the value is clamped to `[0, 1]`, multiplied by 255 in
//! binary32 arithmetic (round to nearest, ties to even), rounded to the nearest integer
//! with ties away from zero, and converted to `u8` with saturation (NaN gives 0).

use vstd::prelude::*;
use vstd::arithmetic::power2::{
    lemma2_to64, lemma2_to64_rest, lemma_pow2_adds, lemma_pow2_pos, lemma_pow2_strictly_increases,
    lemma_pow2_unfold, pow2,
};
use vstd::arithmetic::div_mod::{
    lemma_basic_div, lemma_div_by_multiple, lemma_div_denominator, lemma_div_is_ordered,
    lemma_fundamental_div_mod, lemma_fundamental_div_mod_converse, lemma_mod_pos_bound,
};
use vstd::arithmetic::mul::lemma_mul_inequality;

verus! {

/// The biased exponent field of a binary32 bit pattern.
pub open spec fn binary32_exponent_field(bits: u32) -> nat {
    ((bits as nat) / 0x80_0000) % 0x100
}

/// The fraction field of a binary32 bit pattern.
pub open spec fn binary32_fraction_field(bits: u32) -> nat {
    (bits as nat) % 0x80_0000
}

/// The sign bit of a binary32 bit pattern is set.
pub open spec fn binary32_sign_set(bits: u32) -> bool {
    bits >= 0x8000_0000
}

/// The bit pattern is a NaN.
pub open spec fn binary32_is_nan(bits: u32) -> bool {
    binary32_exponent_field(bits) == 0xff && binary32_fraction_field(bits) != 0
}

/// The integer significand of a finite binary32: the fraction with the implicit leading
/// bit for normal numbers.
pub open spec fn binary32_significand(bits: u32) -> nat {
    if binary32_exponent_field(bits) == 0 {
        binary32_fraction_field(bits)
    } else {
        binary32_fraction_field(bits) + 0x80_0000
    }
}

/// For a finite non-negative binary32 below 2^127, the value is
/// `binary32_significand(bits) / 2^binary32_scale_shift(bits)`.
pub open spec fn binary32_scale_shift(bits: u32) -> nat {
    if binary32_exponent_field(bits) == 0 {
        149
    } else {
        (150 - binary32_exponent_field(bits)) as nat
    }
}

/// How many low bits of `p` must be dropped to leave at most 24 significant bits.
pub open spec fn excess_bits(p: nat) -> nat
    decreases p,
{
    if p < 0x100_0000 {
        0
    } else {
        1 + excess_bits(p / 2)
    }
}

/// `p / 2^s` rounded to the nearest integer, ties to even.
pub open spec fn round_ties_even(p: nat, s: nat) -> nat {
    let d = pow2(s);
    let q = p / d;
    let r = p % d;
    if 2 * r > d || (2 * r == d && q % 2 == 1) {
        q + 1
    } else {
        q
    }
}

/// `q / 2^t` rounded to the nearest integer, ties away from zero (for `t > 0`).
pub open spec fn round_half_away(q: nat, t: nat) -> nat {
    (q + pow2((t - 1) as nat)) / pow2(t)
}

/// The `u8` that an `as u8` conversion gives for a non-negative integer.
pub open spec fn saturate_u8(n: nat) -> u8 {
    if n > 255 {
        255
    } else {
        n as u8
    }
}

/// The 8-bit channel for a binary32 channel value.
///
/// NaN and values at or below zero give 0; values at or above one give 255. Otherwise the
/// exact product `255 * v = p / 2^k` (with `p = 255 * significand`) is first rounded to 24
/// significant bits, ties to even, as binary32 multiplication does (the product of a value
/// below one by 255 is neither subnormal when it has more than 24 bits nor out of range),
/// and the result `q / 2^(k - s)` is then rounded to an integer, ties away from zero.
pub open spec fn spec_color_component(bits: u32) -> u8 {
    if binary32_is_nan(bits) || binary32_sign_set(bits) {
        0
    } else if binary32_exponent_field(bits) >= 127 {
        255
    } else {
        let p = 255 * binary32_significand(bits);
        let s = excess_bits(p);
        let q = round_ties_even(p, s);
        saturate_u8(round_half_away(q, (binary32_scale_shift(bits) - s) as nat))
    }
}

proof fn lemma_halving_step(p: nat, s: nat)
    ensures
        (p / pow2(s)) / 2 == p / pow2(s + 1),
        pow2(s + 1) == 2 * pow2(s),
{
    lemma_pow2_unfold(s + 1);
    lemma_pow2_pos(s);
    lemma_div_denominator(p as int, pow2(s) as int, 2);
    assert(pow2(s) * 2 == 2 * pow2(s)) by (nonlinear_arith);
}

proof fn lemma_excess_bits_unfold(reduced: nat)
    requires
        reduced >= 0x100_0000,
    ensures
        excess_bits(reduced) == 1 + excess_bits(reduced / 2),
{
}

/// Computes `spec_color_component` on the bit pattern of a binary32 channel value.
pub fn color_component(bits: u32) -> (result: u8)
    ensures
        result == spec_color_component(bits),
{
    let exponent: u32 = (bits / 0x80_0000) % 0x100;
    let fraction: u32 = bits % 0x80_0000;
    if (exponent == 0xff && fraction != 0) || bits >= 0x8000_0000 {
        return 0;
    }
    if exponent >= 127 {
        return 255;
    }
    let significand: u64 = if exponent == 0 {
        fraction as u64
    } else {
        fraction as u64 + 0x80_0000
    };
    assert(significand == binary32_significand(bits));
    assert(significand < 0x100_0000);
    let p: u64 = 255 * significand;
    assert(p < 0x1_0000_0000);

    // Drop low bits until at most 24 significant bits remain.
    let mut s: u64 = 0;
    let mut d: u64 = 1;
    let mut reduced: u64 = p;
    proof {
        lemma2_to64();
    }
    while reduced >= 0x100_0000
        invariant
            p < 0x1_0000_0000,
            d == pow2(s as nat),
            reduced == (p as nat) / pow2(s as nat),
            excess_bits(p as nat) == s + excess_bits(reduced as nat),
            d * reduced <= p,
            d < 0x200,
            s <= 9,
        decreases reduced,
    {
        proof {
            lemma2_to64();
            if s > 8 {
                lemma_pow2_strictly_increases(8, s as nat);
            }
            lemma_excess_bits_unfold(reduced as nat);
            lemma_halving_step(p as nat, s as nat);
            assert(d * 0x100_0000 <= p) by (nonlinear_arith)
                requires
                    d * reduced <= p,
                    reduced >= 0x100_0000,
            ;
            assert(2 * d * (reduced / 2) <= d * reduced) by (nonlinear_arith)
                requires
                    d >= 1,
            ;
        }
        reduced = reduced / 2;
        s = s + 1;
        d = d * 2;
    }
    proof {
        if s > 8 {
            lemma_pow2_strictly_increases(8, s as nat);
            lemma_pow2_unfold(9);
        }
    }
    assert(s <= 8);
    let q0: u64 = p / d;
    let r: u64 = p % d;
    let q: u64 = if 2 * r > d || (2 * r == d && q0 % 2 == 1) {
        q0 + 1
    } else {
        q0
    };
    assert(q == round_ties_even(p as nat, s as nat));
    assert(q <= 0x100_0000);

    let shift: u64 = if exponent == 0 {
        149
    } else {
        150 - exponent as u64
    };
    assert(shift == binary32_scale_shift(bits));
    let t: u64 = shift - s;
    assert(t >= 16);
    let rounded: u64 = if t >= 26 {
        proof {
            if t - 1 > 25 {
                lemma_pow2_strictly_increases(25, (t - 1) as nat);
            }
            lemma2_to64();
            lemma_pow2_unfold(t as nat);
            lemma_basic_div((q + pow2((t - 1) as nat)) as int, pow2(t as nat) as int);
        }
        0
    } else {
        let mut full: u64 = 1;
        let mut i: u64 = 0;
        while i < t
            invariant
                t < 26,
                i <= t,
                full == pow2(i as nat),
                full <= 0x200_0000,
            decreases t - i,
        {
            proof {
                lemma2_to64();
                lemma_pow2_unfold((i + 1) as nat);
                if i + 1 < 25 {
                    lemma_pow2_strictly_increases((i + 1) as nat, 25);
                }
            }
            full = full * 2;
            i = i + 1;
        }
        proof {
            lemma_pow2_unfold(t as nat);
        }
        (q + full / 2) / full
    };
    assert(rounded == round_half_away(q as nat, t as nat));
    if rounded > 255 {
        255
    } else {
        rounded as u8
    }
}

} // verus!

verus! {

/// The value of a finite, non-negative binary32 below 2^127 (with the sign bit clear),
/// scaled by 2^149 so that it is an integer.
pub open spec fn binary32_scaled_value(bits: u32) -> nat {
    binary32_significand(bits) * pow2((149 - binary32_scale_shift(bits)) as nat)
}

/// `x` rounded to 24 significant bits, ties to even.
pub open spec fn round_to_24_bits(x: nat) -> nat {
    round_ties_even(x, excess_bits(x)) * pow2(excess_bits(x))
}

proof fn lemma_excess_bits_bounds(x: nat)
    ensures
        x < pow2(24 + excess_bits(x)),
        excess_bits(x) > 0 ==> x >= pow2(23 + excess_bits(x)),
    decreases x,
{
    lemma2_to64();
    if x >= 0x100_0000 {
        let s = excess_bits(x / 2);
        lemma_excess_bits_bounds(x / 2);
        lemma_pow2_unfold(24 + s + 1);
        lemma_pow2_unfold(23 + s + 1);
        assert(excess_bits(x) == s + 1);
    }
}

proof fn lemma_excess_bits_monotone(x: nat, y: nat)
    requires
        x <= y,
    ensures
        excess_bits(x) <= excess_bits(y),
    decreases y,
{
    if x >= 0x100_0000 {
        lemma_excess_bits_monotone(x / 2, y / 2);
    }
}

proof fn lemma_round_ties_even_monotone(x: nat, y: nat, s: nat)
    requires
        x <= y,
    ensures
        round_ties_even(x, s) <= round_ties_even(y, s),
{
    let d = pow2(s);
    lemma_pow2_pos(s);
    lemma_div_is_ordered(x as int, y as int, d as int);
    lemma_fundamental_div_mod(x as int, d as int);
    lemma_fundamental_div_mod(y as int, d as int);
    lemma_mod_pos_bound(x as int, d as int);
    lemma_mod_pos_bound(y as int, d as int);
}

proof fn lemma_quotient_bounds(x: nat, a: nat, b: nat)
    requires
        b > 0,
    ensures
        x < a * b ==> x / b < a,
        x >= a * b ==> x / b >= a,
{
    lemma_fundamental_div_mod(x as int, b as int);
    lemma_mod_pos_bound(x as int, b as int);
    if x < a * b && x / b >= a {
        let q = x / b;
        assert(false) by (nonlinear_arith)
            requires
                x == b * q + x % b,
                x % b >= 0,
                q >= a,
                x < a * b,
                b > 0,
        ;
    }
    if x >= a * b {
        lemma_div_is_ordered((a * b) as int, x as int, b as int);
        lemma_div_by_multiple(a as int, b as int);
    }
}

proof fn lemma_round_to_24_bits_monotone(x: nat, y: nat)
    requires
        x <= y,
    ensures
        round_to_24_bits(x) <= round_to_24_bits(y),
{
    let sx = excess_bits(x);
    let sy = excess_bits(y);
    lemma_excess_bits_monotone(x, y);
    lemma_pow2_pos(sx);
    lemma_pow2_pos(sy);
    if sx == sy {
        lemma_round_ties_even_monotone(x, y, sx);
        lemma_mul_inequality(round_ties_even(x, sx) as int, round_ties_even(y, sx) as int, pow2(sx) as int);
    } else {
        lemma2_to64();
        lemma_excess_bits_bounds(x);
        lemma_excess_bits_bounds(y);
        lemma_pow2_adds(24, sx);
        lemma_pow2_adds(23, sy);
        lemma_quotient_bounds(x, pow2(24), pow2(sx));
        lemma_quotient_bounds(y, pow2(23), pow2(sy));
        let qx = x / pow2(sx);
        let qy = y / pow2(sy);
        assert(round_ties_even(x, sx) <= pow2(24));
        assert(round_ties_even(y, sy) >= pow2(23));
        lemma_mul_inequality(round_ties_even(x, sx) as int, pow2(24) as int, pow2(sx) as int);
        lemma_mul_inequality(pow2(23) as int, round_ties_even(y, sy) as int, pow2(sy) as int);
        if 24 + sx < 23 + sy {
            lemma_pow2_strictly_increases(24 + sx, 23 + sy);
        }
    }
}

proof fn lemma_excess_bits_scaled(p: nat, c: nat)
    requires
        p >= 0x100_0000,
    ensures
        excess_bits(p * pow2(c)) == excess_bits(p) + c,
        p * pow2(c) >= 0x100_0000,
    decreases c,
{
    lemma2_to64();
    if c > 0 {
        lemma_excess_bits_scaled(p, (c - 1) as nat);
        lemma_pow2_unfold(c);
        let z = p * pow2((c - 1) as nat);
        assert(p * pow2(c) == z * 2) by (nonlinear_arith)
            requires
                pow2(c) == 2 * pow2((c - 1) as nat),
                z == p * pow2((c - 1) as nat),
        ;
        assert((z * 2) / 2 == z);
    } else {
        assert(p * pow2(0) == p) by (nonlinear_arith)
            requires
                pow2(0) == 1,
        ;
    }
}

proof fn lemma_round_ties_even_scaled(x: nat, s: nat, c: nat)
    ensures
        round_ties_even(x * pow2(c), s + c) == round_ties_even(x, s),
{
    let d = pow2(s);
    let k = pow2(c);
    lemma_pow2_pos(s);
    lemma_pow2_pos(c);
    lemma_pow2_adds(s, c);
    let q = x / d;
    let r = x % d;
    lemma_fundamental_div_mod(x as int, d as int);
    lemma_mod_pos_bound(x as int, d as int);
    assert(x * k == q * (d * k) + r * k && 0 <= r * k < d * k) by (nonlinear_arith)
        requires
            x == d * q + r,
            0 <= r < d,
            k > 0,
    ;
    lemma_fundamental_div_mod_converse((x * k) as int, (d * k) as int, q as int, (r * k) as int);
    assert((2 * (r * k) > d * k) == (2 * r > d)) by (nonlinear_arith)
        requires
            k > 0,
    ;
    assert((2 * (r * k) == d * k) == (2 * r == d)) by (nonlinear_arith)
        requires
            k > 0,
    ;
}

proof fn lemma_cancel_common_factor(a: nat, b: nat, k: nat)
    requires
        b > 0,
        k > 0,
    ensures
        (a * k) / (b * k) == a / b,
{
    lemma_div_by_multiple(a as int, k as int);
    lemma_div_denominator((a * k) as int, k as int, b as int);
    assert(k * b == b * k) by (nonlinear_arith);
}

/// Outside NaN, negative values and values of one or more, the channel is the product by
/// 255, rounded to binary32, then rounded to an integer, all on the value scaled by 2^149.
proof fn lemma_color_component_on_scaled_value(bits: u32)
    requires
        !binary32_is_nan(bits),
        !binary32_sign_set(bits),
        binary32_exponent_field(bits) < 127,
    ensures
        spec_color_component(bits) == saturate_u8(
            (round_to_24_bits(255 * binary32_scaled_value(bits)) + pow2(148)) / pow2(149),
        ),
{
    lemma2_to64();
    let sig = binary32_significand(bits);
    let shift = binary32_scale_shift(bits);
    let c = (149 - shift) as nat;
    let p = 255 * sig;
    let s = excess_bits(p);
    let q = round_ties_even(p, s);
    let x = 255 * binary32_scaled_value(bits);
    assert(x == p * pow2(c)) by (nonlinear_arith)
        requires
            x == 255 * (sig * pow2(c)),
            p == 255 * sig,
    ;
    lemma_excess_bits_bounds(p);
    if s > 8 {
        lemma_pow2_strictly_increases(32, 23 + s);
        lemma2_to64_rest();
    }
    assert(s <= 8);
    let t = (shift - s) as nat;
    assert(t >= 16);
    if c == 0 {
        assert(x == p) by (nonlinear_arith)
            requires
                x == p * pow2(c),
                pow2(c) == 1,
                c == 0,
        ;
        assert(round_to_24_bits(x) == q * pow2(s + c));
    } else {
        assert(p >= 0x100_0000);
        lemma_excess_bits_scaled(p, c);
        lemma_round_ties_even_scaled(p, s, c);
        lemma_pow2_adds(s, c);
        assert(round_to_24_bits(x) == q * pow2(s + c));
    }
    let k = pow2(s + c);
    lemma_pow2_pos(s + c);
    lemma_pow2_pos(t);
    lemma_pow2_adds(t, s + c);
    lemma_pow2_adds((t - 1) as nat, s + c);
    assert(t + (s + c) == 149);
    assert((t - 1) as nat + (s + c) == 148);
    assert(q * k + pow2(148) == (q + pow2((t - 1) as nat)) * k) by (nonlinear_arith)
        requires
            pow2(148) == pow2((t - 1) as nat) * k,
    ;
    lemma_cancel_common_factor(q + pow2((t - 1) as nat), pow2(t), k);
}

proof fn lemma_scaled_value_monotone(a: u32, b: u32)
    requires
        a <= b,
        b < 0x7f80_0000,
        binary32_exponent_field(b) < 127,
    ensures
        binary32_scaled_value(a) <= binary32_scaled_value(b),
{
    lemma2_to64();
    let ea = binary32_exponent_field(a);
    let eb = binary32_exponent_field(b);
    assert(ea == (a as nat) / 0x80_0000);
    assert(eb == (b as nat) / 0x80_0000);
    assert(ea <= eb);
    let ca = (149 - binary32_scale_shift(a)) as nat;
    let cb = (149 - binary32_scale_shift(b)) as nat;
    let sa = binary32_significand(a);
    let sb = binary32_significand(b);
    lemma_pow2_pos(ca);
    lemma_pow2_pos(cb);
    if ea == eb {
        assert(sa <= sb);
        lemma_mul_inequality(sa as int, sb as int, pow2(ca) as int);
    } else {
        assert(eb >= 1 && sb >= 0x80_0000 && cb == eb - 1);
        lemma_mul_inequality(0x80_0000, sb as int, pow2(cb) as int);
        if ea == 0 {
            assert(ca == 0 && sa < 0x80_0000);
            assert(pow2(cb) >= 1);
            assert(sa * pow2(ca) == sa) by (nonlinear_arith)
                requires
                    pow2(ca) == 1,
            ;
            assert(0x80_0000 <= 0x80_0000 * pow2(cb)) by (nonlinear_arith)
                requires
                    pow2(cb) >= 1,
            ;
        } else {
            assert(ca == ea - 1 && sa < 0x100_0000);
            lemma_mul_inequality(sa as int, 0x100_0000, pow2(ca) as int);
            lemma_pow2_adds(24, ca);
            lemma_pow2_adds(23, cb);
            if 24 + ca < 23 + cb {
                lemma_pow2_strictly_increases(24 + ca, 23 + cb);
            }
        }
    }
}

/// Law: quantization keeps the order of channel values: for non-negative, non-NaN
/// binary32 values (whose bit patterns are ordered as the values are), a larger value
/// never gives a smaller 8-bit channel.
pub proof fn law_color_component_is_monotone(a: u32, b: u32)
    requires
        a <= b,
        b <= 0x7f80_0000,
    ensures
        spec_color_component(a) <= spec_color_component(b),
{
    lemma2_to64();
    let eb = binary32_exponent_field(b);
    if eb < 127 {
        assert(binary32_exponent_field(a) <= eb);
        lemma_color_component_on_scaled_value(a);
        lemma_color_component_on_scaled_value(b);
        lemma_scaled_value_monotone(a, b);
        lemma_mul_inequality(binary32_scaled_value(a) as int, binary32_scaled_value(b) as int, 255);
        lemma_round_to_24_bits_monotone(255 * binary32_scaled_value(a), 255 * binary32_scaled_value(b));
        lemma_pow2_pos(149);
        lemma_div_is_ordered(
            (round_to_24_bits(255 * binary32_scaled_value(a)) + pow2(148)) as int,
            (round_to_24_bits(255 * binary32_scaled_value(b)) + pow2(148)) as int,
            pow2(149) as int,
        );
    }
}

} // verus!
