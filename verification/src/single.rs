//! Single-precision arithmetic on bit patterns.
//!
//! The pattern of a number that is not negative holds its exponent above its
//! fraction: it stands for a significand of 24 bits at most, times a power of two.

use crate::devices;
use vstd::prelude::*;

verus! {

/// Twice the largest fraction bit: the weight of the exponent in a pattern.
pub const FRACTION: u32 = 0x80_0000;

/// A significand is less than this.
pub const SIGNIFICANDS: u64 = 0x100_0000;

/// Whether a pattern stands for a number above zero, infinity too.
pub open spec fn is_positive(pattern: u32) -> bool {
    0 < pattern <= devices::INFINITE
}

/// The significand of a finite number.
pub open spec fn significand(pattern: u32) -> nat {
    if pattern < FRACTION {
        pattern as nat
    } else {
        (FRACTION + pattern % FRACTION) as nat
    }
}

/// The power of two that the significand is multiplied by.
pub open spec fn exponent(pattern: u32) -> int {
    if pattern < FRACTION {
        -149
    } else {
        pattern / FRACTION - 150
    }
}

/// How far apart the numbers of single precision are at `n`, where the exponent
/// has no bounds.
pub open spec fn spacing(n: nat) -> nat
    decreases n,
{
    if n < SIGNIFICANDS {
        1
    } else {
        2 * spacing(n / 2)
    }
}

/// The number of single precision that is nearest to `n`. Of two that are as near,
/// it is the one with the even significand.
pub open spec fn nearest(n: nat) -> nat {
    let u = spacing(n);
    let q = n / u;
    let r = n % u;
    if 2 * r < u || 2 * r == u && q % 2 == 0 {
        q * u
    } else {
        (q + 1) * u
    }
}

/// The whole part of `n` times a power of two.
pub open spec fn scaled(n: nat, power: int) -> nat {
    if power >= 0 {
        n * vstd::arithmetic::power2::pow2(power as nat)
    } else {
        n / vstd::arithmetic::power2::pow2((-power) as nat)
    }
}

/// The whole part of a finite number times a whole number, both factors and their
/// product in single precision. The bounds of the exponent do not show in it: what
/// they change is far below one, or above every `usize`.
pub open spec fn whole_product(pattern: u32, n: u32) -> nat {
    scaled(nearest(significand(pattern) * nearest(n as nat)), exponent(pattern))
}

/// A number times a whole number, as a count: nothing for what is not above zero
/// or not a number, and the largest count where the product is larger.
pub open spec fn count_of(pattern: u32, n: u32) -> int {
    if !is_positive(pattern) || n == 0 {
        0
    } else if pattern == devices::INFINITE || whole_product(pattern, n) > usize::MAX {
        usize::MAX as int
    } else {
        whole_product(pattern, n) as int
    }
}

proof fn lemma_spacing(n: nat)
    ensures
        spacing(n) >= 1,
        n < SIGNIFICANDS * spacing(n),
        n >= SIGNIFICANDS ==> SIGNIFICANDS * spacing(n) <= 2 * n,
    decreases n,
{
    if n >= SIGNIFICANDS {
        lemma_spacing(n / 2);
    }
}

/// What is nearest is off by half a spacing at most.
pub proof fn lemma_nearest(n: nat)
    ensures
        2 * (nearest(n) - n) <= spacing(n),
        2 * (n - nearest(n)) <= spacing(n),
        n < SIGNIFICANDS ==> nearest(n) == n,
{
    lemma_spacing(n);
    let u = spacing(n) as int;
    let q = n as int / u;
    vstd::arithmetic::div_mod::lemma_fundamental_div_mod(n as int, u);
    assert(q * u == u * q) by (nonlinear_arith);
    assert((q + 1) * u == q * u + u) by (nonlinear_arith);
}

fn to_nearest(n: u64) -> (r: u64)
    requires
        n <= 0x100_0000_0000_0000,
    ensures
        r == nearest(n as nat),
        r <= 0x200_0000_0000_0000,
{
    let mut u: u64 = 1;
    let mut q: u64 = n;
    while q >= SIGNIFICANDS
        invariant
            n <= 0x100_0000_0000_0000,
            1 <= u,
            u * q <= n,
            spacing(n as nat) == u * spacing(q as nat),
        decreases q,
    {
        assert(2 * u * (q / 2) <= u * q && u <= u * q) by (nonlinear_arith)
            requires
                1 <= u,
                1 <= q,
        ;
        assert(u * (2 * spacing(q as nat / 2)) == 2 * u * spacing(q as nat / 2))
            by (nonlinear_arith);
        q = q / 2;
        u = 2 * u;
    }
    assert(u * spacing(q as nat) == u) by (nonlinear_arith)
        requires
            spacing(q as nat) == 1,
    ;
    proof {
        lemma_spacing(n as nat);
        lemma_nearest(n as nat);
        let w = n as int / u as int;
        vstd::arithmetic::div_mod::lemma_fundamental_div_mod(n as int, u as int);
        assert(w * u == u * w) by (nonlinear_arith);
        assert((w + 1) * u == w * u + u) by (nonlinear_arith);
        assert(0 <= w) by {
            vstd::arithmetic::div_mod::lemma_div_pos_is_pos(n as int, u as int);
        }
        assert(w <= w * u) by (nonlinear_arith)
            requires
                0 <= w,
                1 <= u,
        ;
    }
    let q = n / u;
    let r = n % u;
    if 2 * r < u || 2 * r == u && q % 2 == 0 {
        q * u
    } else {
        (q + 1) * u
    }
}

fn two_to(power: u32) -> (r: u64)
    requires
        power < 64,
    ensures
        r == vstd::arithmetic::power2::pow2(power as nat),
        r > 0,
{
    proof {
        vstd::arithmetic::power2::lemma2_to64();
        vstd::arithmetic::power2::lemma2_to64_rest();
    }
    let mut r: u64 = 1;
    let mut i: u32 = 0;
    while i < power
        invariant
            i <= power < 64,
            r == vstd::arithmetic::power2::pow2(i as nat),
            r > 0,
        decreases power - i,
    {
        proof {
            vstd::arithmetic::power2::lemma_pow2_unfold((i + 1) as nat);
            if i + 1 < 63 {
                vstd::arithmetic::power2::lemma_pow2_strictly_increases((i + 1) as nat, 63);
            }
            vstd::arithmetic::power2::lemma2_to64_rest();
        }
        r = 2 * r;
        i += 1;
    }
    r
}

/// The whole part of `n` times a power of two, or the largest count.
fn scale(n: u64, power: i32) -> (r: usize)
    requires
        n <= 0x200_0000_0000_0000,
        -149 <= power <= 104,
    ensures
        r == (if scaled(n as nat, power as int) > usize::MAX {
            usize::MAX as int
        } else {
            scaled(n as nat, power as int) as int
        }),
{
    if power >= 64 {
        proof {
            lemma_at_least(power as nat);
            let p = vstd::arithmetic::power2::pow2(power as nat) as int;
            assert(if n > 0 {
                n * p >= p
            } else {
                n * p == 0
            }) by (nonlinear_arith)
                requires
                    n >= 0,
                    p >= 0,
            ;
        }
        return if n == 0 {
            0
        } else {
            usize::MAX
        };
    }
    if power <= -64 {
        proof {
            lemma_at_least((-power) as nat);
            let p = vstd::arithmetic::power2::pow2((-power) as nat) as int;
            vstd::arithmetic::div_mod::lemma_basic_div(n as int, p);
        }
        return 0;
    }
    if power < 0 {
        let q = n / two_to((-power) as u32);
        return if q > usize::MAX as u64 {
            usize::MAX
        } else {
            q as usize
        };
    }
    let p = two_to(power as u32);
    assert(n * p <= 0x200_0000_0000_0000 * 0x1_0000_0000_0000_0000) by (nonlinear_arith)
        requires
            n <= 0x200_0000_0000_0000,
            p <= 0x1_0000_0000_0000_0000,
    ;
    assert(0 <= n * p) by (nonlinear_arith);
    let q = (n as u128) * (p as u128);
    if q > usize::MAX as u128 {
        usize::MAX
    } else {
        q as usize
    }
}

proof fn lemma_at_least(power: nat)
    requires
        power >= 64,
    ensures
        vstd::arithmetic::power2::pow2(power) >= 0x1_0000_0000_0000_0000,
{
    vstd::arithmetic::power2::lemma2_to64_rest();
    if power > 64 {
        vstd::arithmetic::power2::lemma_pow2_strictly_increases(64, power);
    }
}

/// A number, by its pattern, times a whole number, as a count.
pub fn times_count(pattern: u32, n: u32) -> (r: usize)
    ensures
        r == count_of(pattern, n),
{
    if pattern == 0 || pattern > devices::INFINITE || n == 0 {
        return 0;
    }
    if pattern == devices::INFINITE {
        return usize::MAX;
    }
    let m: u64 = if pattern < FRACTION {
        pattern as u64
    } else {
        (FRACTION + pattern % FRACTION) as u64
    };
    let power: i32 = if pattern < FRACTION {
        -149
    } else {
        (pattern / FRACTION) as i32 - 150
    };
    let s = to_nearest(n as u64);
    proof {
        lemma_nearest_word(n);
        assert(m * s <= 0x100_0000 * 0x1_0000_0000) by (nonlinear_arith)
            requires
                0 <= m <= 0x100_0000,
                0 <= s <= 0x1_0000_0000,
        ;
        assert(0 <= m * s) by (nonlinear_arith);
    }
    scale(to_nearest(m * s), power)
}

/// A number of 32 bits rounds to 2^32 at most.
proof fn lemma_nearest_word(n: u32)
    ensures
        nearest(n as nat) <= 0x1_0000_0000,
{
    lemma_nearest(n as nat);
    reveal_with_fuel(spacing, 10);
    let u = spacing(n as nat) as int;
    let q = n as int / u;
    lemma_spacing(n as nat);
    assert(u == 1 || u == 2 || u == 4 || u == 8 || u == 16 || u == 32 || u == 64 || u == 128 || u
        == 256);
}

} // verus!
