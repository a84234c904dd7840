//! Fixed-point scales and the shared integer arithmetic helpers: the
//! integer square root used for the velocity curve, and small division
//! bound lemmas used throughout the amplitude engine.

use vstd::prelude::*;

verus! {

use vstd::arithmetic::div_mod::lemma_multiply_divide_le;
use vstd::arithmetic::div_mod::lemma_multiply_divide_lt;

/// One in the Q16 scale: velocities, gains and unit waveform values are
/// integers counted in 1/65536 steps, so 65536 stands for the real value one.
pub const Q16: i64 = 65536;

/// A full oscillator cycle in the phase scale: a phase is a u64 strictly
/// below PHASE_ONE, counted in 1/PHASE_ONE fractions of a cycle.
pub const PHASE_ONE: u64 = 0x1_0000_0000;

/// Half a cycle in the phase scale.
pub const PHASE_HALF: u64 = 0x8000_0000;

/// One hertz in the Q20 frequency scale.
pub const FREQ_ONE_HZ: u64 = 0x10_0000;

/// Integer square root, defined by halving the argument's bit width:
/// the result is the largest r with r * r <= n.
pub open spec fn isqrt_spec(n: int) -> int
    decreases n,
{
    if n <= 0 {
        0
    } else {
        let r = isqrt_spec(n / 4);
        if (2 * r + 1) * (2 * r + 1) <= n {
            2 * r + 1
        } else {
            2 * r
        }
    }
}

/// The integer square root is the exact rounded-down square root.
pub proof fn lemma_isqrt_bounds(n: int)
    requires
        0 <= n,
    ensures
        0 <= isqrt_spec(n),
        isqrt_spec(n) * isqrt_spec(n) <= n,
        n < (isqrt_spec(n) + 1) * (isqrt_spec(n) + 1),
    decreases n,
{
    if n == 0 {
    } else {
        let q = n / 4;
        let s = n % 4;
        lemma_isqrt_bounds(q);
        let r = isqrt_spec(q);
        assert(n == 4 * q + s && 0 <= s < 4) by {
            vstd::arithmetic::div_mod::lemma_fundamental_div_mod(n, 4);
        }
        assert((2 * r) * (2 * r) <= n) by (nonlinear_arith)
            requires
                r * r <= q,
                n == 4 * q + s,
                0 <= s,
        ;
        assert(n < (2 * r + 2) * (2 * r + 2)) by (nonlinear_arith)
            requires
                q < (r + 1) * (r + 1),
                n == 4 * q + s,
                s < 4,
        ;
    }
}

/// An upper bound on the argument gives an upper bound on its square root.
pub proof fn lemma_isqrt_le(n: int, b: int)
    requires
        0 <= n,
        0 <= b,
        n < (b + 1) * (b + 1),
    ensures
        isqrt_spec(n) <= b,
{
    lemma_isqrt_bounds(n);
    let r = isqrt_spec(n);
    assert(r <= b) by (nonlinear_arith)
        requires
            r * r <= n,
            n < (b + 1) * (b + 1),
            0 <= r,
            0 <= b,
    ;
}

/// Executable integer square root, mirroring `isqrt_spec`.
pub fn isqrt64(n: u64) -> (r: u64)
    requires
        n <= 0x1_0000_0000_0000,
    ensures
        r == isqrt_spec(n as int),
        r * r <= n,
    decreases n,
{
    proof {
        lemma_isqrt_bounds(n as int);
    }
    if n == 0 {
        0
    } else {
        let h = isqrt64(n / 4);
        proof {
            lemma_isqrt_bounds((n / 4) as int);
            lemma_isqrt_le((n / 4) as int, 0xFF_FFFF);
        }
        let c: u64 = 2 * h + 1;
        proof {
            assert((c as int) * (c as int) <= 0x4_0000_0000_0000) by (nonlinear_arith)
                requires
                    0 <= c as int <= 0x1FF_FFFF,
            ;
        }
        if c * c <= n {
            c
        } else {
            2 * h
        }
    }
}

/// A value whose exact square root is known pins the integer square
/// root down.
pub proof fn lemma_isqrt_exact(n: int, r: int)
    requires
        0 <= r,
        r * r <= n,
        n < (r + 1) * (r + 1),
    ensures
        isqrt_spec(n) == r,
{
    lemma_isqrt_bounds(n);
    let q = isqrt_spec(n);
    assert(q == r) by (nonlinear_arith)
        requires
            0 <= q,
            0 <= r,
            q * q <= n,
            n < (q + 1) * (q + 1),
            r * r <= n,
            n < (r + 1) * (r + 1),
    ;
}

/// Square root on the Q16 scale, rounded down: for v standing for a real
/// value in [0, 1], the result stands for its square root.
pub open spec fn sqrt_q16_spec(v: int) -> int {
    isqrt_spec(v * 65536)
}

/// The Q16 square root of a value in [0, 1] is again in [0, 1].
pub proof fn lemma_sqrt_q16_range(v: int)
    requires
        0 <= v <= 65536,
    ensures
        0 <= sqrt_q16_spec(v) <= 65536,
{
    lemma_isqrt_bounds(v * 65536);
    lemma_isqrt_le(v * 65536, 65536);
}

/// Executable Q16 square root.
pub fn sqrt_q16(v: i64) -> (r: i64)
    requires
        0 <= v <= Q16,
    ensures
        r == sqrt_q16_spec(v as int),
        0 <= r <= Q16,
{
    proof {
        lemma_sqrt_q16_range(v as int);
    }
    let m: u64 = isqrt64((v as u64) * 65536);
    m as i64
}

/// Dividing a value bounded by d * b by d gives at most b.
pub proof fn lemma_div_at_most(a: int, d: int, b: int)
    requires
        0 < d,
        a <= d * b,
    ensures
        a / d <= b,
{
    lemma_multiply_divide_le(a, d, b);
}

/// Dividing a value strictly below d * b by d gives strictly less than b.
pub proof fn lemma_div_below(a: int, d: int, b: int)
    requires
        0 < d,
        a < d * b,
    ensures
        a / d < b,
{
    lemma_multiply_divide_lt(a, d, b);
}

} // verus!
