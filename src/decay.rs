//! Exponential decay `exp(-x)` in fixed point.
//!
//! `x` is given in parts per million and the result is in parts per million.
//! The value is computed as `(exp(-x / 1024))^1024`: the inner exponential by
//! its third-order Taylor polynomial on a 2^40 scale, then ten squarings.
//! Every step rounds down. The result never exceeds one and never grows as
//! `x` grows; over `0 <= x <= 31` it stays within two parts per million of
//! `exp(-x)`.
use vstd::prelude::*;
use vstd::arithmetic::div_mod::{
    lemma_div_by_multiple, lemma_div_is_ordered, lemma_fundamental_div_mod,
    lemma_fundamental_div_mod_converse, lemma_mod_bound,
};
use crate::types::PPM;

verus! {

/// The fixed-point scale of the intermediate values, 2^40.
pub const SCALE: u128 = 0x100_0000_0000;

/// Beyond `x = 30` the decay is below one part per million and counts as zero.
pub const CAP_PPM: u64 = 30_000_000;

/// The number of squarings, so that the Taylor step sees `x / 2^10`.
pub const SQUARINGS: u32 = 10;

/// `x / 1024` on the internal scale.
pub open spec fn reduced(x: nat) -> int {
    (x * SCALE) as int / (PPM as int * 1024)
}

/// `1 - y + y^2/2 - y^3/6` on the internal scale, each term rounded down.
pub open spec fn taylor3(y: int) -> int {
    SCALE - y + (y * y) / (2 * SCALE as int) - (y * y * y) / (6 * SCALE as int * SCALE as int)
}

/// `v` squared `n` times on the internal scale.
pub open spec fn squared(v: int, n: nat) -> int
    decreases n,
{
    if n == 0 {
        v
    } else {
        squared((v * v) / SCALE as int, (n - 1) as nat)
    }
}

/// `exp(-x)` in parts per million, for `x` in parts per million.
pub open spec fn exp_neg(x: nat) -> nat {
    if x > CAP_PPM {
        0
    } else {
        (squared(taylor3(reduced(x)), SQUARINGS as nat) * PPM as int / SCALE as int) as nat
    }
}

proof fn lemma_taylor3_range(y: int)
    requires
        0 <= y <= SCALE as int / 32,
    ensures
        0 <= taylor3(y) <= SCALE,
{
    let s = SCALE as int;
    let a = y * y;
    let b = y * y * y;
    assert(0 <= a <= y * s) by (nonlinear_arith)
        requires
            0 <= y <= s,
            a == y * y,
    ;
    assert(0 <= b <= y * s * s) by (nonlinear_arith)
        requires
            0 <= y <= s,
            b == y * y * y,
    ;
    lemma_div_is_ordered(a, y * s, 2 * s);
    lemma_div_is_ordered(0, a, 2 * s);
    assert((y * s) / (2 * s) == y / 2) by {
        lemma_fundamental_div_mod(y, 2);
        lemma_mod_bound(y, 2);
        lemma_fundamental_div_mod_converse(y * s, 2 * s, y / 2, (y % 2) * s);
    }
    lemma_div_is_ordered(b, y * s * s, 6 * s * s);
    lemma_div_is_ordered(0, b, 6 * s * s);
    assert((y * s * s) / (6 * s * s) == y / 6) by {
        lemma_fundamental_div_mod(y, 6);
        lemma_mod_bound(y, 6);
        assert(y * s * s == (6 * s * s) * (y / 6) + (y % 6) * s * s) by (nonlinear_arith)
            requires
                y == 6 * (y / 6) + y % 6,
        ;
        assert(0 <= (y % 6) * s * s < 6 * s * s) by (nonlinear_arith)
            requires
                0 <= y % 6 < 6,
                s > 0,
        ;
        lemma_fundamental_div_mod_converse(y * s * s, 6 * s * s, y / 6, (y % 6) * s * s);
    }
}

proof fn lemma_taylor3_antitone(y1: int, y2: int)
    requires
        0 <= y1 <= y2 <= SCALE as int / 32,
    ensures
        taylor3(y2) <= taylor3(y1),
{
    let s = SCALE as int;
    let d = 2 * s;
    let k = y2 - y1;
    assert(y2 * y2 <= y1 * y1 + k * d) by (nonlinear_arith)
        requires
            0 <= y1 <= y2 <= s,
            k == y2 - y1,
            d == 2 * s,
    ;
    lemma_div_is_ordered(y2 * y2, y1 * y1 + k * d, d);
    lemma_fundamental_div_mod(y1 * y1, d);
    lemma_mod_bound(y1 * y1, d);
    let q = (y1 * y1) / d;
    let m = (y1 * y1) % d;
    assert(y1 * y1 + k * d == (q + k) * d + m) by (nonlinear_arith)
        requires
            y1 * y1 == d * q + m,
    ;
    lemma_fundamental_div_mod_converse(
        y1 * y1 + k * d,
        d,
        (y1 * y1) / d + k,
        (y1 * y1) % d,
    );
    assert(y1 * y1 * y1 <= y2 * y2 * y2) by (nonlinear_arith)
        requires
            0 <= y1 <= y2,
    ;
    lemma_div_is_ordered(y1 * y1 * y1, y2 * y2 * y2, 6 * s * s);
}

proof fn lemma_square_step(v1: int, v2: int)
    requires
        0 <= v1 <= v2 <= SCALE,
    ensures
        0 <= (v1 * v1) / SCALE as int <= (v2 * v2) / SCALE as int <= SCALE,
{
    let s = SCALE as int;
    assert(0 <= v1 * v1 <= v2 * v2 <= s * s) by (nonlinear_arith)
        requires
            0 <= v1 <= v2 <= s,
    ;
    lemma_div_is_ordered(0, v1 * v1, s);
    lemma_div_is_ordered(v1 * v1, v2 * v2, s);
    lemma_div_is_ordered(v2 * v2, s * s, s);
    lemma_div_by_multiple(s, s);
}

proof fn lemma_squared_monotone(v1: int, v2: int, n: nat)
    requires
        0 <= v1 <= v2 <= SCALE,
    ensures
        0 <= squared(v1, n) <= squared(v2, n) <= SCALE,
    decreases n,
{
    if n > 0 {
        lemma_square_step(v1, v2);
        lemma_squared_monotone((v1 * v1) / SCALE as int, (v2 * v2) / SCALE as int, (n - 1) as nat);
    }
}

proof fn lemma_reduced(x1: nat, x2: nat)
    requires
        x1 <= x2 <= CAP_PPM,
    ensures
        0 <= reduced(x1) <= reduced(x2) <= SCALE as int / 32,
{
    let d = PPM as int * 1024;
    assert(0 <= x1 * SCALE <= x2 * SCALE <= CAP_PPM * SCALE) by (nonlinear_arith)
        requires
            x1 <= x2 <= CAP_PPM,
    ;
    lemma_div_is_ordered(0, (x1 * SCALE) as int, d);
    lemma_div_is_ordered((x1 * SCALE) as int, (x2 * SCALE) as int, d);
    lemma_div_is_ordered((x2 * SCALE) as int, (CAP_PPM * SCALE) as int, d);
    lemma_div_is_ordered((CAP_PPM * SCALE) as int, 0x8_0000_0000 * d, d);
    lemma_div_by_multiple(0x8_0000_0000, d);
}

/// `exp_neg` never exceeds one and never grows with `x`.
pub proof fn lemma_exp_neg(x1: nat, x2: nat)
    requires
        x1 <= x2,
    ensures
        exp_neg(x2) <= exp_neg(x1) <= PPM,
{
    let s = SCALE as int;
    if x1 <= CAP_PPM {
        lemma_reduced(x1, x1);
        let t1 = taylor3(reduced(x1));
        lemma_taylor3_range(reduced(x1));
        lemma_squared_monotone(t1, t1, SQUARINGS as nat);
        let q1 = squared(t1, SQUARINGS as nat);
        assert(0 <= q1 * PPM <= s * PPM) by (nonlinear_arith)
            requires
                0 <= q1 <= s,
        ;
        lemma_div_is_ordered(0, q1 * PPM, s);
        lemma_div_is_ordered(q1 * PPM, s * PPM, s);
        lemma_div_by_multiple(PPM as int, s);
        if x2 <= CAP_PPM {
            lemma_reduced(x1, x2);
            let t2 = taylor3(reduced(x2));
            lemma_taylor3_range(reduced(x2));
            lemma_taylor3_antitone(reduced(x1), reduced(x2));
            lemma_squared_monotone(t2, t1, SQUARINGS as nat);
            let q2 = squared(t2, SQUARINGS as nat);
            assert(q2 * PPM <= q1 * PPM) by (nonlinear_arith)
                requires
                    0 <= q2 <= q1,
            ;
            lemma_div_is_ordered(q2 * PPM, q1 * PPM, s);
        }
    }
}

/// `exp(-x)` in parts per million, as `exp_neg` defines it.
pub fn exp_neg_ppm(x: u128) -> (r: u64)
    ensures
        r == exp_neg(x as nat),
        r <= PPM,
{
    if x > CAP_PPM as u128 {
        return 0;
    }
    proof {
        lemma_reduced(x as nat, x as nat);
        lemma_taylor3_range(reduced(x as nat));
        lemma_exp_neg(x as nat, x as nat);
    }
    let y: u128 = x * SCALE / (PPM as u128 * 1024);
    proof {
        assert(y * y <= 0x40_0000_0000_0000_0000) by (nonlinear_arith)
            requires
                0 <= y <= 0x8_0000_0000,
        ;
        assert(y * y * y <= 0x200_0000_0000_0000_0000_0000_0000) by (nonlinear_arith)
            requires
                0 <= y <= 0x8_0000_0000,
        ;
    }
    let mut v: u128 = SCALE - y + y * y / (2 * SCALE) - y * y * y / (6 * SCALE * SCALE);
    let mut i: u32 = 0;
    while i < SQUARINGS
        invariant
            i <= SQUARINGS,
            0 <= v <= SCALE,
            squared(v as int, (SQUARINGS - i) as nat) == squared(
                taylor3(reduced(x as nat)),
                SQUARINGS as nat,
            ),
        decreases SQUARINGS - i,
    {
        proof {
            lemma_square_step(v as int, v as int);
            assert(v * v <= 0x1_0000_0000_0000_0000_0000) by (nonlinear_arith)
                requires
                    0 <= v <= 0x100_0000_0000,
            ;
        }
        v = v * v / SCALE;
        i += 1;
    }
    (v * (PPM as u128) / SCALE) as u64
}

} // verus!
