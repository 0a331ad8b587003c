//! Signed arithmetic that cuts towards zero or wraps around.

use vstd::prelude::*;

verus! {

/// The distance of `x` from zero.
pub open spec fn magnitude(x: int) -> nat {
    if x < 0 {
        (-x) as nat
    } else {
        x as nat
    }
}

/// The quotient of `a` and `b`, cut towards zero.
pub open spec fn trunc_div(a: int, b: int) -> int {
    let q = magnitude(a) / magnitude(b);
    if (a < 0) == (b < 0) {
        q as int
    } else {
        -(q as int)
    }
}

/// `x` wrapped around into 64 bits and a sign.
pub open spec fn wrap_i64(x: int) -> int {
    (x + 0x8000_0000_0000_0000) % 0x1_0000_0000_0000_0000 - 0x8000_0000_0000_0000
}

/// The number with the bits of `v`.
pub fn to_i64(v: u64) -> (r: i64)
    ensures
        r == wrap_i64(v as int),
{
    if v < 0x8000_0000_0000_0000 {
        v as i64
    } else {
        -((0xFFFF_FFFF_FFFF_FFFF - v) as i64) - 1
    }
}

/// The quotient of `d` and `n`, cut towards zero.
pub fn trunc_div_i64(d: i64, n: u64) -> (r: i64)
    requires
        n > 0,
    ensures
        r == trunc_div(d as int, n as int),
{
    if d >= 0 {
        let q: u64 = d as u64 / n;
        assert(q <= d) by (nonlinear_arith)
            requires
                q == d as u64 / n,
                n > 0,
                d >= 0,
        ;
        q as i64
    } else {
        let m: u64 = (-(d + 1)) as u64 + 1;
        let q: u64 = m / n;
        assert(q <= m) by (nonlinear_arith)
            requires
                q == m / n,
                n > 0,
        ;
        if q == 0 {
            0
        } else {
            -((q - 1) as i64) - 1
        }
    }
}

/// A factor common to both sides of a quotient makes no difference.
pub proof fn lemma_trunc_div_cancel(a: int, b: int, k: int)
    requires
        k > 0,
        b != 0,
    ensures
        trunc_div(a * k, b * k) == trunc_div(a, b),
{
    assert(magnitude(a * k) == magnitude(a) * k) by (nonlinear_arith)
        requires
            k > 0,
    ;
    assert(magnitude(b * k) == magnitude(b) * k) by (nonlinear_arith)
        requires
            k > 0,
    ;
    assert((a * k < 0) == (a < 0)) by (nonlinear_arith)
        requires
            k > 0,
    ;
    assert((b * k < 0) == (b < 0)) by (nonlinear_arith)
        requires
            k > 0,
    ;
    let x = magnitude(a) as int;
    let y = magnitude(b) as int;
    vstd::arithmetic::div_mod::lemma_div_multiples_vanish_quotient(k, x, y);
    assert(k * x == x * k) by (nonlinear_arith);
    assert(k * y == y * k) by (nonlinear_arith);
}

/// The distance of `x` from zero.
pub fn magnitude_of(x: i64) -> (r: u64)
    ensures
        r == magnitude(x as int),
{
    if x < 0 {
        (-(x + 1)) as u64 + 1
    } else {
        x as u64
    }
}

/// Wrapping around looks at the low 64 bits alone.
pub proof fn lemma_wrap_low(q: int, low: int)
    requires
        low == q % 0x1_0000_0000_0000_0000,
    ensures
        wrap_i64(q) == wrap_i64(low),
        low == 0 ==> wrap_i64(-q) == 0,
        low != 0 ==> wrap_i64(-q) == wrap_i64(0x1_0000_0000_0000_0000 - low),
{
    let k = q / 0x1_0000_0000_0000_0000;
    assert(q == k * 0x1_0000_0000_0000_0000 + low);
}

} // verus!
