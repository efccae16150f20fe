use vstd::prelude::*;

verus! {

/// Rounds `a / b` up, for a positive divisor.
pub open spec fn ceil_div(a: int, b: int) -> int
    recommends
        b > 0,
{
    -((-a) / b)
}

/// Rounds `a / b` toward zero, for a positive divisor.
pub open spec fn trunc_div(a: int, b: int) -> int
    recommends
        b > 0,
{
    if a >= 0 {
        a / b
    } else {
        -((-a) / b)
    }
}

pub proof fn lemma_floor_div(a: int, b: int)
    requires
        b > 0,
    ensures
        b * (a / b) <= a < b * (a / b) + b,
{
    vstd::arithmetic::div_mod::lemma_fundamental_div_mod(a, b);
    vstd::arithmetic::div_mod::lemma_mod_bound(a, b);
}

pub proof fn lemma_ceil_div(a: int, b: int)
    requires
        b > 0,
    ensures
        b * ceil_div(a, b) - b < a <= b * ceil_div(a, b),
{
    let q = (-a) / b;
    lemma_floor_div(-a, b);
    assert(b * (-q) == -(b * q)) by (nonlinear_arith);
}

/// An integer `q` with `b * q - b < a <= b * q` is the rounded-up quotient.
pub proof fn lemma_ceil_div_unique(a: int, b: int, q: int)
    requires
        b > 0,
        b * q - b < a <= b * q,
    ensures
        q == ceil_div(a, b),
{
    let c = ceil_div(a, b);
    lemma_ceil_div(a, b);
    assert(q == c) by (nonlinear_arith)
        requires
            b > 0,
            b * q - b < a <= b * q,
            b * c - b < a <= b * c,
    ;
}

/// The remainder that truncation leaves has the sign of the dividend and is
/// smaller than the divisor.
pub proof fn lemma_trunc_div(a: int, b: int)
    requires
        b > 0,
    ensures
        a >= 0 ==> 0 <= a - b * trunc_div(a, b) < b,
        a < 0 ==> -b < a - b * trunc_div(a, b) <= 0,
{
    if a >= 0 {
        lemma_floor_div(a, b);
    } else {
        let q = (-a) / b;
        lemma_floor_div(-a, b);
        assert(b * (-q) == -(b * q)) by (nonlinear_arith);
    }
}

/// An integer `q` with `b * q <= a < b * q + b` is the rounded-down quotient.
pub proof fn lemma_floor_div_unique(a: int, b: int, q: int)
    requires
        b > 0,
        b * q <= a < b * q + b,
    ensures
        q == a / b,
{
    let f = a / b;
    lemma_floor_div(a, b);
    assert(q == f) by (nonlinear_arith)
        requires
            b > 0,
            b * q <= a < b * q + b,
            b * f <= a < b * f + b,
    ;
}

/// `a / b` rounded down, computed without overflow on the inputs it admits.
pub fn floor_div_i128(a: i128, b: i128) -> (r: i128)
    requires
        0 < b < 0x4000_0000_0000_0000_0000_0000_0000_0000,
        -0x4000_0000_0000_0000_0000_0000_0000_0000 < a < 0x4000_0000_0000_0000_0000_0000_0000_0000,
    ensures
        r == a as int / b as int,
{
    if a >= 0 {
        a / b
    } else {
        let q = ceil_div_i128(-a, b);
        proof {
            lemma_ceil_div(-a as int, b as int);
            assert(b * (-q) == -(b * q)) by (nonlinear_arith);
            lemma_floor_div_unique(a as int, b as int, -q as int);
        }
        -q
    }
}

/// `a / b` rounded toward zero.
pub fn trunc_div_i128(a: i128, b: i128) -> (r: i128)
    requires
        b > 0,
        a > i128::MIN,
    ensures
        r == trunc_div(a as int, b as int),
{
    if a >= 0 {
        a / b
    } else {
        let q = (-a) / b;
        -q
    }
}

/// `a / b` rounded up, computed without overflow on the inputs it admits.
pub fn ceil_div_i128(a: i128, b: i128) -> (r: i128)
    requires
        b > 0,
        i128::MIN < a <= i128::MAX - b,
    ensures
        r == ceil_div(a as int, b as int),
{
    proof {
        lemma_floor_div(-a, b as int);
    }
    if a >= 0 {
        proof {
            lemma_floor_div(a + b - 1, b as int);
            lemma_ceil_div_unique(a as int, b as int, (a + b - 1) / (b as int));
        }
        (a + b - 1) / b
    } else {
        let q = (-a) / b;
        -q
    }
}

} // verus!
