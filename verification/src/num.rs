//! Arithmetic shared by the planning modules.

use vstd::prelude::*;

verus! {

/// The low 32 bits of `x`.
pub fn low_u32(x: u64) -> (r: u32)
    ensures
        r == x % 0x1_0000_0000,
        x <= u32::MAX ==> r == x,
{
    let r: u32 = #[verifier::truncate] (x as u32);
    assert(x as u32 == x % 0x1_0000_0000u64) by (bit_vector);
    r
}

/// `a / b` rounded up.
pub open spec fn ceil_div(a: int, b: int) -> int {
    (a + b - 1) / b
}

/// How many groups of `b` cover `a` items.
pub fn div_ceil_u32(a: u32, b: u32) -> (r: u32)
    requires
        b > 0,
    ensures
        r == ceil_div(a as int, b as int),
{
    let q: u32 = a / b;
    proof {
        lemma_ceil_div(a as int, b as int);
        lemma_quotient_below(a as int, b as int);
    }
    if a % b == 0 {
        q
    } else {
        q + 1
    }
}

/// How many groups of `b` cover `a` items.
pub fn div_ceil_u64(a: u64, b: u64) -> (r: u64)
    requires
        b > 0,
    ensures
        r == ceil_div(a as int, b as int),
{
    let q: u64 = a / b;
    proof {
        lemma_ceil_div(a as int, b as int);
        lemma_quotient_below(a as int, b as int);
    }
    if a % b == 0 {
        q
    } else {
        q + 1
    }
}

proof fn lemma_quotient_below(a: int, b: int)
    by (nonlinear_arith)
    requires
        a >= 0,
        b > 0,
    ensures
        a / b <= a,
        a % b != 0 ==> a / b < a,
{
}

/// Rounding up is the quotient, plus one where a remainder is left.
pub proof fn lemma_ceil_div(a: int, b: int)
    requires
        a >= 0,
        b > 0,
    ensures
        ceil_div(a, b) == a / b + (if a % b == 0 {
            0int
        } else {
            1int
        }),
{
    let q = a / b;
    let r = a % b;
    vstd::arithmetic::div_mod::lemma_fundamental_div_mod(a, b);
    vstd::arithmetic::mul::lemma_mul_is_commutative(b, q);
    if r == 0 {
        vstd::arithmetic::div_mod::lemma_fundamental_div_mod_converse(a + b - 1, b, q, b - 1);
    } else {
        vstd::arithmetic::mul::lemma_mul_is_distributive_add(b, q, 1);
        vstd::arithmetic::mul::lemma_mul_is_commutative(b, q + 1);
        vstd::arithmetic::div_mod::lemma_fundamental_div_mod_converse(a + b - 1, b, q + 1, r - 1);
    }
}

/// A multiple of a multiple of `d` is a multiple of `d`.
pub proof fn lemma_multiple(i: int, c: int, d: int)
    requires
        d > 0,
        c % d == 0,
    ensures
        (i * c) % d == 0,
{
    vstd::arithmetic::div_mod::lemma_fundamental_div_mod(c, d);
    let k = c / d;
    assert(i * c == (i * k) * d) by (nonlinear_arith)
        requires
            c == d * k,
    ;
    vstd::arithmetic::div_mod::lemma_mod_multiples_basic(i * k, d);
}

/// Rounding up covers every item, and no group is empty.
pub proof fn law_groups_cover_items(a: int, b: int)
    requires
        a >= 0,
        b > 0,
    ensures
        ceil_div(a, b) * b >= a,
        a > 0 ==> (ceil_div(a, b) - 1) * b < a,
        a == 0 ==> ceil_div(a, b) == 0,
        ceil_div(a, b) >= 0,
{
    lemma_ceil_div(a, b);
    vstd::arithmetic::div_mod::lemma_fundamental_div_mod(a, b);
    let q = a / b;
    assert(b * q == q * b) by (nonlinear_arith);
    assert((q + 1) * b == q * b + b) by (nonlinear_arith);
    assert((q - 1) * b == q * b - b) by (nonlinear_arith);
    assert(a == 0 ==> q == 0) by (nonlinear_arith)
        requires
            q == a / b,
            b > 0,
    ;
    assert(q >= 0) by (nonlinear_arith)
        requires
            q == a / b,
            a >= 0,
            b > 0,
    ;
    assert(a == 0 ==> a % b == 0) by (nonlinear_arith)
        requires
            b > 0,
    ;
}

/// Quotient and remainder give back the number.
pub proof fn lemma_quotient_and_rest(x: int, c: int)
    requires
        c > 0,
    ensures
        (x / c) * c + x % c == x,
        0 <= x % c < c,
{
    vstd::arithmetic::div_mod::lemma_fundamental_div_mod(x, c);
    assert((x / c) * c == c * (x / c)) by (nonlinear_arith);
}

} // verus!
