//! Two's-complement wraparound, stated over mathematical integers.
use vstd::prelude::*;
use vstd::arithmetic::div_mod::{lemma_fundamental_div_mod, lemma_mod_multiples_vanish, lemma_small_mod};

verus! {

/// 2^64, the modulus of 64-bit wraparound.
pub open spec fn r64() -> int {
    0x10000000000000000
}

/// 2^32, the modulus of 32-bit wraparound.
pub open spec fn r32() -> int {
    0x100000000
}

/// The 64-bit two's-complement value congruent to `n` modulo 2^64.
pub open spec fn wrap64(n: int) -> i64 {
    let m = n % r64();
    if m >= 0x8000000000000000 {
        (m - r64()) as i64
    } else {
        m as i64
    }
}

/// The 32-bit two's-complement value congruent to `n` modulo 2^32.
pub open spec fn wrap32(n: int) -> i32 {
    let m = n % r32();
    if m >= 0x80000000 {
        (m - r32()) as i32
    } else {
        m as i32
    }
}

/// `n` and `wrap64(n)` differ by a multiple of 2^64.
pub proof fn lemma_wrap64_offset(n: int) -> (k: int)
    ensures
        wrap64(n) as int == n + k * r64(),
{
    lemma_fundamental_div_mod(n, r64());
    if n % r64() >= 0x8000000000000000 {
        -(n / r64()) - 1
    } else {
        -(n / r64())
    }
}

/// Integers that differ by a multiple of 2^64 wrap to the same value.
pub proof fn lemma_wrap64_congruent(a: int, b: int, k: int)
    requires
        a == b + k * r64(),
    ensures
        wrap64(a) == wrap64(b),
{
    assert(a == r64() * k + b) by (nonlinear_arith)
        requires
            a == b + k * r64(),
    ;
    lemma_mod_multiples_vanish(k, b, r64());
}

/// A value that already fits in 64 bits wraps to itself.
pub proof fn lemma_wrap64_fits(v: int)
    requires
        i64::MIN <= v <= i64::MAX,
    ensures
        wrap64(v) as int == v,
{
    if v >= 0 {
        lemma_small_mod(v as nat, r64() as nat);
    } else {
        lemma_mod_multiples_vanish(1, v, r64());
        lemma_small_mod((v + r64()) as nat, r64() as nat);
    }
}

/// A value in `[0, 2^32)` wraps to itself below 2^31 and to itself minus 2^32 above.
pub proof fn lemma_wrap32_unsigned(v: int)
    requires
        0 <= v < r32(),
    ensures
        wrap32(v) as int == if v < 0x80000000 { v } else { v - r32() },
{
    lemma_small_mod(v as nat, r32() as nat);
}

/// Integers that differ by a multiple of 2^64 agree modulo 2^48.
pub proof fn lemma_congruent_mod48(a: int, b: int, k: int)
    requires
        a == b + k * r64(),
    ensures
        a % 0x1000000000000 == b % 0x1000000000000,
{
    assert(a == 0x1000000000000 * (k * 0x10000) + b) by (nonlinear_arith)
        requires
            a == b + k * r64(),
    ;
    lemma_mod_multiples_vanish(k * 0x10000, b, 0x1000000000000);
}

/// `wrapping_add` on `i64` is the sum, wrapped.
pub proof fn lemma_wrapping_add64(a: i64, b: i64)
    ensures
        a.wrapping_add(b) == wrap64(a + b),
{
    let w = a.wrapping_add(b);
    let k: int = if a + b > i64::MAX { -1 } else if a + b < i64::MIN { 1 } else { 0 };
    assert(w == a + b + k * r64());
    lemma_wrap64_fits(w as int);
    lemma_wrap64_congruent(w as int, a + b, k);
}

/// `wrapping_mul` on `i64` is the exact product, wrapped.
pub proof fn lemma_wrapping_mul64(a: i64, b: i64)
    ensures
        a.wrapping_mul(b) == wrap64(a * b),
{
}

/// `wrapping_mul` on `i32` is the exact product, wrapped.
pub proof fn lemma_wrapping_mul32(a: i32, b: i32)
    ensures
        a.wrapping_mul(b) == wrap32(a * b),
{
}

} // verus!
