//! The position hash: a 3-D coordinate mixed into a 64-bit value with wraparound.
use vstd::prelude::*;
use crate::wrap::{wrap32, wrap64, r64, lemma_wrap64_offset, lemma_wrap64_fits, lemma_wrap64_congruent};

verus! {

/// The first mixing value: the 32-bit wrapped product for `x`, the exact 64-bit
/// product for `z`, and `y`, combined by exclusive or.
pub open spec fn mix_input(x: i32, y: i32, z: i32) -> i64 {
    (wrap32(x * 3129871) as i64) ^ ((z * 116129781) as i64) ^ (y as i64)
}

/// The position hash: `(l*l*42317861 + l*11) mod 2^64`, read as signed and
/// shifted right arithmetically by 16, where `l` is `mix_input(x, y, z)`.
pub open spec fn hash_spec(x: i32, y: i32, z: i32) -> i64 {
    let l = mix_input(x, y, z);
    wrap64(l * l * 42317861 + l * 11) >> 16
}

proof fn lemma_polynomial(l: i64, square: i64, scaled: i64, linear: i64, mixed: i64)
    requires
        square == wrap64(l * l),
        scaled == wrap64(square * 42317861),
        linear == wrap64(l * 11),
        mixed == wrap64(scaled + linear),
    ensures
        mixed == wrap64(l * l * 42317861 + l * 11),
{
    let k1 = lemma_wrap64_offset(l * l);
    let k2 = lemma_wrap64_offset(square * 42317861);
    let k3 = lemma_wrap64_offset(l * 11);
    let k4 = lemma_wrap64_offset(scaled + linear);
    let k = k1 * 42317861 + k2 + k3 + k4;
    assert(mixed == l * l * 42317861 + l * 11 + k * r64()) by (nonlinear_arith)
        requires
            square == l * l + k1 * r64(),
            scaled == square * 42317861 + k2 * r64(),
            linear == l * 11 + k3 * r64(),
            mixed == scaled + linear + k4 * r64(),
            k == k1 * 42317861 + k2 + k3 + k4,
    ;
    lemma_wrap64_fits(mixed as int);
    lemma_wrap64_congruent(mixed as int, l * l * 42317861 + l * 11, k);
}

/// Hashes a coordinate; every product and sum wraps as two's-complement arithmetic does.
pub fn hashcode(x: i32, y: i32, z: i32) -> (r: i64)
    ensures
        r == hash_spec(x, y, z),
{
    let a = x.wrapping_mul(3129871);
    assert(-0x80000000 * 116129781 <= z * 116129781 <= 0x7fffffff * 116129781) by (nonlinear_arith)
        requires
            -0x80000000 <= z <= 0x7fffffff,
    ;
    let b = (z as i64) * 116129781;
    let l = (a as i64) ^ b ^ (y as i64);
    let square = l.wrapping_mul(l);
    let scaled = square.wrapping_mul(42317861);
    let linear = l.wrapping_mul(11);
    let mixed = scaled.wrapping_add(linear);
    proof {
        crate::wrap::lemma_wrapping_mul32(x, 3129871);
        crate::wrap::lemma_wrapping_mul64(l, l);
        crate::wrap::lemma_wrapping_mul64(square, 42317861);
        crate::wrap::lemma_wrapping_mul64(l, 11);
        crate::wrap::lemma_wrapping_add64(scaled, linear);
        lemma_polynomial(l, square, scaled, linear, mixed);
    }
    mixed >> 16
}

} // verus!
