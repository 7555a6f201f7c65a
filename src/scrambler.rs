//! The 48-bit linear-congruential step and the seeding routine built on it.
//!
//! The executable functions are associated with `LegacyGenerator`, whose
//! construction and queries are their main users.
use vstd::prelude::*;
use crate::wrap::{wrap32, wrap64, r64, lemma_wrap64_offset, lemma_wrap64_fits, lemma_congruent_mod48};
use crate::generator::LegacyGenerator;

verus! {

/// Multiplier of the linear-congruential step; also the value a raw seed is scrambled with.
pub const MULTIPLIER: i64 = 0x5DEECE66D;

/// Mask keeping the low 48 bits of a seed.
pub const MASK_48: i64 = 0xffffffffffff;

/// 2^48: seeds of the step live in `[0, 2^48)`.
pub open spec fn r48() -> int {
    0x1000000000000
}

/// One step: `(seed * 0x5DEECE66D + 11) mod 2^48`, the product taken exactly.
pub open spec fn advance_spec(seed: i64) -> i64 {
    ((seed * MULTIPLIER + 11) % r48()) as i64
}

/// The 32-bit output of a step: bits 47..16 of the new seed, read as a signed value.
pub open spec fn draw32(seed: i64) -> i32 {
    wrap32(seed / 0x10000)
}

/// Seeding: scramble and mask the raw seed, take two 32-bit draws, and join them
/// as the high and low halves of a 64-bit value (the low half sign-extended and
/// added, with wraparound).
pub open spec fn initialize_spec(raw: i64) -> i64 {
    let s0 = ((raw ^ MULTIPLIER) as int % r48()) as i64;
    let s1 = advance_spec(s0);
    let s2 = advance_spec(s1);
    wrap64(draw32(s1) * 0x100000000 + draw32(s2))
}

impl LegacyGenerator {
    /// Advances a seed by one linear-congruential step, with wraparound.
    pub fn iterate_seed(seed: i64) -> (r: i64)
        ensures
            r == advance_spec(seed),
            0 <= r < r48(),
    {
        let p = seed.wrapping_mul(MULTIPLIER);
        let q = p.wrapping_add(11);
        let r = q & MASK_48;
        proof {
            assert((q & 0xffffffffffffi64) as int == (q as int) % 0x1000000000000) by (bit_vector);
            let k1 = lemma_wrap64_offset(seed * MULTIPLIER);
            let k2 = lemma_wrap64_offset(p + 11);
            lemma_wrap64_fits(q as int);
            assert(q == seed * MULTIPLIER + 11 + (k1 + k2) * r64()) by (nonlinear_arith)
                requires
                    p == seed * MULTIPLIER + k1 * r64(),
                    q == p + 11 + k2 * r64(),
            ;
            lemma_congruent_mod48(q as int, seed * MULTIPLIER + 11, k1 + k2);
        }
        r
    }
    
    /// The signed 32-bit draw taken from a 48-bit seed.
    fn next32(seed: i64) -> (r: i32)
        requires
            0 <= seed < r48(),
        ensures
            r == draw32(seed),
    {
        let t = seed >> 16;
        assert(t == seed / 0x10000i64 && 0 <= t < 0x100000000i64) by (bit_vector)
            requires
                0 <= seed < 0x1000000000000i64,
                t == seed >> 16i64,
        ;
        let r = #[verifier::truncate] (t as i32);
        assert(r as int == if t < 0x80000000i64 { t as int } else { t - 0x100000000 }) by (bit_vector)
            requires
                0 <= t < 0x100000000i64,
                r == #[verifier::truncate] (t as i32),
        ;
        proof {
            crate::wrap::lemma_wrap32_unsigned(t as int);
        }
        r
    }
    
    /// Turns a raw seed into a 64-bit seed: scramble, mask, and draw twice.
    pub fn set_seed_value(seed: i64) -> (r: i64)
        ensures
            r == initialize_spec(seed),
    {
        let x = seed ^ MULTIPLIER;
        let s0 = x & MASK_48;
        assert(s0 as int == x as int % 0x1000000000000 && 0 <= s0 < 0x1000000000000i64) by (bit_vector)
            requires
                s0 == x & 0xffffffffffffi64,
        ;
        let s1 = Self::iterate_seed(s0);
        let i = Self::next32(s1);
        let s2 = Self::iterate_seed(s1);
        let j = Self::next32(s2);
        let hi = (i as i64) << 32;
        assert(hi as int == i as int * 0x100000000) by (bit_vector)
            requires
                hi == (i as i64) << 32i64,
        ;
        let r = hi.wrapping_add(j as i64);
        proof {
            crate::wrap::lemma_wrapping_add64(hi, j as i64);
        }
        r
    }
}

} // verus!
