//! The per-coordinate decision: is the block at `(x, y, z)` part of the bedrock floor?
use vstd::prelude::*;
use crate::mixer::{hash_spec, hashcode};
use crate::scrambler::{advance_spec, initialize_spec, r48, MULTIPLIER, MASK_48};

verus! {

/// Identifier of the floor feature, folded into the world seed when a generator is made.
pub const FEATURE_ID: i64 = 2042456806;

/// The base seed of a generator made from `world_seed`: seed, fold in the
/// feature identifier, and seed again.
pub open spec fn base_seed_for(world_seed: i64) -> i64 {
    initialize_spec(initialize_spec(world_seed) ^ FEATURE_ID)
}

/// The layers on which the floor is decided.
pub open spec fn valid_layer(y: i32) -> bool {
    1 <= y <= 4
}

/// The exclusive upper bound on the 24-bit draw for layer `y`: about 20%, 40%,
/// 60% and 80% of 2^24 for layers 4, 3, 2 and 1.
pub open spec fn threshold(y: i32) -> i64 {
    if y == 4 {
        3355443
    } else if y == 3 {
        6710886
    } else if y == 2 {
        10066330
    } else {
        13421773
    }
}

/// The 24-bit draw for a hash under a base seed: scramble and mask, step once,
/// and keep bits 47..24.
pub open spec fn draw24(base_seed: i64, hash: i64) -> int {
    advance_spec(((hash ^ base_seed ^ MULTIPLIER) as int % r48()) as i64) / 0x1000000
}

/// The decision at `(x, y, z)` under `base_seed`, where the hash is taken at
/// `(x, hash_y, z)`; `y` chooses the threshold.
pub open spec fn bedrock_spec(base_seed: i64, x: i32, hash_y: i32, y: i32, z: i32) -> bool {
    draw24(base_seed, hash_spec(x, hash_y, z)) < threshold(y)
}

/// What goes wrong in a query.
#[derive(Debug, Clone, Copy, PartialEq, Eq, Structural)]
pub enum GeneratorError {
    /// The layer `y` is outside `1..=4`.
    InvalidLayer { y: i32 },
}

/// A generator of the floor, fixed by its base seed.
pub trait Generator: Sized {
    /// The base seed, derived from the world seed once and never changed.
    spec fn base_seed(&self) -> i64;

    /// The `y` that the hash of a query at layer `y` is taken with.
    spec fn hash_layer(y: i32) -> i32;

    /// Makes the generator of a world.
    fn new(world_seed: i64) -> (g: Self)
        ensures
            g.base_seed() == base_seed_for(world_seed),
    ;

    /// Whether the block at `(x, y, z)` is bedrock; an error for a layer outside `1..=4`.
    fn is_bedrock(&self, x: i32, y: i32, z: i32) -> (r: Result<bool, GeneratorError>)
        ensures
            valid_layer(y) ==> r == Ok::<bool, GeneratorError>(
                bedrock_spec(self.base_seed(), x, Self::hash_layer(y), y, z),
            ),
            !valid_layer(y) ==> r == Err::<bool, GeneratorError>(GeneratorError::InvalidLayer { y }),
    ;
}

/// Derives the base seed of a world's generator.
pub fn derive_base_seed(world_seed: i64) -> (r: i64)
    ensures
        r == base_seed_for(world_seed),
{
    let seed = LegacyGenerator::set_seed_value(world_seed);
    LegacyGenerator::set_seed_value(seed ^ FEATURE_ID)
}

/// The decision shared by both generators: the hash is taken at `(x, hash_y, z)`
/// and compared with the threshold of layer `y`.
pub fn bedrock_decision(base_seed: i64, x: i32, hash_y: i32, y: i32, z: i32) -> (r: Result<
    bool,
    GeneratorError,
>)
    ensures
        valid_layer(y) ==> r == Ok::<bool, GeneratorError>(bedrock_spec(base_seed, x, hash_y, y, z)),
        !valid_layer(y) ==> r == Err::<bool, GeneratorError>(GeneratorError::InvalidLayer { y }),
{
    let h = hashcode(x, hash_y, z);
    let mixed = h ^ base_seed ^ MULTIPLIER;
    let seed = mixed & MASK_48;
    assert(seed as int == mixed as int % 0x1000000000000) by (bit_vector)
        requires
            seed == mixed & 0xffffffffffffi64,
    ;
    let seed = LegacyGenerator::iterate_seed(seed);
    let random = seed >> 24;
    assert(random == seed / 0x1000000i64) by (bit_vector)
        requires
            0 <= seed,
            random == seed >> 24i64,
    ;
    match y {
        4 => Ok(random < 3355443),
        3 => Ok(random < 6710886),
        2 => Ok(random < 10066330),
        1 => Ok(random < 13421773),
        _ => Err(GeneratorError::InvalidLayer { y }),
    }
}

/// The generator as the game computes it: the hash is taken at the queried layer.
pub struct LegacyGenerator {
    pub seed: i64,
}

impl Generator for LegacyGenerator {
    open spec fn base_seed(&self) -> i64 {
        self.seed
    }

    open spec fn hash_layer(y: i32) -> i32 {
        y
    }

    fn new(world_seed: i64) -> (g: Self) {
        LegacyGenerator { seed: derive_base_seed(world_seed) }
    }

    fn is_bedrock(&self, x: i32, y: i32, z: i32) -> (r: Result<bool, GeneratorError>) {
        bedrock_decision(self.seed, x, y, y, z)
    }
}

/// The generator of server builds with the layer defect: the hash is always
/// taken at layer 0, whatever layer is queried.
pub struct OldPaperLegacyGenerator {
    pub seed: i64,
}

impl Generator for OldPaperLegacyGenerator {
    open spec fn base_seed(&self) -> i64 {
        self.seed
    }

    open spec fn hash_layer(y: i32) -> i32 {
        0
    }

    fn new(world_seed: i64) -> (g: Self) {
        OldPaperLegacyGenerator { seed: derive_base_seed(world_seed) }
    }

    fn is_bedrock(&self, x: i32, y: i32, z: i32) -> (r: Result<bool, GeneratorError>) {
        bedrock_decision(self.seed, x, 0, y, z)
    }
}

} // verus!
