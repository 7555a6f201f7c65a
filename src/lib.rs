//! A bit-exact model of the bedrock floor of a voxel world, and a search for
//! the places where a known piece of that floor occurs.
use vstd::prelude::*;

pub mod wrap;
pub mod mixer;
pub mod scrambler;
pub mod generator;
pub mod scan;
pub mod laws;

pub use generator::{Generator, GeneratorError, LegacyGenerator, OldPaperLegacyGenerator};
pub use mixer::hashcode;

verus! {

} // verus!
