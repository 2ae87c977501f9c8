//! Machine code to AIR lifting.
//!
//! The library decodes AArch64 machine code and translates every instruction into a small
//! typed intermediate representation ("AIR"), organised in basic blocks.

use crate::arm64::ir::Region;
use target_lexicon::Architecture;
use vstd::prelude::*;

pub mod arm64;

verus! {

#[verifier::external_type_specification]
#[verifier::external_body]
pub struct ExArchitecture(Architecture);

/// A lifter from machine code to a region of the intermediate representation.
pub trait Lifter: Sized {
    /// Error type when lifting fails.
    type E;

    /// The architecture this lifter reads.
    fn arch() -> Architecture;

    /// A new lifter.
    fn new() -> Self;

    /// Lifts machine code, accompanied by proof annotations, to a region.
    fn lift(&self, code: &[u8], proofs: &[u8]) -> Result<Region, Self::E>;
}

} // verus!
