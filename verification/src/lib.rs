//! Discrete noise-generation primitives for differential privacy, together
//! with a hash-commitment scheme that lets several parties jointly pick an
//! unbiased index.
//!
//! The sampling core works on exact dyadic representations: a positive real
//! input is handled as a mantissa/exponent pair `m * 2^e`, so every
//! granularity, bit-width and scaling computation is carried out in integer
//! arithmetic with no rounding beyond what the algorithms themselves define.

use vstd::prelude::*;

pub mod commitment;
pub mod geometric;
pub mod granularity;
pub mod selector;

verus! {

/// Error returned whenever a parameter falls outside its documented domain.
///
/// Propagation is immediate and total: no partial or default noise value is
/// ever returned in its place.
#[derive(Debug, PartialEq, Eq, Structural)]
pub struct ParameterError;

/// Errors of the commitment scheme.
#[derive(Debug, PartialEq, Eq, Structural)]
pub enum CommitmentError {
    /// The published residue does not hash to the committed digest.
    HashMismatch,
    /// Two commitments in one corpus were made over different ranges.
    CorpusSizeMismatch,
    /// No commitments were supplied.
    EmptyCorpus,
}

} // verus!
