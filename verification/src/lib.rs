//! A shuffle-with-padding gadget for rank-1 constraint systems.
//!
//! The gadget proves that one sequence of tagged values is a reordering of
//! another, even when the two sequences differ in length because one side
//! carries extra, publicly-known-to-be-zero placeholder entries.  Constraint
//! construction is purely combinatorial: every emission into the constraint
//! system is recorded in an explicit, append-only context
//! ([`cs::ConstraintSystem`]), so that the prover and the verifier can replay
//! the very same sequence of gates, linear constraints and challenge
//! derivations against a concrete proving backend.

pub mod cs;
pub mod error;
pub mod laws;
pub mod padded_shuffle;
pub mod value;
pub mod value_shuffle;
