use vstd::prelude::*;

verus! {

/// The construction-time failure tier of the gadget.
///
/// A gadget invocation fails structurally only when a precondition a correct
/// caller would never violate is broken; a shuffle that is not a true
/// permutation is *not* such a failure — it surfaces later, as an
/// unsatisfiable circuit, when a proof is produced or checked.
#[derive(Clone, Copy, Debug, PartialEq, Eq, Structural)]
pub enum GadgetError {
    /// The entries handed to the gadget mix the prover form (concrete witness
    /// present) with the verifier form (witness absent).
    InconsistentShape,
}

} // verus!
