//! Tagged values: the data one side of the shuffle carries, in a concrete
//! (witness-bearing) and a circuit-facing (wire-only) form.

use vstd::prelude::*;

use crate::cs::Wire;

verus! {

/// A concrete tagged value: a 64-bit quantity together with two
/// classification tags.
///
/// Tags are given as 64-bit representatives; the surrounding application
/// embeds them into the backend's scalar field when it commits a value.
#[derive(Clone, Copy, Debug, PartialEq, Eq, Structural)]
pub struct Value {
    /// The quantity.
    pub q: u64,
    /// The first classification tag.
    pub a: u64,
    /// The second classification tag.
    pub t: u64,
}

impl Value {
    /// The distinguished zero value: quantity and both tags zero.  It stands
    /// for "no value" and is the content of every padding placeholder.
    pub open spec fn spec_zero() -> Value {
        Value { q: 0, a: 0, t: 0 }
    }

    /// The distinguished zero value.
    pub fn zero() -> (r: Value)
        ensures
            r == Value::spec_zero(),
    {
        Value { q: 0, a: 0, t: 0 }
    }
}

/// One circuit-facing entry of a shuffle: three wires carrying the quantity
/// and the two tags, and — on the prover side only — the concrete value those
/// wires will be assigned at proving time.
#[derive(Clone, Copy, Debug)]
pub struct AllocatedValue {
    /// The wire carrying the quantity.
    pub q: Wire,
    /// The wire carrying the first tag.
    pub a: Wire,
    /// The wire carrying the second tag.
    pub t: Wire,
    /// The prover's concrete value; absent on the verifier side.
    pub assignment: Option<Value>,
}

/// The two sequences put the same wires in the same places; their witness
/// fields may differ arbitrarily.  This is how one invocation's entries look
/// from the prover's and from the verifier's side.
pub open spec fn same_wires(a: Seq<AllocatedValue>, b: Seq<AllocatedValue>) -> bool {
    &&& a.len() == b.len()
    &&& forall|i: int| #![trigger a[i], b[i]]
        0 <= i < a.len() ==> a[i].q == b[i].q && a[i].a == b[i].a && a[i].t == b[i].t
}

/// Every entry carries a concrete witness: the prover's form of a sequence.
pub open spec fn all_witnessed(s: Seq<AllocatedValue>) -> bool {
    forall|i: int| 0 <= i < s.len() ==> s[i].assignment is Some
}

/// No entry carries a concrete witness: the verifier's form of a sequence.
pub open spec fn none_witnessed(s: Seq<AllocatedValue>) -> bool {
    forall|i: int| 0 <= i < s.len() ==> s[i].assignment is None
}

/// The two sequences of one gadget invocation are wholly on the prover side
/// or wholly on the verifier side; mixing the two forms is an invalid state.
pub open spec fn modes_consistent(x: Seq<AllocatedValue>, y: Seq<AllocatedValue>) -> bool {
    (all_witnessed(x) && all_witnessed(y)) || (none_witnessed(x) && none_witnessed(y))
}

/// Whether the invocation is on the prover side, read off the first entry;
/// immaterial when both sequences are empty.
pub open spec fn side_witnessed(x: Seq<AllocatedValue>, y: Seq<AllocatedValue>) -> bool {
    if x.len() > 0 {
        x[0].assignment is Some
    } else if y.len() > 0 {
        y[0].assignment is Some
    } else {
        false
    }
}

/// Report, for one sequence, whether every entry is witnessed and whether no
/// entry is.
fn sequence_modes(s: &Vec<AllocatedValue>) -> (r: (bool, bool))
    ensures
        r.0 == all_witnessed(s@),
        r.1 == none_witnessed(s@),
{
    let mut every: bool = true;
    let mut no_one: bool = true;
    let mut i: usize = 0;
    while i < s.len()
        invariant
            0 <= i <= s@.len(),
            every == (forall|j: int| 0 <= j < i ==> s@[j].assignment is Some),
            no_one == (forall|j: int| 0 <= j < i ==> s@[j].assignment is None),
        decreases s@.len() - i,
    {
        if s[i].assignment.is_some() {
            no_one = false;
        } else {
            every = false;
        }
        i = i + 1;
    }
    (every, no_one)
}

/// Decide whether the two sequences are wholly prover-side or wholly
/// verifier-side.
pub fn modes_check(x: &Vec<AllocatedValue>, y: &Vec<AllocatedValue>) -> (b: bool)
    ensures
        b == modes_consistent(x@, y@),
{
    let (x_every, x_none) = sequence_modes(x);
    let (y_every, y_none) = sequence_modes(y);
    (x_every && y_every) || (x_none && y_none)
}

/// Read which side the invocation is on off the first entry.
pub fn pick_side(x: &Vec<AllocatedValue>, y: &Vec<AllocatedValue>) -> (b: bool)
    ensures
        b == side_witnessed(x@, y@),
{
    if x.len() > 0 {
        x[0].assignment.is_some()
    } else if y.len() > 0 {
        y[0].assignment.is_some()
    } else {
        false
    }
}

} // verus!
