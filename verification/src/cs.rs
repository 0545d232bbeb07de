//! The constraint-system context: an explicit, append-only record of every
//! gate, linear constraint and challenge derivation a gadget emits.
//!
//! The gadget logic never talks to a proving backend directly.  It appends
//! symbolic operations to a [`ConstraintSystem`], and the surrounding
//! application replays that record — in emission order, which is a
//! correctness requirement of the Fiat–Shamir transcript — once against the
//! prover's constraint system and once against the verifier's.

use vstd::prelude::*;

verus! {

/// An opaque handle to one wire (one field-element slot) of the constraint
/// system.
#[derive(Clone, Copy, Debug, PartialEq, Eq, Structural)]
pub enum Wire {
    /// An external input bound by a commitment, identified by the index in
    /// which it was committed.
    Committed(usize),
    /// The left input of the multiplication gate with the given index.
    MulLeft(usize),
    /// The right input of the multiplication gate with the given index.
    MulRight(usize),
    /// The output of the multiplication gate with the given index; the
    /// backend forces it to equal the product of the two inputs.
    MulOutput(usize),
}

/// A symbolic field-element coefficient.
///
/// Challenge scalars are only known once the backend derives them from the
/// transcript, so a coefficient refers to a challenge by the order in which
/// it was drawn from this context.
#[derive(Clone, Copy, Debug, PartialEq, Eq, Structural)]
pub enum Coeff {
    /// The field's zero element.
    Zero,
    /// The field's one element.
    One,
    /// The negation of the field's one element.
    MinusOne,
    /// The challenge scalar drawn at the given position.
    Challenge(usize),
    /// The negation of the challenge scalar drawn at the given position.
    NegChallenge(usize),
}

/// A linear combination of wires with symbolic coefficients, plus a constant
/// term.  A constraint `lc = 0` or a gate input `lc` is stated over such a
/// combination.
#[derive(Clone, Debug)]
pub struct LinComb {
    /// The weighted wires of the combination.
    pub terms: Vec<(Wire, Coeff)>,
    /// The constant term of the combination.
    pub constant: Coeff,
}

/// The mathematical model of a [`LinComb`].
#[verifier::ext_equal]
pub struct LinCombModel {
    /// The weighted wires of the combination.
    pub terms: Seq<(Wire, Coeff)>,
    /// The constant term of the combination.
    pub constant: Coeff,
}

impl View for LinComb {
    type V = LinCombModel;

    open spec fn view(&self) -> LinCombModel {
        LinCombModel { terms: self.terms@, constant: self.constant }
    }
}

/// One emission into the constraint system.
#[derive(Clone, Debug)]
pub enum Op {
    /// Allocate a multiplication gate; the backend adds two linear
    /// constraints that bind its inputs to the given combinations, and
    /// multiplication forces the third wire to carry their product.
    Multiply(LinComb, LinComb),
    /// Assert that the given linear combination equals zero.
    Constrain(LinComb),
    /// Derive one challenge scalar, bound to everything emitted so far.
    Challenge,
}

/// The mathematical model of an [`Op`].
#[verifier::ext_equal]
pub enum OpModel {
    /// Allocate a multiplication gate over the two combinations.
    Multiply(LinCombModel, LinCombModel),
    /// Assert that the combination equals zero.
    Constrain(LinCombModel),
    /// Derive one challenge scalar.
    Challenge,
}

impl View for Op {
    type V = OpModel;

    open spec fn view(&self) -> OpModel {
        match self {
            Op::Multiply(left, right) => OpModel::Multiply(left@, right@),
            Op::Constrain(lc) => OpModel::Constrain(lc@),
            Op::Challenge => OpModel::Challenge,
        }
    }
}

/// How many multiplication gates the given record allocates.
pub open spec fn gate_count(s: Seq<OpModel>) -> nat
    decreases s.len(),
{
    if s.len() == 0 {
        0
    } else {
        gate_count(s.drop_last()) + (if s.last() is Multiply {
            1nat
        } else {
            0nat
        })
    }
}

/// How many challenge scalars the given record derives.
pub open spec fn challenge_count(s: Seq<OpModel>) -> nat
    decreases s.len(),
{
    if s.len() == 0 {
        0
    } else {
        challenge_count(s.drop_last()) + (if s.last() is Challenge {
            1nat
        } else {
            0nat
        })
    }
}

/// Appending one operation adds its own multiplier and challenge tally to
/// that of the record.
pub proof fn lemma_counts_push(s: Seq<OpModel>, op: OpModel)
    ensures
        gate_count(s.push(op)) == gate_count(s) + (if op is Multiply {
            1nat
        } else {
            0nat
        }),
        challenge_count(s.push(op)) == challenge_count(s) + (if op is Challenge {
            1nat
        } else {
            0nat
        }),
{
    assert(s.push(op).drop_last() =~= s);
}

/// A record never holds more gates or challenges than operations.
pub proof fn lemma_counts_le_len(s: Seq<OpModel>)
    ensures
        gate_count(s) <= s.len(),
        challenge_count(s) <= s.len(),
    decreases s.len(),
{
    if s.len() > 0 {
        lemma_counts_le_len(s.drop_last());
    }
}

/// The append-only constraint-system context.
///
/// Its abstract value (the view) is the sequence of operations emitted so
/// far; the two counters are kept in step with that record so that freshly
/// allocated gates and challenges receive consecutive indices.
pub struct ConstraintSystem {
    ops: Vec<Op>,
    gates: usize,
    challenges: usize,
}

impl View for ConstraintSystem {
    type V = Seq<OpModel>;

    closed spec fn view(&self) -> Seq<OpModel> {
        self.ops@.map_values(|op: Op| op@)
    }
}

impl ConstraintSystem {
    /// The number of multiplication gates allocated so far.
    pub open spec fn spec_gates(self) -> nat {
        gate_count(self@)
    }

    /// The number of challenge scalars derived so far.
    pub open spec fn spec_challenges(self) -> nat {
        challenge_count(self@)
    }

    /// The counters agree with the record.
    pub closed spec fn wf(self) -> bool {
        self.gates == gate_count(self@) && self.challenges == challenge_count(self@)
    }

    /// An empty context: nothing has been emitted.
    pub fn new() -> (r: ConstraintSystem)
        ensures
            r.wf(),
            r@ == Seq::<OpModel>::empty(),
    {
        let r = ConstraintSystem { ops: Vec::new(), gates: 0, challenges: 0 };
        proof {
            assert(r@ =~= Seq::<OpModel>::empty());
        }
        r
    }

    /// Allocate a multiplication gate whose inputs are bound to the two given
    /// combinations, and receive its three wires: left input, right input and
    /// output, in that order.
    pub fn multiply(&mut self, left: LinComb, right: LinComb) -> (r: (Wire, Wire, Wire))
        requires
            old(self).wf(),
        ensures
            final(self).wf(),
            final(self)@ == old(self)@.push(OpModel::Multiply(left@, right@)),
            final(self).spec_gates() == old(self).spec_gates() + 1,
            final(self).spec_challenges() == old(self).spec_challenges(),
            r.0 == (Wire::MulLeft(old(self).spec_gates() as usize)),
            r.1 == (Wire::MulRight(old(self).spec_gates() as usize)),
            r.2 == (Wire::MulOutput(old(self).spec_gates() as usize)),
    {
        let ghost prior: Seq<OpModel> = self@;
        let g = self.gates;
        let op = Op::Multiply(left, right);
        proof {
            lemma_counts_le_len(prior);
        }
        self.ops.push(op);
        let record_len = self.ops.len();
        proof {
            assert(self@ =~= prior.push(op@));
            lemma_counts_push(prior, op@);
            // the record fits in a vector, so the counter stays below the
            // machine-word bound
            assert(self.gates < record_len);
        }
        self.gates = g + 1;
        (Wire::MulLeft(g), Wire::MulRight(g), Wire::MulOutput(g))
    }

    /// Assert that the given combination equals zero.
    pub fn constrain(&mut self, lc: LinComb)
        requires
            old(self).wf(),
        ensures
            final(self).wf(),
            final(self)@ == old(self)@.push(OpModel::Constrain(lc@)),
            final(self).spec_gates() == old(self).spec_gates(),
            final(self).spec_challenges() == old(self).spec_challenges(),
    {
        let ghost prior: Seq<OpModel> = self@;
        let op = Op::Constrain(lc);
        self.ops.push(op);
        proof {
            assert(self@ =~= prior.push(op@));
            lemma_counts_push(prior, op@);
        }
    }

    /// Derive one challenge scalar, bound to everything emitted so far, and
    /// receive the position under which coefficients may refer to it.
    pub fn challenge(&mut self) -> (i: usize)
        requires
            old(self).wf(),
        ensures
            final(self).wf(),
            final(self)@ == old(self)@.push(OpModel::Challenge),
            final(self).spec_gates() == old(self).spec_gates(),
            final(self).spec_challenges() == old(self).spec_challenges() + 1,
            i == old(self).spec_challenges(),
    {
        let ghost prior: Seq<OpModel> = self@;
        let i = self.challenges;
        let op = Op::Challenge;
        proof {
            lemma_counts_le_len(prior);
        }
        self.ops.push(op);
        let record_len = self.ops.len();
        proof {
            assert(self@ =~= prior.push(op@));
            lemma_counts_push(prior, op@);
            // the record fits in a vector, so the counter stays below the
            // machine-word bound
            assert(self.challenges < record_len);
        }
        self.challenges = i + 1;
        i
    }

    /// The record of everything emitted so far, in emission order.
    pub fn ops(&self) -> (r: &Vec<Op>)
        ensures
            r@.map_values(|op: Op| op@) == self@,
    {
        &self.ops
    }
}

} // verus!
