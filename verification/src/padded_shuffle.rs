//! The shuffle-with-padding gadget: length equalization by provably-zero
//! placeholder entries, followed by the permutation argument.
//!
//! Each placeholder costs one multiplication gate whose two inputs are bound
//! to the zero constant.  The two linear constraints on the inputs, together
//! with the multiplication relation itself, force all three of that
//! multiplier's wires to carry zero — a third linear constraint on the
//! output would be redundant, so it is never emitted.

use vstd::prelude::*;

use crate::cs::{
    challenge_count, gate_count, lemma_counts_push, Coeff, ConstraintSystem, LinComb,
    LinCombModel, OpModel, Wire,
};
use crate::error::GadgetError;
use crate::value::{
    all_witnessed, modes_check, modes_consistent, none_witnessed, pick_side, same_wires,
    side_witnessed, AllocatedValue, Value,
};
use crate::value_shuffle;
use crate::value_shuffle::{lemma_shuffle_ops_wires_only, shuffle_ops};

verus! {

/// The placeholder entry built from the multiplication gate with index `g`:
/// its quantity, first tag and second tag ride that multiplier's left
/// input, right input and output, in that order, and on the prover side its
/// witness is the zero value.
pub open spec fn placeholder_entry(g: int, witnessed: bool) -> AllocatedValue {
    AllocatedValue {
        q: Wire::MulLeft(g as usize),
        a: Wire::MulRight(g as usize),
        t: Wire::MulOutput(g as usize),
        assignment: if witnessed {
            Some(Value::spec_zero())
        } else {
            None
        },
    }
}

/// `n` placeholder entries over consecutive gates starting at `g0`.
pub open spec fn placeholders(g0: int, n: int, witnessed: bool) -> Seq<AllocatedValue> {
    Seq::new(n as nat, |j: int| placeholder_entry(g0 + j, witnessed))
}

/// The combination with no wires and the zero constant.
pub open spec fn zero_model() -> LinCombModel {
    LinCombModel { terms: Seq::<(Wire, Coeff)>::empty(), constant: Coeff::Zero }
}

/// The `n` gate allocations the padding step emits: each binds both inputs
/// of a fresh multiplication gate to the zero constant.
pub open spec fn padding_ops(n: int) -> Seq<OpModel> {
    Seq::new(n as nat, |j: int| OpModel::Multiply(zero_model(), zero_model()))
}

/// How many placeholders equalizing lengths `m` and `n` takes: their
/// absolute difference.
pub open spec fn pad_count(m: int, n: int) -> int {
    if m >= n {
        m - n
    } else {
        n - m
    }
}

/// The first sequence after padding: unchanged unless it is the shorter one,
/// in which case the placeholders are appended to it.
pub open spec fn padded_first(
    x: Seq<AllocatedValue>,
    y: Seq<AllocatedValue>,
    g0: int,
    witnessed: bool,
) -> Seq<AllocatedValue> {
    if x.len() < y.len() {
        x + placeholders(g0, y.len() - x.len(), witnessed)
    } else {
        x
    }
}

/// The second sequence after padding: unchanged unless it is the shorter
/// one, in which case the placeholders are appended to it.
pub open spec fn padded_second(
    x: Seq<AllocatedValue>,
    y: Seq<AllocatedValue>,
    g0: int,
    witnessed: bool,
) -> Seq<AllocatedValue> {
    if y.len() < x.len() {
        y + placeholders(g0, x.len() - y.len(), witnessed)
    } else {
        y
    }
}

/// Everything the whole gadget emits for two well-shaped sequences, when
/// `g0` gates and `c0` challenges stand in the record already: the padding
/// gates, then the permutation argument over the equalized sequences.
pub open spec fn padded_shuffle_ops(
    x: Seq<AllocatedValue>,
    y: Seq<AllocatedValue>,
    g0: int,
    c0: int,
) -> Seq<OpModel> {
    let w = side_witnessed(x, y);
    let p = pad_count(x.len() as int, y.len() as int);
    padding_ops(p) + shuffle_ops(
        padded_first(x, y, g0, w),
        padded_second(x, y, g0, w),
        g0 + p,
        c0,
    )
}

/// The padding step's whole side effect on the constraint system: exactly
/// `n` multiplication gates and no challenge.  Each of those gates binds its
/// two inputs to the zero constant with one linear constraint apiece — `2 n`
/// linear constraints in all — and the multiplication relation then forces
/// the third wire to zero without a further constraint.
pub proof fn lemma_padding_cost(n: int)
    requires
        n >= 0,
    ensures
        padding_ops(n).len() == n,
        gate_count(padding_ops(n)) == n,
        challenge_count(padding_ops(n)) == 0,
        forall|j: int| 0 <= j < n ==> padding_ops(n)[j] is Multiply,
    decreases n,
{
    if n > 0 {
        lemma_padding_cost(n - 1);
        assert(padding_ops(n) =~= padding_ops(n - 1).push(
            OpModel::Multiply(zero_model(), zero_model()),
        ));
        lemma_counts_push(padding_ops(n - 1), OpModel::Multiply(zero_model(), zero_model()));
    } else {
        assert(padding_ops(0) =~= Seq::<OpModel>::empty());
    }
}

/// Build the combination with no wires and the zero constant.
fn zero_lc() -> (r: LinComb)
    ensures
        r@ == zero_model(),
{
    let r = LinComb { terms: Vec::new(), constant: Coeff::Zero };
    proof {
        assert(r@ =~= zero_model());
    }
    r
}

/// Equalize the lengths of the two sequences by appending zero-valued
/// placeholder entries to the shorter one.
///
/// Exactly `pad_count` fresh multiplication gates are allocated — one per
/// placeholder, with both inputs bound to the zero constant — and nothing
/// else is emitted; when the lengths already match, the step is a no-op and
/// hands both sequences back unchanged.  `witnessed` says which side the
/// invocation is on: on the prover side every placeholder carries the zero
/// value as its witness, on the verifier side none does.
pub fn pad(
    cs: &mut ConstraintSystem,
    x: Vec<AllocatedValue>,
    y: Vec<AllocatedValue>,
    witnessed: bool,
) -> (r: (Vec<AllocatedValue>, Vec<AllocatedValue>))
    requires
        old(cs).wf(),
    ensures
        final(cs).wf(),
        final(cs)@ == old(cs)@ + padding_ops(pad_count(x@.len() as int, y@.len() as int)),
        final(cs).spec_gates() == old(cs).spec_gates() + pad_count(
            x@.len() as int,
            y@.len() as int,
        ),
        final(cs).spec_challenges() == old(cs).spec_challenges(),
        r.0@ == padded_first(x@, y@, old(cs).spec_gates() as int, witnessed),
        r.1@ == padded_second(x@, y@, old(cs).spec_gates() as int, witnessed),
        r.0@.len() == r.1@.len(),
        x@.len() == y@.len() ==> *final(cs) == *old(cs) && r.0@ == x@ && r.1@ == y@,
{
    let m = x.len();
    let n = y.len();
    let count = if m > n {
        m - n
    } else {
        n - m
    };
    let ghost g0: int = old(cs).spec_gates() as int;
    let mut values: Vec<AllocatedValue> = Vec::new();
    let mut i: usize = 0;
    while i < count
        invariant
            cs.wf(),
            0 <= i <= count,
            count == pad_count(x@.len() as int, y@.len() as int),
            g0 == old(cs).spec_gates() as int,
            cs@ == old(cs)@ + padding_ops(i as int),
            cs.spec_gates() == g0 + i,
            cs.spec_challenges() == old(cs).spec_challenges(),
            values@ == placeholders(g0, i as int, witnessed),
            i == 0 ==> *cs == *old(cs),
        decreases count - i,
    {
        let left = zero_lc();
        let right = zero_lc();
        let (q, a, t) = cs.multiply(left, right);
        let assignment = if witnessed {
            Some(Value::zero())
        } else {
            None
        };
        values.push(AllocatedValue { q, a, t, assignment });
        proof {
            assert(cs@ =~= old(cs)@ + padding_ops(i + 1));
            assert(values@ =~= placeholders(g0, i + 1, witnessed));
        }
        i = i + 1;
    }
    if m > n {
        let mut padded_y = y;
        padded_y.append(&mut values);
        proof {
            assert(padded_y@ == y@ + placeholders(g0, count as int, witnessed));
        }
        (x, padded_y)
    } else if m < n {
        let mut padded_x = x;
        padded_x.append(&mut values);
        proof {
            assert(padded_x@ == x@ + placeholders(g0, count as int, witnessed));
        }
        (padded_x, y)
    } else {
        (x, y)
    }
}

/// Padding placeholders carry the witness form of the side they are made
/// for, so equalizing two well-shaped sequences keeps them well-shaped.
proof fn lemma_padding_preserves_modes(
    x: Seq<AllocatedValue>,
    y: Seq<AllocatedValue>,
    g0: int,
    w: bool,
)
    requires
        modes_consistent(x, y),
        w == side_witnessed(x, y),
    ensures
        modes_consistent(padded_first(x, y, g0, w), padded_second(x, y, g0, w)),
{
    let pf = padded_first(x, y, g0, w);
    let ps = padded_second(x, y, g0, w);
    if all_witnessed(x) && all_witnessed(y) && (x.len() > 0 || y.len() > 0) {
        assert(w == true);
        assert forall|i: int| 0 <= i < pf.len() implies pf[i].assignment is Some by {
            if i >= x.len() {
                assert(pf[i] == placeholder_entry(g0 + (i - x.len()), w));
            }
        }
        assert forall|i: int| 0 <= i < ps.len() implies ps[i].assignment is Some by {
            if i >= y.len() {
                assert(ps[i] == placeholder_entry(g0 + (i - y.len()), w));
            }
        }
        assert(all_witnessed(pf) && all_witnessed(ps));
    } else {
        assert(none_witnessed(x) && none_witnessed(y));
        assert(w == false);
        assert forall|i: int| 0 <= i < pf.len() implies pf[i].assignment is None by {
            if i >= x.len() {
                assert(pf[i] == placeholder_entry(g0 + (i - x.len()), w));
            }
        }
        assert forall|i: int| 0 <= i < ps.len() implies ps[i].assignment is None by {
            if i >= y.len() {
                assert(ps[i] == placeholder_entry(g0 + (i - y.len()), w));
            }
        }
        assert(none_witnessed(pf) && none_witnessed(ps));
    }
}

/// Prover/verifier symmetry: the whole gadget's emission is a function of
/// the two sequences' wires and lengths alone, never of any witness.  The
/// prover's invocation and the verifier's — the same committed wires, with
/// and without concrete values behind them — append structurally identical
/// records, so the two transcripts and every challenge derived from them
/// stay in lockstep.
pub proof fn lemma_prover_verifier_symmetry(
    x1: Seq<AllocatedValue>,
    y1: Seq<AllocatedValue>,
    x2: Seq<AllocatedValue>,
    y2: Seq<AllocatedValue>,
    g0: int,
    c0: int,
)
    requires
        same_wires(x1, x2),
        same_wires(y1, y2),
    ensures
        padded_shuffle_ops(x1, y1, g0, c0) == padded_shuffle_ops(x2, y2, g0, c0),
{
    let w1 = side_witnessed(x1, y1);
    let w2 = side_witnessed(x2, y2);
    let p = pad_count(x1.len() as int, y1.len() as int);
    assert(same_wires(padded_first(x1, y1, g0, w1), padded_first(x2, y2, g0, w2)));
    assert(same_wires(padded_second(x1, y1, g0, w1), padded_second(x2, y2, g0, w2)));
    assert(padded_first(x1, y1, g0, w1).len() == padded_second(x1, y1, g0, w1).len());
    lemma_shuffle_ops_wires_only(
        padded_first(x1, y1, g0, w1),
        padded_second(x1, y1, g0, w1),
        padded_first(x2, y2, g0, w2),
        padded_second(x2, y2, g0, w2),
        g0 + p,
        c0,
    );
}

/// Enforce that the values in `y` are a valid reordering of the values in
/// `x`, allowing for padding: the shorter sequence is first extended with
/// provably-zero placeholder entries, and the permutation argument is then
/// applied to the equalized sequences.
///
/// The emitted record is a function of the two sequences' wires and lengths
/// alone — never of any witness — so the prover and the verifier, replaying
/// it in order, put identical constraints and challenge derivations into
/// their transcripts.  The only structural failure is a pair of sequences
/// mixing the prover and the verifier form of entries; in that case nothing
/// is emitted.
pub fn fill_cs(cs: &mut ConstraintSystem, x: Vec<AllocatedValue>, y: Vec<AllocatedValue>) -> (r:
    Result<(), GadgetError>)
    requires
        old(cs).wf(),
    ensures
        final(cs).wf(),
        r is Err <==> !modes_consistent(x@, y@),
        r is Err ==> *final(cs) == *old(cs),
        r is Ok ==> final(cs)@ == old(cs)@ + padded_shuffle_ops(
            x@,
            y@,
            old(cs).spec_gates() as int,
            old(cs).spec_challenges() as int,
        ),
{
    if !modes_check(&x, &y) {
        return Err(GadgetError::InconsistentShape);
    }
    let ghost g0: int = old(cs).spec_gates() as int;
    let ghost c0: int = old(cs).spec_challenges() as int;
    let ghost xv: Seq<AllocatedValue> = x@;
    let ghost yv: Seq<AllocatedValue> = y@;
    let witnessed = pick_side(&x, &y);
    let (padded_x, padded_y) = pad(cs, x, y, witnessed);
    proof {
        lemma_padding_preserves_modes(xv, yv, g0, witnessed);
    }
    let r = value_shuffle::fill_cs(cs, padded_x, padded_y);
    proof {
        assert(r is Ok);
        assert(cs@ =~= old(cs)@ + padded_shuffle_ops(xv, yv, g0, c0));
    }
    r
}

} // verus!
