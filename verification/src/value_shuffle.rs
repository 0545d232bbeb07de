//! The permutation argument: constraints that two equal-length sequences of
//! tagged values are equal as multisets.
//!
//! After three challenge scalars `w`, `w_a`, `w_t` are drawn from the
//! transcript, each entry `e` is folded into the single combination
//! `combine(e) = e.q + w_a * e.a + w_t * e.t`, and a chain of multiplication
//! gates builds the running products of `w - combine(e)` over each side.  One
//! final linear constraint asserts that the two products are equal.  Two
//! sides are multiset-equal exactly when those products agree as polynomials
//! in the challenges; a disagreeing pair can only collide on a negligible
//! fraction of challenge choices, which the verifier's pseudorandom draw
//! defeats.

use vstd::prelude::*;

use crate::cs::{Coeff, ConstraintSystem, LinComb, LinCombModel, OpModel, Wire};
use crate::error::GadgetError;
use crate::value::{modes_check, modes_consistent, same_wires, AllocatedValue};

verus! {

/// The combination `w - combine(e)` of one entry: the constant term is the
/// challenge `w`, and the entry's three wires are subtracted with weights
/// one, `w_a` and `w_t`.
pub open spec fn factor_model(e: AllocatedValue, w: int, wa: int, wt: int) -> LinCombModel {
    LinCombModel {
        terms: seq![
            (e.q, Coeff::MinusOne),
            (e.a, Coeff::NegChallenge(wa as usize)),
            (e.t, Coeff::NegChallenge(wt as usize)),
        ],
        constant: Coeff::Challenge(w as usize),
    }
}

/// A combination holding exactly the output wire of the multiplication gate
/// with the given index.
pub open spec fn output_model(g: int) -> LinCombModel {
    LinCombModel {
        terms: seq![(Wire::MulOutput(g as usize), Coeff::One)],
        constant: Coeff::Zero,
    }
}

/// The combination `plus - minus` of two wires.
pub open spec fn difference_model(plus: Wire, minus: Wire) -> LinCombModel {
    LinCombModel {
        terms: seq![(plus, Coeff::One), (minus, Coeff::MinusOne)],
        constant: Coeff::Zero,
    }
}

/// The operation at position `j` of the product chain over `s`, whose first
/// gate has index `g0`: the first gate multiplies the factors of the first
/// two entries, and every later gate multiplies the previous output by the
/// factor of the next entry.
pub open spec fn chain_op(
    s: Seq<AllocatedValue>,
    g0: int,
    w: int,
    wa: int,
    wt: int,
    j: int,
) -> OpModel {
    if j == 0 {
        OpModel::Multiply(factor_model(s[0], w, wa, wt), factor_model(s[1], w, wa, wt))
    } else {
        OpModel::Multiply(output_model(g0 + j - 1), factor_model(s[j + 1], w, wa, wt))
    }
}

/// The product chain over `s`: `s.len() - 1` multiplication gates whose last
/// output carries the product of all factors.
pub open spec fn chain_ops(s: Seq<AllocatedValue>, g0: int, w: int, wa: int, wt: int) -> Seq<
    OpModel,
> {
    Seq::new((s.len() - 1) as nat, |j: int| chain_op(s, g0, w, wa, wt, j))
}

/// Everything the permutation argument emits for two equal-length sequences,
/// when `g0` gates and `c0` challenges stand in the record already.
///
/// An empty pair needs nothing; a pair of single entries is constrained
/// wire by wire without a challenge; otherwise three challenges are drawn,
/// the two product chains are laid down, and the two final outputs are
/// constrained to be equal.
pub open spec fn shuffle_ops(
    x: Seq<AllocatedValue>,
    y: Seq<AllocatedValue>,
    g0: int,
    c0: int,
) -> Seq<OpModel> {
    let k = x.len() as int;
    if k == 0 {
        Seq::<OpModel>::empty()
    } else if k == 1 {
        seq![
            OpModel::Constrain(difference_model(y[0].q, x[0].q)),
            OpModel::Constrain(difference_model(y[0].a, x[0].a)),
            OpModel::Constrain(difference_model(y[0].t, x[0].t)),
        ]
    } else {
        seq![OpModel::Challenge, OpModel::Challenge, OpModel::Challenge]
            + chain_ops(x, g0, c0, c0 + 1, c0 + 2) + chain_ops(y, g0 + k - 1, c0, c0 + 1, c0 + 2)
            + seq![
            OpModel::Constrain(
                difference_model(
                    Wire::MulOutput((g0 + k - 2) as usize),
                    Wire::MulOutput((g0 + 2 * k - 3) as usize),
                ),
            ),
        ]
    }
}

/// The permutation argument's emission reads an entry's wires and nothing
/// else: sequences agreeing on their wires are handed identical records,
/// whatever their witnesses hold.
pub proof fn lemma_shuffle_ops_wires_only(
    x1: Seq<AllocatedValue>,
    y1: Seq<AllocatedValue>,
    x2: Seq<AllocatedValue>,
    y2: Seq<AllocatedValue>,
    g0: int,
    c0: int,
)
    requires
        same_wires(x1, x2),
        same_wires(y1, y2),
        x1.len() == y1.len(),
    ensures
        shuffle_ops(x1, y1, g0, c0) == shuffle_ops(x2, y2, g0, c0),
{
    let k = x1.len() as int;
    let wa = c0 + 1;
    let wt = c0 + 2;
    if k == 1 {
        assert(x1[0].q == x2[0].q && x1[0].a == x2[0].a && x1[0].t == x2[0].t);
        assert(y1[0].q == y2[0].q && y1[0].a == y2[0].a && y1[0].t == y2[0].t);
        assert(shuffle_ops(x1, y1, g0, c0) =~= shuffle_ops(x2, y2, g0, c0));
    } else if k >= 2 {
        assert forall|j: int| 0 <= j < k - 1 implies chain_op(x1, g0, c0, wa, wt, j)
            == chain_op(x2, g0, c0, wa, wt, j) by {
            assert(factor_model(x1[j + 1], c0, wa, wt) =~= factor_model(x2[j + 1], c0, wa, wt));
            if j == 0 {
                assert(factor_model(x1[0], c0, wa, wt) =~= factor_model(x2[0], c0, wa, wt));
            }
        }
        assert(chain_ops(x1, g0, c0, wa, wt) =~= chain_ops(x2, g0, c0, wa, wt));
        let gy = g0 + k - 1;
        assert forall|j: int| 0 <= j < k - 1 implies chain_op(y1, gy, c0, wa, wt, j)
            == chain_op(y2, gy, c0, wa, wt, j) by {
            assert(factor_model(y1[j + 1], c0, wa, wt) =~= factor_model(y2[j + 1], c0, wa, wt));
            if j == 0 {
                assert(factor_model(y1[0], c0, wa, wt) =~= factor_model(y2[0], c0, wa, wt));
            }
        }
        assert(chain_ops(y1, gy, c0, wa, wt) =~= chain_ops(y2, gy, c0, wa, wt));
        assert(shuffle_ops(x1, y1, g0, c0) =~= shuffle_ops(x2, y2, g0, c0));
    }
}

/// Build the combination `w - combine(e)` of one entry.
fn factor(e: &AllocatedValue, w: usize, wa: usize, wt: usize) -> (r: LinComb)
    ensures
        r@ == factor_model(*e, w as int, wa as int, wt as int),
{
    let mut terms: Vec<(Wire, Coeff)> = Vec::new();
    terms.push((e.q, Coeff::MinusOne));
    terms.push((e.a, Coeff::NegChallenge(wa)));
    terms.push((e.t, Coeff::NegChallenge(wt)));
    let r = LinComb { terms, constant: Coeff::Challenge(w) };
    proof {
        assert(r@.terms =~= factor_model(*e, w as int, wa as int, wt as int).terms);
        assert(r@ =~= factor_model(*e, w as int, wa as int, wt as int));
    }
    r
}

/// Build a combination holding exactly the given wire.
fn output_wire_lc(o: Wire) -> (r: LinComb)
    ensures
        r@.terms == seq![(o, Coeff::One)],
        r@.constant == Coeff::Zero,
{
    let mut terms: Vec<(Wire, Coeff)> = Vec::new();
    terms.push((o, Coeff::One));
    let r = LinComb { terms, constant: Coeff::Zero };
    proof {
        assert(r@.terms =~= seq![(o, Coeff::One)]);
    }
    r
}

/// Build the combination `plus - minus`.
fn difference(plus: Wire, minus: Wire) -> (r: LinComb)
    ensures
        r@ == difference_model(plus, minus),
{
    let mut terms: Vec<(Wire, Coeff)> = Vec::new();
    terms.push((plus, Coeff::One));
    terms.push((minus, Coeff::MinusOne));
    let r = LinComb { terms, constant: Coeff::Zero };
    proof {
        assert(r@.terms =~= difference_model(plus, minus).terms);
        assert(r@ =~= difference_model(plus, minus));
    }
    r
}

/// Lay down the product chain over `s` and hand back the wire carrying the
/// product of all factors.
fn product_chain(
    cs: &mut ConstraintSystem,
    s: &Vec<AllocatedValue>,
    w: usize,
    wa: usize,
    wt: usize,
) -> (out: Wire)
    requires
        old(cs).wf(),
        s@.len() >= 2,
    ensures
        final(cs).wf(),
        final(cs)@ == old(cs)@ + chain_ops(
            s@,
            old(cs).spec_gates() as int,
            w as int,
            wa as int,
            wt as int,
        ),
        final(cs).spec_gates() == old(cs).spec_gates() + s@.len() - 1,
        final(cs).spec_challenges() == old(cs).spec_challenges(),
        out == (Wire::MulOutput((old(cs).spec_gates() + s@.len() - 2) as usize)),
{
    let ghost g0: int = old(cs).spec_gates() as int;
    let ghost all: Seq<OpModel> = chain_ops(s@, g0, w as int, wa as int, wt as int);
    let f0 = factor(&s[0], w, wa, wt);
    let f1 = factor(&s[1], w, wa, wt);
    let (_left, _right, first_out) = cs.multiply(f0, f1);
    let mut prev: Wire = first_out;
    let mut j: usize = 2;
    proof {
        assert(all[0] == chain_op(s@, g0, w as int, wa as int, wt as int, 0));
        assert(cs@ =~= old(cs)@ + all.take(1));
    }
    while j < s.len()
        invariant
            cs.wf(),
            2 <= j <= s@.len(),
            all == chain_ops(s@, g0, w as int, wa as int, wt as int),
            g0 == old(cs).spec_gates() as int,
            cs@ == old(cs)@ + all.take(j - 1),
            cs.spec_gates() == g0 + j - 1,
            cs.spec_challenges() == old(cs).spec_challenges(),
            prev == (Wire::MulOutput((g0 + j - 2) as usize)),
        decreases s@.len() - j,
    {
        let olc = output_wire_lc(prev);
        let fj = factor(&s[j], w, wa, wt);
        proof {
            assert(olc@ =~= output_model(g0 + j - 2));
        }
        let (_l, _r, next_out) = cs.multiply(olc, fj);
        proof {
            assert(all[j - 1] == chain_op(s@, g0, w as int, wa as int, wt as int, j - 1));
            assert(all.take(j as int) =~= all.take(j - 1).push(all[j - 1]));
            assert(cs@ =~= old(cs)@ + all.take(j as int));
        }
        prev = next_out;
        j = j + 1;
    }
    proof {
        assert(all.take(s@.len() - 1) =~= all);
    }
    prev
}

/// Add the permutation-argument constraints for two equal-length sequences.
///
/// The equal-length precondition is enforced by the padding layer and not
/// re-checked here.  The only structural failure is a pair of sequences
/// mixing the prover and the verifier form of entries; in that case nothing
/// is emitted.  For well-shaped input the emission always succeeds,
/// regardless of whether the two sides actually match: a semantic mismatch
/// surfaces only later, as an unsatisfiable circuit.
pub fn fill_cs(cs: &mut ConstraintSystem, x: Vec<AllocatedValue>, y: Vec<AllocatedValue>) -> (r:
    Result<(), GadgetError>)
    requires
        old(cs).wf(),
        x@.len() == y@.len(),
    ensures
        final(cs).wf(),
        r is Err <==> !modes_consistent(x@, y@),
        r is Err ==> *final(cs) == *old(cs),
        r is Ok ==> final(cs)@ == old(cs)@ + shuffle_ops(
            x@,
            y@,
            old(cs).spec_gates() as int,
            old(cs).spec_challenges() as int,
        ),
{
    if !modes_check(&x, &y) {
        return Err(GadgetError::InconsistentShape);
    }
    let ghost g0: int = old(cs).spec_gates() as int;
    let ghost c0: int = old(cs).spec_challenges() as int;
    let k = x.len();
    if k == 0 {
        proof {
            assert(old(cs)@ + shuffle_ops(x@, y@, g0, c0) =~= old(cs)@);
        }
        return Ok(());
    }
    if k == 1 {
        let d_q = difference(y[0].q, x[0].q);
        cs.constrain(d_q);
        let d_a = difference(y[0].a, x[0].a);
        cs.constrain(d_a);
        let d_t = difference(y[0].t, x[0].t);
        cs.constrain(d_t);
        proof {
            assert(cs@ =~= old(cs)@ + shuffle_ops(x@, y@, g0, c0));
        }
        return Ok(());
    }
    let w = cs.challenge();
    let wa = cs.challenge();
    let wt = cs.challenge();
    let out_x = product_chain(cs, &x, w, wa, wt);
    let out_y = product_chain(cs, &y, w, wa, wt);
    let fin = difference(out_x, out_y);
    cs.constrain(fin);
    proof {
        assert(cs@ =~= old(cs)@ + shuffle_ops(x@, y@, g0, c0));
    }
    Ok(())
}

} // verus!
