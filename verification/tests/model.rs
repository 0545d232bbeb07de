//! Structural tests of the recorded constraint emission: padding counts,
//! placeholder shapes, error behaviour and the layout of the permutation
//! argument.

use padded_shuffle::cs::{Coeff, ConstraintSystem, Op, Wire};
use padded_shuffle::error::GadgetError;
use padded_shuffle::padded_shuffle::{fill_cs, pad};
use padded_shuffle::value::{AllocatedValue, Value};

fn committed_entry(i: usize, witness: Option<Value>) -> AllocatedValue {
    AllocatedValue {
        q: Wire::Committed(3 * i),
        a: Wire::Committed(3 * i + 1),
        t: Wire::Committed(3 * i + 2),
        assignment: witness,
    }
}

fn witnessed_entries(n: usize) -> Vec<AllocatedValue> {
    let mut out = Vec::new();
    for i in 0..n {
        out.push(committed_entry(i, Some(Value { q: i as u64, a: 7, t: 9 })));
    }
    out
}

#[test]
fn pad_appends_exact_difference() {
    let mut cs = ConstraintSystem::new();
    let x = witnessed_entries(3);
    let y = witnessed_entries(1);
    let (x2, y2) = pad(&mut cs, x, y, true);
    assert_eq!(x2.len(), 3);
    assert_eq!(y2.len(), 3);
    // two placeholders, each one multiplication gate with both inputs bound
    // to the zero constant and nothing else
    assert_eq!(cs.ops().len(), 2);
    for op in cs.ops() {
        match op {
            Op::Multiply(l, r) => {
                assert!(l.terms.is_empty());
                assert!(r.terms.is_empty());
                assert_eq!(l.constant, Coeff::Zero);
                assert_eq!(r.constant, Coeff::Zero);
            }
            _ => panic!("padding may only allocate multiplication gates"),
        }
    }
    // the first sequence is untouched, the second gets the placeholders
    assert!(matches!(y2[1].q, Wire::MulLeft(0)));
    assert!(matches!(y2[1].a, Wire::MulRight(0)));
    assert!(matches!(y2[1].t, Wire::MulOutput(0)));
    assert!(matches!(y2[2].q, Wire::MulLeft(1)));
    assert_eq!(y2[1].assignment, Some(Value::zero()));
    assert_eq!(y2[2].assignment, Some(Value::zero()));
}

#[test]
fn pad_noop_when_lengths_match() {
    let mut cs = ConstraintSystem::new();
    let x = witnessed_entries(2);
    let y = witnessed_entries(2);
    let (x2, y2) = pad(&mut cs, x, y, true);
    assert_eq!(cs.ops().len(), 0);
    assert_eq!(x2.len(), 2);
    assert_eq!(y2.len(), 2);
    assert!(matches!(x2[0].q, Wire::Committed(0)));
    assert!(matches!(y2[1].t, Wire::Committed(5)));
}

#[test]
fn verifier_side_placeholders_carry_no_witness() {
    let mut cs = ConstraintSystem::new();
    let x = vec![committed_entry(0, None)];
    let y = Vec::new();
    let (x2, y2) = pad(&mut cs, x, y, false);
    assert_eq!(x2.len(), 1);
    assert_eq!(y2.len(), 1);
    assert_eq!(cs.ops().len(), 1);
    assert_eq!(y2[0].assignment, None);
}

#[test]
fn mixed_entry_shapes_are_rejected() {
    let mut cs = ConstraintSystem::new();
    let x = vec![committed_entry(0, Some(Value::zero()))];
    let y = vec![committed_entry(1, None)];
    let r = fill_cs(&mut cs, x, y);
    assert_eq!(r, Err(GadgetError::InconsistentShape));
    // nothing was emitted: gadget building is one-shot, with no partial
    // construction on a structural error
    assert_eq!(cs.ops().len(), 0);
}

#[test]
fn single_pair_is_constrained_wire_by_wire() {
    let mut cs = ConstraintSystem::new();
    let x = witnessed_entries(1);
    let y = vec![committed_entry(1, Some(Value { q: 0, a: 7, t: 9 }))];
    let r = fill_cs(&mut cs, x, y);
    assert!(r.is_ok());
    assert_eq!(cs.ops().len(), 3);
    for (j, op) in cs.ops().iter().enumerate() {
        match op {
            Op::Constrain(lc) => {
                assert_eq!(lc.constant, Coeff::Zero);
                assert_eq!(lc.terms.len(), 2);
                // y's wire enters positively, x's negatively
                assert_eq!(lc.terms[0], (Wire::Committed(3 + j), Coeff::One));
                assert_eq!(lc.terms[1], (Wire::Committed(j), Coeff::MinusOne));
            }
            _ => panic!("a single pair takes three direct equality constraints"),
        }
    }
}

#[test]
fn emission_shape_with_padding_and_chains() {
    let mut cs = ConstraintSystem::new();
    let x = witnessed_entries(3);
    let y = witnessed_entries(2);
    let r = fill_cs(&mut cs, x, y);
    assert!(r.is_ok());
    // one padding gate, three challenges, two product-chain gates per side,
    // one final equality constraint
    assert_eq!(cs.ops().len(), 9);
    assert!(matches!(cs.ops()[0], Op::Multiply(_, _)));
    for j in 1..4 {
        assert!(matches!(cs.ops()[j], Op::Challenge));
    }
    for j in 4..8 {
        assert!(matches!(cs.ops()[j], Op::Multiply(_, _)));
    }
    match &cs.ops()[8] {
        Op::Constrain(lc) => {
            assert_eq!(lc.constant, Coeff::Zero);
            assert_eq!(lc.terms.len(), 2);
            // gates 1 and 2 are the x chain, gates 3 and 4 the y chain; the
            // final constraint compares the two last outputs
            assert_eq!(lc.terms[0], (Wire::MulOutput(2), Coeff::One));
            assert_eq!(lc.terms[1], (Wire::MulOutput(4), Coeff::MinusOne));
        }
        _ => panic!("the last emission is the product equality constraint"),
    }
}

#[test]
fn chain_factors_subtract_combined_entries() {
    let mut cs = ConstraintSystem::new();
    let x = witnessed_entries(2);
    let y = witnessed_entries(2);
    let r = fill_cs(&mut cs, x, y);
    assert!(r.is_ok());
    // no padding; three challenges, one chain gate per side, one constraint
    assert_eq!(cs.ops().len(), 6);
    match &cs.ops()[3] {
        Op::Multiply(l, _) => {
            // w - (q + w_a * a + w_t * t) of the first x entry
            assert_eq!(l.constant, Coeff::Challenge(0));
            assert_eq!(l.terms[0], (Wire::Committed(0), Coeff::MinusOne));
            assert_eq!(l.terms[1], (Wire::Committed(1), Coeff::NegChallenge(1)));
            assert_eq!(l.terms[2], (Wire::Committed(2), Coeff::NegChallenge(2)));
        }
        _ => panic!("the first chain emission is a multiplication gate"),
    }
}
