//! End-to-end round trips: the recorded emission is replayed once into a
//! bulletproofs prover and once into a verifier, and the resulting rank-1
//! constraint system accepts exactly the valid shuffles.

use bulletproofs::r1cs::{
    ConstraintSystem, LinearCombination, Prover, R1CSError, RandomizableConstraintSystem,
    RandomizedConstraintSystem, Variable, Verifier,
};
use bulletproofs::{BulletproofGens, PedersenGens};
use curve25519_dalek_ng::ristretto::CompressedRistretto;
use curve25519_dalek_ng::scalar::Scalar;
use merlin::Transcript;

use padded_shuffle::cs::{Coeff, ConstraintSystem as ShuffleRecord, LinComb, Op, Wire};
use padded_shuffle::padded_shuffle::fill_cs;
use padded_shuffle::value::{AllocatedValue, Value};

fn yuan(q: u64) -> Value {
    Value { q, a: 888, t: 999 }
}

fn peso(q: u64) -> Value {
    Value { q, a: 666, t: 777 }
}

fn zero() -> Value {
    Value::zero()
}

fn scalar_of(c: &Coeff, challenges: &[Scalar]) -> Scalar {
    match c {
        Coeff::Zero => Scalar::zero(),
        Coeff::One => Scalar::one(),
        Coeff::MinusOne => -Scalar::one(),
        Coeff::Challenge(i) => challenges[*i],
        Coeff::NegChallenge(i) => -challenges[*i],
    }
}

fn var_of(
    w: &Wire,
    committed: &[Variable],
    gates: &[(Variable, Variable, Variable)],
) -> Variable {
    match w {
        Wire::Committed(i) => committed[*i],
        Wire::MulLeft(g) => gates[*g].0,
        Wire::MulRight(g) => gates[*g].1,
        Wire::MulOutput(g) => gates[*g].2,
    }
}

fn lc_of(
    lc: &LinComb,
    committed: &[Variable],
    gates: &[(Variable, Variable, Variable)],
    challenges: &[Scalar],
) -> LinearCombination {
    let mut out: LinearCombination = Variable::One() * scalar_of(&lc.constant, challenges);
    for (w, c) in lc.terms.iter() {
        out = out + var_of(w, committed, gates) * scalar_of(c, challenges);
    }
    out
}

fn apply_plain<CS: ConstraintSystem>(
    cs: &mut CS,
    ops: &[Op],
    committed: &[Variable],
    gates: &mut Vec<(Variable, Variable, Variable)>,
) {
    for op in ops {
        match op {
            Op::Multiply(l, r) => {
                let lv = lc_of(l, committed, gates, &[]);
                let rv = lc_of(r, committed, gates, &[]);
                gates.push(cs.multiply(lv, rv));
            }
            Op::Constrain(l) => {
                let v = lc_of(l, committed, gates, &[]);
                cs.constrain(v);
            }
            Op::Challenge => unreachable!(),
        }
    }
}

fn apply_randomized<CS: RandomizedConstraintSystem>(
    cs: &mut CS,
    ops: &[Op],
    committed: &[Variable],
    gates: &mut Vec<(Variable, Variable, Variable)>,
    challenges: &mut Vec<Scalar>,
) {
    for op in ops {
        match op {
            Op::Multiply(l, r) => {
                let lv = lc_of(l, committed, gates, challenges);
                let rv = lc_of(r, committed, gates, challenges);
                gates.push(cs.multiply(lv, rv));
            }
            Op::Constrain(l) => {
                let v = lc_of(l, committed, gates, challenges);
                cs.constrain(v);
            }
            Op::Challenge => {
                challenges.push(cs.challenge_scalar(b"shuffle challenge"));
            }
        }
    }
}

/// Replay the recorded emission, in order: everything before the first
/// challenge goes into the committed phase, the rest into the randomized
/// phase, identically on the prover and the verifier side.
fn run_record<CS: RandomizableConstraintSystem>(
    cs: &mut CS,
    ops: Vec<Op>,
    committed: Vec<Variable>,
) -> Result<(), R1CSError> {
    let split = ops.iter().position(|op| matches!(op, Op::Challenge));
    match split {
        None => {
            let mut gates = Vec::new();
            apply_plain(cs, &ops, &committed, &mut gates);
            Ok(())
        }
        Some(s) => {
            let mut gates = Vec::new();
            apply_plain(cs, &ops[..s], &committed, &mut gates);
            let rest: Vec<Op> = ops[s..].to_vec();
            cs.specify_randomized_constraints(move |rcs| {
                let mut gates = gates;
                let mut challenges: Vec<Scalar> = Vec::new();
                apply_randomized(rcs, &rest, &committed, &mut gates, &mut challenges);
                Ok(())
            })
        }
    }
}

fn shape_error() -> R1CSError {
    R1CSError::GadgetError { description: "inconsistent entry shapes".to_string() }
}

fn padded_shuffle_helper(input: Vec<Value>, output: Vec<Value>) -> Result<(), R1CSError> {
    let pc_gens = PedersenGens::default();
    let bp_gens = BulletproofGens::new(128, 1);

    // Prover's scope
    let (proof, in_coms, out_coms) = {
        let mut prover_transcript = Transcript::new(b"PaddedShuffleTest");
        let mut prover = Prover::new(&pc_gens, &mut prover_transcript);

        let mut committed: Vec<Variable> = Vec::new();
        let mut in_coms: Vec<CompressedRistretto> = Vec::new();
        let mut out_coms: Vec<CompressedRistretto> = Vec::new();
        let mut blind: u64 = 0;

        let mut xs: Vec<AllocatedValue> = Vec::new();
        for v in &input {
            for s in [Scalar::from(v.q), Scalar::from(v.a), Scalar::from(v.t)] {
                blind += 1;
                let (com, var) = prover.commit(s, Scalar::from(blind * 87 + 3));
                in_coms.push(com);
                committed.push(var);
            }
            let base = committed.len() - 3;
            xs.push(AllocatedValue {
                q: Wire::Committed(base),
                a: Wire::Committed(base + 1),
                t: Wire::Committed(base + 2),
                assignment: Some(*v),
            });
        }
        let mut ys: Vec<AllocatedValue> = Vec::new();
        for v in &output {
            for s in [Scalar::from(v.q), Scalar::from(v.a), Scalar::from(v.t)] {
                blind += 1;
                let (com, var) = prover.commit(s, Scalar::from(blind * 87 + 3));
                out_coms.push(com);
                committed.push(var);
            }
            let base = committed.len() - 3;
            ys.push(AllocatedValue {
                q: Wire::Committed(base),
                a: Wire::Committed(base + 1),
                t: Wire::Committed(base + 2),
                assignment: Some(*v),
            });
        }

        let mut record = ShuffleRecord::new();
        fill_cs(&mut record, xs, ys).map_err(|_| shape_error())?;
        run_record(&mut prover, record.ops().clone(), committed)?;

        let proof = prover.prove(&bp_gens)?;
        (proof, in_coms, out_coms)
    };

    // Verifier's scope: the very same record, replayed over commitments
    let mut verifier_transcript = Transcript::new(b"PaddedShuffleTest");
    let mut verifier = Verifier::new(&mut verifier_transcript);

    let mut committed: Vec<Variable> = Vec::new();
    let mut xs: Vec<AllocatedValue> = Vec::new();
    for chunk in in_coms.chunks(3) {
        let base = committed.len();
        for com in chunk {
            committed.push(verifier.commit(*com));
        }
        xs.push(AllocatedValue {
            q: Wire::Committed(base),
            a: Wire::Committed(base + 1),
            t: Wire::Committed(base + 2),
            assignment: None,
        });
    }
    let mut ys: Vec<AllocatedValue> = Vec::new();
    for chunk in out_coms.chunks(3) {
        let base = committed.len();
        for com in chunk {
            committed.push(verifier.commit(*com));
        }
        ys.push(AllocatedValue {
            q: Wire::Committed(base),
            a: Wire::Committed(base + 1),
            t: Wire::Committed(base + 2),
            assignment: None,
        });
    }

    let mut record = ShuffleRecord::new();
    fill_cs(&mut record, xs, ys).map_err(|_| shape_error())?;
    run_record(&mut verifier, record.ops().clone(), committed)?;

    verifier.verify(&proof, &pc_gens, &bp_gens)
}

#[test]
fn padded_shuffle() {
    // k=2, with interspersed empty values
    assert!(
        padded_shuffle_helper(vec![peso(1), zero(), yuan(4)], vec![peso(1), yuan(4)]).is_ok()
    );
    assert!(
        padded_shuffle_helper(
            vec![peso(1), yuan(4)],
            vec![zero(), yuan(4), zero(), peso(1)]
        )
        .is_ok()
    );
    assert!(
        padded_shuffle_helper(
            vec![yuan(4), zero(), zero(), yuan(4)],
            vec![zero(), yuan(4), yuan(4)]
        )
        .is_ok()
    );

    // k=3, with interspersed empty values
    assert!(
        padded_shuffle_helper(
            vec![yuan(1), yuan(4), zero(), peso(8)],
            vec![yuan(1), yuan(4), peso(8)]
        )
        .is_ok()
    );
    assert!(
        padded_shuffle_helper(
            vec![yuan(1), yuan(4), peso(8)],
            vec![yuan(1), zero(), peso(8), zero(), yuan(4)]
        )
        .is_ok()
    );
    assert!(
        padded_shuffle_helper(
            vec![yuan(1), yuan(4), zero(), peso(8)],
            vec![zero(), zero(), yuan(4), yuan(1), peso(8)]
        )
        .is_ok()
    );
    assert!(padded_shuffle_helper(vec![peso(1), yuan(4)], vec![yuan(4), peso(2)]).is_err());
    assert!(
        padded_shuffle_helper(
            vec![yuan(1), yuan(4), peso(8)],
            vec![
                zero(),
                Value { q: 1, a: 0, t: 0 },
                yuan(4),
                yuan(1),
                peso(8)
            ]
        )
        .is_err()
    );
}

#[test]
fn single_value_shuffle_round_trip() {
    assert!(padded_shuffle_helper(vec![yuan(4)], vec![yuan(4)]).is_ok());
    assert!(padded_shuffle_helper(vec![yuan(4)], vec![yuan(5)]).is_err());
}

#[test]
fn empty_against_zeros_round_trip() {
    assert!(padded_shuffle_helper(vec![], vec![zero(), zero()]).is_ok());
    assert!(padded_shuffle_helper(vec![], vec![zero(), yuan(4)]).is_err());
}

#[test]
fn equal_tags_different_quantities_rejected() {
    assert!(padded_shuffle_helper(vec![yuan(1), yuan(4)], vec![yuan(4), yuan(1)]).is_ok());
    assert!(padded_shuffle_helper(vec![yuan(1), yuan(4)], vec![yuan(4), yuan(2)]).is_err());
}
