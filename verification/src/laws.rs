//! Content laws of the padding step.
//!
//! The semantic object a shuffle cares about is the multiset of tagged
//! values with zero-valued entries disregarded: zeros are interchangeable
//! padding, wherever they stand.  The lemmas here pin that down: inserting a
//! zero value at any position of a sequence leaves its padded content
//! untouched, and the normalizer's automatic placeholders add nothing to the
//! padded content of either side.

use vstd::prelude::*;

use vstd::seq_lib::lemma_multiset_commutative;

use crate::padded_shuffle::{padded_first, padded_second};
use crate::value::{all_witnessed, AllocatedValue, Value};

verus! {

/// The two sequences hold the same tagged values with the same
/// multiplicities once zero-valued entries are disregarded.
pub open spec fn pad_equivalent(x: Seq<Value>, y: Seq<Value>) -> bool {
    forall|v: Value|
        v != Value::spec_zero() ==> x.to_multiset().count(v) == y.to_multiset().count(v)
}

/// A sequence of `k` zero values.
pub open spec fn zeros(k: int) -> Seq<Value> {
    Seq::new(k as nat, |j: int| Value::spec_zero())
}

/// The concrete values behind a fully witnessed sequence of entries.
pub open spec fn witness_values(s: Seq<AllocatedValue>) -> Seq<Value> {
    Seq::new(s.len(), |i: int| s[i].assignment.unwrap())
}

/// A sequence of zeros holds no non-zero value.
proof fn lemma_zeros_content(k: int, v: Value)
    requires
        k >= 0,
        v != Value::spec_zero(),
    ensures
        zeros(k).to_multiset().count(v) == 0,
    decreases k,
{
    broadcast use vstd::seq_lib::group_to_multiset_ensures;
    broadcast use vstd::multiset::group_multiset_axioms;

    if k == 0 {
        assert(zeros(0) =~= Seq::<Value>::empty());
    } else {
        lemma_zeros_content(k - 1, v);
        assert(zeros(k) =~= zeros(k - 1).push(Value::spec_zero()));
    }
}

/// Padding is order-independent, first half: inserting a zero value at any
/// position of a sequence leaves its padded content — the multiset of its
/// values with zeros disregarded — exactly as it was.
pub proof fn lemma_zero_insertion_immaterial(s: Seq<Value>, i: int)
    requires
        0 <= i <= s.len(),
    ensures
        pad_equivalent(s.insert(i, Value::spec_zero()), s),
        pad_equivalent(s, s.insert(i, Value::spec_zero())),
{
    broadcast use vstd::seq_lib::group_to_multiset_ensures;
    broadcast use vstd::multiset::group_multiset_axioms;

    let z = Value::spec_zero();
    let left = s.take(i);
    let right = s.skip(i);
    assert(s.insert(i, z) =~= left + (seq![z] + right));
    assert(s =~= left + right);
    lemma_multiset_commutative(left, seq![z] + right);
    lemma_multiset_commutative(seq![z], right);
    lemma_multiset_commutative(left, right);
    assert(seq![z] =~= Seq::<Value>::empty().push(z));
    assert forall|v: Value| v != z implies s.insert(i, z).to_multiset().count(v)
        == s.to_multiset().count(v) by {
        assert((seq![z]).to_multiset().count(v) == 0);
    }
}

/// Padding is order-independent, second half: the placeholders the
/// normalizer appends to the shorter side carry the zero value, so the
/// padded content of each equalized sequence is that of the sequence the
/// caller supplied.  Together with the insertion lemma, zero entries written
/// by hand anywhere in a caller-supplied sequence and placeholders appended
/// automatically are interchangeable.
pub proof fn lemma_pad_preserves_content(x: Seq<AllocatedValue>, y: Seq<AllocatedValue>, g0: int)
    requires
        all_witnessed(x),
        all_witnessed(y),
    ensures
        pad_equivalent(witness_values(padded_first(x, y, g0, true)), witness_values(x)),
        pad_equivalent(witness_values(padded_second(x, y, g0, true)), witness_values(y)),
{
    broadcast use vstd::seq_lib::group_to_multiset_ensures;
    broadcast use vstd::multiset::group_multiset_axioms;

    if x.len() < y.len() {
        lemma_append_zeros(witness_values(x), y.len() - x.len());
        assert(witness_values(padded_first(x, y, g0, true)) =~= witness_values(x) + zeros(
            y.len() - x.len(),
        ));
    }
    if y.len() < x.len() {
        lemma_append_zeros(witness_values(y), x.len() - y.len());
        assert(witness_values(padded_second(x, y, g0, true)) =~= witness_values(y) + zeros(
            x.len() - y.len(),
        ));
    }
}

/// The product of a sequence of integers.
pub open spec fn product(s: Seq<int>) -> int
    decreases s.len(),
{
    if s.len() == 0 {
        1
    } else {
        product(s.drop_last()) * s.last()
    }
}

/// The product of a concatenation is the product of the products.
proof fn lemma_product_add(a: Seq<int>, b: Seq<int>)
    ensures
        product(a + b) == product(a) * product(b),
    decreases b.len(),
{
    if b.len() == 0 {
        assert(a + b =~= a);
    } else {
        lemma_product_add(a, b.drop_last());
        assert((a + b).drop_last() =~= a + b.drop_last());
        vstd::arithmetic::mul::lemma_mul_is_associative(
            product(a),
            product(b.drop_last()),
            b.last(),
        );
    }
}

/// Taking one factor out of a sequence divides its product by that factor.
proof fn lemma_product_remove(s: Seq<int>, i: int)
    requires
        0 <= i < s.len(),
    ensures
        product(s) == product(s.remove(i)) * s[i],
{
    let left = s.take(i);
    let right = s.skip(i + 1);
    let mid = seq![s[i]];
    assert(s =~= left + (mid + right));
    assert(s.remove(i) =~= left + right);
    lemma_product_add(left, mid + right);
    lemma_product_add(mid, right);
    lemma_product_add(left, right);
    assert(mid.drop_last() =~= Seq::<int>::empty());
    assert(product(mid.drop_last()) == 1);
    assert(product(mid) == 1 * s[i]);
    assert(product(left) * (s[i] * product(right)) == (product(left) * product(right)) * s[i])
        by (nonlinear_arith);
}

/// The randomized polynomial identity behind the permutation argument, on
/// its sound side: two sequences of factors that are equal as multisets —
/// as the factors `w - combine(e)` of a true reordering are, for every
/// choice of the challenges — have equal running products, so the final
/// equality constraint of the argument is met by every genuine shuffle.
/// The converse direction is probabilistic — two differing multisets give
/// products that can only collide on a negligible fraction of challenge
/// draws — and stays with the proving backend.
pub proof fn lemma_equal_multisets_equal_products(a: Seq<int>, b: Seq<int>)
    requires
        a.to_multiset() == b.to_multiset(),
    ensures
        product(a) == product(b),
    decreases a.len(),
{
    broadcast use vstd::seq_lib::group_to_multiset_ensures;
    broadcast use vstd::multiset::group_multiset_axioms;

    if a.len() == 0 {
        assert(a.to_multiset().len() == a.len());
        assert(b.to_multiset().len() == b.len());
        assert(a =~= b);
    } else {
        let x = a.last();
        assert(a.contains(x));
        assert(b.to_multiset().count(x) > 0);
        assert(b.contains(x));
        let i = choose|i: int| 0 <= i < b.len() && b[i] == x;
        lemma_product_remove(b, i);
        assert(a.drop_last().push(x) =~= a);
        assert(a.drop_last().push(x).to_multiset() =~= a.drop_last().to_multiset().insert(x));
        assert(b.remove(i).to_multiset() =~= b.to_multiset().remove(x));
        assert(a.drop_last().to_multiset().insert(x).remove(x) =~= a.drop_last().to_multiset());
        lemma_equal_multisets_equal_products(a.drop_last(), b.remove(i));
    }
}

/// The linear combination the permutation argument folds one value into,
/// evaluated at challenge weights `wa` and `wt`.
pub open spec fn combine(v: Value, wa: int, wt: int) -> int {
    v.q + wa * v.a + wt * v.t
}

/// The factors `w - combine(v)` of a whole sequence, at the challenge
/// evaluation point `w`.
pub open spec fn shifted_factors(s: Seq<Value>, w: int, wa: int, wt: int) -> Seq<int> {
    Seq::new(s.len(), |i: int| w - combine(s[i], wa, wt))
}

/// A reordering of the values is a reordering of their factors.
proof fn lemma_shifted_factors_multiset(
    x: Seq<Value>,
    y: Seq<Value>,
    w: int,
    wa: int,
    wt: int,
)
    requires
        x.to_multiset() == y.to_multiset(),
    ensures
        shifted_factors(x, w, wa, wt).to_multiset() == shifted_factors(
            y,
            w,
            wa,
            wt,
        ).to_multiset(),
    decreases x.len(),
{
    broadcast use vstd::seq_lib::group_to_multiset_ensures;
    broadcast use vstd::multiset::group_multiset_axioms;

    if x.len() == 0 {
        assert(x.to_multiset().len() == x.len());
        assert(y.to_multiset().len() == y.len());
        assert(shifted_factors(x, w, wa, wt) =~= shifted_factors(y, w, wa, wt));
    } else {
        let v = x.last();
        assert(x.contains(v));
        assert(y.to_multiset().count(v) > 0);
        assert(y.contains(v));
        let i = choose|i: int| 0 <= i < y.len() && y[i] == v;
        assert(x.drop_last().push(v) =~= x);
        assert(x.drop_last().push(v).to_multiset() =~= x.drop_last().to_multiset().insert(v));
        assert(y.remove(i).to_multiset() =~= y.to_multiset().remove(v));
        assert(x.drop_last().to_multiset().insert(v).remove(v) =~= x.drop_last().to_multiset());
        lemma_shifted_factors_multiset(x.drop_last(), y.remove(i), w, wa, wt);
        let fx = shifted_factors(x, w, wa, wt);
        let fy = shifted_factors(y, w, wa, wt);
        assert(fx =~= shifted_factors(x.drop_last(), w, wa, wt).push(w - combine(v, wa, wt)));
        assert(shifted_factors(y.remove(i), w, wa, wt) =~= fy.remove(i));
        assert(fy.remove(i).to_multiset() =~= fy.to_multiset().remove(fy[i]));
        assert(fy[i] == w - combine(v, wa, wt));
        assert(fy.to_multiset().count(fy[i]) > 0);
        assert(fy.to_multiset().remove(fy[i]).insert(fy[i]) =~= fy.to_multiset());
        assert(fx.to_multiset() =~= shifted_factors(
            x.drop_last(),
            w,
            wa,
            wt,
        ).to_multiset().insert(w - combine(v, wa, wt)));
    }
}

/// The permutation argument's completeness: for every choice of the three
/// challenges, a true reordering of the tagged values leaves the two
/// running products of `w - combine(e)` equal, so the final equality
/// constraint is met by every genuine shuffle.
pub proof fn lemma_true_reordering_products_agree(
    x: Seq<Value>,
    y: Seq<Value>,
    w: int,
    wa: int,
    wt: int,
)
    requires
        x.to_multiset() == y.to_multiset(),
    ensures
        product(shifted_factors(x, w, wa, wt)) == product(shifted_factors(y, w, wa, wt)),
{
    lemma_shifted_factors_multiset(x, y, w, wa, wt);
    lemma_equal_multisets_equal_products(
        shifted_factors(x, w, wa, wt),
        shifted_factors(y, w, wa, wt),
    );
}

/// Appending zeros to a sequence leaves its padded content as it was.
proof fn lemma_append_zeros(s: Seq<Value>, k: int)
    requires
        k >= 0,
    ensures
        pad_equivalent(s + zeros(k), s),
{
    broadcast use vstd::multiset::group_multiset_axioms;

    lemma_multiset_commutative(s, zeros(k));
    assert forall|v: Value| v != Value::spec_zero() implies (s + zeros(k)).to_multiset().count(v)
        == s.to_multiset().count(v) by {
        lemma_zeros_content(k, v);
    }
}

} // verus!
