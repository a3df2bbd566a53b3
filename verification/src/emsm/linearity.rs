//! The code is linear over the scalar field, and the suffix sum can be
//! undone.

use vstd::prelude::*;
use vstd::arithmetic::div_mod::{lemma_add_mod_noop, lemma_small_mod, lemma_sub_mod_noop};
use crate::emsm::dual_lpn::add_vectors;
use crate::emsm::raa_code::{
    accumulate, difference, fold4, in_range, permute, raa_apply, sum_from, TOperator,
};
use crate::emsm::sparse_vec::{densify, entry_sum};
use crate::scalar::{modulus, Scalar};

verus! {

/// The entries of two sparse vectors, one list after the other, add up at
/// every position to the sum of the two.
pub proof fn lemma_entry_sum_concat(e1: Seq<(usize, Scalar)>, e2: Seq<(usize, Scalar)>, j: int)
    ensures
        entry_sum(e1 + e2, j) == entry_sum(e1, j) + entry_sum(e2, j),
    decreases e2.len(),
{
    if e2.len() == 0 {
        assert(e1 + e2 =~= e1);
    } else {
        assert((e1 + e2).drop_last() =~= e1 + e2.drop_last());
        assert((e1 + e2).last() == e2.last());
        lemma_entry_sum_concat(e1, e2.drop_last(), j);
    }
}

/// The dense form of the sum of two sparse vectors is the sum of their
/// dense forms.
pub proof fn lemma_densify_additive(
    size: nat,
    e1: Seq<(usize, Scalar)>,
    e2: Seq<(usize, Scalar)>,
)
    ensures
        densify(size, e1 + e2) == add_vectors(densify(size, e1), densify(size, e2)),
{
    let m = modulus() as int;
    assert forall|j: int| 0 <= j < size implies densify(size, e1 + e2)[j] == add_vectors(
        densify(size, e1),
        densify(size, e2),
    )[j] by {
        lemma_entry_sum_concat(e1, e2, j);
        lemma_add_mod_noop(entry_sum(e1, j) as int, entry_sum(e2, j) as int, m);
    }
    assert(densify(size, e1 + e2) =~= add_vectors(densify(size, e1), densify(size, e2)));
}

/// The sums from a position on of two vectors add up, in the field, to that
/// sum of their element-wise sum.
pub proof fn lemma_sum_from_additive(a: Seq<nat>, b: Seq<nat>, i: int)
    requires
        a.len() == b.len(),
    ensures
        sum_from(add_vectors(a, b), i) % modulus() == (sum_from(a, i) + sum_from(b, i))
            % modulus(),
    decreases a.len() - i,
{
    let m = modulus() as int;
    let c = add_vectors(a, b);
    if 0 <= i < a.len() {
        lemma_sum_from_additive(a, b, i + 1);
        let sc = sum_from(c, i + 1) as int;
        let sab = (sum_from(a, i + 1) + sum_from(b, i + 1)) as int;
        let x = (a[i] + b[i]) as int;
        assert(c[i] == x % m);
        // (x % m + sc) % m == (x + sab) % m
        lemma_add_mod_noop(x % m, sc, m);
        lemma_add_mod_noop(x, sab, m);
        lemma_small_mod((x % m) as nat, m as nat);
        assert(((x % m) % m) == x % m);
    }
}

/// The suffix sum is additive.
pub proof fn lemma_accumulate_additive(a: Seq<nat>, b: Seq<nat>)
    requires
        a.len() == b.len(),
    ensures
        accumulate(add_vectors(a, b)) == add_vectors(accumulate(a), accumulate(b)),
{
    let m = modulus() as int;
    assert forall|i: int| 0 <= i < a.len() implies accumulate(add_vectors(a, b))[i] == add_vectors(
        accumulate(a),
        accumulate(b),
    )[i] by {
        lemma_sum_from_additive(a, b, i);
        lemma_add_mod_noop(sum_from(a, i) as int, sum_from(b, i) as int, m);
    }
    assert(accumulate(add_vectors(a, b)) =~= add_vectors(accumulate(a), accumulate(b)));
}

/// A permutation is additive.
pub proof fn lemma_permute_additive(a: Seq<nat>, b: Seq<nat>, perm: Seq<usize>)
    requires
        a.len() == b.len(),
        perm.len() == a.len(),
        in_range(perm),
    ensures
        permute(add_vectors(a, b), perm) == add_vectors(permute(a, perm), permute(b, perm)),
{
    assert(permute(add_vectors(a, b), perm) =~= add_vectors(permute(a, perm), permute(b, perm)));
}

/// The fold is additive.
pub proof fn lemma_fold_additive(a: Seq<nat>, b: Seq<nat>)
    requires
        a.len() == b.len(),
    ensures
        fold4(add_vectors(a, b)) == add_vectors(fold4(a), fold4(b)),
{
    let m = modulus() as int;
    let c = add_vectors(a, b);
    assert forall|i: int| 0 <= i < a.len() / 4 implies fold4(c)[i] == add_vectors(
        fold4(a),
        fold4(b),
    )[i] by {
        let a0 = a[4 * i] as int;
        let a1 = a[4 * i + 1] as int;
        let a2 = a[4 * i + 2] as int;
        let a3 = a[4 * i + 3] as int;
        let b0 = b[4 * i] as int;
        let b1 = b[4 * i + 1] as int;
        let b2 = b[4 * i + 2] as int;
        let b3 = b[4 * i + 3] as int;
        lemma_mod4(a0 + b0, a1 + b1, a2 + b2, a3 + b3);
        lemma_add_mod_noop(a0 + a1 + a2 + a3, b0 + b1 + b2 + b3, m);
    }
    assert(fold4(c) =~= add_vectors(fold4(a), fold4(b)));
}

/// Four terms may be reduced before they are added and reduced.
proof fn lemma_mod4(x0: int, x1: int, x2: int, x3: int)
    ensures
        (x0 % (modulus() as int) + x1 % (modulus() as int) + x2 % (modulus() as int) + x3 % (
        modulus() as int)) % (modulus() as int) == (x0 + x1 + x2 + x3) % (modulus() as int),
{
    let m = modulus() as int;
    lemma_add_mod_noop(x0, x1, m);
    lemma_add_mod_noop(x0 + x1, x2, m);
    lemma_add_mod_noop(x0 + x1 + x2, x3, m);
    lemma_add_mod_noop(x0 % m + x1 % m, x2, m);
    lemma_add_mod_noop(x0 % m + x1 % m + x2 % m, x3, m);
    lemma_add_mod_noop(x0 % m + x1 % m, x2 % m, m);
    lemma_add_mod_noop(x0 % m + x1 % m + x2 % m, x3 % m, m);
    lemma_small_mod((x2 % m) as nat, m as nat);
    lemma_small_mod((x3 % m) as nat, m as nat);
}

/// The code is additive on dense vectors.
pub proof fn lemma_raa_additive(perm_p: Seq<usize>, perm_q: Seq<usize>, a: Seq<nat>, b: Seq<nat>)
    requires
        a.len() == b.len(),
        perm_p.len() == a.len(),
        perm_q.len() == a.len(),
        in_range(perm_p),
        in_range(perm_q),
    ensures
        raa_apply(perm_p, perm_q, add_vectors(a, b)) == add_vectors(
            raa_apply(perm_p, perm_q, a),
            raa_apply(perm_p, perm_q, b),
        ),
{
    lemma_accumulate_additive(a, b);
    let a1 = accumulate(a);
    let b1 = accumulate(b);
    lemma_permute_additive(a1, b1, perm_q);
    let a2 = permute(a1, perm_q);
    let b2 = permute(b1, perm_q);
    lemma_accumulate_additive(a2, b2);
    let a3 = accumulate(a2);
    let b3 = accumulate(b2);
    lemma_permute_additive(a3, b3, perm_p);
    let a4 = permute(a3, perm_p);
    let b4 = permute(b3, perm_p);
    lemma_fold_additive(a4, b4);
}

/// The code is linear: `T · (e₁ + e₂) = T · e₁ + T · e₂`, where the sum of
/// two sparse vectors has the entries of both.
pub proof fn lemma_code_linear(
    t_operator: TOperator,
    e1: Seq<(usize, Scalar)>,
    e2: Seq<(usize, Scalar)>,
)
    requires
        t_operator.wf(),
    ensures
        t_operator.apply(e1 + e2) == add_vectors(t_operator.apply(e1), t_operator.apply(e2)),
{
    let size = t_operator.big_n as nat;
    lemma_densify_additive(size, e1, e2);
    lemma_raa_additive(
        t_operator.perm_p@,
        t_operator.perm_q@,
        densify(size, e1),
        densify(size, e2),
    );
}

/// The difference undoes the suffix sum: for a vector of reduced scalars,
/// `difference(accumulate(v)) = v`.
pub proof fn lemma_difference_undoes_accumulate(v: Seq<nat>)
    requires
        forall|i: int| 0 <= i < v.len() ==> v[i] < modulus(),
    ensures
        difference(accumulate(v)) == v,
{
    let m = modulus() as int;
    let w = accumulate(v);
    assert forall|i: int| 0 <= i < v.len() implies difference(w)[i] == v[i] by {
        let s0 = sum_from(v, i) as int;
        let s1 = sum_from(v, i + 1) as int;
        assert(s0 == v[i] + s1);
        lemma_small_mod(v[i], m as nat);
        if i + 1 < v.len() {
            lemma_sub_mod_noop(s0, s1, m);
        } else {
            assert(s1 == 0);
            lemma_small_mod((s0 % m) as nat, m as nat);
        }
    }
    assert(difference(w) =~= v);
}

} // verus!
