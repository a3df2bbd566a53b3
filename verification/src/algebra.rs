//! The laws of a module over the scalar field, and what follows from them
//! for multi-scalar multiplications.
//!
//! Nothing here is assumed of the curve groups: every statement takes the
//! laws as its hypothesis, over the elements that are canonical encodings.

use vstd::prelude::*;
use vstd::arithmetic::div_mod::lemma_small_mod;
use crate::emsm::dual_lpn::add_vectors;
use crate::emsm::malicious::scale_vector;
use crate::group::{all_valid_enc, is_valid, msm_of, GroupModel};
use crate::scalar::{fadd, fmul, modulus};

verus! {

/// The group is abelian under `sum` with neutral element `identity`,
/// `diff` undoes `sum`, and `scale` makes it a module over the scalar field.
#[verifier::opaque]
pub open spec fn group_laws<G: GroupModel>() -> bool {
    &&& is_valid::<G>(G::identity())
    &&& forall|a: Seq<u8>, b: Seq<u8>|
        is_valid::<G>(a) && is_valid::<G>(b) ==> is_valid::<G>(#[trigger] G::sum(a, b)) && G::sum(
            a,
            b,
        ) == G::sum(b, a)
    &&& forall|a: Seq<u8>, b: Seq<u8>, c: Seq<u8>|
        is_valid::<G>(a) && is_valid::<G>(b) && is_valid::<G>(c) ==> #[trigger] G::sum(
            G::sum(a, b),
            c,
        ) == G::sum(a, G::sum(b, c))
    &&& forall|a: Seq<u8>| is_valid::<G>(a) ==> #[trigger] G::sum(a, G::identity()) == a
    &&& forall|a: Seq<u8>, b: Seq<u8>|
        is_valid::<G>(a) && is_valid::<G>(b) ==> is_valid::<G>(#[trigger] G::diff(a, b)) && G::sum(
            G::diff(a, b),
            b,
        ) == a
    &&& forall|p: Seq<u8>, k: nat|
        is_valid::<G>(p) && k < modulus() ==> is_valid::<G>(#[trigger] G::scale(p, k))
    &&& forall|p: Seq<u8>, j: nat, k: nat|
        is_valid::<G>(p) && j < modulus() && k < modulus() ==> #[trigger] G::sum(
            G::scale(p, j),
            G::scale(p, k),
        ) == G::scale(p, fadd(j, k))
    &&& forall|p: Seq<u8>, q: Seq<u8>, k: nat|
        is_valid::<G>(p) && is_valid::<G>(q) && k < modulus() ==> #[trigger] G::scale(
            G::sum(p, q),
            k,
        ) == G::sum(G::scale(p, k), G::scale(q, k))
    &&& forall|p: Seq<u8>, j: nat, k: nat|
        is_valid::<G>(p) && j < modulus() && k < modulus() ==> #[trigger] G::scale(
            G::scale(p, j),
            k,
        ) == G::scale(p, fmul(j, k))
}

/// Every scalar of the sequence is reduced.
pub open spec fn reduced(s: Seq<nat>) -> bool {
    forall|i: int| 0 <= i < s.len() ==> (#[trigger] s[i]) < modulus()
}

/// The neutral element is a group element.
pub proof fn law_identity_valid<G: GroupModel>()
    requires
        group_laws::<G>(),
    ensures
        is_valid::<G>(G::identity()),
{
    reveal(group_laws);
}

/// Sums are group elements, and the order of the two terms does not matter.
pub proof fn law_sum<G: GroupModel>(a: Seq<u8>, b: Seq<u8>)
    requires
        group_laws::<G>(),
        is_valid::<G>(a),
        is_valid::<G>(b),
    ensures
        is_valid::<G>(G::sum(a, b)),
        G::sum(a, b) == G::sum(b, a),
{
    reveal(group_laws);
}

/// Sums may be regrouped.
pub proof fn law_assoc<G: GroupModel>(a: Seq<u8>, b: Seq<u8>, c: Seq<u8>)
    requires
        group_laws::<G>(),
        is_valid::<G>(a),
        is_valid::<G>(b),
        is_valid::<G>(c),
    ensures
        G::sum(G::sum(a, b), c) == G::sum(a, G::sum(b, c)),
{
    reveal(group_laws);
}

/// Adding the neutral element changes nothing, on either side.
pub proof fn law_neutral<G: GroupModel>(a: Seq<u8>)
    requires
        group_laws::<G>(),
        is_valid::<G>(a),
    ensures
        G::sum(a, G::identity()) == a,
        G::sum(G::identity(), a) == a,
{
    reveal(group_laws);
}

/// `(a − b) + b = a`.
pub proof fn law_diff<G: GroupModel>(a: Seq<u8>, b: Seq<u8>)
    requires
        group_laws::<G>(),
        is_valid::<G>(a),
        is_valid::<G>(b),
    ensures
        is_valid::<G>(G::diff(a, b)),
        G::sum(G::diff(a, b), b) == a,
{
    reveal(group_laws);
}

/// Scalar multiples are group elements.
pub proof fn law_scale_valid<G: GroupModel>(p: Seq<u8>, k: nat)
    requires
        group_laws::<G>(),
        is_valid::<G>(p),
        k < modulus(),
    ensures
        is_valid::<G>(G::scale(p, k)),
{
    reveal(group_laws);
}

/// `(j + k) · p = j · p + k · p`.
pub proof fn law_scale_add<G: GroupModel>(p: Seq<u8>, j: nat, k: nat)
    requires
        group_laws::<G>(),
        is_valid::<G>(p),
        j < modulus(),
        k < modulus(),
    ensures
        G::scale(p, fadd(j, k)) == G::sum(G::scale(p, j), G::scale(p, k)),
{
    reveal(group_laws);
}

/// `k · (p + q) = k · p + k · q`.
pub proof fn law_scale_sum<G: GroupModel>(p: Seq<u8>, q: Seq<u8>, k: nat)
    requires
        group_laws::<G>(),
        is_valid::<G>(p),
        is_valid::<G>(q),
        k < modulus(),
    ensures
        G::scale(G::sum(p, q), k) == G::sum(G::scale(p, k), G::scale(q, k)),
{
    reveal(group_laws);
}

/// `k · (j · p) = (j · k) · p`.
pub proof fn law_scale_scale<G: GroupModel>(p: Seq<u8>, j: nat, k: nat)
    requires
        group_laws::<G>(),
        is_valid::<G>(p),
        j < modulus(),
        k < modulus(),
    ensures
        G::scale(G::scale(p, j), k) == G::scale(p, fmul(j, k)),
{
    reveal(group_laws);
}

/// A term can be cancelled on the right: `a + c = b + c` gives `a = b`.
pub proof fn lemma_cancel<G: GroupModel>(a: Seq<u8>, b: Seq<u8>, c: Seq<u8>)
    requires
        group_laws::<G>(),
        is_valid::<G>(a),
        is_valid::<G>(b),
        is_valid::<G>(c),
        G::sum(a, c) == G::sum(b, c),
    ensures
        a == b,
{
    let zero = G::identity();
    law_identity_valid::<G>();
    let neg = G::diff(zero, c);
    law_diff::<G>(zero, c);
    // c + neg = zero
    law_sum::<G>(neg, c);
    law_assoc::<G>(a, c, neg);
    law_assoc::<G>(b, c, neg);
    law_neutral::<G>(a);
    law_neutral::<G>(b);
}

/// `(a + b) − b = a`.
pub proof fn lemma_diff_of_sum<G: GroupModel>(a: Seq<u8>, b: Seq<u8>)
    requires
        group_laws::<G>(),
        is_valid::<G>(a),
        is_valid::<G>(b),
    ensures
        G::diff(G::sum(a, b), b) == a,
{
    law_sum::<G>(a, b);
    law_diff::<G>(G::sum(a, b), b);
    lemma_cancel::<G>(G::diff(G::sum(a, b), b), a, b);
}

/// `(a + b) + (x + y) = (a + x) + (b + y)`.
pub proof fn lemma_interchange<G: GroupModel>(a: Seq<u8>, b: Seq<u8>, x: Seq<u8>, y: Seq<u8>)
    requires
        group_laws::<G>(),
        is_valid::<G>(a),
        is_valid::<G>(b),
        is_valid::<G>(x),
        is_valid::<G>(y),
    ensures
        G::sum(G::sum(a, b), G::sum(x, y)) == G::sum(G::sum(a, x), G::sum(b, y)),
{
    law_sum::<G>(a, b);
    law_sum::<G>(x, y);
    law_sum::<G>(b, x);
    law_sum::<G>(a, x);
    law_sum::<G>(b, y);
    // (a + b) + (x + y) = a + (b + (x + y)) = a + ((b + x) + y)
    law_assoc::<G>(a, b, G::sum(x, y));
    law_assoc::<G>(b, x, y);
    // = a + ((x + b) + y) = a + (x + (b + y)) = (a + x) + (b + y)
    law_assoc::<G>(x, b, y);
    law_assoc::<G>(a, x, G::sum(b, y));
}

/// `0 · p` is the neutral element.
pub proof fn lemma_scale_zero<G: GroupModel>(p: Seq<u8>)
    requires
        group_laws::<G>(),
        is_valid::<G>(p),
    ensures
        G::scale(p, 0) == G::identity(),
{
    let z = G::scale(p, 0);
    law_scale_valid::<G>(p, 0);
    law_scale_add::<G>(p, 0, 0);
    lemma_small_mod(0, modulus());
    law_identity_valid::<G>();
    law_neutral::<G>(z);
    // z + z = z = 0 + z
    lemma_cancel::<G>(z, G::identity(), z);
}

/// `k` times the neutral element is the neutral element.
pub proof fn lemma_scale_identity<G: GroupModel>(k: nat)
    requires
        group_laws::<G>(),
        k < modulus(),
    ensures
        G::scale(G::identity(), k) == G::identity(),
{
    let zero = G::identity();
    law_identity_valid::<G>();
    let z = G::scale(zero, k);
    law_scale_valid::<G>(zero, k);
    law_neutral::<G>(zero);
    law_scale_sum::<G>(zero, zero, k);
    law_neutral::<G>(z);
    lemma_cancel::<G>(z, zero, z);
}

/// Appending one base and one scalar adds one term.
pub proof fn lemma_msm_push<G: GroupModel>(bases: Seq<Seq<u8>>, scalars: Seq<nat>, x: Seq<u8>, k: nat)
    requires
        bases.len() == scalars.len(),
    ensures
        msm_of::<G>(bases.push(x), scalars.push(k)) == G::sum(
            msm_of::<G>(bases, scalars),
            G::scale(x, k),
        ),
{
    assert(bases.push(x).drop_last() =~= bases);
    assert(scalars.push(k).drop_last() =~= scalars);
}

/// A multi-scalar multiplication of group elements by reduced scalars is a
/// group element.
pub proof fn lemma_msm_valid<G: GroupModel>(bases: Seq<Seq<u8>>, scalars: Seq<nat>)
    requires
        group_laws::<G>(),
        all_valid_enc::<G>(bases),
        reduced(scalars),
    ensures
        is_valid::<G>(msm_of::<G>(bases, scalars)),
    decreases bases.len(),
{
    law_identity_valid::<G>();
    if bases.len() != 0 && scalars.len() == bases.len() {
        lemma_msm_valid::<G>(bases.drop_last(), scalars.drop_last());
        law_scale_valid::<G>(bases.last(), scalars.last());
        law_sum::<G>(
            msm_of::<G>(bases.drop_last(), scalars.drop_last()),
            G::scale(bases.last(), scalars.last()),
        );
    }
}

/// The multi-scalar multiplication is additive in the scalars:
/// `⟨s + t, b⟩ = ⟨s, b⟩ + ⟨t, b⟩`.
pub proof fn lemma_msm_additive<G: GroupModel>(bases: Seq<Seq<u8>>, s: Seq<nat>, t: Seq<nat>)
    requires
        group_laws::<G>(),
        all_valid_enc::<G>(bases),
        reduced(s),
        reduced(t),
        s.len() == bases.len(),
        t.len() == bases.len(),
    ensures
        msm_of::<G>(bases, add_vectors(s, t)) == G::sum(
            msm_of::<G>(bases, s),
            msm_of::<G>(bases, t),
        ),
    decreases bases.len(),
{
    law_identity_valid::<G>();
    if bases.len() == 0 {
        law_neutral::<G>(G::identity());
    } else {
        let b0 = bases.drop_last();
        let s0 = s.drop_last();
        let t0 = t.drop_last();
        let x = bases.last();
        let k = s.last();
        let l = t.last();
        lemma_msm_additive::<G>(b0, s0, t0);
        assert(add_vectors(s, t).drop_last() =~= add_vectors(s0, t0));
        assert(add_vectors(s, t).last() == fadd(k, l));
        lemma_msm_valid::<G>(b0, s0);
        lemma_msm_valid::<G>(b0, t0);
        law_scale_valid::<G>(x, k);
        law_scale_valid::<G>(x, l);
        law_scale_add::<G>(x, k, l);
        lemma_interchange::<G>(
            msm_of::<G>(b0, s0),
            msm_of::<G>(b0, t0),
            G::scale(x, k),
            G::scale(x, l),
        );
    }
}

/// Scaling the scalars scales the multi-scalar multiplication:
/// `⟨c · s, b⟩ = c · ⟨s, b⟩`.
pub proof fn lemma_msm_scaled<G: GroupModel>(bases: Seq<Seq<u8>>, s: Seq<nat>, c: nat)
    requires
        group_laws::<G>(),
        all_valid_enc::<G>(bases),
        reduced(s),
        c < modulus(),
        s.len() == bases.len(),
    ensures
        msm_of::<G>(bases, scale_vector(c, s)) == G::scale(msm_of::<G>(bases, s), c),
    decreases bases.len(),
{
    if bases.len() == 0 {
        lemma_scale_identity::<G>(c);
    } else {
        let b0 = bases.drop_last();
        let s0 = s.drop_last();
        let x = bases.last();
        let k = s.last();
        lemma_msm_scaled::<G>(b0, s0, c);
        assert(scale_vector(c, s).drop_last() =~= scale_vector(c, s0));
        assert(scale_vector(c, s).last() == fmul(c, k));
        lemma_msm_valid::<G>(b0, s0);
        law_scale_valid::<G>(x, k);
        law_scale_sum::<G>(msm_of::<G>(b0, s0), G::scale(x, k), c);
        law_scale_scale::<G>(x, k, c);
        assert(fmul(k, c) == fmul(c, k)) by {
            assert(k * c == c * k) by (nonlinear_arith);
        }
    }
}

} // verus!
