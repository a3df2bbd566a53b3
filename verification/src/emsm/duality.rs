//! The transposed code is the transpose of the code:
//! `⟨T · e, g⟩ = ⟨e, Tᵀ · g⟩`, under the laws of a module.

use vstd::prelude::*;
use vstd::arithmetic::div_mod::{lemma_add_mod_noop, lemma_add_mod_noop_right, lemma_small_mod};
use crate::algebra::{
    group_laws, law_assoc, law_identity_valid, law_neutral, law_scale_add, law_scale_sum,
    law_scale_valid, law_sum, lemma_msm_additive, lemma_msm_push, lemma_msm_valid,
    lemma_scale_zero, reduced,
};
use crate::emsm::dual_lpn::add_vectors;
use crate::emsm::pedersen::{entry_values, gather, sparse_msm};
use crate::emsm::raa_code::{
    accumulate, fold4, inverse_of, is_permutation, occurs, permute, prefix_sum, prefix_sums,
    replicate4, sum_from, TOperator,
};
use crate::emsm::sparse_vec::{densify, entries_wf, entry_sum};
use crate::group::{all_valid_enc, is_valid, msm_of, GroupModel};
use crate::scalar::{fadd, modulus, Scalar};

verus! {

/// The vector of length `size` that holds `c` at position `j` and zero
/// elsewhere.
pub open spec fn unit(size: nat, j: int, c: nat) -> Seq<nat> {
    Seq::new(size, |i: int| if i == j { c } else { 0nat })
}

/// Against a unit vector, the multi-scalar multiplication picks one term.
pub proof fn lemma_msm_unit<G: GroupModel>(h: Seq<Seq<u8>>, j: int, c: nat)
    requires
        group_laws::<G>(),
        all_valid_enc::<G>(h),
        c < modulus(),
    ensures
        msm_of::<G>(h, unit(h.len(), j, c)) == (if 0 <= j < h.len() {
            G::scale(h[j], c)
        } else {
            G::identity()
        }),
    decreases h.len(),
{
    law_identity_valid::<G>();
    if h.len() > 0 {
        let n = h.len() as int;
        let h0 = h.drop_last();
        let u = unit(h.len(), j, c);
        lemma_msm_unit::<G>(h0, j, c);
        assert(u.drop_last() =~= unit(h0.len(), j, c));
        let x = h.last();
        if j == n - 1 {
            assert(u.last() == c);
            law_scale_valid::<G>(x, c);
            law_neutral::<G>(G::scale(x, c));
        } else {
            assert(u.last() == 0);
            lemma_scale_zero::<G>(x);
            if 0 <= j < n - 1 {
                law_scale_valid::<G>(h0[j], c);
                law_neutral::<G>(G::scale(h0[j], c));
            } else {
                law_neutral::<G>(G::identity());
            }
        }
    }
}

/// One more entry adds a unit vector to the dense form.
pub proof fn lemma_densify_push(size: nat, e: Seq<(usize, Scalar)>, x: (usize, Scalar))
    requires
        x.1.wf(),
    ensures
        densify(size, e.push(x)) == add_vectors(densify(size, e), unit(size, x.0 as int, x.1@)),
{
    let m = modulus() as int;
    assert(e.push(x).drop_last() =~= e);
    assert forall|i: int| 0 <= i < size implies densify(size, e.push(x))[i] == add_vectors(
        densify(size, e),
        unit(size, x.0 as int, x.1@),
    )[i] by {
        let s = entry_sum(e, i) as int;
        if x.0 == i {
            lemma_add_mod_noop(s, x.1@ as int, m);
            lemma_small_mod(x.1@, m as nat);
        } else {
            lemma_add_mod_noop(s, 0, m);
            lemma_small_mod(0, m as nat);
        }
    }
    assert(densify(size, e.push(x)) =~= add_vectors(
        densify(size, e),
        unit(size, x.0 as int, x.1@),
    ));
}

/// The multi-scalar multiplication against the dense form of a sparse
/// vector is the sparse one: `⟨dense(e), h⟩ = Σ value · h[position]`.
pub proof fn lemma_dense_is_sparse<G: GroupModel>(h: Seq<Seq<u8>>, e: Seq<(usize, Scalar)>)
    requires
        group_laws::<G>(),
        all_valid_enc::<G>(h),
        entries_wf(h.len(), e),
    ensures
        msm_of::<G>(h, densify(h.len(), e)) == sparse_msm::<G>(h, e),
    decreases e.len(),
{
    let size = h.len();
    if e.len() == 0 {
        assert(densify(size, e) =~= unit(size, -1, 0));
        lemma_msm_unit::<G>(h, -1, 0);
        assert(gather(h, e).len() == 0);
    } else {
        let e0 = e.drop_last();
        let x = e.last();
        assert(e0.push(x) =~= e);
        assert(entries_wf(size, e0)) by {
            assert forall|k: int| 0 <= k < e0.len() implies (#[trigger] e0[k]).0 < size
                && e0[k].1.wf() by {
                assert(e0[k] == e[k]);
            }
        }
        assert(x.0 < size && x.1.wf()) by {
            assert(e[e.len() - 1] == x);
        }
        lemma_dense_is_sparse::<G>(h, e0);
        lemma_densify_push(size, e0, x);
        let u = unit(size, x.0 as int, x.1@);
        assert(reduced(u));
        lemma_msm_additive::<G>(h, densify(size, e0), u);
        lemma_msm_unit::<G>(h, x.0 as int, x.1@);
        assert(gather(h, e) =~= gather(h, e0).push(h[x.0 as int]));
        assert(entry_values(e) =~= entry_values(e0).push(x.1@));
        lemma_msm_push::<G>(gather(h, e0), entry_values(e0), h[x.0 as int], x.1@);
    }
}

/// The prefix of a multi-scalar multiplication grows by one term at a time.
pub proof fn lemma_msm_take<G: GroupModel>(bases: Seq<Seq<u8>>, scalars: Seq<nat>, k: int)
    requires
        bases.len() == scalars.len(),
        0 <= k < bases.len(),
    ensures
        msm_of::<G>(bases.take(k + 1), scalars.take(k + 1)) == G::sum(
            msm_of::<G>(bases.take(k), scalars.take(k)),
            G::scale(bases[k], scalars[k]),
        ),
{
    assert(bases.take(k + 1).drop_last() =~= bases.take(k));
    assert(scalars.take(k + 1).drop_last() =~= scalars.take(k));
}

/// The fold and the replication are transposes of each other:
/// `⟨F · v, g⟩ = ⟨v, Fᵀ · g⟩`.
pub proof fn lemma_fold_dual<G: GroupModel>(g: Seq<Seq<u8>>, v: Seq<nat>)
    requires
        group_laws::<G>(),
        all_valid_enc::<G>(g),
        reduced(v),
        v.len() == 4 * g.len(),
    ensures
        msm_of::<G>(g, fold4(v)) == msm_of::<G>(replicate4(g), v),
    decreases g.len(),
{
    let n = g.len() as int;
    if n == 0 {
        assert(replicate4(g).len() == 0);
        assert(fold4(v).len() == 0);
    } else {
        let g0 = g.drop_last();
        let x = g.last();
        let v0 = v.take(4 * n - 4);
        let a = v[4 * n - 4];
        let b = v[4 * n - 3];
        let c = v[4 * n - 2];
        let d = v[4 * n - 1];
        assert(reduced(v0));
        lemma_fold_dual::<G>(g0, v0);
        assert(fold4(v).drop_last() =~= fold4(v0));
        let rg = replicate4(g);
        assert(rg.take(4 * n - 4) =~= replicate4(g0));
        assert(rg.take(4 * n) =~= rg);
        assert(v.take(4 * n) =~= v);
        lemma_msm_take::<G>(rg, v, 4 * n - 4);
        lemma_msm_take::<G>(rg, v, 4 * n - 3);
        lemma_msm_take::<G>(rg, v, 4 * n - 2);
        lemma_msm_take::<G>(rg, v, 4 * n - 1);
        assert(rg[4 * n - 4] == x && rg[4 * n - 3] == x && rg[4 * n - 2] == x && rg[4 * n - 1]
            == x);
        let base = msm_of::<G>(replicate4(g0), v0);
        lemma_msm_valid::<G>(g0, fold4(v0));
        let xa = G::scale(x, a);
        let xb = G::scale(x, b);
        let xc = G::scale(x, c);
        let xd = G::scale(x, d);
        law_scale_valid::<G>(x, a);
        law_scale_valid::<G>(x, b);
        law_scale_valid::<G>(x, c);
        law_scale_valid::<G>(x, d);
        // ((base + xa) + xb) + xc) + xd = base + (((xa + xb) + xc) + xd)
        law_sum::<G>(base, xa);
        law_sum::<G>(xa, xb);
        law_sum::<G>(G::sum(xa, xb), xc);
        law_assoc::<G>(base, xa, xb);
        law_sum::<G>(base, G::sum(xa, xb));
        law_assoc::<G>(base, G::sum(xa, xb), xc);
        law_assoc::<G>(base, G::sum(G::sum(xa, xb), xc), xd);
        // ((xa + xb) + xc) + xd = (a + b + c + d) x
        let m = modulus() as int;
        law_scale_add::<G>(x, a, b);
        law_scale_add::<G>(x, fadd(a, b), c);
        law_scale_add::<G>(x, fadd(fadd(a, b), c), d);
        lemma_add_mod_noop_right(c as int, (a + b) as int, m);
        lemma_add_mod_noop_right(d as int, (a + b + c) as int, m);
        assert(fold4(v).last() == ((a + b + c + d) % (m as nat)));
        assert(fadd(fadd(fadd(a, b), c), d) == fold4(v).last());
    }
}

/// The sum of a sequence of group elements, added up from the left.
pub open spec fn gsum<G: GroupModel>(terms: Seq<Seq<u8>>) -> Seq<u8>
    decreases terms.len(),
{
    if terms.len() == 0 {
        G::identity()
    } else {
        G::sum(gsum::<G>(terms.drop_last()), terms.last())
    }
}

/// The terms `scalars[i] · bases[i]` of a multi-scalar multiplication.
pub open spec fn terms<G: GroupModel>(bases: Seq<Seq<u8>>, scalars: Seq<nat>) -> Seq<Seq<u8>> {
    Seq::new(bases.len(), |i: int| G::scale(bases[i], scalars[i]))
}

/// The vector that holds `x` at each of its `size` positions.
pub open spec fn constant(size: nat, x: nat) -> Seq<nat> {
    Seq::new(size, |i: int| x)
}

/// A sum of group elements is a group element.
pub proof fn lemma_gsum_valid<G: GroupModel>(t: Seq<Seq<u8>>)
    requires
        group_laws::<G>(),
        all_valid_enc::<G>(t),
    ensures
        is_valid::<G>(gsum::<G>(t)),
    decreases t.len(),
{
    law_identity_valid::<G>();
    if t.len() > 0 {
        lemma_gsum_valid::<G>(t.drop_last());
        law_sum::<G>(gsum::<G>(t.drop_last()), t.last());
    }
}

/// A multi-scalar multiplication is the sum of its terms.
pub proof fn lemma_msm_is_gsum<G: GroupModel>(bases: Seq<Seq<u8>>, scalars: Seq<nat>)
    requires
        bases.len() == scalars.len(),
    ensures
        msm_of::<G>(bases, scalars) == gsum::<G>(terms::<G>(bases, scalars)),
    decreases bases.len(),
{
    if bases.len() > 0 {
        lemma_msm_is_gsum::<G>(bases.drop_last(), scalars.drop_last());
        assert(terms::<G>(bases, scalars).drop_last() =~= terms::<G>(
            bases.drop_last(),
            scalars.drop_last(),
        ));
    }
}

/// The terms of group elements by reduced scalars are group elements.
pub proof fn lemma_terms_valid<G: GroupModel>(bases: Seq<Seq<u8>>, scalars: Seq<nat>)
    requires
        group_laws::<G>(),
        all_valid_enc::<G>(bases),
        reduced(scalars),
        bases.len() == scalars.len(),
    ensures
        all_valid_enc::<G>(terms::<G>(bases, scalars)),
{
    assert forall|i: int| 0 <= i < bases.len() implies is_valid::<G>(
        #[trigger] terms::<G>(bases, scalars)[i],
    ) by {
        law_scale_valid::<G>(bases[i], scalars[i]);
    }
}

/// The prefix sum up to position `i` is the sum of the first `i + 1`
/// elements.
pub proof fn lemma_prefix_is_gsum<G: GroupModel>(g: Seq<Seq<u8>>, i: int)
    requires
        group_laws::<G>(),
        all_valid_enc::<G>(g),
        0 <= i < g.len(),
    ensures
        prefix_sum::<G>(g, i) == gsum::<G>(g.take(i + 1)),
        is_valid::<G>(prefix_sum::<G>(g, i)),
    decreases i,
{
    let t = g.take(i + 1);
    assert(t.drop_last() =~= g.take(i));
    assert(t.last() == g[i]);
    assert(all_valid_enc::<G>(t));
    lemma_gsum_valid::<G>(t);
    if i == 0 {
        assert(gsum::<G>(g.take(0)) == G::identity());
        law_neutral::<G>(g[0]);
    } else {
        lemma_prefix_is_gsum::<G>(g, i - 1);
    }
}

/// The prefix sums of group elements are group elements.
pub proof fn lemma_prefix_sums_valid<G: GroupModel>(g: Seq<Seq<u8>>)
    requires
        group_laws::<G>(),
        all_valid_enc::<G>(g),
    ensures
        all_valid_enc::<G>(prefix_sums::<G>(g)),
        prefix_sums::<G>(g).len() == g.len(),
{
    assert forall|i: int| 0 <= i < g.len() implies is_valid::<G>(
        #[trigger] prefix_sums::<G>(g)[i],
    ) by {
        lemma_prefix_is_gsum::<G>(g, i);
    }
}

/// Against a constant vector, the multi-scalar multiplication is the scaled
/// sum of the bases.
pub proof fn lemma_msm_constant<G: GroupModel>(g: Seq<Seq<u8>>, x: nat)
    requires
        group_laws::<G>(),
        all_valid_enc::<G>(g),
        x < modulus(),
    ensures
        msm_of::<G>(g, constant(g.len(), x)) == G::scale(gsum::<G>(g), x),
    decreases g.len(),
{
    if g.len() == 0 {
        crate::algebra::lemma_scale_identity::<G>(x);
    } else {
        let g0 = g.drop_last();
        lemma_msm_constant::<G>(g0, x);
        assert(constant(g.len(), x).drop_last() =~= constant(g0.len(), x));
        lemma_gsum_valid::<G>(g0);
        law_scale_sum::<G>(gsum::<G>(g0), g.last(), x);
    }
}

/// One more element at the end adds to every sum from a position on.
pub proof fn lemma_sum_from_push(v: Seq<nat>, x: nat, i: int)
    requires
        0 <= i <= v.len(),
    ensures
        sum_from(v.push(x), i) == sum_from(v, i) + x,
    decreases v.len() - i,
{
    if i < v.len() {
        lemma_sum_from_push(v, x, i + 1);
    } else {
        assert(sum_from(v.push(x), i + 1) == 0);
    }
}

/// One more element at the end leaves the earlier prefix sums as they are.
pub proof fn lemma_prefix_push<G: GroupModel>(g: Seq<Seq<u8>>, y: Seq<u8>, i: int)
    requires
        0 <= i < g.len(),
    ensures
        prefix_sum::<G>(g.push(y), i) == prefix_sum::<G>(g, i),
    decreases i,
{
    if i > 0 {
        lemma_prefix_push::<G>(g, y, i - 1);
    }
}

/// The suffix sum and the prefix sum are transposes of each other:
/// `⟨A · v, g⟩ = ⟨v, Aᵀ · g⟩`.
pub proof fn lemma_accumulate_dual<G: GroupModel>(g: Seq<Seq<u8>>, v: Seq<nat>)
    requires
        group_laws::<G>(),
        all_valid_enc::<G>(g),
        reduced(v),
        v.len() == g.len(),
    ensures
        msm_of::<G>(g, accumulate(v)) == msm_of::<G>(prefix_sums::<G>(g), v),
    decreases g.len(),
{
    let n = g.len() as int;
    if n == 0 {
        assert(prefix_sums::<G>(g).len() == 0);
    } else {
        let m = modulus() as int;
        let g0 = g.drop_last();
        let v0 = v.drop_last();
        let y = g.last();
        let x = v.last();
        assert(g0.push(y) =~= g);
        assert(v0.push(x) =~= v);
        assert(reduced(v0));
        lemma_accumulate_dual::<G>(g0, v0);
        // The left side.
        let w = add_vectors(accumulate(v0), constant(v0.len(), x));
        assert(accumulate(v) =~= w.push(x)) by {
            assert forall|i: int| 0 <= i < n implies accumulate(v)[i] == w.push(x)[i] by {
                lemma_sum_from_push(v0, x, i);
                if i < n - 1 {
                    lemma_add_mod_noop(sum_from(v0, i) as int, x as int, m);
                    lemma_small_mod(x, m as nat);
                } else {
                    lemma_small_mod(x, m as nat);
                }
            }
        }
        lemma_msm_push::<G>(g0, w, y, x);
        assert(reduced(accumulate(v0)));
        assert(reduced(constant(v0.len(), x)));
        lemma_msm_additive::<G>(g0, accumulate(v0), constant(v0.len(), x));
        lemma_msm_constant::<G>(g0, x);
        // The right side.
        let ps0 = prefix_sums::<G>(g0);
        let top = prefix_sum::<G>(g, n - 1);
        assert(prefix_sums::<G>(g) =~= ps0.push(top)) by {
            assert forall|i: int| 0 <= i < n implies prefix_sums::<G>(g)[i] == ps0.push(top)[i] by {
                if i < n - 1 {
                    lemma_prefix_push::<G>(g0, y, i);
                }
            }
        }
        lemma_msm_push::<G>(ps0, v0, top, x);
        lemma_prefix_is_gsum::<G>(g, n - 1);
        assert(g.take(n) =~= g);
        assert(top == G::sum(gsum::<G>(g0), y));
        lemma_gsum_valid::<G>(g0);
        law_scale_sum::<G>(gsum::<G>(g0), y, x);
        // Regrouping.
        lemma_prefix_sums_valid::<G>(g0);
        lemma_msm_valid::<G>(ps0, v0);
        law_scale_valid::<G>(gsum::<G>(g0), x);
        law_scale_valid::<G>(y, x);
        law_assoc::<G>(msm_of::<G>(ps0, v0), G::scale(gsum::<G>(g0), x), G::scale(y, x));
    }
}

/// Taking one element out of a sum and adding it at the end gives the same
/// sum.
pub proof fn lemma_gsum_remove<G: GroupModel>(w: Seq<Seq<u8>>, k: int)
    requires
        group_laws::<G>(),
        all_valid_enc::<G>(w),
        0 <= k < w.len(),
    ensures
        gsum::<G>(w) == G::sum(gsum::<G>(w.remove(k)), w[k]),
    decreases w.len(),
{
    let n = w.len() as int;
    if k == n - 1 {
        assert(w.remove(k) =~= w.drop_last());
    } else {
        let w0 = w.drop_last();
        let last = w.last();
        lemma_gsum_remove::<G>(w0, k);
        let rest = w0.remove(k);
        assert(w.remove(k) =~= rest.push(last));
        assert(rest.push(last).drop_last() =~= rest);
        assert(all_valid_enc::<G>(rest)) by {
            assert forall|i: int| 0 <= i < rest.len() implies is_valid::<G>(#[trigger] rest[i]) by {
                if i < k {
                    assert(rest[i] == w[i]);
                } else {
                    assert(rest[i] == w[i + 1]);
                }
            }
        }
        lemma_gsum_valid::<G>(rest);
        let a = gsum::<G>(rest);
        // (a + w[k]) + last = (a + last) + w[k]
        law_assoc::<G>(a, w[k], last);
        law_sum::<G>(w[k], last);
        law_assoc::<G>(a, last, w[k]);
    }
}

/// A sum does not depend on the order of its terms.
pub proof fn lemma_gsum_permute<G: GroupModel>(u: Seq<Seq<u8>>, p: Seq<usize>)
    requires
        group_laws::<G>(),
        all_valid_enc::<G>(u),
        is_permutation(p),
        p.len() == u.len(),
    ensures
        gsum::<G>(permute(u, p)) == gsum::<G>(u),
    decreases u.len(),
{
    let n = u.len() as int;
    if n == 0 {
        assert(permute(u, p) =~= u);
    } else {
        assert(occurs(p, n - 1));
        let k = choose|k: int| 0 <= k < p.len() && p[k] == n - 1;
        let w = permute(u, p);
        assert(all_valid_enc::<G>(w)) by {
            assert forall|i: int| 0 <= i < w.len() implies is_valid::<G>(#[trigger] w[i]) by {
                assert(p[i] < p.len());
                assert(w[i] == u[p[i] as int]);
            }
        }
        lemma_gsum_remove::<G>(w, k);
        let rest = p.remove(k);
        let front = u.drop_last();
        let back = |i: int| if i < k { i } else { i + 1 };
        assert forall|i: int| 0 <= i < n - 1 implies rest[i] == p[back(i)] && (#[trigger] rest[i]) < n
            - 1 by {
            assert(p[back(i)] < p.len());
            assert(back(i) != k);
        }
        assert(is_permutation(rest)) by {
            assert forall|i: int, j: int|
                0 <= i < rest.len() && 0 <= j < rest.len() && rest[i] == rest[j] implies i == j by {
                assert(rest[i] == p[back(i)]);
                assert(rest[j] == p[back(j)]);
            }
            assert forall|j: int| 0 <= j < rest.len() implies #[trigger] occurs(rest, j) by {
                assert(occurs(p, j));
                let i = choose|i: int| 0 <= i < p.len() && p[i] == j;
                assert(i != k);
                let i0 = if i < k { i } else { i - 1 };
                assert(rest[i0] == p[back(i0)]);
                assert(0 <= i0 < rest.len() && rest[i0] == j);
            }
        }
        assert(w.remove(k) =~= permute(front, rest)) by {
            assert forall|i: int| 0 <= i < n - 1 implies w.remove(k)[i] == permute(front, rest)[i] by {
                assert(rest[i] == p[back(i)]);
                assert(w.remove(k)[i] == w[back(i)]);
            }
        }
        lemma_gsum_permute::<G>(front, rest);
        assert(w[k] == u.last());
    }
}

/// A sequence that is stored with its inverse is a permutation.
pub proof fn lemma_inverse_gives_permutation(p: Seq<usize>, inv: Seq<usize>)
    requires
        inverse_of(p, inv),
    ensures
        is_permutation(p),
        is_permutation(inv),
{
    assert forall|i: int, j: int|
        0 <= i < p.len() && 0 <= j < p.len() && p[i] == p[j] implies i == j by {
        assert(inv[p[i] as int] == i);
        assert(inv[p[j] as int] == j);
    }
    assert forall|k: int| 0 <= k < p.len() implies #[trigger] occurs(p, k) by {
        assert(p[inv[k] as int] == k);
        assert(inv[k] < inv.len());
    }
    assert forall|i: int, j: int|
        0 <= i < inv.len() && 0 <= j < inv.len() && inv[i] == inv[j] implies i == j by {
        assert(p[inv[i] as int] == i);
        assert(p[inv[j] as int] == j);
    }
    assert forall|k: int| 0 <= k < inv.len() implies #[trigger] occurs(inv, k) by {
        assert(inv[p[k] as int] == k);
        assert(p[k] < p.len());
    }
}

/// A permutation and its inverse are transposes of each other:
/// `⟨M_σ · v, g⟩ = ⟨v, M_{σ⁻¹} · g⟩`.
pub proof fn lemma_permute_dual<G: GroupModel>(
    g: Seq<Seq<u8>>,
    v: Seq<nat>,
    p: Seq<usize>,
    inv: Seq<usize>,
)
    requires
        group_laws::<G>(),
        all_valid_enc::<G>(g),
        reduced(v),
        inverse_of(p, inv),
        v.len() == g.len(),
        p.len() == g.len(),
    ensures
        msm_of::<G>(g, permute(v, p)) == msm_of::<G>(permute(g, inv), v),
{
    let t = terms::<G>(g, permute(v, p));
    let pg = permute(g, inv);
    let u = terms::<G>(pg, v);
    lemma_msm_is_gsum::<G>(g, permute(v, p));
    lemma_msm_is_gsum::<G>(pg, v);
    assert(all_valid_enc::<G>(pg)) by {
        assert forall|i: int| 0 <= i < pg.len() implies is_valid::<G>(#[trigger] pg[i]) by {
            assert(inv[i] < inv.len());
        }
    }
    lemma_terms_valid::<G>(pg, v);
    assert(t =~= permute(u, p)) by {
        assert forall|i: int| 0 <= i < t.len() implies t[i] == permute(u, p)[i] by {
            assert(p[i] < p.len());
            assert(inv[p[i] as int] == i);
        }
    }
    lemma_inverse_gives_permutation(p, inv);
    lemma_gsum_permute::<G>(u, p);
}

/// The transposed code is the transpose of the code: for group elements `g`
/// and a sparse vector `e`, `⟨T · e, g⟩ = ⟨e, Tᵀ · g⟩`.
pub proof fn lemma_transpose_duality<G: GroupModel>(
    t_operator: TOperator,
    g: Seq<Seq<u8>>,
    e: Seq<(usize, Scalar)>,
)
    requires
        group_laws::<G>(),
        t_operator.wf(),
        g.len() == t_operator.n,
        all_valid_enc::<G>(g),
        entries_wf(t_operator.big_n as nat, e),
    ensures
        msm_of::<G>(g, t_operator.apply(e)) == sparse_msm::<G>(t_operator.transpose::<G>(g), e),
        all_valid_enc::<G>(t_operator.transpose::<G>(g)),
        t_operator.transpose::<G>(g).len() == t_operator.big_n,
{
    let big_n = t_operator.big_n as nat;
    let p = t_operator.perm_p@;
    let q = t_operator.perm_q@;
    let inv_p = t_operator.inv_perm_p@;
    let inv_q = t_operator.inv_perm_q@;
    // The scalar side, stage by stage.
    let d = densify(big_n, e);
    let a1 = accumulate(d);
    let a2 = permute(a1, q);
    let a3 = accumulate(a2);
    let a4 = permute(a3, p);
    assert(reduced(a1));
    assert(reduced(a2)) by {
        assert forall|i: int| 0 <= i < a2.len() implies (#[trigger] a2[i]) < modulus() by {
            assert(q[i] < q.len());
        }
    }
    assert(reduced(a3));
    assert(reduced(a4)) by {
        assert forall|i: int| 0 <= i < a4.len() implies (#[trigger] a4[i]) < modulus() by {
            assert(p[i] < p.len());
        }
    }
    // The group side, stage by stage.
    let r4 = replicate4(g);
    assert(all_valid_enc::<G>(r4)) by {
        assert forall|i: int| 0 <= i < r4.len() implies is_valid::<G>(#[trigger] r4[i]) by {
            assert(0 <= i / 4 < g.len());
        }
    }
    let h1 = permute(r4, inv_p);
    assert(all_valid_enc::<G>(h1)) by {
        assert forall|i: int| 0 <= i < h1.len() implies is_valid::<G>(#[trigger] h1[i]) by {
            assert(inv_p[i] < inv_p.len());
        }
    }
    let h2 = prefix_sums::<G>(h1);
    lemma_prefix_sums_valid::<G>(h1);
    let h3 = permute(h2, inv_q);
    assert(all_valid_enc::<G>(h3)) by {
        assert forall|i: int| 0 <= i < h3.len() implies is_valid::<G>(#[trigger] h3[i]) by {
            assert(inv_q[i] < inv_q.len());
        }
    }
    let h4 = prefix_sums::<G>(h3);
    lemma_prefix_sums_valid::<G>(h3);
    // The chain.
    lemma_fold_dual::<G>(g, a4);
    lemma_permute_dual::<G>(r4, a3, p, inv_p);
    lemma_accumulate_dual::<G>(h1, a2);
    lemma_permute_dual::<G>(h2, a1, q, inv_q);
    lemma_accumulate_dual::<G>(h3, d);
    lemma_dense_is_sparse::<G>(h4, e);
}

} // verus!
