//! What the round of encrypt, compute and decrypt gives back, under the laws
//! of a module: the plain multi-scalar multiplication, and a check that
//! notices tampering.

use vstd::prelude::*;
use crate::algebra::{
    group_laws, law_assoc, law_diff, law_scale_sum, law_scale_valid, law_sum, lemma_cancel,
    lemma_diff_of_sum, lemma_msm_additive, lemma_msm_scaled, lemma_msm_valid, reduced,
};
use crate::emsm::dual_lpn::add_vectors;
use crate::emsm::duality::lemma_transpose_duality;
use crate::emsm::emsm::decrypted;
use crate::emsm::malicious::{consistent, scale_vector};
use crate::emsm::raa_code::TOperator;
use crate::emsm::sparse_vec::entries_wf;
use crate::group::{all_valid_enc, is_valid, msm_of, GroupModel};
use crate::scalar::{modulus, Scalar};

verus! {

/// The mask `T · e` has one reduced scalar per generator.
pub proof fn lemma_mask_shape(t_operator: TOperator, e: Seq<(usize, Scalar)>)
    requires
        t_operator.wf(),
    ensures
        t_operator.apply(e).len() == t_operator.n,
        reduced(t_operator.apply(e)),
{
}

/// The round gives the plain multi-scalar multiplication: for generators
/// `g`, a witness `z` and any noise `e`, decrypting the server's answer to
/// `z + T · e` with the commitments `Tᵀ · g` gives `⟨z, g⟩`.
pub proof fn lemma_emsm_correct<G: GroupModel>(
    t_operator: TOperator,
    g: Seq<Seq<u8>>,
    z: Seq<nat>,
    e: Seq<(usize, Scalar)>,
)
    requires
        group_laws::<G>(),
        t_operator.wf(),
        g.len() == t_operator.n,
        all_valid_enc::<G>(g),
        z.len() == g.len(),
        reduced(z),
        entries_wf(t_operator.big_n as nat, e),
    ensures
        decrypted::<G>(
            msm_of::<G>(g, add_vectors(z, t_operator.apply(e))),
            t_operator.transpose::<G>(g),
            e,
        ) == msm_of::<G>(g, z),
        is_valid::<G>(msm_of::<G>(g, z)),
{
    let r = t_operator.apply(e);
    let h = t_operator.transpose::<G>(g);
    lemma_mask_shape(t_operator, e);
    lemma_msm_additive::<G>(g, z, r);
    lemma_transpose_duality::<G>(t_operator, g, e);
    lemma_msm_valid::<G>(g, z);
    lemma_msm_valid::<G>(g, r);
    lemma_diff_of_sum::<G>(msm_of::<G>(g, z), msm_of::<G>(g, r));
}

/// With an honest server the check passes and the result is the plain
/// multi-scalar multiplication: for a challenge `c` and any two noises, the
/// decrypted answer to `c · z + T · e'` is `c` times the decrypted answer to
/// `z + T · e`, which is `⟨z, g⟩`.
pub proof fn lemma_malicious_honest<G: GroupModel>(
    t_operator: TOperator,
    g: Seq<Seq<u8>>,
    z: Seq<nat>,
    c: nat,
    e: Seq<(usize, Scalar)>,
    e_ck: Seq<(usize, Scalar)>,
)
    requires
        group_laws::<G>(),
        t_operator.wf(),
        g.len() == t_operator.n,
        all_valid_enc::<G>(g),
        z.len() == g.len(),
        reduced(z),
        c < modulus(),
        entries_wf(t_operator.big_n as nat, e),
        entries_wf(t_operator.big_n as nat, e_ck),
    ensures
        ({
            let h = t_operator.transpose::<G>(g);
            let em = msm_of::<G>(g, add_vectors(z, t_operator.apply(e)));
            let em_ck = msm_of::<G>(g, add_vectors(scale_vector(c, z), t_operator.apply(e_ck)));
            &&& decrypted::<G>(em, h, e) == msm_of::<G>(g, z)
            &&& consistent::<G>(decrypted::<G>(em, h, e), decrypted::<G>(em_ck, h, e_ck), c)
        }),
{
    let cz = scale_vector(c, z);
    assert(reduced(cz));
    lemma_emsm_correct::<G>(t_operator, g, z, e);
    lemma_emsm_correct::<G>(t_operator, g, cz, e_ck);
    lemma_msm_scaled::<G>(g, z, c);
}

/// `(a + d) − s = (a − s) + d`.
pub proof fn lemma_diff_shift<G: GroupModel>(a: Seq<u8>, d: Seq<u8>, s: Seq<u8>)
    requires
        group_laws::<G>(),
        is_valid::<G>(a),
        is_valid::<G>(d),
        is_valid::<G>(s),
    ensures
        G::diff(G::sum(a, d), s) == G::sum(G::diff(a, s), d),
{
    law_sum::<G>(a, d);
    law_diff::<G>(G::sum(a, d), s);
    law_diff::<G>(a, s);
    let x = G::diff(a, s);
    law_sum::<G>(x, d);
    // (x + d) + s = x + (d + s) = x + (s + d) = (x + s) + d = a + d
    law_assoc::<G>(x, d, s);
    law_sum::<G>(d, s);
    law_assoc::<G>(x, s, d);
    lemma_cancel::<G>(G::diff(G::sum(a, d), s), G::sum(x, d), s);
}

/// A server that adds `delta` to its answer and `delta_ck` to its answer to
/// the check passes the check exactly if `delta_ck` is the challenge times
/// `delta`. Here `noise` and `noise_ck` are the shares that decryption takes
/// off the two answers.
pub proof fn lemma_tampering<G: GroupModel>(
    em: Seq<u8>,
    em_ck: Seq<u8>,
    noise: Seq<u8>,
    noise_ck: Seq<u8>,
    c: nat,
    delta: Seq<u8>,
    delta_ck: Seq<u8>,
)
    requires
        group_laws::<G>(),
        is_valid::<G>(em),
        is_valid::<G>(em_ck),
        is_valid::<G>(noise),
        is_valid::<G>(noise_ck),
        is_valid::<G>(delta),
        is_valid::<G>(delta_ck),
        c < modulus(),
        consistent::<G>(G::diff(em, noise), G::diff(em_ck, noise_ck), c),
    ensures
        consistent::<G>(
            G::diff(G::sum(em, delta), noise),
            G::diff(G::sum(em_ck, delta_ck), noise_ck),
            c,
        ) <==> delta_ck == G::scale(delta, c),
{
    let dm = G::diff(em, noise);
    let dm_ck = G::diff(em_ck, noise_ck);
    law_diff::<G>(em, noise);
    law_diff::<G>(em_ck, noise_ck);
    lemma_diff_shift::<G>(em, delta, noise);
    lemma_diff_shift::<G>(em_ck, delta_ck, noise_ck);
    law_scale_sum::<G>(dm, delta, c);
    let sd = G::scale(delta, c);
    law_scale_valid::<G>(delta, c);
    // dm_ck + delta_ck == dm_ck + sd  <==>  delta_ck == sd
    law_sum::<G>(dm_ck, delta_ck);
    law_sum::<G>(dm_ck, sd);
    if G::sum(dm_ck, delta_ck) == G::sum(dm_ck, sd) {
        lemma_cancel::<G>(delta_ck, sd, dm_ck);
    }
}

/// No scalar but zero sends an element other than the neutral one to the
/// neutral one: the group has prime order.
pub open spec fn prime_order<G: GroupModel>() -> bool {
    forall|p: Seq<u8>, k: nat|
        is_valid::<G>(p) && p != G::identity() && 0 < k < modulus() ==> #[trigger] G::scale(p, k)
            != G::identity()
}

/// A tamper added to the answer to the check alone is always refused: the
/// check passes only if the tamper is the neutral element.
pub proof fn lemma_tampered_check<G: GroupModel>(
    em: Seq<u8>,
    em_ck: Seq<u8>,
    noise: Seq<u8>,
    noise_ck: Seq<u8>,
    c: nat,
    delta_ck: Seq<u8>,
)
    requires
        group_laws::<G>(),
        is_valid::<G>(em),
        is_valid::<G>(em_ck),
        is_valid::<G>(noise),
        is_valid::<G>(noise_ck),
        is_valid::<G>(delta_ck),
        c < modulus(),
        consistent::<G>(G::diff(em, noise), G::diff(em_ck, noise_ck), c),
    ensures
        consistent::<G>(G::diff(em, noise), G::diff(G::sum(em_ck, delta_ck), noise_ck), c)
            <==> delta_ck == G::identity(),
{
    let zero = G::identity();
    crate::algebra::law_identity_valid::<G>();
    crate::algebra::law_neutral::<G>(em);
    crate::algebra::lemma_scale_identity::<G>(c);
    lemma_tampering::<G>(em, em_ck, noise, noise_ck, c, zero, delta_ck);
}

/// In a group of prime order, a tamper other than the neutral element added
/// to the answer alone passes the check exactly if the challenge is zero.
pub proof fn lemma_tampered_answer<G: GroupModel>(
    em: Seq<u8>,
    em_ck: Seq<u8>,
    noise: Seq<u8>,
    noise_ck: Seq<u8>,
    c: nat,
    delta: Seq<u8>,
)
    requires
        group_laws::<G>(),
        prime_order::<G>(),
        is_valid::<G>(em),
        is_valid::<G>(em_ck),
        is_valid::<G>(noise),
        is_valid::<G>(noise_ck),
        is_valid::<G>(delta),
        delta != G::identity(),
        c < modulus(),
        consistent::<G>(G::diff(em, noise), G::diff(em_ck, noise_ck), c),
    ensures
        consistent::<G>(G::diff(G::sum(em, delta), noise), G::diff(em_ck, noise_ck), c) <==> c
            == 0,
{
    let zero = G::identity();
    crate::algebra::law_identity_valid::<G>();
    crate::algebra::law_neutral::<G>(em_ck);
    lemma_tampering::<G>(em, em_ck, noise, noise_ck, c, delta, zero);
    if c == 0 {
        crate::algebra::lemma_scale_zero::<G>(delta);
    }
}

} // verus!
