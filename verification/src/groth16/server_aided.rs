//! The five encrypted multi-scalar multiplications of a Groth16 proof, and
//! the assembly of the proof from the server's answers.

use vstd::prelude::*;
use crate::emsm::dual_lpn::{add_vectors, DualLPNInstance};
use crate::emsm::emsm::{decrypt, decrypted, encrypt, EmsmPublicParams, PreprocessedCommitments};
use crate::emsm::malicious::{
    consistent, malicious_decrypt, malicious_draws, malicious_encrypt, scale_vector,
    MaliciousDecryptState,
    MaliciousEncrypted, MaliciousError,
};
use crate::emsm::pedersen::{dup_all, PedersenError};
use crate::emsm::raa_code::sampled_code;
use crate::emsm::sparse_vec::{regular_noise, sampled_noise};
use crate::group::{
    all_elements, all_valid, encodings, is_element, is_valid, msm_of, CurveGroup, G1Point, G2Point,
    GroupModel,
};
use crate::rng::SeededRng;
use crate::scalar::{after_scalar, all_wf, fmul, next_scalar, values, Scalar};

verus! {

/// The part of a Groth16 verifying key that proving reads.
#[derive(Debug)]
pub struct VerifyingKey {
    pub alpha_g1: G1Point,
    pub beta_g2: G2Point,
    pub gamma_g2: G2Point,
    pub delta_g2: G2Point,
    /// One element per public input, the constant 1 included.
    pub gamma_abc_g1: Vec<G1Point>,
}

/// A Groth16 proving key.
#[derive(Debug)]
pub struct ProvingKey {
    pub vk: VerifyingKey,
    pub beta_g1: G1Point,
    pub delta_g1: G1Point,
    pub a_query: Vec<G1Point>,
    pub b_g1_query: Vec<G1Point>,
    pub b_g2_query: Vec<G2Point>,
    pub h_query: Vec<G1Point>,
    pub l_query: Vec<G1Point>,
}

/// A Groth16 proof.
#[derive(Debug)]
pub struct Proof {
    pub a: G1Point,
    pub b: G2Point,
    pub c: G1Point,
}

impl ProvingKey {
    /// Every element of the key is a group element.
    pub open spec fn wf(self) -> bool {
        &&& is_valid::<G1Point>(self.vk.alpha_g1.enc())
        &&& is_valid::<G2Point>(self.vk.beta_g2.enc())
        &&& is_valid::<G2Point>(self.vk.delta_g2.enc())
        &&& is_valid::<G1Point>(self.beta_g1.enc())
        &&& is_valid::<G1Point>(self.delta_g1.enc())
        &&& all_valid(self.a_query@)
        &&& all_valid(self.b_g1_query@)
        &&& all_valid(self.b_g2_query@)
        &&& all_valid(self.h_query@)
        &&& all_valid(self.l_query@)
    }

    /// The number of public inputs, the constant 1 included.
    pub open spec fn num_pub(self) -> nat {
        self.vk.gamma_abc_g1@.len()
    }

    /// The key can be wrapped: its elements are group elements, the queries
    /// `A` and `B` reach behind the public inputs, and four times the length
    /// of each query is a length.
    pub open spec fn fits(self) -> bool {
        &&& self.wf()
        &&& self.num_pub() <= self.a_query@.len()
        &&& self.num_pub() <= self.b_g1_query@.len()
        &&& self.num_pub() <= self.b_g2_query@.len()
        &&& 4 * self.h_query@.len() <= usize::MAX
        &&& 4 * self.l_query@.len() <= usize::MAX
        &&& 4 * self.a_query@.len() <= usize::MAX
        &&& 4 * self.b_g1_query@.len() <= usize::MAX
        &&& 4 * self.b_g2_query@.len() <= usize::MAX
    }

    /// Whether every element of the key is a group element.
    pub fn check(&self) -> (b: bool)
        ensures
            b == self.wf(),
    {
        is_element(&self.vk.alpha_g1) && is_element(&self.vk.beta_g2) && is_element(
            &self.vk.delta_g2,
        ) && is_element(&self.beta_g1) && is_element(&self.delta_g1) && all_elements(&self.a_query)
            && all_elements(&self.b_g1_query) && all_elements(&self.b_g2_query) && all_elements(
            &self.h_query,
        ) && all_elements(&self.l_query)
    }

    /// Whether the key can be wrapped.
    pub fn check_fits(&self) -> (b: bool)
        ensures
            b == self.fits(),
    {
        let num_pub: usize = self.vk.gamma_abc_g1.len();
        let most: usize = usize::MAX / 4;
        num_pub <= self.a_query.len() && num_pub <= self.b_g1_query.len() && num_pub
            <= self.b_g2_query.len() && self.h_query.len() <= most && self.l_query.len() <= most
            && self.a_query.len() <= most && self.b_g1_query.len() <= most
            && self.b_g2_query.len() <= most && self.check()
    }
}

/// The elements of `v` from position `start` on.
pub fn tail_from<G: CurveGroup>(v: &Vec<G>, start: usize) -> (out: Vec<G>)
    requires
        start <= v@.len(),
    ensures
        encodings(out@) == encodings(v@).skip(start as int),
        out@.len() == v@.len() - start,
        all_valid(v@) ==> all_valid(out@),
{
    let mut out: Vec<G> = Vec::new();
    let mut i: usize = start;
    while i < v.len()
        invariant
            start <= i <= v@.len(),
            out@.len() == i - start,
            forall|k: int| 0 <= k < i - start ==> (#[trigger] out@[k]).enc() == v@[start + k].enc(),
        decreases v@.len() - i,
    {
        out.push(v[i].dup());
        i = i + 1;
    }
    assert(encodings(out@) =~= encodings(v@).skip(start as int));
    assert(all_valid(v@) ==> all_valid(out@)) by {
        if all_valid(v@) {
            assert forall|k: int| 0 <= k < out@.len() implies is_valid::<G>(
                (#[trigger] out@[k]).enc(),
            ) by {
                assert(is_valid::<G>(v@[start + k].enc()));
            }
        }
    }
    out
}

/// The numbers of generators of the five slots of a key.
pub open spec fn slot_lengths(pk: ProvingKey) -> Seq<usize> {
    seq![
        pk.h_query@.len() as usize,
        pk.l_query@.len() as usize,
        (pk.a_query@.len() - pk.num_pub()) as usize,
        (pk.b_g1_query@.len() - pk.num_pub()) as usize,
        (pk.b_g2_query@.len() - pk.num_pub()) as usize,
    ]
}

/// The generator before the code of each slot is drawn, and behind the last.
pub open spec fn setup_states(pk: ProvingKey, rng: SeededRng) -> Seq<SeededRng> {
    let lengths = slot_lengths(pk);
    let r1 = sampled_code(rng, lengths[0]).2;
    let r2 = sampled_code(r1, lengths[1]).2;
    let r3 = sampled_code(r2, lengths[2]).2;
    let r4 = sampled_code(r3, lengths[3]).2;
    seq![rng, r1, r2, r3, r4, sampled_code(r4, lengths[4]).2]
}

/// The generator behind the setup of a key.
pub open spec fn after_setup(pk: ProvingKey, rng: SeededRng) -> SeededRng {
    setup_states(pk, rng)[5]
}

/// A proving key with one encrypted multi-scalar multiplication per slot:
/// `H`, `L`, `A`, `B` in G1 and `B` in G2.
#[derive(Debug)]
pub struct ServerAidedProvingKey {
    pub pk: ProvingKey,
    pub emsm_h: EmsmPublicParams<G1Point>,
    pub emsm_l: EmsmPublicParams<G1Point>,
    pub emsm_a: EmsmPublicParams<G1Point>,
    pub emsm_b_g1: EmsmPublicParams<G1Point>,
    pub emsm_b_g2: EmsmPublicParams<G2Point>,
    pub pre_h: PreprocessedCommitments<G1Point>,
    pub pre_l: PreprocessedCommitments<G1Point>,
    pub pre_a: PreprocessedCommitments<G1Point>,
    pub pre_b_g1: PreprocessedCommitments<G1Point>,
    pub pre_b_g2: PreprocessedCommitments<G2Point>,
}

impl ServerAidedProvingKey {
    /// The slots `H` and `L` hold their whole query, the slots `A` and `B`
    /// the part of their query behind the public inputs; every slot has its
    /// own code and its commitments.
    pub open spec fn wf(self) -> bool {
        &&& self.pk.wf()
        &&& self.pk.num_pub() <= self.pk.a_query@.len()
        &&& self.pk.num_pub() <= self.pk.b_g1_query@.len()
        &&& self.pk.num_pub() <= self.pk.b_g2_query@.len()
        &&& self.emsm_h.wf()
        &&& self.emsm_l.wf()
        &&& self.emsm_a.wf()
        &&& self.emsm_b_g1.wf()
        &&& self.emsm_b_g2.wf()
        &&& self.emsm_h.bases() == encodings(self.pk.h_query@)
        &&& self.emsm_l.bases() == encodings(self.pk.l_query@)
        &&& self.emsm_a.bases() == encodings(self.pk.a_query@).skip(self.pk.num_pub() as int)
        &&& self.emsm_b_g1.bases() == encodings(self.pk.b_g1_query@).skip(
            self.pk.num_pub() as int,
        )
        &&& self.emsm_b_g2.bases() == encodings(self.pk.b_g2_query@).skip(
            self.pk.num_pub() as int,
        )
        &&& self.pre_h.wf(&self.emsm_h)
        &&& self.pre_l.wf(&self.emsm_l)
        &&& self.pre_a.wf(&self.emsm_a)
        &&& self.pre_b_g1.wf(&self.emsm_b_g1)
        &&& self.pre_b_g2.wf(&self.emsm_b_g2)
    }

    /// The codes of the five slots are what the generator gives, slot by
    /// slot in the order `H`, `L`, `A`, `B` in G1, `B` in G2.
    pub open spec fn drawn_from(self, rng: SeededRng) -> bool {
        let states = setup_states(self.pk, rng);
        let lengths = slot_lengths(self.pk);
        &&& self.emsm_h.t_operator.sampled_from(states[0], lengths[0])
        &&& self.emsm_l.t_operator.sampled_from(states[1], lengths[1])
        &&& self.emsm_a.t_operator.sampled_from(states[2], lengths[2])
        &&& self.emsm_b_g1.t_operator.sampled_from(states[3], lengths[3])
        &&& self.emsm_b_g2.t_operator.sampled_from(states[4], lengths[4])
    }

    /// Wraps a proving key if it can be wrapped, and leaves the generator
    /// untouched if it cannot.
    pub fn try_setup(pk: ProvingKey, rng: &mut SeededRng) -> (r: Option<Self>)
        ensures
            r.is_some() <==> pk.fits(),
            r.is_some() ==> r.unwrap().pk == pk && r.unwrap().wf() && r.unwrap().drawn_from(
                *old(rng),
            ) && *final(rng) == after_setup(pk, *old(rng)),
            r.is_none() ==> *final(rng) == *old(rng),
    {
        if pk.check_fits() {
            Some(ServerAidedProvingKey::setup(pk, rng))
        } else {
            None
        }
    }

    /// Wraps a proving key: a fresh code and the commitments `Tᵀ · g` for
    /// each of the five slots.
    pub fn setup(pk: ProvingKey, rng: &mut SeededRng) -> (r: Self)
        requires
            pk.wf(),
            pk.num_pub() <= pk.a_query@.len(),
            pk.num_pub() <= pk.b_g1_query@.len(),
            pk.num_pub() <= pk.b_g2_query@.len(),
            4 * pk.h_query@.len() <= usize::MAX,
            4 * pk.l_query@.len() <= usize::MAX,
            4 * pk.a_query@.len() <= usize::MAX,
            4 * pk.b_g1_query@.len() <= usize::MAX,
            4 * pk.b_g2_query@.len() <= usize::MAX,
        ensures
            r.pk == pk,
            r.wf(),
            r.drawn_from(*old(rng)),
            *final(rng) == after_setup(pk, *old(rng)),
    {
        let emsm_h = EmsmPublicParams::<G1Point>::new(dup_all(&pk.h_query), rng);
        let pre_h = emsm_h.preprocess();

        let emsm_l = EmsmPublicParams::<G1Point>::new(dup_all(&pk.l_query), rng);
        let pre_l = emsm_l.preprocess();

        let num_pub: usize = pk.vk.gamma_abc_g1.len();

        let a_witness: Vec<G1Point> = tail_from(&pk.a_query, num_pub);
        let emsm_a = EmsmPublicParams::<G1Point>::new(a_witness, rng);
        let pre_a = emsm_a.preprocess();

        let b_g1_witness: Vec<G1Point> = tail_from(&pk.b_g1_query, num_pub);
        let emsm_b_g1 = EmsmPublicParams::<G1Point>::new(b_g1_witness, rng);
        let pre_b_g1 = emsm_b_g1.preprocess();

        let b_g2_witness: Vec<G2Point> = tail_from(&pk.b_g2_query, num_pub);
        let emsm_b_g2 = EmsmPublicParams::<G2Point>::new(b_g2_witness, rng);
        let pre_b_g2 = emsm_b_g2.preprocess();

        ServerAidedProvingKey {
            pk,
            emsm_h,
            emsm_l,
            emsm_a,
            emsm_b_g1,
            emsm_b_g2,
            pre_h,
            pre_l,
            pre_a,
            pre_b_g1,
            pre_b_g2,
        }
    }
}

/// The first `target_len` elements of `v`, with zeros behind where `v` is
/// shorter.
pub open spec fn padded(v: Seq<nat>, target_len: nat) -> Seq<nat> {
    Seq::new(target_len, |i: int| if i < v.len() { v[i] } else { 0nat })
}

/// The vector cut or zero-extended to exactly `target_len` elements.
pub fn pad_or_trim(v: &Vec<Scalar>, target_len: usize) -> (out: Vec<Scalar>)
    requires
        all_wf(v@),
    ensures
        values(out@) == padded(values(v@), target_len as nat),
        out@.len() == target_len,
        all_wf(out@),
{
    let mut out: Vec<Scalar> = Vec::new();
    let mut i: usize = 0;
    while i < target_len
        invariant
            i <= target_len,
            all_wf(v@),
            out@.len() == i,
            all_wf(out@),
            forall|k: int|
                0 <= k < i ==> (#[trigger] out@[k])@ == (if k < v@.len() {
                    v@[k]@
                } else {
                    0nat
                }),
        decreases target_len - i,
    {
        if i < v.len() {
            out.push(v[i]);
        } else {
            out.push(Scalar::zero());
        }
        i = i + 1;
    }
    assert(values(out@) =~= padded(values(v@), target_len as nat));
    out
}

/// What the client keeps between encrypt and decrypt.
#[derive(Debug)]
pub struct ClientDecryptionState {
    pub r: Scalar,
    pub s: Scalar,
    pub lpn_h: DualLPNInstance,
    pub lpn_l: DualLPNInstance,
    pub lpn_a: DualLPNInstance,
    pub lpn_b_g1: DualLPNInstance,
    pub lpn_b_g2: DualLPNInstance,
    pub num_instance_variables: usize,
    pub full_assignment: Vec<Scalar>,
}

/// What goes to the server: five masked scalar vectors.
#[derive(Debug)]
pub struct EncryptedRequest {
    pub v_h: Vec<Scalar>,
    pub v_l: Vec<Scalar>,
    pub v_a: Vec<Scalar>,
    pub v_b_g1: Vec<Scalar>,
    pub v_b_g2: Vec<Scalar>,
}

/// What comes back: five group elements.
#[derive(Debug)]
pub struct ServerResponse {
    pub em_h: G1Point,
    pub em_l: G1Point,
    pub em_a: G1Point,
    pub em_b_g1: G1Point,
    pub em_b_g2: G2Point,
}

impl ClientDecryptionState {
    /// The blinding scalars and the assignment are reduced, and each
    /// instance belongs to the code of its slot.
    pub open spec fn wf(self, sapk: &ServerAidedProvingKey) -> bool {
        &&& self.r.wf()
        &&& self.s.wf()
        &&& all_wf(self.full_assignment@)
        &&& self.lpn_h.wf(sapk.emsm_h.t_operator)
        &&& self.lpn_l.wf(sapk.emsm_l.t_operator)
        &&& self.lpn_a.wf(sapk.emsm_a.t_operator)
        &&& self.lpn_b_g1.wf(sapk.emsm_b_g1.t_operator)
        &&& self.lpn_b_g2.wf(sapk.emsm_b_g2.t_operator)
    }
}

impl EncryptedRequest {
    /// Every scalar of the request is reduced.
    pub open spec fn wf(self) -> bool {
        &&& all_wf(self.v_h@)
        &&& all_wf(self.v_l@)
        &&& all_wf(self.v_a@)
        &&& all_wf(self.v_b_g1@)
        &&& all_wf(self.v_b_g2@)
    }
}

impl ServerResponse {
    /// Every answer is a group element.
    pub open spec fn wf(self) -> bool {
        &&& is_valid::<G1Point>(self.em_h.enc())
        &&& is_valid::<G1Point>(self.em_l.enc())
        &&& is_valid::<G1Point>(self.em_a.enc())
        &&& is_valid::<G1Point>(self.em_b_g1.enc())
        &&& is_valid::<G2Point>(self.em_b_g2.enc())
    }
}

/// The instance assignment followed by the witness assignment.
pub fn join_assignment(instance: &Vec<Scalar>, witness: &Vec<Scalar>) -> (out: Vec<Scalar>)
    requires
        instance@.len() + witness@.len() <= usize::MAX,
    ensures
        out@ == instance@ + witness@,
{
    let mut out: Vec<Scalar> = Vec::new();
    let mut i: usize = 0;
    while i < instance.len()
        invariant
            i <= instance@.len(),
            out@ == instance@.take(i as int),
        decreases instance@.len() - i,
    {
        out.push(instance[i]);
        assert(instance@.take(i + 1) =~= instance@.take(i as int).push(instance@[i as int]));
        i = i + 1;
    }
    assert(instance@.take(instance@.len() as int) =~= instance@);
    let mut j: usize = 0;
    while j < witness.len()
        invariant
            j <= witness@.len(),
            out@ == instance@ + witness@.take(j as int),
        decreases witness@.len() - j,
    {
        out.push(witness[j]);
        assert(instance@ + witness@.take(j + 1) =~= (instance@ + witness@.take(j as int)).push(
            witness@[j as int],
        ));
        j = j + 1;
    }
    assert(witness@.take(witness@.len() as int) =~= witness@);
    out
}

/// The noise of the instance is the regular noise that the generator draws
/// for the slot: one entry per chunk, as many as the sparsity of the slot.
pub open spec fn slot_noise<G: CurveGroup>(
    params: EmsmPublicParams<G>,
    rng: SeededRng,
    lpn: DualLPNInstance,
) -> bool {
    &&& lpn.noise.entries@ == sampled_noise(rng, params.t_operator.big_n, params.t).0
    &&& params.t_operator.big_n != 0 ==> regular_noise(
        params.t_operator.big_n as nat,
        params.t as nat,
        lpn.noise.entries@,
    )
}

/// The generator behind the noise of one slot.
pub open spec fn after_slot<G: CurveGroup>(params: EmsmPublicParams<G>, rng: SeededRng) -> SeededRng {
    sampled_noise(rng, params.t_operator.big_n, params.t).1
}

/// Masks the five scalar vectors of a proof. `h_poly` holds the coefficients
/// of the quotient polynomial, `instance` and `witness` the two parts of the
/// assignment. Each source vector is cut or zero-extended to the number of
/// generators of its slot before it is masked.
pub fn client_encrypt(
    sapk: &ServerAidedProvingKey,
    h_poly: &Vec<Scalar>,
    instance: &Vec<Scalar>,
    witness: &Vec<Scalar>,
    rng: &mut SeededRng,
) -> (r: (EncryptedRequest, ClientDecryptionState))
    requires
        sapk.wf(),
        all_wf(h_poly@),
        all_wf(instance@),
        all_wf(witness@),
        instance@.len() + witness@.len() <= usize::MAX,
    ensures
        r.0.wf(),
        r.1.wf(sapk),
        r.1.num_instance_variables == instance@.len(),
        r.1.full_assignment@ == instance@ + witness@,
        ({
            let r0 = *old(rng);
            let r1 = after_scalar(r0);
            let r2 = after_scalar(r1);
            let r3 = after_slot(sapk.emsm_h, r2);
            let r4 = after_slot(sapk.emsm_l, r3);
            let r5 = after_slot(sapk.emsm_a, r4);
            let r6 = after_slot(sapk.emsm_b_g1, r5);
            &&& r.1.r == next_scalar(r0)
            &&& r.1.s == next_scalar(r1)
            &&& slot_noise(sapk.emsm_h, r2, r.1.lpn_h)
            &&& slot_noise(sapk.emsm_l, r3, r.1.lpn_l)
            &&& slot_noise(sapk.emsm_a, r4, r.1.lpn_a)
            &&& slot_noise(sapk.emsm_b_g1, r5, r.1.lpn_b_g1)
            &&& slot_noise(sapk.emsm_b_g2, r6, r.1.lpn_b_g2)
            &&& *final(rng) == after_slot(sapk.emsm_b_g2, r6)
        }),
        values(r.0.v_h@) == add_vectors(
            padded(values(h_poly@), sapk.emsm_h.generators@.len()),
            values(r.1.lpn_h.lpn_vector@),
        ),
        values(r.0.v_l@) == add_vectors(
            padded(values(witness@), sapk.emsm_l.generators@.len()),
            values(r.1.lpn_l.lpn_vector@),
        ),
        values(r.0.v_a@) == add_vectors(
            padded(values(witness@), sapk.emsm_a.generators@.len()),
            values(r.1.lpn_a.lpn_vector@),
        ),
        values(r.0.v_b_g1@) == add_vectors(
            padded(values(witness@), sapk.emsm_b_g1.generators@.len()),
            values(r.1.lpn_b_g1.lpn_vector@),
        ),
        values(r.0.v_b_g2@) == add_vectors(
            padded(values(witness@), sapk.emsm_b_g2.generators@.len()),
            values(r.1.lpn_b_g2.lpn_vector@),
        ),
{
    let num_instance_variables: usize = instance.len();
    let full_assignment = join_assignment(instance, witness);
    assert(all_wf(full_assignment@)) by {
        assert forall|i: int| 0 <= i < full_assignment@.len() implies (
        #[trigger] full_assignment@[i]).wf() by {
            if i < instance@.len() {
                assert(full_assignment@[i] == instance@[i]);
            } else {
                assert(full_assignment@[i] == witness@[i - instance@.len()]);
            }
        }
    }

    let r = Scalar::rand(rng);
    let s = Scalar::rand(rng);

    let h_scalars = pad_or_trim(h_poly, sapk.emsm_h.generators.len());
    let (v_h, lpn_h) = encrypt(&sapk.emsm_h, &h_scalars, rng);

    let l_scalars = pad_or_trim(witness, sapk.emsm_l.generators.len());
    let (v_l, lpn_l) = encrypt(&sapk.emsm_l, &l_scalars, rng);

    let a_scalars = pad_or_trim(witness, sapk.emsm_a.generators.len());
    let (v_a, lpn_a) = encrypt(&sapk.emsm_a, &a_scalars, rng);

    let b_g1_scalars = pad_or_trim(witness, sapk.emsm_b_g1.generators.len());
    let (v_b_g1, lpn_b_g1) = encrypt(&sapk.emsm_b_g1, &b_g1_scalars, rng);

    let b_g2_scalars = pad_or_trim(witness, sapk.emsm_b_g2.generators.len());
    let (v_b_g2, lpn_b_g2) = encrypt(&sapk.emsm_b_g2, &b_g2_scalars, rng);

    let request = EncryptedRequest { v_h, v_l, v_a, v_b_g1, v_b_g2 };
    let state = ClientDecryptionState {
        r,
        s,
        lpn_h,
        lpn_l,
        lpn_a,
        lpn_b_g1,
        lpn_b_g2,
        num_instance_variables,
        full_assignment,
    };
    (request, state)
}

/// The length mismatch between a vector of scalars and the generators of its
/// slot, if there is one.
pub open spec fn mismatch(scalars: nat, generators: nat) -> Option<PedersenError> {
    if scalars == generators {
        None
    } else {
        Some(
            PedersenError::LengthMismatch {
                scalars: scalars as usize,
                generators: generators as usize,
            },
        )
    }
}

/// The first of the options that holds an error.
pub open spec fn first_error(errors: Seq<Option<PedersenError>>) -> Option<PedersenError>
    decreases errors.len(),
{
    if errors.len() == 0 {
        None
    } else if errors[0].is_some() {
        errors[0]
    } else {
        first_error(errors.skip(1))
    }
}

/// The mismatches of the five slots of a request, in the order `H`, `L`,
/// `A`, `B` in G1, `B` in G2.
pub open spec fn request_mismatches(
    sapk: &ServerAidedProvingKey,
    request: &EncryptedRequest,
) -> Seq<Option<PedersenError>> {
    seq![
        mismatch(request.v_h@.len(), sapk.emsm_h.generators@.len()),
        mismatch(request.v_l@.len(), sapk.emsm_l.generators@.len()),
        mismatch(request.v_a@.len(), sapk.emsm_a.generators@.len()),
        mismatch(request.v_b_g1@.len(), sapk.emsm_b_g1.generators@.len()),
        mismatch(request.v_b_g2@.len(), sapk.emsm_b_g2.generators@.len()),
    ]
}

/// The generators of all five slots are group elements.
pub open spec fn generators_valid(sapk: &ServerAidedProvingKey) -> bool {
    &&& all_valid(sapk.emsm_h.generators@)
    &&& all_valid(sapk.emsm_l.generators@)
    &&& all_valid(sapk.emsm_a.generators@)
    &&& all_valid(sapk.emsm_b_g1.generators@)
    &&& all_valid(sapk.emsm_b_g2.generators@)
}

/// What the server computes: five plain multi-scalar multiplications. The
/// first slot whose lengths differ gives the error.
pub fn server_evaluate(sapk: &ServerAidedProvingKey, request: &EncryptedRequest) -> (r: Result<
    ServerResponse,
    PedersenError,
>)
    requires
        generators_valid(sapk),
        request.wf(),
    ensures
        r.is_err() <==> first_error(request_mismatches(sapk, request)).is_some(),
        r.is_err() ==> Some(r.unwrap_err()) == first_error(request_mismatches(sapk, request)),
        r.is_ok() ==> {
            let resp = r.unwrap();
            &&& resp.wf()
            &&& resp.em_h.enc() == msm_of::<G1Point>(sapk.emsm_h.bases(), values(request.v_h@))
            &&& resp.em_l.enc() == msm_of::<G1Point>(sapk.emsm_l.bases(), values(request.v_l@))
            &&& resp.em_a.enc() == msm_of::<G1Point>(sapk.emsm_a.bases(), values(request.v_a@))
            &&& resp.em_b_g1.enc() == msm_of::<G1Point>(
                sapk.emsm_b_g1.bases(),
                values(request.v_b_g1@),
            )
            &&& resp.em_b_g2.enc() == msm_of::<G2Point>(
                sapk.emsm_b_g2.bases(),
                values(request.v_b_g2@),
            )
        },
{
    let ghost errors = request_mismatches(sapk, request);
    let em_h = match sapk.emsm_h.server_computation(&request.v_h) {
        Ok(p) => p,
        Err(e) => {
            proof {
                lemma_first_error_skips(errors, 0);
            }
            return Err(e);
        },
    };
    let em_l = match sapk.emsm_l.server_computation(&request.v_l) {
        Ok(p) => p,
        Err(e) => {
            proof {
                lemma_first_error_skips(errors, 1);
            }
            return Err(e);
        },
    };
    let em_a = match sapk.emsm_a.server_computation(&request.v_a) {
        Ok(p) => p,
        Err(e) => {
            proof {
                lemma_first_error_skips(errors, 2);
            }
            return Err(e);
        },
    };
    let em_b_g1 = match sapk.emsm_b_g1.server_computation(&request.v_b_g1) {
        Ok(p) => p,
        Err(e) => {
            proof {
                lemma_first_error_skips(errors, 3);
            }
            return Err(e);
        },
    };
    let em_b_g2 = match sapk.emsm_b_g2.server_computation(&request.v_b_g2) {
        Ok(p) => p,
        Err(e) => {
            proof {
                lemma_first_error_skips(errors, 4);
            }
            return Err(e);
        },
    };
    proof {
        lemma_first_error_skips(errors, 5);
    }
    Ok(ServerResponse { em_h, em_l, em_a, em_b_g1, em_b_g2 })
}

/// Options without an error in front do not change which error is first.
pub proof fn lemma_first_error_skips(e: Seq<Option<PedersenError>>, k: int)
    requires
        0 <= k <= e.len(),
        forall|j: int| 0 <= j < k ==> (#[trigger] e[j]).is_none(),
    ensures
        first_error(e) == first_error(e.skip(k)),
        k < e.len() && e[k].is_some() ==> first_error(e) == e[k],
        k == e.len() ==> first_error(e).is_none(),
    decreases k,
{
    if k == 0 {
        assert(e.skip(0) =~= e);
    } else {
        lemma_first_error_skips(e, k - 1);
        let t = e.skip(k - 1);
        assert(t[0] == e[k - 1]);
        assert(t.skip(1) =~= e.skip(k));
    }
    if k < e.len() {
        assert(e.skip(k)[0] == e[k]);
    }
}

/// The sum `Σ inputs[i] · query[i + 1]` over the first `k` inputs, added up
/// from the left; inputs that are zero add nothing.
pub open spec fn inputs_sum<G: GroupModel>(query: Seq<Seq<u8>>, inputs: Seq<nat>, k: int) -> Seq<u8>
    decreases k,
{
    if k <= 0 {
        G::identity()
    } else {
        let rest = inputs_sum::<G>(query, inputs, k - 1);
        if inputs[k - 1] == 0 {
            rest
        } else {
            G::sum(rest, G::scale(query[k], inputs[k - 1]))
        }
    }
}

/// The share of the public inputs in one query:
/// `query[0] + Σ inputs[i] · query[i + 1]`.
pub open spec fn public_share<G: GroupModel>(query: Seq<Seq<u8>>, inputs: Seq<nat>) -> Seq<u8> {
    G::sum(inputs_sum::<G>(query, inputs, inputs.len() as int), query[0])
}

/// The public inputs of an assignment: what stands behind the constant 1 and
/// before the witness.
pub open spec fn public_inputs(full_assignment: Seq<Scalar>, num_pub: int) -> Seq<nat> {
    values(full_assignment.subrange(1, num_pub))
}

/// `base + share + witness_part + blind · delta`: the shape of `π_A`, of
/// `π_B` and of the copy of `π_B` in G1.
pub open spec fn blinded_sum<G: GroupModel>(
    base: Seq<u8>,
    share: Seq<u8>,
    witness_part: Seq<u8>,
    delta: Seq<u8>,
    blind: nat,
) -> Seq<u8> {
    G::sum(G::sum(G::sum(base, share), witness_part), G::scale(delta, blind))
}

/// `π_C = h + l + s · π_A + r · π_B' − (r · s) · δ`, where `π_B'` is the
/// copy of `π_B` in G1.
pub open spec fn proof_c(
    h_msm: Seq<u8>,
    l_msm: Seq<u8>,
    g_a: Seq<u8>,
    g_b_g1: Seq<u8>,
    delta_g1: Seq<u8>,
    r: nat,
    s: nat,
) -> Seq<u8> {
    G1Point::diff(
        G1Point::sum(
            G1Point::sum(G1Point::sum(h_msm, l_msm), G1Point::scale(g_a, s)),
            G1Point::scale(g_b_g1, r),
        ),
        G1Point::scale(delta_g1, fmul(r, s)),
    )
}

/// The five multi-scalar multiplications of a proof, as encodings.
pub struct MsmResults {
    pub h: Seq<u8>,
    pub l: Seq<u8>,
    pub a: Seq<u8>,
    pub b_g1: Seq<u8>,
    pub b_g2: Seq<u8>,
}

/// The encodings of `(π_A, π_B, π_C)` for a key, blinding scalars `r` and
/// `s`, public inputs, and the five multi-scalar multiplications.
pub open spec fn proof_of(pk: ProvingKey, r: nat, s: nat, inputs: Seq<nat>, msm: MsmResults) -> (
    Seq<u8>,
    Seq<u8>,
    Seq<u8>,
) {
    let a_pub = public_share::<G1Point>(encodings(pk.a_query@), inputs);
    let b_g1_pub = public_share::<G1Point>(encodings(pk.b_g1_query@), inputs);
    let b_g2_pub = public_share::<G2Point>(encodings(pk.b_g2_query@), inputs);
    let g_a = blinded_sum::<G1Point>(pk.vk.alpha_g1.enc(), a_pub, msm.a, pk.delta_g1.enc(), r);
    let g_b = blinded_sum::<G2Point>(
        pk.vk.beta_g2.enc(),
        b_g2_pub,
        msm.b_g2,
        pk.vk.delta_g2.enc(),
        s,
    );
    let g_b_g1 = blinded_sum::<G1Point>(
        pk.beta_g1.enc(),
        b_g1_pub,
        msm.b_g1,
        pk.delta_g1.enc(),
        s,
    );
    (g_a, g_b, proof_c(msm.h, msm.l, g_a, g_b_g1, pk.delta_g1.enc(), r, s))
}

/// The share of the public inputs in one query, computed locally.
pub fn compute_public_share<G: CurveGroup>(
    query: &Vec<G>,
    full_assignment: &Vec<Scalar>,
    num_pub: usize,
) -> (r: G)
    requires
        1 <= num_pub <= full_assignment@.len(),
        num_pub <= query@.len(),
        all_valid(query@),
        all_wf(full_assignment@),
    ensures
        r.enc() == public_share::<G>(
            encodings(query@),
            public_inputs(full_assignment@, num_pub as int),
        ),
        is_valid::<G>(r.enc()),
{
    let ghost inputs = public_inputs(full_assignment@, num_pub as int);
    let ghost q = encodings(query@);
    let mut acc = G::zero();
    let mut i: usize = 0;
    while i < num_pub - 1
        invariant
            i <= num_pub - 1,
            1 <= num_pub <= full_assignment@.len(),
            num_pub <= query@.len(),
            all_valid(query@),
            all_wf(full_assignment@),
            inputs == public_inputs(full_assignment@, num_pub as int),
            q == encodings(query@),
            acc.enc() == inputs_sum::<G>(q, inputs, i as int),
            is_valid::<G>(acc.enc()),
        decreases num_pub - 1 - i,
    {
        let input: Scalar = full_assignment[i + 1];
        assert(inputs[i as int] == full_assignment@[i + 1]@);
        assert(full_assignment@[i + 1].wf());
        if !input.is_zero() {
            assert(is_valid::<G>(query@[i + 1].enc()));
            let term = query[i + 1].mul(&input);
            acc = acc.add(&term);
        }
        i = i + 1;
    }
    assert(is_valid::<G>(query@[0].enc()));
    acc.add(&query[0])
}

/// `base + share + witness_part + blind · delta`.
pub fn compute_blinded_sum<G: CurveGroup>(
    base: &G,
    share: &G,
    witness_part: &G,
    delta: &G,
    blind: &Scalar,
) -> (r: G)
    requires
        is_valid::<G>(base.enc()),
        is_valid::<G>(share.enc()),
        is_valid::<G>(witness_part.enc()),
        is_valid::<G>(delta.enc()),
        blind.wf(),
    ensures
        r.enc() == blinded_sum::<G>(
            base.enc(),
            share.enc(),
            witness_part.enc(),
            delta.enc(),
            blind@,
        ),
        is_valid::<G>(r.enc()),
{
    let blinding = delta.mul(blind);
    base.add(share).add(witness_part).add(&blinding)
}

/// Assembles the proof from the five multi-scalar multiplications: the
/// shares of the public inputs are computed locally and everything is put
/// together with the blinding scalars.
pub fn assemble_proof(
    pk: &ProvingKey,
    r: &Scalar,
    s: &Scalar,
    full_assignment: &Vec<Scalar>,
    num_pub: usize,
    h_msm: G1Point,
    l_msm: G1Point,
    a_witness_msm: G1Point,
    b_g1_witness_msm: G1Point,
    b_g2_witness_msm: G2Point,
) -> (proof: Proof)
    requires
        pk.wf(),
        r.wf(),
        s.wf(),
        all_wf(full_assignment@),
        1 <= num_pub <= full_assignment@.len(),
        num_pub <= pk.a_query@.len(),
        num_pub <= pk.b_g1_query@.len(),
        num_pub <= pk.b_g2_query@.len(),
        is_valid::<G1Point>(h_msm.enc()),
        is_valid::<G1Point>(l_msm.enc()),
        is_valid::<G1Point>(a_witness_msm.enc()),
        is_valid::<G1Point>(b_g1_witness_msm.enc()),
        is_valid::<G2Point>(b_g2_witness_msm.enc()),
    ensures
        (proof.a.enc(), proof.b.enc(), proof.c.enc()) == proof_of(
            *pk,
            r@,
            s@,
            public_inputs(full_assignment@, num_pub as int),
            MsmResults {
                h: h_msm.enc(),
                l: l_msm.enc(),
                a: a_witness_msm.enc(),
                b_g1: b_g1_witness_msm.enc(),
                b_g2: b_g2_witness_msm.enc(),
            },
        ),
        is_valid::<G1Point>(proof.a.enc()),
        is_valid::<G2Point>(proof.b.enc()),
        is_valid::<G1Point>(proof.c.enc()),
{
    let a_pub = compute_public_share(&pk.a_query, full_assignment, num_pub);
    let b_g1_pub = compute_public_share(&pk.b_g1_query, full_assignment, num_pub);
    let b_g2_pub = compute_public_share(&pk.b_g2_query, full_assignment, num_pub);

    let g_a = compute_blinded_sum(&pk.vk.alpha_g1, &a_pub, &a_witness_msm, &pk.delta_g1, r);
    let g_b = compute_blinded_sum(&pk.vk.beta_g2, &b_g2_pub, &b_g2_witness_msm, &pk.vk.delta_g2, s);
    let g_b_g1 = compute_blinded_sum(&pk.beta_g1, &b_g1_pub, &b_g1_witness_msm, &pk.delta_g1, s);

    let rs = r.mul(s);
    let g_c = h_msm.add(&l_msm).add(&g_a.mul(s)).add(&g_b_g1.mul(r)).sub(&pk.delta_g1.mul(&rs));

    Proof { a: g_a, b: g_b, c: g_c }
}

/// The five decryptions of a response, as encodings.
pub open spec fn decrypted_msms(
    sapk: &ServerAidedProvingKey,
    response: &ServerResponse,
    state: &ClientDecryptionState,
) -> MsmResults {
    MsmResults {
        h: decrypted::<G1Point>(
            response.em_h.enc(),
            sapk.pre_h.pedersen_h.bases(),
            state.lpn_h.noise.entries@,
        ),
        l: decrypted::<G1Point>(
            response.em_l.enc(),
            sapk.pre_l.pedersen_h.bases(),
            state.lpn_l.noise.entries@,
        ),
        a: decrypted::<G1Point>(
            response.em_a.enc(),
            sapk.pre_a.pedersen_h.bases(),
            state.lpn_a.noise.entries@,
        ),
        b_g1: decrypted::<G1Point>(
            response.em_b_g1.enc(),
            sapk.pre_b_g1.pedersen_h.bases(),
            state.lpn_b_g1.noise.entries@,
        ),
        b_g2: decrypted::<G2Point>(
            response.em_b_g2.enc(),
            sapk.pre_b_g2.pedersen_h.bases(),
            state.lpn_b_g2.noise.entries@,
        ),
    }
}

/// Removes the masks from the five answers and assembles the proof.
pub fn client_decrypt(
    sapk: &ServerAidedProvingKey,
    response: &ServerResponse,
    state: &ClientDecryptionState,
) -> (proof: Proof)
    requires
        sapk.wf(),
        response.wf(),
        state.wf(sapk),
        1 <= state.num_instance_variables <= state.full_assignment@.len(),
        state.num_instance_variables <= sapk.pk.a_query@.len(),
        state.num_instance_variables <= sapk.pk.b_g1_query@.len(),
        state.num_instance_variables <= sapk.pk.b_g2_query@.len(),
    ensures
        (proof.a.enc(), proof.b.enc(), proof.c.enc()) == proof_of(
            sapk.pk,
            state.r@,
            state.s@,
            public_inputs(state.full_assignment@, state.num_instance_variables as int),
            decrypted_msms(sapk, response, state),
        ),
        is_valid::<G1Point>(proof.a.enc()),
        is_valid::<G2Point>(proof.b.enc()),
        is_valid::<G1Point>(proof.c.enc()),
{
    let h_msm = decrypt(response.em_h.dup(), &state.lpn_h, &sapk.pre_h);
    let l_msm = decrypt(response.em_l.dup(), &state.lpn_l, &sapk.pre_l);
    let a_witness_msm = decrypt(response.em_a.dup(), &state.lpn_a, &sapk.pre_a);
    let b_g1_witness_msm = decrypt(response.em_b_g1.dup(), &state.lpn_b_g1, &sapk.pre_b_g1);
    let b_g2_witness_msm = decrypt(response.em_b_g2.dup(), &state.lpn_b_g2, &sapk.pre_b_g2);

    assemble_proof(
        &sapk.pk,
        &state.r,
        &state.s,
        &state.full_assignment,
        state.num_instance_variables,
        h_msm,
        l_msm,
        a_witness_msm,
        b_g1_witness_msm,
        b_g2_witness_msm,
    )
}

/// What goes to the server in the checked variant: two masked vectors per
/// slot.
#[derive(Debug)]
pub struct MaliciousEncryptedRequest {
    pub h: MaliciousEncrypted,
    pub l: MaliciousEncrypted,
    pub a: MaliciousEncrypted,
    pub b_g1: MaliciousEncrypted,
    pub b_g2: MaliciousEncrypted,
}

/// What the client keeps in the checked variant.
#[derive(Debug)]
pub struct MaliciousClientState {
    pub r: Scalar,
    pub s: Scalar,
    pub ds_h: MaliciousDecryptState,
    pub ds_l: MaliciousDecryptState,
    pub ds_a: MaliciousDecryptState,
    pub ds_b_g1: MaliciousDecryptState,
    pub ds_b_g2: MaliciousDecryptState,
    pub num_instance_variables: usize,
    pub full_assignment: Vec<Scalar>,
}

/// What comes back in the checked variant: two group elements per slot.
#[derive(Debug)]
pub struct MaliciousServerResponse {
    pub em_h: G1Point,
    pub em_h_ck: G1Point,
    pub em_l: G1Point,
    pub em_l_ck: G1Point,
    pub em_a: G1Point,
    pub em_a_ck: G1Point,
    pub em_b_g1: G1Point,
    pub em_b_g1_ck: G1Point,
    pub em_b_g2: G2Point,
    pub em_b_g2_ck: G2Point,
}

impl MaliciousEncryptedRequest {
    /// Every scalar of the request is reduced.
    pub open spec fn wf(self) -> bool {
        &&& all_wf(self.h.masked@) && all_wf(self.h.masked_check@)
        &&& all_wf(self.l.masked@) && all_wf(self.l.masked_check@)
        &&& all_wf(self.a.masked@) && all_wf(self.a.masked_check@)
        &&& all_wf(self.b_g1.masked@) && all_wf(self.b_g1.masked_check@)
        &&& all_wf(self.b_g2.masked@) && all_wf(self.b_g2.masked_check@)
    }
}

impl MaliciousClientState {
    /// The blinding scalars and the assignment are reduced, and the state of
    /// each slot belongs to the code of that slot.
    pub open spec fn wf(self, sapk: &ServerAidedProvingKey) -> bool {
        &&& self.r.wf()
        &&& self.s.wf()
        &&& all_wf(self.full_assignment@)
        &&& self.ds_h.wf(sapk.emsm_h.t_operator)
        &&& self.ds_l.wf(sapk.emsm_l.t_operator)
        &&& self.ds_a.wf(sapk.emsm_a.t_operator)
        &&& self.ds_b_g1.wf(sapk.emsm_b_g1.t_operator)
        &&& self.ds_b_g2.wf(sapk.emsm_b_g2.t_operator)
    }
}

impl MaliciousServerResponse {
    /// Every answer is a group element.
    pub open spec fn wf(self) -> bool {
        &&& is_valid::<G1Point>(self.em_h.enc()) && is_valid::<G1Point>(self.em_h_ck.enc())
        &&& is_valid::<G1Point>(self.em_l.enc()) && is_valid::<G1Point>(self.em_l_ck.enc())
        &&& is_valid::<G1Point>(self.em_a.enc()) && is_valid::<G1Point>(self.em_a_ck.enc())
        &&& is_valid::<G1Point>(self.em_b_g1.enc()) && is_valid::<G1Point>(self.em_b_g1_ck.enc())
        &&& is_valid::<G2Point>(self.em_b_g2.enc()) && is_valid::<G2Point>(self.em_b_g2_ck.enc())
    }
}

/// The two masked vectors of a slot are `z + r` and `c · z + r'` for the
/// source vector `z`, the challenge `c` and the two masks of the state.
pub open spec fn masks_source(
    enc: MaliciousEncrypted,
    state: MaliciousDecryptState,
    source: Seq<nat>,
) -> bool {
    &&& values(enc.masked@) == add_vectors(source, values(state.lpn.lpn_vector@))
    &&& values(enc.masked_check@) == add_vectors(
        scale_vector(state.challenge@, source),
        values(state.lpn_check.lpn_vector@),
    )
}

/// The challenge and the two noises of the state are what the generator
/// draws for one checked query of the slot, and each noise is regular: one
/// entry per chunk, as many as the sparsity of the slot.
pub open spec fn malicious_slot_draws<G: CurveGroup>(
    params: EmsmPublicParams<G>,
    rng: SeededRng,
    ds: MaliciousDecryptState,
) -> bool {
    let draws = malicious_draws(rng, params.t_operator.big_n, params.t);
    &&& ds.challenge == draws.0
    &&& ds.lpn.noise.entries@ == draws.1
    &&& ds.lpn_check.noise.entries@ == draws.2
    &&& params.t_operator.big_n != 0 ==> regular_noise(
        params.t_operator.big_n as nat,
        params.t as nat,
        ds.lpn.noise.entries@,
    ) && regular_noise(
        params.t_operator.big_n as nat,
        params.t as nat,
        ds.lpn_check.noise.entries@,
    )
}

/// The generator behind the draws of one checked query of the slot.
pub open spec fn after_malicious_slot<G: CurveGroup>(
    params: EmsmPublicParams<G>,
    rng: SeededRng,
) -> SeededRng {
    malicious_draws(rng, params.t_operator.big_n, params.t).3
}

/// Masks the five scalar vectors of a proof, each twice: as it is and
/// scaled by a fresh challenge.
pub fn malicious_client_encrypt(
    sapk: &ServerAidedProvingKey,
    h_poly: &Vec<Scalar>,
    instance: &Vec<Scalar>,
    witness: &Vec<Scalar>,
    rng: &mut SeededRng,
) -> (r: (MaliciousEncryptedRequest, MaliciousClientState))
    requires
        sapk.wf(),
        all_wf(h_poly@),
        all_wf(instance@),
        all_wf(witness@),
        instance@.len() + witness@.len() <= usize::MAX,
    ensures
        r.0.wf(),
        r.1.wf(sapk),
        r.1.num_instance_variables == instance@.len(),
        r.1.full_assignment@ == instance@ + witness@,
        ({
            let r0 = *old(rng);
            let r1 = after_scalar(r0);
            let r2 = after_scalar(r1);
            let r3 = after_malicious_slot(sapk.emsm_h, r2);
            let r4 = after_malicious_slot(sapk.emsm_l, r3);
            let r5 = after_malicious_slot(sapk.emsm_a, r4);
            let r6 = after_malicious_slot(sapk.emsm_b_g1, r5);
            &&& r.1.r == next_scalar(r0)
            &&& r.1.s == next_scalar(r1)
            &&& malicious_slot_draws(sapk.emsm_h, r2, r.1.ds_h)
            &&& malicious_slot_draws(sapk.emsm_l, r3, r.1.ds_l)
            &&& malicious_slot_draws(sapk.emsm_a, r4, r.1.ds_a)
            &&& malicious_slot_draws(sapk.emsm_b_g1, r5, r.1.ds_b_g1)
            &&& malicious_slot_draws(sapk.emsm_b_g2, r6, r.1.ds_b_g2)
            &&& *final(rng) == after_malicious_slot(sapk.emsm_b_g2, r6)
        }),
        masks_source(r.0.h, r.1.ds_h, padded(values(h_poly@), sapk.emsm_h.generators@.len())),
        masks_source(r.0.l, r.1.ds_l, padded(values(witness@), sapk.emsm_l.generators@.len())),
        masks_source(r.0.a, r.1.ds_a, padded(values(witness@), sapk.emsm_a.generators@.len())),
        masks_source(
            r.0.b_g1,
            r.1.ds_b_g1,
            padded(values(witness@), sapk.emsm_b_g1.generators@.len()),
        ),
        masks_source(
            r.0.b_g2,
            r.1.ds_b_g2,
            padded(values(witness@), sapk.emsm_b_g2.generators@.len()),
        ),
{
    let num_instance_variables: usize = instance.len();
    let full_assignment = join_assignment(instance, witness);
    assert(all_wf(full_assignment@)) by {
        assert forall|i: int| 0 <= i < full_assignment@.len() implies (
        #[trigger] full_assignment@[i]).wf() by {
            if i < instance@.len() {
                assert(full_assignment@[i] == instance@[i]);
            } else {
                assert(full_assignment@[i] == witness@[i - instance@.len()]);
            }
        }
    }

    let r = Scalar::rand(rng);
    let s = Scalar::rand(rng);

    let h_scalars = pad_or_trim(h_poly, sapk.emsm_h.generators.len());
    let (enc_h, ds_h) = malicious_encrypt(&sapk.emsm_h, &h_scalars, rng);

    let l_scalars = pad_or_trim(witness, sapk.emsm_l.generators.len());
    let (enc_l, ds_l) = malicious_encrypt(&sapk.emsm_l, &l_scalars, rng);

    let a_scalars = pad_or_trim(witness, sapk.emsm_a.generators.len());
    let (enc_a, ds_a) = malicious_encrypt(&sapk.emsm_a, &a_scalars, rng);

    let b_g1_scalars = pad_or_trim(witness, sapk.emsm_b_g1.generators.len());
    let (enc_b_g1, ds_b_g1) = malicious_encrypt(&sapk.emsm_b_g1, &b_g1_scalars, rng);

    let b_g2_scalars = pad_or_trim(witness, sapk.emsm_b_g2.generators.len());
    let (enc_b_g2, ds_b_g2) = malicious_encrypt(&sapk.emsm_b_g2, &b_g2_scalars, rng);

    let request = MaliciousEncryptedRequest {
        h: enc_h,
        l: enc_l,
        a: enc_a,
        b_g1: enc_b_g1,
        b_g2: enc_b_g2,
    };
    let state = MaliciousClientState {
        r,
        s,
        ds_h,
        ds_l,
        ds_a,
        ds_b_g1,
        ds_b_g2,
        num_instance_variables,
        full_assignment,
    };
    (request, state)
}

/// The mismatches of the ten vectors of a checked request, slot by slot,
/// the query before its check.
pub open spec fn malicious_mismatches(
    sapk: &ServerAidedProvingKey,
    request: &MaliciousEncryptedRequest,
) -> Seq<Option<PedersenError>> {
    seq![
        mismatch(request.h.masked@.len(), sapk.emsm_h.generators@.len()),
        mismatch(request.h.masked_check@.len(), sapk.emsm_h.generators@.len()),
        mismatch(request.l.masked@.len(), sapk.emsm_l.generators@.len()),
        mismatch(request.l.masked_check@.len(), sapk.emsm_l.generators@.len()),
        mismatch(request.a.masked@.len(), sapk.emsm_a.generators@.len()),
        mismatch(request.a.masked_check@.len(), sapk.emsm_a.generators@.len()),
        mismatch(request.b_g1.masked@.len(), sapk.emsm_b_g1.generators@.len()),
        mismatch(request.b_g1.masked_check@.len(), sapk.emsm_b_g1.generators@.len()),
        mismatch(request.b_g2.masked@.len(), sapk.emsm_b_g2.generators@.len()),
        mismatch(request.b_g2.masked_check@.len(), sapk.emsm_b_g2.generators@.len()),
    ]
}

/// What the server computes in the checked variant: ten plain multi-scalar
/// multiplications. The first vector whose length differs from its slot's
/// gives the error.
pub fn malicious_server_evaluate_groth16(
    sapk: &ServerAidedProvingKey,
    request: &MaliciousEncryptedRequest,
) -> (r: Result<MaliciousServerResponse, PedersenError>)
    requires
        generators_valid(sapk),
        request.wf(),
    ensures
        r.is_err() <==> first_error(malicious_mismatches(sapk, request)).is_some(),
        r.is_err() ==> Some(r.unwrap_err()) == first_error(malicious_mismatches(sapk, request)),
        r.is_ok() ==> {
            let resp = r.unwrap();
            &&& resp.wf()
            &&& resp.em_h.enc() == msm_of::<G1Point>(sapk.emsm_h.bases(), values(request.h.masked@))
            &&& resp.em_h_ck.enc() == msm_of::<G1Point>(
                sapk.emsm_h.bases(),
                values(request.h.masked_check@),
            )
            &&& resp.em_l.enc() == msm_of::<G1Point>(sapk.emsm_l.bases(), values(request.l.masked@))
            &&& resp.em_l_ck.enc() == msm_of::<G1Point>(
                sapk.emsm_l.bases(),
                values(request.l.masked_check@),
            )
            &&& resp.em_a.enc() == msm_of::<G1Point>(sapk.emsm_a.bases(), values(request.a.masked@))
            &&& resp.em_a_ck.enc() == msm_of::<G1Point>(
                sapk.emsm_a.bases(),
                values(request.a.masked_check@),
            )
            &&& resp.em_b_g1.enc() == msm_of::<G1Point>(
                sapk.emsm_b_g1.bases(),
                values(request.b_g1.masked@),
            )
            &&& resp.em_b_g1_ck.enc() == msm_of::<G1Point>(
                sapk.emsm_b_g1.bases(),
                values(request.b_g1.masked_check@),
            )
            &&& resp.em_b_g2.enc() == msm_of::<G2Point>(
                sapk.emsm_b_g2.bases(),
                values(request.b_g2.masked@),
            )
            &&& resp.em_b_g2_ck.enc() == msm_of::<G2Point>(
                sapk.emsm_b_g2.bases(),
                values(request.b_g2.masked_check@),
            )
        },
{
    let ghost errors = malicious_mismatches(sapk, request);
    let em_h = match sapk.emsm_h.server_computation(&request.h.masked) {
        Ok(p) => p,
        Err(e) => {
            proof {
                lemma_first_error_skips(errors, 0);
            }
            return Err(e);
        },
    };
    let em_h_ck = match sapk.emsm_h.server_computation(&request.h.masked_check) {
        Ok(p) => p,
        Err(e) => {
            proof {
                lemma_first_error_skips(errors, 1);
            }
            return Err(e);
        },
    };
    let em_l = match sapk.emsm_l.server_computation(&request.l.masked) {
        Ok(p) => p,
        Err(e) => {
            proof {
                lemma_first_error_skips(errors, 2);
            }
            return Err(e);
        },
    };
    let em_l_ck = match sapk.emsm_l.server_computation(&request.l.masked_check) {
        Ok(p) => p,
        Err(e) => {
            proof {
                lemma_first_error_skips(errors, 3);
            }
            return Err(e);
        },
    };
    let em_a = match sapk.emsm_a.server_computation(&request.a.masked) {
        Ok(p) => p,
        Err(e) => {
            proof {
                lemma_first_error_skips(errors, 4);
            }
            return Err(e);
        },
    };
    let em_a_ck = match sapk.emsm_a.server_computation(&request.a.masked_check) {
        Ok(p) => p,
        Err(e) => {
            proof {
                lemma_first_error_skips(errors, 5);
            }
            return Err(e);
        },
    };
    let em_b_g1 = match sapk.emsm_b_g1.server_computation(&request.b_g1.masked) {
        Ok(p) => p,
        Err(e) => {
            proof {
                lemma_first_error_skips(errors, 6);
            }
            return Err(e);
        },
    };
    let em_b_g1_ck = match sapk.emsm_b_g1.server_computation(&request.b_g1.masked_check) {
        Ok(p) => p,
        Err(e) => {
            proof {
                lemma_first_error_skips(errors, 7);
            }
            return Err(e);
        },
    };
    let em_b_g2 = match sapk.emsm_b_g2.server_computation(&request.b_g2.masked) {
        Ok(p) => p,
        Err(e) => {
            proof {
                lemma_first_error_skips(errors, 8);
            }
            return Err(e);
        },
    };
    let em_b_g2_ck = match sapk.emsm_b_g2.server_computation(&request.b_g2.masked_check) {
        Ok(p) => p,
        Err(e) => {
            proof {
                lemma_first_error_skips(errors, 9);
            }
            return Err(e);
        },
    };
    proof {
        lemma_first_error_skips(errors, 10);
    }
    Ok(
        MaliciousServerResponse {
            em_h,
            em_h_ck,
            em_l,
            em_l_ck,
            em_a,
            em_a_ck,
            em_b_g1,
            em_b_g1_ck,
            em_b_g2,
            em_b_g2_ck,
        },
    )
}

/// The decryption of the query of one slot.
pub open spec fn slot_main<G: GroupModel>(
    em: Seq<u8>,
    ds: MaliciousDecryptState,
    h: Seq<Seq<u8>>,
) -> Seq<u8> {
    decrypted::<G>(em, h, ds.lpn.noise.entries@)
}

/// Whether the two answers of one slot fit together: the decrypted check is
/// the challenge times the decrypted query.
pub open spec fn slot_consistent<G: GroupModel>(
    em: Seq<u8>,
    em_ck: Seq<u8>,
    ds: MaliciousDecryptState,
    h: Seq<Seq<u8>>,
) -> bool {
    consistent::<G>(
        slot_main::<G>(em, ds, h),
        decrypted::<G>(em_ck, h, ds.lpn_check.noise.entries@),
        ds.challenge@,
    )
}

/// Whether the answers of all five slots fit together.
pub open spec fn response_consistent(
    sapk: &ServerAidedProvingKey,
    response: &MaliciousServerResponse,
    state: &MaliciousClientState,
) -> bool {
    &&& slot_consistent::<G1Point>(
        response.em_h.enc(),
        response.em_h_ck.enc(),
        state.ds_h,
        sapk.pre_h.pedersen_h.bases(),
    )
    &&& slot_consistent::<G1Point>(
        response.em_l.enc(),
        response.em_l_ck.enc(),
        state.ds_l,
        sapk.pre_l.pedersen_h.bases(),
    )
    &&& slot_consistent::<G1Point>(
        response.em_a.enc(),
        response.em_a_ck.enc(),
        state.ds_a,
        sapk.pre_a.pedersen_h.bases(),
    )
    &&& slot_consistent::<G1Point>(
        response.em_b_g1.enc(),
        response.em_b_g1_ck.enc(),
        state.ds_b_g1,
        sapk.pre_b_g1.pedersen_h.bases(),
    )
    &&& slot_consistent::<G2Point>(
        response.em_b_g2.enc(),
        response.em_b_g2_ck.enc(),
        state.ds_b_g2,
        sapk.pre_b_g2.pedersen_h.bases(),
    )
}

/// The five decrypted queries of a checked response, as encodings.
pub open spec fn malicious_decrypted_msms(
    sapk: &ServerAidedProvingKey,
    response: &MaliciousServerResponse,
    state: &MaliciousClientState,
) -> MsmResults {
    MsmResults {
        h: slot_main::<G1Point>(response.em_h.enc(), state.ds_h, sapk.pre_h.pedersen_h.bases()),
        l: slot_main::<G1Point>(response.em_l.enc(), state.ds_l, sapk.pre_l.pedersen_h.bases()),
        a: slot_main::<G1Point>(response.em_a.enc(), state.ds_a, sapk.pre_a.pedersen_h.bases()),
        b_g1: slot_main::<G1Point>(
            response.em_b_g1.enc(),
            state.ds_b_g1,
            sapk.pre_b_g1.pedersen_h.bases(),
        ),
        b_g2: slot_main::<G2Point>(
            response.em_b_g2.enc(),
            state.ds_b_g2,
            sapk.pre_b_g2.pedersen_h.bases(),
        ),
    }
}

/// Checks the answers of every slot, removes the masks and assembles the
/// proof. Where the answers of a slot do not fit together, nothing is
/// assembled.
pub fn malicious_client_decrypt(
    sapk: &ServerAidedProvingKey,
    response: &MaliciousServerResponse,
    state: &MaliciousClientState,
) -> (r: Result<Proof, MaliciousError>)
    requires
        sapk.wf(),
        response.wf(),
        state.wf(sapk),
        response_consistent(sapk, response, state) ==> {
            &&& 1 <= state.num_instance_variables <= state.full_assignment@.len()
            &&& state.num_instance_variables <= sapk.pk.a_query@.len()
            &&& state.num_instance_variables <= sapk.pk.b_g1_query@.len()
            &&& state.num_instance_variables <= sapk.pk.b_g2_query@.len()
        },
    ensures
        r.is_ok() <==> response_consistent(sapk, response, state),
        r.is_err() ==> r == Err::<Proof, MaliciousError>(MaliciousError::ConsistencyCheckFailed),
        r.is_ok() ==> {
            let proof = r.unwrap();
            &&& (proof.a.enc(), proof.b.enc(), proof.c.enc()) == proof_of(
                sapk.pk,
                state.r@,
                state.s@,
                public_inputs(state.full_assignment@, state.num_instance_variables as int),
                malicious_decrypted_msms(sapk, response, state),
            )
            &&& is_valid::<G1Point>(proof.a.enc())
            &&& is_valid::<G2Point>(proof.b.enc())
            &&& is_valid::<G1Point>(proof.c.enc())
        },
{
    let h_msm = match malicious_decrypt(
        response.em_h.dup(),
        response.em_h_ck.dup(),
        &state.ds_h,
        &sapk.pre_h,
    ) {
        Ok(p) => p,
        Err(e) => {
            return Err(e);
        },
    };
    let l_msm = match malicious_decrypt(
        response.em_l.dup(),
        response.em_l_ck.dup(),
        &state.ds_l,
        &sapk.pre_l,
    ) {
        Ok(p) => p,
        Err(e) => {
            return Err(e);
        },
    };
    let a_witness_msm = match malicious_decrypt(
        response.em_a.dup(),
        response.em_a_ck.dup(),
        &state.ds_a,
        &sapk.pre_a,
    ) {
        Ok(p) => p,
        Err(e) => {
            return Err(e);
        },
    };
    let b_g1_witness_msm = match malicious_decrypt(
        response.em_b_g1.dup(),
        response.em_b_g1_ck.dup(),
        &state.ds_b_g1,
        &sapk.pre_b_g1,
    ) {
        Ok(p) => p,
        Err(e) => {
            return Err(e);
        },
    };
    let b_g2_witness_msm = match malicious_decrypt(
        response.em_b_g2.dup(),
        response.em_b_g2_ck.dup(),
        &state.ds_b_g2,
        &sapk.pre_b_g2,
    ) {
        Ok(p) => p,
        Err(e) => {
            return Err(e);
        },
    };

    Ok(
        assemble_proof(
            &sapk.pk,
            &state.r,
            &state.s,
            &state.full_assignment,
            state.num_instance_variables,
            h_msm,
            l_msm,
            a_witness_msm,
            b_g1_witness_msm,
            b_g2_witness_msm,
        ),
    )
}

} // verus!
