//! The encrypted multi-scalar multiplication: setup, encrypt, the server's
//! computation, and decrypt.

use vstd::prelude::*;
use crate::emsm::dual_lpn::{add_vectors, DualLPNInstance};
use crate::emsm::params::{get_lpn_params, lpn_sparsity};
use crate::emsm::pedersen::{dup_all, sparse_msm, Pedersen, PedersenError};
use crate::emsm::raa_code::{sampled_code, TOperator};
use crate::emsm::sparse_vec::{regular_noise, sampled_noise};
use crate::group::{is_valid, all_valid, encodings, msm_of, CurveGroup, GroupModel};
use crate::rng::SeededRng;
use crate::scalar::{all_wf, values, Scalar};

verus! {

/// The public parameters of one instance: the code, the generators and the
/// sparsity of the noise.
#[derive(Clone, Debug)]
pub struct EmsmPublicParams<G: CurveGroup> {
    /// The code that makes masks out of noise.
    pub t_operator: TOperator,
    /// The generators `g`, one per scalar.
    pub generators: Vec<G>,
    /// The number of entries of a noise vector.
    pub t: usize,
}

/// The commitments `h = Tᵀ · g`, computed once and used at every decryption.
#[derive(Clone, Debug)]
pub struct PreprocessedCommitments<G: CurveGroup> {
    /// `h`, of length `N`.
    pub h: Vec<G>,
    /// The same `h`, to commit sparse vectors against.
    pub pedersen_h: Pedersen<G>,
}

impl<G: CurveGroup> EmsmPublicParams<G> {
    /// The code maps to as many scalars as there are generators, every
    /// generator is a group element, and the sparsity is the table's.
    pub open spec fn wf(self) -> bool {
        &&& self.t_operator.wf()
        &&& self.generators@.len() == self.t_operator.n
        &&& all_valid(self.generators@)
        &&& self.t == lpn_sparsity(self.t_operator.n as nat)
    }

    /// The generators as encodings.
    pub open spec fn bases(self) -> Seq<Seq<u8>> {
        encodings(self.generators@)
    }

    /// The parameters over the given generators, with a fresh code.
    pub fn new(generators: Vec<G>, rng: &mut SeededRng) -> (r: Self)
        requires
            4 * generators@.len() <= usize::MAX,
            all_valid(generators@),
        ensures
            r.generators == generators,
            r.wf(),
            r.t_operator.sampled_from(*old(rng), generators@.len() as usize),
            *final(rng) == sampled_code(*old(rng), generators@.len() as usize).2,
    {
        let n: usize = generators.len();
        let params = get_lpn_params(n);
        let t_operator = TOperator::rand(n, rng);
        EmsmPublicParams { t_operator, generators, t: params.t }
    }

    /// `h = Tᵀ · g`, of length `N`.
    pub fn preprocess(&self) -> (r: PreprocessedCommitments<G>)
        requires
            self.wf(),
        ensures
            r.wf(self),
    {
        let h: Vec<G> = self.t_operator.multiply_transpose_group(&self.generators);
        let h_copy: Vec<G> = dup_all(&h);
        let pedersen_h = Pedersen::from_generators(h_copy);
        PreprocessedCommitments { h, pedersen_h }
    }

    /// What the server computes: the plain inner product of the masked
    /// scalars with the generators.
    pub fn server_computation(&self, masked_scalars: &Vec<Scalar>) -> (r: Result<G, PedersenError>)
        requires
            all_valid(self.generators@),
            all_wf(masked_scalars@),
        ensures
            masked_scalars@.len() == self.generators@.len() ==> r.is_ok() && r.unwrap().enc()
                == msm_of::<G>(self.bases(), values(masked_scalars@)) && is_valid::<G>(
                r.unwrap().enc(),
            ),
            masked_scalars@.len() != self.generators@.len() ==> r == Err::<G, PedersenError>(
                PedersenError::LengthMismatch {
                    scalars: masked_scalars@.len() as usize,
                    generators: self.generators@.len() as usize,
                },
            ),
    {
        let ped = Pedersen::<G>::from_generators(dup_all(&self.generators));
        ped.commit(masked_scalars)
    }
}

impl<G: CurveGroup> PreprocessedCommitments<G> {
    /// `h` is `Tᵀ · g` for the generators of `params`, and is held twice.
    pub open spec fn wf(self, params: &EmsmPublicParams<G>) -> bool {
        &&& encodings(self.h@) == params.t_operator.transpose::<G>(params.bases())
        &&& self.pedersen_h.bases() == encodings(self.h@)
        &&& self.h@.len() == params.t_operator.big_n
        &&& self.pedersen_h.generators@.len() == params.t_operator.big_n
        &&& self.pedersen_h.wf()
    }
}

/// Masks a witness: samples a fresh instance `(e, r = T · e)` and returns
/// `z + r` with it.
pub fn encrypt<G: CurveGroup>(
    params: &EmsmPublicParams<G>,
    witness: &Vec<Scalar>,
    rng: &mut SeededRng,
) -> (r: (Vec<Scalar>, DualLPNInstance))
    requires
        params.wf(),
        witness@.len() == params.generators@.len(),
        all_wf(witness@),
    ensures
        r.1.wf(params.t_operator),
        (r.1.noise.entries@, *final(rng)) == sampled_noise(
            *old(rng),
            params.t_operator.big_n,
            params.t,
        ),
        params.t_operator.big_n != 0 ==> regular_noise(
            params.t_operator.big_n as nat,
            params.t as nat,
            r.1.noise.entries@,
        ),
        values(r.0@) == add_vectors(values(witness@), values(r.1.lpn_vector@)),
        r.0@.len() == witness@.len(),
        all_wf(r.0@),
{
    let lpn = DualLPNInstance::sample(&params.t_operator, params.t, rng);
    let masked = lpn.mask_witness(witness);
    assert(values(masked@).len() == masked@.len());
    (masked, lpn)
}

/// Removes the noise from the server's answer: `server_result − ⟨e, h⟩`.
pub fn decrypt<G: CurveGroup>(
    server_result: G,
    lpn: &DualLPNInstance,
    preprocessed: &PreprocessedCommitments<G>,
) -> (r: G)
    requires
        is_valid::<G>(server_result.enc()),
        lpn.noise.wf(),
        preprocessed.pedersen_h.wf(),
        lpn.noise.size <= preprocessed.pedersen_h.generators@.len(),
    ensures
        r.enc() == decrypted::<G>(
            server_result.enc(),
            preprocessed.pedersen_h.bases(),
            lpn.noise.entries@,
        ),
        is_valid::<G>(r.enc()),
{
    let noise_contribution = preprocessed.pedersen_h.commit_sparse(&lpn.noise);
    server_result.sub(&noise_contribution)
}

/// The answer less the noise's share `⟨e, h⟩`.
pub open spec fn decrypted<G: GroupModel>(
    server_result: Seq<u8>,
    h: Seq<Seq<u8>>,
    noise: Seq<(usize, Scalar)>,
) -> Seq<u8> {
    G::diff(server_result, sparse_msm::<G>(h, noise))
}

} // verus!
