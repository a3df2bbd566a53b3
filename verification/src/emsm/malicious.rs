//! The variant that detects a cheating server: every query is sent twice,
//! once as it is and once scaled by a secret challenge.

use vstd::prelude::*;
use crate::emsm::dual_lpn::{add_vectors, DualLPNInstance};
use crate::emsm::emsm::{decrypt, decrypted, encrypt, EmsmPublicParams, PreprocessedCommitments};
use crate::emsm::pedersen::PedersenError;
use crate::emsm::sparse_vec::{regular_noise, sampled_noise};
use crate::group::{is_valid, all_valid, msm_of, CurveGroup, GroupModel};
use crate::rng::SeededRng;
use crate::scalar::{after_scalar, all_wf, fmul, next_scalar, values, Scalar};

verus! {

/// Why a decryption was refused.
#[derive(Debug, Clone, Copy, PartialEq, Eq, Structural)]
pub enum MaliciousError {
    /// The two answers of the server do not fit together.
    ConsistencyCheckFailed,
}

impl MaliciousError {
    /// What went wrong, in words.
    pub fn message(&self) -> (r: String)
        ensures
            r@ == "server cheated: consistency check failed"@,
    {
        "server cheated: consistency check failed".to_owned()
    }
}

/// The two masked vectors of one query.
#[derive(Debug)]
pub struct MaliciousEncrypted {
    /// `z + r`.
    pub masked: Vec<Scalar>,
    /// `c · z + r'`.
    pub masked_check: Vec<Scalar>,
}

/// What the client keeps to decrypt and check one query.
#[derive(Debug)]
pub struct MaliciousDecryptState {
    /// The challenge `c`.
    pub challenge: Scalar,
    /// The instance that masks the query.
    pub lpn: DualLPNInstance,
    /// The instance that masks the check.
    pub lpn_check: DualLPNInstance,
}

/// The vector `c · z` in the field.
pub open spec fn scale_vector(c: nat, z: Seq<nat>) -> Seq<nat> {
    Seq::new(z.len(), |i: int| fmul(c, z[i]))
}

/// The witness scaled by the challenge.
pub fn scale_witness(challenge: &Scalar, witness: &Vec<Scalar>) -> (out: Vec<Scalar>)
    requires
        challenge.wf(),
        all_wf(witness@),
    ensures
        values(out@) == scale_vector(challenge@, values(witness@)),
        out@.len() == witness@.len(),
        all_wf(out@),
{
    let mut out: Vec<Scalar> = Vec::new();
    let mut i: usize = 0;
    while i < witness.len()
        invariant
            i <= witness@.len(),
            challenge.wf(),
            all_wf(witness@),
            out@.len() == i,
            all_wf(out@),
            forall|k: int| 0 <= k < i ==> (#[trigger] out@[k])@ == fmul(challenge@, witness@[k]@),
        decreases witness@.len() - i,
    {
        let zi: Scalar = witness[i];
        out.push(challenge.mul(&zi));
        i = i + 1;
    }
    assert(values(out@) =~= scale_vector(challenge@, values(witness@)));
    out
}

/// What the generator gives to one checked query over a code with noise
/// length `big_n` and sparsity `t`: first the challenge, then the noise of the
/// query, then the noise of the check; and the generator behind the draws.
pub open spec fn malicious_draws(rng: SeededRng, big_n: usize, t: usize) -> (
    Scalar,
    Seq<(usize, Scalar)>,
    Seq<(usize, Scalar)>,
    SeededRng,
) {
    let first = sampled_noise(after_scalar(rng), big_n, t);
    let second = sampled_noise(first.1, big_n, t);
    (next_scalar(rng), first.0, second.0, second.1)
}

/// Masks a witness twice, with independent noise: `z` itself and `c · z` for
/// a fresh challenge `c`.
pub fn malicious_encrypt<G: CurveGroup>(
    params: &EmsmPublicParams<G>,
    witness: &Vec<Scalar>,
    rng: &mut SeededRng,
) -> (r: (MaliciousEncrypted, MaliciousDecryptState))
    requires
        params.wf(),
        witness@.len() == params.generators@.len(),
        all_wf(witness@),
    ensures
        r.1.wf(params.t_operator),
        (r.1.challenge, r.1.lpn.noise.entries@, r.1.lpn_check.noise.entries@, *final(rng))
            == malicious_draws(*old(rng), params.t_operator.big_n, params.t),
        params.t_operator.big_n != 0 ==> regular_noise(
            params.t_operator.big_n as nat,
            params.t as nat,
            r.1.lpn.noise.entries@,
        ) && regular_noise(
            params.t_operator.big_n as nat,
            params.t as nat,
            r.1.lpn_check.noise.entries@,
        ),
        values(r.0.masked@) == add_vectors(values(witness@), values(r.1.lpn.lpn_vector@)),
        values(r.0.masked_check@) == add_vectors(
            scale_vector(r.1.challenge@, values(witness@)),
            values(r.1.lpn_check.lpn_vector@),
        ),
        r.0.masked@.len() == witness@.len(),
        r.0.masked_check@.len() == witness@.len(),
        all_wf(r.0.masked@),
        all_wf(r.0.masked_check@),
{
    let challenge = Scalar::rand(rng);
    let (masked, lpn) = encrypt(params, witness, rng);
    let c_witness = scale_witness(&challenge, witness);
    let (masked_check, lpn_check) = encrypt(params, &c_witness, rng);
    let encrypted = MaliciousEncrypted { masked, masked_check };
    let state = MaliciousDecryptState { challenge, lpn, lpn_check };
    (encrypted, state)
}

impl MaliciousDecryptState {
    /// The challenge is reduced and both instances belong to the code.
    pub open spec fn wf(self, t_operator: crate::emsm::raa_code::TOperator) -> bool {
        &&& self.challenge.wf()
        &&& self.lpn.wf(t_operator)
        &&& self.lpn_check.wf(t_operator)
    }
}

/// What the server computes: the inner product of each of the two masked
/// vectors with the generators.
pub fn malicious_server_evaluate<G: CurveGroup>(
    params: &EmsmPublicParams<G>,
    encrypted: &MaliciousEncrypted,
) -> (r: Result<(G, G), PedersenError>)
    requires
        all_valid(params.generators@),
        all_wf(encrypted.masked@),
        all_wf(encrypted.masked_check@),
    ensures
        r.is_ok() <==> encrypted.masked@.len() == params.generators@.len()
            && encrypted.masked_check@.len() == params.generators@.len(),
        r.is_ok() ==> {
            &&& r.unwrap().0.enc() == msm_of::<G>(params.bases(), values(encrypted.masked@))
            &&& r.unwrap().1.enc() == msm_of::<G>(params.bases(), values(encrypted.masked_check@))
            &&& is_valid::<G>(r.unwrap().0.enc())
            &&& is_valid::<G>(r.unwrap().1.enc())
        },
        encrypted.masked@.len() != params.generators@.len() ==> r == Err::<(G, G), PedersenError>(
            PedersenError::LengthMismatch {
                scalars: encrypted.masked@.len() as usize,
                generators: params.generators@.len() as usize,
            },
        ),
        encrypted.masked@.len() == params.generators@.len() && encrypted.masked_check@.len()
            != params.generators@.len() ==> r == Err::<(G, G), PedersenError>(
            PedersenError::LengthMismatch {
                scalars: encrypted.masked_check@.len() as usize,
                generators: params.generators@.len() as usize,
            },
        ),
{
    let em = match params.server_computation(&encrypted.masked) {
        Ok(em) => em,
        Err(e) => {
            return Err(e);
        },
    };
    let em_ck = match params.server_computation(&encrypted.masked_check) {
        Ok(em_ck) => em_ck,
        Err(e) => {
            return Err(e);
        },
    };
    Ok((em, em_ck))
}

/// Whether the decrypted check is the challenge times the decrypted answer.
pub open spec fn consistent<G: GroupModel>(dm: Seq<u8>, dm_ck: Seq<u8>, challenge: nat) -> bool {
    dm_ck == G::scale(dm, challenge)
}

/// Decrypts both answers and returns the first if the second is the
/// challenge times the first; refuses otherwise.
pub fn malicious_decrypt<G: CurveGroup>(
    server_result: G,
    server_result_check: G,
    state: &MaliciousDecryptState,
    preprocessed: &PreprocessedCommitments<G>,
) -> (r: Result<G, MaliciousError>)
    requires
        is_valid::<G>(server_result.enc()),
        is_valid::<G>(server_result_check.enc()),
        state.challenge.wf(),
        state.lpn.noise.wf(),
        state.lpn_check.noise.wf(),
        preprocessed.pedersen_h.wf(),
        state.lpn.noise.size <= preprocessed.pedersen_h.generators@.len(),
        state.lpn_check.noise.size <= preprocessed.pedersen_h.generators@.len(),
    ensures
        ({
            let h = preprocessed.pedersen_h.bases();
            let dm = decrypted::<G>(server_result.enc(), h, state.lpn.noise.entries@);
            let dm_ck = decrypted::<G>(
                server_result_check.enc(),
                h,
                state.lpn_check.noise.entries@,
            );
            if consistent::<G>(dm, dm_ck, state.challenge@) {
                r.is_ok() && r.unwrap().enc() == dm && is_valid::<G>(dm)
            } else {
                r == Err::<G, MaliciousError>(MaliciousError::ConsistencyCheckFailed)
            }
        }),
{
    let dm = decrypt(server_result, &state.lpn, preprocessed);
    let dm_ck = decrypt(server_result_check, &state.lpn_check, preprocessed);
    let expected_ck = dm.mul(&state.challenge);
    if !dm_ck.same(&expected_ck) {
        return Err(MaliciousError::ConsistencyCheckFailed);
    }
    Ok(dm)
}

} // verus!
