use ark_bn254::{Bn254, Fr};
use ark_ec::CurveGroup as ArkCurveGroup;
use ark_ff::{BigInt, PrimeField};
use ark_groth16::r1cs_to_qap::{LibsnarkReduction, R1CSToQAP};
use ark_groth16::Groth16;
use ark_poly::GeneralEvaluationDomain;
use ark_relations::r1cs::{
    ConstraintSynthesizer, ConstraintSystem, ConstraintSystemRef, LinearCombination,
    OptimizationGoal, SynthesisError, SynthesisMode, Variable,
};
use ark_serialize::{CanonicalDeserialize, CanonicalSerialize};
use ark_snark::SNARK;
use core::ops::Deref;
use rand::SeedableRng;
use rand_chacha::ChaCha20Rng;
use stealthsnark::emsm::malicious::MaliciousError;
use stealthsnark::emsm::pedersen::PedersenError;
use stealthsnark::group::{CurveGroup, G1Point, G2Point};
use stealthsnark::groth16::server_aided::{
    assemble_proof, client_decrypt, client_encrypt, compute_public_share, join_assignment,
    malicious_client_decrypt, malicious_client_encrypt, malicious_server_evaluate_groth16,
    pad_or_trim, server_evaluate, tail_from, Proof, ProvingKey, ServerAidedProvingKey,
    VerifyingKey,
};
use stealthsnark::rng::SeededRng;
use stealthsnark::scalar::Scalar;

/// The circuit `x^3 + x + 5 = y` with private `x` and public `y`.
#[derive(Clone)]
struct CubeCircuit {
    x: Option<Fr>,
}

impl ConstraintSynthesizer<Fr> for CubeCircuit {
    fn generate_constraints(self, cs: ConstraintSystemRef<Fr>) -> Result<(), SynthesisError> {
        let x = cs.new_witness_variable(|| self.x.ok_or(SynthesisError::AssignmentMissing))?;
        let x_val = self.x;
        let x2_val = x_val.map(|x| x * x);
        let x2 = cs.new_witness_variable(|| x2_val.ok_or(SynthesisError::AssignmentMissing))?;
        cs.enforce_constraint(
            LinearCombination::zero() + x,
            LinearCombination::zero() + x,
            LinearCombination::zero() + x2,
        )?;
        let x3_val = x2_val.and_then(|x2| x_val.map(|x| x2 * x));
        let x3 = cs.new_witness_variable(|| x3_val.ok_or(SynthesisError::AssignmentMissing))?;
        cs.enforce_constraint(
            LinearCombination::zero() + x2,
            LinearCombination::zero() + x,
            LinearCombination::zero() + x3,
        )?;
        let y_val = x3_val.and_then(|x3| x_val.map(|x| x3 + x + Fr::from(5u64)));
        let y = cs.new_input_variable(|| y_val.ok_or(SynthesisError::AssignmentMissing))?;
        cs.enforce_constraint(
            LinearCombination::zero() + x3 + x + (Fr::from(5u64), Variable::One),
            LinearCombination::zero() + Variable::One,
            LinearCombination::zero() + y,
        )?;
        Ok(())
    }
}

fn to_scalar(x: &Fr) -> Scalar {
    let l = x.into_bigint().0;
    Scalar { l0: l[0], l1: l[1], l2: l[2], l3: l[3] }
}

fn to_fr(s: &Scalar) -> Fr {
    Fr::from_bigint(BigInt::new([s.l0, s.l1, s.l2, s.l3])).unwrap()
}

fn g1(p: &ark_bn254::G1Affine) -> G1Point {
    let mut bytes = Vec::new();
    p.serialize_compressed(&mut bytes).unwrap();
    G1Point { bytes }
}

fn g2(p: &ark_bn254::G2Affine) -> G2Point {
    let mut bytes = Vec::new();
    p.serialize_compressed(&mut bytes).unwrap();
    G2Point { bytes }
}

fn ark_g1(p: &G1Point) -> ark_bn254::G1Affine {
    ark_bn254::G1Affine::deserialize_compressed(&p.bytes[..]).unwrap()
}

fn ark_g2(p: &G2Point) -> ark_bn254::G2Affine {
    ark_bn254::G2Affine::deserialize_compressed(&p.bytes[..]).unwrap()
}

fn convert_key(pk: &ark_groth16::ProvingKey<Bn254>) -> ProvingKey {
    ProvingKey {
        vk: VerifyingKey {
            alpha_g1: g1(&pk.vk.alpha_g1),
            beta_g2: g2(&pk.vk.beta_g2),
            gamma_g2: g2(&pk.vk.gamma_g2),
            delta_g2: g2(&pk.vk.delta_g2),
            gamma_abc_g1: pk.vk.gamma_abc_g1.iter().map(g1).collect(),
        },
        beta_g1: g1(&pk.beta_g1),
        delta_g1: g1(&pk.delta_g1),
        a_query: pk.a_query.iter().map(g1).collect(),
        b_g1_query: pk.b_g1_query.iter().map(g1).collect(),
        b_g2_query: pk.b_g2_query.iter().map(g2).collect(),
        h_query: pk.h_query.iter().map(g1).collect(),
        l_query: pk.l_query.iter().map(g1).collect(),
    }
}

fn convert_proof(proof: &Proof) -> ark_groth16::Proof<Bn254> {
    ark_groth16::Proof { a: ark_g1(&proof.a), b: ark_g2(&proof.b), c: ark_g1(&proof.c) }
}

/// Synthesizes the circuit and returns the quotient polynomial, the instance
/// assignment and the witness assignment.
fn synthesize(circuit: CubeCircuit) -> (Vec<Scalar>, Vec<Scalar>, Vec<Scalar>) {
    let cs = ConstraintSystem::<Fr>::new_ref();
    cs.set_optimization_goal(OptimizationGoal::Constraints);
    cs.set_mode(SynthesisMode::Prove { construct_matrices: true });
    circuit.generate_constraints(cs.clone()).unwrap();
    cs.finalize();
    let h_poly =
        LibsnarkReduction::witness_map::<Fr, GeneralEvaluationDomain<Fr>>(cs.clone()).unwrap();
    let cs_inner = cs.borrow().unwrap();
    let prover = cs_inner.deref();
    (
        h_poly.iter().map(to_scalar).collect(),
        prover.instance_assignment.iter().map(to_scalar).collect(),
        prover.witness_assignment.iter().map(to_scalar).collect(),
    )
}

fn setup(seed: u64) -> (ServerAidedProvingKey, ark_groth16::VerifyingKey<Bn254>, SeededRng) {
    let mut ark_rng = ChaCha20Rng::seed_from_u64(seed);
    let (pk, vk) =
        Groth16::<Bn254>::circuit_specific_setup(CubeCircuit { x: None }, &mut ark_rng)
            .expect("setup failed");
    let mut rng = SeededRng::seed_from_u64(seed);
    let sapk = ServerAidedProvingKey::setup(convert_key(&pk), &mut rng);
    (sapk, vk, rng)
}

#[test]
fn test_server_aided_groth16_e2e() {
    let (sapk, vk, mut rng) = setup(42);

    let (h_poly, instance, witness) = synthesize(CubeCircuit { x: Some(Fr::from(3u64)) });
    assert_eq!(to_fr(&instance[1]), Fr::from(35u64));
    let (request, state) = client_encrypt(&sapk, &h_poly, &instance, &witness, &mut rng);

    let response = server_evaluate(&sapk, &request).expect("server evaluate failed");

    let proof = client_decrypt(&sapk, &response, &state);

    let public_inputs = vec![Fr::from(35u64)];
    let valid = Groth16::<Bn254>::verify(&vk, &public_inputs, &convert_proof(&proof))
        .expect("verification failed");
    assert!(valid, "Server-aided Groth16 proof should verify!");
}

#[test]
fn test_server_aided_proof_rejects_wrong_input() {
    let (sapk, vk, mut rng) = setup(43);
    let (h_poly, instance, witness) = synthesize(CubeCircuit { x: Some(Fr::from(5u64)) });
    assert_eq!(to_fr(&instance[1]), Fr::from(135u64));
    let (request, state) = client_encrypt(&sapk, &h_poly, &instance, &witness, &mut rng);
    let response = server_evaluate(&sapk, &request).unwrap();
    let proof = convert_proof(&client_decrypt(&sapk, &response, &state));
    assert!(Groth16::<Bn254>::verify(&vk, &[Fr::from(135u64)], &proof).unwrap());
    assert!(!Groth16::<Bn254>::verify(&vk, &[Fr::from(35u64)], &proof).unwrap());
}

#[test]
fn test_malicious_server_aided_groth16_e2e() {
    let (sapk, vk, mut rng) = setup(77);

    let (h_poly, instance, witness) = synthesize(CubeCircuit { x: Some(Fr::from(3u64)) });
    let (request, state) = malicious_client_encrypt(&sapk, &h_poly, &instance, &witness, &mut rng);

    let response =
        malicious_server_evaluate_groth16(&sapk, &request).expect("server evaluate failed");

    let proof = malicious_client_decrypt(&sapk, &response, &state)
        .expect("consistency check should pass for honest server");

    let public_inputs = vec![Fr::from(35u64)];
    let valid = Groth16::<Bn254>::verify(&vk, &public_inputs, &convert_proof(&proof))
        .expect("verification failed");
    assert!(valid, "Malicious-secure server-aided Groth16 proof should verify!");
}

#[test]
fn test_malicious_server_aided_detects_tampering() {
    let (sapk, _vk, mut rng) = setup(88);

    let (h_poly, instance, witness) = synthesize(CubeCircuit { x: Some(Fr::from(3u64)) });
    let (request, state) = malicious_client_encrypt(&sapk, &h_poly, &instance, &witness, &mut rng);

    let mut response =
        malicious_server_evaluate_groth16(&sapk, &request).expect("server evaluate failed");

    response.em_h = response.em_h.add(&G1Point::rand(&mut rng));

    let result = malicious_client_decrypt(&sapk, &response, &state);
    assert!(result.is_err(), "Should detect tampered MSM result");
    assert_eq!(result.unwrap_err(), MaliciousError::ConsistencyCheckFailed);
}

#[test]
fn test_malicious_detects_tampering_in_every_slot() {
    let (sapk, _vk, mut rng) = setup(89);
    let (h_poly, instance, witness) = synthesize(CubeCircuit { x: Some(Fr::from(3u64)) });
    let (request, state) = malicious_client_encrypt(&sapk, &h_poly, &instance, &witness, &mut rng);
    for slot in 0..5 {
        let mut response = malicious_server_evaluate_groth16(&sapk, &request).unwrap();
        match slot {
            0 => response.em_h_ck = response.em_h_ck.add(&G1Point::rand(&mut rng)),
            1 => response.em_l = response.em_l.add(&G1Point::rand(&mut rng)),
            2 => response.em_a_ck = response.em_a_ck.add(&G1Point::rand(&mut rng)),
            3 => response.em_b_g1 = response.em_b_g1.add(&G1Point::rand(&mut rng)),
            _ => response.em_b_g2 = response.em_b_g2.add(&G2Point::rand(&mut rng)),
        }
        assert!(malicious_client_decrypt(&sapk, &response, &state).is_err());
    }
}

#[test]
fn test_setup_slices_the_queries() {
    let (sapk, _vk, _rng) = setup(90);
    let num_pub = sapk.pk.vk.gamma_abc_g1.len();
    assert_eq!(num_pub, 2);
    assert_eq!(sapk.emsm_h.generators, sapk.pk.h_query);
    assert_eq!(sapk.emsm_l.generators, sapk.pk.l_query);
    assert_eq!(sapk.emsm_a.generators[..], sapk.pk.a_query[num_pub..]);
    assert_eq!(sapk.emsm_b_g1.generators[..], sapk.pk.b_g1_query[num_pub..]);
    assert_eq!(sapk.emsm_b_g2.generators[..], sapk.pk.b_g2_query[num_pub..]);
    assert_eq!(sapk.pre_h.h.len(), 4 * sapk.pk.h_query.len());
    assert_eq!(sapk.pre_b_g2.h.len(), 4 * sapk.emsm_b_g2.generators.len());
    assert_eq!(sapk.pre_a.pedersen_h.generators, sapk.pre_a.h);
}

#[test]
fn test_client_encrypt_state() {
    let (sapk, _vk, mut rng) = setup(91);
    let (h_poly, instance, witness) = synthesize(CubeCircuit { x: Some(Fr::from(3u64)) });
    let (request, state) = client_encrypt(&sapk, &h_poly, &instance, &witness, &mut rng);
    assert_eq!(state.num_instance_variables, 2);
    assert_eq!(state.full_assignment.len(), instance.len() + witness.len());
    assert_eq!(state.full_assignment[..2], instance[..]);
    assert_eq!(state.full_assignment[2..], witness[..]);
    assert_eq!(request.v_h.len(), sapk.emsm_h.generators.len());
    assert_eq!(request.v_l.len(), sapk.emsm_l.generators.len());
    assert_eq!(request.v_a.len(), sapk.emsm_a.generators.len());
    assert_eq!(request.v_b_g1.len(), sapk.emsm_b_g1.generators.len());
    assert_eq!(request.v_b_g2.len(), sapk.emsm_b_g2.generators.len());
    // The masked vector less the mask is the padded source.
    let padded = pad_or_trim(&witness, sapk.emsm_a.generators.len());
    for i in 0..request.v_a.len() {
        assert_eq!(
            to_fr(&request.v_a[i]) - to_fr(&state.lpn_a.lpn_vector[i]),
            to_fr(&padded[i])
        );
    }
}

#[test]
fn test_server_evaluate_length_mismatch() {
    let (sapk, _vk, mut rng) = setup(92);
    let (h_poly, instance, witness) = synthesize(CubeCircuit { x: Some(Fr::from(3u64)) });
    let (mut request, _state) = client_encrypt(&sapk, &h_poly, &instance, &witness, &mut rng);
    let n_l = sapk.emsm_l.generators.len();
    let n_a = sapk.emsm_a.generators.len();
    request.v_a.push(Scalar::zero());
    request.v_l.pop();
    // The slot L comes before the slot A.
    assert_eq!(
        server_evaluate(&sapk, &request).err(),
        Some(PedersenError::LengthMismatch { scalars: n_l - 1, generators: n_l })
    );
    request.v_l.push(Scalar::zero());
    assert_eq!(
        server_evaluate(&sapk, &request).err(),
        Some(PedersenError::LengthMismatch { scalars: n_a + 1, generators: n_a })
    );
}

#[test]
fn test_key_check_and_try_setup() {
    let mut ark_rng = ChaCha20Rng::seed_from_u64(94);
    let (pk, _vk) =
        Groth16::<Bn254>::circuit_specific_setup(CubeCircuit { x: None }, &mut ark_rng).unwrap();
    let key = convert_key(&pk);
    assert!(key.check());
    assert!(key.check_fits());
    let mut rng = SeededRng::seed_from_u64(94);
    let sapk = ServerAidedProvingKey::try_setup(key, &mut rng).expect("the key fits");
    assert!(rng.word_pos > 0);
    // The same seed gives the same codes.
    let mut again = SeededRng::seed_from_u64(94);
    let twin = ServerAidedProvingKey::setup(convert_key(&pk), &mut again);
    assert_eq!(twin.emsm_h.t_operator.perm_p, sapk.emsm_h.t_operator.perm_p);
    assert_eq!(twin.emsm_b_g2.t_operator.perm_q, sapk.emsm_b_g2.t_operator.perm_q);
    assert_eq!(again.word_pos, rng.word_pos);

    // An element that is no point.
    let mut bad = convert_key(&pk);
    bad.l_query[0] = G1Point { bytes: vec![0xff; 32] };
    assert!(!bad.check());
    let before = (rng.seed, rng.word_pos);
    assert!(ServerAidedProvingKey::try_setup(bad, &mut rng).is_none());
    assert_eq!((rng.seed, rng.word_pos), before);

    // A query shorter than the public inputs.
    let mut short = convert_key(&pk);
    short.b_g2_query.truncate(1);
    assert!(short.check());
    assert!(!short.check_fits());
    assert!(ServerAidedProvingKey::try_setup(short, &mut rng).is_none());
}

#[test]
fn test_client_encrypt_samples_noise() {
    let (sapk, _vk, mut rng) = setup(95);
    let (h_poly, instance, witness) = synthesize(CubeCircuit { x: Some(Fr::from(3u64)) });
    let mut twin = SeededRng { seed: rng.seed, word_pos: rng.word_pos };
    let (request, state) = client_encrypt(&sapk, &h_poly, &instance, &witness, &mut rng);
    for (lpn, params_t, big_n) in [
        (&state.lpn_h, sapk.emsm_h.t, sapk.emsm_h.t_operator.big_n),
        (&state.lpn_l, sapk.emsm_l.t, sapk.emsm_l.t_operator.big_n),
        (&state.lpn_a, sapk.emsm_a.t, sapk.emsm_a.t_operator.big_n),
        (&state.lpn_b_g1, sapk.emsm_b_g1.t, sapk.emsm_b_g1.t_operator.big_n),
        (&state.lpn_b_g2, sapk.emsm_b_g2.t, sapk.emsm_b_g2.t_operator.big_n),
    ] {
        assert!(big_n > 0);
        assert_eq!(lpn.noise.entries.len(), params_t);
        let width = big_n / params_t;
        for (k, (idx, val)) in lpn.noise.entries.iter().enumerate() {
            assert!(k * width <= *idx && *idx < (k + 1) * width);
            assert!(!val.is_zero());
        }
    }
    assert!(!state.r.is_zero() || !state.s.is_zero());
    // The same generator state gives the same request.
    let (request2, state2) = client_encrypt(&sapk, &h_poly, &instance, &witness, &mut twin);
    assert_eq!(request2.v_h, request.v_h);
    assert_eq!(request2.v_b_g2, request.v_b_g2);
    assert_eq!(state2.r, state.r);
    assert_eq!(state2.s, state.s);
    assert_eq!(state2.lpn_a.noise.entries, state.lpn_a.noise.entries);
    assert_eq!(twin.word_pos, rng.word_pos);

    let (_, mstate) = malicious_client_encrypt(&sapk, &h_poly, &instance, &witness, &mut rng);
    assert_eq!(mstate.ds_h.lpn.noise.entries.len(), sapk.emsm_h.t);
    assert_eq!(mstate.ds_h.lpn_check.noise.entries.len(), sapk.emsm_h.t);
    assert_eq!(mstate.ds_b_g2.lpn_check.noise.entries.len(), sapk.emsm_b_g2.t);
}

#[test]
fn test_pad_or_trim() {
    let v: Vec<Scalar> = [1u64, 2, 3].iter().map(|x| Scalar::from_u64(*x)).collect();
    assert_eq!(pad_or_trim(&v, 3), v);
    assert_eq!(pad_or_trim(&v, 2), v[..2].to_vec());
    assert_eq!(pad_or_trim(&v, 0), Vec::<Scalar>::new());
    let padded = pad_or_trim(&v, 5);
    assert_eq!(padded.len(), 5);
    assert_eq!(padded[..3], v[..]);
    assert_eq!(padded[3], Scalar::zero());
    assert_eq!(padded[4], Scalar::zero());
}

#[test]
fn test_join_assignment_and_tail() {
    let a: Vec<Scalar> = [1u64, 2].iter().map(|x| Scalar::from_u64(*x)).collect();
    let b: Vec<Scalar> = [3u64].iter().map(|x| Scalar::from_u64(*x)).collect();
    let joined = join_assignment(&a, &b);
    assert_eq!(joined, [1u64, 2, 3].iter().map(|x| Scalar::from_u64(*x)).collect::<Vec<_>>());
    let mut rng = SeededRng::seed_from_u64(1);
    let pts: Vec<G1Point> = (0..4).map(|_| G1Point::rand(&mut rng)).collect();
    assert_eq!(tail_from(&pts, 1)[..], pts[1..]);
    assert!(tail_from(&pts, 4).is_empty());
}

#[test]
fn test_public_share_formula() {
    // query[0] + 7 * query[1] + 0 * query[2] + 2 * query[3]
    let mut rng = SeededRng::seed_from_u64(2);
    let query: Vec<G1Point> = (0..5).map(|_| G1Point::rand(&mut rng)).collect();
    let assignment: Vec<Scalar> =
        [1u64, 7, 0, 2, 99].iter().map(|x| Scalar::from_u64(*x)).collect();
    let share = compute_public_share(&query, &assignment, 4);
    let q: Vec<ark_bn254::G1Projective> = query.iter().map(|p| ark_g1(p).into()).collect();
    let expected = q[0] + q[1] * Fr::from(7u64) + q[3] * Fr::from(2u64);
    assert_eq!(ark_g1(&share), expected.into_affine());
    // Only the constant: the share is query[0].
    let only = compute_public_share(&query, &assignment, 1);
    assert_eq!(only, query[0]);
}

#[test]
fn test_assemble_proof_formula() {
    let (sapk, _vk, mut rng) = setup(93);
    let pk = &sapk.pk;
    let r = Scalar::from_u64(11);
    let s = Scalar::from_u64(13);
    let assignment: Vec<Scalar> = [1u64, 35, 3].iter().map(|x| Scalar::from_u64(*x)).collect();
    let h = G1Point::rand(&mut rng);
    let l = G1Point::rand(&mut rng);
    let a = G1Point::rand(&mut rng);
    let b1 = G1Point::rand(&mut rng);
    let b2 = G2Point::rand(&mut rng);
    let proof =
        assemble_proof(pk, &r, &s, &assignment, 2, h.dup(), l.dup(), a.dup(), b1.dup(), b2.dup());
    let in_g1 = |p: &G1Point| -> ark_bn254::G1Projective { ark_g1(p).into() };
    let in_g2 = |p: &G2Point| -> ark_bn254::G2Projective { ark_g2(p).into() };
    let (fr, fs, y) = (Fr::from(11u64), Fr::from(13u64), Fr::from(35u64));
    let a_pub = in_g1(&pk.a_query[0]) + in_g1(&pk.a_query[1]) * y;
    let b1_pub = in_g1(&pk.b_g1_query[0]) + in_g1(&pk.b_g1_query[1]) * y;
    let b2_pub = in_g2(&pk.b_g2_query[0]) + in_g2(&pk.b_g2_query[1]) * y;
    let g_a = in_g1(&pk.vk.alpha_g1) + a_pub + in_g1(&a) + in_g1(&pk.delta_g1) * fr;
    let g_b = in_g2(&pk.vk.beta_g2) + b2_pub + in_g2(&b2) + in_g2(&pk.vk.delta_g2) * fs;
    let g_b1 = in_g1(&pk.beta_g1) + b1_pub + in_g1(&b1) + in_g1(&pk.delta_g1) * fs;
    let g_c = in_g1(&h) + in_g1(&l) + g_a * fs + g_b1 * fr - in_g1(&pk.delta_g1) * (fr * fs);
    assert_eq!(ark_g1(&proof.a), g_a.into_affine());
    assert_eq!(ark_g2(&proof.b), g_b.into_affine());
    assert_eq!(ark_g1(&proof.c), g_c.into_affine());
}
