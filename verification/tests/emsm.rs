use ark_ec::CurveGroup as ArkCurveGroup;
use ark_ff::{BigInt, PrimeField, Zero};
use ark_serialize::{CanonicalDeserialize, CanonicalSerialize};
use stealthsnark::emsm::dual_lpn::DualLPNInstance;
use stealthsnark::emsm::emsm::{decrypt, encrypt, EmsmPublicParams};
use stealthsnark::emsm::malicious::{
    malicious_decrypt, malicious_encrypt, malicious_server_evaluate, MaliciousError,
};
use stealthsnark::emsm::pedersen::{Pedersen, PedersenError};
use stealthsnark::emsm::raa_code::{
    accumulate_inplace, apply_f_fold, inverse_permutation, permute_safe, random_permutation,
    TOperator,
};
use stealthsnark::emsm::sparse_vec::SparseVector;
use stealthsnark::group::{CurveGroup, G1Point, G2Point};
use stealthsnark::rng::SeededRng;
use stealthsnark::scalar::Scalar;

type Fr = ark_bn254::Fr;
type G1 = ark_bn254::G1Projective;

fn to_scalar(x: Fr) -> Scalar {
    let l = x.into_bigint().0;
    Scalar { l0: l[0], l1: l[1], l2: l[2], l3: l[3] }
}

fn to_fr(s: &Scalar) -> Fr {
    Fr::from_bigint(BigInt::new([s.l0, s.l1, s.l2, s.l3])).unwrap()
}

fn to_g1(p: &G1Point) -> G1 {
    ark_bn254::G1Affine::deserialize_compressed(&p.bytes[..]).unwrap().into()
}

fn from_g1(p: G1) -> G1Point {
    let mut bytes = Vec::new();
    p.into_affine().serialize_compressed(&mut bytes).unwrap();
    G1Point { bytes }
}

fn to_g2(p: &G2Point) -> ark_bn254::G2Projective {
    ark_bn254::G2Affine::deserialize_compressed(&p.bytes[..]).unwrap().into()
}

fn scalars(v: &[u64]) -> Vec<Scalar> {
    v.iter().map(|x| Scalar::from_u64(*x)).collect()
}

fn random_generators(n: usize, rng: &mut SeededRng) -> Vec<G1Point> {
    (0..n).map(|_| G1Point::rand(rng)).collect()
}

fn random_witness(n: usize, rng: &mut SeededRng) -> Vec<Scalar> {
    (0..n).map(|_| Scalar::rand(rng)).collect()
}

fn copy_points(v: &[G1Point]) -> Vec<G1Point> {
    v.iter().map(|p| p.dup()).collect()
}

/// The inner product computed by the outside library alone.
fn plain_msm(generators: &[G1Point], witness: &[Scalar]) -> G1 {
    let mut acc = G1::zero();
    for (g, z) in generators.iter().zip(witness.iter()) {
        acc += to_g1(g) * to_fr(z);
    }
    acc
}

// ---- sparse vectors ----

#[test]
fn test_sparse_to_dense() {
    let sv = SparseVector::new(5, vec![(0, Scalar::from_u64(3)), (3, Scalar::from_u64(7))]);
    let dense = sv.into_dense();
    assert_eq!(dense.len(), 5);
    assert_eq!(dense[0], Scalar::from_u64(3));
    assert_eq!(dense[3], Scalar::from_u64(7));
    assert_eq!(dense[1], Scalar::zero());
}

#[test]
fn test_sparse_to_dense_adds_duplicates() {
    let sv = SparseVector::new(
        4,
        vec![(2, Scalar::from_u64(3)), (2, Scalar::from_u64(39)), (0, Scalar::from_u64(1))],
    );
    let dense = sv.into_dense();
    assert_eq!(dense, scalars(&[1, 0, 42, 0]));
}

#[test]
fn test_error_vec_structure() {
    let mut rng = SeededRng::seed_from_u64(1);
    let size = 1024;
    let t = 16;
    let ev = SparseVector::error_vec(size, t, &mut rng);
    assert_eq!(ev.size, size);
    assert_eq!(ev.entries.len(), t);

    let chunk_size = size / t;
    for (i, &(idx, _)) in ev.entries.iter().enumerate() {
        assert!(idx >= i * chunk_size && idx < (i + 1) * chunk_size);
    }
}

#[test]
fn test_error_vec_values_are_nonzero() {
    let mut rng = SeededRng::seed_from_u64(2);
    let ev = SparseVector::error_vec(100, 7, &mut rng);
    assert_eq!(ev.entries.len(), 7);
    for (k, (idx, val)) in ev.entries.iter().enumerate() {
        assert!(*idx >= k * 14 && *idx < (k + 1) * 14);
        assert!(!val.is_zero());
        assert!(val.is_reduced());
    }
}

#[test]
fn test_error_vec_empty_cases() {
    let mut rng = SeededRng::seed_from_u64(3);
    let a = SparseVector::error_vec(0, 5, &mut rng);
    assert_eq!(a.size, 0);
    assert!(a.entries.is_empty());
    let b = SparseVector::error_vec(12, 0, &mut rng);
    assert_eq!(b.size, 12);
    assert!(b.entries.is_empty());
}

#[test]
fn test_seeded_rng_is_deterministic() {
    let mut a = SeededRng::seed_from_u64(42);
    let mut b = SeededRng::seed_from_u64(42);
    let ea = SparseVector::error_vec(256, 8, &mut a);
    let eb = SparseVector::error_vec(256, 8, &mut b);
    assert_eq!(ea.entries, eb.entries);
    for _ in 0..20 {
        let i = a.gen_index(10);
        assert!(i < 10);
        assert_eq!(i, b.gen_index(10));
    }
}

#[test]
fn test_generator_state() {
    let seed: [u8; 32] = core::array::from_fn(|i| i as u8);
    let rng = SeededRng::from_seed(seed);
    assert_eq!(rng.seed, seed);
    assert_eq!(rng.word_pos, 0);

    let a = SeededRng::seed_from_u64(42);
    let reference = <rand_chacha::ChaCha20Rng as rand::SeedableRng>::seed_from_u64(42);
    assert_eq!(a.seed, reference.get_seed());
    assert_eq!(a.word_pos, 0);
    assert_ne!(a.seed, SeededRng::seed_from_u64(43).seed);
}

#[test]
fn test_generator_follows_the_chacha_stream() {
    // The draws are those of one ChaCha20 generator used without a break.
    let mut rng = SeededRng::seed_from_u64(7);
    let mut reference = <rand_chacha::ChaCha20Rng as rand::SeedableRng>::seed_from_u64(7);
    for round in 0..40usize {
        let bound = 3 + 1000 * round;
        assert_eq!(rng.gen_index(bound), rand::Rng::gen_range(&mut reference, 0..bound));
        let s = Scalar::rand(&mut rng);
        let f: Fr = ark_std::UniformRand::rand(&mut reference);
        assert_eq!(to_fr(&s), f);
        if round % 8 == 0 {
            let p = G1Point::rand(&mut rng);
            let q: G1 = ark_std::UniformRand::rand(&mut reference);
            assert_eq!(to_g1(&p), q);
            let p = G2Point::rand(&mut rng);
            let q: ark_bn254::G2Projective = ark_std::UniformRand::rand(&mut reference);
            assert_eq!(to_g2(&p), q);
        }
        assert_eq!(rng.word_pos, reference.get_word_pos());
        assert_eq!(rng.seed, reference.get_seed());
    }
    assert!(rng.word_pos > 0);
}

// ---- scalars ----

#[test]
fn test_scalar_add_and_mul_agree_with_the_field() {
    let mut rng = SeededRng::seed_from_u64(4);
    for _ in 0..10 {
        let a = Scalar::rand(&mut rng);
        let b = Scalar::rand(&mut rng);
        assert_eq!(to_fr(&a.add(&b)), to_fr(&a) + to_fr(&b));
        assert_eq!(to_fr(&a.mul(&b)), to_fr(&a) * to_fr(&b));
    }
    assert_eq!(Scalar::from_u64(40).add(&Scalar::from_u64(2)), Scalar::from_u64(42));
    assert_eq!(Scalar::from_u64(6).mul(&Scalar::from_u64(7)), Scalar::from_u64(42));
}

#[test]
fn test_scalar_wraps_at_the_modulus() {
    // r - 1, the largest reduced value.
    let top = to_scalar(-Fr::from(1u64));
    assert!(top.is_reduced());
    assert_eq!(top.add(&Scalar::one()), Scalar::zero());
    assert_eq!(top.add(&Scalar::from_u64(5)), Scalar::from_u64(4));
    assert_eq!(top.mul(&top), Scalar::one());
}

#[test]
fn test_scalar_from_limbs_checks_reduction() {
    // The limbs of the field order itself.
    let m = [0x43e1f593f0000001u64, 0x2833e84879b97091, 0xb85045b68181585d, 0x30644e72e131a029];
    assert!(Scalar::from_limbs(m[0], m[1], m[2], m[3]).is_none());
    assert_eq!(
        Scalar::from_limbs(m[0] - 1, m[1], m[2], m[3]),
        Some(to_scalar(-Fr::from(1u64)))
    );
    assert!(Scalar::from_limbs(u64::MAX, u64::MAX, u64::MAX, u64::MAX).is_none());
    assert_eq!(Scalar::from_limbs(7, 0, 0, 0), Some(Scalar::from_u64(7)));
    assert!(Scalar::zero().is_zero());
    assert!(!Scalar::one().is_zero());
}

// ---- the code ----

#[test]
fn test_suffix_sum() {
    let mut v = scalars(&[1, 2, 3, 4]);
    accumulate_inplace(&mut v);
    assert_eq!(v[0], Scalar::from_u64(10));
    assert_eq!(v[1], Scalar::from_u64(9));
    assert_eq!(v[2], Scalar::from_u64(7));
    assert_eq!(v[3], Scalar::from_u64(4));
}

#[test]
fn test_suffix_sum_then_difference_recovers_input() {
    let mut rng = SeededRng::seed_from_u64(5);
    let input = random_witness(50, &mut rng);
    let mut v = input.clone();
    accumulate_inplace(&mut v);
    for i in 0..50 {
        let next = if i + 1 < 50 { to_fr(&v[i + 1]) } else { Fr::zero() };
        assert_eq!(to_fr(&v[i]) - next, to_fr(&input[i]));
    }
}

#[test]
fn test_suffix_sum_large_input() {
    // Long enough for the chunked path.
    let n = 70000;
    let mut v: Vec<Scalar> = (0..n).map(|i| Scalar::from_u64(i as u64 % 5)).collect();
    accumulate_inplace(&mut v);
    let mut expected: u64 = 0;
    for i in (0..n).rev() {
        expected += i as u64 % 5;
        assert_eq!(v[i], Scalar::from_u64(expected));
    }
}

#[test]
fn test_long_vectors_take_the_parallel_path() {
    // N = 65536 and n = 16384: the chunked suffix sum, the parallel
    // permutation and the parallel fold, against a plain computation.
    let mut rng = SeededRng::seed_from_u64(30);
    let n = 16384;
    let big_n = 4 * n;
    let t_op = TOperator::rand(n, &mut rng);
    let e = SparseVector::error_vec(big_n, 29, &mut rng);
    let out = t_op.multiply_sparse(&e.entries);
    assert_eq!(out.len(), n);

    let mut v = vec![Fr::zero(); big_n];
    for (i, val) in &e.entries {
        v[*i] += to_fr(val);
    }
    let suffix = |v: &mut Vec<Fr>| {
        let mut sum = Fr::zero();
        for x in v.iter_mut().rev() {
            sum += *x;
            *x = sum;
        }
    };
    suffix(&mut v);
    v = t_op.perm_q.iter().map(|&q| v[q]).collect();
    suffix(&mut v);
    v = t_op.perm_p.iter().map(|&p| v[p]).collect();
    for i in 0..n {
        assert_eq!(to_fr(&out[i]), v[4 * i] + v[4 * i + 1] + v[4 * i + 2] + v[4 * i + 3]);
    }

    let w: Vec<Scalar> = (0..big_n).map(|i| Scalar::from_u64(i as u64)).collect();
    let permuted = permute_safe(&w, &t_op.perm_p);
    for i in 0..big_n {
        assert_eq!(permuted[i], Scalar::from_u64(t_op.perm_p[i] as u64));
    }
    let folded = apply_f_fold(&w);
    for i in 0..n {
        assert_eq!(folded[i], Scalar::from_u64(16 * i as u64 + 6));
    }
}

#[test]
fn test_suffix_sum_short_inputs() {
    let mut empty: Vec<Scalar> = Vec::new();
    accumulate_inplace(&mut empty);
    assert!(empty.is_empty());
    let mut one = scalars(&[9]);
    accumulate_inplace(&mut one);
    assert_eq!(one, scalars(&[9]));
}

#[test]
fn test_permutation_inverse() {
    let perm = vec![2, 0, 3, 1];
    let inv = inverse_permutation(&perm);
    assert_eq!(inv, vec![1, 3, 0, 2]);

    for i in 0..4 {
        assert_eq!(inv[perm[i]], i);
    }
}

#[test]
fn test_inverse_of_a_vector_with_repeats() {
    // 1 stands at positions 0 and 2, 3 nowhere.
    let inv = inverse_permutation(&vec![1, 0, 1, 2]);
    assert_eq!(inv, vec![1, 2, 3, 0]);
}

#[test]
fn test_random_permutation_is_a_permutation() {
    let mut rng = SeededRng::seed_from_u64(6);
    let perm = random_permutation(200, &mut rng);
    assert_eq!(perm.len(), 200);
    let mut seen = vec![false; 200];
    for &p in &perm {
        assert!(p < 200);
        assert!(!seen[p]);
        seen[p] = true;
    }
    let inv = inverse_permutation(&perm);
    for i in 0..200 {
        assert_eq!(inv[perm[i]], i);
        assert_eq!(perm[inv[i]], i);
    }
    assert!(random_permutation(0, &mut rng).is_empty());
    assert_eq!(random_permutation(1, &mut rng), vec![0]);
}

#[test]
fn test_permute() {
    let v = scalars(&[10, 11, 12, 13]);
    let out = permute_safe(&v, &vec![2, 0, 3, 1]);
    assert_eq!(out, scalars(&[12, 10, 13, 11]));
}

#[test]
fn test_fold() {
    let v = scalars(&[1, 2, 3, 4, 5, 6, 7, 8]);
    let folded = apply_f_fold(&v);
    assert_eq!(folded.len(), 2);
    assert_eq!(folded[0], Scalar::from_u64(10));
    assert_eq!(folded[1], Scalar::from_u64(26));
}

#[test]
fn test_toperator_multiply_sparse() {
    let mut rng = SeededRng::seed_from_u64(7);
    let n = 64;
    let t_op = TOperator::rand(n, &mut rng);

    let sparse = vec![(10usize, Scalar::from_u64(5))];
    let result = t_op.multiply_sparse(&sparse);
    assert_eq!(result.len(), n);

    let is_nonzero = result.iter().any(|x| !x.is_zero());
    assert!(is_nonzero, "TOperator output should be nonzero for nonzero input");
}

#[test]
fn test_toperator_fixed_permutations() {
    // n = 1, N = 4, both permutations the identity: T sums the suffix sums
    // of the suffix sums.
    let id: Vec<usize> = vec![0, 1, 2, 3];
    let t_op = TOperator {
        perm_p: id.clone(),
        perm_q: id.clone(),
        inv_perm_p: id.clone(),
        inv_perm_q: id,
        big_n: 4,
        n: 1,
    };
    // e = (0, 0, 1, 0): A e = (1, 1, 1, 0), A A e = (3, 2, 1, 0), fold = 6.
    let out = t_op.multiply_sparse(&vec![(2usize, Scalar::from_u64(1))]);
    assert_eq!(out, scalars(&[6]));
    // The transpose of a single generator g: (g, g, g, g) -> prefix sums
    // (g, 2g, 3g, 4g) -> prefix sums (g, 3g, 6g, 10g).
    let mut rng = SeededRng::seed_from_u64(8);
    let g = G1Point::rand(&mut rng);
    let h = t_op.multiply_transpose_group(&vec![g.dup()]);
    assert_eq!(h.len(), 4);
    let gp = to_g1(&g);
    assert_eq!(to_g1(&h[0]), gp);
    assert_eq!(to_g1(&h[1]), gp * Fr::from(3u64));
    assert_eq!(to_g1(&h[2]), gp * Fr::from(6u64));
    assert_eq!(to_g1(&h[3]), gp * Fr::from(10u64));
}

#[test]
fn test_toperator_linearity() {
    let mut rng = SeededRng::seed_from_u64(9);
    let n = 32;
    let t_op = TOperator::rand(n, &mut rng);

    let e1 = vec![(5usize, Scalar::from_u64(3))];
    let e2 = vec![(20usize, Scalar::from_u64(7))];
    let e_combined = vec![(5usize, Scalar::from_u64(3)), (20usize, Scalar::from_u64(7))];

    let r1 = t_op.multiply_sparse(&e1);
    let r2 = t_op.multiply_sparse(&e2);
    let r_combined = t_op.multiply_sparse(&e_combined);

    for i in 0..n {
        assert_eq!(r1[i].add(&r2[i]), r_combined[i], "linearity failed at index {i}");
    }
}

#[test]
fn test_transpose_duality() {
    let mut rng = SeededRng::seed_from_u64(10);
    let n = 16;
    let t_op = TOperator::rand(n, &mut rng);
    let g = random_generators(n, &mut rng);
    let e = SparseVector::error_vec(4 * n, 8, &mut rng);

    let te = t_op.multiply_sparse(&e.entries);
    let lhs = plain_msm(&g, &te);

    let h = t_op.multiply_transpose_group(&g);
    assert_eq!(h.len(), 4 * n);
    let mut rhs = G1::zero();
    for (idx, val) in &e.entries {
        rhs += to_g1(&h[*idx]) * to_fr(val);
    }
    assert_eq!(lhs, rhs);
}

// ---- Pedersen ----

#[test]
fn test_commit_zero() {
    let mut rng = SeededRng::seed_from_u64(11);
    let ped = Pedersen::<G1Point>::rand(8, &mut rng);
    let zeros = vec![Scalar::zero(); 8];
    let result = ped.commit(&zeros).unwrap();
    assert_eq!(to_g1(&result), G1::zero());
    assert!(result.same(&G1Point::zero()));
}

#[test]
fn test_commit_sparse_matches_dense() {
    let mut rng = SeededRng::seed_from_u64(12);
    let n = 16;
    let ped = Pedersen::<G1Point>::rand(n, &mut rng);

    let sparse = SparseVector::new(n, vec![(2, Scalar::from_u64(5)), (7, Scalar::from_u64(3))]);
    let sparse_result = ped.commit_sparse(&sparse);

    let dense = sparse.into_dense();
    let dense_result = ped.commit(&dense).unwrap();

    assert_eq!(sparse_result, dense_result);
}

#[test]
fn test_commit_length_mismatch_returns_error() {
    let mut rng = SeededRng::seed_from_u64(13);
    let ped = Pedersen::<G1Point>::rand(8, &mut rng);
    let zeros = vec![Scalar::zero(); 5];
    let result = ped.commit(&zeros);
    assert!(result.is_err());
    assert_eq!(
        result.unwrap_err(),
        PedersenError::LengthMismatch { scalars: 5, generators: 8 }
    );
}

#[test]
fn test_commit_is_the_inner_product() {
    let mut rng = SeededRng::seed_from_u64(14);
    let ped = Pedersen::<G1Point>::rand(12, &mut rng);
    let z = random_witness(12, &mut rng);
    let c = ped.commit(&z).unwrap();
    assert_eq!(to_g1(&c), plain_msm(&ped.generators, &z));
}

#[test]
fn test_commit_sparse_of_nothing_is_identity() {
    let mut rng = SeededRng::seed_from_u64(15);
    let ped = Pedersen::<G1Point>::rand(4, &mut rng);
    let r = ped.commit_sparse(&SparseVector::new(4, Vec::new()));
    assert!(r.same(&G1Point::zero()));
}

#[test]
fn test_commit_with_no_generators() {
    let mut rng = SeededRng::seed_from_u64(31);
    let ped = Pedersen::<G1Point>::rand(0, &mut rng);
    assert!(ped.generators.is_empty());
    let r = ped.commit(&Vec::new()).unwrap();
    assert!(r.same(&G1Point::zero()));
    let r = G2Point::msm(&Vec::new(), &Vec::new()).unwrap();
    assert!(r.same(&G2Point::zero()));
    assert_eq!(G1Point::msm(&Vec::new(), &vec![Scalar::one()]).err(), Some(0));
}

#[test]
fn test_error_message_numbers() {
    assert_eq!(
        PedersenError::LengthMismatch { scalars: 1048576, generators: 0 }.message(),
        "scalar/generator length mismatch: 1048576 scalars vs 0 generators"
    );
    assert_eq!(stealthsnark::text::decimal(0), "0");
    assert_eq!(stealthsnark::text::decimal(7), "7");
    assert_eq!(stealthsnark::text::decimal(10), "10");
    assert_eq!(stealthsnark::text::decimal(9876543210), "9876543210");
    assert_eq!(stealthsnark::text::decimal(u64::MAX), "18446744073709551615");
    assert_eq!(stealthsnark::text::digit_str(4), "4");
}

#[test]
fn test_equal_generators_give_equal_results() {
    // The same seed gives the same code, the same noise and the same round.
    let mut a = SeededRng::seed_from_u64(77);
    let mut b = SeededRng::seed_from_u64(77);
    let ta = TOperator::rand(12, &mut a);
    let tb = TOperator::rand(12, &mut b);
    assert_eq!(ta.perm_p, tb.perm_p);
    assert_eq!(ta.perm_q, tb.perm_q);
    assert_eq!(ta.inv_perm_p, tb.inv_perm_p);
    assert_eq!(ta.inv_perm_q, tb.inv_perm_q);
    assert_eq!((a.seed, a.word_pos), (b.seed, b.word_pos));
    assert_ne!(ta.perm_p, ta.perm_q);

    let generators = Pedersen::<G1Point>::rand(12, &mut a).generators;
    assert_eq!(generators, Pedersen::<G1Point>::rand(12, &mut b).generators);
    let witness = random_witness(12, &mut a);
    assert_eq!(witness, random_witness(12, &mut b));

    let pa = EmsmPublicParams::<G1Point>::new(copy_points(&generators), &mut a);
    let pb = EmsmPublicParams::<G1Point>::new(copy_points(&generators), &mut b);
    assert_eq!(pa.t_operator.perm_p, pb.t_operator.perm_p);
    let (va, la) = encrypt(&pa, &witness, &mut a);
    let (vb, lb) = encrypt(&pb, &witness, &mut b);
    assert_eq!(va, vb);
    assert_eq!(la.noise.entries, lb.noise.entries);
    assert_eq!(la.lpn_vector, lb.lpn_vector);
    let (ea, sa) = malicious_encrypt(&pa, &witness, &mut a);
    let (eb, sb) = malicious_encrypt(&pb, &witness, &mut b);
    assert_eq!(ea.masked, eb.masked);
    assert_eq!(ea.masked_check, eb.masked_check);
    assert_eq!(sa.challenge, sb.challenge);
    assert_eq!(sa.lpn_check.noise.entries, sb.lpn_check.noise.entries);
    assert_eq!(a.word_pos, b.word_pos);
}

#[test]
fn test_malicious_encrypt_samples_noise() {
    let mut rng = SeededRng::seed_from_u64(78);
    let params = EmsmPublicParams::<G1Point>::new(random_generators(10, &mut rng), &mut rng);
    let witness = random_witness(10, &mut rng);
    let (enc, st) = malicious_encrypt(&params, &witness, &mut rng);
    assert_eq!(params.t, 29);
    for lpn in [&st.lpn, &st.lpn_check] {
        assert_eq!(lpn.noise.size, 40);
        assert_eq!(lpn.noise.entries.len(), 29);
        for (k, (idx, val)) in lpn.noise.entries.iter().enumerate() {
            assert_eq!(*idx, k);
            assert!(!val.is_zero());
        }
        assert!(lpn.lpn_vector.iter().any(|x| !x.is_zero()));
    }
    assert_ne!(st.lpn.noise.entries, st.lpn_check.noise.entries);
    assert_ne!(enc.masked, witness);
    for i in 0..10 {
        assert_eq!(to_fr(&enc.masked[i]) - to_fr(&st.lpn.lpn_vector[i]), to_fr(&witness[i]));
        assert_eq!(
            to_fr(&enc.masked_check[i]) - to_fr(&st.lpn_check.lpn_vector[i]),
            to_fr(&st.challenge) * to_fr(&witness[i])
        );
    }
}

#[test]
fn test_is_element() {
    let mut rng = SeededRng::seed_from_u64(79);
    let p = G1Point::rand(&mut rng);
    assert!(stealthsnark::group::is_element(&p));
    assert!(stealthsnark::group::is_element(&G2Point::zero()));
    assert!(!stealthsnark::group::is_element(&G1Point { bytes: vec![0xff; 32] }));
    assert!(!stealthsnark::group::is_element(&G1Point { bytes: vec![0; 3] }));
    let mut long = p.bytes.clone();
    long.push(0);
    assert!(!stealthsnark::group::is_element(&G1Point { bytes: long }));
    assert!(stealthsnark::group::all_elements(&vec![p.clone(), G1Point::zero()]));
    assert!(!stealthsnark::group::all_elements(&vec![p, G1Point { bytes: Vec::new() }]));
    assert!(stealthsnark::group::all_elements::<G2Point>(&Vec::new()));
}

#[test]
fn test_clones() {
    let mut rng = SeededRng::seed_from_u64(80);
    let params = EmsmPublicParams::<G1Point>::new(random_generators(4, &mut rng), &mut rng);
    let copy = params.clone();
    assert_eq!(copy.generators, params.generators);
    assert_eq!(copy.t_operator.perm_p, params.t_operator.perm_p);
    let pre = params.preprocess();
    assert_eq!(pre.clone().h, pre.h);
    assert_eq!(pre.pedersen_h.clone().generators, pre.pedersen_h.generators);
    let (_, lpn) = encrypt(&params, &random_witness(4, &mut rng), &mut rng);
    let lpn2 = lpn.clone();
    assert_eq!(lpn2.noise.entries, lpn.noise.entries);
    assert_eq!(lpn2.lpn_vector, lpn.lpn_vector);
}

#[test]
fn test_error_messages() {
    assert_eq!(PedersenError::MsmFailed.message(), "MSM computation failed");
    assert_eq!(
        PedersenError::LengthMismatch { scalars: 1, generators: 2 }.message(),
        "scalar/generator length mismatch: 1 scalars vs 2 generators"
    );
    assert_eq!(
        MaliciousError::ConsistencyCheckFailed.message(),
        "server cheated: consistency check failed"
    );
}

// ---- group elements ----

#[test]
fn test_group_operations_agree_with_the_curve() {
    let mut rng = SeededRng::seed_from_u64(16);
    let a = G1Point::rand(&mut rng);
    let b = G1Point::rand(&mut rng);
    let k = Scalar::rand(&mut rng);
    assert_eq!(to_g1(&a.add(&b)), to_g1(&a) + to_g1(&b));
    assert_eq!(to_g1(&a.sub(&b)), to_g1(&a) - to_g1(&b));
    assert_eq!(to_g1(&a.mul(&k)), to_g1(&a) * to_fr(&k));
    assert!(a.sub(&a).same(&G1Point::zero()));
    assert!(!a.add(&b).same(&a));
    assert!(a.dup().same(&a));

    let c = G2Point::rand(&mut rng);
    let d = G2Point::rand(&mut rng);
    assert_eq!(to_g2(&c.add(&d)), to_g2(&c) + to_g2(&d));
    assert_eq!(to_g2(&c.sub(&d)), to_g2(&c) - to_g2(&d));
    assert_eq!(to_g2(&c.mul(&k)), to_g2(&c) * to_fr(&k));
    assert!(c.sub(&c).same(&G2Point::zero()));
    let m = G2Point::msm(&vec![c.dup(), d.dup()], &vec![k, Scalar::one()]).unwrap();
    assert_eq!(to_g2(&m), to_g2(&c) * to_fr(&k) + to_g2(&d));
    assert_eq!(G2Point::msm(&vec![c, d], &vec![k]).err(), Some(1));
}

#[test]
fn test_identity_encodings() {
    let z1 = G1Point::zero();
    assert_eq!(z1.bytes.len(), 32);
    assert_eq!(z1.bytes[31], 0x40);
    assert!(z1.bytes[..31].iter().all(|b| *b == 0));
    assert_eq!(to_g1(&z1), G1::zero());
    let z2 = G2Point::zero();
    assert_eq!(z2.bytes.len(), 64);
    assert_eq!(z2.bytes[63], 0x40);
    assert!(z2.bytes[..63].iter().all(|b| *b == 0));
    assert!(to_g2(&z2).is_zero());
}

#[test]
fn test_from_bytes_rejects_what_is_no_point() {
    assert!(G1Point::from_bytes(&vec![0xffu8; 32]).is_none());
    assert!(G1Point::from_bytes(&vec![1u8; 5]).is_none());
    assert!(G2Point::from_bytes(&vec![0xffu8; 64]).is_none());
    let mut rng = SeededRng::seed_from_u64(17);
    let p = G1Point::rand(&mut rng);
    let q = G1Point::from_bytes(&p.to_bytes()).unwrap();
    assert!(p.same(&q));
    let r = from_g1(to_g1(&p));
    assert!(p.same(&r));
}

// ---- Dual-LPN ----

#[test]
fn test_dual_lpn_dimensions() {
    let mut rng = SeededRng::seed_from_u64(18);
    let n = 64;
    let t_op = TOperator::rand(n, &mut rng);
    let t = 8;

    let instance = DualLPNInstance::sample(&t_op, t, &mut rng);
    assert_eq!(instance.noise.size, 4 * n);
    assert_eq!(instance.noise.entries.len(), t);
    assert_eq!(instance.lpn_vector.len(), n);
}

#[test]
fn test_mask_witness() {
    let mut rng = SeededRng::seed_from_u64(19);
    let n = 32;
    let t_op = TOperator::rand(n, &mut rng);
    let instance = DualLPNInstance::sample(&t_op, 4, &mut rng);

    let z: Vec<Scalar> = (0..n).map(|i| Scalar::from_u64(i as u64)).collect();
    let v = instance.mask_witness(&z);
    assert_eq!(v.len(), n);

    for i in 0..n {
        assert_eq!(to_fr(&v[i]) - to_fr(&instance.lpn_vector[i]), to_fr(&z[i]));
    }
}

#[test]
fn test_mask_is_the_code_applied_to_the_noise() {
    let mut rng = SeededRng::seed_from_u64(20);
    let t_op = TOperator::rand(8, &mut rng);
    let instance = DualLPNInstance::sample(&t_op, 4, &mut rng);
    assert_eq!(instance.lpn_vector, t_op.multiply_sparse(&instance.noise.entries));
}

// ---- the round ----

#[test]
fn test_emsm_roundtrip() {
    let mut rng = SeededRng::seed_from_u64(21);
    let n = 64;

    let generators = random_generators(n, &mut rng);
    let witness = random_witness(n, &mut rng);

    let params = EmsmPublicParams::<G1Point>::new(copy_points(&generators), &mut rng);
    let preprocessed = params.preprocess();

    let ped = Pedersen::<G1Point>::from_generators(generators);
    let expected = ped.commit(&witness).unwrap();

    let (masked, lpn) = encrypt(&params, &witness, &mut rng);
    let server_result = params.server_computation(&masked).unwrap();
    let actual = decrypt(server_result, &lpn, &preprocessed);

    assert_eq!(actual, expected, "EMSM roundtrip failed!");
    assert_eq!(to_g1(&actual), plain_msm(&ped.generators, &witness));
}

#[test]
fn test_emsm_different_witnesses() {
    let mut rng = SeededRng::seed_from_u64(22);
    let n = 32;

    let generators = random_generators(n, &mut rng);

    let params = EmsmPublicParams::<G1Point>::new(copy_points(&generators), &mut rng);
    let preprocessed = params.preprocess();
    let ped = Pedersen::<G1Point>::from_generators(generators);

    for _ in 0..3 {
        let witness = random_witness(n, &mut rng);
        let expected = ped.commit(&witness).unwrap();

        let (masked, lpn) = encrypt(&params, &witness, &mut rng);
        let server_result = params.server_computation(&masked).unwrap();
        let actual = decrypt(server_result, &lpn, &preprocessed);

        assert_eq!(actual, expected);
    }
}

#[test]
fn test_emsm_roundtrip_two_seeds() {
    // The same witness under two different seeds decrypts to the same value.
    let mut setup = SeededRng::seed_from_u64(23);
    let n = 16;
    let generators = random_generators(n, &mut setup);
    let witness = random_witness(n, &mut setup);
    let params = EmsmPublicParams::<G1Point>::new(copy_points(&generators), &mut setup);
    let preprocessed = params.preprocess();
    let expected = plain_msm(&generators, &witness);
    let mut masks = Vec::new();
    for seed in [1u64, 2u64] {
        let mut rng = SeededRng::seed_from_u64(seed);
        let (masked, lpn) = encrypt(&params, &witness, &mut rng);
        let server_result = params.server_computation(&masked).unwrap();
        assert_eq!(to_g1(&decrypt(server_result, &lpn, &preprocessed)), expected);
        masks.push(masked);
    }
    assert_ne!(masks[0], masks[1]);
    assert_ne!(masks[0], witness);
}

#[test]
fn test_emsm_params_use_the_table() {
    let mut rng = SeededRng::seed_from_u64(24);
    let params = EmsmPublicParams::<G1Point>::new(random_generators(3, &mut rng), &mut rng);
    assert_eq!(params.t, 12);
    assert_eq!(params.t_operator.n, 3);
    assert_eq!(params.t_operator.big_n, 12);
    let params = EmsmPublicParams::<G1Point>::new(random_generators(20, &mut rng), &mut rng);
    assert_eq!(params.t, 29);
    let (_, lpn) = encrypt(&params, &random_witness(20, &mut rng), &mut rng);
    assert_eq!(lpn.noise.entries.len(), 29);
    assert_eq!(lpn.noise.size, 80);
}

#[test]
fn test_server_computation_length_mismatch() {
    let mut rng = SeededRng::seed_from_u64(25);
    let params = EmsmPublicParams::<G1Point>::new(random_generators(4, &mut rng), &mut rng);
    let r = params.server_computation(&random_witness(3, &mut rng));
    assert_eq!(r.unwrap_err(), PedersenError::LengthMismatch { scalars: 3, generators: 4 });
}

// ---- the checked variant ----

#[test]
fn test_malicious_honest_server() {
    let mut rng = SeededRng::seed_from_u64(26);
    let n = 64;

    let generators = random_generators(n, &mut rng);
    let witness = random_witness(n, &mut rng);

    let params = EmsmPublicParams::<G1Point>::new(copy_points(&generators), &mut rng);
    let preprocessed = params.preprocess();

    let (encrypted, state) = malicious_encrypt(&params, &witness, &mut rng);
    let (em, em_ck) = malicious_server_evaluate(&params, &encrypted).unwrap();

    let result = malicious_decrypt(em, em_ck, &state, &preprocessed);
    assert!(result.is_ok());

    let ped = Pedersen::<G1Point>::from_generators(generators);
    let expected = ped.commit(&witness).unwrap();
    assert_eq!(result.unwrap(), expected);
}

#[test]
fn test_malicious_cheating_server_detected() {
    let mut rng = SeededRng::seed_from_u64(27);
    let n = 64;

    let generators = random_generators(n, &mut rng);
    let witness = random_witness(n, &mut rng);

    let params = EmsmPublicParams::<G1Point>::new(generators, &mut rng);
    let preprocessed = params.preprocess();

    let (encrypted, state) = malicious_encrypt(&params, &witness, &mut rng);
    let (em, em_ck) = malicious_server_evaluate(&params, &encrypted).unwrap();

    let tampered_em = em.add(&G1Point::rand(&mut rng));

    let result = malicious_decrypt(tampered_em, em_ck, &state, &preprocessed);
    assert!(result.is_err());
    assert_eq!(result.unwrap_err(), MaliciousError::ConsistencyCheckFailed);
}

#[test]
fn test_malicious_tampered_check_detected() {
    let mut rng = SeededRng::seed_from_u64(28);
    let n = 8;
    let params = EmsmPublicParams::<G1Point>::new(random_generators(n, &mut rng), &mut rng);
    let preprocessed = params.preprocess();
    let witness = random_witness(n, &mut rng);
    let (encrypted, state) = malicious_encrypt(&params, &witness, &mut rng);
    let (em, em_ck) = malicious_server_evaluate(&params, &encrypted).unwrap();
    let tampered = em_ck.add(&G1Point::rand(&mut rng));
    assert_eq!(
        malicious_decrypt(em, tampered, &state, &preprocessed).unwrap_err(),
        MaliciousError::ConsistencyCheckFailed
    );
}
