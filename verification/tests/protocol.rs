use ark_bn254::{Fr, G1Affine, G1Projective, G2Affine, G2Projective};
use ark_ec::CurveGroup as ArkCurveGroup;
use ark_ff::PrimeField;
use ark_serialize::{CanonicalDeserialize, CanonicalSerialize};
use stealthsnark::group::{CurveGroup, G1Point, G2Point};
use stealthsnark::protocol::messages::{
    ark_from_bytes, ark_to_bytes, ark_vec_from_bytes, ark_vec_to_bytes, ProveRequest,
    ProveResponse, SetupRequest, Wire, WireError, MAX_VEC_LEN,
};
use stealthsnark::protocol::server::{
    handle_prove, handle_setup, ProveEnvelope, ServerState, SetupEnvelope, Status,
};
use stealthsnark::rng::SeededRng;
use stealthsnark::scalar::Scalar;

fn to_scalar(x: &Fr) -> Scalar {
    let l = x.into_bigint().0;
    Scalar { l0: l[0], l1: l[1], l2: l[2], l3: l[3] }
}

fn ark_vec_bytes<T: CanonicalSerialize>(vals: &[T]) -> Vec<u8> {
    let mut buf = Vec::new();
    (vals.len() as u64).serialize_compressed(&mut buf).unwrap();
    for v in vals {
        v.serialize_compressed(&mut buf).unwrap();
    }
    buf
}

fn random_scalars(n: usize, rng: &mut SeededRng) -> Vec<Scalar> {
    (0..n).map(|_| Scalar::rand(rng)).collect()
}

fn random_g1(n: usize, rng: &mut SeededRng) -> Vec<G1Point> {
    (0..n).map(|_| G1Point::rand(rng)).collect()
}

fn random_g2(n: usize, rng: &mut SeededRng) -> Vec<G2Point> {
    (0..n).map(|_| G2Point::rand(rng)).collect()
}

struct Session {
    h: Vec<G1Point>,
    l: Vec<G1Point>,
    a: Vec<G1Point>,
    b_g1: Vec<G1Point>,
    b_g2: Vec<G2Point>,
}

fn random_session(rng: &mut SeededRng) -> Session {
    Session {
        h: random_g1(3, rng),
        l: random_g1(2, rng),
        a: random_g1(4, rng),
        b_g1: random_g1(1, rng),
        b_g2: random_g2(2, rng),
    }
}

fn setup_request(s: &Session) -> SetupRequest {
    SetupRequest {
        h_generators: ark_vec_to_bytes(&s.h),
        l_generators: ark_vec_to_bytes(&s.l),
        a_generators: ark_vec_to_bytes(&s.a),
        b_g1_generators: ark_vec_to_bytes(&s.b_g1),
        b_g2_generators: ark_vec_to_bytes(&s.b_g2),
    }
}

struct Query {
    h: Vec<Scalar>,
    l: Vec<Scalar>,
    a: Vec<Scalar>,
    b_g1: Vec<Scalar>,
    b_g2: Vec<Scalar>,
}

fn random_query(rng: &mut SeededRng) -> Query {
    Query {
        h: random_scalars(3, rng),
        l: random_scalars(2, rng),
        a: random_scalars(4, rng),
        b_g1: random_scalars(1, rng),
        b_g2: random_scalars(2, rng),
    }
}

fn prove_request(q: &Query) -> ProveRequest {
    ProveRequest {
        v_h: ark_vec_to_bytes(&q.h),
        v_l: ark_vec_to_bytes(&q.l),
        v_a: ark_vec_to_bytes(&q.a),
        v_b_g1: ark_vec_to_bytes(&q.b_g1),
        v_b_g2: ark_vec_to_bytes(&q.b_g2),
    }
}

fn check_response(resp: &ProveResponse, s: &Session, q: &Query) {
    assert_eq!(resp.em_h, G1Point::msm(&s.h, &q.h).unwrap().bytes);
    assert_eq!(resp.em_l, G1Point::msm(&s.l, &q.l).unwrap().bytes);
    assert_eq!(resp.em_a, G1Point::msm(&s.a, &q.a).unwrap().bytes);
    assert_eq!(resp.em_b_g1, G1Point::msm(&s.b_g1, &q.b_g1).unwrap().bytes);
    assert_eq!(resp.em_b_g2, G2Point::msm(&s.b_g2, &q.b_g2).unwrap().bytes);
    assert_eq!(resp.em_h.len(), 32);
    assert_eq!(resp.em_b_g2.len(), 64);
}

#[test]
fn test_scalar_roundtrip() {
    let mut rng = SeededRng::seed_from_u64(1);
    let scalars = random_scalars(10, &mut rng);
    let bytes = ark_vec_to_bytes(&scalars);
    let recovered: Vec<Scalar> = ark_vec_from_bytes(&bytes).unwrap();
    assert_eq!(scalars, recovered);
}

#[test]
fn test_point_roundtrip() {
    let mut rng = SeededRng::seed_from_u64(2);
    let points = random_g1(5, &mut rng);
    let bytes = ark_vec_to_bytes(&points);
    let recovered: Vec<G1Point> = ark_vec_from_bytes(&bytes).unwrap();
    assert_eq!(points, recovered);
}

#[test]
fn test_g2_point_roundtrip() {
    let mut rng = SeededRng::seed_from_u64(3);
    let mut points = random_g2(3, &mut rng);
    points.push(G2Point::zero());
    let bytes = ark_vec_to_bytes(&points);
    assert_eq!(bytes.len(), 8 + 4 * 64);
    let recovered: Vec<G2Point> = ark_vec_from_bytes(&bytes).unwrap();
    assert_eq!(points, recovered);
}

#[test]
fn test_empty_vector_roundtrip() {
    let bytes = ark_vec_to_bytes::<Scalar>(&Vec::new());
    assert_eq!(bytes, vec![0u8; 8]);
    let recovered: Vec<Scalar> = ark_vec_from_bytes(&bytes).unwrap();
    assert!(recovered.is_empty());
}

#[test]
fn test_malformed_bytes_return_error() {
    let result: Result<Vec<Scalar>, _> = ark_vec_from_bytes(&vec![0xff, 0xff]);
    assert!(result.is_err());
    assert_eq!(result.unwrap_err(), WireError::BadLength);
}

#[test]
fn test_oversized_length_rejected() {
    let mut buf = Vec::new();
    let huge_len: u64 = MAX_VEC_LEN + 1;
    ark_serialize::CanonicalSerialize::serialize_compressed(&huge_len, &mut buf).unwrap();
    let result: Result<Vec<Scalar>, _> = ark_vec_from_bytes(&buf);
    assert!(result.is_err());
    let err = result.unwrap_err();
    assert_eq!(err, WireError::TooLong { len: 16777217 });
    assert!(err.message().contains("exceeds maximum"));
    assert_eq!(err.message(), "vec length 16777217 exceeds maximum 16777216");
}

#[test]
fn test_length_at_the_maximum_is_not_oversized() {
    // The length itself is accepted; the first element is missing.
    let mut buf = Vec::new();
    MAX_VEC_LEN.serialize_compressed(&mut buf).unwrap();
    let result: Result<Vec<Scalar>, _> = ark_vec_from_bytes(&buf);
    assert_eq!(result.unwrap_err(), WireError::BadElement { index: 0 });
}

#[test]
fn test_wire_format_is_the_canonical_one() {
    let fr = [Fr::from(1u64), -Fr::from(1u64), Fr::from(0x0123456789abcdefu64)];
    let scalars: Vec<Scalar> = fr.iter().map(to_scalar).collect();
    assert_eq!(ark_vec_to_bytes(&scalars), ark_vec_bytes(&fr));
    let mut expected = vec![0u8; 32];
    expected[0] = 42;
    assert_eq!(ark_to_bytes(&Scalar::from_u64(42)), expected);

    let mut rng = SeededRng::seed_from_u64(4);
    let points = random_g1(3, &mut rng);
    let ark_points: Vec<G1Affine> =
        points.iter().map(|p| G1Affine::deserialize_compressed(&p.bytes[..]).unwrap()).collect();
    assert_eq!(ark_vec_to_bytes(&points), ark_vec_bytes(&ark_points));
    let decoded: Vec<G1Affine> = {
        let bytes = ark_vec_to_bytes(&points);
        let mut cursor = &bytes[..];
        let n = u64::deserialize_compressed(&mut cursor).unwrap();
        (0..n).map(|_| G1Affine::deserialize_compressed(&mut cursor).unwrap()).collect()
    };
    assert_eq!(decoded, ark_points);

    let g2 = random_g2(2, &mut rng);
    let ark_g2: Vec<G2Affine> =
        g2.iter().map(|p| G2Affine::deserialize_compressed(&p.bytes[..]).unwrap()).collect();
    assert_eq!(ark_vec_to_bytes(&g2), ark_vec_bytes(&ark_g2));
    assert_eq!(<Scalar as Wire>::width(), 32);
    assert_eq!(<G1Point as Wire>::width(), 32);
    assert_eq!(<G2Point as Wire>::width(), 64);
}

#[test]
fn test_points_read_from_ark_bytes() {
    let mut ark_rng = ark_std::test_rng();
    let p: G1Affine = <G1Projective as ark_std::UniformRand>::rand(&mut ark_rng).into_affine();
    let q: G2Affine = <G2Projective as ark_std::UniformRand>::rand(&mut ark_rng).into_affine();
    let bytes = ark_vec_bytes(&[p, p]);
    let pts: Vec<G1Point> = ark_vec_from_bytes(&bytes).unwrap();
    assert_eq!(pts.len(), 2);
    assert_eq!(G1Affine::deserialize_compressed(&pts[1].bytes[..]).unwrap(), p);
    let bytes = ark_vec_bytes(&[q]);
    let pts: Vec<G2Point> = ark_vec_from_bytes(&bytes).unwrap();
    assert_eq!(G2Affine::deserialize_compressed(&pts[0].bytes[..]).unwrap(), q);
}

#[test]
fn test_unreduced_scalar_rejected() {
    let mut bytes = vec![0u8; 8];
    bytes[0] = 2;
    bytes.extend_from_slice(&ark_to_bytes(&Scalar::from_u64(5)));
    bytes.extend_from_slice(&[0xffu8; 32]);
    let result: Result<Vec<Scalar>, _> = ark_vec_from_bytes(&bytes);
    assert_eq!(result.unwrap_err(), WireError::BadElement { index: 1 });
    // The same through the outside library.
    assert!(Fr::deserialize_compressed(&[0xffu8; 32][..]).is_err());
}

#[test]
fn test_truncated_element_rejected() {
    let mut rng = SeededRng::seed_from_u64(5);
    let mut bytes = ark_vec_to_bytes(&random_g1(3, &mut rng));
    bytes.pop();
    let result: Result<Vec<G1Point>, _> = ark_vec_from_bytes(&bytes);
    assert_eq!(result.unwrap_err(), WireError::BadElement { index: 2 });
}

#[test]
fn test_bytes_behind_the_vector_are_ignored() {
    let mut rng = SeededRng::seed_from_u64(6);
    let scalars = random_scalars(2, &mut rng);
    let mut bytes = ark_vec_to_bytes(&scalars);
    bytes.extend_from_slice(&[1, 2, 3]);
    let recovered: Vec<Scalar> = ark_vec_from_bytes(&bytes).unwrap();
    assert_eq!(recovered, scalars);
}

#[test]
fn test_single_element_roundtrip() {
    let mut rng = SeededRng::seed_from_u64(7);
    let p = G1Point::rand(&mut rng);
    let bytes = ark_to_bytes(&p);
    assert_eq!(ark_from_bytes::<G1Point>(&bytes).unwrap(), p);
    let s = Scalar::rand(&mut rng);
    assert_eq!(ark_from_bytes::<Scalar>(&ark_to_bytes(&s)).unwrap(), s);
    assert_eq!(
        ark_from_bytes::<Scalar>(&vec![0u8; 31]).unwrap_err(),
        WireError::BadElement { index: 0 }
    );
    assert!(ark_from_bytes::<G1Point>(&vec![0xffu8; 32]).is_err());
    assert_eq!(WireError::BadLength.message(), "failed to read vec length");
    assert_eq!(WireError::BadElement { index: 3 }.message(), "failed to deserialize element 3");
}

#[test]
fn test_status_codes() {
    assert_eq!(Status::Success.code(), 200);
    assert_eq!(Status::BadRequest.code(), 400);
    assert_eq!(Status::PreconditionFailed.code(), 412);
    assert_eq!(Status::InternalServerError.code(), 500);
}

#[test]
fn test_envelopes_hold_id_and_bytes() {
    let s = SetupEnvelope { session_id: "a".to_string(), request: vec![1, 2] };
    let p = ProveEnvelope { session_id: "b".to_string(), request: vec![3] };
    assert_eq!(s.session_id, "a");
    assert_eq!(s.request, vec![1, 2]);
    assert_eq!(p.session_id, "b");
    assert_eq!(p.request, vec![3]);
}

#[test]
fn test_integration_e2e() {
    let mut rng = SeededRng::seed_from_u64(42);
    let mut state = ServerState::new();
    let session = random_session(&mut rng);
    let id = "test-session-42".to_string();
    assert_eq!(handle_setup(&mut state, id.clone(), &setup_request(&session)), Status::Success);
    let query = random_query(&mut rng);
    let resp = handle_prove(&state, &id, &prove_request(&query)).expect("prove failed");
    check_response(&resp, &session, &query);
}

#[test]
fn test_session_isolation() {
    let mut rng = SeededRng::seed_from_u64(99);
    let mut state = ServerState::new();
    let session = random_session(&mut rng);
    let a = "session-a".to_string();
    let b = "session-b".to_string();
    assert_eq!(handle_setup(&mut state, a.clone(), &setup_request(&session)), Status::Success);

    let query = random_query(&mut rng);
    let result = handle_prove(&state, &b, &prove_request(&query));
    assert!(result.is_err(), "Prove against unknown session should fail");
    assert_eq!(result.unwrap_err(), Status::PreconditionFailed);
    assert_eq!(Status::PreconditionFailed.code(), 412);

    let resp = handle_prove(&state, &a, &prove_request(&query)).unwrap();
    check_response(&resp, &session, &query);
}

#[test]
fn test_setup_overwrites_a_session() {
    let mut rng = SeededRng::seed_from_u64(8);
    let mut state = ServerState::new();
    let first = random_session(&mut rng);
    let second = random_session(&mut rng);
    let other = random_session(&mut rng);
    let id = "s".to_string();
    assert_eq!(handle_setup(&mut state, id.clone(), &setup_request(&first)), Status::Success);
    assert_eq!(
        handle_setup(&mut state, "t".to_string(), &setup_request(&other)),
        Status::Success
    );
    assert_eq!(handle_setup(&mut state, id.clone(), &setup_request(&second)), Status::Success);
    assert_eq!(state.sessions.len(), 2);
    let query = random_query(&mut rng);
    let resp = handle_prove(&state, &id, &prove_request(&query)).unwrap();
    check_response(&resp, &second, &query);
    let resp = handle_prove(&state, &"t".to_string(), &prove_request(&query)).unwrap();
    check_response(&resp, &other, &query);
}

#[test]
fn test_malformed_setup_changes_nothing() {
    let mut rng = SeededRng::seed_from_u64(9);
    let mut state = ServerState::new();
    let session = random_session(&mut rng);
    let mut request = setup_request(&session);
    request.b_g2_generators = vec![0xff, 0xff];
    assert_eq!(handle_setup(&mut state, "s".to_string(), &request), Status::BadRequest);
    assert!(state.sessions.is_empty());
    let mut request = setup_request(&session);
    request.a_generators[8] ^= 0xff;
    request.a_generators[9] ^= 0xff;
    request.a_generators[39] = 0xff;
    assert_eq!(handle_setup(&mut state, "s".to_string(), &request), Status::BadRequest);
    assert!(state.find(&"s".to_string()).is_none());
}

#[test]
fn test_prove_bad_requests() {
    let mut rng = SeededRng::seed_from_u64(10);
    let mut state = ServerState::new();
    let session = random_session(&mut rng);
    let id = "s".to_string();
    handle_setup(&mut state, id.clone(), &setup_request(&session));
    // A vector that does not parse.
    let query = random_query(&mut rng);
    let mut request = prove_request(&query);
    request.v_b_g2 = vec![1, 2, 3];
    assert_eq!(handle_prove(&state, &id, &request).unwrap_err(), Status::BadRequest);
    // A vector of the wrong length.
    let mut query = random_query(&mut rng);
    query.a.push(Scalar::one());
    assert_eq!(
        handle_prove(&state, &id, &prove_request(&query)).unwrap_err(),
        Status::BadRequest
    );
    // An unknown session is reported before the request is looked at.
    assert_eq!(
        handle_prove(&state, &"nobody".to_string(), &request).unwrap_err(),
        Status::PreconditionFailed
    );
}
