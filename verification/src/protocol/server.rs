//! The server's side: generators stored per session, and the five
//! multi-scalar multiplications computed on request.

use vstd::prelude::*;
use crate::emsm::pedersen::{dup_all, Pedersen};
use crate::group::{all_valid, encodings, is_valid, msm_of, CurveGroup, G1Point, G2Point, GroupModel};
use crate::protocol::messages::{
    ark_to_bytes, ark_vec_from_bytes, lemma_limbs_roundtrip, limb_at, parse_vec, wires, ProveRequest,
    ProveResponse, SetupRequest, Wire, WireModel,
};
use crate::scalar::{all_wf, limbs_value, values, Scalar};

verus! {

/// How a request ended.
#[derive(Debug, Clone, Copy, PartialEq, Eq, Structural)]
pub enum Status {
    /// The request was served.
    Success,
    /// The request was malformed.
    BadRequest,
    /// The session is not known.
    PreconditionFailed,
    /// The answer could not be written.
    InternalServerError,
}

impl Status {
    /// The HTTP status code.
    pub fn code(&self) -> (c: u16)
        ensures
            c == match *self {
                Status::Success => 200u16,
                Status::BadRequest => 400u16,
                Status::PreconditionFailed => 412u16,
                Status::InternalServerError => 500u16,
            },
    {
        match self {
            Status::Success => 200,
            Status::BadRequest => 400,
            Status::PreconditionFailed => 412,
            Status::InternalServerError => 500,
        }
    }
}

/// A setup request under a session.
#[derive(Debug)]
pub struct SetupEnvelope {
    pub session_id: String,
    /// The setup request in its serialized form.
    pub request: Vec<u8>,
}

/// A prove request under a session.
#[derive(Debug)]
pub struct ProveEnvelope {
    pub session_id: String,
    /// The prove request in its serialized form.
    pub request: Vec<u8>,
}

/// The generators that one session has set up.
#[derive(Debug)]
pub struct SessionState {
    pub h_generators: Vec<G1Point>,
    pub l_generators: Vec<G1Point>,
    pub a_generators: Vec<G1Point>,
    pub b_g1_generators: Vec<G1Point>,
    pub b_g2_generators: Vec<G2Point>,
}

/// The generators of one session, as encodings.
pub struct SessionModel {
    pub h: Seq<Seq<u8>>,
    pub l: Seq<Seq<u8>>,
    pub a: Seq<Seq<u8>>,
    pub b_g1: Seq<Seq<u8>>,
    pub b_g2: Seq<Seq<u8>>,
}

impl SessionState {
    /// Every generator is a group element.
    pub open spec fn wf(self) -> bool {
        &&& all_valid(self.h_generators@)
        &&& all_valid(self.l_generators@)
        &&& all_valid(self.a_generators@)
        &&& all_valid(self.b_g1_generators@)
        &&& all_valid(self.b_g2_generators@)
    }

    /// The generators as encodings.
    pub open spec fn model(self) -> SessionModel {
        SessionModel {
            h: encodings(self.h_generators@),
            l: encodings(self.l_generators@),
            a: encodings(self.a_generators@),
            b_g1: encodings(self.b_g1_generators@),
            b_g2: encodings(self.b_g2_generators@),
        }
    }
}

/// The sessions of a server, each under its id.
#[derive(Debug)]
pub struct ServerState {
    pub sessions: Vec<(String, SessionState)>,
}

/// The position at which the id stands among the entries.
pub open spec fn position_of(entries: Seq<(String, SessionState)>, id: Seq<char>, i: int) -> bool {
    0 <= i < entries.len() && entries[i].0@ == id
}

impl ServerState {
    /// No id stands twice, and every stored generator is a group element.
    pub open spec fn wf(self) -> bool {
        &&& forall|i: int, j: int|
            0 <= i < self.sessions@.len() && 0 <= j < self.sessions@.len()
                && self.sessions@[i].0@ == self.sessions@[j].0@ ==> i == j
        &&& forall|i: int| 0 <= i < self.sessions@.len() ==> (#[trigger] self.sessions@[i]).1.wf()
    }

    /// The sessions as a map from id to generators.
    pub open spec fn view(self) -> Map<Seq<char>, SessionModel> {
        Map::new(
            |id: Seq<char>| exists|i: int| position_of(self.sessions@, id, i),
            |id: Seq<char>|
                self.sessions@[choose|i: int| position_of(self.sessions@, id, i)].1.model(),
        )
    }

    /// A server without sessions.
    pub fn new() -> (r: Self)
        ensures
            r.wf(),
            r@ == Map::<Seq<char>, SessionModel>::empty(),
    {
        let r = ServerState { sessions: Vec::new() };
        assert(r@ =~= Map::<Seq<char>, SessionModel>::empty());
        r
    }

    /// The position of the session with the given id, if it is known.
    pub fn find(&self, session_id: &String) -> (r: Option<usize>)
        requires
            self.wf(),
        ensures
            r.is_some() <==> self@.contains_key(session_id@),
            r.is_some() ==> position_of(self.sessions@, session_id@, r.unwrap() as int)
                && self@[session_id@] == self.sessions@[r.unwrap() as int].1.model(),
    {
        let mut i: usize = 0;
        while i < self.sessions.len()
            invariant
                i <= self.sessions@.len(),
                self.wf(),
                forall|k: int| 0 <= k < i ==> self.sessions@[k].0@ != session_id@,
            decreases self.sessions@.len() - i,
        {
            if self.sessions[i].0 == *session_id {
                proof {
                    assert(position_of(self.sessions@, session_id@, i as int));
                    let c = choose|c: int| position_of(self.sessions@, session_id@, c);
                    assert(c == i);
                }
                return Some(i);
            }
            i = i + 1;
        }
        proof {
            assert(!exists|c: int| position_of(self.sessions@, session_id@, c));
        }
        None
    }
}

/// What the five vectors of a setup request hold, if all of them parse.
pub open spec fn parse_setup(request: &SetupRequest) -> Option<SessionModel> {
    let h = parse_vec::<G1Point>(request.h_generators@);
    let l = parse_vec::<G1Point>(request.l_generators@);
    let a = parse_vec::<G1Point>(request.a_generators@);
    let b_g1 = parse_vec::<G1Point>(request.b_g1_generators@);
    let b_g2 = parse_vec::<G2Point>(request.b_g2_generators@);
    if h.is_ok() && l.is_ok() && a.is_ok() && b_g1.is_ok() && b_g2.is_ok() {
        Some(
            SessionModel {
                h: h.unwrap(),
                l: l.unwrap(),
                a: a.unwrap(),
                b_g1: b_g1.unwrap(),
                b_g2: b_g2.unwrap(),
            },
        )
    } else {
        None
    }
}

/// The elements of a parsed vector are group elements.
proof fn lemma_sound_is_valid_g1(v: Seq<G1Point>)
    requires
        crate::protocol::messages::all_sound(v),
    ensures
        all_valid(v),
        encodings(v) == wires(v),
{
    assert forall|i: int| 0 <= i < v.len() implies is_valid::<G1Point>((#[trigger] v[i]).enc()) by {
        assert(v[i].sound());
    }
    assert(encodings(v) =~= wires(v));
}

/// The elements of a parsed vector are group elements.
proof fn lemma_sound_is_valid_g2(v: Seq<G2Point>)
    requires
        crate::protocol::messages::all_sound(v),
    ensures
        all_valid(v),
        encodings(v) == wires(v),
{
    assert forall|i: int| 0 <= i < v.len() implies is_valid::<G2Point>((#[trigger] v[i]).enc()) by {
        assert(v[i].sound());
    }
    assert(encodings(v) =~= wires(v));
}

/// Stores the generators of a setup request under the session id; an earlier
/// session of that id is replaced. A request of which a vector does not
/// parse changes nothing.
pub fn handle_setup(state: &mut ServerState, session_id: String, request: &SetupRequest) -> (r:
    Status)
    requires
        old(state).wf(),
    ensures
        final(state).wf(),
        parse_setup(request).is_some() ==> r == Status::Success && final(state)@ == old(state)@.insert(
            session_id@,
            parse_setup(request).unwrap(),
        ),
        parse_setup(request).is_none() ==> r == Status::BadRequest && final(state)@ == old(state)@,
{
    let h_gens: Vec<G1Point> = match ark_vec_from_bytes(&request.h_generators) {
        Ok(v) => v,
        Err(_) => {
            return Status::BadRequest;
        },
    };
    let l_gens: Vec<G1Point> = match ark_vec_from_bytes(&request.l_generators) {
        Ok(v) => v,
        Err(_) => {
            return Status::BadRequest;
        },
    };
    let a_gens: Vec<G1Point> = match ark_vec_from_bytes(&request.a_generators) {
        Ok(v) => v,
        Err(_) => {
            return Status::BadRequest;
        },
    };
    let b_g1_gens: Vec<G1Point> = match ark_vec_from_bytes(&request.b_g1_generators) {
        Ok(v) => v,
        Err(_) => {
            return Status::BadRequest;
        },
    };
    let b_g2_gens: Vec<G2Point> = match ark_vec_from_bytes(&request.b_g2_generators) {
        Ok(v) => v,
        Err(_) => {
            return Status::BadRequest;
        },
    };
    proof {
        lemma_sound_is_valid_g1(h_gens@);
        lemma_sound_is_valid_g1(l_gens@);
        lemma_sound_is_valid_g1(a_gens@);
        lemma_sound_is_valid_g1(b_g1_gens@);
        lemma_sound_is_valid_g2(b_g2_gens@);
    }
    let session = SessionState {
        h_generators: h_gens,
        l_generators: l_gens,
        a_generators: a_gens,
        b_g1_generators: b_g1_gens,
        b_g2_generators: b_g2_gens,
    };
    assert(session.model() == parse_setup(request).unwrap());
    let ghost before = state.sessions@;
    let ghost old_map = state@;
    let ghost id = session_id@;
    let ghost model = session.model();
    match state.find(&session_id) {
        Some(i) => {
            state.sessions.set(i, (session_id, session));
            proof {
                let after = state.sessions@;
                assert forall|k: int| 0 <= k < after.len() implies after[k].0@ == before[k].0@ by {}
                assert forall|x: Seq<char>| #[trigger]
                    state@.contains_key(x) <==> old_map.insert(id, model).contains_key(x) by {
                    if state@.contains_key(x) {
                        let c = choose|c: int| position_of(after, x, c);
                        assert(position_of(before, x, c));
                    }
                    if old_map.insert(id, model).contains_key(x) {
                        if x == id {
                            assert(position_of(after, x, i as int));
                        } else {
                            let c = choose|c: int| position_of(before, x, c);
                            assert(position_of(after, x, c));
                        }
                    }
                }
                assert forall|x: Seq<char>| state@.contains_key(x) implies #[trigger] state@[x]
                    == old_map.insert(id, model)[x] by {
                    let c = choose|c: int| position_of(after, x, c);
                    if x == id {
                        assert(c == i);
                    } else {
                        assert(position_of(before, x, c));
                        let c0 = choose|c0: int| position_of(before, x, c0);
                        assert(c0 == c);
                        assert(after[c] == before[c]);
                    }
                }
                assert(state@ =~= old_map.insert(id, model));
            }
        },
        None => {
            state.sessions.push((session_id, session));
            proof {
                let after = state.sessions@;
                let n = before.len() as int;
                assert(!old_map.contains_key(id));
                assert forall|k: int| 0 <= k < n implies before[k].0@ != id by {
                    if before[k].0@ == id {
                        assert(position_of(before, id, k));
                    }
                }
                assert forall|x: Seq<char>| #[trigger]
                    state@.contains_key(x) <==> old_map.insert(id, model).contains_key(x) by {
                    if state@.contains_key(x) {
                        let c = choose|c: int| position_of(after, x, c);
                        if c < n {
                            assert(position_of(before, x, c));
                        }
                    }
                    if old_map.insert(id, model).contains_key(x) {
                        if x == id {
                            assert(position_of(after, x, n));
                        } else {
                            let c = choose|c: int| position_of(before, x, c);
                            assert(position_of(after, x, c));
                        }
                    }
                }
                assert forall|x: Seq<char>| state@.contains_key(x) implies #[trigger] state@[x]
                    == old_map.insert(id, model)[x] by {
                    let c = choose|c: int| position_of(after, x, c);
                    if x == id {
                        assert(c == n);
                    } else {
                        assert(c < n);
                        assert(position_of(before, x, c));
                        let c0 = choose|c0: int| position_of(before, x, c0);
                        assert(c0 == c);
                    }
                }
                assert(state@ =~= old_map.insert(id, model));
            }
        },
    }
    Status::Success
}

/// The scalar that 32 bytes stand for.
pub open spec fn scalar_of_wire(bytes: Seq<u8>) -> nat {
    limbs_value(limb_at(bytes, 0), limb_at(bytes, 1), limb_at(bytes, 2), limb_at(bytes, 3))
}

/// The scalars that a sequence of encodings stands for.
pub open spec fn scalars_of_wire(chunks: Seq<Seq<u8>>) -> Seq<nat> {
    Seq::new(chunks.len(), |i: int| scalar_of_wire(chunks[i]))
}

/// The answer for one slot: the multi-scalar multiplication of the parsed
/// scalars against the generators of the slot, or `BadRequest` where the
/// bytes do not parse or the numbers of scalars and generators differ.
pub open spec fn slot_answer<G: GroupModel>(generators: Seq<Seq<u8>>, bytes: Seq<u8>) -> Result<
    Seq<u8>,
    Status,
> {
    let parsed = parse_vec::<Scalar>(bytes);
    if parsed.is_err() {
        Err(Status::BadRequest)
    } else if parsed.unwrap().len() != generators.len() {
        Err(Status::BadRequest)
    } else {
        Ok(msm_of::<G>(generators, scalars_of_wire(parsed.unwrap())))
    }
}

/// The five answers of a prove request, as encodings.
pub struct ResponseModel {
    pub em_h: Seq<u8>,
    pub em_l: Seq<u8>,
    pub em_a: Seq<u8>,
    pub em_b_g1: Seq<u8>,
    pub em_b_g2: Seq<u8>,
}

/// What a prove request is answered with: `PreconditionFailed` for an
/// unknown session, `BadRequest` where a slot cannot be answered, else the
/// five answers.
pub open spec fn prove_outcome(
    sessions: Map<Seq<char>, SessionModel>,
    session_id: Seq<char>,
    request: &ProveRequest,
) -> Result<ResponseModel, Status> {
    if !sessions.contains_key(session_id) {
        Err(Status::PreconditionFailed)
    } else {
        let session = sessions[session_id];
        let h = slot_answer::<G1Point>(session.h, request.v_h@);
        let l = slot_answer::<G1Point>(session.l, request.v_l@);
        let a = slot_answer::<G1Point>(session.a, request.v_a@);
        let b_g1 = slot_answer::<G1Point>(session.b_g1, request.v_b_g1@);
        let b_g2 = slot_answer::<G2Point>(session.b_g2, request.v_b_g2@);
        if h.is_ok() && l.is_ok() && a.is_ok() && b_g1.is_ok() && b_g2.is_ok() {
            Ok(
                ResponseModel {
                    em_h: h.unwrap(),
                    em_l: l.unwrap(),
                    em_a: a.unwrap(),
                    em_b_g1: b_g1.unwrap(),
                    em_b_g2: b_g2.unwrap(),
                },
            )
        } else {
            Err(Status::BadRequest)
        }
    }
}

/// The scalars read from the wire are reduced and have the values that
/// their bytes stand for.
proof fn lemma_parsed_scalars(v: Seq<Scalar>)
    requires
        crate::protocol::messages::all_sound(v),
    ensures
        all_wf(v),
        values(v) == scalars_of_wire(wires(v)),
{
    assert forall|i: int| 0 <= i < v.len() implies (#[trigger] v[i]).wf() by {
        assert(v[i].sound());
    }
    assert forall|i: int| 0 <= i < v.len() implies values(v)[i] == scalars_of_wire(wires(v))[i] by {
        lemma_limbs_roundtrip(v[i].l0, v[i].l1, v[i].l2, v[i].l3);
    }
    assert(values(v) =~= scalars_of_wire(wires(v)));
}

/// The scalars that the bytes of one slot hold, or `BadRequest`.
pub fn parse_slot(bytes: &Vec<u8>) -> (r: Result<Vec<Scalar>, Status>)
    ensures
        r.is_ok() <==> parse_vec::<Scalar>(bytes@).is_ok(),
        r.is_ok() ==> wires(r.unwrap()@) == parse_vec::<Scalar>(bytes@).unwrap() && all_wf(
            r.unwrap()@,
        ) && values(r.unwrap()@) == scalars_of_wire(wires(r.unwrap()@)),
        r.is_err() ==> r.unwrap_err() == Status::BadRequest,
{
    match ark_vec_from_bytes::<Scalar>(bytes) {
        Ok(v) => {
            proof {
                lemma_parsed_scalars(v@);
            }
            Ok(v)
        },
        Err(_) => Err(Status::BadRequest),
    }
}

/// Answers one slot: multiplies the scalars against the generators, or
/// gives `BadRequest` where their numbers differ.
pub fn answer_slot<G: CurveGroup>(generators: &Vec<G>, scalars: &Vec<Scalar>) -> (r: Result<
    G,
    Status,
>)
    requires
        all_valid(generators@),
        all_wf(scalars@),
    ensures
        r.is_ok() <==> scalars@.len() == generators@.len(),
        r.is_ok() ==> r.unwrap().enc() == msm_of::<G>(encodings(generators@), values(scalars@))
            && is_valid::<G>(r.unwrap().enc()),
        r.is_err() ==> r->Err_0 == Status::BadRequest,
{
    let ped = Pedersen::<G>::from_generators(dup_all(generators));
    match ped.commit(scalars) {
        Ok(p) => Ok(p),
        Err(_) => Err(Status::BadRequest),
    }
}

/// Answers a prove request: the session must be known, each of the five
/// slots must parse, and each must fit its generators.
pub fn handle_prove(state: &ServerState, session_id: &String, request: &ProveRequest) -> (r: Result<
    ProveResponse,
    Status,
>)
    requires
        state.wf(),
    ensures
        r.is_ok() <==> prove_outcome(state@, session_id@, request).is_ok(),
        r.is_err() ==> r.unwrap_err() == prove_outcome(state@, session_id@, request)->Err_0,
        r.is_ok() ==> {
            let resp = r.unwrap();
            let model = prove_outcome(state@, session_id@, request)->Ok_0;
            &&& resp.em_h@ == model.em_h
            &&& resp.em_l@ == model.em_l
            &&& resp.em_a@ == model.em_a
            &&& resp.em_b_g1@ == model.em_b_g1
            &&& resp.em_b_g2@ == model.em_b_g2
        },
{
    let i: usize = match state.find(session_id) {
        Some(i) => i,
        None => {
            return Err(Status::PreconditionFailed);
        },
    };
    let session = &state.sessions[i].1;
    assert(session.wf());

    let v_h = match parse_slot(&request.v_h) {
        Ok(v) => v,
        Err(e) => {
            return Err(e);
        },
    };
    let v_l = match parse_slot(&request.v_l) {
        Ok(v) => v,
        Err(e) => {
            return Err(e);
        },
    };
    let v_a = match parse_slot(&request.v_a) {
        Ok(v) => v,
        Err(e) => {
            return Err(e);
        },
    };
    let v_b_g1 = match parse_slot(&request.v_b_g1) {
        Ok(v) => v,
        Err(e) => {
            return Err(e);
        },
    };
    let v_b_g2 = match parse_slot(&request.v_b_g2) {
        Ok(v) => v,
        Err(e) => {
            return Err(e);
        },
    };
    proof {
        assert(wires(v_h@).len() == v_h@.len());
        assert(wires(v_l@).len() == v_l@.len());
        assert(wires(v_a@).len() == v_a@.len());
        assert(wires(v_b_g1@).len() == v_b_g1@.len());
        assert(wires(v_b_g2@).len() == v_b_g2@.len());
    }

    let em_h = match answer_slot(&session.h_generators, &v_h) {
        Ok(p) => p,
        Err(e) => {
            return Err(e);
        },
    };
    let em_l = match answer_slot(&session.l_generators, &v_l) {
        Ok(p) => p,
        Err(e) => {
            return Err(e);
        },
    };
    let em_a = match answer_slot(&session.a_generators, &v_a) {
        Ok(p) => p,
        Err(e) => {
            return Err(e);
        },
    };
    let em_b_g1 = match answer_slot(&session.b_g1_generators, &v_b_g1) {
        Ok(p) => p,
        Err(e) => {
            return Err(e);
        },
    };
    let em_b_g2 = match answer_slot(&session.b_g2_generators, &v_b_g2) {
        Ok(p) => p,
        Err(e) => {
            return Err(e);
        },
    };
    Ok(
        ProveResponse {
            em_h: ark_to_bytes(&em_h),
            em_l: ark_to_bytes(&em_l),
            em_a: ark_to_bytes(&em_a),
            em_b_g1: ark_to_bytes(&em_b_g1),
            em_b_g2: ark_to_bytes(&em_b_g2),
        },
    )
}

} // verus!
