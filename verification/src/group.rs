//! The two BN254 source groups, each point held as its canonical compressed
//! encoding.

use vstd::prelude::*;
use crate::rng::SeededRng;
use crate::scalar::{all_wf, values, Scalar};

verus! {

/// What decoding and re-encoding makes of a byte string in G1, if it decodes.
pub uninterp spec fn g1_normalize(bytes: Seq<u8>) -> Option<Seq<u8>>;

/// The encoding of the sum of two encoded G1 points.
pub uninterp spec fn g1_sum(a: Seq<u8>, b: Seq<u8>) -> Seq<u8>;

/// The encoding of the difference of two encoded G1 points.
pub uninterp spec fn g1_diff(a: Seq<u8>, b: Seq<u8>) -> Seq<u8>;

/// The encoding of an encoded G1 point times a scalar.
pub uninterp spec fn g1_scale(p: Seq<u8>, k: nat) -> Seq<u8>;

/// The encoding of the G1 point that a ChaCha20 generator with the given
/// seed draws at the given position of its stream, and the position behind
/// the draw.
pub uninterp spec fn g1_draw(seed: Seq<u8>, word_pos: u128) -> (Seq<u8>, u128);

/// The encoding of the G2 point that a ChaCha20 generator with the given
/// seed draws at the given position of its stream, and the position behind
/// the draw.
pub uninterp spec fn g2_draw(seed: Seq<u8>, word_pos: u128) -> (Seq<u8>, u128);

/// What decoding and re-encoding makes of a byte string in G2, if it decodes.
pub uninterp spec fn g2_normalize(bytes: Seq<u8>) -> Option<Seq<u8>>;

/// The encoding of the sum of two encoded G2 points.
pub uninterp spec fn g2_sum(a: Seq<u8>, b: Seq<u8>) -> Seq<u8>;

/// The encoding of the difference of two encoded G2 points.
pub uninterp spec fn g2_diff(a: Seq<u8>, b: Seq<u8>) -> Seq<u8>;

/// The encoding of an encoded G2 point times a scalar.
pub uninterp spec fn g2_scale(p: Seq<u8>, k: nat) -> Seq<u8>;

/// The encoding of the point at infinity in `len` bytes: all zero but for
/// the infinity flag in the last byte.
pub open spec fn infinity_encoding(len: nat) -> Seq<u8> {
    Seq::new(len, |i: int| if i == len - 1 { 0x40u8 } else { 0u8 })
}

/// The arithmetic of a curve group, stated over canonical encodings.
pub trait GroupModel: Sized {
    /// The encoding that this element holds.
    spec fn enc(&self) -> Seq<u8>;

    /// The number of bytes of an encoding.
    spec fn width() -> nat;

    /// What decoding and re-encoding makes of a byte string, if it decodes.
    spec fn normalize(bytes: Seq<u8>) -> Option<Seq<u8>>;

    /// An encoding has between 1 and 64 bytes.
    proof fn lemma_width()
        ensures
            0 < Self::width() <= 64,
    ;

    /// The encoding of the neutral element.
    spec fn identity() -> Seq<u8>;

    /// The encoding of the sum.
    spec fn sum(a: Seq<u8>, b: Seq<u8>) -> Seq<u8>;

    /// The encoding of the difference.
    spec fn diff(a: Seq<u8>, b: Seq<u8>) -> Seq<u8>;

    /// The encoding of the scalar multiple.
    spec fn scale(p: Seq<u8>, k: nat) -> Seq<u8>;

    /// The encoding of the element that a generator with the given seed
    /// draws at the given position, and the position behind the draw.
    spec fn draw(seed: Seq<u8>, word_pos: u128) -> (Seq<u8>, u128);
}

/// The encoding of the element that the generator draws next.
pub open spec fn next_point<G: GroupModel>(rng: SeededRng) -> Seq<u8> {
    G::draw(rng.seed@, rng.word_pos).0
}

/// The generator behind its next draw of an element.
pub open spec fn after_point<G: GroupModel>(rng: SeededRng) -> SeededRng {
    rng.at(G::draw(rng.seed@, rng.word_pos).1)
}

/// A curve group whose elements are held as canonical encodings.
pub trait CurveGroup: GroupModel {
    /// The neutral element.
    fn zero() -> (r: Self)
        ensures
            r.enc() == Self::identity(),
            is_valid::<Self>(r.enc()),
    ;

    /// The element that the bytes decode to, if they decode.
    fn from_bytes(bytes: &Vec<u8>) -> (r: Option<Self>)
        ensures
            r.is_some() <==> Self::normalize(bytes@).is_some(),
            r.is_some() ==> r.unwrap().enc() == Self::normalize(bytes@).unwrap() && is_valid::<
                Self,
            >(r.unwrap().enc()),
    ;

    /// The encoding.
    fn to_bytes(&self) -> (r: Vec<u8>)
        ensures
            r@ == self.enc(),
    ;

    /// A copy.
    fn dup(&self) -> (r: Self)
        ensures
            r.enc() == self.enc(),
    ;

    /// Whether two elements are the same.
    fn same(&self, other: &Self) -> (b: bool)
        ensures
            b == (self.enc() == other.enc()),
    ;

    /// The sum.
    fn add(&self, rhs: &Self) -> (r: Self)
        requires
            is_valid::<Self>(self.enc()),
            is_valid::<Self>(rhs.enc()),
        ensures
            r.enc() == Self::sum(self.enc(), rhs.enc()),
            is_valid::<Self>(r.enc()),
    ;

    /// The difference.
    fn sub(&self, rhs: &Self) -> (r: Self)
        requires
            is_valid::<Self>(self.enc()),
            is_valid::<Self>(rhs.enc()),
        ensures
            r.enc() == Self::diff(self.enc(), rhs.enc()),
            is_valid::<Self>(r.enc()),
    ;

    /// The scalar multiple.
    fn mul(&self, k: &Scalar) -> (r: Self)
        requires
            is_valid::<Self>(self.enc()),
            k.wf(),
        ensures
            r.enc() == Self::scale(self.enc(), k@),
            is_valid::<Self>(r.enc()),
    ;

    /// The multi-scalar multiplication `Σ scalars[i] · bases[i]`, or the
    /// shorter of the two lengths where they differ.
    fn msm(bases: &Vec<Self>, scalars: &Vec<Scalar>) -> (r: Result<Self, usize>)
        requires
            all_valid::<Self>(bases@),
            all_wf(scalars@),
        ensures
            bases@.len() == scalars@.len() ==> r.is_ok() && r.unwrap().enc() == msm_of::<Self>(
                encodings(bases@),
                values(scalars@),
            ) && is_valid::<Self>(r.unwrap().enc()),
            bases@.len() != scalars@.len() ==> r.is_err() && r->Err_0 == shorter(
                bases@.len(),
                scalars@.len(),
            ),
    ;

    /// The next element of the generator: the draw that the seed and the
    /// position decide, after which the generator stands behind that draw.
    fn rand(rng: &mut SeededRng) -> (r: Self)
        ensures
            r.enc() == next_point::<Self>(*old(rng)),
            *final(rng) == after_point::<Self>(*old(rng)),
            is_valid::<Self>(r.enc()),
    ;
}

/// The bytes are the canonical encoding of a group element: they have the
/// width of the group and decode to a point with that very encoding.
pub open spec fn is_valid<G: GroupModel>(bytes: Seq<u8>) -> bool {
    bytes.len() == G::width() && G::normalize(bytes) == Some(bytes)
}

/// The smaller of two lengths.
pub open spec fn shorter(a: nat, b: nat) -> nat {
    if a <= b {
        a
    } else {
        b
    }
}

/// The encodings of a sequence of elements.
pub open spec fn encodings<G: GroupModel>(s: Seq<G>) -> Seq<Seq<u8>> {
    Seq::new(s.len(), |i: int| s[i].enc())
}

/// Every element of the sequence holds a canonical encoding.
pub open spec fn all_valid<G: GroupModel>(s: Seq<G>) -> bool {
    forall|i: int| 0 <= i < s.len() ==> is_valid::<G>((#[trigger] s[i]).enc())
}

/// Every byte string of the sequence is a canonical encoding.
pub open spec fn all_valid_enc<G: GroupModel>(s: Seq<Seq<u8>>) -> bool {
    forall|i: int| 0 <= i < s.len() ==> is_valid::<G>(#[trigger] s[i])
}

/// `Σ scalars[i] · bases[i]`, added up from the left; the neutral element
/// for no terms.
pub open spec fn msm_of<G: GroupModel>(bases: Seq<Seq<u8>>, scalars: Seq<nat>) -> Seq<u8>
    decreases bases.len(),
{
    if bases.len() == 0 || scalars.len() != bases.len() {
        G::identity()
    } else {
        G::sum(
            msm_of::<G>(bases.drop_last(), scalars.drop_last()),
            G::scale(bases.last(), scalars.last()),
        )
    }
}

/// Whether the element holds the canonical encoding of a group element: its
/// bytes decode, and to that very element.
pub fn is_element<G: CurveGroup>(p: &G) -> (b: bool)
    ensures
        b == is_valid::<G>(p.enc()),
{
    let bytes = p.to_bytes();
    match G::from_bytes(&bytes) {
        Some(q) => q.same(p),
        None => false,
    }
}

/// Whether every element of the vector holds the canonical encoding of a
/// group element.
pub fn all_elements<G: CurveGroup>(v: &Vec<G>) -> (b: bool)
    ensures
        b == all_valid(v@),
{
    let mut i: usize = 0;
    while i < v.len()
        invariant
            i <= v@.len(),
            forall|k: int| 0 <= k < i ==> is_valid::<G>((#[trigger] v@[k]).enc()),
        decreases v@.len() - i,
    {
        if !is_element(&v[i]) {
            return false;
        }
        i = i + 1;
    }
    true
}

/// Whether two byte vectors hold the same bytes.
pub fn bytes_eq(a: &Vec<u8>, b: &Vec<u8>) -> (r: bool)
    ensures
        r == (a@ == b@),
{
    if a.len() != b.len() {
        return false;
    }
    let mut i: usize = 0;
    while i < a.len()
        invariant
            i <= a@.len(),
            a@.len() == b@.len(),
            forall|k: int| 0 <= k < i ==> a@[k] == b@[k],
        decreases a@.len() - i,
    {
        if a[i] != b[i] {
            return false;
        }
        i = i + 1;
    }
    assert(a@ =~= b@);
    true
}

/// A copy of a byte vector.
pub fn copy_bytes(a: &Vec<u8>) -> (r: Vec<u8>)
    ensures
        r@ == a@,
{
    let mut r: Vec<u8> = Vec::new();
    let mut i: usize = 0;
    while i < a.len()
        invariant
            i <= a@.len(),
            r@ == a@.take(i as int),
        decreases a@.len() - i,
    {
        r.push(a[i]);
        assert(a@.take(i + 1) =~= a@.take(i as int).push(a@[i as int]));
        i = i + 1;
    }
    assert(a@.take(a@.len() as int) =~= a@);
    r
}

/// A point of G1, as 32 bytes.
#[derive(Debug, Clone, PartialEq, Eq)]
pub struct G1Point {
    pub bytes: Vec<u8>,
}

/// A point of G2, as 64 bytes.
#[derive(Debug, Clone, PartialEq, Eq)]
pub struct G2Point {
    pub bytes: Vec<u8>,
}

impl GroupModel for G1Point {
    open spec fn enc(&self) -> Seq<u8> {
        self.bytes@
    }

    open spec fn width() -> nat {
        32
    }

    open spec fn normalize(bytes: Seq<u8>) -> Option<Seq<u8>> {
        g1_normalize(bytes)
    }

    proof fn lemma_width() {
    }

    open spec fn identity() -> Seq<u8> {
        infinity_encoding(32)
    }

    open spec fn sum(a: Seq<u8>, b: Seq<u8>) -> Seq<u8> {
        g1_sum(a, b)
    }

    open spec fn diff(a: Seq<u8>, b: Seq<u8>) -> Seq<u8> {
        g1_diff(a, b)
    }

    open spec fn scale(p: Seq<u8>, k: nat) -> Seq<u8> {
        g1_scale(p, k)
    }

    open spec fn draw(seed: Seq<u8>, word_pos: u128) -> (Seq<u8>, u128) {
        g1_draw(seed, word_pos)
    }
}

impl CurveGroup for G1Point {
    fn zero() -> (r: Self) {
        G1Point { bytes: g1_encode_zero() }
    }

    fn from_bytes(bytes: &Vec<u8>) -> (r: Option<Self>) {
        match g1_reencode(bytes) {
            Some(canonical) => Some(G1Point { bytes: canonical }),
            None => None,
        }
    }

    fn to_bytes(&self) -> (r: Vec<u8>) {
        copy_bytes(&self.bytes)
    }

    fn dup(&self) -> (r: Self) {
        G1Point { bytes: copy_bytes(&self.bytes) }
    }

    fn same(&self, other: &Self) -> (b: bool) {
        bytes_eq(&self.bytes, &other.bytes)
    }

    fn add(&self, rhs: &Self) -> (r: Self) {
        G1Point { bytes: g1_add(&self.bytes, &rhs.bytes) }
    }

    fn sub(&self, rhs: &Self) -> (r: Self) {
        G1Point { bytes: g1_sub(&self.bytes, &rhs.bytes) }
    }

    fn mul(&self, k: &Scalar) -> (r: Self) {
        G1Point { bytes: g1_mul(&self.bytes, k) }
    }

    fn msm(bases: &Vec<Self>, scalars: &Vec<Scalar>) -> (r: Result<Self, usize>) {
        match g1_msm(bases, scalars) {
            Ok(bytes) => Ok(G1Point { bytes }),
            Err(shorter) => Err(shorter),
        }
    }

    fn rand(rng: &mut SeededRng) -> (r: Self) {
        let (bytes, pos) = g1_rand(&rng.seed, rng.word_pos);
        rng.word_pos = pos;
        G1Point { bytes }
    }
}

impl GroupModel for G2Point {
    open spec fn enc(&self) -> Seq<u8> {
        self.bytes@
    }

    open spec fn width() -> nat {
        64
    }

    open spec fn normalize(bytes: Seq<u8>) -> Option<Seq<u8>> {
        g2_normalize(bytes)
    }

    proof fn lemma_width() {
    }

    open spec fn identity() -> Seq<u8> {
        infinity_encoding(64)
    }

    open spec fn sum(a: Seq<u8>, b: Seq<u8>) -> Seq<u8> {
        g2_sum(a, b)
    }

    open spec fn diff(a: Seq<u8>, b: Seq<u8>) -> Seq<u8> {
        g2_diff(a, b)
    }

    open spec fn scale(p: Seq<u8>, k: nat) -> Seq<u8> {
        g2_scale(p, k)
    }

    open spec fn draw(seed: Seq<u8>, word_pos: u128) -> (Seq<u8>, u128) {
        g2_draw(seed, word_pos)
    }
}

impl CurveGroup for G2Point {
    fn zero() -> (r: Self) {
        G2Point { bytes: g2_encode_zero() }
    }

    fn from_bytes(bytes: &Vec<u8>) -> (r: Option<Self>) {
        match g2_reencode(bytes) {
            Some(canonical) => Some(G2Point { bytes: canonical }),
            None => None,
        }
    }

    fn to_bytes(&self) -> (r: Vec<u8>) {
        copy_bytes(&self.bytes)
    }

    fn dup(&self) -> (r: Self) {
        G2Point { bytes: copy_bytes(&self.bytes) }
    }

    fn same(&self, other: &Self) -> (b: bool) {
        bytes_eq(&self.bytes, &other.bytes)
    }

    fn add(&self, rhs: &Self) -> (r: Self) {
        G2Point { bytes: g2_add(&self.bytes, &rhs.bytes) }
    }

    fn sub(&self, rhs: &Self) -> (r: Self) {
        G2Point { bytes: g2_sub(&self.bytes, &rhs.bytes) }
    }

    fn mul(&self, k: &Scalar) -> (r: Self) {
        G2Point { bytes: g2_mul(&self.bytes, k) }
    }

    fn msm(bases: &Vec<Self>, scalars: &Vec<Scalar>) -> (r: Result<Self, usize>) {
        match g2_msm(bases, scalars) {
            Ok(bytes) => Ok(G2Point { bytes }),
            Err(shorter) => Err(shorter),
        }
    }

    fn rand(rng: &mut SeededRng) -> (r: Self) {
        let (bytes, pos) = g2_rand(&rng.seed, rng.word_pos);
        rng.word_pos = pos;
        G2Point { bytes }
    }
}

/// `serialize_compressed` of `G1Affine::identity()`: 31 zero bytes and the
/// infinity flag in the last byte, which decode to themselves.
#[verifier::external_body]
fn g1_encode_zero() -> (r: Vec<u8>)
    ensures
        r@ == infinity_encoding(32),
        r@.len() == 32,
        g1_normalize(r@) == Some(r@),
{
    let mut out = Vec::new();
    ark_serialize::CanonicalSerialize::serialize_compressed(&ark_bn254::G1Affine::identity(), &mut out).unwrap();
    out
}

/// `deserialize_compressed` of `G1Affine`, with the curve and subgroup
/// checks, followed by `serialize_compressed`: `None` where the bytes do not
/// decode, else 32 bytes that decode to themselves.
#[verifier::external_body]
fn g1_reencode(bytes: &Vec<u8>) -> (r: Option<Vec<u8>>)
    ensures
        r.is_some() == g1_normalize(bytes@).is_some(),
        r.is_some() ==> r.unwrap()@ == g1_normalize(bytes@).unwrap(),
        r.is_some() ==> r.unwrap()@.len() == 32 && g1_normalize(r.unwrap()@) == Some(r.unwrap()@),
{
    let p: ark_bn254::G1Affine = ark_serialize::CanonicalDeserialize::deserialize_compressed(&bytes[..]).ok()?;
    let mut out = Vec::new();
    ark_serialize::CanonicalSerialize::serialize_compressed(&p, &mut out).ok()?;
    Some(out)
}

/// `deserialize_compressed_unchecked`, `+`, `into_affine` and
/// `serialize_compressed` of `G1Affine`: the 32 bytes of the sum, which
/// decode to themselves. Decoding fails on bytes that are no encoding.
#[verifier::external_body]
fn g1_add(a: &Vec<u8>, b: &Vec<u8>) -> (r: Vec<u8>)
    requires
        a@.len() == 32,
        g1_normalize(a@) == Some(a@),
        b@.len() == 32,
        g1_normalize(b@) == Some(b@),
    ensures
        r@ == g1_sum(a@, b@),
        r@.len() == 32,
        g1_normalize(r@) == Some(r@),
{
    let p: ark_bn254::G1Affine = ark_serialize::CanonicalDeserialize::deserialize_compressed_unchecked(&a[..]).unwrap();
    let q: ark_bn254::G1Affine = ark_serialize::CanonicalDeserialize::deserialize_compressed_unchecked(&b[..]).unwrap();
    let mut out = Vec::new();
    ark_serialize::CanonicalSerialize::serialize_compressed(&ark_ec::CurveGroup::into_affine(p + q), &mut out).unwrap();
    out
}

/// `deserialize_compressed_unchecked`, `-`, `into_affine` and
/// `serialize_compressed` of `G1Affine`: the 32 bytes of the difference,
/// which decode to themselves. Decoding fails on bytes that are no encoding.
#[verifier::external_body]
fn g1_sub(a: &Vec<u8>, b: &Vec<u8>) -> (r: Vec<u8>)
    requires
        a@.len() == 32,
        g1_normalize(a@) == Some(a@),
        b@.len() == 32,
        g1_normalize(b@) == Some(b@),
    ensures
        r@ == g1_diff(a@, b@),
        r@.len() == 32,
        g1_normalize(r@) == Some(r@),
{
    let p: ark_bn254::G1Affine = ark_serialize::CanonicalDeserialize::deserialize_compressed_unchecked(&a[..]).unwrap();
    let q: ark_bn254::G1Affine = ark_serialize::CanonicalDeserialize::deserialize_compressed_unchecked(&b[..]).unwrap();
    let mut out = Vec::new();
    ark_serialize::CanonicalSerialize::serialize_compressed(&ark_ec::CurveGroup::into_affine(p - q), &mut out).unwrap();
    out
}

/// `deserialize_compressed_unchecked`, `*` by an `Fr`, `into_affine` and
/// `serialize_compressed` of `G1Affine`: the 32 bytes of the multiple, which
/// decode to themselves. Decoding fails on bytes that are no encoding, and
/// `from_bigint` refuses limbs that are not reduced.
#[verifier::external_body]
fn g1_mul(a: &Vec<u8>, k: &Scalar) -> (r: Vec<u8>)
    requires
        a@.len() == 32,
        g1_normalize(a@) == Some(a@),
        k.wf(),
    ensures
        r@ == g1_scale(a@, k@),
        r@.len() == 32,
        g1_normalize(r@) == Some(r@),
{
    let p: ark_bn254::G1Affine = ark_serialize::CanonicalDeserialize::deserialize_compressed_unchecked(&a[..]).unwrap();
    let s = <ark_bn254::Fr as ark_ff::PrimeField>::from_bigint(ark_ff::BigInt::new([k.l0, k.l1, k.l2, k.l3])).unwrap();
    let mut out = Vec::new();
    ark_serialize::CanonicalSerialize::serialize_compressed(&ark_ec::CurveGroup::into_affine(p * s), &mut out).unwrap();
    out
}

/// `VariableBaseMSM::msm` of `G1Projective`, between decoding and
/// `serialize_compressed`: where the two lengths agree the 32 bytes of the
/// inner product `Σ scalars[i] · bases[i]`, which decode to themselves, else
/// the shorter length as the error.
#[verifier::external_body]
fn g1_msm(bases: &Vec<G1Point>, scalars: &Vec<Scalar>) -> (r: Result<Vec<u8>, usize>)
    requires
        all_valid::<G1Point>(bases@),
        all_wf(scalars@),
    ensures
        bases@.len() == scalars@.len() ==> r.is_ok() && r.unwrap()@ == msm_of::<G1Point>(
            encodings(bases@),
            values(scalars@),
        ) && r.unwrap()@.len() == 32 && g1_normalize(r.unwrap()@) == Some(r.unwrap()@),
        bases@.len() != scalars@.len() ==> r.is_err() && r->Err_0 == shorter(
            bases@.len(),
            scalars@.len(),
        ),
{
    let bs: Vec<ark_bn254::G1Affine> = bases.iter().map(|p| ark_serialize::CanonicalDeserialize::deserialize_compressed_unchecked(&p.bytes[..]).unwrap()).collect();
    let ss: Vec<ark_bn254::Fr> = scalars.iter().map(|s| <ark_bn254::Fr as ark_ff::PrimeField>::from_bigint(ark_ff::BigInt::new([s.l0, s.l1, s.l2, s.l3])).unwrap()).collect();
    let sum = <ark_bn254::G1Projective as ark_ec::VariableBaseMSM>::msm(&bs, &ss)?;
    let mut out = Vec::new();
    ark_serialize::CanonicalSerialize::serialize_compressed(&ark_ec::CurveGroup::into_affine(sum), &mut out).unwrap();
    Ok(out)
}

/// `UniformRand::rand` of `G1Projective`, `into_affine` and
/// `serialize_compressed`, on the `rand_chacha::ChaCha20Rng` that `from_seed`
/// and `set_word_pos` put at the given place, with the place at which
/// `get_word_pos` finds it afterwards: the 32 bytes of the point that seed
/// and place decide, which decode to themselves.
#[verifier::external_body]
fn g1_rand(seed: &[u8; 32], word_pos: u128) -> (r: (Vec<u8>, u128))
    ensures
        (r.0@, r.1) == g1_draw(seed@, word_pos),
        r.0@.len() == 32,
        g1_normalize(r.0@) == Some(r.0@),
{
    let mut g = <rand_chacha::ChaCha20Rng as rand::SeedableRng>::from_seed(*seed);
    g.set_word_pos(word_pos);
    let p: ark_bn254::G1Projective = ark_std::UniformRand::rand(&mut g);
    let mut out = Vec::new();
    ark_serialize::CanonicalSerialize::serialize_compressed(&ark_ec::CurveGroup::into_affine(p), &mut out).unwrap();
    (out, g.get_word_pos())
}

/// `serialize_compressed` of `G2Affine::identity()`: 63 zero bytes and the
/// infinity flag in the last byte, which decode to themselves.
#[verifier::external_body]
fn g2_encode_zero() -> (r: Vec<u8>)
    ensures
        r@ == infinity_encoding(64),
        r@.len() == 64,
        g2_normalize(r@) == Some(r@),
{
    let mut out = Vec::new();
    ark_serialize::CanonicalSerialize::serialize_compressed(&ark_bn254::G2Affine::identity(), &mut out).unwrap();
    out
}

/// `deserialize_compressed` of `G2Affine`, with the curve and subgroup
/// checks, followed by `serialize_compressed`: `None` where the bytes do not
/// decode, else 64 bytes that decode to themselves.
#[verifier::external_body]
fn g2_reencode(bytes: &Vec<u8>) -> (r: Option<Vec<u8>>)
    ensures
        r.is_some() == g2_normalize(bytes@).is_some(),
        r.is_some() ==> r.unwrap()@ == g2_normalize(bytes@).unwrap(),
        r.is_some() ==> r.unwrap()@.len() == 64 && g2_normalize(r.unwrap()@) == Some(r.unwrap()@),
{
    let p: ark_bn254::G2Affine = ark_serialize::CanonicalDeserialize::deserialize_compressed(&bytes[..]).ok()?;
    let mut out = Vec::new();
    ark_serialize::CanonicalSerialize::serialize_compressed(&p, &mut out).ok()?;
    Some(out)
}

/// `deserialize_compressed_unchecked`, `+`, `into_affine` and
/// `serialize_compressed` of `G2Affine`: the 64 bytes of the sum, which
/// decode to themselves. Decoding fails on bytes that are no encoding.
#[verifier::external_body]
fn g2_add(a: &Vec<u8>, b: &Vec<u8>) -> (r: Vec<u8>)
    requires
        a@.len() == 64,
        g2_normalize(a@) == Some(a@),
        b@.len() == 64,
        g2_normalize(b@) == Some(b@),
    ensures
        r@ == g2_sum(a@, b@),
        r@.len() == 64,
        g2_normalize(r@) == Some(r@),
{
    let p: ark_bn254::G2Affine = ark_serialize::CanonicalDeserialize::deserialize_compressed_unchecked(&a[..]).unwrap();
    let q: ark_bn254::G2Affine = ark_serialize::CanonicalDeserialize::deserialize_compressed_unchecked(&b[..]).unwrap();
    let mut out = Vec::new();
    ark_serialize::CanonicalSerialize::serialize_compressed(&ark_ec::CurveGroup::into_affine(p + q), &mut out).unwrap();
    out
}

/// `deserialize_compressed_unchecked`, `-`, `into_affine` and
/// `serialize_compressed` of `G2Affine`: the 64 bytes of the difference,
/// which decode to themselves. Decoding fails on bytes that are no encoding.
#[verifier::external_body]
fn g2_sub(a: &Vec<u8>, b: &Vec<u8>) -> (r: Vec<u8>)
    requires
        a@.len() == 64,
        g2_normalize(a@) == Some(a@),
        b@.len() == 64,
        g2_normalize(b@) == Some(b@),
    ensures
        r@ == g2_diff(a@, b@),
        r@.len() == 64,
        g2_normalize(r@) == Some(r@),
{
    let p: ark_bn254::G2Affine = ark_serialize::CanonicalDeserialize::deserialize_compressed_unchecked(&a[..]).unwrap();
    let q: ark_bn254::G2Affine = ark_serialize::CanonicalDeserialize::deserialize_compressed_unchecked(&b[..]).unwrap();
    let mut out = Vec::new();
    ark_serialize::CanonicalSerialize::serialize_compressed(&ark_ec::CurveGroup::into_affine(p - q), &mut out).unwrap();
    out
}

/// `deserialize_compressed_unchecked`, `*` by an `Fr`, `into_affine` and
/// `serialize_compressed` of `G2Affine`: the 64 bytes of the multiple, which
/// decode to themselves. Decoding fails on bytes that are no encoding, and
/// `from_bigint` refuses limbs that are not reduced.
#[verifier::external_body]
fn g2_mul(a: &Vec<u8>, k: &Scalar) -> (r: Vec<u8>)
    requires
        a@.len() == 64,
        g2_normalize(a@) == Some(a@),
        k.wf(),
    ensures
        r@ == g2_scale(a@, k@),
        r@.len() == 64,
        g2_normalize(r@) == Some(r@),
{
    let p: ark_bn254::G2Affine = ark_serialize::CanonicalDeserialize::deserialize_compressed_unchecked(&a[..]).unwrap();
    let s = <ark_bn254::Fr as ark_ff::PrimeField>::from_bigint(ark_ff::BigInt::new([k.l0, k.l1, k.l2, k.l3])).unwrap();
    let mut out = Vec::new();
    ark_serialize::CanonicalSerialize::serialize_compressed(&ark_ec::CurveGroup::into_affine(p * s), &mut out).unwrap();
    out
}

/// `VariableBaseMSM::msm` of `G2Projective`, between decoding and
/// `serialize_compressed`: where the two lengths agree the 64 bytes of the
/// inner product `Σ scalars[i] · bases[i]`, which decode to themselves, else
/// the shorter length as the error.
#[verifier::external_body]
fn g2_msm(bases: &Vec<G2Point>, scalars: &Vec<Scalar>) -> (r: Result<Vec<u8>, usize>)
    requires
        all_valid::<G2Point>(bases@),
        all_wf(scalars@),
    ensures
        bases@.len() == scalars@.len() ==> r.is_ok() && r.unwrap()@ == msm_of::<G2Point>(
            encodings(bases@),
            values(scalars@),
        ) && r.unwrap()@.len() == 64 && g2_normalize(r.unwrap()@) == Some(r.unwrap()@),
        bases@.len() != scalars@.len() ==> r.is_err() && r->Err_0 == shorter(
            bases@.len(),
            scalars@.len(),
        ),
{
    let bs: Vec<ark_bn254::G2Affine> = bases.iter().map(|p| ark_serialize::CanonicalDeserialize::deserialize_compressed_unchecked(&p.bytes[..]).unwrap()).collect();
    let ss: Vec<ark_bn254::Fr> = scalars.iter().map(|s| <ark_bn254::Fr as ark_ff::PrimeField>::from_bigint(ark_ff::BigInt::new([s.l0, s.l1, s.l2, s.l3])).unwrap()).collect();
    let sum = <ark_bn254::G2Projective as ark_ec::VariableBaseMSM>::msm(&bs, &ss)?;
    let mut out = Vec::new();
    ark_serialize::CanonicalSerialize::serialize_compressed(&ark_ec::CurveGroup::into_affine(sum), &mut out).unwrap();
    Ok(out)
}

/// `UniformRand::rand` of `G2Projective`, `into_affine` and
/// `serialize_compressed`, on the `rand_chacha::ChaCha20Rng` that `from_seed`
/// and `set_word_pos` put at the given place, with the place at which
/// `get_word_pos` finds it afterwards: the 64 bytes of the point that seed
/// and place decide, which decode to themselves.
#[verifier::external_body]
fn g2_rand(seed: &[u8; 32], word_pos: u128) -> (r: (Vec<u8>, u128))
    ensures
        (r.0@, r.1) == g2_draw(seed@, word_pos),
        r.0@.len() == 64,
        g2_normalize(r.0@) == Some(r.0@),
{
    let mut g = <rand_chacha::ChaCha20Rng as rand::SeedableRng>::from_seed(*seed);
    g.set_word_pos(word_pos);
    let p: ark_bn254::G2Projective = ark_std::UniformRand::rand(&mut g);
    let mut out = Vec::new();
    ark_serialize::CanonicalSerialize::serialize_compressed(&ark_ec::CurveGroup::into_affine(p), &mut out).unwrap();
    (out, g.get_word_pos())
}

} // verus!
