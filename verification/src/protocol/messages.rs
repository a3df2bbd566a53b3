//! The wire format: elements in their canonical compressed encoding, vectors
//! as a 64-bit little-endian length followed by their elements.

use vstd::prelude::*;
use vstd::string::StringExecFns;
use crate::text::{decimal, decimal_of};
use vstd::bytes::{
    lemma_auto_spec_u64_to_from_le_bytes, spec_u64_from_le_bytes, spec_u64_to_le_bytes,
    u64_from_le_bytes, u64_to_le_bytes,
};
use vstd::slice::slice_subrange;
use crate::group::{
    copy_bytes, g1_normalize, g2_normalize, is_valid, CurveGroup, G1Point, G2Point,
};
use crate::scalar::{limbs_value, modulus, Scalar};

verus! {

/// The greatest number of elements that a vector on the wire may announce.
pub const MAX_VEC_LEN: u64 = 16777216;

/// Why bytes from the wire were refused.
#[derive(Debug, Clone, Copy, PartialEq, Eq, Structural)]
pub enum WireError {
    /// The bytes end before the length of the vector does.
    BadLength,
    /// The announced length exceeds `MAX_VEC_LEN`.
    TooLong { len: u64 },
    /// The element at `index` is cut short or does not decode.
    BadElement { index: u64 },
}

impl WireError {
    /// What went wrong, in words.
    pub fn message(&self) -> (r: String)
        ensures
            r@ == match *self {
                WireError::BadLength => "failed to read vec length"@,
                WireError::TooLong { len } => "vec length "@ + decimal_of(len as nat)
                    + " exceeds maximum "@ + decimal_of(MAX_VEC_LEN as nat),
                WireError::BadElement { index } => "failed to deserialize element "@
                    + decimal_of(index as nat),
            },
    {
        match self {
            WireError::BadLength => "failed to read vec length".to_owned(),
            WireError::TooLong { len } => {
                let mut m = "vec length ".to_owned();
                m.append(decimal(*len).as_str());
                m.append(" exceeds maximum ");
                m.append(decimal(MAX_VEC_LEN).as_str());
                m
            },
            WireError::BadElement { index } => {
                let mut m = "failed to deserialize element ".to_owned();
                m.append(decimal(*index).as_str());
                m
            },
        }
    }
}

/// How a type stands on the wire.
pub trait WireModel: Sized {
    /// The number of bytes of one element.
    spec fn wire_width() -> nat;

    /// The canonical encoding of this element.
    spec fn wire(&self) -> Seq<u8>;

    /// The element is one that can be encoded.
    spec fn sound(&self) -> bool;

    /// The canonical encoding of the element that the bytes decode to, if
    /// they decode.
    spec fn decode(bytes: Seq<u8>) -> Option<Seq<u8>>;

    /// An element has between 1 and 64 bytes.
    proof fn lemma_wire_width()
        ensures
            0 < Self::wire_width() <= 64,
    ;

    /// The encoding of a sound element has the width of the type and decodes
    /// to itself.
    proof fn lemma_wire_decodes(&self)
        requires
            self.sound(),
        ensures
            self.wire().len() == Self::wire_width(),
            Self::decode(self.wire()) == Some(self.wire()),
    ;
}

/// A type that can be written to and read from the wire.
pub trait Wire: WireModel {
    /// The number of bytes of one element.
    fn width() -> (w: usize)
        ensures
            w == Self::wire_width(),
    ;

    /// The encoding of the element.
    fn to_wire(&self) -> (r: Vec<u8>)
        requires
            self.sound(),
        ensures
            r@ == self.wire(),
    ;

    /// The element that the bytes decode to, if they decode.
    fn from_wire(bytes: &Vec<u8>) -> (r: Option<Self>)
        ensures
            r.is_some() <==> Self::decode(bytes@).is_some(),
            r.is_some() ==> r.unwrap().wire() == Self::decode(bytes@).unwrap()
                && r.unwrap().sound(),
    ;
}

/// The 32 bytes of four limbs, least significant byte first.
pub open spec fn limbs_bytes(l0: u64, l1: u64, l2: u64, l3: u64) -> Seq<u8> {
    spec_u64_to_le_bytes(l0) + spec_u64_to_le_bytes(l1) + spec_u64_to_le_bytes(l2)
        + spec_u64_to_le_bytes(l3)
}

/// The limb that stands at bytes `8k .. 8k + 8`.
pub open spec fn limb_at(bytes: Seq<u8>, k: int) -> u64 {
    spec_u64_from_le_bytes(bytes.subrange(8 * k, 8 * k + 8))
}

impl WireModel for Scalar {
    open spec fn wire_width() -> nat {
        32
    }

    open spec fn wire(&self) -> Seq<u8> {
        limbs_bytes(self.l0, self.l1, self.l2, self.l3)
    }

    open spec fn sound(&self) -> bool {
        self.wf()
    }

    open spec fn decode(bytes: Seq<u8>) -> Option<Seq<u8>> {
        if bytes.len() == 32 && limbs_value(
            limb_at(bytes, 0),
            limb_at(bytes, 1),
            limb_at(bytes, 2),
            limb_at(bytes, 3),
        ) < modulus() {
            Some(bytes)
        } else {
            None
        }
    }

    proof fn lemma_wire_width() {
    }

    proof fn lemma_wire_decodes(&self) {
        lemma_limbs_roundtrip(self.l0, self.l1, self.l2, self.l3);
    }
}

/// The limbs read back from their 32 bytes are the limbs.
pub proof fn lemma_limbs_roundtrip(l0: u64, l1: u64, l2: u64, l3: u64)
    ensures
        limbs_bytes(l0, l1, l2, l3).len() == 32,
        limb_at(limbs_bytes(l0, l1, l2, l3), 0) == l0,
        limb_at(limbs_bytes(l0, l1, l2, l3), 1) == l1,
        limb_at(limbs_bytes(l0, l1, l2, l3), 2) == l2,
        limb_at(limbs_bytes(l0, l1, l2, l3), 3) == l3,
{
    lemma_auto_spec_u64_to_from_le_bytes();
    let b = limbs_bytes(l0, l1, l2, l3);
    assert(b.subrange(0, 8) =~= spec_u64_to_le_bytes(l0));
    assert(b.subrange(8, 16) =~= spec_u64_to_le_bytes(l1));
    assert(b.subrange(16, 24) =~= spec_u64_to_le_bytes(l2));
    assert(b.subrange(24, 32) =~= spec_u64_to_le_bytes(l3));
}

/// The bytes of the limbs read from 32 bytes are those bytes.
pub proof fn lemma_bytes_roundtrip(bytes: Seq<u8>)
    requires
        bytes.len() == 32,
    ensures
        limbs_bytes(limb_at(bytes, 0), limb_at(bytes, 1), limb_at(bytes, 2), limb_at(bytes, 3))
            == bytes,
{
    lemma_auto_spec_u64_to_from_le_bytes();
    let b0 = bytes.subrange(0, 8);
    let b1 = bytes.subrange(8, 16);
    let b2 = bytes.subrange(16, 24);
    let b3 = bytes.subrange(24, 32);
    assert(spec_u64_to_le_bytes(spec_u64_from_le_bytes(b0)) == b0);
    assert(spec_u64_to_le_bytes(spec_u64_from_le_bytes(b1)) == b1);
    assert(spec_u64_to_le_bytes(spec_u64_from_le_bytes(b2)) == b2);
    assert(spec_u64_to_le_bytes(spec_u64_from_le_bytes(b3)) == b3);
    assert(b0 + b1 + b2 + b3 =~= bytes);
}

/// Appends `src` to `buf`.
pub fn push_all(buf: &mut Vec<u8>, src: &Vec<u8>)
    ensures
        final(buf)@ == old(buf)@ + src@,
{
    let ghost start = buf@;
    let mut i: usize = 0;
    while i < src.len()
        invariant
            i <= src@.len(),
            buf@ == start + src@.take(i as int),
        decreases src@.len() - i,
    {
        buf.push(src[i]);
        assert(start + src@.take(i + 1) =~= (start + src@.take(i as int)).push(src@[i as int]));
        i = i + 1;
    }
    assert(src@.take(src@.len() as int) =~= src@);
}

/// The bytes `from .. to` of a vector.
pub fn copy_range(bytes: &Vec<u8>, from: usize, to: usize) -> (r: Vec<u8>)
    requires
        from <= to <= bytes@.len(),
    ensures
        r@ == bytes@.subrange(from as int, to as int),
{
    let mut r: Vec<u8> = Vec::new();
    let mut i: usize = from;
    while i < to
        invariant
            from <= i <= to <= bytes@.len(),
            r@ == bytes@.subrange(from as int, i as int),
        decreases to - i,
    {
        r.push(bytes[i]);
        assert(bytes@.subrange(from as int, i + 1) =~= bytes@.subrange(from as int, i as int).push(
            bytes@[i as int],
        ));
        i = i + 1;
    }
    r
}

impl Wire for Scalar {
    fn width() -> (w: usize) {
        32
    }

    fn to_wire(&self) -> (r: Vec<u8>) {
        let mut out = u64_to_le_bytes(self.l0);
        let b1 = u64_to_le_bytes(self.l1);
        let b2 = u64_to_le_bytes(self.l2);
        let b3 = u64_to_le_bytes(self.l3);
        push_all(&mut out, &b1);
        push_all(&mut out, &b2);
        push_all(&mut out, &b3);
        out
    }

    fn from_wire(bytes: &Vec<u8>) -> (r: Option<Self>) {
        if bytes.len() != 32 {
            return None;
        }
        let s = bytes.as_slice();
        let l0 = u64_from_le_bytes(slice_subrange(s, 0, 8));
        let l1 = u64_from_le_bytes(slice_subrange(s, 8, 16));
        let l2 = u64_from_le_bytes(slice_subrange(s, 16, 24));
        let l3 = u64_from_le_bytes(slice_subrange(s, 24, 32));
        let x = Scalar { l0, l1, l2, l3 };
        proof {
            lemma_bytes_roundtrip(bytes@);
        }
        if x.is_reduced() {
            Some(x)
        } else {
            None
        }
    }
}

impl WireModel for G1Point {
    open spec fn wire_width() -> nat {
        32
    }

    open spec fn wire(&self) -> Seq<u8> {
        self.bytes@
    }

    open spec fn sound(&self) -> bool {
        is_valid::<G1Point>(self.bytes@)
    }

    open spec fn decode(bytes: Seq<u8>) -> Option<Seq<u8>> {
        g1_normalize(bytes)
    }

    proof fn lemma_wire_width() {
    }

    proof fn lemma_wire_decodes(&self) {
    }
}

impl Wire for G1Point {
    fn width() -> (w: usize) {
        32
    }

    fn to_wire(&self) -> (r: Vec<u8>) {
        copy_bytes(&self.bytes)
    }

    fn from_wire(bytes: &Vec<u8>) -> (r: Option<Self>) {
        G1Point::from_bytes(bytes)
    }
}

impl WireModel for G2Point {
    open spec fn wire_width() -> nat {
        64
    }

    open spec fn wire(&self) -> Seq<u8> {
        self.bytes@
    }

    open spec fn sound(&self) -> bool {
        is_valid::<G2Point>(self.bytes@)
    }

    open spec fn decode(bytes: Seq<u8>) -> Option<Seq<u8>> {
        g2_normalize(bytes)
    }

    proof fn lemma_wire_width() {
    }

    proof fn lemma_wire_decodes(&self) {
    }
}

impl Wire for G2Point {
    fn width() -> (w: usize) {
        64
    }

    fn to_wire(&self) -> (r: Vec<u8>) {
        copy_bytes(&self.bytes)
    }

    fn from_wire(bytes: &Vec<u8>) -> (r: Option<Self>) {
        G2Point::from_bytes(bytes)
    }
}

/// The encodings of a sequence of elements.
pub open spec fn wires<T: WireModel>(v: Seq<T>) -> Seq<Seq<u8>> {
    Seq::new(v.len(), |i: int| v[i].wire())
}

/// Every element of the sequence is sound.
pub open spec fn all_sound<T: WireModel>(v: Seq<T>) -> bool {
    forall|i: int| 0 <= i < v.len() ==> (#[trigger] v[i]).sound()
}

/// The chunks one after the other.
pub open spec fn concat(chunks: Seq<Seq<u8>>) -> Seq<u8>
    decreases chunks.len(),
{
    if chunks.len() == 0 {
        Seq::empty()
    } else {
        concat(chunks.drop_last()) + chunks.last()
    }
}

/// A vector on the wire: the number of elements as eight little-endian
/// bytes, then the elements.
pub open spec fn vec_encoding(chunks: Seq<Seq<u8>>) -> Seq<u8> {
    spec_u64_to_le_bytes(chunks.len() as u64) + concat(chunks)
}

/// The bytes at which element `i` of a vector stands.
pub open spec fn chunk<T: WireModel>(bytes: Seq<u8>, i: int) -> Seq<u8> {
    bytes.subrange(8 + i * T::wire_width(), 8 + (i + 1) * T::wire_width())
}

/// Element `i` is there in full and decodes.
pub open spec fn chunk_ok<T: WireModel>(bytes: Seq<u8>, i: int) -> bool {
    8 + (i + 1) * T::wire_width() <= bytes.len() && T::decode(chunk::<T>(bytes, i)).is_some()
}

/// The first position from `k` on, below `n`, whose element is cut short or
/// does not decode; `n` if there is none.
pub open spec fn first_bad<T: WireModel>(bytes: Seq<u8>, n: int, k: int) -> int
    decreases n - k,
{
    if k >= n {
        n
    } else if !chunk_ok::<T>(bytes, k) {
        k
    } else {
        first_bad::<T>(bytes, n, k + 1)
    }
}

/// What reading a vector from the bytes gives: the canonical encodings of
/// its elements, or the first thing that is wrong. Bytes behind the last
/// element are not looked at.
pub open spec fn parse_vec<T: WireModel>(bytes: Seq<u8>) -> Result<Seq<Seq<u8>>, WireError> {
    if bytes.len() < 8 {
        Err(WireError::BadLength)
    } else {
        let n = spec_u64_from_le_bytes(bytes.subrange(0, 8));
        if n > MAX_VEC_LEN {
            Err(WireError::TooLong { len: n })
        } else {
            let bad = first_bad::<T>(bytes, n as int, 0);
            if bad < n {
                Err(WireError::BadElement { index: bad as u64 })
            } else {
                Ok(Seq::new(n as nat, |i: int| T::decode(chunk::<T>(bytes, i)).unwrap()))
            }
        }
    }
}

/// What reading one element from the front of the bytes gives.
pub open spec fn parse_one<T: WireModel>(bytes: Seq<u8>) -> Option<Seq<u8>> {
    if bytes.len() < T::wire_width() {
        None
    } else {
        T::decode(bytes.subrange(0, T::wire_width() as int))
    }
}

/// The encoding of one element.
pub fn ark_to_bytes<T: Wire>(val: &T) -> (r: Vec<u8>)
    requires
        val.sound(),
    ensures
        r@ == val.wire(),
{
    val.to_wire()
}

/// The element at the front of the bytes, or an error where the bytes are
/// too few or do not decode.
pub fn ark_from_bytes<T: Wire>(bytes: &Vec<u8>) -> (r: Result<T, WireError>)
    ensures
        r.is_ok() <==> parse_one::<T>(bytes@).is_some(),
        r.is_ok() ==> r.unwrap().wire() == parse_one::<T>(bytes@).unwrap() && r.unwrap().sound(),
        r.is_err() ==> r->Err_0 == (WireError::BadElement { index: 0 }),
{
    let w: usize = T::width();
    if bytes.len() < w {
        return Err(WireError::BadElement { index: 0 });
    }
    let front = copy_range(bytes, 0, w);
    match T::from_wire(&front) {
        Some(x) => Ok(x),
        None => Err(WireError::BadElement { index: 0 }),
    }
}

/// A vector on the wire: its length, then its elements.
pub fn ark_vec_to_bytes<T: Wire>(vals: &Vec<T>) -> (r: Vec<u8>)
    requires
        all_sound(vals@),
    ensures
        r@ == vec_encoding(wires(vals@)),
{
    let len: u64 = vals.len() as u64;
    let mut buf = u64_to_le_bytes(len);
    let mut i: usize = 0;
    assert(wires(vals@).take(0) =~= Seq::<Seq<u8>>::empty());
    while i < vals.len()
        invariant
            i <= vals@.len(),
            all_sound(vals@),
            buf@ == spec_u64_to_le_bytes(vals@.len() as u64) + concat(wires(vals@).take(i as int)),
        decreases vals@.len() - i,
    {
        let one = vals[i].to_wire();
        let ghost before = buf@;
        push_all(&mut buf, &one);
        proof {
            let w = wires(vals@);
            assert(w.take(i + 1).drop_last() =~= w.take(i as int));
            assert(w.take(i + 1).last() == vals@[i as int].wire());
            assert(buf@ =~= spec_u64_to_le_bytes(vals@.len() as u64) + concat(w.take(i + 1)));
        }
        i = i + 1;
    }
    assert(wires(vals@).take(vals@.len() as int) =~= wires(vals@));
    buf
}

/// The vector that the bytes hold, or the first thing that is wrong with
/// them: too few bytes for the length, a length above `MAX_VEC_LEN`, or an
/// element that is cut short or does not decode.
pub fn ark_vec_from_bytes<T: Wire>(bytes: &Vec<u8>) -> (r: Result<Vec<T>, WireError>)
    ensures
        r.is_ok() <==> parse_vec::<T>(bytes@).is_ok(),
        r.is_ok() ==> wires(r.unwrap()@) == parse_vec::<T>(bytes@).unwrap() && all_sound(
            r.unwrap()@,
        ),
        r.is_err() ==> r->Err_0 == parse_vec::<T>(bytes@)->Err_0,
{
    if bytes.len() < 8 {
        return Err(WireError::BadLength);
    }
    let len: u64 = u64_from_le_bytes(slice_subrange(bytes.as_slice(), 0, 8));
    if len > MAX_VEC_LEN {
        return Err(WireError::TooLong { len });
    }
    let w: usize = T::width();
    proof {
        T::lemma_wire_width();
    }
    let mut vals: Vec<T> = Vec::new();
    let mut i: u64 = 0;
    let mut pos: usize = 8;
    while i < len
        invariant
            i <= len <= MAX_VEC_LEN,
            bytes@.len() >= 8,
            len == spec_u64_from_le_bytes(bytes@.subrange(0, 8)),
            w == T::wire_width(),
            0 < w <= 64,
            pos == 8 + i * w,
            pos <= bytes@.len(),
            vals@.len() == i,
            all_sound(vals@),
            first_bad::<T>(bytes@, len as int, 0) == first_bad::<T>(bytes@, len as int, i as int),
            forall|k: int|
                0 <= k < i ==> (#[trigger] vals@[k]).wire() == T::decode(
                    chunk::<T>(bytes@, k),
                ).unwrap(),
        decreases len - i,
    {
        assert(8 + (i + 1) * w == pos + w) by (nonlinear_arith)
            requires
                pos == 8 + i * w,
        ;
        assert(i * w <= 16777216 * 64) by (nonlinear_arith)
            requires
                i <= 16777216,
                w <= 64,
        ;
        assert(8 + i * T::wire_width() == pos);
        assert(8 + (i + 1) * T::wire_width() == pos + w);
        if bytes.len() - pos < w {
            assert(!chunk_ok::<T>(bytes@, i as int));
            return Err(WireError::BadElement { index: i });
        }
        let one = copy_range(bytes, pos, pos + w);
        assert(one@ == chunk::<T>(bytes@, i as int));
        match T::from_wire(&one) {
            Some(x) => {
                let ghost before = vals@;
                vals.push(x);
                assert(forall|k: int| 0 <= k < i ==> vals@[k] == before[k]);
            },
            None => {
                assert(!chunk_ok::<T>(bytes@, i as int));
                return Err(WireError::BadElement { index: i });
            },
        }
        assert(chunk_ok::<T>(bytes@, i as int));
        pos = pos + w;
        i = i + 1;
    }
    assert(first_bad::<T>(bytes@, len as int, len as int) == len);
    assert(wires(vals@) =~= parse_vec::<T>(bytes@).unwrap());
    Ok(vals)
}

/// Chunks of one width, put one after the other, can be cut out again.
pub proof fn lemma_concat_chunks(chunks: Seq<Seq<u8>>, width: nat, i: int)
    requires
        forall|k: int| 0 <= k < chunks.len() ==> (#[trigger] chunks[k]).len() == width,
        0 <= i < chunks.len(),
    ensures
        concat(chunks).len() == chunks.len() * width,
        concat(chunks).subrange(i * width, (i + 1) * width) == chunks[i],
    decreases chunks.len(),
{
    let n = chunks.len() as int;
    let front = chunks.drop_last();
    let w = width as int;
    lemma_concat_len(front, width);
    assert(front.len() == n - 1);
    assert((n - 1) * w + w == n * w) by (nonlinear_arith);
    assert((i + 1) * w == i * w + w) by (nonlinear_arith);
    assert(i * w >= 0) by (nonlinear_arith)
        requires
            i >= 0,
            w >= 0,
    ;
    assert(concat(chunks) == concat(front) + chunks.last());
    assert(concat(front).len() == (n - 1) * w);
    assert(chunks.last().len() == w);
    if i == n - 1 {
        assert(concat(chunks).subrange(i * w, (i + 1) * w) =~= chunks[i]);
    } else {
        lemma_concat_chunks(front, width, i);
        assert((i + 1) * w <= (n - 1) * w) by (nonlinear_arith)
            requires
                i + 1 <= n - 1,
                w >= 0,
        ;
        assert(concat(chunks).subrange(i * w, (i + 1) * w) =~= concat(front).subrange(
            i * w,
            (i + 1) * w,
        ));
        assert(front[i] == chunks[i]);
    }
}

/// Chunks of one width, put one after the other, are as long as their
/// number times that width.
pub proof fn lemma_concat_len(chunks: Seq<Seq<u8>>, width: nat)
    requires
        forall|k: int| 0 <= k < chunks.len() ==> (#[trigger] chunks[k]).len() == width,
    ensures
        concat(chunks).len() == chunks.len() * width,
    decreases chunks.len(),
{
    if chunks.len() > 0 {
        lemma_concat_len(chunks.drop_last(), width);
        assert((chunks.len() - 1) * width + width == chunks.len() * width) by (nonlinear_arith);
    }
}

/// Reading back what was written gives what was written: a vector of at most
/// `MAX_VEC_LEN` sound elements, encoded and parsed, is the vector.
pub proof fn lemma_vec_roundtrip<T: WireModel>(v: Seq<T>)
    requires
        all_sound(v),
        v.len() <= MAX_VEC_LEN,
    ensures
        parse_vec::<T>(vec_encoding(wires(v))) == Ok::<Seq<Seq<u8>>, WireError>(wires(v)),
{
    lemma_auto_spec_u64_to_from_le_bytes();
    T::lemma_wire_width();
    let w = T::wire_width();
    let chunks = wires(v);
    let n = v.len() as int;
    let bytes = vec_encoding(chunks);
    let head = spec_u64_to_le_bytes(n as u64);
    assert forall|k: int| 0 <= k < chunks.len() implies (#[trigger] chunks[k]).len() == w by {
        v[k].lemma_wire_decodes();
    }
    lemma_concat_len(chunks, w);
    assert(bytes.subrange(0, 8) =~= head);
    assert forall|k: int| 0 <= k < n implies chunk::<T>(bytes, k) == chunks[k]
        && #[trigger] chunk_ok::<T>(bytes, k) by {
        lemma_concat_chunks(chunks, w, k);
        let wi = w as int;
        assert(k * wi >= 0 && (k + 1) * wi <= n * wi && (k + 1) * wi == k * wi + wi)
            by (nonlinear_arith)
            requires
                0 <= k < n,
                wi >= 0,
        ;
        assert(head.len() == 8);
        assert(bytes.len() == 8 + n * wi);
        assert(bytes.subrange(8 + k * wi, 8 + (k + 1) * wi) =~= concat(chunks).subrange(
            k * wi,
            (k + 1) * wi,
        ));
        v[k].lemma_wire_decodes();
        assert(chunks[k] == v[k].wire());
        assert(chunk::<T>(bytes, k) == chunks[k]);
        assert(chunk_ok::<T>(bytes, k));
    }
    lemma_no_bad_chunk::<T>(bytes, n, 0);
    assert(spec_u64_from_le_bytes(bytes.subrange(0, 8)) == n);
    assert(bytes.len() >= 8);
    let parsed = Seq::new(n as nat, |i: int| T::decode(chunk::<T>(bytes, i)).unwrap());
    assert forall|k: int| 0 <= k < n implies parsed[k] == chunks[k] by {
        assert(chunk_ok::<T>(bytes, k));
        v[k].lemma_wire_decodes();
    }
    assert(parsed =~= chunks);
}

/// Where every element from `k` on is in order, none is the first bad one.
pub proof fn lemma_no_bad_chunk<T: WireModel>(bytes: Seq<u8>, n: int, k: int)
    requires
        0 <= k <= n,
        forall|j: int| k <= j < n ==> chunk_ok::<T>(bytes, j),
    ensures
        first_bad::<T>(bytes, n, k) == n,
    decreases n - k,
{
    if k < n {
        lemma_no_bad_chunk::<T>(bytes, n, k + 1);
    }
}

/// The generators of the five slots, each as a vector on the wire.
#[derive(Debug)]
pub struct SetupRequest {
    pub h_generators: Vec<u8>,
    pub l_generators: Vec<u8>,
    pub a_generators: Vec<u8>,
    pub b_g1_generators: Vec<u8>,
    pub b_g2_generators: Vec<u8>,
}

/// The five masked scalar vectors, each as a vector on the wire.
#[derive(Debug)]
pub struct ProveRequest {
    pub v_h: Vec<u8>,
    pub v_l: Vec<u8>,
    pub v_a: Vec<u8>,
    pub v_b_g1: Vec<u8>,
    pub v_b_g2: Vec<u8>,
}

/// The five answers, each as one element on the wire.
#[derive(Debug)]
pub struct ProveResponse {
    pub em_h: Vec<u8>,
    pub em_l: Vec<u8>,
    pub em_a: Vec<u8>,
    pub em_b_g1: Vec<u8>,
    pub em_b_g2: Vec<u8>,
}

} // verus!
