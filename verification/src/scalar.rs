//! Elements of the BN254 scalar field, held as four 64-bit limbs.

use vstd::prelude::*;
use crate::rng::SeededRng;

verus! {

/// The order of the BN254 scalar field.
pub open spec fn modulus() -> nat {
    21888242871839275222246405745257275088548364400416034343698204186575808495617nat
}

/// Sum of two residues.
pub open spec fn fadd(a: nat, b: nat) -> nat {
    (a + b) % modulus()
}

/// Product of two residues.
pub open spec fn fmul(a: nat, b: nat) -> nat {
    (a * b) % modulus()
}

/// The integer that four little-endian 64-bit limbs stand for.
pub open spec fn limbs_value(l0: u64, l1: u64, l2: u64, l3: u64) -> nat {
    (l0 as nat) + (l1 as nat) * 0x1_0000_0000_0000_0000nat
        + (l2 as nat) * 0x1_0000_0000_0000_0000_0000_0000_0000_0000nat
        + (l3 as nat) * 0x1_0000_0000_0000_0000_0000_0000_0000_0000_0000_0000_0000_0000nat
}

/// The limbs of the field element that a ChaCha20 generator with the given
/// seed draws at the given position of its stream, and the position behind
/// the draw.
pub uninterp spec fn scalar_draw(seed: Seq<u8>, word_pos: u128) -> (u64, u64, u64, u64, u128);

/// The scalar that the generator draws next.
pub open spec fn next_scalar(rng: SeededRng) -> Scalar {
    let d = scalar_draw(rng.seed@, rng.word_pos);
    Scalar { l0: d.0, l1: d.1, l2: d.2, l3: d.3 }
}

/// The generator behind its next draw of a scalar.
pub open spec fn after_scalar(rng: SeededRng) -> SeededRng {
    rng.at(scalar_draw(rng.seed@, rng.word_pos).4)
}

/// The scalar itself, or one where it is zero.
pub open spec fn nonzero_of(s: Scalar) -> Scalar {
    if s@ == 0 {
        Scalar { l0: 1, l1: 0, l2: 0, l3: 0 }
    } else {
        s
    }
}

/// A scalar: the canonical representative of a residue, least significant
/// limb first.
#[derive(Clone, Copy, Debug, PartialEq, Eq, Structural)]
pub struct Scalar {
    pub l0: u64,
    pub l1: u64,
    pub l2: u64,
    pub l3: u64,
}

impl View for Scalar {
    type V = nat;

    open spec fn view(&self) -> nat {
        limbs_value(self.l0, self.l1, self.l2, self.l3)
    }
}

/// The residues of a sequence of scalars.
pub open spec fn values(s: Seq<Scalar>) -> Seq<nat> {
    Seq::new(s.len(), |i: int| s[i]@)
}

/// Every scalar of the sequence is reduced.
pub open spec fn all_wf(s: Seq<Scalar>) -> bool {
    forall|i: int| 0 <= i < s.len() ==> (#[trigger] s[i]).wf()
}

impl Scalar {
    /// The scalar is the canonical representative: its value is below the
    /// field order.
    pub open spec fn wf(self) -> bool {
        self@ < modulus()
    }

    /// The additive identity.
    pub fn zero() -> (r: Scalar)
        ensures
            r@ == 0,
            r.wf(),
    {
        Scalar { l0: 0, l1: 0, l2: 0, l3: 0 }
    }

    /// The multiplicative identity.
    pub fn one() -> (r: Scalar)
        ensures
            r@ == 1,
            r.wf(),
    {
        Scalar { l0: 1, l1: 0, l2: 0, l3: 0 }
    }

    /// The scalar of a machine integer.
    pub fn from_u64(x: u64) -> (r: Scalar)
        ensures
            r@ == x,
            r.wf(),
    {
        Scalar { l0: x, l1: 0, l2: 0, l3: 0 }
    }

    /// The scalar with the given limbs, if they stand for a reduced value.
    pub fn from_limbs(l0: u64, l1: u64, l2: u64, l3: u64) -> (r: Option<Scalar>)
        ensures
            r.is_some() <==> limbs_value(l0, l1, l2, l3) < modulus(),
            r.is_some() ==> r.unwrap() == (Scalar { l0, l1, l2, l3 }),
    {
        let s = Scalar { l0, l1, l2, l3 };
        if s.is_reduced() {
            Some(s)
        } else {
            None
        }
    }

    /// Whether the limbs stand for a value below the field order.
    pub fn is_reduced(&self) -> (b: bool)
        ensures
            b == self.wf(),
    {
        // The field order, most significant limb first.
        let m3: u64 = 0x30644e72e131a029;
        let m2: u64 = 0xb85045b68181585d;
        let m1: u64 = 0x2833e84879b97091;
        let m0: u64 = 0x43e1f593f0000001;
        proof {
            let m = Scalar { l0: m0, l1: m1, l2: m2, l3: m3 };
            assert(m@ == modulus());
            lemma_limbs_order(*self, m);
        }
        if self.l3 != m3 {
            self.l3 < m3
        } else if self.l2 != m2 {
            self.l2 < m2
        } else if self.l1 != m1 {
            self.l1 < m1
        } else {
            self.l0 < m0
        }
    }

    /// Whether the scalar is the additive identity.
    pub fn is_zero(&self) -> (b: bool)
        ensures
            b == (self@ == 0),
    {
        self.l0 == 0 && self.l1 == 0 && self.l2 == 0 && self.l3 == 0
    }

    /// The sum in the field.
    pub fn add(&self, rhs: &Scalar) -> (r: Scalar)
        requires
            self.wf(),
            rhs.wf(),
        ensures
            r@ == fadd(self@, rhs@),
            r.wf(),
    {
        fr_add(self, rhs)
    }

    /// The product in the field.
    pub fn mul(&self, rhs: &Scalar) -> (r: Scalar)
        requires
            self.wf(),
            rhs.wf(),
        ensures
            r@ == fmul(self@, rhs@),
            r.wf(),
    {
        fr_mul(self, rhs)
    }

    /// The next scalar of the generator: the draw that the seed and the
    /// position decide, after which the generator stands behind that draw.
    pub fn rand(rng: &mut SeededRng) -> (r: Scalar)
        ensures
            r == next_scalar(*old(rng)),
            *final(rng) == after_scalar(*old(rng)),
            r.wf(),
    {
        let d = fr_rand(&rng.seed, rng.word_pos);
        rng.word_pos = d.4;
        Scalar { l0: d.0, l1: d.1, l2: d.2, l3: d.3 }
    }

    /// A scalar drawn from the generator that is never zero: a zero draw is
    /// replaced by one.
    pub fn rand_nonzero(rng: &mut SeededRng) -> (r: Scalar)
        ensures
            r == nonzero_of(next_scalar(*old(rng))),
            *final(rng) == after_scalar(*old(rng)),
            r.wf(),
            r@ != 0,
    {
        let s = Scalar::rand(rng);
        if s.is_zero() {
            Scalar::one()
        } else {
            s
        }
    }
}

/// Limb quadruples are ordered as their values are, most significant limb
/// first.
proof fn lemma_limbs_order(a: Scalar, b: Scalar)
    ensures
        a@ < b@ <==> (a.l3 < b.l3 || (a.l3 == b.l3 && (a.l2 < b.l2 || (a.l2 == b.l2 && (a.l1
            < b.l1 || (a.l1 == b.l1 && a.l0 < b.l0)))))),
{
    let w: nat = 0x1_0000_0000_0000_0000nat;
    let a0 = a.l0 as nat;
    let a1 = a.l1 as nat;
    let a2 = a.l2 as nat;
    let a3 = a.l3 as nat;
    let b0 = b.l0 as nat;
    let b1 = b.l1 as nat;
    let b2 = b.l2 as nat;
    let b3 = b.l3 as nat;
    assert(w * w == 0x1_0000_0000_0000_0000_0000_0000_0000_0000nat) by (nonlinear_arith)
        requires w == 0x1_0000_0000_0000_0000nat;
    assert(w * w * w == 0x1_0000_0000_0000_0000_0000_0000_0000_0000_0000_0000_0000_0000nat)
        by (nonlinear_arith)
        requires w == 0x1_0000_0000_0000_0000nat;
    let al: nat = a0 + a1 * w + a2 * (w * w);
    let bl: nat = b0 + b1 * w + b2 * (w * w);
    assert(al < w * w * w && bl < w * w * w) by (nonlinear_arith)
        requires
            a0 < w, a1 < w, a2 < w, b0 < w, b1 < w, b2 < w,
            al == a0 + a1 * w + a2 * (w * w),
            bl == b0 + b1 * w + b2 * (w * w);
    assert(a@ == al + a3 * (w * w * w));
    assert(b@ == bl + b3 * (w * w * w));
    lemma_digit_order(al, a3, bl, b3, w * w * w);
    let all: nat = a0 + a1 * w;
    let bll: nat = b0 + b1 * w;
    assert(all < w * w && bll < w * w) by (nonlinear_arith)
        requires a0 < w, a1 < w, b0 < w, b1 < w, all == a0 + a1 * w, bll == b0 + b1 * w;
    lemma_digit_order(all, a2, bll, b2, w * w);
    lemma_digit_order(a0, a1, b0, b1, w);
}

/// A number with a greater high digit is greater; with equal high digits the
/// low parts decide.
proof fn lemma_digit_order(lo1: nat, hi1: nat, lo2: nat, hi2: nat, w: nat)
    requires
        lo1 < w,
        lo2 < w,
    ensures
        lo1 + hi1 * w < lo2 + hi2 * w <==> (hi1 < hi2 || (hi1 == hi2 && lo1 < lo2)),
{
    assert(hi1 < hi2 ==> lo1 + hi1 * w < lo2 + hi2 * w) by (nonlinear_arith)
        requires lo1 < w, lo2 < w;
    assert(hi2 < hi1 ==> lo2 + hi2 * w < lo1 + hi1 * w) by (nonlinear_arith)
        requires lo1 < w, lo2 < w;
}

/// `from_bigint`, `+` and `into_bigint` of `ark_bn254::Fr`: the limbs of the
/// sum of the two residues, reduced. `from_bigint` refuses limbs that are
/// not reduced.
#[verifier::external_body]
fn fr_add(a: &Scalar, b: &Scalar) -> (r: Scalar)
    requires
        a.wf(),
        b.wf(),
    ensures
        r@ == fadd(a@, b@),
{
    let x = <ark_bn254::Fr as ark_ff::PrimeField>::from_bigint(ark_ff::BigInt::new([a.l0, a.l1, a.l2, a.l3])).unwrap();
    let y = <ark_bn254::Fr as ark_ff::PrimeField>::from_bigint(ark_ff::BigInt::new([b.l0, b.l1, b.l2, b.l3])).unwrap();
    let z = ark_ff::PrimeField::into_bigint(x + y).0;
    Scalar { l0: z[0], l1: z[1], l2: z[2], l3: z[3] }
}

/// `from_bigint`, `*` and `into_bigint` of `ark_bn254::Fr`: the limbs of the
/// product of the two residues, reduced. `from_bigint` refuses limbs that
/// are not reduced.
#[verifier::external_body]
fn fr_mul(a: &Scalar, b: &Scalar) -> (r: Scalar)
    requires
        a.wf(),
        b.wf(),
    ensures
        r@ == fmul(a@, b@),
{
    let x = <ark_bn254::Fr as ark_ff::PrimeField>::from_bigint(ark_ff::BigInt::new([a.l0, a.l1, a.l2, a.l3])).unwrap();
    let y = <ark_bn254::Fr as ark_ff::PrimeField>::from_bigint(ark_ff::BigInt::new([b.l0, b.l1, b.l2, b.l3])).unwrap();
    let z = ark_ff::PrimeField::into_bigint(x * y).0;
    Scalar { l0: z[0], l1: z[1], l2: z[2], l3: z[3] }
}

/// `UniformRand::rand` and `into_bigint` of `ark_bn254::Fr`, on the
/// `rand_chacha::ChaCha20Rng` that `from_seed` and `set_word_pos` put at the
/// given place, with the place at which `get_word_pos` finds it afterwards:
/// the limbs of the field element that seed and place decide, reduced.
#[verifier::external_body]
fn fr_rand(seed: &[u8; 32], word_pos: u128) -> (r: (u64, u64, u64, u64, u128))
    ensures
        r == scalar_draw(seed@, word_pos),
        limbs_value(r.0, r.1, r.2, r.3) < modulus(),
{
    let mut g = <rand_chacha::ChaCha20Rng as rand::SeedableRng>::from_seed(*seed);
    g.set_word_pos(word_pos);
    let x: ark_bn254::Fr = ark_std::UniformRand::rand(&mut g);
    let z = ark_ff::PrimeField::into_bigint(x).0;
    (z[0], z[1], z[2], z[3], g.get_word_pos())
}

} // verus!
