//! Multi-scalar multiplication against a fixed vector of generators.

use vstd::prelude::*;
use vstd::string::StringExecFns;
use crate::text::{decimal, decimal_of};
use crate::emsm::sparse_vec::SparseVector;
use crate::group::{
    after_point, all_valid, encodings, is_valid, msm_of, next_point, CurveGroup, GroupModel,
};
use crate::rng::SeededRng;
use crate::scalar::{all_wf, values, Scalar};

verus! {

/// Why a commitment could not be computed.
#[derive(Debug, Clone, Copy, PartialEq, Eq, Structural)]
pub enum PedersenError {
    /// The number of scalars differs from the number of generators.
    LengthMismatch { scalars: usize, generators: usize },
    /// The multi-scalar multiplication itself failed.
    MsmFailed,
}

impl PedersenError {
    /// What went wrong, in words.
    pub fn message(&self) -> (r: String)
        ensures
            r@ == match *self {
                PedersenError::LengthMismatch { scalars, generators } => {
                    "scalar/generator length mismatch: "@ + decimal_of(scalars as nat)
                        + " scalars vs "@ + decimal_of(generators as nat) + " generators"@
                },
                PedersenError::MsmFailed => "MSM computation failed"@,
            },
    {
        match self {
            PedersenError::LengthMismatch { scalars, generators } => {
                let mut m = "scalar/generator length mismatch: ".to_owned();
                m.append(decimal(*scalars as u64).as_str());
                m.append(" scalars vs ");
                m.append(decimal(*generators as u64).as_str());
                m.append(" generators");
                m
            },
            PedersenError::MsmFailed => "MSM computation failed".to_owned(),
        }
    }
}

/// The generators that the entries of a sparse vector point at, in the order
/// of the entries.
pub open spec fn gather(generators: Seq<Seq<u8>>, entries: Seq<(usize, Scalar)>) -> Seq<Seq<u8>> {
    Seq::new(entries.len(), |k: int| generators[entries[k].0 as int])
}

/// The values of the entries of a sparse vector, in the order of the entries.
pub open spec fn entry_values(entries: Seq<(usize, Scalar)>) -> Seq<nat> {
    Seq::new(entries.len(), |k: int| entries[k].1@)
}

/// The sparse inner product `Σ value · generators[position]` over the
/// entries.
pub open spec fn sparse_msm<G: GroupModel>(
    generators: Seq<Seq<u8>>,
    entries: Seq<(usize, Scalar)>,
) -> Seq<u8> {
    msm_of::<G>(gather(generators, entries), entry_values(entries))
}

/// The encodings of the next `n` elements that the generator draws, and the
/// generator behind the draws.
pub open spec fn drawn_points<G: GroupModel>(rng: SeededRng, n: nat) -> (Seq<Seq<u8>>, SeededRng)
    decreases n,
{
    if n == 0 {
        (Seq::empty(), rng)
    } else {
        let before = drawn_points::<G>(rng, (n - 1) as nat);
        (before.0.push(next_point::<G>(before.1)), after_point::<G>(before.1))
    }
}

/// A copy of a vector of group elements.
pub fn dup_all<G: CurveGroup>(v: &Vec<G>) -> (out: Vec<G>)
    ensures
        encodings(out@) == encodings(v@),
        out@.len() == v@.len(),
        all_valid(v@) ==> all_valid(out@),
{
    let mut out: Vec<G> = Vec::new();
    let mut i: usize = 0;
    while i < v.len()
        invariant
            i <= v@.len(),
            out@.len() == i,
            forall|k: int| 0 <= k < i ==> (#[trigger] out@[k]).enc() == v@[k].enc(),
        decreases v@.len() - i,
    {
        out.push(v[i].dup());
        i = i + 1;
    }
    assert(encodings(out@) =~= encodings(v@));
    assert(all_valid(v@) ==> all_valid(out@)) by {
        if all_valid(v@) {
            assert forall|k: int| 0 <= k < out@.len() implies is_valid::<G>(
                (#[trigger] out@[k]).enc(),
            ) by {
                assert(is_valid::<G>(v@[k].enc()));
            }
        }
    }
    out
}

/// A vector of generators to commit against.
#[derive(Clone, Debug)]
pub struct Pedersen<G: CurveGroup> {
    pub generators: Vec<G>,
}

impl<G: CurveGroup> Pedersen<G> {
    /// Every generator is a group element.
    pub open spec fn wf(self) -> bool {
        all_valid(self.generators@)
    }

    /// The generators as encodings.
    pub open spec fn bases(self) -> Seq<Seq<u8>> {
        encodings(self.generators@)
    }

    /// The instance over the given generators.
    pub fn from_generators(generators: Vec<G>) -> (r: Self)
        ensures
            r.generators == generators,
    {
        Pedersen { generators }
    }

    /// An instance over `n` random generators.
    pub fn rand(n: usize, rng: &mut SeededRng) -> (r: Self)
        ensures
            r.generators@.len() == n,
            r.wf(),
            (r.bases(), *final(rng)) == drawn_points::<G>(*old(rng), n as nat),
    {
        let ghost start = *rng;
        let mut generators: Vec<G> = Vec::new();
        let mut i: usize = 0;
        assert(encodings(generators@) =~= Seq::<Seq<u8>>::empty());
        while i < n
            invariant
                i <= n,
                generators@.len() == i,
                all_valid(generators@),
                (encodings(generators@), *rng) == drawn_points::<G>(start, i as nat),
            decreases n - i,
        {
            let ghost before = generators@;
            let g = G::rand(rng);
            generators.push(g);
            assert(encodings(generators@) =~= encodings(before).push(g.enc()));
            i = i + 1;
        }
        Pedersen { generators }
    }

    /// `Σ scalars[i] · generators[i]`, or the length mismatch.
    pub fn commit(&self, scalars: &Vec<Scalar>) -> (r: Result<G, PedersenError>)
        requires
            self.wf(),
            all_wf(scalars@),
        ensures
            scalars@.len() == self.generators@.len() ==> r.is_ok() && r.unwrap().enc() == msm_of::<
                G,
            >(self.bases(), values(scalars@)) && is_valid::<G>(r.unwrap().enc()),
            scalars@.len() != self.generators@.len() ==> r == Err::<G, PedersenError>(
                PedersenError::LengthMismatch {
                    scalars: scalars@.len() as usize,
                    generators: self.generators@.len() as usize,
                },
            ),
    {
        if scalars.len() != self.generators.len() {
            return Err(
                PedersenError::LengthMismatch {
                    scalars: scalars.len(),
                    generators: self.generators.len(),
                },
            );
        }
        match G::msm(&self.generators, scalars) {
            Ok(sum) => Ok(sum),
            Err(_) => Err(PedersenError::MsmFailed),
        }
    }

    /// The sparse inner product: only the generators that the entries point
    /// at are touched. No entries give the neutral element.
    pub fn commit_sparse(&self, sparse: &SparseVector) -> (r: G)
        requires
            self.wf(),
            sparse.wf(),
            sparse.size <= self.generators@.len(),
        ensures
            r.enc() == sparse_msm::<G>(self.bases(), sparse.entries@),
            is_valid::<G>(r.enc()),
    {
        if sparse.entries.len() == 0 {
            let z = G::zero();
            assert(gather(self.bases(), sparse.entries@).len() == 0);
            return z;
        }
        let mut bases: Vec<G> = Vec::new();
        let mut vals: Vec<Scalar> = Vec::new();
        let mut k: usize = 0;
        while k < sparse.entries.len()
            invariant
                k <= sparse.entries@.len(),
                self.wf(),
                sparse.wf(),
                sparse.size <= self.generators@.len(),
                bases@.len() == k,
                vals@.len() == k,
                all_valid(bases@),
                all_wf(vals@),
                forall|j: int|
                    0 <= j < k ==> (#[trigger] bases@[j]).enc()
                        == self.generators@[sparse.entries@[j].0 as int].enc(),
                forall|j: int| 0 <= j < k ==> (#[trigger] vals@[j]) == sparse.entries@[j].1,
            decreases sparse.entries@.len() - k,
        {
            let i: usize = sparse.entries[k].0;
            let v: Scalar = sparse.entries[k].1;
            assert(sparse.entries@[k as int].0 < sparse.size && sparse.entries@[k as int].1.wf());
            assert(is_valid::<G>(self.generators@[i as int].enc()));
            bases.push(self.generators[i].dup());
            vals.push(v);
            k = k + 1;
        }
        assert(encodings(bases@) =~= gather(self.bases(), sparse.entries@));
        assert(values(vals@) =~= entry_values(sparse.entries@));
        match G::msm(&bases, &vals) {
            Ok(sum) => sum,
            Err(_) => G::zero(),
        }
    }
}

} // verus!
