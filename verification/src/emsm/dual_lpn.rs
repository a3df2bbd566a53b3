//! Dual-LPN instances: a sparse noise vector and the mask it gives.

use vstd::prelude::*;
use crate::emsm::raa_code::TOperator;
use crate::emsm::sparse_vec::{regular_noise, sampled_noise, SparseVector};
use crate::rng::SeededRng;
use crate::scalar::{all_wf, fadd, values, Scalar};

verus! {

/// The element-wise sum of two vectors in the field.
pub open spec fn add_vectors(z: Seq<nat>, r: Seq<nat>) -> Seq<nat> {
    Seq::new(z.len(), |i: int| fadd(z[i], r[i]))
}

/// A noise vector `e` of length `N` and the mask `r = T · e` of length `n`.
#[derive(Clone, Debug)]
pub struct DualLPNInstance {
    /// The sparse noise vector `e`.
    pub noise: SparseVector,
    /// The dense mask `r = T · e`.
    pub lpn_vector: Vec<Scalar>,
}

impl DualLPNInstance {
    /// The noise is a sparse vector of length `N` and the mask is what the
    /// code makes of it.
    pub open spec fn wf(self, t_operator: TOperator) -> bool {
        &&& self.noise.size == t_operator.big_n
        &&& self.noise.wf()
        &&& self.lpn_vector@.len() == t_operator.n
        &&& all_wf(self.lpn_vector@)
        &&& values(self.lpn_vector@) == t_operator.apply(self.noise.entries@)
    }

    /// A fresh instance: regular noise with `t` entries, and its mask.
    pub fn sample(t_operator: &TOperator, t: usize, rng: &mut SeededRng) -> (r: Self)
        requires
            t_operator.wf(),
            t == 0 || t_operator.big_n == 0 || t_operator.big_n >= t,
        ensures
            r.wf(*t_operator),
            (r.noise.entries@, *final(rng)) == sampled_noise(*old(rng), t_operator.big_n, t),
            t == 0 || t_operator.big_n == 0 ==> r.noise.entries@.len() == 0,
            t != 0 && t_operator.big_n != 0 ==> regular_noise(
                t_operator.big_n as nat,
                t as nat,
                r.noise.entries@,
            ),
    {
        let noise = SparseVector::error_vec(t_operator.big_n, t, rng);
        let lpn_vector = t_operator.multiply_sparse(&noise.entries);
        DualLPNInstance { noise, lpn_vector }
    }

    /// The masked vector `z + r`.
    pub fn mask_witness(&self, z: &Vec<Scalar>) -> (v: Vec<Scalar>)
        requires
            z@.len() == self.lpn_vector@.len(),
            all_wf(z@),
            all_wf(self.lpn_vector@),
        ensures
            values(v@) == add_vectors(values(z@), values(self.lpn_vector@)),
            all_wf(v@),
    {
        let mut v: Vec<Scalar> = Vec::new();
        let mut i: usize = 0;
        while i < z.len()
            invariant
                i <= z@.len(),
                z@.len() == self.lpn_vector@.len(),
                all_wf(z@),
                all_wf(self.lpn_vector@),
                v@.len() == i,
                all_wf(v@),
                forall|k: int|
                    0 <= k < i ==> (#[trigger] v@[k])@ == fadd(z@[k]@, self.lpn_vector@[k]@),
            decreases z@.len() - i,
        {
            let zi: Scalar = z[i];
            let ri: Scalar = self.lpn_vector[i];
            v.push(zi.add(&ri));
            i = i + 1;
        }
        assert(values(v@) =~= add_vectors(values(z@), values(self.lpn_vector@)));
        v
    }
}

} // verus!
