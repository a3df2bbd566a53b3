//! Sparse vectors over the scalar field and the regular noise sampler.

use vstd::prelude::*;
use vstd::arithmetic::div_mod::{lemma_add_mod_noop_right, lemma_small_mod};
use crate::rng::SeededRng;
use crate::scalar::{after_scalar, all_wf, modulus, next_scalar, nonzero_of, Scalar};

verus! {

/// Sum, as an integer, of the values of the entries that sit at position `j`.
pub open spec fn entry_sum(entries: Seq<(usize, Scalar)>, j: int) -> nat
    decreases entries.len(),
{
    if entries.len() == 0 {
        0
    } else {
        let rest = entry_sum(entries.drop_last(), j);
        if entries.last().0 == j {
            rest + entries.last().1@
        } else {
            rest
        }
    }
}

/// The dense vector of length `size` that the entries stand for: entries at
/// the same position add up.
pub open spec fn densify(size: nat, entries: Seq<(usize, Scalar)>) -> Seq<nat> {
    Seq::new(size, |j: int| entry_sum(entries, j) % modulus())
}

/// Every entry sits below `size` and holds a reduced scalar.
pub open spec fn entries_wf(size: nat, entries: Seq<(usize, Scalar)>) -> bool {
    forall|k: int| 0 <= k < entries.len() ==> (#[trigger] entries[k]).0 < size && entries[k].1.wf()
}

/// The entries of the first `k` chunks of regular noise with chunks of the
/// given width: for each chunk the generator draws an offset into the chunk
/// and then a nonzero scalar. The result is the entries and the generator
/// behind the draws.
pub open spec fn noise_chunks(rng: SeededRng, width: usize, k: nat) -> (
    Seq<(usize, Scalar)>,
    SeededRng,
)
    decreases k,
{
    if k == 0 {
        (Seq::empty(), rng)
    } else {
        let before = noise_chunks(rng, width, (k - 1) as nat);
        let offset = before.1.next_index(width);
        let behind = before.1.after_index(width);
        let value = nonzero_of(next_scalar(behind));
        (before.0.push((((k - 1) * width + offset) as usize, value)), after_scalar(behind))
    }
}

/// The entries of the regular noise vector of length `size` with `t`
/// entries that the generator draws, and the generator behind the draws.
/// Nothing is drawn where `t` or `size` is zero.
pub open spec fn sampled_noise(rng: SeededRng, size: usize, t: usize) -> (
    Seq<(usize, Scalar)>,
    SeededRng,
) {
    if t == 0 || size == 0 {
        (Seq::empty(), rng)
    } else {
        noise_chunks(rng, (size / t) as usize, t as nat)
    }
}

/// A vector of length `size` given by its entries `(position, value)`.
#[derive(Clone, Debug)]
pub struct SparseVector {
    pub size: usize,
    pub entries: Vec<(usize, Scalar)>,
}

impl SparseVector {
    /// Every position is below `size`, every value reduced.
    pub open spec fn wf(self) -> bool {
        entries_wf(self.size as nat, self.entries@)
    }

    /// The dense vector that this one stands for.
    pub open spec fn dense(self) -> Seq<nat> {
        densify(self.size as nat, self.entries@)
    }

    /// The sparse vector with the given entries.
    pub fn new(size: usize, entries: Vec<(usize, Scalar)>) -> (r: SparseVector)
        requires
            entries_wf(size as nat, entries@),
        ensures
            r.size == size,
            r.entries == entries,
            r.wf(),
    {
        SparseVector { size, entries }
    }

    /// The dense form: one scalar per position, duplicates added up.
    pub fn into_dense(&self) -> (dense: Vec<Scalar>)
        requires
            self.wf(),
        ensures
            crate::scalar::values(dense@) == self.dense(),
            all_wf(dense@),
    {
        densify_entries(self.size, &self.entries)
    }

    /// A regular noise vector: `[0, size)` is cut into `t` chunks of width
    /// `size / t`, and each chunk gets one entry at a random position with a
    /// random nonzero value.
    pub fn error_vec(size: usize, t: usize, rng: &mut SeededRng) -> (r: SparseVector)
        requires
            t == 0 || size == 0 || size >= t,
        ensures
            r.size == size,
            r.wf(),
            (r.entries@, *final(rng)) == sampled_noise(*old(rng), size, t),
            t == 0 || size == 0 ==> r.entries@.len() == 0,
            t != 0 && size != 0 ==> regular_noise(size as nat, t as nat, r.entries@),
    {
        let ghost start = *rng;
        if t == 0 || size == 0 {
            return SparseVector { size, entries: Vec::new() };
        }
        let chunk_size: usize = size / t;
        assert(chunk_size >= 1 && chunk_size * t <= size) by (nonlinear_arith)
            requires
                chunk_size == size as int / t as int,
                size >= t,
                t > 0,
        ;
        let mut entries: Vec<(usize, Scalar)> = Vec::new();
        let mut chunk_idx: usize = 0;
        while chunk_idx < t
            invariant
                chunk_idx <= t,
                chunk_size >= 1,
                chunk_size * t <= size,
                chunk_size == size as int / t as int,
                entries@.len() == chunk_idx,
                (entries@, *rng) == noise_chunks(start, chunk_size, chunk_idx as nat),
                forall|k: int|
                    0 <= k < chunk_idx ==> in_chunk(chunk_size as nat, k, (#[trigger] entries@[k])),
            decreases t - chunk_idx,
        {
            assert(chunk_idx * chunk_size + chunk_size <= size) by (nonlinear_arith)
                requires
                    chunk_idx < t,
                    chunk_size * t <= size,
            ;
            let base: usize = chunk_idx * chunk_size;
            let offset: usize = rng.gen_index(chunk_size);
            let val = Scalar::rand_nonzero(rng);
            assert((chunk_idx + 1) * chunk_size == chunk_idx * chunk_size + chunk_size)
                by (nonlinear_arith);
            let ghost before = entries@;
            entries.push((base + offset, val));
            assert(forall|k: int| 0 <= k < chunk_idx ==> entries@[k] == before[k]);
            assert(in_chunk(chunk_size as nat, chunk_idx as int, entries@[chunk_idx as int]));
            chunk_idx = chunk_idx + 1;
        }
        proof {
            assert forall|k: int| 0 <= k < entries@.len() implies (#[trigger] entries@[k]).0
                < size && entries@[k].1.wf() by {
                assert(in_chunk(chunk_size as nat, k, entries@[k]));
                assert((k + 1) * chunk_size <= size) by (nonlinear_arith)
                    requires
                        0 <= k < t,
                        chunk_size * t <= size,
                ;
            }
        }
        SparseVector { size, entries }
    }
}

/// The entry sits in chunk `k` of width `width` and holds a reduced nonzero
/// value.
pub open spec fn in_chunk(width: nat, k: int, entry: (usize, Scalar)) -> bool {
    &&& k * width <= entry.0 < (k + 1) * width
    &&& entry.1.wf()
    &&& entry.1@ != 0
}

/// The entries are one per chunk, in order: entry `k` sits in
/// `[k * (size / t), (k + 1) * (size / t))` and is nonzero.
pub open spec fn regular_noise(size: nat, t: nat, entries: Seq<(usize, Scalar)>) -> bool {
    &&& entries.len() == t
    &&& forall|k: int| 0 <= k < t ==> in_chunk(size / t, k, #[trigger] entries[k])
}

/// Adds the entries into a zero vector of length `size`.
pub fn densify_entries(size: usize, entries: &Vec<(usize, Scalar)>) -> (dense: Vec<Scalar>)
    requires
        entries_wf(size as nat, entries@),
    ensures
        crate::scalar::values(dense@) == densify(size as nat, entries@),
        all_wf(dense@),
{
    let mut dense: Vec<Scalar> = Vec::new();
    let mut j: usize = 0;
    while j < size
        invariant
            j <= size,
            dense@.len() == j,
            forall|i: int| 0 <= i < j ==> (#[trigger] dense@[i])@ == 0,
        decreases size - j,
    {
        dense.push(Scalar::zero());
        j = j + 1;
    }
    let mut k: usize = 0;
    while k < entries.len()
        invariant
            k <= entries@.len(),
            dense@.len() == size,
            entries_wf(size as nat, entries@),
            forall|i: int|
                0 <= i < size ==> (#[trigger] dense@[i])@ == entry_sum(entries@.take(k as int), i)
                    % modulus(),
        decreases entries@.len() - k,
    {
        let i: usize = entries[k].0;
        let v: Scalar = entries[k].1;
        assert(entries@[k as int].0 < size && entries@[k as int].1.wf());
        let cur: Scalar = dense[i];
        let sum = cur.add(&v);
        proof {
            let before = entries@.take(k as int);
            let after = entries@.take(k + 1);
            assert(after.drop_last() =~= before);
            assert(after.last() == entries@[k as int]);
            lemma_add_mod_noop_right(v@ as int, entry_sum(before, i as int) as int, modulus() as int);
        }
        dense.set(i, sum);
        k = k + 1;
    }
    proof {
        assert(entries@.take(entries@.len() as int) =~= entries@);
        assert(crate::scalar::values(dense@) =~= densify(size as nat, entries@));
    }
    dense
}

/// Among the first `m` entries of regular noise, position `j` is hit by the
/// entry of its chunk or by none.
proof fn lemma_entry_sum_regular(entries: Seq<(usize, Scalar)>, width: nat, j: int, m: int)
    requires
        width >= 1,
        0 <= j,
        0 <= m <= entries.len(),
        forall|k: int| 0 <= k < entries.len() ==> in_chunk(width, k, #[trigger] entries[k]),
    ensures
        entry_sum(entries.take(m), j) == (if j / (width as int) < m && entries[j / (
        width as int)].0 == j {
            entries[j / (width as int)].1@
        } else {
            0nat
        }),
    decreases m,
{
    let w = width as int;
    let c = j / w;
    assert(c * w <= j < (c + 1) * w && 0 <= c) by (nonlinear_arith)
        requires
            c == j / w,
            w >= 1,
            j >= 0,
    ;
    if m > 0 {
        lemma_entry_sum_regular(entries, width, j, m - 1);
        let e = entries.take(m);
        assert(e.drop_last() =~= entries.take(m - 1));
        assert(e.last() == entries[m - 1]);
        assert(in_chunk(width, m - 1, entries[m - 1]));
        if entries[m - 1].0 == j {
            assert(c == m - 1) by (nonlinear_arith)
                requires
                    (m - 1) * w <= j < m * w,
                    c * w <= j < (c + 1) * w,
                    w >= 1,
            ;
        }
    }
}

/// Regular noise has exactly one nonzero element in every chunk: within
/// chunk `k`, the dense form is nonzero at the position of entry `k` and
/// nowhere else.
pub proof fn lemma_one_nonzero_per_chunk(
    size: nat,
    t: nat,
    entries: Seq<(usize, Scalar)>,
    k: int,
    j: int,
)
    requires
        1 <= t <= size,
        regular_noise(size, t, entries),
        0 <= k < t,
        k * (size / t) <= j < (k + 1) * (size / t),
    ensures
        k * (size / t) <= entries[k].0 < (k + 1) * (size / t),
        densify(size, entries)[j] != 0 <==> j == entries[k].0,
{
    let width = size / t;
    let w = width as int;
    assert(w >= 1 && w * t <= size) by (nonlinear_arith)
        requires
            w == size as int / t as int,
            1 <= t <= size,
    ;
    assert(in_chunk(width, k, entries[k]));
    assert(j / w == k) by (nonlinear_arith)
        requires
            k * w <= j < (k + 1) * w,
            w >= 1,
    ;
    assert(j < size) by (nonlinear_arith)
        requires
            j < (k + 1) * w,
            k < t,
            w * t <= size,
            w >= 1,
    ;
    lemma_entry_sum_regular(entries, width, j, entries.len() as int);
    assert(entries.take(entries.len() as int) =~= entries);
    lemma_small_mod(entries[k].1@, modulus());
    lemma_small_mod(0, modulus());
}

} // verus!
