//! The repeat-accumulate-accumulate code `T = F ∘ M_p ∘ A ∘ M_q ∘ A`.
//!
//! `A` is the suffix sum on vectors of length `N = 4n`, `M_σ` the permutation
//! `(M_σ v)[i] = v[σ(i)]`, and `F` the fold that adds up each group of four
//! neighbours.

use vstd::prelude::*;
use vstd::arithmetic::div_mod::{lemma_add_mod_noop, lemma_add_mod_noop_right, lemma_small_mod};
use crate::emsm::sparse_vec::{densify, densify_entries, entries_wf};
use crate::group::{all_valid, encodings, is_valid, CurveGroup, GroupModel};
use crate::rng::SeededRng;
use crate::scalar::{all_wf, fadd, modulus, values, Scalar};

verus! {

/// Sum, as an integer, of the elements from position `i` on.
pub open spec fn sum_from(v: Seq<nat>, i: int) -> nat
    decreases v.len() - i,
{
    if i < 0 || i >= v.len() {
        0
    } else {
        v[i] + sum_from(v, i + 1)
    }
}

/// The suffix sum `A`: element `i` becomes the sum of the elements from `i`
/// on, in the field.
pub open spec fn accumulate(v: Seq<nat>) -> Seq<nat> {
    Seq::new(v.len(), |i: int| sum_from(v, i) % modulus())
}

/// The inverse of the suffix sum: element `i` less element `i + 1`, in the
/// field; the last element stays.
pub open spec fn difference(w: Seq<nat>) -> Seq<nat> {
    Seq::new(
        w.len(),
        |i: int|
            if i + 1 < w.len() {
                ((w[i] - w[i + 1]) % (modulus() as int)) as nat
            } else {
                w[i] % modulus()
            },
    )
}

/// The permutation `M_σ`: element `i` of the result is element `σ(i)` of `v`.
pub open spec fn permute<A>(v: Seq<A>, perm: Seq<usize>) -> Seq<A> {
    Seq::new(perm.len(), |i: int| v[perm[i] as int])
}

/// The fold `F`: element `i` of the result is the sum of the elements
/// `4i .. 4i + 3`, in the field.
pub open spec fn fold4(v: Seq<nat>) -> Seq<nat> {
    Seq::new(
        v.len() / 4,
        |i: int| (v[4 * i] + v[4 * i + 1] + v[4 * i + 2] + v[4 * i + 3]) % modulus(),
    )
}

/// The code applied to a dense vector of length `N`.
pub open spec fn raa_apply(perm_p: Seq<usize>, perm_q: Seq<usize>, dense: Seq<nat>) -> Seq<nat> {
    fold4(permute(accumulate(permute(accumulate(dense), perm_q)), perm_p))
}

/// The transpose of the fold: each element is repeated four times.
pub open spec fn replicate4<A>(g: Seq<A>) -> Seq<A> {
    Seq::new(4 * g.len(), |i: int| g[i / 4])
}

/// The sum of the elements up to and including position `i`, added up from
/// the left.
pub open spec fn prefix_sum<G: GroupModel>(v: Seq<Seq<u8>>, i: int) -> Seq<u8>
    decreases i,
{
    if i <= 0 {
        v[0]
    } else {
        G::sum(prefix_sum::<G>(v, i - 1), v[i])
    }
}

/// The transpose of the suffix sum: element `i` becomes the sum of the
/// elements up to `i`.
pub open spec fn prefix_sums<G: GroupModel>(v: Seq<Seq<u8>>) -> Seq<Seq<u8>> {
    Seq::new(v.len(), |i: int| prefix_sum::<G>(v, i))
}

/// The transposed code applied to `n` group elements, given the inverses of
/// its two permutations.
pub open spec fn raa_transpose<G: GroupModel>(
    inv_p: Seq<usize>,
    inv_q: Seq<usize>,
    g: Seq<Seq<u8>>,
) -> Seq<Seq<u8>> {
    prefix_sums::<G>(permute(prefix_sums::<G>(permute(replicate4(g), inv_p)), inv_q))
}

/// Every element is an index of the sequence.
pub open spec fn in_range(perm: Seq<usize>) -> bool {
    forall|i: int| 0 <= i < perm.len() ==> (#[trigger] perm[i]) < perm.len()
}

/// Each index of the sequence occurs in it exactly once.
pub open spec fn is_permutation(perm: Seq<usize>) -> bool {
    &&& in_range(perm)
    &&& forall|i: int, j: int|
        0 <= i < perm.len() && 0 <= j < perm.len() && perm[i] == perm[j] ==> i == j
    &&& forall|k: int| 0 <= k < perm.len() ==> #[trigger] occurs(perm, k)
}

/// Some position of `perm` holds `k`.
pub open spec fn occurs(perm: Seq<usize>, k: int) -> bool {
    exists|i: int| 0 <= i < perm.len() && perm[i] == k
}

/// `inv` undoes `perm` and `perm` undoes `inv`.
pub open spec fn inverse_of(perm: Seq<usize>, inv: Seq<usize>) -> bool {
    &&& inv.len() == perm.len()
    &&& in_range(perm)
    &&& in_range(inv)
    &&& forall|i: int| 0 <= i < perm.len() ==> inv[(#[trigger] perm[i]) as int] == i
    &&& forall|k: int| 0 <= k < perm.len() ==> perm[(#[trigger] inv[k]) as int] == k
}

/// `i` is the last position at which `perm` holds `k`.
pub open spec fn last_position(perm: Seq<usize>, k: int, i: int) -> bool {
    &&& 0 <= i < perm.len()
    &&& perm[i] == k
    &&& forall|j: int| i < j < perm.len() ==> perm[j] != k
}

/// The vector that sends each value of `perm` to the last position holding
/// it, and every other index to 0.
pub open spec fn inverse_seq(perm: Seq<usize>) -> Seq<usize> {
    Seq::new(
        perm.len(),
        |k: int|
            if occurs(perm, k) {
                (choose|i: int| last_position(perm, k, i)) as usize
            } else {
                0usize
            },
    )
}

/// The sequence `0, 1, …, n − 1`.
pub open spec fn identity_perm(n: nat) -> Seq<usize> {
    Seq::new(n, |k: int| k as usize)
}

/// The sequence with the elements at `i` and `j` exchanged.
pub open spec fn swapped(perm: Seq<usize>, i: int, j: int) -> Seq<usize> {
    perm.update(i, perm[j]).update(j, perm[i])
}

/// The Fisher–Yates steps from position `i` down to 1: position `i` is
/// exchanged with the index that the generator draws below `i + 1`. The
/// result is the shuffled sequence and the generator behind the draws.
pub open spec fn shuffle(perm: Seq<usize>, rng: SeededRng, i: int) -> (Seq<usize>, SeededRng)
    decreases i,
{
    if i < 1 {
        (perm, rng)
    } else {
        let j = rng.next_index((i + 1) as usize);
        shuffle(swapped(perm, i, j as int), rng.after_index((i + 1) as usize), i - 1)
    }
}

/// The permutation of `0 .. n` that Fisher–Yates makes with the draws of the
/// generator, and the generator behind them.
pub open spec fn fisher_yates(rng: SeededRng, n: nat) -> (Seq<usize>, SeededRng) {
    shuffle(identity_perm(n), rng, n - 1)
}

/// The vector that sends each value of `perm` to the last position holding
/// it, and every other index to 0.
pub fn inverse_permutation(perm: &Vec<usize>) -> (inv: Vec<usize>)
    requires
        in_range(perm@),
    ensures
        inv@ == inverse_seq(perm@),
        inv@.len() == perm@.len(),
        forall|k: int|
            0 <= k < perm@.len() ==> if occurs(perm@, k) {
                last_position(perm@, k, (#[trigger] inv@[k]) as int)
            } else {
                inv@[k] == 0
            },
        is_permutation(perm@) ==> inverse_of(perm@, inv@),
{
    let n: usize = perm.len();
    let mut inv: Vec<usize> = Vec::new();
    let mut j: usize = 0;
    while j < n
        invariant
            j <= n,
            inv@.len() == j,
            forall|k: int| 0 <= k < j ==> (#[trigger] inv@[k]) == 0,
        decreases n - j,
    {
        inv.push(0);
        j = j + 1;
    }
    let mut i: usize = 0;
    while i < n
        invariant
            i <= n,
            n == perm@.len(),
            inv@.len() == n,
            in_range(perm@),
            forall|k: int|
                0 <= k < n ==> if occurs(perm@.take(i as int), k) {
                    last_position(perm@.take(i as int), k, (#[trigger] inv@[k]) as int)
                } else {
                    inv@[k] == 0
                },
        decreases n - i,
    {
        let p: usize = perm[i];
        let ghost before = inv@;
        inv.set(p, i);
        proof {
            let pre = perm@.take(i as int);
            let post = perm@.take(i + 1);
            assert forall|k: int| 0 <= k < n implies if occurs(post, k) {
                last_position(post, k, (#[trigger] inv@[k]) as int)
            } else {
                inv@[k] == 0
            } by {
                if k == p {
                    assert(post[i as int] == k);
                    assert(occurs(post, k));
                    assert(last_position(post, k, i as int));
                } else {
                    assert(inv@[k] == before[k]);
                    if occurs(post, k) {
                        let a = choose|a: int| 0 <= a < post.len() && post[a] == k;
                        assert(a < i);
                        assert(pre[a] == k);
                        assert(occurs(pre, k));
                        assert(last_position(pre, k, before[k] as int));
                        assert(last_position(post, k, before[k] as int));
                    } else {
                        if occurs(pre, k) {
                            let a = choose|a: int| 0 <= a < pre.len() && pre[a] == k;
                            assert(post[a] == k);
                            assert(occurs(post, k));
                        }
                    }
                }
            }
        }
        i = i + 1;
    }
    proof {
        assert(perm@.take(n as int) =~= perm@);
        if is_permutation(perm@) {
            assert forall|a: int| 0 <= a < n implies inv@[(#[trigger] perm@[a]) as int] == a by {
                let k = perm@[a] as int;
                assert(occurs(perm@, k));
                assert(last_position(perm@, k, inv@[k] as int));
            }
            assert forall|k: int| 0 <= k < n implies perm@[(#[trigger] inv@[k]) as int] == k by {
                assert(occurs(perm@, k));
                assert(last_position(perm@, k, inv@[k] as int));
            }
            assert(in_range(inv@)) by {
                assert forall|k: int| 0 <= k < n implies (#[trigger] inv@[k]) < n by {
                    assert(occurs(perm@, k));
                    assert(last_position(perm@, k, inv@[k] as int));
                }
            }
        }
    }
    proof {
        assert forall|k: int| 0 <= k < n implies inv@[k] == inverse_seq(perm@)[k] by {
            if occurs(perm@, k) {
                let c = choose|i: int| last_position(perm@, k, i);
                assert(last_position(perm@, k, inv@[k] as int));
                assert(last_position(perm@, k, c));
                assert(c == inv@[k]);
            }
        }
        assert(inv@ =~= inverse_seq(perm@));
    }
    inv
}

/// A permutation of `0 .. n` drawn by Fisher–Yates: from the last position
/// down, each position is swapped with a random one at or below it.
pub fn random_permutation(n: usize, rng: &mut SeededRng) -> (perm: Vec<usize>)
    ensures
        (perm@, *final(rng)) == fisher_yates(*old(rng), n as nat),
        perm@.len() == n,
        is_permutation(perm@),
{
    let ghost start = *rng;
    let mut perm: Vec<usize> = Vec::new();
    let mut k: usize = 0;
    while k < n
        invariant
            k <= n,
            perm@.len() == k,
            forall|a: int| 0 <= a < k ==> (#[trigger] perm@[a]) == a,
        decreases n - k,
    {
        perm.push(k);
        k = k + 1;
    }
    assert(is_permutation(perm@)) by {
        assert forall|v: int| 0 <= v < n implies #[trigger] occurs(perm@, v) by {
            assert(perm@[v] == v);
        }
    }
    assert(perm@ =~= identity_perm(n as nat));
    if n <= 1 {
        return perm;
    }
    let mut i: usize = n - 1;
    while i >= 1
        invariant
            i < n,
            perm@.len() == n,
            is_permutation(perm@),
            shuffle(perm@, *rng, i as int) == fisher_yates(start, n as nat),
        decreases i,
    {
        let j: usize = rng.gen_index(i + 1);
        let a: usize = perm[i];
        let b: usize = perm[j];
        let ghost before = perm@;
        perm.set(i, b);
        perm.set(j, a);
        proof {
            lemma_swap_keeps_permutation(before, i as int, j as int, perm@);
            assert(perm@ == swapped(before, i as int, j as int));
        }
        i = i - 1;
    }
    perm
}

/// Swapping two elements of a permutation leaves a permutation.
proof fn lemma_swap_keeps_permutation(before: Seq<usize>, i: int, j: int, after: Seq<usize>)
    requires
        is_permutation(before),
        0 <= i < before.len(),
        0 <= j < before.len(),
        after == before.update(i, before[j]).update(j, before[i]),
    ensures
        is_permutation(after),
{
    let n = before.len() as int;
    let sw = |a: int| if a == i { j } else if a == j { i } else { a };
    assert forall|a: int| 0 <= a < n implies after[a] == before[sw(a)] by {}
    assert(in_range(after)) by {
        assert forall|a: int| 0 <= a < after.len() implies (#[trigger] after[a]) < after.len() by {
            assert(after[a] == before[sw(a)]);
        }
    }
    assert forall|a: int, b: int| 0 <= a < n && 0 <= b < n && after[a] == after[b] implies a
        == b by {
        assert(after[a] == before[sw(a)]);
        assert(after[b] == before[sw(b)]);
    }
    assert forall|k: int| 0 <= k < n implies #[trigger] occurs(after, k) by {
        assert(occurs(before, k));
        let a0 = choose|a: int| 0 <= a < n && before[a] == k;
        assert(after[sw(a0)] == before[sw(sw(a0))]);
        assert(sw(sw(a0)) == a0);
        assert(0 <= sw(a0) < n && after[sw(a0)] == k);
    }
}

/// From this length on the suffix sum, the permutation and the fold are
/// computed in parallel.
pub const PARALLEL_THRESHOLD: usize = 65536;

/// The number of chunks of `chunk_size` elements that `len` elements fall
/// into, the last one perhaps shorter.
pub open spec fn chunk_count(len: nat, chunk_size: nat) -> nat {
    if len % chunk_size == 0 {
        len / chunk_size
    } else {
        len / chunk_size + 1
    }
}

/// The elements of chunk `c`.
pub open spec fn chunk_of(v: Seq<Scalar>, chunk_size: nat, c: int) -> Seq<Scalar> {
    v.subrange(
        c * chunk_size,
        if (c + 1) * chunk_size <= v.len() {
            (c + 1) * chunk_size
        } else {
            v.len() as int
        },
    )
}

/// The suffix sum within one chunk, in place; the sum of the whole chunk is
/// returned.
pub fn suffix_sum_chunk(chunk: &mut [Scalar]) -> (total: Scalar)
    requires
        all_wf(old(chunk)@),
    ensures
        values(final(chunk)@) == accumulate(values(old(chunk)@)),
        all_wf(final(chunk)@),
        total@ == sum_from(values(old(chunk)@), 0) % modulus(),
        total.wf(),
{
    let n: usize = chunk.len();
    let ghost before = chunk@;
    let mut sum = Scalar::zero();
    let mut i: usize = n;
    while i > 0
        invariant
            i <= n,
            chunk@.len() == n,
            before.len() == n,
            all_wf(before),
            sum.wf(),
            sum@ == sum_from(values(before), i as int) % modulus(),
            forall|k: int| 0 <= k < i ==> (#[trigger] chunk@[k]) == before[k],
            forall|k: int|
                i <= k < n ==> (#[trigger] chunk@[k])@ == sum_from(values(before), k) % modulus(),
        decreases i,
    {
        i = i - 1;
        let x: Scalar = chunk[i];
        assert(before[i as int].wf());
        sum = sum.add(&x);
        proof {
            lemma_add_mod_noop_right(
                x@ as int,
                sum_from(values(before), i + 1) as int,
                modulus() as int,
            );
        }
        chunk[i] = sum;
    }
    proof {
        assert(values(chunk@) =~= accumulate(values(before)));
        assert forall|k: int| 0 <= k < chunk@.len() implies (#[trigger] chunk@[k]).wf() by {
            assert(chunk@[k]@ == sum_from(values(before), k) % modulus());
        }
    }
    sum
}

/// Adds correction `idx` to every element of a chunk; a zero correction
/// leaves the chunk untouched.
pub fn add_to_chunk(chunk: &mut [Scalar], corrections: &Vec<Scalar>, idx: usize)
    requires
        all_wf(old(chunk)@),
        all_wf(corrections@),
        idx < corrections@.len(),
    ensures
        final(chunk)@.len() == old(chunk)@.len(),
        forall|k: int|
            0 <= k < old(chunk)@.len() ==> (#[trigger] final(chunk)@[k])@ == fadd(
                old(chunk)@[k]@,
                corrections@[idx as int]@,
            ),
{
    let c: Scalar = corrections[idx];
    assert(corrections@[idx as int].wf());
    let ghost before = chunk@;
    if !c.is_zero() {
        let n: usize = chunk.len();
        let mut i: usize = 0;
        while i < n
            invariant
                i <= n,
                chunk@.len() == n,
                before.len() == n,
                all_wf(before),
                c.wf(),
                forall|k: int| 0 <= k < i ==> (#[trigger] chunk@[k])@ == fadd(before[k]@, c@),
                forall|k: int| i <= k < n ==> (#[trigger] chunk@[k]) == before[k],
            decreases n - i,
        {
            let x: Scalar = chunk[i];
            assert(before[i as int].wf());
            chunk[i] = x.add(&c);
            i = i + 1;
        }
    } else {
        assert forall|k: int| 0 <= k < before.len() implies (#[trigger] chunk@[k])@ == fadd(
            before[k]@,
            c@,
        ) by {
            assert(before[k].wf());
            lemma_small_mod(before[k]@, modulus());
        }
    }
}

/// `rayon::current_num_threads`: the number of threads of the pool, which
/// depends on the machine.
#[verifier::external_body]
fn worker_count() -> (r: usize) {
    rayon::current_num_threads()
}

/// `par_chunks_mut`, `map` and `collect` of rayon: `suffix_sum_chunk` runs
/// once on each chunk of `chunk_size` elements, the last chunk perhaps
/// shorter, and the sums it returns come back in the order of the chunks.
/// The call panics on a chunk size of zero.
#[verifier::external_body]
fn par_chunk_suffix_sums(v: &mut Vec<Scalar>, chunk_size: usize) -> (sums: Vec<Scalar>)
    requires
        chunk_size > 0,
        all_wf(old(v)@),
    ensures
        final(v)@.len() == old(v)@.len(),
        sums@.len() == chunk_count(old(v)@.len(), chunk_size as nat),
        forall|c: int|
            0 <= c < sums@.len() ==> values(chunk_of(final(v)@, chunk_size as nat, c))
                == accumulate(values(chunk_of(old(v)@, chunk_size as nat, c))) && (
            #[trigger] sums@[c])@ == sum_from(values(chunk_of(old(v)@, chunk_size as nat, c)), 0)
                % modulus(),
{
    rayon::iter::ParallelIterator::collect(
        rayon::iter::ParallelIterator::map(
            rayon::slice::ParallelSliceMut::par_chunks_mut(v.as_mut_slice(), chunk_size),
            |chunk| suffix_sum_chunk(chunk),
        ),
    )
}

/// `par_chunks_mut`, `enumerate` and `for_each` of rayon: `add_to_chunk`
/// runs once on each chunk of `chunk_size` elements with the number of the
/// chunk, so that element `i` gets correction `i / chunk_size` added. The
/// call panics on a chunk size of zero.
#[verifier::external_body]
fn par_add_corrections(v: &mut Vec<Scalar>, chunk_size: usize, corrections: &Vec<Scalar>)
    requires
        chunk_size > 0,
        all_wf(old(v)@),
        all_wf(corrections@),
        corrections@.len() == chunk_count(old(v)@.len(), chunk_size as nat),
    ensures
        final(v)@.len() == old(v)@.len(),
        forall|i: int|
            0 <= i < old(v)@.len() ==> (#[trigger] final(v)@[i])@ == fadd(
                old(v)@[i]@,
                corrections@[i / (chunk_size as int)]@,
            ),
{
    rayon::iter::ParallelIterator::for_each(
        rayon::iter::IndexedParallelIterator::enumerate(
            rayon::slice::ParallelSliceMut::par_chunks_mut(v.as_mut_slice(), chunk_size),
        ),
        |(idx, chunk)| add_to_chunk(chunk, corrections, idx),
    )
}

/// A sum from a position on splits at any later position.
pub proof fn lemma_sum_from_split(v: Seq<nat>, lo: int, i: int, hi: int)
    requires
        0 <= lo <= i <= hi <= v.len(),
    ensures
        sum_from(v, i) == sum_from(v.subrange(lo, hi), i - lo) + sum_from(v, hi),
    decreases hi - i,
{
    if i < hi {
        lemma_sum_from_split(v, lo, i + 1, hi);
        assert(v.subrange(lo, hi)[i - lo] == v[i]);
    }
}

/// The suffix sum of a long vector, chunk by chunk: each chunk is summed by
/// itself, the sums of the chunks are summed from the right, and each chunk
/// gets the sum of the chunks behind it added.
pub fn accumulate_chunked(v: &mut Vec<Scalar>, num_chunks: usize)
    requires
        all_wf(old(v)@),
        num_chunks >= 1,
        old(v)@.len() >= 1,
    ensures
        values(final(v)@) == accumulate(values(old(v)@)),
        all_wf(final(v)@),
{
    let n: usize = v.len();
    let ghost before = v@;
    let ghost src = values(before);
    assert(n % num_chunks != 0 ==> n / num_chunks < n) by (nonlinear_arith)
        requires
            n >= 1,
            num_chunks >= 1,
    ;
    let chunk_size: usize = if n % num_chunks == 0 {
        n / num_chunks
    } else {
        n / num_chunks + 1
    };
    assert(chunk_size >= 1) by (nonlinear_arith)
        requires
            n >= 1,
            num_chunks >= 1,
            chunk_size == (if n as int % num_chunks as int == 0 {
                n as int / num_chunks as int
            } else {
                n as int / num_chunks as int + 1
            }),
    ;
    let ghost cs = chunk_size as int;

    // Each chunk by itself.
    let chunk_sums = par_chunk_suffix_sums(v, chunk_size);
    let ghost mid = v@;
    let count: usize = chunk_sums.len();
    assert(cs * (count - 1) < n && n <= cs * count) by (nonlinear_arith)
        requires
            cs >= 1,
            n >= 1,
            count == (if n as int % cs == 0 {
                n as int / cs
            } else {
                n as int / cs + 1
            }),
    ;
    assert(all_wf(chunk_sums@)) by {
        assert forall|c: int| 0 <= c < chunk_sums@.len() implies (#[trigger] chunk_sums@[c]).wf() by {
            assert(chunk_sums@[c]@ == sum_from(values(chunk_of(before, cs as nat, c)), 0)
                % modulus());
        }
    }
    assert(all_wf(mid)) by {
        assert forall|x: int| 0 <= x < mid.len() implies (#[trigger] mid[x]).wf() by {
            let c = x / cs;
            lemma_chunk_position(x, cs, n as int, count as int);
            let piece = chunk_of(mid, cs as nat, c);
            assert(chunk_sums@[c].wf());
            assert(values(piece)[x - c * cs] == piece[x - c * cs]@);
            assert(piece[x - c * cs] == mid[x]);
        }
    }

    // The sum of the chunks behind each chunk.
    let mut corrections: Vec<Scalar> = Vec::new();
    let mut j: usize = 0;
    while j < count
        invariant
            j <= count,
            corrections@.len() == j,
            all_wf(corrections@),
        decreases count - j,
    {
        corrections.push(Scalar::zero());
        j = j + 1;
    }
    let mut suffix = Scalar::zero();
    let mut i: usize = count;
    assert(sum_from(src, cs * count) == 0);
    while i > 0
        invariant
            i <= count,
            cs == chunk_size,
            cs >= 1,
            n == before.len(),
            src == values(before),
            cs * (count - 1) < n,
            n <= cs * count,
            corrections@.len() == count,
            chunk_sums@.len() == count,
            all_wf(corrections@),
            all_wf(chunk_sums@),
            suffix.wf(),
            suffix@ == sum_from(src, cs * i) % modulus(),
            forall|c: int|
                0 <= c < count ==> (#[trigger] chunk_sums@[c])@ == sum_from(
                    values(chunk_of(before, cs as nat, c)),
                    0,
                ) % modulus(),
            forall|c: int|
                i <= c < count ==> (#[trigger] corrections@[c])@ == sum_from(src, cs * (c + 1))
                    % modulus(),
        decreases i,
    {
        i = i - 1;
        corrections.set(i, suffix);
        let total: Scalar = chunk_sums[i];
        assert(chunk_sums@[i as int].wf());
        let ghost old_suffix = suffix@;
        suffix = suffix.add(&total);
        proof {
            let lo = cs * i;
            let hi = if cs * (i + 1) <= n { cs * (i + 1) } else { n as int };
            assert(cs * (i + 1) == cs * i + cs) by (nonlinear_arith);
            assert(0 <= lo && lo < n) by (nonlinear_arith)
                requires
                    0 <= i <= count - 1,
                    cs >= 1,
                    cs * (count - 1) < n,
                    lo == cs * i,
            ;
            assert(i * cs == cs * i && (i + 1) * cs == cs * (i + 1)) by (nonlinear_arith);
            assert(values(chunk_of(before, cs as nat, i as int)) =~= src.subrange(lo, hi));
            lemma_sum_from_split(src, lo, lo, hi);
            assert(sum_from(src, hi) == sum_from(src, cs * (i + 1)));
            lemma_add_mod_noop(
                sum_from(src, cs * (i + 1)) as int,
                sum_from(src.subrange(lo, hi), 0) as int,
                modulus() as int,
            );
        }
    }

    // Each chunk gets its correction.
    par_add_corrections(v, chunk_size, &corrections);
    proof {
        assert forall|x: int| 0 <= x < n implies (#[trigger] v@[x])@ == sum_from(src, x)
            % modulus() by {
            let c = x / cs;
            lemma_chunk_position(x, cs, n as int, count as int);
            let lo = c * cs;
            let hi = if (c + 1) * cs <= n { (c + 1) * cs } else { n as int };
            let piece = chunk_of(before, cs as nat, c);
            let done = chunk_of(mid, cs as nat, c);
            assert(chunk_sums@[c].wf());
            assert(values(done) == accumulate(values(piece)));
            assert(values(done)[x - lo] == done[x - lo]@);
            assert(done[x - lo] == mid[x]);
            assert(values(piece) =~= src.subrange(lo, hi));
            assert(mid[x]@ == sum_from(src.subrange(lo, hi), x - lo) % modulus());
            assert(cs * (c + 1) == (c + 1) * cs) by (nonlinear_arith);
            assert(corrections@[c]@ == sum_from(src, cs * (c + 1)) % modulus());
            assert(sum_from(src, hi) == sum_from(src, cs * (c + 1)));
            lemma_sum_from_split(src, lo, x, hi);
            lemma_add_mod_noop(
                sum_from(src.subrange(lo, hi), x - lo) as int,
                sum_from(src, hi) as int,
                modulus() as int,
            );
        }
        assert(values(v@) =~= accumulate(src));
        assert forall|x: int| 0 <= x < v@.len() implies (#[trigger] v@[x]).wf() by {
            assert(v@[x]@ == sum_from(src, x) % modulus());
        }
    }
}

/// Position `x` lies in chunk `x / chunk_size`, and that chunk exists.
pub proof fn lemma_chunk_position(x: int, cs: int, n: int, count: int)
    requires
        0 <= x < n,
        cs >= 1,
        n <= cs * count,
    ensures
        0 <= x / cs < count,
        (x / cs) * cs <= x < (x / cs + 1) * cs,
{
    let c = x / cs;
    assert(c * cs <= x < (c + 1) * cs && 0 <= c) by (nonlinear_arith)
        requires
            c == x / cs,
            cs >= 1,
            x >= 0,
    ;
    assert(c < count) by (nonlinear_arith)
        requires
            c * cs <= x,
            x < n,
            n <= cs * count,
            cs >= 1,
    ;
}

/// The suffix sum in place: `v[i]` becomes the sum of `v[i ..]`. Long
/// vectors are summed in parallel, chunk by chunk.
pub fn accumulate_inplace(v: &mut Vec<Scalar>)
    requires
        all_wf(old(v)@),
    ensures
        values(final(v)@) == accumulate(values(old(v)@)),
        all_wf(final(v)@),
{
    let n: usize = v.len();
    if n >= PARALLEL_THRESHOLD {
        let threads: usize = worker_count();
        let most: usize = n / 1024;
        let fewer: usize = if threads <= most { threads } else { most };
        let num_chunks: usize = if fewer >= 1 { fewer } else { 1 };
        accumulate_chunked(v, num_chunks);
    } else {
        suffix_sum_chunk(v.as_mut_slice());
    }
}

/// The element of `v` at position `p`.
pub fn pick(v: &Vec<Scalar>, p: &usize) -> (r: Scalar)
    requires
        *p < v@.len(),
    ensures
        r == v@[*p as int],
{
    v[*p]
}

/// `par_iter`, `map` and `collect` of rayon: `pick` runs once on each
/// element of `perm`, and what it returns comes back in the order of `perm`.
#[verifier::external_body]
fn par_permute(v: &Vec<Scalar>, perm: &Vec<usize>) -> (out: Vec<Scalar>)
    requires
        v@.len() == perm@.len(),
        in_range(perm@),
    ensures
        out@ == permute(v@, perm@),
{
    rayon::iter::ParallelIterator::collect(
        rayon::iter::ParallelIterator::map(
            rayon::iter::IntoParallelRefIterator::par_iter(perm),
            |p| pick(v, p),
        ),
    )
}

/// The permuted vector: element `i` of the result is `v[perm[i]]`. Long
/// vectors are permuted in parallel.
pub fn permute_safe(v: &Vec<Scalar>, perm: &Vec<usize>) -> (out: Vec<Scalar>)
    requires
        v@.len() == perm@.len(),
        in_range(perm@),
    ensures
        out@ == permute(v@, perm@),
{
    if v.len() >= PARALLEL_THRESHOLD {
        return par_permute(v, perm);
    }
    let mut out: Vec<Scalar> = Vec::new();
    let mut i: usize = 0;
    while i < perm.len()
        invariant
            i <= perm@.len(),
            v@.len() == perm@.len(),
            in_range(perm@),
            out@.len() == i,
            forall|k: int| 0 <= k < i ==> (#[trigger] out@[k]) == v@[perm@[k] as int],
        decreases perm@.len() - i,
    {
        out.push(pick(v, &perm[i]));
        i = i + 1;
    }
    assert(out@ =~= permute(v@, perm@));
    out
}

/// The sum of the four elements of group `i`.
pub fn fold_group(v: &Vec<Scalar>, i: usize) -> (r: Scalar)
    requires
        4 * i + 3 < v@.len(),
        all_wf(v@),
    ensures
        r@ == (v@[4 * i]@ + v@[4 * i + 1]@ + v@[4 * i + 2]@ + v@[4 * i + 3]@) % modulus(),
        r.wf(),
{
    let len: usize = v.len();
    assert(4 * i + 3 < len);
    let a: Scalar = v[4 * i];
    let b: Scalar = v[4 * i + 1];
    let c: Scalar = v[4 * i + 2];
    let d: Scalar = v[4 * i + 3];
    let ab = a.add(&b);
    let abc = ab.add(&c);
    let s = abc.add(&d);
    proof {
        let m = modulus() as int;
        lemma_add_mod_noop_right(c@ as int, (a@ + b@) as int, m);
        lemma_add_mod_noop_right(d@ as int, (a@ + b@ + c@) as int, m);
    }
    s
}

/// `into_par_iter`, `map` and `collect` of rayon over `0..n`: `fold_group`
/// runs once on each group, and what it returns comes back in the order of
/// the groups.
#[verifier::external_body]
fn par_fold(v: &Vec<Scalar>, n: usize) -> (out: Vec<Scalar>)
    requires
        v@.len() == 4 * n,
        all_wf(v@),
    ensures
        values(out@) == fold4(values(v@)),
{
    rayon::iter::ParallelIterator::collect(
        rayon::iter::ParallelIterator::map(
            rayon::iter::IntoParallelIterator::into_par_iter(0..n),
            |i| fold_group(v, i),
        ),
    )
}

/// The fold: element `i` of the result is `v[4i] + v[4i+1] + v[4i+2] + v[4i+3]`.
/// Long vectors are folded in parallel.
pub fn apply_f_fold(v: &Vec<Scalar>) -> (out: Vec<Scalar>)
    requires
        v@.len() % 4 == 0,
        all_wf(v@),
    ensures
        values(out@) == fold4(values(v@)),
        all_wf(out@),
{
    let n: usize = v.len() / 4;
    if n >= PARALLEL_THRESHOLD / 4 {
        let out = par_fold(v, n);
        proof {
            assert(values(out@).len() == out@.len());
            assert forall|k: int| 0 <= k < out@.len() implies (#[trigger] out@[k]).wf() by {
                assert(values(out@)[k] == out@[k]@);
            }
        }
        return out;
    }
    let mut out: Vec<Scalar> = Vec::new();
    let mut i: usize = 0;
    while i < n
        invariant
            i <= n,
            n == v@.len() / 4,
            v@.len() % 4 == 0,
            v@.len() <= usize::MAX,
            all_wf(v@),
            out@.len() == i,
            all_wf(out@),
            forall|k: int|
                0 <= k < i ==> (#[trigger] out@[k])@ == (v@[4 * k]@ + v@[4 * k + 1]@ + v@[4 * k
                    + 2]@ + v@[4 * k + 3]@) % modulus(),
        decreases n - i,
    {
        assert(4 * i + 3 < v@.len());
        out.push(fold_group(v, i));
        i = i + 1;
    }
    assert(values(out@) =~= fold4(values(v@)));
    out
}

/// The permuted vector of group elements: element `i` of the result is
/// `v[perm[i]]`.
pub fn permute_safe_group<G: CurveGroup>(v: &Vec<G>, perm: &Vec<usize>) -> (out: Vec<G>)
    requires
        v@.len() == perm@.len(),
        in_range(perm@),
    ensures
        encodings(out@) == permute(encodings(v@), perm@),
{
    let mut out: Vec<G> = Vec::new();
    let mut i: usize = 0;
    while i < perm.len()
        invariant
            i <= perm@.len(),
            v@.len() == perm@.len(),
            in_range(perm@),
            out@.len() == i,
            forall|k: int| 0 <= k < i ==> (#[trigger] out@[k]).enc() == v@[perm@[k] as int].enc(),
        decreases perm@.len() - i,
    {
        let p: usize = perm[i];
        out.push(v[p].dup());
        i = i + 1;
    }
    assert(encodings(out@) =~= permute(encodings(v@), perm@));
    out
}

/// The prefix sum in place: `v[i]` becomes `v[0] + … + v[i]`.
pub fn prefix_sum_inplace_group<G: CurveGroup>(v: &mut Vec<G>)
    requires
        all_valid(old(v)@),
    ensures
        encodings(final(v)@) == prefix_sums::<G>(encodings(old(v)@)),
        all_valid(final(v)@),
{
    let n: usize = v.len();
    let ghost before = v@;
    let ghost src = encodings(before);
    if n == 0 {
        assert(encodings(v@) =~= prefix_sums::<G>(src));
        return;
    }
    let mut i: usize = 1;
    while i < n
        invariant
            1 <= i <= n,
            v@.len() == n,
            before.len() == n,
            src == encodings(before),
            all_valid(before),
            forall|k: int| i <= k < n ==> (#[trigger] v@[k]).enc() == before[k].enc(),
            forall|k: int|
                0 <= k < i ==> (#[trigger] v@[k]).enc() == prefix_sum::<G>(src, k) && is_valid::<G>(
                    v@[k].enc(),
                ),
        decreases n - i,
    {
        assert(is_valid::<G>(before[i as int].enc()));
        assert(v@[i - 1].enc() == prefix_sum::<G>(src, i - 1));
        let s = v[i - 1].add(&v[i]);
        v.set(i, s);
        i = i + 1;
    }
    assert(encodings(v@) =~= prefix_sums::<G>(src));
}

/// The two permutations of size `4n` that a fresh code gets from the
/// generator, first `p` and then `q`, and the generator behind the draws.
pub open spec fn sampled_code(rng: SeededRng, n: usize) -> (Seq<usize>, Seq<usize>, SeededRng) {
    let p = fisher_yates(rng, (4 * n) as nat);
    let q = fisher_yates(p.1, (4 * n) as nat);
    (p.0, q.0, q.1)
}

/// The code with its two permutations and their inverses.
#[derive(Clone, Debug)]
pub struct TOperator {
    /// The outer permutation `p`, of size `N`.
    pub perm_p: Vec<usize>,
    /// The inner permutation `q`, of size `N`.
    pub perm_q: Vec<usize>,
    /// The inverse of `p`.
    pub inv_perm_p: Vec<usize>,
    /// The inverse of `q`.
    pub inv_perm_q: Vec<usize>,
    /// The input length `N = 4n`.
    pub big_n: usize,
    /// The output length `n`.
    pub n: usize,
}

impl TOperator {
    /// `N = 4n`, both permutations have size `N`, and each is stored with
    /// its inverse.
    pub open spec fn wf(self) -> bool {
        &&& self.big_n == 4 * self.n
        &&& self.perm_p@.len() == self.big_n
        &&& self.perm_q@.len() == self.big_n
        &&& inverse_of(self.perm_p@, self.inv_perm_p@)
        &&& inverse_of(self.perm_q@, self.inv_perm_q@)
    }

    /// The code is the one of output length `n` that the generator gives:
    /// its two permutations are the draws of the generator, and each is
    /// stored with the inverse computed from it.
    pub open spec fn sampled_from(self, rng: SeededRng, n: usize) -> bool {
        &&& self.n == n
        &&& self.big_n == 4 * n
        &&& self.perm_p@ == sampled_code(rng, n).0
        &&& self.perm_q@ == sampled_code(rng, n).1
        &&& self.inv_perm_p@ == inverse_seq(self.perm_p@)
        &&& self.inv_perm_q@ == inverse_seq(self.perm_q@)
    }

    /// `T · e` for the sparse vector `e` with the given entries.
    pub open spec fn apply(self, entries: Seq<(usize, Scalar)>) -> Seq<nat> {
        raa_apply(self.perm_p@, self.perm_q@, densify(self.big_n as nat, entries))
    }

    /// `Tᵀ · g` for the group elements with the given encodings.
    pub open spec fn transpose<G: GroupModel>(self, g: Seq<Seq<u8>>) -> Seq<Seq<u8>> {
        raa_transpose::<G>(self.inv_perm_p@, self.inv_perm_q@, g)
    }

    /// A code with two fresh random permutations.
    pub fn rand(n: usize, rng: &mut SeededRng) -> (r: TOperator)
        requires
            4 * n <= usize::MAX,
        ensures
            r.n == n,
            r.wf(),
            r.sampled_from(*old(rng), n),
            *final(rng) == sampled_code(*old(rng), n).2,
    {
        let big_n: usize = 4 * n;
        let perm_p = random_permutation(big_n, rng);
        let perm_q = random_permutation(big_n, rng);
        let inv_perm_p = inverse_permutation(&perm_p);
        let inv_perm_q = inverse_permutation(&perm_q);
        TOperator { perm_p, perm_q, inv_perm_p, inv_perm_q, big_n, n }
    }

    /// `T · e`: the entries are made dense, summed from the right, permuted
    /// by `q`, summed again, permuted by `p` and folded four to one.
    pub fn multiply_sparse(&self, sparse_entries: &Vec<(usize, Scalar)>) -> (out: Vec<Scalar>)
        requires
            self.wf(),
            entries_wf(self.big_n as nat, sparse_entries@),
        ensures
            values(out@) == self.apply(sparse_entries@),
            out@.len() == self.n,
            all_wf(out@),
    {
        let mut v = densify_entries(self.big_n, sparse_entries);
        assert(values(v@).len() == v@.len());
        accumulate_inplace(&mut v);
        let ghost a1 = v@;
        assert(values(a1).len() == a1.len());
        v = permute_safe(&v, &self.perm_q);
        proof {
            lemma_values_permute(a1, self.perm_q@);
        }
        accumulate_inplace(&mut v);
        let ghost a2 = v@;
        assert(values(a2).len() == a2.len());
        v = permute_safe(&v, &self.perm_p);
        proof {
            lemma_values_permute(a2, self.perm_p@);
        }
        let out = apply_f_fold(&v);
        assert(values(out@).len() == out@.len());
        out
    }
}

impl TOperator {
    /// `Tᵀ · g`: each element is repeated four times, then the vector is
    /// permuted by the inverse of `p`, summed from the left, permuted by the
    /// inverse of `q` and summed again.
    pub fn multiply_transpose_group<G: CurveGroup>(&self, g: &Vec<G>) -> (out: Vec<G>)
        requires
            self.wf(),
            g@.len() == self.n,
            all_valid(g@),
        ensures
            encodings(out@) == self.transpose::<G>(encodings(g@)),
            out@.len() == self.big_n,
            all_valid(out@),
    {
        let mut v: Vec<G> = Vec::new();
        let mut i: usize = 0;
        while i < g.len()
            invariant
                i <= g@.len(),
                4 * g@.len() <= usize::MAX,
                v@.len() == 4 * i,
                forall|k: int| 0 <= k < 4 * i ==> (#[trigger] v@[k]).enc() == g@[k / 4].enc(),
            decreases g@.len() - i,
        {
            let mut k: usize = 0;
            while k < 4
                invariant
                    k <= 4,
                    i < g@.len(),
                    v@.len() == 4 * i + k,
                    forall|j: int|
                        0 <= j < 4 * i + k ==> (#[trigger] v@[j]).enc() == g@[j / 4].enc(),
                decreases 4 - k,
            {
                v.push(g[i].dup());
                k = k + 1;
            }
            i = i + 1;
        }
        let ghost r0 = v@;
        assert(encodings(r0) =~= replicate4(encodings(g@)));
        v = permute_safe_group(&v, &self.inv_perm_p);
        proof {
            lemma_permute_valid::<G>(r0, self.inv_perm_p@, v@);
        }
        prefix_sum_inplace_group(&mut v);
        let ghost r1 = v@;
        assert(encodings(r1).len() == r1.len());
        v = permute_safe_group(&v, &self.inv_perm_q);
        proof {
            lemma_permute_valid::<G>(r1, self.inv_perm_q@, v@);
        }
        prefix_sum_inplace_group(&mut v);
        assert(encodings(v@).len() == v@.len());
        v
    }
}

/// A vector permuted from valid elements holds valid elements.
pub proof fn lemma_permute_valid<G: GroupModel>(v: Seq<G>, perm: Seq<usize>, out: Seq<G>)
    requires
        v.len() == perm.len(),
        in_range(perm),
        encodings(out) == permute(encodings(v), perm),
    ensures
        out.len() == v.len(),
        all_valid(v) ==> all_valid(out),
{
    assert(encodings(out).len() == out.len());
    assert forall|i: int| 0 <= i < out.len() && all_valid(v) implies is_valid::<G>(
        (#[trigger] out[i]).enc(),
    ) by {
        assert(encodings(out)[i] == out[i].enc());
        assert(permute(encodings(v), perm)[i] == encodings(v)[perm[i] as int]);
        assert(is_valid::<G>(v[perm[i] as int].enc()));
    }
}

/// Permuting scalars permutes their values, and keeps them reduced.
pub proof fn lemma_values_permute(v: Seq<Scalar>, perm: Seq<usize>)
    requires
        v.len() == perm.len(),
        in_range(perm),
    ensures
        values(permute(v, perm)) == permute(values(v), perm),
        all_wf(v) ==> all_wf(permute(v, perm)),
{
    assert(values(permute(v, perm)) =~= permute(values(v), perm));
}

} // verus!
