//! Dual-LPN parameters for 100-bit security at rate 1/4.

use vstd::prelude::*;

verus! {

/// Parameters of one Dual-LPN instance.
#[derive(Debug, Clone, Copy)]
pub struct LpnParams {
    /// Length of the masked vector.
    pub n: usize,
    /// Length of the noise vector, four times `n`.
    pub big_n: usize,
    /// Number of nonzero entries of the noise vector.
    pub t: usize,
}

/// The sparsity that the security table gives for a vector of length `n`.
pub open spec fn table_sparsity(n: nat) -> nat {
    if n <= 1024 {
        29
    } else if n <= 2048 {
        33
    } else if n <= 4096 {
        38
    } else if n <= 8192 {
        43
    } else if n <= 16384 {
        48
    } else if n <= 32768 {
        54
    } else if n <= 65536 {
        60
    } else if n <= 131072 {
        67
    } else if n <= 262144 {
        74
    } else if n <= 524288 {
        82
    } else if n <= 1048576 {
        90
    } else if n <= 2097152 {
        99
    } else if n <= 4194304 {
        108
    } else if n <= 8388608 {
        118
    } else {
        128
    }
}

/// The sparsity used for length `n`: the table's value, but at most the
/// noise length `4n`, and at most 1 where that length is zero.
pub open spec fn lpn_sparsity(n: nat) -> nat {
    let cap: nat = if 4 * n >= 1 { 4 * n } else { 1 };
    if table_sparsity(n) <= cap {
        table_sparsity(n)
    } else {
        cap
    }
}

/// The parameters for a vector of length `n`.
pub fn get_lpn_params(n: usize) -> (p: LpnParams)
    requires
        4 * n <= usize::MAX,
    ensures
        p.n == n,
        p.big_n == 4 * n,
        p.t == lpn_sparsity(n as nat),
{
    let big_n: usize = 4 * n;
    let raw_t: usize = if n <= 1024 {
        29
    } else if n <= 2048 {
        33
    } else if n <= 4096 {
        38
    } else if n <= 8192 {
        43
    } else if n <= 16384 {
        48
    } else if n <= 32768 {
        54
    } else if n <= 65536 {
        60
    } else if n <= 131072 {
        67
    } else if n <= 262144 {
        74
    } else if n <= 524288 {
        82
    } else if n <= 1048576 {
        90
    } else if n <= 2097152 {
        99
    } else if n <= 4194304 {
        108
    } else if n <= 8388608 {
        118
    } else {
        128
    };
    let cap: usize = if big_n >= 1 { big_n } else { 1 };
    let t: usize = if raw_t <= cap { raw_t } else { cap };
    LpnParams { n, big_n, t }
}

/// The sparsity never decreases as the vector grows.
pub proof fn lemma_sparsity_monotone(n1: nat, n2: nat)
    requires
        n1 <= n2,
    ensures
        lpn_sparsity(n1) <= lpn_sparsity(n2),
{
}

} // verus!
