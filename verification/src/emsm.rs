//! Encrypted multi-scalar multiplication: the masking code, the mask sampler
//! and the encrypt / compute / decrypt round.

pub mod params;
pub mod sparse_vec;
pub mod raa_code;
pub mod pedersen;
pub mod dual_lpn;
#[allow(clippy::module_inception)]
pub mod emsm;
pub mod malicious;
pub mod linearity;
pub mod duality;
pub mod correctness;
