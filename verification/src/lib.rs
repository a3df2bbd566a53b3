//! Server-aided Groth16 proving through encrypted multi-scalar multiplication.
//!
//! A client hides the scalar vectors of the five multi-scalar multiplications
//! of a Groth16 proof behind Dual-LPN masks, lets an untrusted server compute
//! on the masked vectors, and removes the masks from the answers.

pub mod scalar;
pub mod rng;
pub mod emsm;
pub mod group;
pub mod groth16;
pub mod protocol;
pub mod algebra;
pub mod text;
