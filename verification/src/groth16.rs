//! Groth16 proving with the five multi-scalar multiplications delegated.

pub mod server_aided;
