//! Data model and sequencing rules for batched Groth16 proof generation and
//! the sector-sealing pipeline that feeds it.
//!
//! The native compute engine and the storage layer sit outside this crate.
//! What is here decides what they are handed and what their answers mean:
//! the sparse point-set encoding, the per-batch request descriptors, the
//! lifecycle of the reference string, and the phase order of a sealing slot.

pub mod density;
pub mod hexfmt;
pub mod ntt;
pub mod path;
pub mod points;
pub mod prover;
pub mod seal;
pub mod srs;
