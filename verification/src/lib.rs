//! Chunked proving of layer-one blocks.

pub mod artifact;
pub mod chunk;
pub mod chunk_laws;
pub mod chunk_step_laws;
pub mod commitment_laws;
pub mod coverage;
pub mod error;
pub mod format_laws;
pub mod gather;
pub mod hash;
pub mod laws;
pub mod merge;
pub mod merge_laws;
pub mod merge_step_laws;
pub mod payload;
pub mod payload_laws;
pub mod primitives;
pub mod prover;
pub mod range;
pub mod receipt_laws;
pub mod rlp;
pub mod rlp_laws;
pub mod run_laws;
pub mod shape_laws;
pub mod summary;
pub mod summary_laws;
pub mod text;
pub mod text_laws;
pub mod worker_laws;

pub use chunk::execution_program as chunk_execution_program;
pub use merge::execution_program as merge_execution_program;
