//! The services behind the request handlers.

pub mod block_laws;
pub mod carry_laws;
pub mod job_laws;
pub mod ranges;
pub mod run;
pub mod run_laws;
pub mod store_laws;
pub mod transcriber;
pub mod transcription;
pub mod vad;
pub mod walk_laws;
