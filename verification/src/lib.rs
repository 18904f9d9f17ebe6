//! The rules of a speech transcription server: what it accepts, how it splits audio, which job
//! is in which state, and how it answers a request.

pub mod audio;
pub mod audio_laws;
pub mod config;
pub mod document_laws;
pub mod documents;
pub mod handlers;
pub mod history;
pub mod json;
pub mod json_laws;
pub mod models;
pub mod services;
pub mod text;
pub mod text_laws;
