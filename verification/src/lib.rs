//! Verified core of a local audio/video transcription tool: job
//! cancellation bookkeeping, the model catalog and download/integrity
//! rules, subtitle export and the decisions that drive a transcription.

pub mod audio;
pub mod catalog;
pub mod digest;
pub mod download;
pub mod error;
pub mod export;
pub mod pipeline;
pub mod state;
pub mod text;
pub mod transcript;
