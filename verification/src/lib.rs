//! Verified core of a video-to-subtitle tool: overlap de-duplication of
//! recognised text, subtitle rendering, checkpoint bookkeeping, the pipeline
//! state machine, audio chunk planning, request signing and key storage.

pub mod asr;
pub mod audio;
pub mod checkpoint;
pub mod commands;
pub mod config;
pub mod error;
pub mod fmt;
pub mod keystore;
pub mod machine;
pub mod oss;
pub mod pipeline;
pub mod subtitle;
pub mod text;
pub mod translate;
