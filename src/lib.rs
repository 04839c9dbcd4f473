//! Orchestration of external media tools: reading the encoder's progress
//! lines, throttling progress reports, the process slot used for waiting and
//! cancelling, and multi-stage jobs with checked artifacts and one cleanup.
//!
//! Progress values are hundredths of a percent (`10000` is 100%) and times
//! are milliseconds.
pub mod strings;
pub mod text;
pub mod timecode;
pub mod tracker;
pub mod slot;
pub mod job;
pub mod pipeline;
pub mod commands;
pub mod denoise;
pub mod media;
pub mod binaries;
pub mod types;
