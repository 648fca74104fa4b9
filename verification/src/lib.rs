//! Core logic of a batch video compressor: segment planning for quality
//! sampling, the quality-guided parameter search, the per-file compression
//! job state machine, and the single-concurrency scoring scheduler.
//!
//! Times are carried as whole milliseconds; quality parameters (CRF) and
//! perceptual-quality scores are carried as fixed-point integers in
//! thousandths (milli-units), so that all arithmetic is exact.

pub mod args;
pub mod jobs;
pub mod media;
pub mod probe;
pub mod progress;
pub mod registry;
pub mod scan;
pub mod scheduler;
pub mod search;
pub mod segments;
pub mod text;
pub mod vmaf;
