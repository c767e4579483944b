//! Verified core of a small path tracer: command-line thread parameters,
//! the partition of scanlines into batches and cycles of worker threads,
//! the order in which pixels are produced, and the plain-text image format.

pub mod params;
pub mod schedule;
pub mod order;
pub mod ppm;
