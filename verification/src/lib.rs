//! Verified core of a Monte-Carlo path tracer.
//!
//! The renderer's numeric work (vector arithmetic, intersection tests,
//! material sampling, filter weights) is floating-point and lives outside
//! this library. What is verified here is the logic that drives it:
//!
//! - the pixel and geometry buffers with their row/column dual views,
//! - the neighbourhood and filter-stride index generation,
//! - the job-distribution model (row jobs, worker messages, aggregation
//!   of out-of-order results),
//! - the integrator's termination and light-exclusion decisions, and the
//!   edge-aware filter's surface-identity gate.

pub mod denoise;
pub mod grid;
pub mod jobs;
pub mod neighborhood;
pub mod shading;
