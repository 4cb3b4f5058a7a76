//! Bounded-concurrency frame-rendering pipeline.
//!
//! The library turns a run of numbered simulation samples into a batch of
//! independent rendering jobs, builds the plotting script for each job,
//! aggregates the per-job outcomes, and gates a single video-encoding step
//! on full success.  Everything here is verified; process spawning, file
//! reading and floating-point formatting live with the caller.

pub mod aggregate;
pub mod bounds;
pub mod config;
pub mod errors;
pub mod floatlit;
pub mod jobs;
pub mod layout;
pub mod script;
pub mod text;
pub mod workers;

pub use jobs::RenderJob;
pub use jobs::generate_jobs;
