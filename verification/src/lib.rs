//! Resource aggregation engine for cloud security-posture reports.
//!
//! The engine turns the answers of a provider API into reports: it classifies
//! provider failures, memoizes idempotent calls, stitches paginated listings
//! together, attaches per-resource details and derives the set of unused
//! images. Every network call is made by the caller; the engine decides what
//! the answers mean, and every decision has a proved contract.
//!
//! - `classifier`: which failures mean "not configured", per operation.
//! - `memoizer`: a cache in which each call is made once.
//! - `paginator`: one ordered collection out of a listing served in pages.
//! - `aggregator`: one detail per item of a listing.
//! - `reporter`: what is held but not referenced.
//! - `services`: the reports on buckets, users, instances and images.

pub mod aggregator;
pub mod classifier;
pub mod common;
pub mod memoizer;
pub mod paginator;
pub mod reporter;
pub mod services;

pub use common::AWSError;
