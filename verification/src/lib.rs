//! Incremental per-key running-maximum aggregation and change-point
//! time-series rendering.
//!
//! The aggregator folds a stream of weighted facts into a per-key
//! high-water mark through a commutative, associative, idempotent
//! `combine` operation, so partial results may be merged in any order.
//! The compactor reduces a timestamp-ordered count matrix to its change
//! points and the renderer embeds the result in a chart document.

pub mod compact;
pub mod digits;
pub mod matrix;
pub mod max;
pub mod render;

pub use max::combine;
