//! Physical-layer health inspection for InfiniBand/RoCE adapter ports.
//!
//! The pipeline: a raw hierarchical telemetry document per port is decoded,
//! a fixed set of counters and identifiers is extracted into a [`stats::PortStats`]
//! record, threshold rules classify the port as healthy or faulty, and the
//! records are sorted in natural order and filtered for reporting.

pub mod assemble;
pub mod codec;
pub mod collect;
pub mod config;
pub mod decimal;
pub mod evaluate;
pub mod parse;
pub mod raw;
pub mod stats;
pub mod text;
