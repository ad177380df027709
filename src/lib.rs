//! Avionics safety contract kernel: a tick-driven arbiter between a vehicle's
//! commanded intent and its actuators, with a hash-chained audit log.

pub mod float;
pub mod verdict;
pub mod model;
pub mod thresholds;
pub mod checks;
pub mod arbitration;
pub mod engine;
pub mod text;
pub mod digest;
pub mod encode;
pub mod logging;
pub mod runtime;
pub mod contract;
pub mod conformance;
pub mod metadata;
