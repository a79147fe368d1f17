//! Capturing the traffic of pods and containers.

pub mod sidecar;
pub mod spec;
pub mod stream;
