//! What is asked of Docker, and what its answers mean.

pub mod bounds;
pub mod container;
pub mod files;
pub mod image;
pub mod pull_progress;
pub mod queries;
pub mod stats;
pub mod transfer;
pub mod volumes;
