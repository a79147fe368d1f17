//! The cluster and its life.

pub mod extract;
pub mod info;
pub mod launch;
pub mod lifecycle;
pub mod provisioner;
pub mod setup;
pub mod snapshots;
pub mod status;
