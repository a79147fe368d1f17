//! The cluster and what it is made of: configuration, diagnostics, containers, ingress, snapshots.

pub mod certificate;
pub mod checks;
pub mod config;
pub mod deep;
pub mod diagnostics;
pub mod docker;
pub mod ingress;
pub mod k3s;
pub mod kube_ops;
pub mod manager;
pub mod preflight;
pub mod probes;
