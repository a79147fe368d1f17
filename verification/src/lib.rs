//! Decision logic of `k3dev`, a manager for a local K3s cluster that runs in Docker.

pub mod agent;
pub mod app;
pub mod approx;
pub mod bench;
pub mod capture;
pub mod cli;
pub mod cluster;
pub mod elapsed;
pub mod machine;
pub mod natural;
pub mod number;
pub mod order;
pub mod output;
pub mod pattern;
pub mod text;
pub mod textmap;
pub mod version;
