//! The interactive program: what keys, clicks and messages do to its state.

pub mod commands;
pub mod events;
pub mod highlight;
pub mod panel;
pub mod pods;
pub mod messages;
pub mod refresh;
pub mod session;
