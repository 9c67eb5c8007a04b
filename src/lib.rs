//! Hotkey-driven show / hide / activate / toggle of application windows on a
//! compositor: rule-based window resolution and the decision of which
//! compositor requests to issue.

pub mod action;
pub mod cli;
pub mod config;
pub mod laws;
pub mod locate;
pub mod matcher;
pub mod window;
