//! Verified core of the elisym agent runner: agent configuration rules,
//! password-based protection of agent secrets, the heartbeat protocol,
//! the paid-job flow and the dashboard state.

pub mod cli;
pub mod util;
pub mod tui;
pub mod runner;
pub mod runtime;
