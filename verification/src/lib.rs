//! The decisions of EutherGate, a browser gate to a remote development machine: who may use it,
//! what a terminal viewer sees, which desktop output is captured and by whom it is watched, and
//! what the virtual pointer does.
//!
//! Nothing here reads, writes or waits. What happens outside comes in as plain values, and what
//! is to be done goes out as plain values.

pub mod auth;
pub mod config;
pub mod desktop;
pub mod error;
pub mod monitors;
pub mod number;
pub mod pointer;
pub mod reply;
pub mod secrets;
pub mod signaling;
pub mod terminal;
pub mod text;
