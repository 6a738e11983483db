//! Approval-gated command execution core for a coding agent.
//!
//! The library covers the protocol between a front end and one agent
//! session (`protocol`), the execution policy engine that classifies
//! concrete command lines (`execpolicy`), the sandbox policy selector and
//! its platform dispatch (`sandbox`), the approval gate that pairs policy
//! decisions with human confirmation (`gate`), the session core that
//! orchestrates one agent run (`session`), the wire framing of the
//! stream-oriented front end (`framing`), and the pure decision logic
//! of the interactive front end (`tui`).

pub mod protocol;
pub mod execpolicy;
pub mod sandbox;
pub mod gate;
pub mod session;
pub mod framing;
pub mod tui;
