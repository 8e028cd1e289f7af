//! Core engine of an interactive terminal dashboard: key-to-action binding
//! with conflict detection, a phase-based application state machine, a bounded
//! FIFO command queue, and the loop-controller dispatch rules. Terminal
//! rendering, input capture and the network collaborators live outside this
//! library and interact with it through plain values.

pub mod actions;
pub mod app;
pub mod state;
pub mod inputs;
pub mod io;
pub mod jira;
