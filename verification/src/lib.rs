//! Core logic of a small range-picker tool: a validated bound type over
//! `[1, 255]`, the event-driven application state machine that draws a
//! random value from the selected range, and the binary layout of the
//! persisted configuration record.

pub mod config;
pub mod range;
pub mod state;
