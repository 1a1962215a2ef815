//! The verified core of a terminal hub for coding-agent sessions: what each
//! screen shows, how it is laid out and how the backlog is triaged.
//!
//! Every function takes plain values and returns plain values. Drawing the
//! returned lines, reading files and running processes is left to the caller.

pub mod agent_detail;
pub mod agents;
pub mod artifacts;
pub mod backlog;
pub mod board;
pub mod builds;
pub mod chips;
pub mod common;
pub mod dialogs;
pub mod diff;
pub mod geometry;
pub mod live_tail;
pub mod metrics;
pub mod models;
pub mod ordering;
pub mod palette;
pub mod parts;
pub mod pickers;
pub mod result_popup;
pub mod rounding;
pub mod screen;
pub mod session_grid;
pub mod session_popup;
pub mod sessions;
pub mod state_debug;
pub mod style;
pub mod task_cards;
pub mod tasks;
pub mod text;
pub mod todo_panel;
pub mod triage;
pub mod wrap;
