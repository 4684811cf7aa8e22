//! A tracker of short text tasks: the tasks of one run with their
//! identifiers, the requests that change or show them, and what is handed
//! to and taken from the store between runs. Every function is verified
//! against its contract; reading the clock and writing a moment as text
//! are left to `chrono`.

pub mod command;
pub mod error;
pub mod history;
pub mod listing;
pub mod model;
pub mod render;
pub mod task;
pub mod task_list;
pub mod text;
pub mod timestamp;
