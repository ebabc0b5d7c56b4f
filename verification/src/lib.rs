//! cowtui: the state, rules and text of a cow-themed terminal system monitor.
//!
//! The library holds everything that decides what the monitor shows: the
//! tab and theme state machine, the history windows, the process table
//! filter and ordering, the mascot's moods and art, and the text helpers
//! used by the panels. Sampling the kernel and drawing to the terminal live
//! in the application around it.

pub mod app;
pub mod cow;
pub mod decimal;
pub mod input;
pub mod sys;
pub mod text;
pub mod ui;
