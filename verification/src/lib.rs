//! The core of a terminal process monitor: bounded sample histories, the
//! per-name process ranking, keyboard-driven row selection and the update
//! rules that tie them together. Everything here is computed from plain
//! values; reading the operating system and drawing the screen are left to
//! the program built on top.

pub mod app;
pub mod chart;
pub mod deque;
pub mod event;
pub mod grouping;
pub mod history;
pub mod metrics;
pub mod process;
pub mod selection;
