//! The decisions behind driving macOS applications through their accessibility
//! trees: which process a name means, which window a screenshot shows, what an
//! action does and in which order.
//!
//! Everything here is a function of plain values. Talking to the window server,
//! to the accessibility API and to the keyboard is left to a host, which performs
//! the commands it is handed and reports back what came of them.

pub mod action;
pub mod activate;
pub mod apps;
pub mod capture;
pub mod course;
pub mod error;
pub mod fault;
pub mod listing;
pub mod node;
pub mod perform;
pub mod pid;
pub mod platform;
pub mod program;
pub mod query;
pub mod text;
pub mod touch;
pub mod windows;
