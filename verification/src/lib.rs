//! A pomodoro timer: the session cycle, the persisted settings and
//! statistics, and the text the interface shows.

pub mod session;
pub mod config;
pub mod state_file;
pub mod timer;
pub mod text;
pub mod notify;
