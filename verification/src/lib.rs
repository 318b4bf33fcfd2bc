//! Countdown-timer engine: one timer, its tick scheduling decisions, the
//! status line derived from it, and the history of sessions with its
//! statistics.
//!
//! Everything here is plain data in, plain data out. Clocks, tasks, windows
//! and files belong to the caller: the engine is told the time, says what has
//! to be done, and is told what happened.

pub mod clock;
pub mod countdown;
pub mod engine;
pub mod menu;
pub mod order;
pub mod session;
pub mod settings;
pub mod stats;
pub mod status;
pub mod text;
pub mod timer;
