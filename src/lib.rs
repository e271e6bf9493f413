//! A command-line clock: a stopwatch that counts up and a timer that counts
//! down from a duration written like `1h30m45s`.
//!
//! Durations are whole nanosecond counts held in a `u64`. The library holds
//! the duration grammar, the formatter, the choice of mode from the command
//! line and the decisions of the display loop; the program around it does the
//! terminal output, the sleeping and the signal handling.

pub mod cli;
pub mod display;
pub mod format;
pub mod parse;
pub mod text;

pub use cli::{select_mode, timer_from_expr, ClockError};
pub use display::{frame_interval_ms, step, Action, Event, Mode, RunState};
pub use format::{decompose, format_duration, TimeParts};
pub use parse::{parse_time, ParseError};
