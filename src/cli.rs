use vstd::prelude::*;
use crate::display::Mode;
use crate::parse::{duration_value, parse_time, ParseError};
use crate::text::same_text;

verus! {

/// Why the clock cannot start.
#[derive(Debug, Clone, Copy, PartialEq, Eq, Structural)]
pub enum ClockError {
    /// No mode was given, or a timer without its duration.
    InvalidArgumentCount,
    /// The mode is neither `stopwatch` nor `timer`.
    UnknownMode,
    /// The timer's duration expression was refused.
    InvalidDurationExpression(ParseError),
    /// The timer's duration is zero.
    ZeroDuration,
}

/// The timer that a duration expression asks for.
pub open spec fn timer_for(expr: Seq<char>) -> Result<Mode, ClockError> {
    match duration_value(expr) {
        Err(e) => Err(ClockError::InvalidDurationExpression(e)),
        Ok(t) => if t == 0 {
            Err(ClockError::ZeroDuration)
        } else {
            Ok(Mode::Timer { target: t as u64 })
        },
    }
}

/// The mode that a command line asks for: `<program> stopwatch` or
/// `<program> timer <duration>`; words after those are not read.
pub open spec fn mode_for(args: Seq<Seq<char>>) -> Result<Mode, ClockError> {
    if args.len() < 2 {
        Err(ClockError::InvalidArgumentCount)
    } else if args[1] == "stopwatch"@ {
        Ok(Mode::Stopwatch)
    } else if args[1] == "timer"@ {
        if args.len() < 3 {
            Err(ClockError::InvalidArgumentCount)
        } else {
            timer_for(args[2])
        }
    } else {
        Err(ClockError::UnknownMode)
    }
}

/// Sets up a timer for the duration that `expr` stands for; a duration that
/// does not parse, or is zero, is refused.
pub fn timer_from_expr(expr: String) -> (r: Result<Mode, ClockError>)
    ensures
        r == timer_for(expr@),
{
    match parse_time(expr) {
        Err(e) => Err(ClockError::InvalidDurationExpression(e)),
        Ok(t) => if t == 0 {
            Err(ClockError::ZeroDuration)
        } else {
            Ok(Mode::Timer { target: t })
        },
    }
}

/// Chooses the mode from the command line, the program's name first.
pub fn select_mode(args: &Vec<String>) -> (r: Result<Mode, ClockError>)
    ensures
        r == mode_for(args.deep_view()),
{
    proof {
        assert(args.deep_view().len() == args@.len());
    }
    if args.len() < 2 {
        return Err(ClockError::InvalidArgumentCount);
    }
    assert(args.deep_view()[1] == args@[1]@);
    let word = args[1].as_str();
    if same_text(word, "stopwatch") {
        Ok(Mode::Stopwatch)
    } else if same_text(word, "timer") {
        if args.len() < 3 {
            return Err(ClockError::InvalidArgumentCount);
        }
        assert(args.deep_view()[2] == args@[2]@);
        timer_from_expr(args[2].clone())
    } else {
        Err(ClockError::UnknownMode)
    }
}

} // verus!
