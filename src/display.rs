use vstd::prelude::*;
use crate::format::{format_duration, formatted};

verus! {

/// What the clock runs as: a stopwatch counting up, or a timer counting down
/// from `target` nanoseconds.
#[derive(Debug, Clone, Copy, PartialEq, Eq, Structural)]
pub enum Mode {
    Stopwatch,
    Timer { target: u64 },
}

/// Whether the display loop goes on. A loop starts `Running`; `Stopped` is
/// final.
#[derive(Debug, Clone, Copy, PartialEq, Eq, Structural)]
pub enum RunState {
    Running,
    Stopped,
}

/// What the display loop observed before a frame.
#[derive(Debug, Clone, Copy, PartialEq, Eq, Structural)]
pub enum Event {
    /// The loop is still wanted, and `elapsed` nanoseconds have passed since
    /// it started.
    Tick { elapsed: u64 },
    /// An interrupt or a line of input asked the loop to stop.
    Cancel,
}

/// What the display loop does next.
#[derive(Debug, Clone, PartialEq, Eq)]
pub enum Action {
    /// Redraw the frame in place with this line, then wait one frame interval.
    Show(String),
    /// Redraw the frame in place with the completion notice and ring the bell.
    Finish,
    /// Draw nothing more.
    Halt,
}

/// The line a stopwatch shows after `elapsed` nanoseconds.
pub open spec fn stopwatch_line(elapsed: nat) -> Seq<char> {
    "time: "@ + formatted(elapsed)
}

/// The line a timer shows while `remaining` nanoseconds are left.
pub open spec fn timer_line(remaining: nat) -> Seq<char> {
    "time remaining: "@ + formatted(remaining)
}

/// Milliseconds between two frames: about sixty frames a second for the
/// stopwatch, one millisecond for the timer so that it ends on time.
pub fn frame_interval_ms(mode: Mode) -> (r: u64)
    ensures
        mode is Stopwatch ==> r == 16,
        mode is Timer ==> r == 1,
{
    match mode {
        Mode::Stopwatch => 16,
        Mode::Timer { .. } => 1,
    }
}

/// Decides the loop's next state and what it does, from its mode, its state
/// and what it observed.
///
/// A stopped loop stays stopped and does nothing. A cancel stops a running
/// loop without a notice. On a tick a stopwatch shows the time elapsed; a
/// timer whose target has been reached stops with the completion notice, and
/// otherwise shows the time remaining.
pub fn step(mode: Mode, state: RunState, event: Event) -> (r: (RunState, Action))
    ensures
        state is Stopped ==> r.0 is Stopped && r.1 is Halt,
        state is Running && event is Cancel ==> r.0 is Stopped && r.1 is Halt,
        state is Running && event is Tick ==> match mode {
            Mode::Stopwatch => r.0 is Running && (r.1 matches Action::Show(line) && line@
                == stopwatch_line(event->elapsed as nat)),
            Mode::Timer { target } => if event->elapsed >= target {
                r.0 is Stopped && r.1 is Finish
            } else {
                r.0 is Running && (r.1 matches Action::Show(line) && line@ == timer_line(
                    (target - event->elapsed) as nat,
                ))
            },
        },
{
    match state {
        RunState::Stopped => (RunState::Stopped, Action::Halt),
        RunState::Running => match event {
            Event::Cancel => (RunState::Stopped, Action::Halt),
            Event::Tick { elapsed } => match mode {
                Mode::Stopwatch => {
                    let mut line = String::from_str("time: ");
                    line.append(format_duration(elapsed).as_str());
                    (RunState::Running, Action::Show(line))
                },
                Mode::Timer { target } => {
                    if elapsed >= target {
                        (RunState::Stopped, Action::Finish)
                    } else {
                        let mut line = String::from_str("time remaining: ");
                        line.append(format_duration(target - elapsed).as_str());
                        (RunState::Running, Action::Show(line))
                    }
                },
            },
        },
    }
}

} // verus!
