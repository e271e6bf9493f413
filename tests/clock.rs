use clock::{
    decompose, format_duration, frame_interval_ms, parse_time, select_mode, step, timer_from_expr,
    Action, ClockError, Event, Mode, ParseError, RunState, TimeParts,
};

const HOUR: u64 = 3_600_000_000_000;
const MINUTE: u64 = 60_000_000_000;
const SECOND: u64 = 1_000_000_000;

fn args(words: &[&str]) -> Vec<String> {
    words.iter().map(|w| w.to_string()).collect()
}

#[test]
fn empty_expression_is_zero() {
    assert_eq!(parse_time("".to_string()), Ok(0));
    assert_eq!(format_duration(0), "0s");
}

#[test]
fn minutes_and_seconds() {
    assert_eq!(parse_time("5m30s".to_string()), Ok(330_000_000_000));
    assert_eq!(format_duration(330_000_000_000), "05m 30s 000ms");
}

#[test]
fn one_hour() {
    assert_eq!(parse_time("1h".to_string()), Ok(3_600_000_000_000));
    assert_eq!(format_duration(3_600_000_000_000), "1h 00m 00s 000ms");
}

#[test]
fn milliseconds_alone() {
    assert_eq!(parse_time("500ms".to_string()), Ok(500_000_000));
    assert_eq!(format_duration(500_000_000), "500ms");
}

#[test]
fn unknown_unit() {
    assert_eq!(parse_time("10x".to_string()), Err(ParseError::UnknownUnit));
}

#[test]
fn unit_without_number() {
    assert_eq!(parse_time("m".to_string()), Err(ParseError::NumberExpectedBeforeUnit));
    assert_eq!(parse_time("5mh".to_string()), Err(ParseError::UnknownUnit));
    assert_eq!(parse_time("5m h".to_string()), Err(ParseError::NumberExpectedBeforeUnit));
}

#[test]
fn zero_timer_is_refused() {
    assert_eq!(parse_time("0s".to_string()), Ok(0));
    assert_eq!(timer_from_expr("0s".to_string()), Err(ClockError::ZeroDuration));
    assert_eq!(select_mode(&args(&["clock", "timer", "0s"])), Err(ClockError::ZeroDuration));
}

#[test]
fn hours_then_minutes_add_up() {
    for (a, b) in [(0u64, 0u64), (1, 30), (2, 0), (0, 45), (12, 59), (100, 1000)] {
        let expr = format!("{}h{}m", a, b);
        assert_eq!(parse_time(expr), Ok(a * HOUR + b * MINUTE));
    }
    assert_eq!(parse_time("3s7h".to_string()), Ok(3 * SECOND + 7 * HOUR));
    assert_eq!(parse_time("2m2m".to_string()), Ok(4 * MINUTE));
}

#[test]
fn every_unit() {
    assert_eq!(parse_time("1h30m45s".to_string()), Ok(HOUR + 30 * MINUTE + 45 * SECOND));
    assert_eq!(parse_time("7us".to_string()), Ok(7_000));
    assert_eq!(parse_time("7µs".to_string()), Ok(7_000));
    assert_eq!(parse_time("9ns".to_string()), Ok(9));
    assert_eq!(parse_time("1s2ms3us4ns".to_string()), Ok(1_002_003_004));
}

#[test]
fn min_is_not_a_unit() {
    assert_eq!(parse_time("5min".to_string()), Err(ParseError::UnknownUnit));
}

#[test]
fn trailing_digits_and_other_characters() {
    assert_eq!(parse_time("100".to_string()), Ok(0));
    assert_eq!(parse_time("1m100".to_string()), Ok(MINUTE));
    assert_eq!(parse_time("5 m".to_string()), Ok(5 * MINUTE));
    assert_eq!(parse_time("1.5s".to_string()), Ok(15 * SECOND));
    assert_eq!(parse_time("007s".to_string()), Ok(7 * SECOND));
}

#[test]
fn non_ascii_letters_count_as_letters() {
    assert_eq!(parse_time("é".to_string()), Err(ParseError::NumberExpectedBeforeUnit));
    assert_eq!(parse_time("5é".to_string()), Err(ParseError::UnknownUnit));
    assert_eq!(parse_time("5sé".to_string()), Err(ParseError::UnknownUnit));
}

#[test]
fn overflow_is_an_error() {
    assert_eq!(parse_time("5124096h".to_string()), Err(ParseError::Overflow));
    assert_eq!(parse_time("5124095h".to_string()), Ok(5124095 * HOUR));
    assert_eq!(parse_time("18446744073709551615ns".to_string()), Ok(u64::MAX));
    assert_eq!(parse_time("18446744073709551615ns1ns".to_string()), Err(ParseError::Overflow));
    assert_eq!(parse_time("18446744073709551616ns".to_string()), Err(ParseError::Overflow));
    assert_eq!(parse_time("99999999999999999999999".to_string()), Ok(0));
    assert_eq!(parse_time("99999999999999999999999x".to_string()), Err(ParseError::UnknownUnit));
}

#[test]
fn parts_add_back_up() {
    for n in [0u64, 1, 999, 1_000, 59_999_999_999, 3_723_004_005_006, u64::MAX] {
        let p = decompose(n);
        assert!(p.minutes < 60 && p.seconds < 60);
        assert!(p.milliseconds < 1000 && p.microseconds < 1000 && p.nanoseconds < 1000);
        let back = p.hours * HOUR
            + p.minutes * MINUTE
            + p.seconds * SECOND
            + p.milliseconds * 1_000_000
            + p.microseconds * 1_000
            + p.nanoseconds;
        assert_eq!(back, n);
    }
    assert_eq!(
        decompose(3_723_004_005_006),
        TimeParts {
            hours: 1,
            minutes: 2,
            seconds: 3,
            milliseconds: 4,
            microseconds: 5,
            nanoseconds: 6
        }
    );
}

#[test]
fn formatting_segments() {
    assert_eq!(format_duration(3_723_004_005_006), "1h 02m 03s 004ms 005µs 006ns");
    assert_eq!(format_duration(1), "001ns");
    assert_eq!(format_duration(1_000), "001µs");
    assert_eq!(format_duration(1_001), "001µs 001ns");
    assert_eq!(format_duration(SECOND), "01s 000ms");
    assert_eq!(format_duration(SECOND + 5), "01s 000ms 005ns");
    assert_eq!(format_duration(MINUTE), "01m 00s 000ms");
    assert_eq!(format_duration(100 * HOUR), "100h 00m 00s 000ms");
    assert_eq!(format_duration(u64::MAX), "5124095h 34m 33s 709ms 551µs 615ns");
}

#[test]
fn stopwatch_stops_on_cancel() {
    let mode = select_mode(&args(&["clock", "stopwatch"])).unwrap();
    assert_eq!(mode, Mode::Stopwatch);
    let (state, action) = step(mode, RunState::Running, Event::Tick { elapsed: 1_500_000_000 });
    assert_eq!(state, RunState::Running);
    assert_eq!(action, Action::Show("time: 01s 500ms".to_string()));
    let (state, action) = step(mode, state, Event::Cancel);
    assert_eq!(state, RunState::Stopped);
    assert_eq!(action, Action::Halt);
    let (state, action) = step(mode, state, Event::Tick { elapsed: 2_000_000_000 });
    assert_eq!(state, RunState::Stopped);
    assert_eq!(action, Action::Halt);
}

#[test]
fn timer_counts_down_then_finishes() {
    let mode = select_mode(&args(&["clock", "timer", "5m30s"])).unwrap();
    assert_eq!(mode, Mode::Timer { target: 330_000_000_000 });
    let (state, action) = step(mode, RunState::Running, Event::Tick { elapsed: 30_000_000_000 });
    assert_eq!(state, RunState::Running);
    assert_eq!(action, Action::Show("time remaining: 05m 00s 000ms".to_string()));
    let (state, action) = step(mode, state, Event::Tick { elapsed: 330_000_000_000 });
    assert_eq!(state, RunState::Stopped);
    assert_eq!(action, Action::Finish);
}

#[test]
fn timer_cancel_gives_no_notice() {
    let mode = Mode::Timer { target: SECOND };
    let (state, action) = step(mode, RunState::Running, Event::Cancel);
    assert_eq!(state, RunState::Stopped);
    assert_eq!(action, Action::Halt);
}

#[test]
fn frame_intervals() {
    assert_eq!(frame_interval_ms(Mode::Stopwatch), 16);
    assert_eq!(frame_interval_ms(Mode::Timer { target: 1 }), 1);
}

#[test]
fn command_line_errors() {
    assert_eq!(select_mode(&args(&["clock"])), Err(ClockError::InvalidArgumentCount));
    assert_eq!(select_mode(&args(&["clock", "timer"])), Err(ClockError::InvalidArgumentCount));
    assert_eq!(select_mode(&args(&["clock", "alarm"])), Err(ClockError::UnknownMode));
    assert_eq!(
        select_mode(&args(&["clock", "timer", "10x"])),
        Err(ClockError::InvalidDurationExpression(ParseError::UnknownUnit))
    );
    assert_eq!(
        select_mode(&args(&["clock", "timer", "m"])),
        Err(ClockError::InvalidDurationExpression(ParseError::NumberExpectedBeforeUnit))
    );
    assert_eq!(select_mode(&args(&["clock", "stopwatch", "extra"])), Ok(Mode::Stopwatch));
    assert_eq!(select_mode(&args(&["clock", "timer", "1h"])), Ok(Mode::Timer { target: HOUR }));
}
