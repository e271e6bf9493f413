use vstd::prelude::*;
use crate::parse::{NANOS_PER_HOUR, NANOS_PER_MICRO, NANOS_PER_MILLI, NANOS_PER_MINUTE, NANOS_PER_SECOND};
use crate::text::{decimal, padded, push_padded};

verus! {

/// Whole hours in `n` nanoseconds.
pub open spec fn hours_of(n: nat) -> nat {
    n / (NANOS_PER_HOUR as nat)
}

/// Whole minutes in `n` nanoseconds past the last whole hour.
pub open spec fn minutes_of(n: nat) -> nat {
    n % (NANOS_PER_HOUR as nat) / (NANOS_PER_MINUTE as nat)
}

/// Whole seconds in `n` nanoseconds past the last whole minute.
pub open spec fn seconds_of(n: nat) -> nat {
    n % (NANOS_PER_MINUTE as nat) / (NANOS_PER_SECOND as nat)
}

/// Whole milliseconds in `n` nanoseconds past the last whole second.
pub open spec fn millis_of(n: nat) -> nat {
    n % (NANOS_PER_SECOND as nat) / (NANOS_PER_MILLI as nat)
}

/// Whole microseconds in `n` nanoseconds past the last whole millisecond.
pub open spec fn micros_of(n: nat) -> nat {
    n % (NANOS_PER_MILLI as nat) / (NANOS_PER_MICRO as nat)
}

/// Nanoseconds in `n` past the last whole microsecond.
pub open spec fn nanos_of(n: nat) -> nat {
    n % (NANOS_PER_MICRO as nat)
}

/// A nanosecond count split into hours, minutes, seconds, milliseconds,
/// microseconds and nanoseconds.
#[derive(Debug, Clone, Copy, PartialEq, Eq, Structural)]
pub struct TimeParts {
    pub hours: u64,
    pub minutes: u64,
    pub seconds: u64,
    pub milliseconds: u64,
    pub microseconds: u64,
    pub nanoseconds: u64,
}

/// Splits `total` nanoseconds into units, largest first, each unit taking
/// what is left by the larger ones.
pub fn decompose(total: u64) -> (r: TimeParts)
    ensures
        r.hours == hours_of(total as nat),
        r.minutes == minutes_of(total as nat),
        r.seconds == seconds_of(total as nat),
        r.milliseconds == millis_of(total as nat),
        r.microseconds == micros_of(total as nat),
        r.nanoseconds == nanos_of(total as nat),
{
    TimeParts {
        hours: total / NANOS_PER_HOUR,
        minutes: total % NANOS_PER_HOUR / NANOS_PER_MINUTE,
        seconds: total % NANOS_PER_MINUTE / NANOS_PER_SECOND,
        milliseconds: total % NANOS_PER_SECOND / NANOS_PER_MILLI,
        microseconds: total % NANOS_PER_MILLI / NANOS_PER_MICRO,
        nanoseconds: total % NANOS_PER_MICRO,
    }
}

/// The parts of a duration lie within their units' ranges and add back up to
/// the duration with nothing lost.
pub proof fn lemma_parts_exact(n: nat)
    ensures
        minutes_of(n) < 60,
        seconds_of(n) < 60,
        millis_of(n) < 1000,
        micros_of(n) < 1000,
        nanos_of(n) < 1000,
        hours_of(n) * 3_600_000_000_000 + minutes_of(n) * 60_000_000_000 + seconds_of(n)
            * 1_000_000_000 + millis_of(n) * 1_000_000 + micros_of(n) * 1_000 + nanos_of(n) == n,
{
    let x = n as int;
    lemma_split(x, 3_600_000_000_000, 60_000_000_000);
    lemma_split(x, 60_000_000_000, 1_000_000_000);
    lemma_split(x, 1_000_000_000, 1_000_000);
    lemma_split(x, 1_000_000, 1_000);
    vstd::arithmetic::div_mod::lemma_fundamental_div_mod(x, 3_600_000_000_000);
    vstd::arithmetic::div_mod::lemma_mod_bound(x, 1_000);
}

/// Where `small` divides `big`, what is left of `x` past a whole `big` is a
/// whole number (below `big / small`) of `small` plus what is left past a
/// whole `small`.
proof fn lemma_split(x: int, big: int, small: int)
    requires
        x >= 0,
        small > 0,
        big > 0,
        big % small == 0,
    ensures
        x % big == small * (x % big / small) + x % small,
        x % big / small < big / small,
{
    let q = big / small;
    vstd::arithmetic::div_mod::lemma_fundamental_div_mod(big, small);
    assert(big == small * q);
    vstd::arithmetic::div_mod::lemma_mod_mod(x, small, q);
    vstd::arithmetic::div_mod::lemma_fundamental_div_mod(x % big, small);
    vstd::arithmetic::div_mod::lemma_mod_bound(x, big);
    vstd::arithmetic::div_mod::lemma_div_is_ordered(x % big, big - 1, small);
    vstd::arithmetic::div_mod::lemma_div_multiples_vanish_fancy(q - 1, small - 1, small);
    assert(small * (q - 1) + (small - 1) == big - 1) by (nonlinear_arith)
        requires
            big == small * q,
    ;
}

/// Segments joined by single spaces.
pub open spec fn joined(segs: Seq<Seq<char>>) -> Seq<char>
    decreases segs.len(),
{
    if segs.len() == 0 {
        Seq::empty()
    } else if segs.len() == 1 {
        segs[0]
    } else {
        joined(segs.drop_last()) + " "@ + segs.last()
    }
}

/// The segments shown for `n` nanoseconds, largest unit first.
///
/// Hours show when there are any. Minutes show when there are any or hours
/// show; seconds when there are any or minutes show; milliseconds when there
/// are any or seconds show. Microseconds and nanoseconds show only when there
/// are any. All but hours are padded with zeros: minutes and seconds to two
/// digits, the others to three.
pub open spec fn segments(n: nat) -> Seq<Seq<char>> {
    let show_h = hours_of(n) > 0;
    let show_m = minutes_of(n) > 0 || show_h;
    let show_s = seconds_of(n) > 0 || show_m;
    let show_ms = millis_of(n) > 0 || show_s;
    let s0: Seq<Seq<char>> = Seq::empty();
    let s1 = if show_h { s0.push(decimal(hours_of(n)) + "h"@) } else { s0 };
    let s2 = if show_m { s1.push(padded(minutes_of(n), 2) + "m"@) } else { s1 };
    let s3 = if show_s { s2.push(padded(seconds_of(n), 2) + "s"@) } else { s2 };
    let s4 = if show_ms { s3.push(padded(millis_of(n), 3) + "ms"@) } else { s3 };
    let s5 = if micros_of(n) > 0 { s4.push(padded(micros_of(n), 3) + "µs"@) } else { s4 };
    if nanos_of(n) > 0 { s5.push(padded(nanos_of(n), 3) + "ns"@) } else { s5 }
}

/// How `n` nanoseconds are written: the shown segments joined by spaces, or
/// `0s` where none shows.
pub open spec fn formatted(n: nat) -> Seq<char> {
    if segments(n).len() == 0 {
        "0s"@
    } else {
        joined(segments(n))
    }
}

/// Appends one more segment, `value` padded to `width` digits then `unit`,
/// after a space unless it is the first.
fn push_segment(
    out: &mut String,
    first: bool,
    Ghost(segs): Ghost<Seq<Seq<char>>>,
    value: u64,
    width: usize,
    unit: &str,
)
    requires
        old(out)@ == joined(segs),
        first == (segs.len() == 0),
    ensures
        final(out)@ == joined(segs.push(padded(value as nat, width as nat) + unit@)),
{
    let ghost seg = padded(value as nat, width as nat) + unit@;
    assert(segs.push(seg).drop_last() =~= segs);
    if !first {
        out.append(" ");
    }
    let ghost before = out@;
    push_padded(out, value, width);
    out.append(unit);
    assert(out@ =~= before + seg);
    if first {
        assert(out@ =~= joined(segs.push(seg)));
    }
}

/// Writes `nanos` nanoseconds as text, such as `1h 00m 00s 000ms`, `05m 30s`,
/// `500ms` or `0s`.
pub fn format_duration(nanos: u64) -> (r: String)
    ensures
        r@ == formatted(nanos as nat),
{
    let p = decompose(nanos);
    let ghost n = nanos as nat;
    let mut out = String::new();
    let mut first = true;
    let ghost mut segs: Seq<Seq<char>> = Seq::empty();
    assert(out@ =~= joined(segs));
    let show_h = p.hours > 0;
    let show_m = p.minutes > 0 || show_h;
    let show_s = p.seconds > 0 || show_m;
    let show_ms = p.milliseconds > 0 || show_s;
    if show_h {
        push_segment(&mut out, first, Ghost(segs), p.hours, 0, "h");
        proof {
            segs = segs.push(padded(p.hours as nat, 0) + "h"@);
        }
        first = false;
    }
    if show_m {
        push_segment(&mut out, first, Ghost(segs), p.minutes, 2, "m");
        proof {
            segs = segs.push(padded(p.minutes as nat, 2) + "m"@);
        }
        first = false;
    }
    if show_s {
        push_segment(&mut out, first, Ghost(segs), p.seconds, 2, "s");
        proof {
            segs = segs.push(padded(p.seconds as nat, 2) + "s"@);
        }
        first = false;
    }
    if show_ms {
        push_segment(&mut out, first, Ghost(segs), p.milliseconds, 3, "ms");
        proof {
            segs = segs.push(padded(p.milliseconds as nat, 3) + "ms"@);
        }
        first = false;
    }
    if p.microseconds > 0 {
        push_segment(&mut out, first, Ghost(segs), p.microseconds, 3, "µs");
        proof {
            segs = segs.push(padded(p.microseconds as nat, 3) + "µs"@);
        }
        first = false;
    }
    if p.nanoseconds > 0 {
        push_segment(&mut out, first, Ghost(segs), p.nanoseconds, 3, "ns");
        proof {
            segs = segs.push(padded(p.nanoseconds as nat, 3) + "ns"@);
        }
        first = false;
    }
    assert(segs =~= segments(n));
    if first {
        String::from_str("0s")
    } else {
        out
    }
}

} // verus!
