use vstd::prelude::*;
use crate::text::{decimal, digit_char, digit_value, is_digit, lemma_digit_round_trip};

verus! {

/// Why a duration expression was refused.
#[derive(Debug, Clone, Copy, PartialEq, Eq, Structural)]
pub enum ParseError {
    /// A unit letter with no digits before it.
    NumberExpectedBeforeUnit,
    /// A one- or two-letter unit token that names no unit.
    UnknownUnit,
    /// The total does not fit in a `u64` count of nanoseconds.
    Overflow,
}

/// Nanoseconds in an hour.
pub const NANOS_PER_HOUR: u64 = 3_600_000_000_000;

/// Nanoseconds in a minute.
pub const NANOS_PER_MINUTE: u64 = 60_000_000_000;

/// Nanoseconds in a second.
pub const NANOS_PER_SECOND: u64 = 1_000_000_000;

/// Nanoseconds in a millisecond.
pub const NANOS_PER_MILLI: u64 = 1_000_000;

/// Nanoseconds in a microsecond.
pub const NANOS_PER_MICRO: u64 = 1_000;

/// What `char::is_alphabetic` returns on `c`.
pub uninterp spec fn alphabetic(c: char) -> bool;

/// Whether `c` counts as a letter: of the ASCII characters only `a` to `z`
/// and `A` to `Z` do; beyond ASCII, those with the Unicode Alphabetic property.
pub open spec fn letter(c: char) -> bool {
    if (c as u32) < 128 {
        ('a' <= c && c <= 'z') || ('A' <= c && c <= 'Z')
    } else {
        alphabetic(c)
    }
}

/// Relies on `char::is_alphabetic`: whether `c` has the Unicode Alphabetic
/// property, which among the ASCII characters holds of the letters alone.
#[verifier::external_body]
fn is_letter(c: char) -> (r: bool)
    ensures
        r == alphabetic(c),
        (c as u32) < 128 ==> (r <==> (('a' <= c && c <= 'z') || ('A' <= c && c <= 'Z'))),
{
    c.is_alphabetic()
}

/// Nanoseconds in one of a unit token: `h`, `m`, `s`, `ms`, `us` or `µs`, `ns`.
pub open spec fn unit_scale(tok: Seq<char>) -> Option<nat> {
    if tok.len() == 1 {
        if tok[0] == 'h' {
            Some(NANOS_PER_HOUR as nat)
        } else if tok[0] == 'm' {
            Some(NANOS_PER_MINUTE as nat)
        } else if tok[0] == 's' {
            Some(NANOS_PER_SECOND as nat)
        } else {
            None
        }
    } else if tok.len() == 2 && tok[1] == 's' {
        if tok[0] == 'm' {
            Some(NANOS_PER_MILLI as nat)
        } else if tok[0] == 'u' || tok[0] == 'µ' {
            Some(NANOS_PER_MICRO as nat)
        } else if tok[0] == 'n' {
            Some(1)
        } else {
            None
        }
    } else {
        None
    }
}

/// Length of the unit token at the start of `s`, which starts with a letter:
/// two when the next character is a letter too, else one.
pub open spec fn token_len(s: Seq<char>) -> nat {
    if s.len() > 1 && letter(s[1]) {
        2
    } else {
        1
    }
}

/// Reads `s` on from a state where `pending` is the digit run seen since the
/// last unit (if any) and `total` the nanoseconds counted so far.
///
/// Digits extend the run; a letter ends it with a unit token; any other
/// character is skipped; a run left at the end counts for nothing.
pub open spec fn scan(s: Seq<char>, pending: Option<nat>, total: nat) -> Result<nat, ParseError>
    decreases s.len(),
{
    if s.len() == 0 {
        Ok(total)
    } else if is_digit(s[0]) {
        let run = match pending {
            Some(v) => v,
            None => 0,
        };
        scan(s.drop_first(), Some(run * 10 + digit_value(s[0])), total)
    } else if letter(s[0]) {
        match pending {
            None => Err(ParseError::NumberExpectedBeforeUnit),
            Some(v) => {
                let n = token_len(s);
                match unit_scale(s.take(n as int)) {
                    None => Err(ParseError::UnknownUnit),
                    Some(k) => if total + v * k > u64::MAX {
                        Err(ParseError::Overflow)
                    } else {
                        scan(s.skip(n as int), None, total + v * k)
                    },
                }
            },
        }
    } else {
        scan(s.drop_first(), pending, total)
    }
}

/// The nanoseconds that a duration expression stands for.
pub open spec fn duration_value(s: Seq<char>) -> Result<nat, ParseError> {
    scan(s, None, 0)
}

/// The scale of the unit token `first` (then `second`, where the token has
/// two letters).
fn scale_of(first: char, second: Option<char>) -> (r: Option<u64>)
    ensures
        r matches Some(k) ==> k >= 1,
        ({
            let tok = match second {
                Some(c) => seq![first, c],
                None => seq![first],
            };
            match r {
                Some(k) => unit_scale(tok) == Some(k as nat),
                None => unit_scale(tok) is None,
            }
        }),
{
    match second {
        None => {
            if first == 'h' {
                Some(NANOS_PER_HOUR)
            } else if first == 'm' {
                Some(NANOS_PER_MINUTE)
            } else if first == 's' {
                Some(NANOS_PER_SECOND)
            } else {
                None
            }
        },
        Some(c) => {
            if c != 's' {
                None
            } else if first == 'm' {
                Some(NANOS_PER_MILLI)
            } else if first == 'u' || first == 'µ' {
                Some(NANOS_PER_MICRO)
            } else if first == 'n' {
                Some(1)
            } else {
                None
            }
        },
    }
}

/// Parses a duration expression such as `1h30m45s` into nanoseconds.
///
/// The expression is a run of `<digits><unit>` pairs with the units `h`, `m`,
/// `s`, `ms`, `us` (or `µs`) and `ns`. A unit token is the letter after the
/// digits, together with the next character where that is a letter too; so
/// `min` is not a unit, and minutes are written `m`. Characters that are
/// neither digits nor letters are skipped, and digits left at the end count
/// for nothing. The empty expression is zero.
pub fn parse_time(input: String) -> (r: Result<u64, ParseError>)
    ensures
        match r {
            Ok(v) => duration_value(input@) == Ok::<nat, ParseError>(v as nat),
            Err(e) => duration_value(input@) == Err::<nat, ParseError>(e),
        },
{
    let s = input.as_str();
    let ghost chars = s@;
    let n = s.unicode_len();
    let mut i: usize = 0;
    let mut total: u64 = 0;
    let mut has_run = false;
    let mut run: u64 = 0;
    let mut big = false;
    let ghost mut pending: Option<nat> = None;
    assert(chars.skip(0) =~= chars);
    while i < n
        invariant
            n == chars.len(),
            chars == input@,
            s@ == chars,
            i <= n,
            duration_value(chars) == scan(chars.skip(i as int), pending, total as nat),
            pending is Some <==> has_run,
            has_run && !big ==> pending == Some(run as nat),
            has_run && big ==> pending->0 > u64::MAX,
        decreases n - i,
    {
        let ghost rest = chars.skip(i as int);
        let c = s.get_char(i);
        assert(rest[0] == c);
        assert(rest.drop_first() =~= chars.skip(i + 1));
        if '0' <= c && c <= '9' {
            let d = (c as u32 - '0' as u32) as u64;
            proof {
                let v = match pending {
                    Some(v) => v,
                    None => 0,
                };
                pending = Some(v * 10 + d as nat);
            }
            if !has_run {
                run = 0;
                big = false;
                has_run = true;
            }
            if !big {
                match run.checked_mul(10) {
                    Some(t) => match t.checked_add(d) {
                        Some(u) => {
                            run = u;
                        },
                        None => {
                            big = true;
                        },
                    },
                    None => {
                        big = true;
                    },
                }
            } else {
                assert(pending->0 > u64::MAX) by (nonlinear_arith)
                    requires
                        pending->0 >= 10 * (u64::MAX + 1),
                ;
            }
            i = i + 1;
        } else if is_letter(c) {
            if !has_run {
                return Err(ParseError::NumberExpectedBeforeUnit);
            }
            let second = if i + 1 < n {
                let c2 = s.get_char(i + 1);
                assert(rest[1] == c2);
                if is_letter(c2) {
                    Some(c2)
                } else {
                    None
                }
            } else {
                None
            };
            let ghost len = token_len(rest);
            assert(rest.take(len as int) =~= match second {
                Some(c2) => seq![c, c2],
                None => seq![c],
            });
            let k = match scale_of(c, second) {
                Some(k) => k,
                None => {
                    return Err(ParseError::UnknownUnit);
                },
            };
            let ghost v = pending->0;
            if big {
                assert(total + v * k > u64::MAX) by (nonlinear_arith)
                    requires
                        v > u64::MAX,
                        k >= 1,
                ;
                return Err(ParseError::Overflow);
            }
            let sum = match run.checked_mul(k) {
                Some(p) => total.checked_add(p),
                None => {
                    assert(total + v * k > u64::MAX);
                    None
                },
            };
            match sum {
                Some(t) => {
                    total = t;
                },
                None => {
                    return Err(ParseError::Overflow);
                },
            }
            let step: usize = match second {
                Some(_) => 2,
                None => 1,
            };
            assert(rest.skip(len as int) =~= chars.skip(i + step));
            i = i + step;
            has_run = false;
            big = false;
            proof {
                pending = None;
            }
        } else {
            i = i + 1;
        }
    }
    assert(chars.skip(i as int).len() == 0);
    Ok(total)
}

/// A digit run followed by `r` reads as `r` with that run pending.
proof fn lemma_scan_decimal(n: nat, r: Seq<char>, total: nat)
    ensures
        scan(decimal(n) + r, None, total) == scan(r, Some(n), total),
    decreases n,
{
    if n < 10 {
        lemma_digit_round_trip(n);
        assert((decimal(n) + r).drop_first() =~= r);
    } else {
        let d = digit_char(n % 10);
        lemma_digit_round_trip(n % 10);
        assert(decimal(n) + r =~= decimal(n / 10) + (seq![d] + r));
        lemma_scan_decimal(n / 10, seq![d] + r, total);
        assert((seq![d] + r).drop_first() =~= r);
    }
}

/// Nanoseconds in one of the single-letter units `h`, `m` and `s`.
pub open spec fn letter_scale(u: char) -> nat {
    if u == 'h' {
        NANOS_PER_HOUR as nat
    } else if u == 'm' {
        NANOS_PER_MINUTE as nat
    } else {
        NANOS_PER_SECOND as nat
    }
}

/// A number and a single-letter unit, then a second number and unit, stand
/// for the first number times its unit plus the second times its unit, as
/// long as that sum fits in a `u64`: `"{a}h{b}m"` is `a` hours and `b`
/// minutes.
pub proof fn lemma_two_pairs(a: nat, u: char, b: nat, w: char)
    requires
        u == 'h' || u == 'm' || u == 's',
        w == 'h' || w == 'm' || w == 's',
        a * letter_scale(u) + b * letter_scale(w) <= u64::MAX,
    ensures
        duration_value(decimal(a) + seq![u] + decimal(b) + seq![w])
            == Ok::<nat, ParseError>(a * letter_scale(u) + b * letter_scale(w)),
{
    let x = a * letter_scale(u);
    let y = b * letter_scale(w);
    let tail = seq![w];
    let mid = seq![u] + decimal(b) + tail;
    assert(decimal(a) + seq![u] + decimal(b) + seq![w] =~= decimal(a) + mid);
    lemma_scan_decimal(a, mid, 0);
    crate::text::lemma_decimal_digits(b);
    assert(mid[1] == decimal(b)[0]);
    assert(is_digit(mid[1]));
    assert(token_len(mid) == 1);
    assert(mid.take(1) =~= seq![u]);
    assert(mid.skip(1) =~= decimal(b) + tail);
    lemma_scan_decimal(b, tail, x);
    assert(token_len(tail) == 1);
    assert(tail.take(1) =~= seq![w]);
    assert(tail.skip(1).len() == 0);
    assert(unit_scale(seq![u]) == Some(letter_scale(u)));
    assert(unit_scale(seq![w]) == Some(letter_scale(w)));
    assert(scan(mid, Some(a), 0) == scan(decimal(b) + tail, None, x));
    assert(scan(tail, Some(b), x) == scan(tail.skip(1), None, x + y));
    assert(scan(tail.skip(1), None, x + y) == Ok::<nat, ParseError>(x + y));
}

} // verus!
