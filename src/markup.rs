use vstd::prelude::*;
use chrono::Timelike;
use crate::text::{digit_char, digit};

verus! {

/// The markup that opens bold text.
pub open spec fn open_tag() -> Seq<char> {
    seq!['<', 'b', '>']
}

/// The markup that closes bold text.
pub open spec fn close_tag() -> Seq<char> {
    seq!['<', '/', 'b', '>']
}

/// `s` with each "**" toggling bold: it becomes "<b>" outside bold and
/// "</b>" inside; a lone '*' stays. Bold still open at the end is closed.
pub open spec fn bold_markup(s: Seq<char>, in_bold: bool) -> Seq<char>
    decreases s.len(),
{
    if s.len() == 0 {
        if in_bold {
            close_tag()
        } else {
            Seq::empty()
        }
    } else if s.len() >= 2 && s[0] == '*' && s[1] == '*' {
        (if in_bold {
            close_tag()
        } else {
            open_tag()
        }) + bold_markup(s.subrange(2, s.len() as int), !in_bold)
    } else {
        seq![s[0]] + bold_markup(s.subrange(1, s.len() as int), in_bold)
    }
}

fn push_tag(out: &mut String, close: bool)
    ensures
        final(out)@ == old(out)@ + if close {
            close_tag()
        } else {
            open_tag()
        },
{
    out.push('<');
    if close {
        out.push('/');
    }
    out.push('b');
    out.push('>');
    proof {
        if close {
            assert(final(out)@ =~= old(out)@ + close_tag());
        } else {
            assert(final(out)@ =~= old(out)@ + open_tag());
        }
    }
}

/// Replaces each "**" pair by an opening or closing bold tag, in turn, and
/// closes bold that is still open at the end.
pub fn regex_replace_bold(text: &str) -> (r: String)
    ensures
        r@ == bold_markup(text@, false),
{
    let n = text.unicode_len();
    let mut out = String::new();
    let mut in_bold = false;
    let mut i: usize = 0;
    assert(text@.subrange(0, n as int) =~= text@);
    assert(out@ + bold_markup(text@, false) =~= bold_markup(text@, false));
    while i < n
        invariant
            n == text@.len(),
            i <= n,
            out@ + bold_markup(text@.subrange(i as int, n as int), in_bold) == bold_markup(text@, false),
        decreases n - i,
    {
        let ghost rest = text@.subrange(i as int, n as int);
        let c = text.get_char(i);
        if c == '*' && i + 1 < n && text.get_char(i + 1) == '*' {
            proof {
                assert(rest.subrange(2, rest.len() as int) =~= text@.subrange(i + 2, n as int));
            }
            push_tag(&mut out, in_bold);
            in_bold = !in_bold;
            i = i + 2;
        } else {
            proof {
                assert(rest.subrange(1, rest.len() as int) =~= text@.subrange(i + 1, n as int));
                assert(out@.push(c) + bold_markup(text@.subrange(i + 1, n as int), in_bold) =~= out@ + bold_markup(rest, in_bold));
            }
            out.push(c);
            i = i + 1;
        }
    }
    if in_bold {
        push_tag(&mut out, true);
    }
    proof {
        assert(text@.subrange(n as int, n as int) =~= Seq::<char>::empty());
    }
    out
}

/// The (hour, minute) of an RFC 3339 timestamp, or none where it does not parse.
pub uninterp spec fn rfc3339_hour_minute(s: Seq<char>) -> Option<(u32, u32)>;

/// Relies on chrono's `DateTime::parse_from_rfc3339`: the hour (0..=23) and
/// minute (0..=59) of the timestamp at its own offset.
#[verifier::external_body]
fn parse_hour_minute(s: &str) -> (r: Option<(u32, u32)>)
    ensures
        r == rfc3339_hour_minute(s@),
        r matches Some(t) ==> t.0 < 24 && t.1 < 60,
{
    match chrono::DateTime::parse_from_rfc3339(s) {
        Ok(dt) => Some((dt.hour(), dt.minute())),
        Err(_) => None,
    }
}

/// `n < 100` with two digits.
pub open spec fn two_digits(n: nat) -> Seq<char> {
    seq![digit_char(n / 10), digit_char(n % 10)]
}

/// The clock text of a parsed time, "HH:MM", or `fallback` unchanged.
pub open spec fn clock_text(parsed: Option<(u32, u32)>, fallback: Seq<char>) -> Seq<char> {
    match parsed {
        Some(t) => two_digits(t.0 as nat) + seq![':'] + two_digits(t.1 as nat),
        None => fallback,
    }
}

/// Writes a parsed time as "HH:MM"; without one, `fallback` unchanged.
pub fn format_clock(parsed: Option<(u32, u32)>, fallback: &str) -> (r: String)
    requires
        parsed matches Some(t) ==> t.0 < 100 && t.1 < 100,
    ensures
        r@ == clock_text(parsed, fallback@),
{
    match parsed {
        Some((h, m)) => {
            let mut s = String::new();
            s.push(digit((h / 10) as u128));
            s.push(digit((h % 10) as u128));
            s.push(':');
            s.push(digit((m / 10) as u128));
            s.push(digit((m % 10) as u128));
            assert(s@ =~= clock_text(parsed, fallback@));
            s
        },
        None => String::from_str(fallback),
    }
}

/// The clock time "HH:MM" of an RFC 3339 timestamp; the text unchanged
/// where it does not parse.
pub fn format_time(timestamp: &str) -> (r: String)
    ensures
        r@ == clock_text(rfc3339_hour_minute(timestamp@), timestamp@),
{
    let parsed = parse_hour_minute(timestamp);
    format_clock(parsed, timestamp)
}

} // verus!
