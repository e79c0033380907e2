use vstd::prelude::*;
use chrono::Datelike;
use crate::types::ValueHistoryPoint;

verus! {

/// The trailing window of a history view.
#[derive(Debug, Clone, Copy, PartialEq, Eq, Structural)]
pub enum TimeRange {
    SixMonths,
    OneYear,
    ThreeYears,
    All,
}

impl TimeRange {
    /// The window's length in calendar months; none for the whole history.
    pub fn months(&self) -> (r: Option<i64>)
        ensures
            r == range_months(*self),
    {
        match self {
            TimeRange::SixMonths => Some(6),
            TimeRange::OneYear => Some(12),
            TimeRange::ThreeYears => Some(36),
            TimeRange::All => None,
        }
    }

    /// The German label of the window's button.
    pub fn label(&self) -> (r: &'static str)
        ensures
            r@ == range_label(*self),
    {
        match self {
            TimeRange::SixMonths => "6 Monate",
            TimeRange::OneYear => "1 Jahr",
            TimeRange::ThreeYears => "3 Jahre",
            TimeRange::All => "Alle",
        }
    }
}

/// The length of each window in months.
pub open spec fn range_months(t: TimeRange) -> Option<i64> {
    match t {
        TimeRange::SixMonths => Some(6),
        TimeRange::OneYear => Some(12),
        TimeRange::ThreeYears => Some(36),
        TimeRange::All => None,
    }
}

/// The label of each window.
pub open spec fn range_label(t: TimeRange) -> Seq<char> {
    match t {
        TimeRange::SixMonths => "6 Monate"@,
        TimeRange::OneYear => "1 Jahr"@,
        TimeRange::ThreeYears => "3 Jahre"@,
        TimeRange::All => "Alle"@,
    }
}

/// The calendar date (year, month, day) that `s` spells in the pattern
/// `fmt`, or none where it does not parse.
pub uninterp spec fn date_parsed(s: Seq<char>, fmt: Seq<char>) -> Option<(i32, u32, u32)>;

/// Relies on chrono's `NaiveDate::parse_from_str`: the date that `s` spells
/// in the pattern `fmt`, with `Datelike::month` in 1..=12 and
/// `Datelike::day` in 1..=31.
#[verifier::external_body]
fn parse_date(s: &str, fmt: &str) -> (r: Option<(i32, u32, u32)>)
    ensures
        r == date_parsed(s@, fmt@),
        r matches Some(d) ==> 1 <= d.1 <= 12 && 1 <= d.2 <= 31,
{
    match chrono::NaiveDate::parse_from_str(s, fmt) {
        Ok(d) => Some((d.year(), d.month(), d.day())),
        Err(_) => None,
    }
}

/// Whole calendar months from (year, month) to (now_year, now_month).
pub open spec fn month_diff(now_year: int, now_month: int, year: int, month: int) -> int {
    (now_year - year) * 12 + now_month - month
}

/// A point with parsed date `parsed` lies in a window of `months` months up
/// to (now_year, now_month); a date that did not parse is kept.
pub open spec fn in_window(parsed: Option<(i32, u32, u32)>, months: int, now_year: int, now_month: int) -> bool {
    match parsed {
        Some(d) => month_diff(now_year, now_month, d.0 as int, d.1 as int) <= months,
        None => true,
    }
}

/// The pattern of history dates.
pub open spec fn date_pattern() -> Seq<char> {
    "%Y-%m-%d"@
}

/// Whether a history point stays in the window.
pub open spec fn keep_point(p: ValueHistoryPoint, months: int, now_year: int, now_month: int) -> bool {
    in_window(date_parsed(p.date@, date_pattern()), months, now_year, now_month)
}

/// The points of `h` in the window, in their order.
pub open spec fn window_filter(h: Seq<ValueHistoryPoint>, months: int, now_year: int, now_month: int) -> Seq<ValueHistoryPoint> {
    h.filter(|p: ValueHistoryPoint| keep_point(p, months, now_year, now_month))
}

/// Whether a point whose date parsed to `parsed` is in the window of
/// `months` calendar months up to (now_year, now_month).
pub fn point_in_window(parsed: Option<(i32, u32, u32)>, months: i64, now_year: i32, now_month: u32) -> (r: bool)
    ensures
        r == in_window(parsed, months as int, now_year as int, now_month as int),
{
    match parsed {
        Some(d) => {
            let diff: i64 = (now_year as i64 - d.0 as i64) * 12 + now_month as i64 - d.1 as i64;
            diff <= months
        },
        None => true,
    }
}

/// The points of `history` whose whole-month distance from (now_year,
/// now_month) is at most `months`, and those whose date does not parse.
pub fn filter_history_at(history: &[ValueHistoryPoint], months: i64, now_year: i32, now_month: u32) -> (r: Vec<ValueHistoryPoint>)
    ensures
        r@ == window_filter(history@, months as int, now_year as int, now_month as int),
{
    let ghost pred = |p: ValueHistoryPoint| keep_point(p, months as int, now_year as int, now_month as int);
    let mut r: Vec<ValueHistoryPoint> = Vec::new();
    let mut i: usize = 0;
    while i < history.len()
        invariant
            i <= history@.len(),
            pred == (|p: ValueHistoryPoint| keep_point(p, months as int, now_year as int, now_month as int)),
            r@ == history@.take(i as int).filter(pred),
        decreases history@.len() - i,
    {
        let p = &history[i];
        let parsed = parse_date(p.date.as_str(), "%Y-%m-%d");
        let keep = point_in_window(parsed, months, now_year, now_month);
        proof {
            reveal(Seq::filter);
            assert(history@.take(i as int + 1).drop_last() =~= history@.take(i as int));
            assert(history@.take(i as int + 1).last() == *p);
        }
        if keep {
            r.push(p.duplicate());
        }
        i = i + 1;
    }
    assert(history@.take(history@.len() as int) =~= history@);
    r
}

/// The points of `history` inside `range`, counted in whole calendar
/// months back from (now_year, now_month); `All` keeps every point.
pub fn filter_history(history: &[ValueHistoryPoint], range: TimeRange, now_year: i32, now_month: u32) -> (r: Vec<
    ValueHistoryPoint,
>)
    ensures
        range == TimeRange::All ==> r@ == history@,
        range_months(range) matches Some(m) ==> r@ == window_filter(history@, m as int, now_year as int, now_month as int),
{
    match range.months() {
        None => {
            let mut r: Vec<ValueHistoryPoint> = Vec::new();
            let mut i: usize = 0;
            while i < history.len()
                invariant
                    i <= history@.len(),
                    r@ == history@.take(i as int),
                decreases history@.len() - i,
            {
                r.push(history[i].duplicate());
                assert(r@ =~= history@.take(i as int + 1));
                i = i + 1;
            }
            assert(history@.take(history@.len() as int) =~= history@);
            r
        },
        Some(m) => filter_history_at(history, m, now_year, now_month),
    }
}

} // verus!
