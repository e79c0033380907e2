use vstd::prelude::*;
use crate::types::{ValueHistoryPoint, history_values};

verus! {

/// Direction of the last step of a series.
#[derive(Debug, Clone, Copy, PartialEq, Eq, Structural)]
pub enum Trend {
    Up,
    Down,
    Stable,
}

impl Trend {
    /// The symbolic icon that shows the trend.
    pub fn icon_name(&self) -> (r: &'static str)
        ensures
            r@ == trend_icon(*self),
    {
        match self {
            Trend::Up => "go-up-symbolic",
            Trend::Down => "go-down-symbolic",
            Trend::Stable => "go-next-symbolic",
        }
    }
}

/// The icon of each trend.
pub open spec fn trend_icon(t: Trend) -> Seq<char> {
    match t {
        Trend::Up => "go-up-symbolic"@,
        Trend::Down => "go-down-symbolic"@,
        Trend::Stable => "go-next-symbolic"@,
    }
}

/// The absolute value.
pub open spec fn abs(x: int) -> int {
    if x < 0 {
        -x
    } else {
        x
    }
}

/// The trend from `prev` to `last`. With `pct = (last - prev) / |prev| * 100`:
/// none when `prev` is zero, stable when `|pct| < 5`, else up or down by sign.
/// In exact arithmetic `|pct| < 5` is `20 * |last - prev| < |prev|`.
pub open spec fn trend_between(prev: int, last: int) -> Option<Trend> {
    if prev == 0 {
        None
    } else if 20 * abs(last - prev) < abs(prev) {
        Some(Trend::Stable)
    } else if last > prev {
        Some(Trend::Up)
    } else {
        Some(Trend::Down)
    }
}

/// The trend of a series of values: that of its last two values.
pub open spec fn trend_of(values: Seq<i64>) -> Option<Trend> {
    if values.len() < 2 {
        None
    } else {
        trend_between(values[values.len() - 2] as int, values[values.len() - 1] as int)
    }
}

/// The trend of the last step of `history` (oldest first); none with fewer
/// than two points or when the previous value is zero.
pub fn get_trend(history: &[ValueHistoryPoint]) -> (r: Option<Trend>)
    ensures
        r == trend_of(history_values(history@)),
{
    let n = history.len();
    if n < 2 {
        return None;
    }
    let last = history[n - 1].value as i128;
    let prev = history[n - 2].value as i128;
    if prev == 0 {
        return None;
    }
    let diff: i128 = last - prev;
    let abs_diff: i128 = if diff < 0 { -diff } else { diff };
    let abs_prev: i128 = if prev < 0 { -prev } else { prev };
    if 20 * abs_diff < abs_prev {
        Some(Trend::Stable)
    } else if diff > 0 {
        Some(Trend::Up)
    } else {
        Some(Trend::Down)
    }
}

} // verus!
