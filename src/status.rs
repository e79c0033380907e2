use vstd::prelude::*;
use crate::types::ReferenceValue;
use crate::text::str_eq;

verus! {

/// The health status of one measured value.
#[derive(Debug, Clone, Copy, PartialEq, Eq, Structural)]
pub enum ValueStatus {
    Normal,
    Warning,
    High,
    Low,
    CriticalHigh,
    CriticalLow,
    Unknown,
}

/// A display color: red, green and blue intensities in thousandths (0..=1000).
#[derive(Debug, Clone, Copy, PartialEq, Eq, Structural)]
pub struct Rgb {
    pub r: u16,
    pub g: u16,
    pub b: u16,
}

impl ValueStatus {
    /// The German display label of the status.
    pub fn label(&self) -> (r: &'static str)
        ensures
            r@ == status_label(*self),
    {
        match self {
            ValueStatus::Normal => "Normal",
            ValueStatus::Warning => "Grenzwertig",
            ValueStatus::High => "Erhöht",
            ValueStatus::Low => "Erniedrigt",
            ValueStatus::CriticalHigh => "Kritisch hoch",
            ValueStatus::CriticalLow => "Kritisch niedrig",
            ValueStatus::Unknown => "Unbekannt",
        }
    }

    /// The indicator color of the status.
    pub fn color(&self) -> (r: Rgb)
        ensures
            r == status_color(*self),
    {
        match self {
            ValueStatus::Normal => Rgb { r: 133, g: 773, b: 369 },
            ValueStatus::Warning => Rgb { r: 961, g: 620, b: 43 },
            ValueStatus::High | ValueStatus::Low => Rgb { r: 937, g: 267, b: 267 },
            ValueStatus::CriticalHigh | ValueStatus::CriticalLow => Rgb { r: 498, g: 110, b: 110 },
            ValueStatus::Unknown => Rgb { r: 612, g: 639, b: 659 },
        }
    }
}

/// The label of each status.
pub open spec fn status_label(s: ValueStatus) -> Seq<char> {
    match s {
        ValueStatus::Normal => "Normal"@,
        ValueStatus::Warning => "Grenzwertig"@,
        ValueStatus::High => "Erhöht"@,
        ValueStatus::Low => "Erniedrigt"@,
        ValueStatus::CriticalHigh => "Kritisch hoch"@,
        ValueStatus::CriticalLow => "Kritisch niedrig"@,
        ValueStatus::Unknown => "Unbekannt"@,
    }
}

/// The color of each status, in thousandths.
pub open spec fn status_color(s: ValueStatus) -> Rgb {
    match s {
        ValueStatus::Normal => Rgb { r: 133, g: 773, b: 369 },
        ValueStatus::Warning => Rgb { r: 961, g: 620, b: 43 },
        ValueStatus::High | ValueStatus::Low => Rgb { r: 937, g: 267, b: 267 },
        ValueStatus::CriticalHigh | ValueStatus::CriticalLow => Rgb { r: 498, g: 110, b: 110 },
        ValueStatus::Unknown => Rgb { r: 612, g: 639, b: 659 },
    }
}

/// The gender hint as a character sequence.
pub open spec fn gender_view(gender: Option<&str>) -> Option<Seq<char>> {
    match gender {
        Some(g) => Some(g@),
        None => None,
    }
}

/// A bound replaced by an override where the override is present.
pub open spec fn overridden(base: Option<i64>, over: Option<i64>) -> Option<i64> {
    if over is Some {
        over
    } else {
        base
    }
}

/// The reference range after applying the gender-specific bounds that are present.
pub open spec fn effective_range(r: ReferenceValue, gender: Option<Seq<char>>) -> (Option<i64>, Option<i64>) {
    if gender == Some("female"@) {
        (overridden(r.ref_min, r.ref_min_female), overridden(r.ref_max, r.ref_max_female))
    } else if gender == Some("male"@) {
        (overridden(r.ref_min, r.ref_min_male), overridden(r.ref_max, r.ref_max_male))
    } else {
        (r.ref_min, r.ref_max)
    }
}

/// Classification of a value inside a closed range `[mn, mx]`: the outer tenth
/// of the range on either side is a warning zone (`v < mn + (mx - mn) / 10` or
/// `v > mx - (mx - mn) / 10`, in exact arithmetic).
pub open spec fn in_range_status(v: int, mn: int, mx: int) -> ValueStatus {
    if 10 * (v - mn) < mx - mn || 10 * (mx - v) < mx - mn {
        ValueStatus::Warning
    } else {
        ValueStatus::Normal
    }
}

/// The status of value `v` against reference entry `r` for the given gender.
pub open spec fn status_of(v: int, r: ReferenceValue, gender: Option<Seq<char>>) -> ValueStatus {
    if r.critical_low is Some && v <= r.critical_low->0 {
        ValueStatus::CriticalLow
    } else if r.critical_high is Some && v >= r.critical_high->0 {
        ValueStatus::CriticalHigh
    } else {
        match effective_range(r, gender) {
            (Some(mn), Some(mx)) => if v < mn {
                ValueStatus::Low
            } else if v > mx {
                ValueStatus::High
            } else {
                in_range_status(v, mn as int, mx as int)
            },
            (Some(mn), None) => if v < mn {
                ValueStatus::Low
            } else {
                ValueStatus::Normal
            },
            (None, Some(mx)) => if v > mx {
                ValueStatus::High
            } else {
                ValueStatus::Normal
            },
            (None, None) => ValueStatus::Unknown,
        }
    }
}

/// Whether the gender hint is exactly `word`.
fn gender_is(gender: Option<&str>, word: &str) -> (r: bool)
    ensures
        r == (gender_view(gender) == Some(word@)),
{
    match gender {
        Some(g) => str_eq(g, word),
        None => false,
    }
}

/// The reference range of `ref_val` with the gender-specific bounds applied:
/// for "female" (or "male") each female (or male) bound that is present
/// replaces the base bound; any other gender leaves the base bounds.
pub fn get_effective_range(ref_val: &ReferenceValue, gender: Option<&str>) -> (r: (Option<i64>, Option<i64>))
    ensures
        r == effective_range(*ref_val, gender_view(gender)),
{
    let mut min = ref_val.ref_min;
    let mut max = ref_val.ref_max;
    if gender_is(gender, "female") {
        if ref_val.ref_min_female.is_some() {
            min = ref_val.ref_min_female;
        }
        if ref_val.ref_max_female.is_some() {
            max = ref_val.ref_max_female;
        }
    } else if gender_is(gender, "male") {
        if ref_val.ref_min_male.is_some() {
            min = ref_val.ref_min_male;
        }
        if ref_val.ref_max_male.is_some() {
            max = ref_val.ref_max_male;
        }
    }
    (min, max)
}

/// Classifies `value` against `ref_val`: critical thresholds first, then the
/// gender-adjusted range with its inner warning buffer of a tenth of the span.
pub fn get_value_status(value: i64, ref_val: &ReferenceValue, gender: Option<&str>) -> (r: ValueStatus)
    ensures
        r == status_of(value as int, *ref_val, gender_view(gender)),
{
    if let Some(cl) = ref_val.critical_low {
        if value <= cl {
            return ValueStatus::CriticalLow;
        }
    }
    if let Some(ch) = ref_val.critical_high {
        if value >= ch {
            return ValueStatus::CriticalHigh;
        }
    }
    let (min, max) = get_effective_range(ref_val, gender);
    match (min, max) {
        (Some(min), Some(max)) => {
            if value < min {
                return ValueStatus::Low;
            }
            if value > max {
                return ValueStatus::High;
            }
            let span: i128 = max as i128 - min as i128;
            if 10 * (value as i128 - min as i128) < span || 10 * (max as i128 - value as i128) < span {
                return ValueStatus::Warning;
            }
            ValueStatus::Normal
        },
        (Some(min), None) => {
            if value < min {
                ValueStatus::Low
            } else {
                ValueStatus::Normal
            }
        },
        (None, Some(max)) => {
            if value > max {
                ValueStatus::High
            } else {
                ValueStatus::Normal
            }
        },
        (None, None) => ValueStatus::Unknown,
    }
}

/// A value at or beyond a critical threshold is critical, whatever the
/// reference range says; the low threshold is tested first.
pub proof fn lemma_critical_overrides(v: int, r: ReferenceValue, g: Option<Seq<char>>)
    ensures
        (r.critical_low matches Some(cl) && v <= cl) ==> status_of(v, r, g) == ValueStatus::CriticalLow,
        (r.critical_high matches Some(ch) && v >= ch) && !(r.critical_low matches Some(cl) && v <= cl) ==> status_of(
            v,
            r,
            g,
        ) == ValueStatus::CriticalHigh,
{
}

/// A value is unknown exactly when no threshold is reached and neither
/// effective bound is present.
pub proof fn lemma_unknown_without_bounds(v: int, r: ReferenceValue, g: Option<Seq<char>>)
    ensures
        (status_of(v, r, g) == ValueStatus::Unknown) == (effective_range(r, g) == (None::<i64>, None::<i64>) && !(
        r.critical_low matches Some(cl) && v <= cl) && !(r.critical_high matches Some(ch) && v >= ch)),
{
}

} // verus!
