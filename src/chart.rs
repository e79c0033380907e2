use vstd::prelude::*;
use crate::types::{ReferenceValue, ValueHistoryPoint, history_values};
use crate::status::{ValueStatus, effective_range, gender_view, get_effective_range, get_value_status, status_of};
use crate::text::{nat_digits, digit_char, push_digits, format_date_short, date_short_spec};
use crate::trend::abs;

verus! {

/// Space left of the plot, for the value axis labels, in pixels.
pub const MARGIN_LEFT: i64 = 60;
/// Space right of the plot, in pixels.
pub const MARGIN_RIGHT: i64 = 20;
/// Space above the plot, in pixels.
pub const MARGIN_TOP: i64 = 16;
/// Space below the plot, for the date labels, in pixels.
pub const MARGIN_BOTTOM: i64 = 40;
/// Chart coordinates are given in thousandths of a pixel.
pub const SUBPIXELS: i64 = 1000;
/// Number of intervals between the horizontal grid lines (one more line).
pub const GRID_STEPS: i64 = 5;
/// Gap between a value label's right edge and the plot, in pixels.
pub const LABEL_GAP: i64 = 6;
/// Date labels are taken from every `max(1, n / DATE_LABELS)`-th point.
pub const DATE_LABELS: usize = 8;
/// A domain narrower than this (0.001 units) is padded by one unit instead.
pub const MIN_SPAN: i128 = 1000;
/// One unit of a fixed-point value (`types::SCALE`), for `i128` arithmetic.
pub const UNIT: i128 = 1_000_000;

/// The smaller of two integers.
pub open spec fn min_int(a: int, b: int) -> int {
    if a <= b {
        a
    } else {
        b
    }
}

/// The larger of two integers.
pub open spec fn max_int(a: int, b: int) -> int {
    if a >= b {
        a
    } else {
        b
    }
}

/// The least value of a non-empty series.
pub open spec fn seq_min(s: Seq<i64>) -> int
    decreases s.len(),
{
    if s.len() <= 1 {
        s[0] as int
    } else {
        min_int(seq_min(s.drop_last()), s.last() as int)
    }
}

/// The greatest value of a non-empty series.
pub open spec fn seq_max(s: Seq<i64>) -> int
    decreases s.len(),
{
    if s.len() <= 1 {
        s[0] as int
    } else {
        max_int(seq_max(s.drop_last()), s.last() as int)
    }
}

/// `a` lowered to `b` where `b` is present and smaller.
pub open spec fn lower_to(a: int, b: Option<i64>) -> int {
    match b {
        Some(x) => min_int(a, x as int),
        None => a,
    }
}

/// `a` raised to `b` where `b` is present and greater.
pub open spec fn raise_to(a: int, b: Option<i64>) -> int {
    match b {
        Some(x) => max_int(a, x as int),
        None => a,
    }
}

/// The reference entry behind an optional reference.
pub open spec fn ref_view(r: Option<&ReferenceValue>) -> Option<ReferenceValue> {
    match r {
        Some(v) => Some(*v),
        None => None,
    }
}

/// Lower end of the domain before padding: the least of the data, the
/// effective minimum and the critical-low threshold, those present.
pub open spec fn raw_low(values: Seq<i64>, r: Option<ReferenceValue>, g: Option<Seq<char>>) -> int {
    match r {
        Some(r) => lower_to(lower_to(seq_min(values), effective_range(r, g).0), r.critical_low),
        None => seq_min(values),
    }
}

/// Upper end of the domain before padding: the greatest of the data, the
/// effective maximum and the critical-high threshold, those present.
pub open spec fn raw_high(values: Seq<i64>, r: Option<ReferenceValue>, g: Option<Seq<char>>) -> int {
    match r {
        Some(r) => raise_to(raise_to(seq_max(values), effective_range(r, g).1), r.critical_high),
        None => seq_max(values),
    }
}

/// Padding on each side of a domain of width `span`: 15% of it (rounded
/// down to the fixed-point resolution), or one unit when the span is below
/// 0.001 units.
pub open spec fn pad_of(span: int) -> int {
    if span < MIN_SPAN {
        UNIT as int
    } else {
        span * 15 / 100
    }
}

/// The padded value domain `(low, high)` of a chart.
pub open spec fn domain_spec(values: Seq<i64>, r: Option<ReferenceValue>, g: Option<Seq<char>>) -> (int, int) {
    let lo = raw_low(values, r, g);
    let hi = raw_high(values, r, g);
    let pad = pad_of(hi - lo);
    (lo - pad, hi + pad)
}

/// The value domain shown on the vertical axis, in fixed-point units.
#[derive(Debug, Clone, Copy, PartialEq, Eq, Structural)]
pub struct Domain {
    pub lo: i128,
    pub hi: i128,
}

/// Horizontal position (thousandths of a pixel) of point `i` of `n`: spread
/// evenly over the plot width, or centred when there is one point.
pub open spec fn x_spec(plot_w: int, i: int, n: int) -> int {
    if n == 1 {
        MARGIN_LEFT * SUBPIXELS + plot_w * SUBPIXELS / 2
    } else {
        MARGIN_LEFT * SUBPIXELS + i * plot_w * SUBPIXELS / (n - 1)
    }
}

/// Vertical position (thousandths of a pixel) of value `v`:
/// `top + (1 - (v - lo) / (hi - lo)) * plot_h`, rounded down.
pub open spec fn y_spec(plot_h: int, lo: int, hi: int, v: int) -> int {
    MARGIN_TOP * SUBPIXELS + (hi - v) * plot_h * SUBPIXELS / (hi - lo)
}

/// Value of grid line `i` (0 at the bottom, `GRID_STEPS` at the top).
pub open spec fn grid_value_spec(lo: int, hi: int, i: int) -> int {
    lo + (hi - lo) * i / (GRID_STEPS as int)
}

/// The status a point is drawn with: its own classification, or unknown
/// without a reference entry.
pub open spec fn point_status(v: int, r: Option<ReferenceValue>, g: Option<Seq<char>>) -> ValueStatus {
    match r {
        Some(r) => status_of(v, r, g),
        None => ValueStatus::Unknown,
    }
}

/// Distance between points that get a date label.
pub open spec fn label_step(n: int) -> int {
    if n / (DATE_LABELS as int) >= 1 {
        n / (DATE_LABELS as int)
    } else {
        1
    }
}

/// Number of decimals of a value axis label: none from 100 units, one from
/// 10 units, else two.
pub open spec fn axis_decimals(v: int) -> nat {
    if abs(v) >= 100 * UNIT {
        0
    } else if abs(v) >= 10 * UNIT {
        1
    } else {
        2
    }
}

/// `10^d` for the decimal counts in use (`d <= 2`).
pub open spec fn pow10(d: nat) -> nat {
    if d == 0 {
        1
    } else if d == 1 {
        10
    } else {
        100
    }
}

/// `num / den` rounded to the nearest integer, ties to even.
pub open spec fn round_half_even(num: nat, den: nat) -> nat {
    let q = num / den;
    let r = num % den;
    if 2 * r > den || (2 * r == den && q % 2 == 1) {
        q + 1
    } else {
        q
    }
}

/// Fixed-point value `v` written with `d <= 2` decimals.
pub open spec fn fixed_string(v: int, d: nat) -> Seq<char> {
    let q = round_half_even(abs(v) as nat * pow10(d), UNIT as nat);
    let sign = if v < 0 {
        seq!['-']
    } else {
        Seq::<char>::empty()
    };
    let whole = sign + nat_digits(q / pow10(d));
    if d == 0 {
        whole
    } else if d == 1 {
        whole + seq!['.', digit_char(q % 10)]
    } else {
        whole + seq!['.', digit_char((q / 10) % 10), digit_char(q % 10)]
    }
}

/// The text of a value axis label.
pub open spec fn axis_label_spec(v: int) -> Seq<char> {
    fixed_string(v, axis_decimals(v))
}

/// Writes fixed-point value `v` with `d <= 2` decimals, rounding ties to even.
pub fn format_fixed(v: i128, d: u32) -> (r: String)
    requires
        d <= 2,
        d > 0 ==> abs(v as int) <= COORD_LIMIT,
    ensures
        r@ == fixed_string(v as int, d as nat),
{
    let a: u128 = if v < 0 {
        (-(v + 1)) as u128 + 1
    } else {
        v as u128
    };
    assert(a as int == abs(v as int));
    let p: u128 = if d == 0 {
        1
    } else if d == 1 {
        10
    } else {
        100
    };
    assert(p as nat == pow10(d as nat));
    let scaled: u128 = a * p;
    let den: u128 = UNIT as u128;
    let q0 = scaled / den;
    let rem = scaled % den;
    let q: u128 = if 2 * rem > den || (2 * rem == den && q0 % 2 == 1) {
        q0 + 1
    } else {
        q0
    };
    assert(q as nat == round_half_even(abs(v as int) as nat * pow10(d as nat), UNIT as nat));
    let mut s = String::new();
    if v < 0 {
        s.push('-');
    }
    push_digits(&mut s, q / p);
    if d >= 1 {
        s.push('.');
        if d == 2 {
            s.push(crate::text::digit((q / 10) % 10));
        }
        s.push(crate::text::digit(q % 10));
    }
    proof {
        let sign = if v < 0 {
            seq!['-']
        } else {
            Seq::<char>::empty()
        };
        if d == 0 {
            assert(s@ =~= fixed_string(v as int, d as nat));
        } else if d == 1 {
            assert(s@ =~= fixed_string(v as int, d as nat));
        } else {
            assert(s@ =~= fixed_string(v as int, d as nat));
        }
    }
    s
}

/// The value axis label of `v`: no decimals from 100 units, one from 10
/// units, else two.
pub fn format_axis_val(v: i128) -> (r: String)
    ensures
        r@ == axis_label_spec(v as int),
{
    let a: u128 = if v < 0 {
        (-(v + 1)) as u128 + 1
    } else {
        v as u128
    };
    assert(a as int == abs(v as int));
    if a >= 100 * (UNIT as u128) {
        format_fixed(v, 0)
    } else if a >= 10 * (UNIT as u128) {
        format_fixed(v, 1)
    } else {
        format_fixed(v, 2)
    }
}

/// Bound on the magnitude of domain ends and of drawn values, so that the
/// coordinate arithmetic stays inside `i128`.
pub const COORD_LIMIT: i128 = 0x1_0000_0000_0000_0000_0000;

/// A domain that can be mapped onto the plot.
pub open spec fn domain_usable(lo: int, hi: int) -> bool {
    lo < hi && -COORD_LIMIT <= lo && hi <= COORD_LIMIT
}

/// The least and greatest value of a non-empty history.
pub fn series_min_max(history: &[ValueHistoryPoint]) -> (r: (i64, i64))
    requires
        history@.len() > 0,
    ensures
        r.0 == seq_min(history_values(history@)),
        r.1 == seq_max(history_values(history@)),
{
    let ghost vals = history_values(history@);
    let mut mn = history[0].value;
    let mut mx = history[0].value;
    let mut i: usize = 1;
    proof {
        assert(vals.take(1).drop_last().len() == 0);
    }
    while i < history.len()
        invariant
            vals == history_values(history@),
            1 <= i <= history@.len(),
            mn == seq_min(vals.take(i as int)),
            mx == seq_max(vals.take(i as int)),
        decreases history@.len() - i,
    {
        let v = history[i].value;
        proof {
            assert(vals.take(i as int + 1).drop_last() =~= vals.take(i as int));
        }
        if v < mn {
            mn = v;
        }
        if v > mx {
            mx = v;
        }
        i = i + 1;
    }
    assert(vals.take(history@.len() as int) =~= vals);
    (mn, mx)
}

proof fn lemma_min_max_bounds(s: Seq<i64>)
    requires
        s.len() > 0,
    ensures
        forall|i: int| 0 <= i < s.len() ==> seq_min(s) <= #[trigger] s[i] <= seq_max(s),
        exists|i: int| 0 <= i < s.len() && seq_min(s) == s[i],
        exists|i: int| 0 <= i < s.len() && seq_max(s) == s[i],
    decreases s.len(),
{
    if s.len() > 1 {
        let t = s.drop_last();
        lemma_min_max_bounds(t);
        assert forall|i: int| 0 <= i < s.len() implies seq_min(s) <= #[trigger] s[i] <= seq_max(s) by {
            if i < s.len() - 1 {
                assert(s[i] == t[i]);
            }
        }
        let a = choose|i: int| 0 <= i < t.len() && seq_min(t) == t[i];
        let b = choose|i: int| 0 <= i < t.len() && seq_max(t) == t[i];
        assert(t[a] == s[a] && t[b] == s[b]);
        if seq_min(t) <= s.last() {
            assert(seq_min(s) == s[a]);
        } else {
            assert(seq_min(s) == s[s.len() - 1]);
        }
        if seq_max(t) >= s.last() {
            assert(seq_max(s) == s[b]);
        } else {
            assert(seq_max(s) == s[s.len() - 1]);
        }
    } else {
        assert(seq_min(s) == s[0]);
    }
}

fn lower_opt(a: i64, b: Option<i64>) -> (r: i64)
    ensures
        r == lower_to(a as int, b),
{
    match b {
        Some(x) => if x < a {
            x
        } else {
            a
        },
        None => a,
    }
}

fn raise_opt(a: i64, b: Option<i64>) -> (r: i64)
    ensures
        r == raise_to(a as int, b),
{
    match b {
        Some(x) => if x > a {
            x
        } else {
            a
        },
        None => a,
    }
}

/// The padded value domain of a non-empty history: data, effective range and
/// critical thresholds, widened by 15% of the span on each side (one unit
/// when the span is below 0.001 units).
pub fn chart_domain(history: &[ValueHistoryPoint], ref_val: Option<&ReferenceValue>, gender: Option<&str>) -> (d: Domain)
    requires
        history@.len() > 0,
    ensures
        d.lo == domain_spec(history_values(history@), ref_view(ref_val), gender_view(gender)).0,
        d.hi == domain_spec(history_values(history@), ref_view(ref_val), gender_view(gender)).1,
        domain_usable(d.lo as int, d.hi as int),
{
    let (data_min, data_max) = series_min_max(history);
    proof {
        lemma_min_max_bounds(history_values(history@));
    }
    let (lo, hi) = match ref_val {
        Some(r) => {
            let (emin, emax) = get_effective_range(r, gender);
            (lower_opt(lower_opt(data_min, emin), r.critical_low), raise_opt(raise_opt(data_max, emax), r.critical_high))
        },
        None => (data_min, data_max),
    };
    let span: i128 = hi as i128 - lo as i128;
    let pad: i128 = if span < MIN_SPAN {
        UNIT
    } else {
        span * 15 / 100
    };
    Domain { lo: lo as i128 - pad, hi: hi as i128 + pad }
}

/// Horizontal position of point `i` of `n`, in thousandths of a pixel.
pub fn x_pos(plot_w: i64, i: usize, n: usize) -> (r: i128)
    requires
        0 < plot_w <= i32::MAX,
        i < n,
    ensures
        r == x_spec(plot_w as int, i as int, n as int),
        MARGIN_LEFT * SUBPIXELS <= r <= (MARGIN_LEFT + plot_w) * SUBPIXELS,
{
    let w: i128 = plot_w as i128 * SUBPIXELS as i128;
    assert((MARGIN_LEFT + plot_w) * SUBPIXELS == MARGIN_LEFT * SUBPIXELS + w) by (nonlinear_arith)
        requires
            w == plot_w * 1000,
            SUBPIXELS == 1000,
    ;
    if n == 1 {
        MARGIN_LEFT as i128 * SUBPIXELS as i128 + w / 2
    } else {
        let den: i128 = n as i128 - 1;
        assert(0 <= i as int * w <= 0x1_0000_0000_0000_0000 * 0x200_0000_0000) by (nonlinear_arith)
            requires
                0 <= i < 0x1_0000_0000_0000_0000,
                0 < w <= 0x200_0000_0000,
        ;
        let num: i128 = i as i128 * w;
        proof {
            assert(i as int * w <= den * w) by (nonlinear_arith)
                requires
                    i as int <= den,
                    w > 0,
            ;
            assert(0 <= (i as int * w) / (den as int) <= w) by (nonlinear_arith)
                requires
                    0 <= i as int * w <= den * w,
                    den > 0,
            ;
            assert(i as int * plot_w * SUBPIXELS == i as int * w) by (nonlinear_arith)
                requires
                    w == plot_w * SUBPIXELS,
            ;
        }
        MARGIN_LEFT as i128 * SUBPIXELS as i128 + floor_div(num, den)
    }
}

/// Vertical position of value `v`, in thousandths of a pixel.
pub fn y_pos(plot_h: i64, d: Domain, v: i128) -> (r: i128)
    requires
        0 < plot_h <= i32::MAX,
        domain_usable(d.lo as int, d.hi as int),
        -COORD_LIMIT <= v <= COORD_LIMIT,
    ensures
        r == y_spec(plot_h as int, d.lo as int, d.hi as int, v as int),
        d.lo <= v <= d.hi ==> MARGIN_TOP * SUBPIXELS <= r <= (MARGIN_TOP + plot_h) * SUBPIXELS,
{
    let hgt: i128 = plot_h as i128 * SUBPIXELS as i128;
    let diff: i128 = d.hi - v;
    let den: i128 = d.hi - d.lo;
    proof {
        assert(-0x2_0000_0000_0000_0000_0000 <= diff <= 0x2_0000_0000_0000_0000_0000);
        assert(0 < hgt <= 0x200_0000_0000) by (nonlinear_arith)
            requires
                hgt == plot_h * SUBPIXELS,
                SUBPIXELS == 1000,
                0 < plot_h <= i32::MAX,
        ;
        assert(-0x400_0000_0000_0000_0000_0000_0000_0000 <= diff * hgt <= 0x400_0000_0000_0000_0000_0000_0000_0000) by (nonlinear_arith)
            requires
                -0x2_0000_0000_0000_0000_0000 <= diff <= 0x2_0000_0000_0000_0000_0000,
                0 < hgt <= 0x200_0000_0000,
        ;
        assert(diff * plot_h * SUBPIXELS == diff * hgt) by (nonlinear_arith)
            requires
                hgt == plot_h * SUBPIXELS,
        ;
        if d.lo <= v <= d.hi {
            assert(0 <= diff * hgt <= den * hgt) by (nonlinear_arith)
                requires
                    0 <= diff <= den,
                    hgt > 0,
            ;
            assert(0 <= (diff * hgt) / (den as int) <= hgt) by (nonlinear_arith)
                requires
                    0 <= diff * hgt <= den * hgt,
                    den > 0,
            ;
        }
    }
    assert((MARGIN_TOP + plot_h) * SUBPIXELS == MARGIN_TOP * SUBPIXELS + hgt) by (nonlinear_arith)
        requires
            hgt == plot_h * 1000,
            SUBPIXELS == 1000,
    ;
    let num: i128 = diff * hgt;
    MARGIN_TOP as i128 * SUBPIXELS as i128 + floor_div(num, den)
}

/// `num / den` rounded towards negative infinity.
fn floor_div(num: i128, den: i128) -> (q: i128)
    requires
        den > 0,
        -0x400_0000_0000_0000_0000_0000_0000_0000 <= num <= 0x400_0000_0000_0000_0000_0000_0000_0000,
        den <= 0x400_0000_0000_0000_0000_0000_0000_0000,
    ensures
        q == num as int / den as int,
        num >= 0 ==> 0 <= q <= num,
        num < 0 ==> num <= q < 0,
{
    if num >= 0 {
        proof {
            vstd::arithmetic::div_mod::lemma_div_is_ordered_by_denominator(num as int, 1, den as int);
        }
        num / den
    } else {
        let m: i128 = -num;
        let q0: i128 = (m + den - 1) / den;
        proof {
            let qq = (m + den - 1) as int / den as int;
            let rr = (m + den - 1) as int % den as int;
            vstd::arithmetic::div_mod::lemma_fundamental_div_mod(m + den - 1, den as int);
            assert(m + den - 1 == den * qq + rr);
            assert(num == den * (-qq) + (den - 1 - rr)) by (nonlinear_arith)
                requires
                    m + den - 1 == den * qq + rr,
                    m == -num,
            ;
            vstd::arithmetic::div_mod::lemma_fundamental_div_mod_converse(num as int, den as int, -qq, den - 1 - rr);
            assert(m + den - 1 <= m * den) by (nonlinear_arith)
                requires
                    m >= 1,
                    den >= 1,
            ;
            vstd::arithmetic::div_mod::lemma_div_is_ordered((m + den - 1) as int, m * den, den as int);
            vstd::arithmetic::div_mod::lemma_div_by_multiple(m as int, den as int);
            vstd::arithmetic::div_mod::lemma_div_is_ordered(den as int, (m + den - 1) as int, den as int);
            vstd::arithmetic::div_mod::lemma_div_by_self(den as int);
        }
        -q0
    }
}


/// A horizontal grid line with its value label. The label's right edge is at
/// `label_x` and its vertical centre at `y`.
#[derive(Debug, Clone)]
pub struct GridLine {
    pub value: i128,
    pub y: i128,
    pub label_x: i128,
    pub label: String,
}

/// The shaded reference band, between the effective maximum (`top`) and the
/// effective minimum (`bottom`).
#[derive(Debug, Clone, Copy, PartialEq, Eq, Structural)]
pub struct ReferenceBand {
    pub top: i128,
    pub bottom: i128,
}

/// A data point: its marker position and the status that colours it.
#[derive(Debug, Clone, Copy, PartialEq, Eq, Structural)]
pub struct PlotPoint {
    pub x: i128,
    pub y: i128,
    pub status: ValueStatus,
}

/// A date label below the plot, drawn from `(x, y)` rotated by 45 degrees.
#[derive(Debug, Clone)]
pub struct DateLabel {
    pub x: i128,
    pub y: i128,
    pub text: String,
}

/// The geometry of a chart with data. All coordinates are in thousandths of
/// a pixel; the plot spans `MARGIN_LEFT .. MARGIN_LEFT + plot_width`
/// horizontally and `MARGIN_TOP .. MARGIN_TOP + plot_height` vertically.
/// Drawn in this order: background, grid lines with labels, reference band
/// with its dashed borders, dashed critical lines, the line through all
/// points, the point markers (white halo, then the status colour), the
/// date labels.
#[derive(Debug, Clone)]
pub struct ChartGeometry {
    pub plot_width: i64,
    pub plot_height: i64,
    pub domain: Domain,
    pub grid: Vec<GridLine>,
    pub band: Option<ReferenceBand>,
    pub critical_low: Option<i128>,
    pub critical_high: Option<i128>,
    pub points: Vec<PlotPoint>,
    pub date_labels: Vec<DateLabel>,
}

/// What to draw: a centred "no data" text at `(x, y)`, or a chart.
#[derive(Debug, Clone)]
pub enum Chart {
    NoData { x: i128, y: i128 },
    Plot(ChartGeometry),
}

/// Height (thousandths of a pixel) of grid line `i`: `(GRID_STEPS - i) /
/// GRID_STEPS` of the plot height below the top, rounded down.
pub open spec fn grid_y_spec(plot_h: int, i: int) -> int {
    MARGIN_TOP * SUBPIXELS + (GRID_STEPS - i) * plot_h * SUBPIXELS / (GRID_STEPS as int)
}

/// Grid line `i` of the domain `[lo, hi]`: evenly spaced, labelled with the
/// value `lo + (hi - lo) * i / GRID_STEPS`.
pub open spec fn grid_line_ok(l: GridLine, i: int, plot_h: int, lo: int, hi: int) -> bool {
    let v = grid_value_spec(lo, hi, i);
    &&& l.value == v
    &&& l.y == grid_y_spec(plot_h, i)
    &&& l.label_x == (MARGIN_LEFT - LABEL_GAP) * SUBPIXELS
    &&& l.label@ == axis_label_spec(v)
}

/// Point `i` of the series `values`.
pub open spec fn point_ok(
    p: PlotPoint,
    i: int,
    values: Seq<i64>,
    plot_w: int,
    plot_h: int,
    lo: int,
    hi: int,
    r: Option<ReferenceValue>,
    g: Option<Seq<char>>,
) -> bool {
    &&& p.x == x_spec(plot_w, i, values.len() as int)
    &&& p.y == y_spec(plot_h, lo, hi, values[i] as int)
    &&& p.status == point_status(values[i] as int, r, g)
}

/// Date label `k`, which belongs to point `k * label_step(n)`.
pub open spec fn date_label_ok(l: DateLabel, k: int, h: Seq<ValueHistoryPoint>, plot_w: int, plot_h: int) -> bool {
    let i = k * label_step(h.len() as int);
    &&& l.x == x_spec(plot_w, i, h.len() as int)
    &&& l.y == (MARGIN_TOP + plot_h + LABEL_GAP) * SUBPIXELS
    &&& l.text@ == date_short_spec(h[i].date@)
}

/// Number of date labels for `n > 0` points: indices `0, step, 2 * step, ...` below `n`.
pub open spec fn label_count(n: int) -> int {
    (n - 1) / label_step(n) + 1
}

/// The reference band, present when a reference entry gives both effective bounds.
pub open spec fn band_spec(r: Option<ReferenceValue>, g: Option<Seq<char>>, plot_h: int, lo: int, hi: int) -> Option<ReferenceBand> {
    match r {
        Some(e) => match effective_range(e, g) {
            (Some(mn), Some(mx)) => Some(
                ReferenceBand { top: y_spec(plot_h, lo, hi, mx as int) as i128, bottom: y_spec(plot_h, lo, hi, mn as int) as i128 },
            ),
            _ => None,
        },
        None => None,
    }
}

/// The height of an optional threshold line.
pub open spec fn line_spec(t: Option<i64>, plot_h: int, lo: int, hi: int) -> Option<i128> {
    match t {
        Some(v) => Some(y_spec(plot_h, lo, hi, v as int) as i128),
        None => None,
    }
}

/// The critical threshold of an optional reference entry.
pub open spec fn critical_low_of(r: Option<ReferenceValue>) -> Option<i64> {
    match r {
        Some(e) => e.critical_low,
        None => None,
    }
}

/// The critical threshold of an optional reference entry.
pub open spec fn critical_high_of(r: Option<ReferenceValue>) -> Option<i64> {
    match r {
        Some(e) => e.critical_high,
        None => None,
    }
}

/// The geometry that a history, a reference, a gender and a plot size determine.
#[verifier::opaque]
pub open spec fn geometry_ok(
    c: ChartGeometry,
    h: Seq<ValueHistoryPoint>,
    r: Option<ReferenceValue>,
    g: Option<Seq<char>>,
    plot_w: int,
    plot_h: int,
) -> bool {
    let values = history_values(h);
    let (lo, hi) = domain_spec(values, r, g);
    &&& c.plot_width == plot_w
    &&& c.plot_height == plot_h
    &&& c.domain.lo == lo
    &&& c.domain.hi == hi
    &&& c.grid@.len() == GRID_STEPS + 1
    &&& forall|i: int| 0 <= i <= GRID_STEPS ==> #[trigger] grid_line_ok(c.grid@[i], i, plot_h, lo, hi)
    &&& c.band == band_spec(r, g, plot_h, lo, hi)
    &&& c.critical_low == line_spec(critical_low_of(r), plot_h, lo, hi)
    &&& c.critical_high == line_spec(critical_high_of(r), plot_h, lo, hi)
    &&& c.points@.len() == h.len()
    &&& forall|i: int| 0 <= i < h.len() ==> #[trigger] point_ok(c.points@[i], i, values, plot_w, plot_h, lo, hi, r, g)
    &&& c.date_labels@.len() == label_count(h.len() as int)
    &&& forall|k: int| 0 <= k < label_count(h.len() as int) ==> #[trigger] date_label_ok(c.date_labels@[k], k, h, plot_w, plot_h)
}

/// The chart for a canvas of `width` by `height` pixels: "no data" when the
/// plot area is empty or there are no points, else the geometry above.
pub open spec fn chart_ok(
    c: Chart,
    h: Seq<ValueHistoryPoint>,
    r: Option<ReferenceValue>,
    g: Option<Seq<char>>,
    width: int,
    height: int,
) -> bool {
    let plot_w = width - MARGIN_LEFT - MARGIN_RIGHT;
    let plot_h = height - MARGIN_TOP - MARGIN_BOTTOM;
    match c {
        Chart::NoData { x, y } => (plot_w <= 0 || plot_h <= 0 || h.len() == 0) && x == width * (SUBPIXELS / 2) && y
            == height * (SUBPIXELS / 2),
        Chart::Plot(geo) => plot_w > 0 && plot_h > 0 && h.len() > 0 && geometry_ok(geo, h, r, g, plot_w, plot_h),
    }
}

/// The padded domain contains every data value with room to spare on both
/// sides, starts at or below the effective minimum and the critical-low
/// threshold, and ends at or above the effective maximum and the
/// critical-high threshold, those that are present. So it contains the
/// effective range and the critical range whenever both of their ends are
/// present.
pub proof fn lemma_domain_covers(values: Seq<i64>, r: Option<ReferenceValue>, g: Option<Seq<char>>)
    requires
        values.len() > 0,
    ensures
        ({
            let (lo, hi) = domain_spec(values, r, g);
            &&& lo < seq_min(values)
            &&& seq_max(values) < hi
            &&& forall|i: int| 0 <= i < values.len() ==> lo <= #[trigger] values[i] <= hi
            &&& r matches Some(e) ==> {
                &&& (effective_range(e, g).0 matches Some(mn) ==> lo <= mn)
                &&& (effective_range(e, g).1 matches Some(mx) ==> mx <= hi)
                &&& (e.critical_low matches Some(cl) ==> lo <= cl)
                &&& (e.critical_high matches Some(ch) ==> ch <= hi)
            }
        }),
{
    lemma_min_max_bounds(values);
}

/// The grid lines of a domain, bottom to top.
fn grid_lines(plot_h: i64, d: Domain) -> (r: Vec<GridLine>)
    requires
        0 < plot_h <= i32::MAX,
        domain_usable(d.lo as int, d.hi as int),
    ensures
        r@.len() == GRID_STEPS + 1,
        forall|i: int| 0 <= i <= GRID_STEPS ==> #[trigger] grid_line_ok(r@[i], i, plot_h as int, d.lo as int, d.hi as int),
{
    let mut r: Vec<GridLine> = Vec::new();
    let mut i: i64 = 0;
    let span: i128 = d.hi - d.lo;
    while i <= GRID_STEPS
        invariant
            0 <= i <= GRID_STEPS + 1,
            span == d.hi - d.lo,
            0 < plot_h <= i32::MAX,
            domain_usable(d.lo as int, d.hi as int),
            r@.len() == i,
            forall|j: int| 0 <= j < i ==> #[trigger] grid_line_ok(r@[j], j, plot_h as int, d.lo as int, d.hi as int),
        decreases GRID_STEPS + 1 - i,
    {
        proof {
            assert(0 <= span * i <= span * GRID_STEPS) by (nonlinear_arith)
                requires
                    span > 0,
                    0 <= i <= GRID_STEPS,
            ;
            assert(0 <= (span * i) / (GRID_STEPS as int) <= span) by (nonlinear_arith)
                requires
                    0 <= span * i <= span * GRID_STEPS,
                    GRID_STEPS == 5,
            ;
        }
        let value: i128 = d.lo + span * (i as i128) / (GRID_STEPS as i128);
        let steps_left: i128 = (GRID_STEPS - i) as i128;
        let hgt: i128 = plot_h as i128 * SUBPIXELS as i128;
        proof {
            assert(0 < hgt <= 0x200_0000_0000) by (nonlinear_arith)
                requires
                    hgt == plot_h * SUBPIXELS,
                    SUBPIXELS == 1000,
                    0 < plot_h <= i32::MAX,
            ;
            assert(0 <= steps_left * hgt <= 5 * 0x200_0000_0000) by (nonlinear_arith)
                requires
                    0 <= steps_left <= 5,
                    0 < hgt <= 0x200_0000_0000,
            ;
            assert(steps_left * plot_h * SUBPIXELS == steps_left * hgt) by (nonlinear_arith)
                requires
                    hgt == plot_h * SUBPIXELS,
            ;
        }
        let y: i128 = MARGIN_TOP as i128 * SUBPIXELS as i128 + steps_left * hgt / (GRID_STEPS as i128);
        let label = format_axis_val(value);
        r.push(GridLine { value, y, label_x: ((MARGIN_LEFT - LABEL_GAP) * SUBPIXELS) as i128, label });
        proof {
            assert forall|j: int| 0 <= j < i + 1 implies #[trigger] grid_line_ok(r@[j], j, plot_h as int, d.lo as int, d.hi as int) by {
                if j == i {
                    assert(r@[j].value == value);
                }
            }
        }
        i = i + 1;
    }
    r
}

/// The markers of all points.
fn plot_points(
    plot_w: i64,
    plot_h: i64,
    d: Domain,
    history: &[ValueHistoryPoint],
    ref_val: Option<&ReferenceValue>,
    gender: Option<&str>,
) -> (r: Vec<PlotPoint>)
    requires
        0 < plot_w <= i32::MAX,
        0 < plot_h <= i32::MAX,
        domain_usable(d.lo as int, d.hi as int),
    ensures
        r@.len() == history@.len(),
        forall|i: int| 0 <= i < history@.len() ==> #[trigger] point_ok(r@[i], i, history_values(history@), plot_w as int, plot_h as int, d.lo as int, d.hi as int, ref_view(ref_val), gender_view(gender)),
{
    let ghost values = history_values(history@);
    let n = history.len();
    let mut r: Vec<PlotPoint> = Vec::new();
    let mut i: usize = 0;
    while i < n
        invariant
            n == history@.len(),
            values == history_values(history@),
            0 < plot_w <= i32::MAX,
            0 < plot_h <= i32::MAX,
            domain_usable(d.lo as int, d.hi as int),
            i <= n,
            r@.len() == i,
            forall|j: int| 0 <= j < i ==> #[trigger] point_ok(r@[j], j, values, plot_w as int, plot_h as int, d.lo as int, d.hi as int, ref_view(ref_val), gender_view(gender)),
        decreases n - i,
    {
        let v = history[i].value;
        let status = match ref_val {
            Some(rv) => get_value_status(v, rv, gender),
            None => ValueStatus::Unknown,
        };
        let x = x_pos(plot_w, i, n);
        let y = y_pos(plot_h, d, v as i128);
        r.push(PlotPoint { x, y, status });
        proof {
            assert forall|j: int| 0 <= j < i + 1 implies #[trigger] point_ok(r@[j], j, values, plot_w as int, plot_h as int, d.lo as int, d.hi as int, ref_view(ref_val), gender_view(gender)) by {
                if j == i {
                    assert(values[j] == v);
                    assert(r@[j] == PlotPoint { x, y, status });
                }
            }
        }
        i = i + 1;
    }
    r
}

/// The date labels: one for every `label_step(n)`-th point, from the first.
fn date_labels(plot_w: i64, plot_h: i64, history: &[ValueHistoryPoint]) -> (r: Vec<DateLabel>)
    requires
        0 < plot_w <= i32::MAX,
        0 < plot_h <= i32::MAX,
        history@.len() > 0,
    ensures
        r@.len() == label_count(history@.len() as int),
        forall|k: int| 0 <= k < label_count(history@.len() as int) ==> #[trigger] date_label_ok(r@[k], k, history@, plot_w as int, plot_h as int),
{
    let n = history.len();
    let step: usize = if n / DATE_LABELS >= 1 {
        n / DATE_LABELS
    } else {
        1
    };
    assert(step as int == label_step(n as int));
    let count: usize = (n - 1) / step + 1;
    let y: i128 = (MARGIN_TOP as i128 + plot_h as i128 + LABEL_GAP as i128) * SUBPIXELS as i128;
    let mut r: Vec<DateLabel> = Vec::new();
    let mut k: usize = 0;
    while k < count
        invariant
            n == history@.len(),
            n > 0,
            step == label_step(n as int),
            step >= 1,
            count == label_count(n as int),
            y == (MARGIN_TOP + plot_h + LABEL_GAP) * SUBPIXELS,
            0 < plot_w <= i32::MAX,
            k <= count,
            r@.len() == k,
            forall|j: int| 0 <= j < k ==> #[trigger] date_label_ok(r@[j], j, history@, plot_w as int, plot_h as int),
        decreases count - k,
    {
        proof {
            let m = (n - 1) as int / step as int;
            vstd::arithmetic::div_mod::lemma_fundamental_div_mod((n - 1) as int, step as int);
            assert(k as int * step <= m * step) by (nonlinear_arith)
                requires
                    k as int <= m,
                    step >= 1,
            ;
            assert(m * step <= n - 1) by (nonlinear_arith)
                requires
                    n - 1 == step * m + (n - 1) % (step as int),
                    (n - 1) % (step as int) >= 0,
            ;
        }
        let i: usize = k * step;
        let x = x_pos(plot_w, i, n);
        let text = format_date_short(history[i].date.as_str());
        r.push(DateLabel { x, y, text });
        proof {
            assert forall|j: int| 0 <= j < k + 1 implies #[trigger] date_label_ok(r@[j], j, history@, plot_w as int, plot_h as int) by {
                if j == k {
                    assert(r@[j].x == x);
                    assert(j * label_step(n as int) == i);
                }
            }
        }
        k = k + 1;
    }
    r
}

/// The reference band of the chart.
fn reference_band(plot_h: i64, d: Domain, ref_val: Option<&ReferenceValue>, gender: Option<&str>) -> (b: Option<ReferenceBand>)
    requires
        0 < plot_h <= i32::MAX,
        domain_usable(d.lo as int, d.hi as int),
    ensures
        b == band_spec(ref_view(ref_val), gender_view(gender), plot_h as int, d.lo as int, d.hi as int),
{
    match ref_val {
        Some(rv) => match get_effective_range(rv, gender) {
            (Some(mn), Some(mx)) => Some(
                ReferenceBand { top: y_pos(plot_h, d, mx as i128), bottom: y_pos(plot_h, d, mn as i128) },
            ),
            _ => None,
        },
        None => None,
    }
}

/// The height of an optional threshold line.
fn threshold_line(plot_h: i64, d: Domain, t: Option<i64>) -> (y: Option<i128>)
    requires
        0 < plot_h <= i32::MAX,
        domain_usable(d.lo as int, d.hi as int),
    ensures
        y == line_spec(t, plot_h as int, d.lo as int, d.hi as int),
{
    match t {
        Some(v) => Some(y_pos(plot_h, d, v as i128)),
        None => None,
    }
}

/// The geometry of a non-empty history on a plot of the given size.
fn plot_geometry(
    plot_w: i64,
    plot_h: i64,
    history: &[ValueHistoryPoint],
    ref_val: Option<&ReferenceValue>,
    gender: Option<&str>,
) -> (c: ChartGeometry)
    requires
        0 < plot_w <= i32::MAX,
        0 < plot_h <= i32::MAX,
        history@.len() > 0,
    ensures
        geometry_ok(c, history@, ref_view(ref_val), gender_view(gender), plot_w as int, plot_h as int),
{
    let d = chart_domain(history, ref_val, gender);
    let grid = grid_lines(plot_h, d);
    let band = reference_band(plot_h, d, ref_val, gender);
    let critical_low = threshold_line(plot_h, d, match ref_val {
        Some(rv) => rv.critical_low,
        None => None,
    });
    let critical_high = threshold_line(plot_h, d, match ref_val {
        Some(rv) => rv.critical_high,
        None => None,
    });
    let points = plot_points(plot_w, plot_h, d, history, ref_val, gender);
    let date_labels = date_labels(plot_w, plot_h, history);
    proof {
        reveal(geometry_ok);
    }
    ChartGeometry {
        plot_width: plot_w,
        plot_height: plot_h,
        domain: d,
        grid,
        band,
        critical_low,
        critical_high,
        points,
        date_labels,
    }
}

/// The chart of `history` (oldest first) on a canvas of `width` by `height`
/// pixels, with the reference band, the critical lines and the point colours
/// of `ref_val` for `gender`.
pub fn build_chart(
    width: i32,
    height: i32,
    history: &[ValueHistoryPoint],
    ref_val: Option<&ReferenceValue>,
    gender: Option<&str>,
) -> (c: Chart)
    ensures
        chart_ok(c, history@, ref_view(ref_val), gender_view(gender), width as int, height as int),
{
    let plot_w: i64 = width as i64 - MARGIN_LEFT - MARGIN_RIGHT;
    let plot_h: i64 = height as i64 - MARGIN_TOP - MARGIN_BOTTOM;
    if plot_w <= 0 || plot_h <= 0 || history.len() == 0 {
        let x: i128 = width as i128 * (SUBPIXELS as i128 / 2);
        let y: i128 = height as i128 * (SUBPIXELS as i128 / 2);
        return Chart::NoData { x, y };
    }
    let geo = plot_geometry(plot_w, plot_h, history, ref_val, gender);
    assert(plot_w > 0 && plot_h > 0 && history@.len() > 0);
    Chart::Plot(geo)
}

/// Two geometries agree in every coordinate, status and label text.
pub open spec fn same_geometry(p: ChartGeometry, q: ChartGeometry) -> bool {
    &&& p.plot_width == q.plot_width
    &&& p.plot_height == q.plot_height
    &&& p.domain == q.domain
    &&& p.grid@.len() == q.grid@.len()
    &&& forall|i: int| 0 <= i < p.grid@.len() ==> {
        &&& #[trigger] p.grid@[i].value == q.grid@[i].value
        &&& p.grid@[i].y == q.grid@[i].y
        &&& p.grid@[i].label_x == q.grid@[i].label_x
        &&& p.grid@[i].label@ == q.grid@[i].label@
    }
    &&& p.band == q.band
    &&& p.critical_low == q.critical_low
    &&& p.critical_high == q.critical_high
    &&& p.points@ == q.points@
    &&& p.date_labels@.len() == q.date_labels@.len()
    &&& forall|k: int| 0 <= k < p.date_labels@.len() ==> {
        &&& #[trigger] p.date_labels@[k].x == q.date_labels@[k].x
        &&& p.date_labels@[k].y == q.date_labels@[k].y
        &&& p.date_labels@[k].text@ == q.date_labels@[k].text@
    }
}

/// Two charts draw the same thing.
pub open spec fn same_chart(a: Chart, b: Chart) -> bool {
    match (a, b) {
        (Chart::NoData { x: x1, y: y1 }, Chart::NoData { x: x2, y: y2 }) => x1 == x2 && y1 == y2,
        (Chart::Plot(p), Chart::Plot(q)) => same_geometry(p, q),
        _ => false,
    }
}

/// The chart is a function of its inputs: any two results of `build_chart`
/// for the same history, reference, gender and canvas size draw the same
/// thing, so rendering again changes nothing.
pub proof fn lemma_chart_deterministic(
    c1: Chart,
    c2: Chart,
    h: Seq<ValueHistoryPoint>,
    r: Option<ReferenceValue>,
    g: Option<Seq<char>>,
    width: int,
    height: int,
)
    requires
        chart_ok(c1, h, r, g, width, height),
        chart_ok(c2, h, r, g, width, height),
    ensures
        same_chart(c1, c2),
{
    reveal(geometry_ok);
    if let (Chart::Plot(p), Chart::Plot(q)) = (c1, c2) {
        let plot_w = width - MARGIN_LEFT - MARGIN_RIGHT;
        let plot_h = height - MARGIN_TOP - MARGIN_BOTTOM;
        let (lo, hi) = domain_spec(history_values(h), r, g);
        assert forall|i: int| 0 <= i < p.grid@.len() implies {
            &&& #[trigger] p.grid@[i].value == q.grid@[i].value
            &&& p.grid@[i].y == q.grid@[i].y
            &&& p.grid@[i].label_x == q.grid@[i].label_x
            &&& p.grid@[i].label@ == q.grid@[i].label@
        } by {
            assert(grid_line_ok(p.grid@[i], i, plot_h, lo, hi));
            assert(grid_line_ok(q.grid@[i], i, plot_h, lo, hi));
        }
        assert forall|i: int| 0 <= i < p.points@.len() implies p.points@[i] == q.points@[i] by {
            assert(point_ok(p.points@[i], i, history_values(h), plot_w, plot_h, lo, hi, r, g));
            assert(point_ok(q.points@[i], i, history_values(h), plot_w, plot_h, lo, hi, r, g));
        }
        assert(p.points@ =~= q.points@);
        assert forall|k: int| 0 <= k < p.date_labels@.len() implies {
            &&& #[trigger] p.date_labels@[k].x == q.date_labels@[k].x
            &&& p.date_labels@[k].y == q.date_labels@[k].y
            &&& p.date_labels@[k].text@ == q.date_labels@[k].text@
        } by {
            assert(date_label_ok(p.date_labels@[k], k, h, plot_w, plot_h));
            assert(date_label_ok(q.date_labels@[k], k, h, plot_w, plot_h));
        }
    }
}

} // verus!
