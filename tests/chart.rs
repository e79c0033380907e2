use blutwerte::chart::{build_chart, chart_domain, format_axis_val, Chart, ChartGeometry, Domain};
use blutwerte::status::ValueStatus;
use blutwerte::types::{ReferenceValue, ValueHistoryPoint};

const U: i64 = 1_000_000;

fn point(date: &str, value: i64) -> ValueHistoryPoint {
    ValueHistoryPoint { date: date.to_string(), value, unit: "u".to_string(), entry_id: "e".to_string() }
}

fn reference(min: Option<i64>, max: Option<i64>, crit_low: Option<i64>, crit_high: Option<i64>) -> ReferenceValue {
    ReferenceValue {
        id: "k".to_string(),
        name: "Kalium".to_string(),
        short_name: None,
        long_name: None,
        aliases: vec![],
        category: "E".to_string(),
        unit: "u".to_string(),
        ref_min: min,
        ref_max: max,
        ref_min_female: None,
        ref_max_female: None,
        ref_min_male: None,
        ref_max_male: None,
        optimal_min: None,
        optimal_max: None,
        critical_low: crit_low,
        critical_high: crit_high,
        description: String::new(),
        high_info: String::new(),
        low_info: String::new(),
        recommendations: String::new(),
    }
}

fn plot(c: Chart) -> ChartGeometry {
    match c {
        Chart::Plot(g) => g,
        Chart::NoData { .. } => panic!("expected a chart"),
    }
}

#[test]
fn no_data_when_empty_or_too_small() {
    match build_chart(480, 296, &[], None, None) {
        Chart::NoData { x, y } => assert_eq!((x, y), (240_000, 148_000)),
        Chart::Plot(_) => panic!("expected no data"),
    }
    let h = vec![point("2024-01-01", 4 * U)];
    match build_chart(80, 296, &h, None, None) {
        Chart::NoData { x, y } => assert_eq!((x, y), (40_000, 148_000)),
        Chart::Plot(_) => panic!("expected no data"),
    }
    assert!(matches!(build_chart(480, 56, &h, None, None), Chart::NoData { .. }));
    assert!(matches!(build_chart(81, 57, &h, None, None), Chart::Plot(_)));
}

#[test]
fn two_points_geometry() {
    let h = vec![point("2024-03-01", 4 * U), point("2024-04-15", 5 * U)];
    let g = plot(build_chart(480, 296, &h, None, None));
    assert_eq!((g.plot_width, g.plot_height), (400, 240));
    assert_eq!(g.domain, Domain { lo: 3_850_000, hi: 5_150_000 });
    assert_eq!(g.points.len(), 2);
    assert_eq!((g.points[0].x, g.points[0].y), (60_000, 228_307));
    assert_eq!((g.points[1].x, g.points[1].y), (460_000, 43_692));
    assert_eq!(g.points[0].status, ValueStatus::Unknown);
    assert_eq!(g.grid.len(), 6);
    assert_eq!((g.grid[0].value, g.grid[0].y, g.grid[0].label.as_str()), (3_850_000, 256_000, "3.85"));
    assert_eq!((g.grid[1].value, g.grid[1].y, g.grid[1].label.as_str()), (4_110_000, 208_000, "4.11"));
    assert_eq!((g.grid[5].value, g.grid[5].y, g.grid[5].label.as_str()), (5_150_000, 16_000, "5.15"));
    assert_eq!(g.grid[0].label_x, 54_000);
    assert!(g.band.is_none());
    assert!(g.critical_low.is_none() && g.critical_high.is_none());
    assert_eq!(g.date_labels.len(), 2);
    assert_eq!((g.date_labels[0].x, g.date_labels[0].y, g.date_labels[0].text.as_str()), (60_000, 262_000, "01.03"));
    assert_eq!(g.date_labels[1].text, "15.04");
}

#[test]
fn single_flat_point_is_centred_and_padded() {
    let h = vec![point("2024-03-01", 5 * U)];
    let g = plot(build_chart(480, 296, &h, None, None));
    assert_eq!(g.domain, Domain { lo: 4 * U as i128, hi: 6 * U as i128 });
    assert_eq!((g.points[0].x, g.points[0].y), (260_000, 136_000));
}

#[test]
fn small_span_gets_unit_padding() {
    let h = vec![point("a", 5 * U), point("b", 5 * U + 999)];
    let d = chart_domain(&h, None, None);
    assert_eq!(d, Domain { lo: 4 * U as i128, hi: 6 * U as i128 + 999 });
    let h = vec![point("a", 5 * U), point("b", 5 * U + 1000)];
    let d = chart_domain(&h, None, None);
    assert_eq!(d, Domain { lo: 5 * U as i128 - 150, hi: 5 * U as i128 + 1150 });
}

#[test]
fn domain_includes_reference_and_critical_bounds() {
    let r = reference(Some(3 * U + 500_000), Some(5 * U + 500_000), Some(2 * U), None);
    let h = vec![point("2024-01-01", 4 * U)];
    let d = chart_domain(&h, Some(&r), None);
    assert_eq!(d, Domain { lo: 1_475_000, hi: 6_025_000 });
    let g = plot(build_chart(480, 296, &h, Some(&r), None));
    let band = g.band.expect("band");
    assert!(band.top < band.bottom);
    assert!(g.critical_low.is_some());
    assert!(g.critical_high.is_none());
    assert_eq!(g.points[0].status, ValueStatus::Normal);
    for v in [d.lo, d.hi] {
        assert!(v <= 2 * U as i128 || v >= 5 * U as i128 + 500_000);
    }
}

#[test]
fn points_coloured_by_own_status() {
    let r = reference(Some(3 * U + 500_000), Some(5 * U + 500_000), Some(2 * U), Some(7 * U));
    let h = vec![point("a", 4 * U + 500_000), point("b", 3 * U + 600_000), point("c", 8 * U), point("d", U)];
    let g = plot(build_chart(480, 296, &h, Some(&r), Some("female")));
    let statuses: Vec<ValueStatus> = g.points.iter().map(|p| p.status).collect();
    assert_eq!(statuses, vec![ValueStatus::Normal, ValueStatus::Warning, ValueStatus::CriticalHigh, ValueStatus::CriticalLow]);
}

#[test]
fn date_labels_are_decimated() {
    let h: Vec<ValueHistoryPoint> = (0..16).map(|i| point("2024-01-02", (i + 1) * U)).collect();
    let g = plot(build_chart(480, 296, &h, None, None));
    assert_eq!(g.date_labels.len(), 8);
    assert_eq!(g.date_labels[1].x, g.points[2].x);
    assert_eq!(g.date_labels[7].x, g.points[14].x);
    let h: Vec<ValueHistoryPoint> = (0..17).map(|i| point("x", (i + 1) * U)).collect();
    let g = plot(build_chart(480, 296, &h, None, None));
    assert_eq!(g.date_labels.len(), 9);
    assert_eq!(g.date_labels[8].text, "x");
    let h: Vec<ValueHistoryPoint> = (0..7).map(|i| point("x", (i + 1) * U)).collect();
    let g = plot(build_chart(480, 296, &h, None, None));
    assert_eq!(g.date_labels.len(), 7);
}

#[test]
fn chart_is_reproducible() {
    let r = reference(Some(3 * U), Some(6 * U), None, Some(9 * U));
    let h = vec![point("2024-01-01", 4 * U), point("2024-02-01", 7 * U), point("2024-03-01", 5 * U)];
    let a = plot(build_chart(640, 300, &h, Some(&r), Some("male")));
    let b = plot(build_chart(640, 300, &h, Some(&r), Some("male")));
    assert_eq!(a.domain, b.domain);
    assert_eq!(a.points, b.points);
    assert_eq!(a.band, b.band);
    assert_eq!(a.critical_high, b.critical_high);
    let la: Vec<(i128, String)> = a.grid.iter().map(|l| (l.y, l.label.clone())).collect();
    let lb: Vec<(i128, String)> = b.grid.iter().map(|l| (l.y, l.label.clone())).collect();
    assert_eq!(la, lb);
    let da: Vec<(i128, String)> = a.date_labels.iter().map(|l| (l.x, l.text.clone())).collect();
    let db: Vec<(i128, String)> = b.date_labels.iter().map(|l| (l.x, l.text.clone())).collect();
    assert_eq!(da, db);
}

#[test]
fn axis_labels_by_magnitude() {
    assert_eq!(format_axis_val(123_400_000), "123");
    assert_eq!(format_axis_val(100_000_000), "100");
    assert_eq!(format_axis_val(12_340_000), "12.3");
    assert_eq!(format_axis_val(1_234_000), "1.23");
    assert_eq!(format_axis_val(-500_000), "-0.50");
    assert_eq!(format_axis_val(0), "0.00");
    assert_eq!(format_axis_val(-150_600_000), "-151");
}

#[test]
fn axis_labels_round_half_to_even() {
    assert_eq!(format_axis_val(125_000), "0.12");
    assert_eq!(format_axis_val(135_000), "0.14");
    assert_eq!(format_axis_val(99_995_000), "100.0");
    assert_eq!(format_axis_val(100_500_000), "100");
    assert_eq!(format_axis_val(101_500_000), "102");
}

#[test]
fn extreme_values_and_canvas() {
    let h = vec![point("2024-01-01", i64::MIN), point("2024-02-01", i64::MAX)];
    let g = plot(build_chart(i32::MAX, i32::MAX, &h, None, None));
    let pad: i128 = (u64::MAX as i128) * 15 / 100;
    assert_eq!(g.domain, Domain { lo: i64::MIN as i128 - pad, hi: i64::MAX as i128 + pad });
    let bottom = (16 + g.plot_height as i128) * 1000;
    for p in &g.points {
        assert!(16_000 <= p.y && p.y <= bottom);
        assert!(60_000 <= p.x && p.x <= (60 + g.plot_width as i128) * 1000);
    }
    assert!(g.points[0].y > g.points[1].y);
    assert_eq!(g.grid[5].y, 16_000);
    assert_eq!(g.grid[0].y, bottom);
}

#[test]
fn threshold_outside_the_data_side() {
    // a critical-low threshold above all data lies above the plot
    let r = reference(None, None, Some(5 * U), None);
    let h = vec![point("2024-01-01", U)];
    let g = plot(build_chart(480, 296, &h, Some(&r), None));
    assert_eq!(g.domain, Domain { lo: 0, hi: 2 * U as i128 });
    assert!(g.critical_low.expect("line") < 16_000);
    assert_eq!(g.points[0].status, ValueStatus::CriticalLow);
}

#[test]
fn grid_lines_evenly_spaced() {
    let h = vec![point("2024-03-01", 4 * U), point("2024-04-15", 5 * U + 3)];
    let g = plot(build_chart(480, 297, &h, None, None));
    assert_eq!(g.plot_height, 241);
    let ys: Vec<i128> = g.grid.iter().map(|l| l.y).collect();
    assert_eq!(ys, vec![257_000, 208_800, 160_600, 112_400, 64_200, 16_000]);
    assert_eq!(g.grid[0].value, g.domain.lo);
    assert_eq!(g.grid[5].value, g.domain.hi);
}
