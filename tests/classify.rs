use blutwerte::status::{get_effective_range, get_value_status, Rgb, ValueStatus};
use blutwerte::trend::{get_trend, Trend};
use blutwerte::types::{ReferenceValue, ValueHistoryPoint};

fn units(whole: i64, millionths: i64) -> i64 {
    whole * 1_000_000 + millionths
}

fn reference(min: Option<i64>, max: Option<i64>) -> ReferenceValue {
    ReferenceValue {
        id: "k".to_string(),
        name: "Kalium".to_string(),
        short_name: None,
        long_name: None,
        aliases: vec!["K".to_string(), "Potassium".to_string()],
        category: "Elektrolyte".to_string(),
        unit: "mmol/l".to_string(),
        ref_min: min,
        ref_max: max,
        ref_min_female: None,
        ref_max_female: None,
        ref_min_male: None,
        ref_max_male: None,
        optimal_min: None,
        optimal_max: None,
        critical_low: None,
        critical_high: None,
        description: String::new(),
        high_info: String::new(),
        low_info: String::new(),
        recommendations: String::new(),
    }
}

fn point(date: &str, value: i64) -> ValueHistoryPoint {
    ValueHistoryPoint { date: date.to_string(), value, unit: "mmol/l".to_string(), entry_id: "e".to_string() }
}

fn series(values: &[i64]) -> Vec<ValueHistoryPoint> {
    values.iter().map(|v| point("2024-01-01", *v)).collect()
}

#[test]
fn warning_buffer_inside_range() {
    let r = reference(Some(units(3, 500_000)), Some(units(5, 500_000)));
    assert_eq!(get_value_status(units(3, 600_000), &r, None), ValueStatus::Warning);
    assert_eq!(get_value_status(units(4, 500_000), &r, None), ValueStatus::Normal);
    assert_eq!(get_value_status(units(3, 400_000), &r, None), ValueStatus::Low);
    assert_eq!(get_value_status(units(5, 600_000), &r, None), ValueStatus::High);
    assert_eq!(get_value_status(units(5, 400_000), &r, None), ValueStatus::Warning);
}

#[test]
fn warning_buffer_edges_are_exact() {
    let r = reference(Some(units(3, 500_000)), Some(units(5, 500_000)));
    // min + buffer = 3.7 and max - buffer = 5.3 are not in the warning zone
    assert_eq!(get_value_status(units(3, 700_000), &r, None), ValueStatus::Normal);
    assert_eq!(get_value_status(units(5, 300_000), &r, None), ValueStatus::Normal);
    assert_eq!(get_value_status(units(3, 699_999), &r, None), ValueStatus::Warning);
    assert_eq!(get_value_status(units(3, 500_000), &r, None), ValueStatus::Warning);
    assert_eq!(get_value_status(units(5, 500_000), &r, None), ValueStatus::Warning);
}

#[test]
fn critical_thresholds_override_range() {
    let mut r = reference(Some(units(3, 500_000)), Some(units(5, 500_000)));
    r.critical_low = Some(units(2, 0));
    r.critical_high = Some(units(7, 0));
    assert_eq!(get_value_status(units(1, 900_000), &r, None), ValueStatus::CriticalLow);
    assert_eq!(get_value_status(units(7, 200_000), &r, None), ValueStatus::CriticalHigh);
    assert_eq!(get_value_status(units(2, 0), &r, None), ValueStatus::CriticalLow);
    assert_eq!(get_value_status(units(7, 0), &r, None), ValueStatus::CriticalHigh);
    assert_eq!(get_value_status(units(2, 100_000), &r, None), ValueStatus::Low);
    assert_eq!(get_value_status(units(6, 0), &r, None), ValueStatus::High);
}

#[test]
fn critical_without_range() {
    let mut r = reference(None, None);
    r.critical_high = Some(units(10, 0));
    assert_eq!(get_value_status(units(11, 0), &r, None), ValueStatus::CriticalHigh);
    assert_eq!(get_value_status(units(9, 0), &r, None), ValueStatus::Unknown);
}

#[test]
fn gender_overlay_partial() {
    let mut r = reference(Some(units(3, 500_000)), Some(units(5, 500_000)));
    r.ref_min_female = Some(units(3, 0));
    assert_eq!(get_effective_range(&r, Some("female")), (Some(units(3, 0)), Some(units(5, 500_000))));
    assert_eq!(get_effective_range(&r, Some("male")), (Some(units(3, 500_000)), Some(units(5, 500_000))));
    assert_eq!(get_effective_range(&r, None), (Some(units(3, 500_000)), Some(units(5, 500_000))));
    assert_eq!(get_effective_range(&r, Some("Female")), (Some(units(3, 500_000)), Some(units(5, 500_000))));
    // 3.2 is low for the base range, inside the female range's warning zone
    assert_eq!(get_value_status(units(3, 200_000), &r, Some("female")), ValueStatus::Warning);
    assert_eq!(get_value_status(units(3, 200_000), &r, None), ValueStatus::Low);
}

#[test]
fn gender_overlay_male_max() {
    let mut r = reference(Some(units(10, 0)), Some(units(20, 0)));
    r.ref_max_male = Some(units(25, 0));
    r.ref_min_female = Some(units(8, 0));
    assert_eq!(get_effective_range(&r, Some("male")), (Some(units(10, 0)), Some(units(25, 0))));
    assert_eq!(get_effective_range(&r, Some("female")), (Some(units(8, 0)), Some(units(20, 0))));
    assert_eq!(get_value_status(units(22, 0), &r, Some("male")), ValueStatus::Normal);
    assert_eq!(get_value_status(units(22, 0), &r, Some("female")), ValueStatus::High);
}

#[test]
fn one_sided_and_missing_bounds() {
    let only_min = reference(Some(units(1, 0)), None);
    assert_eq!(get_value_status(units(0, 500_000), &only_min, None), ValueStatus::Low);
    assert_eq!(get_value_status(units(1, 0), &only_min, None), ValueStatus::Normal);
    assert_eq!(get_value_status(units(1000, 0), &only_min, None), ValueStatus::Normal);
    let only_max = reference(None, Some(units(5, 0)));
    assert_eq!(get_value_status(units(5, 1), &only_max, None), ValueStatus::High);
    assert_eq!(get_value_status(units(-3, 0), &only_max, None), ValueStatus::Normal);
    let none = reference(None, None);
    assert_eq!(get_value_status(units(4, 0), &none, None), ValueStatus::Unknown);
}

#[test]
fn status_labels_and_colors() {
    assert_eq!(ValueStatus::Normal.label(), "Normal");
    assert_eq!(ValueStatus::Warning.label(), "Grenzwertig");
    assert_eq!(ValueStatus::High.label(), "Erhöht");
    assert_eq!(ValueStatus::Low.label(), "Erniedrigt");
    assert_eq!(ValueStatus::CriticalHigh.label(), "Kritisch hoch");
    assert_eq!(ValueStatus::CriticalLow.label(), "Kritisch niedrig");
    assert_eq!(ValueStatus::Unknown.label(), "Unbekannt");
    assert_eq!(ValueStatus::Normal.color(), Rgb { r: 133, g: 773, b: 369 });
    assert_eq!(ValueStatus::Warning.color(), Rgb { r: 961, g: 620, b: 43 });
    assert_eq!(ValueStatus::High.color(), Rgb { r: 937, g: 267, b: 267 });
    assert_eq!(ValueStatus::Low.color(), Rgb { r: 937, g: 267, b: 267 });
    assert_eq!(ValueStatus::CriticalHigh.color(), Rgb { r: 498, g: 110, b: 110 });
    assert_eq!(ValueStatus::CriticalLow.color(), Rgb { r: 498, g: 110, b: 110 });
    assert_eq!(ValueStatus::Unknown.color(), Rgb { r: 612, g: 639, b: 659 });
    let c = ValueStatus::Normal.color();
    assert_eq!(c.r as f64 / 1000.0, 0.133);
    assert_eq!(c.g as f64 / 1000.0, 0.773);
    assert_eq!(c.b as f64 / 1000.0, 0.369);
}

#[test]
fn trend_examples() {
    assert_eq!(get_trend(&series(&[units(10, 0), units(10, 0)])), Some(Trend::Stable));
    assert_eq!(get_trend(&series(&[units(10, 0)])), None);
    assert_eq!(get_trend(&series(&[])), None);
    assert_eq!(get_trend(&series(&[units(100, 0), units(94, 0)])), Some(Trend::Down));
    assert_eq!(get_trend(&series(&[units(100, 0), units(97, 0)])), Some(Trend::Stable));
    assert_eq!(get_trend(&series(&[units(100, 0), units(106, 0)])), Some(Trend::Up));
}

#[test]
fn trend_uses_last_two_points_only() {
    assert_eq!(get_trend(&series(&[units(1, 0), units(100, 0), units(104, 0)])), Some(Trend::Stable));
    assert_eq!(get_trend(&series(&[units(200, 0), units(100, 0), units(110, 0)])), Some(Trend::Up));
}

#[test]
fn trend_edges() {
    assert_eq!(get_trend(&series(&[0, units(5, 0)])), None);
    // exactly 5 % is not stable
    assert_eq!(get_trend(&series(&[units(100, 0), units(105, 0)])), Some(Trend::Up));
    assert_eq!(get_trend(&series(&[units(100, 0), units(95, 0)])), Some(Trend::Down));
    // negative previous value: the change is measured against |prev|
    assert_eq!(get_trend(&series(&[units(-10, 0), units(-5, 0)])), Some(Trend::Up));
    assert_eq!(get_trend(&series(&[units(-10, 0), units(-10, 400_000)])), Some(Trend::Stable));
}

#[test]
fn trend_icons() {
    assert_eq!(Trend::Up.icon_name(), "go-up-symbolic");
    assert_eq!(Trend::Down.icon_name(), "go-down-symbolic");
    assert_eq!(Trend::Stable.icon_name(), "go-next-symbolic");
}
