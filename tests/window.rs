use blutwerte::history::{newest_first, str_before};
use blutwerte::timefilter::{filter_history, filter_history_at, point_in_window, TimeRange};
use blutwerte::types::ValueHistoryPoint;

fn point(date: &str, value: i64) -> ValueHistoryPoint {
    ValueHistoryPoint { date: date.to_string(), value, unit: "u".to_string(), entry_id: "e".to_string() }
}

fn dates(h: &[ValueHistoryPoint]) -> Vec<&str> {
    h.iter().map(|p| p.date.as_str()).collect()
}

#[test]
fn all_keeps_everything_in_order() {
    let h = vec![point("2001-01-01", 3), point("kaputt", 1), point("2030-12-31", 2)];
    let r = filter_history(&h, TimeRange::All, 2024, 3);
    assert_eq!(dates(&r), vec!["2001-01-01", "kaputt", "2030-12-31"]);
    let vals: Vec<i64> = r.iter().map(|p| p.value).collect();
    assert_eq!(vals, vec![3, 1, 2]);
}

#[test]
fn six_months_by_calendar_month() {
    let h = vec![
        point("2023-08-31", 1),
        point("2023-09-01", 2),
        point("2023-10-15", 3),
        point("2024-03-01", 4),
        point("not a date", 5),
        point("2024-02-30", 6),
    ];
    let r = filter_history_at(&h, 6, 2024, 3);
    assert_eq!(dates(&r), vec!["2023-09-01", "2023-10-15", "2024-03-01", "not a date", "2024-02-30"]);
    let r = filter_history_at(&h, 12, 2024, 3);
    assert_eq!(r.len(), 6);
}

#[test]
fn window_membership() {
    assert!(point_in_window(Some((2023, 9, 1)), 6, 2024, 3));
    assert!(!point_in_window(Some((2023, 8, 31)), 6, 2024, 3));
    assert!(point_in_window(None, 6, 2024, 3));
    assert!(point_in_window(Some((2030, 1, 1)), 6, 2024, 3));
    assert!(point_in_window(Some((2021, 3, 9)), 36, 2024, 3));
    assert!(!point_in_window(Some((2021, 2, 9)), 36, 2024, 3));
}

#[test]
fn bounded_ranges_by_month_count() {
    let h = vec![
        point("1990-01-01", 1),
        point("2021-03-31", 2),
        point("2023-03-01", 3),
        point("2023-09-30", 4),
        point("2999-01-01", 5),
        point("??", 6),
    ];
    let kept = |range| dates(&filter_history(&h, range, 2024, 3)).iter().map(|d| d.to_string()).collect::<Vec<String>>();
    assert_eq!(kept(TimeRange::SixMonths), vec!["2023-09-30", "2999-01-01", "??"]);
    assert_eq!(kept(TimeRange::OneYear), vec!["2023-03-01", "2023-09-30", "2999-01-01", "??"]);
    assert_eq!(kept(TimeRange::ThreeYears), vec!["2021-03-31", "2023-03-01", "2023-09-30", "2999-01-01", "??"]);
    assert_eq!(kept(TimeRange::All).len(), 6);
}

#[test]
fn range_months_and_labels() {
    assert_eq!(TimeRange::SixMonths.months(), Some(6));
    assert_eq!(TimeRange::OneYear.months(), Some(12));
    assert_eq!(TimeRange::ThreeYears.months(), Some(36));
    assert_eq!(TimeRange::All.months(), None);
    assert_eq!(TimeRange::SixMonths.label(), "6 Monate");
    assert_eq!(TimeRange::OneYear.label(), "1 Jahr");
    assert_eq!(TimeRange::ThreeYears.label(), "3 Jahre");
    assert_eq!(TimeRange::All.label(), "Alle");
}

#[test]
fn table_order_newest_first_stable() {
    let h = vec![
        point("2023-05-01", 1),
        point("2024-01-10", 2),
        point("2023-05-01", 3),
        point("2023-12-31", 4),
        point("2024-01-10", 5),
    ];
    let r = newest_first(&h);
    let got: Vec<(&str, i64)> = r.iter().map(|p| (p.date.as_str(), p.value)).collect();
    assert_eq!(
        got,
        vec![("2024-01-10", 2), ("2024-01-10", 5), ("2023-12-31", 4), ("2023-05-01", 1), ("2023-05-01", 3)]
    );
    assert!(newest_first(&[]).is_empty());
}

#[test]
fn text_order_is_lexicographic() {
    assert!(str_before("2023-12-31", "2024-01-01"));
    assert!(!str_before("2024-01-01", "2023-12-31"));
    assert!(!str_before("abc", "abc"));
    assert!(str_before("ab", "abc"));
    assert!(!str_before("abc", "ab"));
    assert!(str_before("", "a"));
    assert!(str_before("Z", "a"));
}
