use blutwerte::latest::{collect_history_for, collect_latest_values, group_by_category};
use blutwerte::summary::{compute_summary_counts, critical_names, find_reference};
use blutwerte::types::{BloodEntry, BloodValue, ReferenceValue, UserData};

const U: i64 = 1_000_000;

fn reference(name: &str, aliases: &[&str], min: Option<i64>, max: Option<i64>) -> ReferenceValue {
    ReferenceValue {
        id: name.to_lowercase(),
        name: name.to_string(),
        short_name: None,
        long_name: None,
        aliases: aliases.iter().map(|a| a.to_string()).collect(),
        category: "Blut".to_string(),
        unit: "u".to_string(),
        ref_min: min,
        ref_max: max,
        ref_min_female: None,
        ref_max_female: None,
        ref_min_male: None,
        ref_max_male: None,
        optimal_min: None,
        optimal_max: None,
        critical_low: None,
        critical_high: None,
        description: String::new(),
        high_info: String::new(),
        low_info: String::new(),
        recommendations: String::new(),
    }
}

fn value(name: &str, v: i64, category: &str) -> BloodValue {
    BloodValue {
        name: name.to_string(),
        value: v,
        unit: "u".to_string(),
        category: category.to_string(),
        short_name: None,
        long_name: None,
    }
}

fn entry(id: &str, date: &str, values: Vec<BloodValue>) -> BloodEntry {
    BloodEntry { id: id.to_string(), date: date.to_string(), lab_name: None, notes: None, values }
}

fn user(entries: Vec<BloodEntry>) -> UserData {
    UserData {
        user_id: "u1".to_string(),
        display_name: "Test".to_string(),
        email: "t@example.org".to_string(),
        gender: None,
        entries,
    }
}

fn reference_db() -> Vec<ReferenceValue> {
    let mut crit = reference("Natrium", &["Na"], Some(135 * U), Some(145 * U));
    crit.critical_high = Some(160 * U);
    vec![
        reference("Kalium", &["K"], Some(3 * U + 500_000), Some(5 * U + 500_000)),
        crit,
        reference("Ferritin", &[], None, None),
        reference("Glucose", &["Blutzucker"], Some(70 * U), Some(100 * U)),
    ]
}

#[test]
fn summary_counts_fold_unknown_into_normal() {
    let db = reference_db();
    let latest = vec![
        value("Kalium", 4 * U + 500_000, "E"),
        value("Kalium", 3 * U + 600_000, "E"),
        value("Natrium", 170 * U, "E"),
        value("Ferritin", 50 * U, "E"),
        value("Glucose", 130 * U, "S"),
    ];
    let c = compute_summary_counts(&latest, &db, None);
    assert_eq!(c.normal, 2);
    assert_eq!(c.warning, 1);
    assert_eq!(c.abnormal, 1);
    assert_eq!(c.critical, 1);
    assert_eq!(c.total, 5);
}

#[test]
fn summary_counts_unresolved_is_normal() {
    let db = reference_db();
    let latest = vec![value("Unbekanntwert", 1, "X"), value("Kalium", 9 * U, "E")];
    let c = compute_summary_counts(&latest, &db, None);
    assert_eq!((c.normal, c.warning, c.abnormal, c.critical, c.total), (1, 0, 1, 0, 2));
    let empty = compute_summary_counts(&[], &db, None);
    assert_eq!((empty.normal, empty.warning, empty.abnormal, empty.critical, empty.total), (0, 0, 0, 0, 0));
}

#[test]
fn find_reference_by_name_or_alias_ignoring_case() {
    let db = reference_db();
    assert_eq!(find_reference(&db, "kalium").map(|r| r.id.as_str()), Some("kalium"));
    assert_eq!(find_reference(&db, "NA").map(|r| r.id.as_str()), Some("natrium"));
    assert_eq!(find_reference(&db, "blutzucker").map(|r| r.id.as_str()), Some("glucose"));
    assert!(find_reference(&db, "Kaliu").is_none());
    assert!(find_reference(&[], "Kalium").is_none());
}

#[test]
fn find_reference_returns_first_match() {
    let db = vec![reference("A", &["x"], None, None), reference("B", &["X"], None, None)];
    assert_eq!(find_reference(&db, "x").map(|r| r.name.as_str()), Some("A"));
    assert_eq!(find_reference(&db, "b").map(|r| r.name.as_str()), Some("B"));
}

#[test]
fn latest_values_last_wins_first_order() {
    let data = user(vec![
        entry("e1", "2024-01-01", vec![value("Kalium", 4 * U, "E"), value("Natrium", 140 * U, "E")]),
        entry("e2", "2024-02-01", vec![value("Ferritin", 30 * U, "F"), value("Kalium", 5 * U, "E")]),
        entry("e3", "2024-03-01", vec![value("Natrium", 150 * U, "E")]),
    ]);
    let latest = collect_latest_values(&data);
    let got: Vec<(&str, i64)> = latest.iter().map(|v| (v.name.as_str(), v.value)).collect();
    assert_eq!(got, vec![("Kalium", 5 * U), ("Natrium", 150 * U), ("Ferritin", 30 * U)]);
    assert!(collect_latest_values(&user(vec![])).is_empty());
}

#[test]
fn history_for_one_analyte() {
    let data = user(vec![
        entry("e1", "2024-01-01", vec![value("Kalium", 4 * U, "E")]),
        entry("e2", "2024-02-01", vec![value("Natrium", 140 * U, "E")]),
        entry("e3", "2024-03-01", vec![value("Kalium", 5 * U, "E"), value("Kalium", 6 * U, "E")]),
    ]);
    let h = collect_history_for(&data, "Kalium");
    assert_eq!(h.len(), 2);
    assert_eq!((h[0].date.as_str(), h[0].value, h[0].entry_id.as_str()), ("2024-01-01", 4 * U, "e1"));
    assert_eq!((h[1].date.as_str(), h[1].value, h[1].entry_id.as_str()), ("2024-03-01", 5 * U, "e3"));
    assert!(collect_history_for(&data, "kalium").is_empty());
}

#[test]
fn categories_in_first_appearance_order() {
    let values = vec![value("a", 1, "E"), value("b", 1, "F"), value("c", 1, "E"), value("d", 1, "G")];
    let groups = group_by_category(&values);
    let got: Vec<(&str, Vec<usize>)> = groups.iter().map(|g| (g.category.as_str(), g.members.clone())).collect();
    assert_eq!(got, vec![("E", vec![0, 2]), ("F", vec![1]), ("G", vec![3])]);
}

#[test]
fn critical_names_for_banner() {
    let db = reference_db();
    let latest = vec![value("Natrium", 165 * U, "E"), value("Kalium", 9 * U, "E"), value("na", 161 * U, "E")];
    assert_eq!(critical_names(&latest, &db, None), vec!["Natrium".to_string(), "na".to_string()]);
    assert!(critical_names(&latest[1..2], &db, None).is_empty());
}
