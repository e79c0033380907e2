use blutwerte::api::{api_url, auth_header, history_path};
use blutwerte::config::Config;
use blutwerte::display::{format_value, format_value_unit};
use blutwerte::markup::{format_clock, format_time, regex_replace_bold};
use blutwerte::text::{eq_ignore_ascii_case, format_date, format_date_short, str_eq};

#[test]
fn short_and_long_dates() {
    assert_eq!(format_date_short("2024-03-15"), "15.03");
    assert_eq!(format_date("2024-03-15"), "15.03.2024");
    assert_eq!(format_date_short("2024-03"), "2024-03");
    assert_eq!(format_date("15.03.2024"), "15.03.2024");
    assert_eq!(format_date_short("a-b-c-d"), "a-b-c-d");
    assert_eq!(format_date_short("--"), ".");
    assert_eq!(format_date(""), "");
}

#[test]
fn value_texts() {
    assert_eq!(format_value(5_000_000), "5");
    assert_eq!(format_value(4_500_000), "4.5");
    assert_eq!(format_value(4_250_000), "4.25");
    assert_eq!(format_value(4_001_000), "4");
    assert_eq!(format_value(-3_000_000), "-3");
    assert_eq!(format_value(-1_500_000), "-1.5");
    assert_eq!(format_value(0), "0");
    assert_eq!(format_value(1_234_567), "1.23");
    assert_eq!(format_value_unit(4_500_000, "mmol/l"), "4.5 mmol/l");
}

#[test]
fn bold_markup() {
    assert_eq!(regex_replace_bold("a **b** c"), "a <b>b</b> c");
    assert_eq!(regex_replace_bold("**open"), "<b>open</b>");
    assert_eq!(regex_replace_bold("2 * 3"), "2 * 3");
    assert_eq!(regex_replace_bold("***"), "<b>*</b>");
    assert_eq!(regex_replace_bold(""), "");
}

#[test]
fn clock_times() {
    assert_eq!(format_time("2024-03-15T14:05:09+01:00"), "14:05");
    assert_eq!(format_time("2024-03-15T07:30:00Z"), "07:30");
    assert_eq!(format_time("gestern"), "gestern");
    assert_eq!(format_clock(Some((9, 3)), "x"), "09:03");
    assert_eq!(format_clock(None, "x"), "x");
}

#[test]
fn api_paths() {
    assert_eq!(api_url("https://lab.example.org//", "/api/auth/me"), "https://lab.example.org/api/auth/me");
    assert_eq!(api_url("http://h", "/api/reference"), "http://h/api/reference");
    assert_eq!(auth_header("abc"), "Bearer abc");
    assert_eq!(history_path("Vitamin D"), "/api/bloodvalues/history/Vitamin%20D");
    assert_eq!(history_path("Eisen/Fe"), "/api/bloodvalues/history/Eisen%2FFe");
    assert_eq!(history_path("Größe"), "/api/bloodvalues/history/Gr%C3%B6%C3%9Fe");
    assert_eq!(history_path("a-b_c.d~e"), "/api/bloodvalues/history/a-b_c.d~e");
}

#[test]
fn configured_needs_url_and_token() {
    assert!(!Config::default().is_configured());
    let c = Config { server_url: "https://x".to_string(), api_token: String::new() };
    assert!(!c.is_configured());
    let c = Config { server_url: "https://x".to_string(), api_token: "t".to_string() };
    assert!(c.is_configured());
}

#[test]
fn string_equality_helpers() {
    assert!(str_eq("abc", "abc"));
    assert!(!str_eq("abc", "abd"));
    assert!(!str_eq("abc", "ab"));
    assert!(eq_ignore_ascii_case("KaLium", "kalium"));
    assert!(!eq_ignore_ascii_case("Größe", "GRÖSSE"));
    assert!(!eq_ignore_ascii_case("ä", "Ä"));
}

#[test]
fn value_text_extremes() {
    assert_eq!(format_value(i64::MIN), "-9223372036854.78");
    assert_eq!(format_value(i64::MAX), "9223372036854.78");
    assert_eq!(format_value(-1), "-0");
    assert_eq!(format_value(-9_000_000_000_000_000_000 + 0), "-9000000000000");
}
