use price_loom::date::{parse_iso_date, parse_trade_date, Date};

fn date(y: i32, m: u32, d: u32) -> Date {
    Date::from_ymd_opt(y, m, d).unwrap()
}

#[test]
fn from_ymd_opt_accepts_calendar_days() {
    let d = date(2024, 2, 29);
    assert_eq!((d.year(), d.month(), d.day()), (2024, 2, 29));
    assert!(Date::from_ymd_opt(2023, 2, 29).is_none());
    assert!(Date::from_ymd_opt(1900, 2, 29).is_none());
    assert!(Date::from_ymd_opt(2000, 2, 29).is_some());
    assert!(Date::from_ymd_opt(2024, 4, 31).is_none());
    assert!(Date::from_ymd_opt(2024, 13, 1).is_none());
    assert!(Date::from_ymd_opt(2024, 0, 1).is_none());
    assert!(Date::from_ymd_opt(2024, 1, 0).is_none());
    assert!(Date::from_ymd_opt(262142, 12, 31).is_some());
    assert!(Date::from_ymd_opt(262143, 1, 1).is_none());
    assert!(Date::from_ymd_opt(-262143, 1, 1).is_some());
    assert!(Date::from_ymd_opt(-262144, 1, 1).is_none());
}

#[test]
fn from_ymd_opt_agrees_with_chrono() {
    for y in [-400, -1, 0, 1, 1900, 1999, 2000, 2023, 2024, 2100, 9999, 10000] {
        for m in 0..=13u32 {
            for d in 0..=32u32 {
                let ours = Date::from_ymd_opt(y, m, d).is_some();
                let theirs = chrono::NaiveDate::from_ymd_opt(y, m, d).is_some();
                assert_eq!(ours, theirs, "{y}-{m}-{d}");
            }
        }
    }
}

#[test]
fn is_after_orders_by_calendar() {
    let cutoff = date(2024, 6, 1);
    assert!(date(2024, 6, 2).is_after(&cutoff));
    assert!(!date(2024, 6, 1).is_after(&cutoff));
    assert!(!date(2024, 5, 31).is_after(&cutoff));
    assert!(date(2025, 1, 1).is_after(&cutoff));
    assert!(!date(2023, 12, 31).is_after(&cutoff));
}

#[test]
fn formats_match_chrono() {
    for (y, m, d) in [(2024, 6, 3), (1999, 12, 31), (5, 1, 9), (0, 7, 4), (-1, 3, 15), (-12345, 2, 1), (12345, 10, 10), (262142, 12, 31)] {
        let ours = date(y, m, d);
        let theirs = chrono::NaiveDate::from_ymd_opt(y, m, d).unwrap();
        assert_eq!(ours.format_compact(), theirs.format("%Y%m%d").to_string());
        assert_eq!(ours.format_iso(), theirs.to_string());
        assert_eq!(ours.format_year(), theirs.format("%Y").to_string());
        assert_eq!(ours.format_dashed_day_month_year(), theirs.format("%d-%b-%Y").to_string());
        assert_eq!(ours.format_upper_day_month_year(), theirs.format("%d%b%Y").to_string().to_uppercase());
    }
}

#[test]
fn formats_give_exact_text() {
    let d = date(2024, 6, 3);
    assert_eq!(d.format_compact(), "20240603");
    assert_eq!(d.format_iso(), "2024-06-03");
    assert_eq!(d.format_dashed_day_month_year(), "03-Jun-2024");
    assert_eq!(d.format_upper_day_month_year(), "03JUN2024");
    assert_eq!(date(-5, 1, 1).format_year(), "-0005");
    assert_eq!(date(10000, 1, 1).format_year(), "+10000");
}

#[test]
fn parses_trade_and_iso_dates() {
    let d = parse_trade_date("03-Jun-2024").unwrap();
    assert_eq!((d.year(), d.month(), d.day()), (2024, 6, 3));
    let d = parse_trade_date("03-JUN-2024").unwrap();
    assert_eq!((d.year(), d.month(), d.day()), (2024, 6, 3));
    assert!(parse_trade_date("2024-06-03").is_none());
    assert!(parse_trade_date("31-Feb-2024").is_none());
    let d = parse_iso_date("2024-06-03").unwrap();
    assert_eq!((d.year(), d.month(), d.day()), (2024, 6, 3));
    assert!(parse_iso_date("03-Jun-2024").is_none());
    assert!(parse_iso_date("").is_none());
}

#[test]
fn iso_text_reads_back_as_the_same_day() {
    for (y, m, d) in [(2024, 6, 3), (1, 1, 1), (0, 2, 29), (-1, 12, 31), (9999, 12, 31), (10000, 1, 1), (-262143, 1, 1), (262142, 12, 31)] {
        let day = Date::from_ymd_opt(y, m, d).unwrap();
        let text = day.format_iso();
        assert_eq!(parse_iso_date(text.as_str()), Some(day), "{}", text);
    }
}
