use chrono::NaiveDate;
use quote_history::decimal::append_decimal;
use quote_history::{history_url, request_span, url_for_span, CalendarDate, Error, Interval};

fn date(year: i32, month: u32, day: u32) -> CalendarDate {
    CalendarDate { year, month, day }
}

fn decimal(n: i64) -> String {
    let mut out = String::new();
    append_decimal(&mut out, n);
    out
}

fn period2_of(url: &str) -> String {
    let start = url.find("&period2=").unwrap() + "&period2=".len();
    let rest = &url[start..];
    let end = rest.find('&').unwrap();
    rest[..end].to_string()
}

#[test]
fn interval_codes() {
    assert_eq!(Interval::D1.to_string(), "1d");
    assert_eq!(Interval::D5.to_string(), "5d");
    assert_eq!(Interval::W1.to_string(), "1w");
    assert_eq!(Interval::M1.to_string(), "1m");
    assert_eq!(Interval::M3.to_string(), "3m");
    assert_eq!(Interval::D1.as_str(), "1d");
    assert_eq!(Interval::M3.as_str(), "3m");
}

#[test]
fn decimal_of_small_and_large_numbers() {
    assert_eq!(decimal(0), "0");
    assert_eq!(decimal(7), "7");
    assert_eq!(decimal(10), "10");
    assert_eq!(decimal(1580515200), "1580515200");
    assert_eq!(decimal(-1), "-1");
    assert_eq!(decimal(-86400), "-86400");
    assert_eq!(decimal(i64::MAX), "9223372036854775807");
    assert_eq!(decimal(i64::MIN), "-9223372036854775808");
}

#[test]
fn decimal_is_appended_to_what_is_there() {
    let mut out = String::from("n=");
    append_decimal(&mut out, -305);
    append_decimal(&mut out, 40);
    assert_eq!(out, "n=-30540");
}

#[test]
fn decimal_agrees_with_std() {
    let mut n: i64 = -1_000_000_007;
    while n < 1_000_000_007 {
        assert_eq!(decimal(n), format!("{}", n));
        n += 7_919_113;
    }
}

#[test]
fn aapl_january_2020() {
    let url = history_url("AAPL", date(2020, 1, 1), date(2020, 1, 31), Interval::D1).unwrap();
    assert_eq!(
        url,
        "https://query1.finance.yahoo.com/v7/finance/download/AAPL?period1=1577836800&period2=1580515200&interval=1d&events=history&includeAdjustedClose=true"
    );
}

#[test]
fn period2_is_the_midnight_after_the_last_day() {
    let url = history_url("AAPL", date(2020, 1, 1), date(2020, 1, 31), Interval::D1).unwrap();
    let midnight = NaiveDate::from_ymd_opt(2020, 2, 1)
        .unwrap()
        .and_hms_opt(0, 0, 0)
        .unwrap()
        .and_utc()
        .timestamp();
    assert_eq!(midnight, 1580515200);
    assert_eq!(period2_of(&url), format!("{}", midnight));
}

#[test]
fn ticker_is_not_escaped() {
    let url = url_for_span("A B&C?/", 0, 86400, &Interval::W1);
    assert_eq!(
        url,
        "https://query1.finance.yahoo.com/v7/finance/download/A B&C?/?period1=0&period2=86400&interval=1w&events=history&includeAdjustedClose=true"
    );
}

#[test]
fn url_before_the_epoch_has_negative_periods() {
    let url = history_url("^GSPC", date(1969, 12, 30), date(1969, 12, 30), Interval::M3).unwrap();
    assert_eq!(
        url,
        "https://query1.finance.yahoo.com/v7/finance/download/^GSPC?period1=-172800&period2=-86400&interval=3m&events=history&includeAdjustedClose=true"
    );
}

#[test]
fn span_of_one_day() {
    assert_eq!(request_span(date(1970, 1, 1), date(1970, 1, 1)), Some((0, 86400)));
    assert_eq!(request_span(date(1970, 1, 2), date(1970, 1, 1)), Some((86400, 86400)));
}

#[test]
fn span_crosses_month_and_year_ends() {
    assert_eq!(request_span(date(2020, 1, 1), date(2020, 1, 31)), Some((1577836800, 1580515200)));
    assert_eq!(request_span(date(2020, 2, 28), date(2020, 2, 28)), Some((1582848000, 1582934400)));
    assert_eq!(request_span(date(2020, 2, 29), date(2020, 2, 29)), Some((1582934400, 1583020800)));
    assert_eq!(request_span(date(2019, 12, 31), date(2019, 12, 31)), Some((1577750400, 1577836800)));
    assert_eq!(request_span(date(1900, 2, 28), date(1900, 2, 28)), Some((-2203977600, -2203891200)));
}

#[test]
fn span_at_the_ends_of_the_range() {
    assert_eq!(
        request_span(date(-262143, 1, 1), date(262142, 12, 30)),
        Some((-8334601228800, 8210266790400))
    );
    assert_eq!(request_span(date(262142, 12, 31), date(262142, 12, 30)), Some((8210266790400, 8210266790400)));
    assert_eq!(request_span(date(2020, 1, 1), date(262142, 12, 31)), None);
    assert_eq!(request_span(date(-262144, 12, 31), date(2020, 1, 1)), None);
    assert_eq!(request_span(date(2020, 1, 1), date(262143, 1, 1)), None);
}

#[test]
fn no_span_for_a_triple_that_names_no_day() {
    assert_eq!(request_span(date(2021, 2, 29), date(2021, 3, 1)), None);
    assert_eq!(request_span(date(2021, 1, 1), date(2021, 4, 31)), None);
    assert_eq!(request_span(date(2021, 0, 1), date(2021, 1, 1)), None);
    assert_eq!(request_span(date(2021, 13, 1), date(2021, 1, 1)), None);
    assert_eq!(request_span(date(2021, 1, 0), date(2021, 1, 1)), None);
    assert_eq!(request_span(date(2021, 1, 1), date(2021, 1, 32)), None);
    assert_eq!(request_span(date(1900, 2, 29), date(1900, 3, 1)), None);
    assert!(history_url("AAPL", date(2021, 2, 29), date(2021, 3, 1), Interval::D1).is_none());
}

#[test]
fn span_agrees_with_the_day_number() {
    for year in [-262143, -4000, -1, 0, 1, 1600, 1969, 1970, 2024, 262142] {
        for month in 1..=12 {
            let day = date(year, month, 28);
            let start = quote_history::days_from_civil(day) * 86400;
            assert_eq!(request_span(day, day), Some((start, start + 86400)));
        }
    }
}

#[test]
fn error_keeps_the_cause() {
    let error = Error::new(String::from("Connection refused (os error 111)"));
    assert_eq!(error.to_string(), "Connection refused (os error 111)");
    let empty = Error::new(String::new());
    assert_eq!(empty.to_string(), "");
}
