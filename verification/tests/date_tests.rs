use weather::argparser::parse_date;
use weather::dates::Date;

#[test]
fn test_parse_date_valid() {
    let date = parse_date("2025-10-26").unwrap();
    assert_eq!(date, Date { year: 2025, month: 10, day: 26 });
}

#[test]
fn test_parse_date_invalid_format() {
    let result = parse_date("26-10-2025");
    assert!(result.is_err());
}

#[test]
fn test_parse_date_rejects_bad_calendar_days() {
    assert!(parse_date("2023-02-29").is_err());
    assert!(parse_date("2024-02-29").is_ok());
    assert!(parse_date("2023-13-01").is_err());
    assert!(parse_date("2023-00-10").is_err());
    assert!(parse_date("2023-04-31").is_err());
    assert!(parse_date("2023-04-30").is_ok());
}

#[test]
fn test_parse_date_rejects_trailing_text() {
    assert!(parse_date("2023-04-30x").is_err());
    assert!(parse_date("2023-4-30").is_err());
    assert!(parse_date("").is_err());
}

#[test]
fn test_date_ordering() {
    let a = Date { year: 2024, month: 12, day: 31 };
    let b = Date { year: 2025, month: 1, day: 1 };
    assert!(a.before(&b));
    assert!(!b.before(&a));
    assert!(!a.before(&a));
    let c = Date { year: 2025, month: 1, day: 2 };
    assert!(b.before(&c));
}

#[test]
fn test_date_of_timestamp_epoch_and_day() {
    // 1672531200 is 2023-01-01 00:00:00 UTC.
    let d = weather::dates::date_of_timestamp(1672531200);
    assert_eq!(d, Date { year: 2023, month: 1, day: 1 });
    let e = weather::dates::date_of_timestamp(0);
    assert_eq!(e, Date { year: 1970, month: 1, day: 1 });
}

#[test]
fn test_current_local_date_is_a_real_date() {
    let d = weather::dates::current_local_date();
    assert!(1 <= d.month && d.month <= 12);
    assert!(1 <= d.day && d.day <= 31);
    assert!(d.year >= 2020);
    // The clock reading drives the endpoint choice: the distant future is
    // always a forecast, the distant past always history.
    let provider = weather::providers::weather_api::WeatherApi::new("k".to_string());
    let far = weather::dates::Date { year: 9999, month: 1, day: 1 };
    assert!(provider.prepare_url("1", "2", &far, &d).contains("forecast.json"));
    let past = weather::dates::Date { year: 2000, month: 1, day: 1 };
    assert!(provider.prepare_url("1", "2", &past, &d).contains("history.json"));
}

#[test]
fn test_format_date_pads() {
    let d = Date { year: 33, month: 4, day: 5 };
    assert_eq!(weather::dates::format_date(&d), "0033-04-05");
}
