use nestworth::calendar::CalendarDate;
use nestworth::currency::{CurrencyCode, FxPair};

#[test]
fn dates_round_trip_through_text() {
    for text in ["0001-01-01", "1999-12-31", "2000-02-29", "2024-02-29", "9999-12-31"] {
        assert_eq!(CalendarDate::parse(text).expect("date").to_ymd(), text);
    }
    for text in ["2023-02-29", "1900-02-29", "2026-13-01", "2026-00-10", "0000-01-01", "2026-1-01", "2026/01/01", "2026-04-31"] {
        assert!(CalendarDate::parse(text).is_err(), "{text}");
    }
}

#[test]
fn successor_and_predecessor_cross_month_and_year_boundaries() {
    let day = CalendarDate::parse("2024-02-28").expect("date");
    assert_eq!(day.succ().expect("next").to_ymd(), "2024-02-29");
    assert_eq!(CalendarDate::parse("2023-12-31").expect("date").succ().expect("next").to_ymd(), "2024-01-01");
    assert_eq!(CalendarDate::parse("2024-03-01").expect("date").pred().expect("previous").to_ymd(), "2024-02-29");
    assert!(CalendarDate::parse("9999-12-31").expect("date").succ().is_none());
    assert!(CalendarDate::parse("0001-01-01").expect("date").pred().is_none());
    assert_eq!(day.checked_add_days(366).expect("later").to_ymd(), "2025-02-28");
    assert_eq!(day.checked_add_days(-59).expect("earlier").to_ymd(), "2023-12-31");
    let start = CalendarDate::parse("2026-01-01").expect("start");
    let end = CalendarDate::parse("2026-12-31").expect("end");
    assert_eq!(start.days_until(&end), 364);
    assert!(start.is_before(&end));
}

#[test]
fn currency_pairs_are_alphabetical_and_distinct() {
    let usd = CurrencyCode::parse("USD").expect("usd");
    let cny = CurrencyCode::parse("CNY").expect("cny");
    let pair = FxPair::new(usd, cny).expect("pair");
    assert_eq!(pair.currency_a.to_text(), "CNY");
    assert_eq!(pair.currency_b.to_text(), "USD");
    assert!(FxPair::new(usd, usd).is_err());
    assert!(CurrencyCode::parse("usd").is_err());
    assert!(CurrencyCode::parse("US").is_err());
}
