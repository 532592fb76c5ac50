use nestworth::calendar::CalendarDate;
use nestworth::currency::{CurrencyCode, FxPair};
use nestworth::error::AppError;
use nestworth::instruments::InstrumentRecordDto;
use nestworth::market_data::{MarketDataCapabilities, MarketDataRegistry};
use nestworth::market_history::{
    coverage_target, fx_target, history_range, instrument_target, require_daily_capability, target_key,
    HistoryTarget, MAX_HISTORY_DAYS,
};

const INSTRUMENT: &str = "33333333-3333-4333-8333-333333333333";

fn daily(daily_history: bool) -> MarketDataCapabilities {
    MarketDataCapabilities { latest_instrument: true, latest_fx: true, daily_history, instrument_search: true }
}

fn yahoo(daily_history: bool) -> MarketDataRegistry {
    MarketDataRegistry::new(vec![("yahoo_finance".to_owned(), daily(daily_history))], "yahoo_finance").expect("registry")
}

fn instrument() -> InstrumentRecordDto {
    InstrumentRecordDto {
        id: INSTRUMENT.to_owned(),
        name: "Invesco QQQ".to_owned(),
        symbol: Some("QQQ".to_owned()),
        instrument_type: "etf".to_owned(),
        quote_currency: "USD".to_owned(),
        market_code: None,
        country_code: None,
        isin: None,
        provider_key: Some("yahoo_finance".to_owned()),
        provider_symbol: Some("QQQ".to_owned()),
        quote_preference: "provider".to_owned(),
        note: None,
        logo_asset_id: None,
        sort_order: 0,
        created_at: "2026-01-01T00:00:00Z".to_owned(),
        updated_at: "2026-01-01T00:00:00Z".to_owned(),
        archived_at: None,
    }
}

fn date(value: &str) -> CalendarDate {
    CalendarDate::parse(value).expect("date")
}

#[test]
fn history_ranges_stay_between_the_origin_and_the_last_closed_day() {
    let range = history_range("2026-01-02", "2026-01-30", "2026-01-01", date("2026-01-31")).expect("range");
    assert_eq!(range.start.to_ymd(), "2026-01-02");
    let invalid = |start: &str, end: &str| match history_range(start, end, "2026-01-01", date("2026-01-31")) {
        Err(AppError::MarketDataHistoryInvalidRange { message }) => message,
        _ => String::new(),
    };
    assert_eq!(invalid("2026-01-10", "2026-01-09"), "The history range must be ordered.");
    assert_eq!(invalid("2025-12-31", "2026-01-09"), "The history range cannot start before the History Origin date.");
    assert_eq!(invalid("2026-01-10", "2026-01-31"), "The history range cannot include today or a future local date.");
    assert!(matches!(history_range("2026-1-2", "2026-01-30", "2026-01-01", date("2026-01-31")), Err(AppError::Validation { .. })));
}

#[test]
fn history_ranges_are_bounded_in_length() {
    assert_eq!(MAX_HISTORY_DAYS, 3_660);
    let long = history_range("2000-01-01", "2026-01-01", "1999-01-01", date("2026-06-01"));
    assert!(matches!(long, Err(AppError::MarketDataHistoryInvalidRange { message }) if message == "The history range is limited to 3,660 days."));
    let exact = history_range("2016-01-01", "2026-01-07", "2000-01-01", date("2026-06-01"));
    let one_more = history_range("2016-01-01", "2026-01-08", "2000-01-01", date("2026-06-01"));
    assert!(one_more.is_err());
    assert!(exact.is_ok());
}

#[test]
fn only_active_provider_quoted_instruments_with_daily_history_are_targets() {
    let target = instrument_target(&yahoo(true), &instrument()).expect("target").expect("some");
    assert_eq!(target_key(&target), "QQQ");
    assert!(matches!(&target, HistoryTarget::Instrument { currency, .. } if currency.to_text() == "USD"));
    let coverage = coverage_target(&target, "household").expect("coverage");
    assert_eq!(coverage.instrument_id.as_deref(), Some(INSTRUMENT));
    let mut manual = instrument();
    manual.quote_preference = "manual".to_owned();
    assert!(instrument_target(&yahoo(true), &manual).expect("manual").is_none());
    let mut archived = instrument();
    archived.archived_at = Some("2026-01-05T00:00:00Z".to_owned());
    assert!(instrument_target(&yahoo(true), &archived).expect("archived").is_none());
    assert!(matches!(instrument_target(&yahoo(false), &instrument()), Err(AppError::MarketDataHistoryUnavailable { .. })));
    assert!(require_daily_capability(&yahoo(true), "yahoo_finance").is_ok());
    assert!(require_daily_capability(&yahoo(true), "fake").is_err());
}

#[test]
fn fx_targets_are_keyed_by_their_pair() {
    let pair = FxPair::new(CurrencyCode::parse("USD").expect("usd"), CurrencyCode::parse("CNY").expect("cny")).expect("pair");
    let target = fx_target(&yahoo(true), pair).expect("target");
    assert_eq!(target_key(&target), "CNY/USD");
    let coverage = coverage_target(&target, "household").expect("coverage");
    assert_eq!(coverage.currency_a.as_deref(), Some("CNY"));
    assert_eq!(coverage.currency_b.as_deref(), Some("USD"));
    assert!(fx_target(&yahoo(false), pair).is_err());
}
