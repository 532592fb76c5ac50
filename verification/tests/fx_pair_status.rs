use nestworth::currency::{CurrencyCode, FxPair};
use nestworth::error::AppError;
use nestworth::instruments::QuoteSourceKind;
use nestworth::quotes::{fx_pair_status, pair_quote_preference, select_pair_quote, FxQuoteRecordDto};

fn code(text: &str) -> CurrencyCode {
    CurrencyCode::parse(text).expect("currency")
}

fn quote(id: &str, base: &str, quote_currency: &str, rate: &str, source: &str) -> FxQuoteRecordDto {
    FxQuoteRecordDto {
        id: id.to_owned(),
        base_currency: base.to_owned(),
        quote_currency: quote_currency.to_owned(),
        rate: rate.to_owned(),
        source_kind: source.to_owned(),
        source_key: source.to_owned(),
        delayed: false,
        quoted_at: "2026-01-01T00:00:00Z".to_owned(),
        created_at: "2026-01-01T00:00:00Z".to_owned(),
    }
}

#[test]
fn the_first_quote_of_the_preferred_source_in_either_direction_is_selected() {
    let pair = FxPair::new(code("USD"), code("EUR")).expect("pair");
    let quotes = vec![
        quote("other", "GBP", "USD", "1.3", "manual"),
        quote("provider", "USD", "EUR", "0.9", "provider"),
        quote("inverse", "EUR", "USD", "1.1", "manual"),
        quote("direct", "USD", "EUR", "0.92", "manual"),
    ];
    assert_eq!(select_pair_quote(&quotes, &pair, "manual").expect("manual").id, "inverse");
    assert_eq!(select_pair_quote(&quotes, &pair, "provider").expect("provider").id, "provider");
    assert!(select_pair_quote(&quotes[..1].to_vec(), &pair, "manual").is_none());
}

#[test]
fn a_pair_without_a_stored_preference_prefers_manual_quotes() {
    let pair = FxPair::new(code("USD"), code("EUR")).expect("pair");
    let other = FxPair::new(code("GBP"), code("EUR")).expect("pair");
    assert_eq!(pair_quote_preference(&vec![(other, QuoteSourceKind::Provider)], &pair), QuoteSourceKind::Manual);
    assert_eq!(
        pair_quote_preference(&vec![(other, QuoteSourceKind::Manual), (pair, QuoteSourceKind::Provider)], &pair),
        QuoteSourceKind::Provider
    );
}

#[test]
fn a_pair_status_carries_the_rate_in_the_pairs_direction() {
    let pair = FxPair::new(code("USD"), code("EUR")).expect("pair");
    let quotes = vec![quote("q", "EUR", "USD", "1.25", "manual")];
    let status = fx_pair_status(pair, None, &quotes).expect("status");
    assert_eq!(status.currency_a, "EUR");
    assert_eq!(status.currency_b, "USD");
    assert_eq!(status.quote_preference, "manual");
    assert_eq!(status.selected_quote.expect("quote").id, "q");
    assert_eq!(status.selected_rate.as_deref(), Some("0.8"));

    let none = fx_pair_status(pair, Some("provider".to_owned()), &quotes).expect("status");
    assert!(none.selected_quote.is_none());
    assert_eq!(none.selected_rate, None);

    let broken = vec![quote("bad", "EUR", "USD", "not-a-rate", "manual")];
    assert!(matches!(fx_pair_status(pair, None, &broken), Err(AppError::DatabaseUnavailable)));
}
