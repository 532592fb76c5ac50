use std::time::Duration;

use nestworth::amount::DecimalValue;
use nestworth::currency::CurrencyCode;
use nestworth::error::AppError;
use nestworth::providers::{
    FakeFxProvider, FakeQuoteProvider, FxAdapter, ProviderFxQuote, ProviderInstrument, ProviderQuote,
    QuoteAdapter, QuoteFailure,
};
use nestworth::time::Timestamp;

fn code(text: &str) -> CurrencyCode {
    CurrencyCode::parse(text).expect("currency")
}

fn quote(symbol: &str, price: &str) -> ProviderQuote {
    ProviderQuote {
        provider_symbol: symbol.to_owned(),
        unit_price: DecimalValue::parse(price).expect("price"),
        quote_currency: code("USD"),
        quoted_at: Timestamp { unix_millis: 1_767_225_600_000 },
        delayed: false,
    }
}

fn fx(base: &str, quote: &str, rate: &str) -> ProviderFxQuote {
    ProviderFxQuote {
        base_currency: code(base),
        quote_currency: code(quote),
        rate: DecimalValue::parse(rate).expect("rate"),
        quoted_at: Timestamp { unix_millis: 1_767_225_600_000 },
        delayed: true,
    }
}

#[test]
fn fetching_an_inserted_quote_returns_it_and_counts_the_request() {
    let mut provider = FakeQuoteProvider::new();
    provider.insert_quote(quote("QQQ", "512.30"));
    let fetched = provider.fetch_quote("QQQ").expect("quote");
    assert_eq!(fetched.provider_symbol, "QQQ");
    assert_eq!(fetched.unit_price.canonical(), "512.3");
    assert_eq!(provider.request_count(), 1);
}

#[test]
fn the_latest_inserted_quote_for_a_symbol_wins() {
    let mut provider = FakeQuoteProvider::new();
    provider.insert_quote(quote("QQQ", "1"));
    provider.insert_quote(quote("QQQ", "2"));
    assert_eq!(provider.fetch_quote("QQQ").expect("quote").unit_price.canonical(), "2");
}

#[test]
fn a_registered_failure_wins_over_a_quote() {
    let mut provider = FakeQuoteProvider::new();
    provider.insert_quote(quote("QQQ", "1"));
    provider.fail("QQQ", QuoteFailure::RateLimit);
    assert!(matches!(provider.fetch_quote("QQQ"), Err(AppError::ProviderRateLimit)));
    provider.fail("VOO", QuoteFailure::Timeout);
    assert!(matches!(
        provider.fetch_quote("VOO"),
        Err(AppError::ProviderUnavailable { message }) if message == "The quote provider is unavailable."
    ));
    assert_eq!(provider.request_count(), 2);
}

#[test]
fn unknown_symbols_are_unsupported() {
    let mut provider = FakeQuoteProvider::new();
    assert!(matches!(
        provider.fetch_quote("NOPE"),
        Err(AppError::UnsupportedProviderSymbol { message }) if message == "The provider does not recognize this symbol."
    ));
}

#[test]
fn search_lists_every_inserted_instrument_and_delay_is_kept() {
    let mut provider = FakeQuoteProvider::new();
    assert_eq!(provider.delay(), None);
    provider.set_delay(Duration::from_millis(25));
    assert_eq!(provider.delay(), Some(Duration::from_millis(25)));
    provider.insert_search(ProviderInstrument {
        provider_key: "fake".to_owned(),
        provider_symbol: "QQQ".to_owned(),
        name: "Invesco QQQ".to_owned(),
        symbol: Some("QQQ".to_owned()),
        instrument_type: "etf".to_owned(),
        quote_currency: code("USD"),
        market_code: None,
        country_code: Some("US".to_owned()),
    });
    let found = provider.search("anything").expect("search");
    assert_eq!(found.len(), 1);
    assert_eq!(found[0].name, "Invesco QQQ");
    assert_eq!(provider.request_count(), 0);
}

#[test]
fn fx_pairs_are_answered_in_either_direction() {
    let mut provider = FakeFxProvider::new();
    provider.insert_quote(fx("USD", "CNY", "7.1"));
    let direct = provider.fetch_pair(code("USD"), code("CNY")).expect("direct");
    assert_eq!(direct.rate.canonical(), "7.1");
    let reverse = provider.fetch_pair(code("CNY"), code("USD")).expect("reverse");
    assert_eq!(reverse.base_currency, code("USD"));
    assert!(matches!(
        provider.fetch_pair(code("EUR"), code("USD")),
        Err(AppError::ProviderUnavailable { message }) if message == "No FX quote is available for this pair."
    ));
    assert_eq!(provider.request_count(), 3);
}

#[test]
fn fx_failures_apply_to_the_reverse_pair_too() {
    let mut provider = FakeFxProvider::new();
    provider.insert_quote(fx("USD", "CNY", "7.1"));
    provider.fail("CNY", "USD", QuoteFailure::Authentication);
    assert!(matches!(provider.fetch_pair(code("USD"), code("CNY")), Err(AppError::ProviderAuthentication)));
}

#[test]
fn unconfigured_adapters_report_no_provider() {
    let mut quotes = QuoteAdapter::Unconfigured;
    assert!(matches!(
        quotes.fetch_quote("QQQ"),
        Err(AppError::ProviderUnavailable { message }) if message == "No live market-data provider is configured."
    ));
    assert!(quotes.search("QQQ").is_err());
    let mut rates = FxAdapter::Unconfigured;
    assert!(rates.fetch_pair(code("USD"), code("CNY")).is_err());
    let mut fake = QuoteAdapter::Fake(FakeQuoteProvider::new());
    assert!(fake.is_fake());
    assert!(matches!(fake.fetch_quote("QQQ"), Err(AppError::UnsupportedProviderSymbol { .. })));
}
