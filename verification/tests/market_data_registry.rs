use nestworth::error::AppError;
use nestworth::market_data::{
    provider_name, MarketDataCapabilities, MarketDataRegistry, LegacyProvider, MAX_PROVIDER_REQUESTS,
};
use nestworth::providers::{FakeFxProvider, FakeQuoteProvider, FxAdapter, QuoteAdapter};

fn caps(daily: bool) -> MarketDataCapabilities {
    MarketDataCapabilities { latest_instrument: true, latest_fx: true, daily_history: daily, instrument_search: false }
}

#[test]
fn legacy_fakes_are_registered_through_one_interface() {
    let registry = MarketDataRegistry::from_legacy(
        QuoteAdapter::Fake(FakeQuoteProvider::new()),
        FxAdapter::Fake(FakeFxProvider::new()),
    );
    assert_eq!(registry.default_provider_id(), "fake");
    assert_eq!(registry.capabilities().len(), 1);
    assert_eq!(MAX_PROVIDER_REQUESTS, 2);
}

#[test]
fn unconfigured_legacy_provider_is_registered_as_legacy_without_capabilities() {
    let registry = MarketDataRegistry::from_legacy(QuoteAdapter::Unconfigured, FxAdapter::Unconfigured);
    assert_eq!(registry.default_provider_id(), "legacy");
    let legacy = LegacyProvider::new(QuoteAdapter::Unconfigured, FxAdapter::Unconfigured);
    assert_eq!(legacy.capabilities(), MarketDataCapabilities {
        latest_instrument: false,
        latest_fx: false,
        daily_history: false,
        instrument_search: false,
    });
}

#[test]
fn providers_are_listed_in_id_order() {
    let registry = MarketDataRegistry::new(
        vec![("yahoo_finance".to_owned(), caps(true)), ("fake".to_owned(), caps(false))],
        "yahoo_finance",
    )
    .expect("registry");
    let listed: Vec<String> = registry.capabilities().into_iter().map(|(id, _)| id).collect();
    assert_eq!(listed, vec!["fake".to_owned(), "yahoo_finance".to_owned()]);
    assert!(registry.is_registered("fake"));
    assert!(!registry.is_registered("other"));
    assert_eq!(registry.capabilities_for("yahoo_finance"), Some(caps(true)));
    let dto = registry.capabilities_dto();
    assert_eq!(dto.default_provider_id, "yahoo_finance");
    assert_eq!(dto.providers[0].provider_name, "Fixture provider");
    assert_eq!(dto.providers[1].provider_name, "Yahoo Finance");
    assert!(dto.providers[1].daily_history);
}

#[test]
fn blank_or_repeated_ids_and_a_missing_default_are_refused() {
    let blank = MarketDataRegistry::new(vec![("  ".to_owned(), caps(true))], "  ");
    assert!(matches!(blank, Err(AppError::Conflict { message }) if message == "The market-data provider registry is invalid."));
    let repeated = MarketDataRegistry::new(
        vec![("fake".to_owned(), caps(true)), ("fake".to_owned(), caps(false))],
        "fake",
    );
    assert!(matches!(repeated, Err(AppError::Conflict { message }) if message == "The market-data provider registry is invalid."));
    let missing = MarketDataRegistry::new(vec![("fake".to_owned(), caps(true))], "yahoo_finance");
    assert!(matches!(missing, Err(AppError::Conflict { message }) if message == "The default market-data provider is unavailable."));
}

#[test]
fn provider_names_fall_back_to_the_id() {
    assert_eq!(provider_name("yahoo_finance"), "Yahoo Finance");
    assert_eq!(provider_name("fake"), "Fixture provider");
    assert_eq!(provider_name("other"), "other");
}
