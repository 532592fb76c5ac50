use nestworth::amount::{DecimalValue, Money};
use nestworth::currency::{CurrencyCode, FxPair};
use nestworth::error::AppError;
use nestworth::instruments::QuoteSourceKind;
use nestworth::quotes::{
    fx_quote_dto, instrument_quote_dto, parse_fx_quote, parse_instrument_quote, selected_rate_for_pair,
    FxQuoteRecordDto, InstrumentQuoteRecordDto,
};

const QUOTE_ID: &str = "11111111-1111-4111-8111-111111111111";
const INSTRUMENT_ID: &str = "22222222-2222-4222-8222-222222222222";

fn code(text: &str) -> CurrencyCode {
    CurrencyCode::parse(text).expect("currency")
}

fn quote(base_currency: &str, quote_currency: &str, rate: &str) -> FxQuoteRecordDto {
    FxQuoteRecordDto {
        id: "fx-test".to_owned(),
        base_currency: base_currency.to_owned(),
        quote_currency: quote_currency.to_owned(),
        rate: rate.to_owned(),
        source_kind: "manual".to_owned(),
        source_key: "manual".to_owned(),
        delayed: false,
        quoted_at: "2026-01-01T00:00:00Z".to_owned(),
        created_at: "2026-01-01T00:00:00Z".to_owned(),
    }
}

#[test]
fn selected_rate_uses_persisted_pair_direction() {
    let pair = FxPair::new(code("CNY"), code("SGD")).expect("pair");
    assert_eq!(
        selected_rate_for_pair(pair, Some(&quote("SGD", "CNY", "5.3"))).expect("direct"),
        Some("5.3".to_owned())
    );
    assert_eq!(
        selected_rate_for_pair(pair, Some(&quote("CNY", "SGD", "0.2"))).expect("inverse"),
        Some("5".to_owned())
    );
}

#[test]
fn selected_rate_of_another_pair_or_none_is_none_and_zero_cannot_invert() {
    let pair = FxPair::new(code("CNY"), code("SGD")).expect("pair");
    assert_eq!(selected_rate_for_pair(pair, None).expect("none"), None);
    assert_eq!(selected_rate_for_pair(pair, Some(&quote("USD", "CNY", "7"))).expect("other"), None);
    assert!(matches!(selected_rate_for_pair(pair, Some(&quote("CNY", "SGD", "0"))), Err(AppError::DecimalOverflow)));
    assert!(matches!(
        selected_rate_for_pair(pair, Some(&quote("CNY", "SGD", "abc"))),
        Err(AppError::DatabaseUnavailable)
    ));
}

#[test]
fn canonical_amounts_drop_trailing_zeros() {
    assert_eq!(DecimalValue::parse("1.500").expect("decimal").canonical(), "1.5");
    assert_eq!(DecimalValue::parse("0.00").expect("decimal").canonical(), "0");
    assert_eq!(DecimalValue::parse("-2.50").expect("decimal").canonical(), "-2.5");
    assert_eq!(DecimalValue::parse("120").expect("decimal").canonical(), "120");
    assert!(DecimalValue::parse("1.2.3").is_none());
    let money = Money::parse("10.10", code("USD")).expect("money");
    assert_eq!(money.canonical_amount(), "10.1");
    assert!(matches!(Money::parse("ten", code("USD")), Err(AppError::Validation { field, .. }) if field == "amount"));
}

#[test]
fn stored_instrument_quotes_read_back_and_print_canonically() {
    let dto = InstrumentQuoteRecordDto {
        id: QUOTE_ID.to_owned(),
        instrument_id: INSTRUMENT_ID.to_owned(),
        unit_price: "512.300".to_owned(),
        quote_currency: "USD".to_owned(),
        source_kind: "provider".to_owned(),
        source_key: "yahoo_finance".to_owned(),
        delayed: true,
        quoted_at: "2026-01-02T15:30:00Z".to_owned(),
        created_at: "2026-01-02T15:31:00Z".to_owned(),
    };
    let parsed = parse_instrument_quote(&dto).expect("quote");
    assert_eq!(parsed.source_kind, QuoteSourceKind::Provider);
    let printed = instrument_quote_dto(&parsed);
    assert_eq!(printed.unit_price, "512.3");
    assert_eq!(printed.quoted_at, "2026-01-02T15:30:00.000Z");
    assert_eq!(printed.source_kind, "provider");
    let mut bad = dto.clone();
    bad.unit_price = "price".to_owned();
    assert!(matches!(parse_instrument_quote(&bad), Err(AppError::Validation { field, .. }) if field == "unitPrice"));
    bad = dto.clone();
    bad.instrument_id = "nope".to_owned();
    assert!(matches!(parse_instrument_quote(&bad), Err(AppError::Validation { field, .. }) if field == "instrumentId"));
}

#[test]
fn a_printed_instrument_quote_reads_back_to_the_same_quote() {
    let dto = InstrumentQuoteRecordDto {
        id: QUOTE_ID.to_owned(),
        instrument_id: INSTRUMENT_ID.to_owned(),
        unit_price: "0.000120".to_owned(),
        quote_currency: "SGD".to_owned(),
        source_kind: "manual".to_owned(),
        source_key: "manual".to_owned(),
        delayed: false,
        quoted_at: "9999-12-31T23:59:59.999Z".to_owned(),
        created_at: "0000-01-01T00:00:00Z".to_owned(),
    };
    let first = parse_instrument_quote(&dto).expect("quote");
    let again = parse_instrument_quote(&instrument_quote_dto(&first)).expect("read back");
    assert_eq!(again.id, first.id);
    assert_eq!(again.instrument_id, first.instrument_id);
    assert_eq!(again.unit_price.canonical(), "0.00012");
    assert_eq!(again.unit_price.parts(), (12, 5));
    assert_eq!(again.quote_currency, first.quote_currency);
    assert_eq!(again.source_kind, first.source_kind);
    assert_eq!(again.source_key, first.source_key);
    assert_eq!(again.delayed, first.delayed);
    assert_eq!(again.quoted_at, first.quoted_at);
    assert_eq!(again.created_at, first.created_at);
}

#[test]
fn stored_fx_quotes_read_back_and_print_canonically() {
    let mut dto = quote("USD", "CNY", "7.10");
    dto.id = QUOTE_ID.to_owned();
    let parsed = parse_fx_quote("household".to_owned(), &dto).expect("fx quote");
    assert_eq!(parsed.household_id, "household");
    assert_eq!(fx_quote_dto(&parsed).rate, "7.1");
    dto.source_kind = "guess".to_owned();
    assert!(matches!(parse_fx_quote("household".to_owned(), &dto), Err(AppError::Validation { field, .. }) if field == "quoteSource"));
}

#[test]
fn values_with_extra_trailing_zeros_print_alike() {
    let short = DecimalValue::parse("1.5").expect("decimal").canonical();
    let long = DecimalValue::parse("1.5000").expect("decimal").canonical();
    assert_eq!(short, long);
}

#[test]
fn stored_media_is_sent_as_standard_base64() {
    let dto = nestworth::media::media_asset_dto("image/png".to_owned(), &[1, 2, 3, 250]);
    assert_eq!(dto.mime_type, "image/png");
    assert_eq!(dto.data, "AQID+g==");
}

#[test]
fn a_pair_is_the_same_in_either_order() {
    let usd = code("USD");
    let cny = code("CNY");
    assert_eq!(FxPair::new(usd, cny).expect("pair"), FxPair::new(cny, usd).expect("pair"));
    assert!(matches!(FxPair::new(usd, usd), Err(AppError::Validation { field, .. }) if field == "currency"));
}
