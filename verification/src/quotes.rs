//! Manual and provider quotes: their interface records and the reading and
//! writing of stored ones.

use vstd::prelude::*;

use crate::amount::{canonical_text, decimal_loose_reading, decimal_reading, decimal_reciprocal, normalized_value, DecimalValue};
use crate::currency::{is_currency_code, CurrencyCode, FxPair};
use crate::text::text_eq;
use crate::error::{is_validation_of, reports, AppError};
use crate::ids::{require_id, uuid_accepts};
use crate::instruments::{quote_source_name, quote_source_spec, QuoteSourceKind};
use crate::time::{in_four_digit_years, rfc3339_millis, rfc3339_text, Timestamp};

verus! {

#[derive(Debug, Clone)]
pub struct ListInstrumentQuotesInput {
    pub instrument_id: String,
}

#[derive(Debug, Clone)]
pub struct AppendManualInstrumentQuoteInput {
    pub instrument_id: String,
    pub unit_price: String,
    pub quoted_at: Option<String>,
}

#[derive(Debug, Clone)]
pub struct SetInstrumentQuotePreferenceInput {
    pub instrument_id: String,
    pub quote_preference: String,
}

#[derive(Debug, Clone)]
pub struct InstrumentQuoteRecordDto {
    pub id: String,
    pub instrument_id: String,
    pub unit_price: String,
    pub quote_currency: String,
    pub source_kind: String,
    pub source_key: String,
    pub delayed: bool,
    pub quoted_at: String,
    pub created_at: String,
}

#[derive(Debug, Clone)]
pub struct ListFxQuotesInput {
    pub base_currency: String,
    pub quote_currency: String,
}

#[derive(Debug, Clone)]
pub struct AppendManualFxQuoteInput {
    pub base_currency: String,
    pub quote_currency: String,
    pub rate: String,
    pub quoted_at: Option<String>,
}

#[derive(Debug, Clone)]
pub struct SetFxQuotePreferenceInput {
    pub currency_a: String,
    pub currency_b: String,
    pub quote_preference: String,
}

#[derive(Debug, Clone)]
pub struct FxQuoteRecordDto {
    pub id: String,
    pub base_currency: String,
    pub quote_currency: String,
    pub rate: String,
    pub source_kind: String,
    pub source_key: String,
    pub delayed: bool,
    pub quoted_at: String,
    pub created_at: String,
}

#[derive(Debug, Clone)]
pub struct FxPairStatusDto {
    pub currency_a: String,
    pub currency_b: String,
    pub quote_preference: String,
    pub selected_quote: Option<FxQuoteRecordDto>,
    pub selected_rate: Option<String>,
}

/// A unit price of an Instrument.
#[derive(Debug, Clone)]
pub struct InstrumentQuote {
    pub id: String,
    pub instrument_id: String,
    pub unit_price: DecimalValue,
    pub quote_currency: CurrencyCode,
    pub source_kind: QuoteSourceKind,
    pub source_key: String,
    pub delayed: bool,
    pub quoted_at: Timestamp,
    pub created_at: Timestamp,
}

/// An exchange rate of a currency pair kept by a household.
#[derive(Debug, Clone)]
pub struct FxQuote {
    pub id: String,
    pub household_id: String,
    pub base_currency: CurrencyCode,
    pub quote_currency: CurrencyCode,
    pub rate: DecimalValue,
    pub source_kind: QuoteSourceKind,
    pub source_key: String,
    pub delayed: bool,
    pub quoted_at: Timestamp,
    pub created_at: Timestamp,
}

/// Reads a decimal, reporting a validation error on the named field.
pub fn parse_decimal_field(field: &str, text: &str) -> (value: Result<DecimalValue, AppError>)
    ensures
        match value {
            Ok(v) => decimal_reading(text@) == Some(v@),
            Err(e) => decimal_reading(text@) is None && is_validation_of(e, field@),
        },
{
    match DecimalValue::parse(text) {
        Some(v) => Ok(v),
        None => Err(AppError::validation(field, "The value must be a decimal number.")),
    }
}

/// The first check that fails when a stored Instrument quote is read, as
/// the field its validation error names.
pub open spec fn instrument_quote_problem(dto: InstrumentQuoteRecordDto) -> Option<Seq<char>> {
    if !uuid_accepts(dto.id@) {
        Some("id"@)
    } else if !uuid_accepts(dto.instrument_id@) {
        Some("instrumentId"@)
    } else if decimal_reading(dto.unit_price@) is None {
        Some("unitPrice"@)
    } else if !is_currency_code(dto.quote_currency@) {
        Some("currency"@)
    } else if quote_source_spec(dto.source_kind@) is None {
        Some("quoteSource"@)
    } else if rfc3339_millis(dto.quoted_at@) is None || rfc3339_millis(dto.created_at@) is None {
        Some("timestamp"@)
    } else {
        None
    }
}

/// Reads a stored Instrument quote record into checked values.
pub fn parse_instrument_quote(dto: &InstrumentQuoteRecordDto) -> (quote: Result<InstrumentQuote, AppError>)
    ensures
        match quote {
            Ok(q) => instrument_quote_problem(*dto) is None
                && q.id == dto.id && q.instrument_id == dto.instrument_id
                && decimal_reading(dto.unit_price@) == Some(q.unit_price@)
                && q.quote_currency.code() == dto.quote_currency@
                && quote_source_spec(dto.source_kind@) == Some(q.source_kind)
                && q.source_key == dto.source_key && q.delayed == dto.delayed
                && rfc3339_millis(dto.quoted_at@) == Some(q.quoted_at.unix_millis)
                && rfc3339_millis(dto.created_at@) == Some(q.created_at.unix_millis),
            Err(e) => instrument_quote_problem(*dto) matches Some(f) && is_validation_of(e, f),
        },
{
    require_id("id", dto.id.as_str())?;
    require_id("instrumentId", dto.instrument_id.as_str())?;
    let unit_price = parse_decimal_field("unitPrice", dto.unit_price.as_str())?;
    let quote_currency = CurrencyCode::parse(dto.quote_currency.as_str())?;
    let source_kind = QuoteSourceKind::parse(dto.source_kind.as_str())?;
    let quoted_at = Timestamp::parse(dto.quoted_at.as_str())?;
    let created_at = Timestamp::parse(dto.created_at.as_str())?;
    Ok(InstrumentQuote {
        id: dto.id.clone(),
        instrument_id: dto.instrument_id.clone(),
        unit_price,
        quote_currency,
        source_kind,
        source_key: dto.source_key.clone(),
        delayed: dto.delayed,
        quoted_at,
        created_at,
    })
}

/// The first check that fails when a stored FX quote is read, as the field
/// its validation error names.
pub open spec fn fx_quote_problem(dto: FxQuoteRecordDto) -> Option<Seq<char>> {
    if !uuid_accepts(dto.id@) {
        Some("id"@)
    } else if !is_currency_code(dto.base_currency@) || !is_currency_code(dto.quote_currency@) {
        Some("currency"@)
    } else if decimal_reading(dto.rate@) is None {
        Some("rate"@)
    } else if quote_source_spec(dto.source_kind@) is None {
        Some("quoteSource"@)
    } else if rfc3339_millis(dto.quoted_at@) is None || rfc3339_millis(dto.created_at@) is None {
        Some("timestamp"@)
    } else {
        None
    }
}

/// Reads a stored FX quote record of a household into checked values.
pub fn parse_fx_quote(household_id: String, dto: &FxQuoteRecordDto) -> (quote: Result<FxQuote, AppError>)
    ensures
        match quote {
            Ok(q) => fx_quote_problem(*dto) is None
                && q.id == dto.id && q.household_id == household_id
                && q.base_currency.code() == dto.base_currency@
                && q.quote_currency.code() == dto.quote_currency@
                && decimal_reading(dto.rate@) == Some(q.rate@)
                && quote_source_spec(dto.source_kind@) == Some(q.source_kind)
                && q.source_key == dto.source_key && q.delayed == dto.delayed
                && rfc3339_millis(dto.quoted_at@) == Some(q.quoted_at.unix_millis)
                && rfc3339_millis(dto.created_at@) == Some(q.created_at.unix_millis),
            Err(e) => fx_quote_problem(*dto) matches Some(f) && is_validation_of(e, f),
        },
{
    require_id("id", dto.id.as_str())?;
    let base_currency = CurrencyCode::parse(dto.base_currency.as_str())?;
    let quote_currency = CurrencyCode::parse(dto.quote_currency.as_str())?;
    let rate = parse_decimal_field("rate", dto.rate.as_str())?;
    let source_kind = QuoteSourceKind::parse(dto.source_kind.as_str())?;
    let quoted_at = Timestamp::parse(dto.quoted_at.as_str())?;
    let created_at = Timestamp::parse(dto.created_at.as_str())?;
    Ok(FxQuote {
        id: dto.id.clone(),
        household_id,
        base_currency,
        quote_currency,
        rate,
        source_kind,
        source_key: dto.source_key.clone(),
        delayed: dto.delayed,
        quoted_at,
        created_at,
    })
}

/// The interface record of an Instrument quote. The record reads back: its
/// unit price to the same value (normalised), its currency and source as
/// they were, and, for valid ids and instants of four-digit years, the
/// whole record without a problem.
pub fn instrument_quote_dto(quote: &InstrumentQuote) -> (dto: InstrumentQuoteRecordDto)
    ensures
        dto.id == quote.id && dto.instrument_id == quote.instrument_id,
        dto.unit_price@ == canonical_text(quote.unit_price@),
        dto.quote_currency@ == quote.quote_currency.code(),
        dto.source_kind@ == quote_source_name(quote.source_kind),
        dto.source_key == quote.source_key && dto.delayed == quote.delayed,
        dto.quoted_at@ == rfc3339_text(quote.quoted_at.unix_millis),
        dto.created_at@ == rfc3339_text(quote.created_at.unix_millis),
        decimal_reading(dto.unit_price@) == Some(normalized_value(quote.unit_price@)),
        is_currency_code(dto.quote_currency@),
        quote_source_spec(dto.source_kind@) == Some(quote.source_kind),
        in_four_digit_years(quote.quoted_at.unix_millis) ==> rfc3339_millis(dto.quoted_at@) == Some(
            quote.quoted_at.unix_millis,
        ),
        in_four_digit_years(quote.created_at.unix_millis) ==> rfc3339_millis(dto.created_at@) == Some(
            quote.created_at.unix_millis,
        ),
        uuid_accepts(quote.id@) && uuid_accepts(quote.instrument_id@) && in_four_digit_years(quote.quoted_at.unix_millis)
            && in_four_digit_years(quote.created_at.unix_millis) ==> instrument_quote_problem(dto) is None,
{
    proof {
        reveal_strlit("manual");
        reveal_strlit("provider");
        assert("manual"@.len() != "provider"@.len());
        assert(quote_source_spec(quote_source_name(quote.source_kind)) == Some(quote.source_kind));
    }
    InstrumentQuoteRecordDto {
        id: quote.id.clone(),
        instrument_id: quote.instrument_id.clone(),
        unit_price: quote.unit_price.canonical(),
        quote_currency: quote.quote_currency.to_text(),
        source_kind: String::from_str(quote.source_kind.as_str()),
        source_key: quote.source_key.clone(),
        delayed: quote.delayed,
        quoted_at: quote.quoted_at.to_rfc3339(),
        created_at: quote.created_at.to_rfc3339(),
    }
}

/// The interface record of an FX quote; like an Instrument quote's, it
/// reads back.
pub fn fx_quote_dto(quote: &FxQuote) -> (dto: FxQuoteRecordDto)
    ensures
        dto.id == quote.id,
        dto.base_currency@ == quote.base_currency.code(),
        dto.quote_currency@ == quote.quote_currency.code(),
        dto.rate@ == canonical_text(quote.rate@),
        dto.source_kind@ == quote_source_name(quote.source_kind),
        dto.source_key == quote.source_key && dto.delayed == quote.delayed,
        dto.quoted_at@ == rfc3339_text(quote.quoted_at.unix_millis),
        dto.created_at@ == rfc3339_text(quote.created_at.unix_millis),
        decimal_reading(dto.rate@) == Some(normalized_value(quote.rate@)),
        uuid_accepts(quote.id@) && in_four_digit_years(quote.quoted_at.unix_millis) && in_four_digit_years(
            quote.created_at.unix_millis,
        ) ==> fx_quote_problem(dto) is None && rfc3339_millis(dto.quoted_at@) == Some(quote.quoted_at.unix_millis)
            && rfc3339_millis(dto.created_at@) == Some(quote.created_at.unix_millis),
{
    proof {
        reveal_strlit("manual");
        reveal_strlit("provider");
        assert("manual"@.len() != "provider"@.len());
        assert(quote_source_spec(quote_source_name(quote.source_kind)) == Some(quote.source_kind));
    }
    FxQuoteRecordDto {
        id: quote.id.clone(),
        base_currency: quote.base_currency.to_text(),
        quote_currency: quote.quote_currency.to_text(),
        rate: quote.rate.canonical(),
        source_kind: String::from_str(quote.source_kind.as_str()),
        source_key: quote.source_key.clone(),
        delayed: quote.delayed,
        quoted_at: quote.quoted_at.to_rfc3339(),
        created_at: quote.created_at.to_rfc3339(),
    }
}

/// The rate of a pair that a selected quote implies, in the pair's own
/// direction (quote currency per unit of the pair's second currency, as
/// stored): a quote in that direction gives its rate as written; a quote
/// in the other direction gives the canonical reciprocal of its rate; a
/// quote of another pair, or none, gives none.
pub open spec fn implied_rate(pair: FxPair, selected: Option<FxQuoteRecordDto>) -> Option<Option<Seq<char>>> {
    match selected {
        None => Some(None),
        Some(q) => if q.base_currency@ == pair.currency_b.code() && q.quote_currency@ == pair.currency_a.code() {
            Some(Some(q.rate@))
        } else if q.base_currency@ == pair.currency_a.code() && q.quote_currency@ == pair.currency_b.code() {
            match decimal_loose_reading(q.rate@) {
                Some(r) => match decimal_reciprocal(r.0, r.1) {
                    Some(inverse) => Some(Some(canonical_text(inverse))),
                    None => None,
                },
                None => None,
            }
        } else {
            Some(None)
        },
    }
}

/// The rate a selected quote implies for a pair; an unreadable stored rate
/// is an unavailable database and a reciprocal that cannot be computed an
/// overflow.
pub fn selected_rate_for_pair(pair: FxPair, selected: Option<&FxQuoteRecordDto>) -> (rate: Result<Option<String>, AppError>)
    ensures
        match rate {
            Ok(r) => implied_rate(pair, match selected { Some(q) => Some(*q), None => None })
                == Some(match r { Some(t) => Some(t@), None => None::<Seq<char>> }),
            Err(e) => implied_rate(pair, match selected { Some(q) => Some(*q), None => None }) is None && {
                let q = selected.unwrap();
                match decimal_loose_reading(q.rate@) {
                    None => e is DatabaseUnavailable,
                    Some(_) => e is DecimalOverflow,
                }
            },
        },
{
    let selected = match selected {
        Some(q) => q,
        None => return Ok(None),
    };
    let a = pair.currency_a.to_text();
    let b = pair.currency_b.to_text();
    if text_eq(selected.base_currency.as_str(), b.as_str()) && text_eq(selected.quote_currency.as_str(), a.as_str()) {
        return Ok(Some(selected.rate.clone()));
    }
    if text_eq(selected.base_currency.as_str(), a.as_str()) && text_eq(selected.quote_currency.as_str(), b.as_str()) {
        let rate = match DecimalValue::parse_loosely(selected.rate.as_str()) {
            Some(value) => value,
            None => return Err(AppError::DatabaseUnavailable),
        };
        let inverted = match rate.reciprocal() {
            Some(value) => value,
            None => return Err(AppError::DecimalOverflow),
        };
        return Ok(Some(inverted.canonical()));
    }
    Ok(None)
}

/// The quote is of the pair, in either direction, and from the source.
pub open spec fn quotes_pair_from(q: FxQuoteRecordDto, pair: FxPair, source: Seq<char>) -> bool {
    &&& q.source_kind@ == source
    &&& (q.base_currency@ == pair.currency_a.code() && q.quote_currency@ == pair.currency_b.code())
        || (q.base_currency@ == pair.currency_b.code() && q.quote_currency@ == pair.currency_a.code())
}

/// Two quote records hold the same texts and flag.
pub open spec fn same_fx_quote(a: FxQuoteRecordDto, b: FxQuoteRecordDto) -> bool {
    &&& a.id@ == b.id@ && a.base_currency@ == b.base_currency@ && a.quote_currency@ == b.quote_currency@
    &&& a.rate@ == b.rate@ && a.source_kind@ == b.source_kind@ && a.source_key@ == b.source_key@
    &&& a.delayed == b.delayed && a.quoted_at@ == b.quoted_at@ && a.created_at@ == b.created_at@
}

/// The first quote of the list that is of the pair from the source.
pub open spec fn first_pair_quote(quotes: Seq<FxQuoteRecordDto>, pair: FxPair, source: Seq<char>, i: int) -> bool {
    &&& 0 <= i < quotes.len()
    &&& quotes_pair_from(quotes[i], pair, source)
    &&& forall|j: int| 0 <= j < i ==> !quotes_pair_from(#[trigger] quotes[j], pair, source)
}

fn copy_fx_quote(q: &FxQuoteRecordDto) -> (copy: FxQuoteRecordDto)
    ensures
        same_fx_quote(copy, *q),
{
    FxQuoteRecordDto {
        id: q.id.clone(),
        base_currency: q.base_currency.clone(),
        quote_currency: q.quote_currency.clone(),
        rate: q.rate.clone(),
        source_kind: q.source_kind.clone(),
        source_key: q.source_key.clone(),
        delayed: q.delayed,
        quoted_at: q.quoted_at.clone(),
        created_at: q.created_at.clone(),
    }
}

/// The first of the latest quotes that quotes the pair, in either
/// direction, from the source.
pub fn select_pair_quote(quotes: &Vec<FxQuoteRecordDto>, pair: &FxPair, source: &str) -> (selected: Option<FxQuoteRecordDto>)
    ensures
        match selected {
            Some(q) => exists|i: int| first_pair_quote(quotes@, *pair, source@, i) && same_fx_quote(q, #[trigger] quotes@[i]),
            None => forall|i: int| 0 <= i < quotes@.len() ==> !quotes_pair_from(#[trigger] quotes@[i], *pair, source@),
        },
{
    let a = pair.currency_a.to_text();
    let b = pair.currency_b.to_text();
    let mut i: usize = 0;
    while i < quotes.len()
        invariant
            i <= quotes@.len(),
            a@ == pair.currency_a.code(),
            b@ == pair.currency_b.code(),
            forall|j: int| 0 <= j < i ==> !quotes_pair_from(#[trigger] quotes@[j], *pair, source@),
        decreases quotes@.len() - i,
    {
        let q = &quotes[i];
        let direct = text_eq(q.base_currency.as_str(), a.as_str()) && text_eq(q.quote_currency.as_str(), b.as_str());
        let inverse = text_eq(q.base_currency.as_str(), b.as_str()) && text_eq(q.quote_currency.as_str(), a.as_str());
        if text_eq(q.source_kind.as_str(), source) && (direct || inverse) {
            let copy = copy_fx_quote(q);
            assert(first_pair_quote(quotes@, *pair, source@, i as int));
            return Some(copy);
        }
        i = i + 1;
    }
    None
}

/// The quote preference recorded for a pair: the first entry naming the
/// pair, else manual.
pub fn pair_quote_preference(preferences: &Vec<(FxPair, QuoteSourceKind)>, pair: &FxPair) -> (preference: QuoteSourceKind)
    ensures
        (exists|i: int| 0 <= i < preferences@.len() && (#[trigger] preferences@[i]).0 == *pair && preference
            == preferences@[i].1 && forall|j: int| 0 <= j < i ==> (#[trigger] preferences@[j]).0 != *pair)
            || (preference == QuoteSourceKind::Manual && forall|j: int| 0 <= j < preferences@.len() ==> (
        #[trigger] preferences@[j]).0 != *pair),
{
    let mut i: usize = 0;
    while i < preferences.len()
        invariant
            i <= preferences@.len(),
            forall|j: int| 0 <= j < i ==> (#[trigger] preferences@[j]).0 != *pair,
        decreases preferences@.len() - i,
    {
        let entry = &preferences[i];
        if entry.0.currency_a.same(&pair.currency_a) && entry.0.currency_b.same(&pair.currency_b) {
            proof {
                CurrencyCode::lemma_code_determines(entry.0.currency_a, pair.currency_a);
                CurrencyCode::lemma_code_determines(entry.0.currency_b, pair.currency_b);
            }
            return entry.1;
        }
        proof {
            if entry.0 == *pair {
                assert(entry.0.currency_a.code() == pair.currency_a.code());
            }
        }
        i = i + 1;
    }
    QuoteSourceKind::Manual
}

/// The status of a pair for the quote screens: its preference (the stored
/// one, else manual), the first latest quote from that source in either
/// direction, and the rate it implies in the pair's direction.
pub fn fx_pair_status(pair: FxPair, stored_preference: Option<String>, quotes: &Vec<FxQuoteRecordDto>) -> (status: Result<
    FxPairStatusDto,
    AppError,
>)
    ensures
        ({
            let preference = match stored_preference {
                Some(p) => p@,
                None => "manual"@,
            };
            match status {
                Ok(s) => {
                    &&& s.currency_a@ == pair.currency_a.code() && s.currency_b@ == pair.currency_b.code()
                    &&& s.quote_preference@ == preference
                    &&& match s.selected_quote {
                        Some(q) => exists|i: int| first_pair_quote(quotes@, pair, preference, i) && same_fx_quote(
                            q,
                            #[trigger] quotes@[i],
                        ),
                        None => forall|i: int| 0 <= i < quotes@.len() ==> !quotes_pair_from(#[trigger] quotes@[i], pair, preference),
                    }
                    &&& implied_rate(pair, s.selected_quote) == Some(match s.selected_rate {
                        Some(t) => Some(t@),
                        None => None::<Seq<char>>,
                    })
                },
                Err(e) => exists|q: FxQuoteRecordDto| implied_rate(pair, Some(q)) is None && (exists|i: int| first_pair_quote(
                    quotes@,
                    pair,
                    preference,
                    i,
                ) && same_fx_quote(q, #[trigger] quotes@[i])),
            }
        }),
{
    let quote_preference = match stored_preference {
        Some(p) => p,
        None => String::from_str("manual"),
    };
    proof {
        reveal_strlit("manual");
    }
    let selected = select_pair_quote(quotes, &pair, quote_preference.as_str());
    let selected_rate = match &selected {
        Some(q) => selected_rate_for_pair(pair, Some(q))?,
        None => selected_rate_for_pair(pair, None)?,
    };
    Ok(FxPairStatusDto {
        currency_a: pair.currency_a.to_text(),
        currency_b: pair.currency_b.to_text(),
        quote_preference,
        selected_quote: selected,
        selected_rate,
    })
}

} // verus!
