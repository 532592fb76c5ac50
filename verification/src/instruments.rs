//! Instruments: their interface records, kinds and quote sources, and the
//! reading of new and stored ones.

use vstd::prelude::*;

use crate::currency::{is_currency_code, CurrencyCode};
use crate::error::{is_validation_of, reports, AppError};
use crate::ids::{optional_id_ok, require_id, require_optional_id, uuid_accepts};
use crate::institutions::require_household;
use crate::text::{clone_opt, text_eq};
use crate::time::{optional_instant, rfc3339_millis, Timestamp};

verus! {

#[derive(Debug, Clone)]
pub struct CreateInstrumentInput {
    pub name: String,
    pub symbol: Option<String>,
    pub instrument_type: String,
    pub quote_currency: String,
    pub market_code: Option<String>,
    pub country_code: Option<String>,
    pub isin: Option<String>,
    pub provider_key: Option<String>,
    pub provider_symbol: Option<String>,
    pub quote_preference: Option<String>,
    pub note: Option<String>,
}

#[derive(Debug, Clone)]
pub struct UpdateInstrumentInput {
    pub id: String,
    pub name: String,
    pub symbol: Option<String>,
    pub instrument_type: String,
    pub market_code: Option<String>,
    pub country_code: Option<String>,
    pub isin: Option<String>,
    pub provider_key: Option<String>,
    pub provider_symbol: Option<String>,
    pub quote_preference: Option<String>,
    pub note: Option<String>,
}

#[derive(Debug, Clone)]
pub struct InstrumentRecordDto {
    pub id: String,
    pub name: String,
    pub symbol: Option<String>,
    pub instrument_type: String,
    pub quote_currency: String,
    pub market_code: Option<String>,
    pub country_code: Option<String>,
    pub isin: Option<String>,
    pub provider_key: Option<String>,
    pub provider_symbol: Option<String>,
    pub quote_preference: String,
    pub note: Option<String>,
    pub logo_asset_id: Option<String>,
    pub sort_order: i32,
    pub created_at: String,
    pub updated_at: String,
    pub archived_at: Option<String>,
}

/// The query listing the household's Instruments in display order, with archived ones only when asked for.
pub fn list_sql(include_archived: bool) -> (sql: &'static str)
    ensures
        include_archived ==> sql@ == "SELECT id, household_id, name, symbol, instrument_type, quote_currency, market_code, country_code, isin, provider_key, provider_symbol, quote_preference, note, logo_asset_id, sort_order, created_at, updated_at, archived_at
         FROM instruments
         WHERE household_id = ?
         ORDER BY sort_order ASC, name COLLATE NOCASE ASC, id ASC"@,
        !include_archived ==> sql@ == "SELECT id, household_id, name, symbol, instrument_type, quote_currency, market_code, country_code, isin, provider_key, provider_symbol, quote_preference, note, logo_asset_id, sort_order, created_at, updated_at, archived_at
         FROM instruments
         WHERE household_id = ? AND archived_at IS NULL
         ORDER BY sort_order ASC, name COLLATE NOCASE ASC, id ASC"@,
{
    if include_archived {
        "SELECT id, household_id, name, symbol, instrument_type, quote_currency, market_code, country_code, isin, provider_key, provider_symbol, quote_preference, note, logo_asset_id, sort_order, created_at, updated_at, archived_at
         FROM instruments
         WHERE household_id = ?
         ORDER BY sort_order ASC, name COLLATE NOCASE ASC, id ASC"
    } else {
        "SELECT id, household_id, name, symbol, instrument_type, quote_currency, market_code, country_code, isin, provider_key, provider_symbol, quote_preference, note, logo_asset_id, sort_order, created_at, updated_at, archived_at
         FROM instruments
         WHERE household_id = ? AND archived_at IS NULL
         ORDER BY sort_order ASC, name COLLATE NOCASE ASC, id ASC"
    }
}

/// The kinds of Instrument a household can track.
#[derive(Debug, Clone, Copy, PartialEq, Eq, Structural)]
pub enum InstrumentType {
    Stock,
    Etf,
    Other,
}

/// The kind an Instrument type name stands for.
pub open spec fn instrument_type_spec(name: Seq<char>) -> Option<InstrumentType> {
    if name == "stock"@ {
        Some(InstrumentType::Stock)
    } else if name == "etf"@ {
        Some(InstrumentType::Etf)
    } else if name == "other"@ {
        Some(InstrumentType::Other)
    } else {
        None
    }
}

impl InstrumentType {
    /// Reads an Instrument type name.
    pub fn parse(name: &str) -> (kind: Result<InstrumentType, AppError>)
        ensures
            match kind {
                Ok(k) => instrument_type_spec(name@) == Some(k),
                Err(e) => instrument_type_spec(name@) is None && is_validation_of(e, "instrumentType"@),
            },
    {
        if text_eq(name, "stock") {
            Ok(InstrumentType::Stock)
        } else if text_eq(name, "etf") {
            Ok(InstrumentType::Etf)
        } else if text_eq(name, "other") {
            Ok(InstrumentType::Other)
        } else {
            Err(AppError::validation("instrumentType", "The Instrument type is not supported."))
        }
    }
}

/// Where the quotes a valuation uses come from.
#[derive(Debug, Clone, Copy, PartialEq, Eq, Structural)]
pub enum QuoteSourceKind {
    Manual,
    Provider,
}

/// The source a quote source name stands for.
pub open spec fn quote_source_spec(name: Seq<char>) -> Option<QuoteSourceKind> {
    if name == "manual"@ {
        Some(QuoteSourceKind::Manual)
    } else if name == "provider"@ {
        Some(QuoteSourceKind::Provider)
    } else {
        None
    }
}

/// The stored name of a quote source.
pub open spec fn quote_source_name(kind: QuoteSourceKind) -> Seq<char> {
    match kind {
        QuoteSourceKind::Manual => "manual"@,
        QuoteSourceKind::Provider => "provider"@,
    }
}

impl QuoteSourceKind {
    /// Reads a quote source name.
    pub fn parse(name: &str) -> (kind: Result<QuoteSourceKind, AppError>)
        ensures
            match kind {
                Ok(k) => quote_source_spec(name@) == Some(k),
                Err(e) => quote_source_spec(name@) is None && is_validation_of(e, "quoteSource"@),
            },
    {
        if text_eq(name, "manual") {
            Ok(QuoteSourceKind::Manual)
        } else if text_eq(name, "provider") {
            Ok(QuoteSourceKind::Provider)
        } else {
            Err(AppError::validation("quoteSource", "The quote source is not supported."))
        }
    }

    /// The stored name.
    pub fn as_str(&self) -> (name: &'static str)
        ensures
            name@ == quote_source_name(*self),
    {
        match self {
            QuoteSourceKind::Manual => "manual",
            QuoteSourceKind::Provider => "provider",
        }
    }
}

/// The reading of an optional quote preference: manual when absent.
pub open spec fn preference_or_manual(name: Option<String>) -> Option<QuoteSourceKind> {
    match name {
        None => Some(QuoteSourceKind::Manual),
        Some(n) => quote_source_spec(n@),
    }
}

/// An Instrument about to be created.
#[derive(Debug, Clone)]
pub struct NewInstrument {
    pub household_id: String,
    pub name: String,
    pub symbol: Option<String>,
    pub instrument_type: InstrumentType,
    pub quote_currency: CurrencyCode,
    pub market_code: Option<String>,
    pub country_code: Option<String>,
    pub isin: Option<String>,
    pub provider_key: Option<String>,
    pub provider_symbol: Option<String>,
    pub quote_preference: QuoteSourceKind,
    pub note: Option<String>,
    pub logo_asset_id: Option<String>,
    pub sort_order: i64,
}

/// The first check that fails when a create request is read: the field its
/// validation error names, or `None` for an internal fault.
pub open spec fn create_problem(household_id: Seq<char>, input: CreateInstrumentInput) -> Option<Option<Seq<char>>> {
    if !uuid_accepts(household_id) {
        Some(None)
    } else if instrument_type_spec(input.instrument_type@) is None {
        Some(Some("instrumentType"@))
    } else if !is_currency_code(input.quote_currency@) {
        Some(Some("currency"@))
    } else if preference_or_manual(input.quote_preference) is None {
        Some(Some("quoteSource"@))
    } else {
        None
    }
}

/// Reads a create request into a new Instrument at the given sort position;
/// without a quote preference it is quoted manually.
pub fn new_instrument_from_create(
    household_id: &str,
    input: &CreateInstrumentInput,
    sort_order: i64,
) -> (instrument: Result<NewInstrument, AppError>)
    ensures
        match instrument {
            Ok(n) => create_problem(household_id@, *input) is None
                && n.household_id@ == household_id@ && n.name == input.name && n.symbol == input.symbol
                && instrument_type_spec(input.instrument_type@) == Some(n.instrument_type)
                && n.quote_currency.code() == input.quote_currency@
                && n.market_code == input.market_code && n.country_code == input.country_code
                && n.isin == input.isin && n.provider_key == input.provider_key
                && n.provider_symbol == input.provider_symbol
                && preference_or_manual(input.quote_preference) == Some(n.quote_preference)
                && n.note == input.note && n.logo_asset_id is None && n.sort_order == sort_order,
            Err(e) => create_problem(household_id@, *input) matches Some(p) && reports(e, p),
        },
{
    require_household(household_id)?;
    let instrument_type = InstrumentType::parse(input.instrument_type.as_str())?;
    let quote_currency = CurrencyCode::parse(input.quote_currency.as_str())?;
    let quote_preference = match &input.quote_preference {
        Some(name) => QuoteSourceKind::parse(name.as_str())?,
        None => QuoteSourceKind::Manual,
    };
    Ok(NewInstrument {
        household_id: String::from_str(household_id),
        name: input.name.clone(),
        symbol: clone_opt(&input.symbol),
        instrument_type,
        quote_currency,
        market_code: clone_opt(&input.market_code),
        country_code: clone_opt(&input.country_code),
        isin: clone_opt(&input.isin),
        provider_key: clone_opt(&input.provider_key),
        provider_symbol: clone_opt(&input.provider_symbol),
        quote_preference,
        note: clone_opt(&input.note),
        logo_asset_id: None,
        sort_order,
    })
}

/// An Instrument read back from its stored record.
#[derive(Debug, Clone)]
pub struct Instrument {
    pub id: String,
    pub household_id: String,
    pub name: String,
    pub symbol: Option<String>,
    pub instrument_type: InstrumentType,
    pub quote_currency: CurrencyCode,
    pub market_code: Option<String>,
    pub country_code: Option<String>,
    pub isin: Option<String>,
    pub provider_key: Option<String>,
    pub provider_symbol: Option<String>,
    pub quote_preference: QuoteSourceKind,
    pub note: Option<String>,
    pub logo_asset_id: Option<String>,
    pub sort_order: i64,
    pub created_at: Timestamp,
    pub updated_at: Timestamp,
    pub archived_at: Option<Timestamp>,
}

/// The first check that fails when a stored Instrument is read: the field
/// its validation error names, or `None` for an internal fault.
pub open spec fn instrument_problem(household_id: Seq<char>, dto: InstrumentRecordDto) -> Option<Option<Seq<char>>> {
    if !uuid_accepts(dto.id@) {
        Some(Some("id"@))
    } else if !uuid_accepts(household_id) {
        Some(None)
    } else if instrument_type_spec(dto.instrument_type@) is None {
        Some(Some("instrumentType"@))
    } else if !is_currency_code(dto.quote_currency@) {
        Some(Some("currency"@))
    } else if quote_source_spec(dto.quote_preference@) is None {
        Some(Some("quoteSource"@))
    } else if !optional_id_ok(dto.logo_asset_id) {
        Some(Some("logoAssetId"@))
    } else if rfc3339_millis(dto.created_at@) is None || rfc3339_millis(dto.updated_at@) is None
        || optional_instant(dto.archived_at) is None {
        Some(Some("timestamp"@))
    } else {
        None
    }
}

/// Reads a stored Instrument record of the household into checked values.
pub fn instrument_from_dto(household_id: &str, dto: InstrumentRecordDto) -> (instrument: Result<Instrument, AppError>)
    ensures
        match instrument {
            Ok(i) => instrument_problem(household_id@, dto) is None
                && i.id == dto.id && i.household_id@ == household_id@ && i.name == dto.name
                && i.symbol == dto.symbol
                && instrument_type_spec(dto.instrument_type@) == Some(i.instrument_type)
                && i.quote_currency.code() == dto.quote_currency@
                && i.market_code == dto.market_code && i.country_code == dto.country_code
                && i.isin == dto.isin && i.provider_key == dto.provider_key
                && i.provider_symbol == dto.provider_symbol
                && quote_source_spec(dto.quote_preference@) == Some(i.quote_preference)
                && i.note == dto.note && i.logo_asset_id == dto.logo_asset_id
                && i.sort_order == dto.sort_order as i64
                && Some(i.created_at.unix_millis) == rfc3339_millis(dto.created_at@)
                && Some(i.updated_at.unix_millis) == rfc3339_millis(dto.updated_at@)
                && optional_instant(dto.archived_at) == Some(i.archived_at),
            Err(e) => instrument_problem(household_id@, dto) matches Some(p) && reports(e, p),
        },
{
    require_id("id", dto.id.as_str())?;
    require_household(household_id)?;
    let instrument_type = InstrumentType::parse(dto.instrument_type.as_str())?;
    let quote_currency = CurrencyCode::parse(dto.quote_currency.as_str())?;
    let quote_preference = QuoteSourceKind::parse(dto.quote_preference.as_str())?;
    require_optional_id("logoAssetId", &dto.logo_asset_id)?;
    let created_at = Timestamp::parse(dto.created_at.as_str())?;
    let updated_at = Timestamp::parse(dto.updated_at.as_str())?;
    let archived_at = Timestamp::parse_optional(&dto.archived_at)?;
    Ok(Instrument {
        id: dto.id,
        household_id: String::from_str(household_id),
        name: dto.name,
        symbol: dto.symbol,
        instrument_type,
        quote_currency,
        market_code: dto.market_code,
        country_code: dto.country_code,
        isin: dto.isin,
        provider_key: dto.provider_key,
        provider_symbol: dto.provider_symbol,
        quote_preference,
        note: dto.note,
        logo_asset_id: dto.logo_asset_id,
        sort_order: dto.sort_order as i64,
        created_at,
        updated_at,
        archived_at,
    })
}

} // verus!
