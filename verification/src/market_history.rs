//! Backfilling daily market history: which targets qualify, how a request's
//! date range is checked, and how targets are keyed.

use vstd::prelude::*;

use crate::calendar::{date_ordinal, CalendarDate};
use crate::coverage::CoverageTarget;
use crate::currency::{is_currency_code, CurrencyCode, FxPair};
use crate::error::{is_validation_of, AppError};
use crate::ids::{require_id, uuid_accepts};
use crate::instruments::InstrumentRecordDto;
use crate::market_data::{MarketDataCapabilities, MarketDataRegistry, YAHOO_FINANCE_PROVIDER};
use crate::text::text_eq;

verus! {

broadcast use CalendarDate::lemma_ordinal_bounds;

/// The longest range, in days, one backfill may ask for.
pub const MAX_HISTORY_DAYS: i64 = 3_660;

#[derive(Debug, Clone)]
pub struct BackfillInstrumentHistoryInput {
    pub instrument_id: String,
    pub start_local_date: String,
    pub end_local_date: String,
    pub force: bool,
}

#[derive(Debug, Clone)]
pub struct BackfillHistoryRangeInput {
    pub start_local_date: String,
    pub end_local_date: String,
    pub force: bool,
}

/// An inclusive range of local calendar days.
#[derive(Debug, Clone, Copy)]
pub struct HistoryRange {
    pub start: CalendarDate,
    pub end: CalendarDate,
}

/// What a backfill fetches daily closes for.
#[derive(Debug, Clone)]
pub enum HistoryTarget {
    Instrument {
        key: String,
        provider_id: String,
        instrument_id: String,
        provider_symbol: String,
        currency: CurrencyCode,
    },
    Fx { key: String, provider_id: String, pair: FxPair },
}

/// A request range the history rules refuse.
pub fn invalid_range(message: &str) -> (error: AppError)
    ensures
        error matches AppError::MarketDataHistoryInvalidRange { message: m } && m@ == message@,
{
    AppError::MarketDataHistoryInvalidRange { message: String::from_str(message) }
}

/// The error of a provider without daily history.
pub open spec fn is_history_unavailable(error: AppError) -> bool {
    error matches AppError::MarketDataHistoryUnavailable { message }
        && message@ == "Daily history is unavailable for this market-data provider."@
}

fn history_unavailable() -> (error: AppError)
    ensures
        is_history_unavailable(error),
{
    AppError::MarketDataHistoryUnavailable {
        message: String::from_str("Daily history is unavailable for this market-data provider."),
    }
}

/// Daily history is served by a Yahoo Finance provider registered with
/// that capability.
pub open spec fn offers_daily_history(provider_id: Seq<char>, entries: Seq<(Seq<char>, MarketDataCapabilities)>) -> bool {
    provider_id == "yahoo_finance"@ && exists|c: MarketDataCapabilities| #[trigger] entries.contains((provider_id, c))
        && c.daily_history
}

/// Checks that a provider serves daily history.
pub fn require_daily_capability(registry: &MarketDataRegistry, provider_id: &str) -> (checked: Result<(), AppError>)
    ensures
        checked is Ok <==> offers_daily_history(provider_id@, registry.entries()),
        checked matches Err(e) ==> is_history_unavailable(e),
{
    proof {
        reveal_strlit("yahoo_finance");
    }
    let capabilities = registry.capabilities_for(provider_id);
    let daily = match capabilities {
        Some(c) => c.daily_history,
        None => false,
    };
    if !text_eq(provider_id, YAHOO_FINANCE_PROVIDER) || !daily {
        return Err(history_unavailable());
    }
    Ok(())
}

/// An Instrument takes part in history backfill when it is active, quoted
/// by a provider, and has a provider key and symbol.
pub open spec fn backfills(instrument: InstrumentRecordDto) -> bool {
    instrument.archived_at is None && instrument.quote_preference@ == "provider"@
        && instrument.provider_key is Some && instrument.provider_symbol is Some
}

/// The history target of an Instrument, if it takes part in backfill.
pub fn instrument_target(
    registry: &MarketDataRegistry,
    instrument: &InstrumentRecordDto,
) -> (target: Result<Option<HistoryTarget>, AppError>)
    ensures
        !backfills(*instrument) ==> target == Ok::<Option<HistoryTarget>, AppError>(None),
        backfills(*instrument) ==> {
            let provider = instrument.provider_key.unwrap()@;
            let symbol = instrument.provider_symbol.unwrap()@;
            match target {
                Ok(t) => offers_daily_history(provider, registry.entries())
                    && uuid_accepts(instrument.id@) && is_currency_code(instrument.quote_currency@)
                    && (t matches Some(HistoryTarget::Instrument { key, provider_id, instrument_id, provider_symbol, currency })
                    && key@ == symbol && provider_id@ == provider && instrument_id@ == instrument.id@
                    && provider_symbol@ == symbol && currency.code() == instrument.quote_currency@),
                Err(e) => if !offers_daily_history(provider, registry.entries()) {
                    is_history_unavailable(e)
                } else if !uuid_accepts(instrument.id@) {
                    is_validation_of(e, "instrumentId"@)
                } else {
                    !is_currency_code(instrument.quote_currency@) && is_validation_of(e, "currency"@)
                },
            }
        },
{
    if instrument.archived_at.is_some() || !text_eq(instrument.quote_preference.as_str(), "provider") {
        return Ok(None);
    }
    let (provider_id, provider_symbol) = match (&instrument.provider_key, &instrument.provider_symbol) {
        (Some(key), Some(symbol)) => (key.clone(), symbol.clone()),
        _ => return Ok(None),
    };
    require_daily_capability(registry, provider_id.as_str())?;
    require_id("instrumentId", instrument.id.as_str())?;
    let currency = CurrencyCode::parse(instrument.quote_currency.as_str())?;
    if !text_eq(provider_id.as_str(), YAHOO_FINANCE_PROVIDER) {
        return Err(history_unavailable());
    }
    Ok(Some(HistoryTarget::Instrument {
        key: provider_symbol.clone(),
        provider_id,
        instrument_id: instrument.id.clone(),
        provider_symbol,
        currency,
    }))
}

/// The history target of a required currency pair, fetched from the
/// default provider.
pub fn fx_target(registry: &MarketDataRegistry, pair: FxPair) -> (target: Result<HistoryTarget, AppError>)
    ensures
        match target {
            Ok(t) => offers_daily_history(registry.default_id(), registry.entries())
                && (t matches HistoryTarget::Fx { key, provider_id, pair: p }
                && key@ == pair.currency_a.code() + "/"@ + pair.currency_b.code()
                && provider_id@ == registry.default_id() && p == pair),
            Err(e) => !offers_daily_history(registry.default_id(), registry.entries()) && is_history_unavailable(e),
        },
{
    let default_provider_id = registry.default_provider_id();
    require_daily_capability(registry, default_provider_id)?;
    let key = pair.currency_a.to_text().concat("/").concat(pair.currency_b.to_text().as_str());
    Ok(HistoryTarget::Fx { key, provider_id: String::from_str(default_provider_id), pair })
}

/// The key a target's results are reported under.
pub fn target_key(target: &HistoryTarget) -> (key: String)
    ensures
        match target {
            HistoryTarget::Instrument { key: k, .. } => key == k,
            HistoryTarget::Fx { key: k, .. } => key == k,
        },
{
    match target {
        HistoryTarget::Instrument { key, .. } => key.clone(),
        HistoryTarget::Fx { key, .. } => key.clone(),
    }
}

/// The coverage record subject of a target.
pub fn coverage_target(target: &HistoryTarget, household_id: &str) -> (coverage: Result<CoverageTarget, AppError>)
    ensures
        coverage matches Ok(c) && c.household_id@ == household_id@ && match target {
            HistoryTarget::Instrument { provider_id, instrument_id, .. } => c.provider_key@ == provider_id@
                && c.currency_a is None && c.currency_b is None
                && (c.instrument_id matches Some(i) && i@ == instrument_id@),
            HistoryTarget::Fx { provider_id, pair, .. } => c.provider_key@ == provider_id@
                && c.instrument_id is None
                && (c.currency_a matches Some(a) && a@ == pair.currency_a.code())
                && (c.currency_b matches Some(b) && b@ == pair.currency_b.code()),
        },
{
    match target {
        HistoryTarget::Instrument { provider_id, instrument_id, .. } => Ok(
            CoverageTarget::instrument(household_id, provider_id.as_str(), instrument_id.as_str()),
        ),
        HistoryTarget::Fx { provider_id, pair, .. } => {
            let a = pair.currency_a.to_text();
            let b = pair.currency_b.to_text();
            Ok(CoverageTarget::fx(household_id, provider_id.as_str(), a.as_str(), b.as_str()))
        },
    }
}

/// Why a requested range is refused, in the order the checks run; `None`
/// when it is accepted. The last closed day is the day before `today`.
pub open spec fn range_problem(start: Seq<char>, end: Seq<char>, origin: Seq<char>, today: int) -> Option<Seq<char>> {
    let s = date_ordinal(start).unwrap();
    let e = date_ordinal(end).unwrap();
    let o = date_ordinal(origin).unwrap();
    if today == 0 {
        Some("The last closed local date is unavailable."@)
    } else if s > e {
        Some("The history range must be ordered."@)
    } else if s < o {
        Some("The history range cannot start before the History Origin date."@)
    } else if e > today - 1 {
        Some("The history range cannot include today or a future local date."@)
    } else if e - s + 1 > MAX_HISTORY_DAYS {
        Some("The history range is limited to 3,660 days."@)
    } else {
        None
    }
}

/// Checks a backfill's date range against the History Origin date and the
/// last closed local day (the day before `today`), at most 3,660 days long.
pub fn history_range(
    start_local_date: &str,
    end_local_date: &str,
    origin_local_date: &str,
    today: CalendarDate,
) -> (range: Result<HistoryRange, AppError>)
    ensures
        match range {
            Ok(r) => date_ordinal(start_local_date@) == Some(r.start.ordinal())
                && date_ordinal(end_local_date@) == Some(r.end.ordinal())
                && date_ordinal(origin_local_date@) is Some
                && range_problem(start_local_date@, end_local_date@, origin_local_date@, today.ordinal()) is None,
            Err(e) => if date_ordinal(start_local_date@) is None || date_ordinal(end_local_date@) is None
                || date_ordinal(origin_local_date@) is None {
                is_validation_of(e, "date"@)
            } else {
                range_problem(start_local_date@, end_local_date@, origin_local_date@, today.ordinal()) matches Some(m)
                    && e matches AppError::MarketDataHistoryInvalidRange { message } && message@ == m
            },
        },
{
    let start = CalendarDate::parse(start_local_date)?;
    let end = CalendarDate::parse(end_local_date)?;
    let origin = CalendarDate::parse(origin_local_date)?;
    let last_closed = match today.pred() {
        Some(day) => day,
        None => return Err(invalid_range("The last closed local date is unavailable.")),
    };
    if end.is_before(&start) {
        return Err(invalid_range("The history range must be ordered."));
    }
    if start.is_before(&origin) {
        return Err(invalid_range("The history range cannot start before the History Origin date."));
    }
    if last_closed.is_before(&end) {
        return Err(invalid_range("The history range cannot include today or a future local date."));
    }
    let days = start.days_until(&end) + 1;
    if days > MAX_HISTORY_DAYS {
        return Err(invalid_range("The history range is limited to 3,660 days."));
    }
    Ok(HistoryRange { start, end })
}

} // verus!
