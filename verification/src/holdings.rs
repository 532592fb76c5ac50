//! Holdings: the interface records of an Account's positions and their
//! reading into checked values.

use vstd::prelude::*;

use crate::amount::{decimal_reading, DecimalValue};
use crate::error::{is_validation_of, reports, AppError};
use crate::ids::{require_id, uuid_accepts};
use crate::time::{optional_instant, rfc3339_millis, Timestamp};

verus! {

#[derive(Debug, Clone)]
pub struct ListHoldingsInput {
    pub account_id: String,
    pub include_archived: bool,
}

#[derive(Debug, Clone)]
pub struct CreateHoldingInput {
    pub account_id: String,
    pub instrument_id: String,
    pub quantity: String,
    pub note: Option<String>,
}

#[derive(Debug, Clone)]
pub struct UpdateHoldingInput {
    pub id: String,
    pub quantity: String,
    pub note: Option<String>,
}

#[derive(Debug, Clone)]
pub struct HoldingRecordDto {
    pub id: String,
    pub account_id: String,
    pub instrument_id: String,
    pub instrument_name: String,
    pub instrument_symbol: Option<String>,
    pub quote_currency: String,
    pub quantity: String,
    pub note: Option<String>,
    pub sort_order: i32,
    pub created_at: String,
    pub updated_at: String,
    pub archived_at: Option<String>,
}

/// A Holding read back from its stored record.
#[derive(Debug, Clone)]
pub struct Holding {
    pub id: String,
    pub account_id: String,
    pub instrument_id: String,
    pub quantity: DecimalValue,
    pub note: Option<String>,
    pub sort_order: i64,
    pub created_at: Timestamp,
    pub updated_at: Timestamp,
    pub archived_at: Option<Timestamp>,
}

/// The query listing an Account's Holdings in their display order, with
/// archived ones only when asked for.
pub fn list_sql(include_archived: bool) -> (sql: &'static str)
    ensures
        include_archived ==> sql@ == "SELECT h.id, h.account_id, h.instrument_id, i.name AS instrument_name, i.symbol AS instrument_symbol, i.quote_currency, h.quantity, h.note, h.sort_order, h.created_at, h.updated_at, h.archived_at
         FROM holdings h
         JOIN instruments i ON i.id = h.instrument_id
         WHERE h.account_id = ?
         ORDER BY h.sort_order ASC, i.name COLLATE NOCASE ASC, h.id ASC"@,
        !include_archived ==> sql@ == "SELECT h.id, h.account_id, h.instrument_id, i.name AS instrument_name, i.symbol AS instrument_symbol, i.quote_currency, h.quantity, h.note, h.sort_order, h.created_at, h.updated_at, h.archived_at
         FROM holdings h
         JOIN instruments i ON i.id = h.instrument_id
         WHERE h.account_id = ? AND h.archived_at IS NULL
         ORDER BY h.sort_order ASC, i.name COLLATE NOCASE ASC, h.id ASC"@,
{
    if include_archived {
        "SELECT h.id, h.account_id, h.instrument_id, i.name AS instrument_name, i.symbol AS instrument_symbol, i.quote_currency, h.quantity, h.note, h.sort_order, h.created_at, h.updated_at, h.archived_at
         FROM holdings h
         JOIN instruments i ON i.id = h.instrument_id
         WHERE h.account_id = ?
         ORDER BY h.sort_order ASC, i.name COLLATE NOCASE ASC, h.id ASC"
    } else {
        "SELECT h.id, h.account_id, h.instrument_id, i.name AS instrument_name, i.symbol AS instrument_symbol, i.quote_currency, h.quantity, h.note, h.sort_order, h.created_at, h.updated_at, h.archived_at
         FROM holdings h
         JOIN instruments i ON i.id = h.instrument_id
         WHERE h.account_id = ? AND h.archived_at IS NULL
         ORDER BY h.sort_order ASC, i.name COLLATE NOCASE ASC, h.id ASC"
    }
}

/// Reads a decimal quantity, reporting a validation error on `quantity`.
pub fn parse_quantity(text: &str) -> (quantity: Result<DecimalValue, AppError>)
    ensures
        match quantity {
            Ok(q) => decimal_reading(text@) == Some(q@),
            Err(e) => decimal_reading(text@) is None && is_validation_of(e, "quantity"@),
        },
{
    match DecimalValue::parse(text) {
        Some(value) => Ok(value),
        None => Err(AppError::validation("quantity", "The quantity must be a decimal number.")),
    }
}

/// The first check that fails when a stored Holding is read, as the field
/// its validation error names; `None` when every check passes.
pub open spec fn holding_problem(dto: HoldingRecordDto) -> Option<Option<Seq<char>>> {
    if !uuid_accepts(dto.id@) {
        Some(Some("id"@))
    } else if !uuid_accepts(dto.account_id@) {
        Some(Some("accountId"@))
    } else if !uuid_accepts(dto.instrument_id@) {
        Some(Some("instrumentId"@))
    } else if decimal_reading(dto.quantity@) is None {
        Some(Some("quantity"@))
    } else if rfc3339_millis(dto.created_at@) is None || rfc3339_millis(dto.updated_at@) is None
        || optional_instant(dto.archived_at) is None {
        Some(Some("timestamp"@))
    } else {
        None
    }
}

/// Reads a stored Holding record into checked values.
pub fn holding_from_dto(dto: HoldingRecordDto) -> (holding: Result<Holding, AppError>)
    ensures
        match holding {
            Ok(h) => holding_problem(dto) is None
                && h.id == dto.id && h.account_id == dto.account_id && h.instrument_id == dto.instrument_id
                && Some(h.quantity@) == decimal_reading(dto.quantity@)
                && h.note == dto.note
                && h.sort_order == dto.sort_order as i64
                && Some(h.created_at.unix_millis) == rfc3339_millis(dto.created_at@)
                && Some(h.updated_at.unix_millis) == rfc3339_millis(dto.updated_at@)
                && optional_instant(dto.archived_at) == Some(h.archived_at),
            Err(e) => holding_problem(dto) matches Some(p) && reports(e, p),
        },
{
    require_id("id", dto.id.as_str())?;
    require_id("accountId", dto.account_id.as_str())?;
    require_id("instrumentId", dto.instrument_id.as_str())?;
    let quantity = parse_quantity(dto.quantity.as_str())?;
    let created_at = Timestamp::parse(dto.created_at.as_str())?;
    let updated_at = Timestamp::parse(dto.updated_at.as_str())?;
    let archived_at = Timestamp::parse_optional(&dto.archived_at)?;
    Ok(Holding {
        id: dto.id,
        account_id: dto.account_id,
        instrument_id: dto.instrument_id,
        quantity,
        note: dto.note,
        sort_order: dto.sort_order as i64,
        created_at,
        updated_at,
        archived_at,
    })
}

} // verus!
