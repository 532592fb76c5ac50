//! Reading the text fields of a pending Activity proposed by hand: every
//! payload kind, with the Holdings that a position transfer moves between
//! looked up beforehand.

use vstd::prelude::*;

use crate::amount::decimal_reading;
use crate::error::AppError;
use crate::ids::{require_id, uuid_accepts};
use crate::pending::PendingActivityPayloadInput;
use crate::pending_payload::{
    money_ok, optional_fee, parse_money, read_endpoint, read_rate, readable, reads_money,
    reads_payload, PendingActivityPayload, QuantityEndpoint,
};
use crate::quotes::parse_decimal_field;

verus! {

/// What the lookup of a Holding gives: the Account it sits in and the
/// Instrument it holds.
#[derive(Debug, Clone)]
pub struct HoldingEndpointRow {
    pub account_id: String,
    pub instrument_id: String,
}

/// A Holding's identifiers all read as identifiers.
pub open spec fn quantity_endpoint_ok(holding_id: Seq<char>, row: HoldingEndpointRow) -> bool {
    uuid_accepts(row.account_id@) && uuid_accepts(holding_id) && uuid_accepts(row.instrument_id@)
}

/// The endpoint names the Holding, its Account and its Instrument.
pub open spec fn reads_quantity_endpoint(holding_id: Seq<char>, row: HoldingEndpointRow, endpoint: QuantityEndpoint) -> bool {
    endpoint.account_id@ == row.account_id@ && endpoint.holding_id@ == holding_id
        && endpoint.instrument_id@ == row.instrument_id@
}

/// The fields of a buy or sell read.
pub open spec fn trade_ok(
    holding_id: Seq<char>,
    instrument_id: Seq<char>,
    quantity: Seq<char>,
    unit_price: Seq<char>,
    gross_amount: Seq<char>,
    settlement_currency: Seq<char>,
    fee_amount: Option<String>,
) -> bool {
    &&& uuid_accepts(holding_id) && uuid_accepts(instrument_id)
    &&& decimal_reading(quantity) is Some && decimal_reading(unit_price) is Some
    &&& money_ok(gross_amount, settlement_currency)
    &&& fee_amount matches Some(f) ==> money_ok(f@, settlement_currency)
}

/// The payload text fields, with the looked-up Holdings of a position
/// transfer, name a checked payload.
pub open spec fn posting_readable(
    input: PendingActivityPayloadInput,
    holdings: Option<(HoldingEndpointRow, HoldingEndpointRow)>,
) -> bool {
    match input {
        PendingActivityPayloadInput::PositionTransfer { source_holding_id, destination_holding_id, quantity } =>
            holdings matches Some(rows) && quantity_endpoint_ok(source_holding_id@, rows.0)
                && quantity_endpoint_ok(destination_holding_id@, rows.1) && decimal_reading(quantity@) is Some,
        PendingActivityPayloadInput::Buy {
            holding_id, instrument_id, quantity, unit_price, gross_amount, settlement_currency, fee_amount, ..
        }
        | PendingActivityPayloadInput::Sell {
            holding_id, instrument_id, quantity, unit_price, gross_amount, settlement_currency, fee_amount, ..
        } => trade_ok(
            holding_id@,
            instrument_id@,
            quantity@,
            unit_price@,
            gross_amount@,
            settlement_currency@,
            fee_amount,
        ),
        _ => readable(input),
    }
}

/// A buy's or sell's fields are those of the input.
pub open spec fn reads_trade(
    holding_id: String,
    instrument_id: String,
    quantity: String,
    unit_price: String,
    gross_amount: String,
    settlement_currency: String,
    fee_amount: Option<String>,
    confirm: bool,
    payload: PendingActivityPayload,
) -> bool {
    match payload {
        PendingActivityPayload::Buy { holding_id: h, instrument_id: i, quantity: q, unit_price: u, gross_amount: g, fee: f,
            confirm_zero_unit_price: c }
        | PendingActivityPayload::Sell { holding_id: h, instrument_id: i, quantity: q, unit_price: u, gross_amount: g,
            fee: f, confirm_zero_unit_price: c } => {
            &&& h@ == holding_id@ && i@ == instrument_id@ && c == confirm
            &&& decimal_reading(quantity@) == Some(q@) && decimal_reading(unit_price@) == Some(u@)
            &&& reads_money(gross_amount@, settlement_currency@, g)
            &&& match fee_amount {
                Some(a) => f matches Some(m) && reads_money(a@, settlement_currency@, m),
                None => f is None,
            }
        },
        _ => false,
    }
}

/// The checked payload is the one the text fields and looked-up Holdings name.
pub open spec fn reads_posting_payload(
    input: PendingActivityPayloadInput,
    holdings: Option<(HoldingEndpointRow, HoldingEndpointRow)>,
    payload: PendingActivityPayload,
) -> bool {
    match input {
        PendingActivityPayloadInput::PositionTransfer { source_holding_id, destination_holding_id, quantity } =>
            payload matches PendingActivityPayload::PositionTransfer { source, destination, quantity: q }
                && holdings matches Some(rows) && reads_quantity_endpoint(source_holding_id@, rows.0, source)
                && reads_quantity_endpoint(destination_holding_id@, rows.1, destination)
                && decimal_reading(quantity@) == Some(q@),
        PendingActivityPayloadInput::Buy {
            holding_id, instrument_id, quantity, unit_price, gross_amount, settlement_currency, fee_amount,
            confirm_zero_unit_price,
        } => payload is Buy && reads_trade(
            holding_id,
            instrument_id,
            quantity,
            unit_price,
            gross_amount,
            settlement_currency,
            fee_amount,
            confirm_zero_unit_price,
            payload,
        ),
        PendingActivityPayloadInput::Sell {
            holding_id, instrument_id, quantity, unit_price, gross_amount, settlement_currency, fee_amount,
            confirm_zero_unit_price,
        } => payload is Sell && reads_trade(
            holding_id,
            instrument_id,
            quantity,
            unit_price,
            gross_amount,
            settlement_currency,
            fee_amount,
            confirm_zero_unit_price,
            payload,
        ),
        _ => reads_payload(input, payload),
    }
}

/// The endpoint of a Holding, from its looked-up Account and Instrument.
pub fn quantity_endpoint(holding_id: &str, row: &HoldingEndpointRow) -> (endpoint: Result<QuantityEndpoint, AppError>)
    ensures
        match endpoint {
            Ok(e) => quantity_endpoint_ok(holding_id@, *row) && reads_quantity_endpoint(holding_id@, *row, e),
            Err(_) => !quantity_endpoint_ok(holding_id@, *row),
        },
{
    require_id("accountId", row.account_id.as_str())?;
    require_id("holdingId", holding_id)?;
    require_id("instrumentId", row.instrument_id.as_str())?;
    Ok(QuantityEndpoint {
        account_id: row.account_id.clone(),
        holding_id: String::from_str(holding_id),
        instrument_id: row.instrument_id.clone(),
    })
}

/// Reads an optional fee amount in the settlement currency.
fn optional_trade_fee(amount: &Option<String>, currency: &str) -> (fee: Result<Option<crate::amount::Money>, AppError>)
    ensures
        match fee {
            Ok(f) => (amount matches Some(a) ==> money_ok(a@, currency@)) && match *amount {
                Some(a) => f matches Some(m) && reads_money(a@, currency@, m),
                None => f is None,
            },
            Err(_) => amount matches Some(a) && !money_ok(a@, currency@),
        },
{
    match amount {
        Some(a) => {
            let money = parse_money(a.as_str(), currency)?;
            Ok(Some(money))
        },
        None => Ok(None),
    }
}

/// Reads the text fields of a pending Activity proposed by hand into a
/// checked payload. A position transfer takes the looked-up Holdings it
/// moves between, source first; a buy or sell reads its Holding and
/// Instrument identifiers, quantity, unit price, gross amount and optional
/// fee in the settlement currency.
pub fn pending_payload_from_input(
    input: PendingActivityPayloadInput,
    holdings: Option<(HoldingEndpointRow, HoldingEndpointRow)>,
) -> (payload: Result<PendingActivityPayload, AppError>)
    requires
        input is PositionTransfer ==> holdings is Some,
    ensures
        match payload {
            Ok(p) => posting_readable(input, holdings) && reads_posting_payload(input, holdings, p),
            Err(_) => !posting_readable(input, holdings),
        },
{
    match input {
        PendingActivityPayloadInput::Transfer {
            source_account_id, source_component, source_amount, source_currency, destination_account_id,
            destination_component, destination_amount, destination_currency, fee_amount, fee_kind,
        } => {
            let source_money = parse_money(source_amount.as_str(), source_currency.as_str())?;
            let fee = optional_fee(fee_amount, fee_kind, source_money.currency, "feeAmount")?;
            let (fee, fee_kind) = match fee {
                Some(pair) => (Some(pair.0), Some(pair.1)),
                None => (None, None),
            };
            let source = read_endpoint(source_account_id.as_str(), source_component.as_str())?;
            let destination = read_endpoint(destination_account_id.as_str(), destination_component.as_str())?;
            let destination_amount = parse_money(destination_amount.as_str(), destination_currency.as_str())?;
            Ok(PendingActivityPayload::Transfer {
                source,
                source_amount: source_money,
                destination,
                destination_amount,
                fee,
                fee_kind,
            })
        },
        PendingActivityPayloadInput::PositionTransfer { source_holding_id, destination_holding_id, quantity } => {
            let rows = holdings.unwrap();
            let source = quantity_endpoint(source_holding_id.as_str(), &rows.0)?;
            let destination = quantity_endpoint(destination_holding_id.as_str(), &rows.1)?;
            let quantity = parse_decimal_field("quantity", quantity.as_str())?;
            Ok(PendingActivityPayload::PositionTransfer { source, destination, quantity })
        },
        PendingActivityPayloadInput::Buy {
            holding_id, instrument_id, quantity, unit_price, gross_amount, settlement_currency, fee_amount,
            confirm_zero_unit_price,
        } => {
            require_id("holdingId", holding_id.as_str())?;
            require_id("instrumentId", instrument_id.as_str())?;
            let quantity = parse_decimal_field("quantity", quantity.as_str())?;
            let unit_price = parse_decimal_field("unitPrice", unit_price.as_str())?;
            let gross_amount = parse_money(gross_amount.as_str(), settlement_currency.as_str())?;
            let fee = optional_trade_fee(&fee_amount, settlement_currency.as_str())?;
            Ok(PendingActivityPayload::Buy {
                holding_id,
                instrument_id,
                quantity,
                unit_price,
                gross_amount,
                fee,
                confirm_zero_unit_price,
            })
        },
        PendingActivityPayloadInput::Sell {
            holding_id, instrument_id, quantity, unit_price, gross_amount, settlement_currency, fee_amount,
            confirm_zero_unit_price,
        } => {
            require_id("holdingId", holding_id.as_str())?;
            require_id("instrumentId", instrument_id.as_str())?;
            let quantity = parse_decimal_field("quantity", quantity.as_str())?;
            let unit_price = parse_decimal_field("unitPrice", unit_price.as_str())?;
            let gross_amount = parse_money(gross_amount.as_str(), settlement_currency.as_str())?;
            let fee = optional_trade_fee(&fee_amount, settlement_currency.as_str())?;
            Ok(PendingActivityPayload::Sell {
                holding_id,
                instrument_id,
                quantity,
                unit_price,
                gross_amount,
                fee,
                confirm_zero_unit_price,
            })
        },
        PendingActivityPayloadInput::DebtDraw {
            liability_account_id, principal_amount, principal_currency, cash_account_id, cash_component,
            cash_amount, cash_currency, fx_rate,
        } => {
            require_id("accountId", liability_account_id.as_str())?;
            let principal = parse_money(principal_amount.as_str(), principal_currency.as_str())?;
            let cash = match (cash_account_id, cash_component, cash_amount, cash_currency) {
                (None, None, None, None) => None,
                (Some(account_id), Some(component), Some(amount), Some(currency)) => {
                    let endpoint = read_endpoint(account_id.as_str(), component.as_str())?;
                    let money = parse_money(amount.as_str(), currency.as_str())?;
                    Some((endpoint, money))
                },
                _ => {
                    return Err(AppError::invalid_pending_activity(
                        "Debt cash endpoint fields must be supplied together.",
                    ));
                },
            };
            let fx_rate = read_rate(&fx_rate)?;
            Ok(PendingActivityPayload::DebtDraw { liability_account_id, principal, cash, fx_rate })
        },
        other => crate::pending_payload::pending_payload_from_input_without_tx(other),
    }
}

} // verus!
