//! Pending Activity proposals and recurring rules: the typed payloads the
//! interface sends, the flat payload records the store keeps, and the
//! checks and conversions between them.

use vstd::prelude::*;

use crate::error::{is_validation_of, AppError};
use crate::ids::{require_id, uuid_accepts};
use crate::text::{clone_opt, opt_view, text_eq};

verus! {

/// Default number of pending Activities on one page.
pub const DEFAULT_PAGE_SIZE: i64 = 50;
/// Largest accepted page size.
pub const MAX_PAGE_SIZE: i64 = 100;

/// The typed payload of a pending Activity or recurring rule, as the
/// interface sends it.
#[derive(Debug, Clone)]
#[allow(inconsistent_fields)]
pub enum PendingActivityPayloadInput {
    Deposit { account_id: String, component: String, amount: String, currency: String },
    Withdrawal { account_id: String, component: String, amount: String, currency: String },
    Transfer {
        source_account_id: String,
        source_component: String,
        source_amount: String,
        source_currency: String,
        destination_account_id: String,
        destination_component: String,
        destination_amount: String,
        destination_currency: String,
        fee_amount: Option<String>,
        fee_kind: Option<String>,
    },
    PositionTransfer { source_holding_id: String, destination_holding_id: String, quantity: String },
    Buy {
        holding_id: String,
        instrument_id: String,
        quantity: String,
        unit_price: String,
        gross_amount: String,
        settlement_currency: String,
        fee_amount: Option<String>,
        confirm_zero_unit_price: bool,
    },
    Sell {
        holding_id: String,
        instrument_id: String,
        quantity: String,
        unit_price: String,
        gross_amount: String,
        settlement_currency: String,
        fee_amount: Option<String>,
        confirm_zero_unit_price: bool,
    },
    Income {
        account_id: String,
        component: String,
        amount: String,
        currency: String,
        income_kind: String,
        instrument_id: Option<String>,
    },
    Fee {
        account_id: String,
        component: String,
        amount: String,
        currency: String,
        fee_kind: String,
        instrument_id: Option<String>,
    },
    DebtDraw {
        liability_account_id: String,
        principal_amount: String,
        principal_currency: String,
        cash_account_id: Option<String>,
        cash_component: Option<String>,
        cash_amount: Option<String>,
        cash_currency: Option<String>,
        fx_rate: Option<String>,
    },
    DebtPayment {
        liability_account_id: String,
        principal_amount: String,
        principal_currency: String,
        cash_account_id: String,
        cash_component: String,
        cash_amount: String,
        cash_currency: String,
        fx_rate: Option<String>,
        fee_amount: Option<String>,
        fee_kind: Option<String>,
    },
}

#[derive(Debug, Clone)]
pub struct CreatePendingActivityInput {
    pub scheduled_local_date: String,
    pub payload: PendingActivityPayloadInput,
    pub note: Option<String>,
}

#[derive(Debug, Clone)]
pub struct UpdatePendingActivityInput {
    pub id: String,
    pub scheduled_local_date: String,
    pub payload: PendingActivityPayloadInput,
    pub note: Option<String>,
}

#[derive(Debug, Clone)]
pub struct ListPendingActivitiesInput {
    pub cursor: Option<String>,
    pub limit: Option<i32>,
    pub status: Option<String>,
}

#[derive(Debug, Clone)]
pub struct PendingActivityTimeInput {
    pub id: String,
    pub local_date: String,
    pub local_time: String,
    pub ambiguous_offset: Option<String>,
}

#[derive(Debug, Clone)]
pub struct RecurringActivityRuleInput {
    pub cadence: String,
    pub interval_value: i32,
    pub start_local_date: String,
    pub end_local_date: Option<String>,
    pub payload: PendingActivityPayloadInput,
    pub note: Option<String>,
}

#[derive(Debug, Clone)]
pub struct CreateRecurringActivityRuleInput {
    pub rule: RecurringActivityRuleInput,
}

#[derive(Debug, Clone)]
pub struct UpdateRecurringActivityRuleInput {
    pub id: String,
    pub end_local_date: Option<String>,
    pub payload: PendingActivityPayloadInput,
    pub note: Option<String>,
}

#[derive(Debug, Clone)]
pub struct PendingActivityDto {
    pub id: String,
    pub recurring_rule_id: Option<String>,
    pub recurring_rule_revision: Option<i32>,
    pub scheduled_local_date: String,
    pub creation_source: String,
    pub payload: PendingActivityPayloadInput,
    pub note: Option<String>,
    pub status: String,
    pub posted_activity_id: Option<String>,
    pub skipped_at: Option<String>,
    pub created_at: String,
    pub updated_at: String,
}

#[derive(Debug, Clone)]
pub struct PendingActivityPageDto {
    pub items: Vec<PendingActivityDto>,
    pub next_cursor: Option<String>,
    pub has_more: bool,
}

#[derive(Debug, Clone)]
pub struct RecurringActivityRuleDto {
    pub id: String,
    pub cadence: String,
    pub interval_value: i32,
    pub start_local_date: String,
    pub end_local_date: Option<String>,
    pub anchor_local_date: String,
    pub payload: PendingActivityPayloadInput,
    pub note: Option<String>,
    pub revision: i32,
    pub archived_at: Option<String>,
    pub created_at: String,
    pub updated_at: String,
}

#[derive(Debug, Clone)]
pub struct BlockedRecurringRuleDto {
    pub rule_id: String,
    pub reason: String,
}

#[derive(Debug, Clone)]
pub struct GenerateDuePendingActivitiesResultDto {
    pub generated_count: i32,
    pub blocked: Vec<BlockedRecurringRuleDto>,
    pub has_more: bool,
}

/// The flat columns in which a pending payload is stored.
#[derive(Debug, Clone, Default)]
pub struct PendingPayloadRecord {
    pub endpoint_account_id: Option<String>,
    pub endpoint_component: Option<String>,
    pub amount: Option<String>,
    pub currency: Option<String>,
    pub source_account_id: Option<String>,
    pub source_component: Option<String>,
    pub source_amount: Option<String>,
    pub source_currency: Option<String>,
    pub source_holding_id: Option<String>,
    pub source_instrument_id: Option<String>,
    pub destination_account_id: Option<String>,
    pub destination_component: Option<String>,
    pub destination_amount: Option<String>,
    pub destination_currency: Option<String>,
    pub destination_holding_id: Option<String>,
    pub destination_instrument_id: Option<String>,
    pub holding_id: Option<String>,
    pub instrument_id: Option<String>,
    pub quantity: Option<String>,
    pub unit_price: Option<String>,
    pub gross_amount: Option<String>,
    pub gross_currency: Option<String>,
    pub confirm_zero_unit_price: bool,
    pub fee_amount: Option<String>,
    pub fee_currency: Option<String>,
    pub fee_kind: Option<String>,
    pub income_kind: Option<String>,
    pub related_instrument_id: Option<String>,
    pub liability_account_id: Option<String>,
    pub principal_amount: Option<String>,
    pub principal_currency: Option<String>,
    pub cash_account_id: Option<String>,
    pub cash_component: Option<String>,
    pub cash_amount: Option<String>,
    pub cash_currency: Option<String>,
    pub fx_rate: Option<String>,
}

/// The flat columns in which a recurring rule's payload is stored; rules
/// carry no holdings or trades.
#[derive(Debug, Clone, Default)]
pub struct RulePayloadRecord {
    pub endpoint_account_id: Option<String>,
    pub endpoint_component: Option<String>,
    pub amount: Option<String>,
    pub currency: Option<String>,
    pub source_account_id: Option<String>,
    pub source_component: Option<String>,
    pub source_amount: Option<String>,
    pub source_currency: Option<String>,
    pub destination_account_id: Option<String>,
    pub destination_component: Option<String>,
    pub destination_amount: Option<String>,
    pub destination_currency: Option<String>,
    pub fee_amount: Option<String>,
    pub fee_currency: Option<String>,
    pub fee_kind: Option<String>,
    pub income_kind: Option<String>,
    pub related_instrument_id: Option<String>,
    pub liability_account_id: Option<String>,
    pub principal_amount: Option<String>,
    pub principal_currency: Option<String>,
    pub cash_account_id: Option<String>,
    pub cash_component: Option<String>,
    pub cash_amount: Option<String>,
    pub cash_currency: Option<String>,
    pub fx_rate: Option<String>,
}

/// A stored pending Activity.
#[derive(Debug, Clone)]
pub struct PendingActivityRecord {
    pub id: String,
    pub household_id: String,
    pub recurring_rule_id: Option<String>,
    pub recurring_rule_revision: Option<i64>,
    pub scheduled_local_date: String,
    pub creation_source: String,
    pub kind: String,
    pub payload: PendingPayloadRecord,
    pub note: Option<String>,
    pub status: String,
    pub posted_activity_id: Option<String>,
    pub skipped_at: Option<String>,
    pub created_at: String,
    pub updated_at: String,
}

/// A stored recurring rule.
#[derive(Debug, Clone)]
pub struct RecurringActivityRuleRecord {
    pub id: String,
    pub household_id: String,
    pub cadence: String,
    pub interval_value: i64,
    pub start_local_date: String,
    pub end_local_date: Option<String>,
    pub anchor_local_date: String,
    pub kind: String,
    pub payload: RulePayloadRecord,
    pub note: Option<String>,
    pub revision: i64,
    pub archived_at: Option<String>,
    pub created_at: String,
    pub updated_at: String,
}

/// The kinds of pending Activity.
#[derive(Debug, Clone, Copy, PartialEq, Eq, Structural)]
pub enum PendingActivityKind {
    Deposit,
    Withdrawal,
    Transfer,
    PositionTransfer,
    Buy,
    Sell,
    Income,
    Fee,
    DebtDraw,
    DebtPayment,
}

/// The kind a stored kind name denotes.
pub open spec fn pending_kind_spec(name: Seq<char>) -> Option<PendingActivityKind> {
    if name == "deposit"@ { Some(PendingActivityKind::Deposit) }
    else if name == "withdrawal"@ { Some(PendingActivityKind::Withdrawal) }
    else if name == "transfer"@ { Some(PendingActivityKind::Transfer) }
    else if name == "position_transfer"@ { Some(PendingActivityKind::PositionTransfer) }
    else if name == "buy"@ { Some(PendingActivityKind::Buy) }
    else if name == "sell"@ { Some(PendingActivityKind::Sell) }
    else if name == "income"@ { Some(PendingActivityKind::Income) }
    else if name == "fee"@ { Some(PendingActivityKind::Fee) }
    else if name == "debt_draw"@ { Some(PendingActivityKind::DebtDraw) }
    else if name == "debt_payment"@ { Some(PendingActivityKind::DebtPayment) }
    else { None }
}

impl PendingActivityKind {
    /// Reads a stored kind name.
    pub fn parse(name: &str) -> (kind: Result<PendingActivityKind, AppError>)
        ensures
            match kind {
                Ok(k) => pending_kind_spec(name@) == Some(k),
                Err(e) => pending_kind_spec(name@) is None && is_validation_of(e, "kind"@),
            },
    {
        if text_eq(name, "deposit") { Ok(PendingActivityKind::Deposit) }
        else if text_eq(name, "withdrawal") { Ok(PendingActivityKind::Withdrawal) }
        else if text_eq(name, "transfer") { Ok(PendingActivityKind::Transfer) }
        else if text_eq(name, "position_transfer") { Ok(PendingActivityKind::PositionTransfer) }
        else if text_eq(name, "buy") { Ok(PendingActivityKind::Buy) }
        else if text_eq(name, "sell") { Ok(PendingActivityKind::Sell) }
        else if text_eq(name, "income") { Ok(PendingActivityKind::Income) }
        else if text_eq(name, "fee") { Ok(PendingActivityKind::Fee) }
        else if text_eq(name, "debt_draw") { Ok(PendingActivityKind::DebtDraw) }
        else if text_eq(name, "debt_payment") { Ok(PendingActivityKind::DebtPayment) }
        else { Err(AppError::validation("kind", "Pending Activity kind is not supported.")) }
    }
}

/// `value` holds the text `text`.
pub open spec fn holds(value: Option<String>, text: String) -> bool {
    value matches Some(v) && v@ == text@
}

/// The columns a payload of this kind cannot do without are all present.
pub open spec fn record_complete(kind: PendingActivityKind, r: PendingPayloadRecord) -> bool {
    match kind {
        PendingActivityKind::Deposit | PendingActivityKind::Withdrawal =>
            r.endpoint_account_id is Some && r.endpoint_component is Some && r.amount is Some && r.currency is Some,
        PendingActivityKind::Transfer =>
            r.source_account_id is Some && r.source_component is Some && r.source_amount is Some
                && r.source_currency is Some && r.destination_account_id is Some
                && r.destination_component is Some && r.destination_amount is Some
                && r.destination_currency is Some,
        PendingActivityKind::PositionTransfer =>
            r.source_holding_id is Some && r.destination_holding_id is Some && r.quantity is Some,
        PendingActivityKind::Buy | PendingActivityKind::Sell =>
            r.holding_id is Some && r.instrument_id is Some && r.quantity is Some && r.unit_price is Some
                && r.gross_amount is Some && r.gross_currency is Some,
        PendingActivityKind::Income =>
            r.endpoint_account_id is Some && r.endpoint_component is Some && r.amount is Some
                && r.currency is Some && r.income_kind is Some,
        PendingActivityKind::Fee =>
            r.endpoint_account_id is Some && r.endpoint_component is Some && r.amount is Some
                && r.currency is Some && r.fee_kind is Some,
        PendingActivityKind::DebtDraw =>
            r.liability_account_id is Some && r.principal_amount is Some && r.principal_currency is Some,
        PendingActivityKind::DebtPayment =>
            r.liability_account_id is Some && r.principal_amount is Some && r.principal_currency is Some
                && r.cash_account_id is Some && r.cash_component is Some && r.cash_amount is Some
                && r.cash_currency is Some,
    }
}

/// The typed payload is the one the columns of a record of this kind spell.
pub open spec fn input_spells_record(kind: PendingActivityKind, r: PendingPayloadRecord, input: PendingActivityPayloadInput) -> bool {
    match kind {
        PendingActivityKind::Deposit => input matches PendingActivityPayloadInput::Deposit { account_id, component, amount, currency }
            && holds(r.endpoint_account_id, account_id) && holds(r.endpoint_component, component)
            && holds(r.amount, amount) && holds(r.currency, currency),
        PendingActivityKind::Withdrawal => input matches PendingActivityPayloadInput::Withdrawal { account_id, component, amount, currency }
            && holds(r.endpoint_account_id, account_id) && holds(r.endpoint_component, component)
            && holds(r.amount, amount) && holds(r.currency, currency),
        PendingActivityKind::Transfer => input matches PendingActivityPayloadInput::Transfer {
                source_account_id, source_component, source_amount, source_currency,
                destination_account_id, destination_component, destination_amount, destination_currency,
                fee_amount, fee_kind }
            && holds(r.source_account_id, source_account_id) && holds(r.source_component, source_component)
            && holds(r.source_amount, source_amount) && holds(r.source_currency, source_currency)
            && holds(r.destination_account_id, destination_account_id)
            && holds(r.destination_component, destination_component)
            && holds(r.destination_amount, destination_amount)
            && holds(r.destination_currency, destination_currency)
            && fee_amount == r.fee_amount && fee_kind == r.fee_kind,
        PendingActivityKind::PositionTransfer => input matches PendingActivityPayloadInput::PositionTransfer {
                source_holding_id, destination_holding_id, quantity }
            && holds(r.source_holding_id, source_holding_id)
            && holds(r.destination_holding_id, destination_holding_id) && holds(r.quantity, quantity),
        PendingActivityKind::Buy => input matches PendingActivityPayloadInput::Buy {
                holding_id, instrument_id, quantity, unit_price, gross_amount, settlement_currency,
                fee_amount, confirm_zero_unit_price }
            && holds(r.holding_id, holding_id) && holds(r.instrument_id, instrument_id)
            && holds(r.quantity, quantity) && holds(r.unit_price, unit_price)
            && holds(r.gross_amount, gross_amount) && holds(r.gross_currency, settlement_currency)
            && fee_amount == r.fee_amount && confirm_zero_unit_price == r.confirm_zero_unit_price,
        PendingActivityKind::Sell => input matches PendingActivityPayloadInput::Sell {
                holding_id, instrument_id, quantity, unit_price, gross_amount, settlement_currency,
                fee_amount, confirm_zero_unit_price }
            && holds(r.holding_id, holding_id) && holds(r.instrument_id, instrument_id)
            && holds(r.quantity, quantity) && holds(r.unit_price, unit_price)
            && holds(r.gross_amount, gross_amount) && holds(r.gross_currency, settlement_currency)
            && fee_amount == r.fee_amount && confirm_zero_unit_price == r.confirm_zero_unit_price,
        PendingActivityKind::Income => input matches PendingActivityPayloadInput::Income {
                account_id, component, amount, currency, income_kind, instrument_id }
            && holds(r.endpoint_account_id, account_id) && holds(r.endpoint_component, component)
            && holds(r.amount, amount) && holds(r.currency, currency)
            && holds(r.income_kind, income_kind) && instrument_id == r.related_instrument_id,
        PendingActivityKind::Fee => input matches PendingActivityPayloadInput::Fee {
                account_id, component, amount, currency, fee_kind, instrument_id }
            && holds(r.endpoint_account_id, account_id) && holds(r.endpoint_component, component)
            && holds(r.amount, amount) && holds(r.currency, currency)
            && holds(r.fee_kind, fee_kind) && instrument_id == r.related_instrument_id,
        PendingActivityKind::DebtDraw => input matches PendingActivityPayloadInput::DebtDraw {
                liability_account_id, principal_amount, principal_currency, cash_account_id,
                cash_component, cash_amount, cash_currency, fx_rate }
            && holds(r.liability_account_id, liability_account_id)
            && holds(r.principal_amount, principal_amount)
            && holds(r.principal_currency, principal_currency)
            && cash_account_id == r.cash_account_id && cash_component == r.cash_component
            && cash_amount == r.cash_amount && cash_currency == r.cash_currency && fx_rate == r.fx_rate,
        PendingActivityKind::DebtPayment => input matches PendingActivityPayloadInput::DebtPayment {
                liability_account_id, principal_amount, principal_currency, cash_account_id,
                cash_component, cash_amount, cash_currency, fx_rate, fee_amount, fee_kind }
            && holds(r.liability_account_id, liability_account_id)
            && holds(r.principal_amount, principal_amount)
            && holds(r.principal_currency, principal_currency)
            && holds(r.cash_account_id, cash_account_id) && holds(r.cash_component, cash_component)
            && holds(r.cash_amount, cash_amount) && holds(r.cash_currency, cash_currency)
            && fx_rate == r.fx_rate && fee_amount == r.fee_amount && fee_kind == r.fee_kind,
    }
}

fn required(value: &Option<String>, field: &str) -> (text: Result<String, AppError>)
    ensures
        match text {
            Ok(t) => holds(*value, t),
            Err(e) => value is None && (e matches AppError::InvalidPendingActivity { message: m } && m@ == field@),
        },
{
    match value {
        Some(text) => Ok(text.clone()),
        None => Err(AppError::invalid_pending_activity(field)),
    }
}

/// Rebuilds the typed payload from a stored kind and its flat columns.
pub fn pending_input_from_record(kind: &str, record: &PendingPayloadRecord) -> (input: Result<PendingActivityPayloadInput, AppError>)
    ensures
        match input {
            Ok(i) => pending_kind_spec(kind@) matches Some(k) && record_complete(k, *record)
                && input_spells_record(k, *record, i),
            Err(e) => match pending_kind_spec(kind@) {
                None => is_validation_of(e, "kind"@),
                Some(k) => !record_complete(k, *record) && e is InvalidPendingActivity,
            },
        },
{
    let kind = PendingActivityKind::parse(kind)?;
    let r = record;
    match kind {
        PendingActivityKind::Deposit => Ok(PendingActivityPayloadInput::Deposit {
            account_id: required(&r.endpoint_account_id, "endpoint account")?,
            component: required(&r.endpoint_component, "endpoint component")?,
            amount: required(&r.amount, "amount")?,
            currency: required(&r.currency, "currency")?,
        }),
        PendingActivityKind::Withdrawal => Ok(PendingActivityPayloadInput::Withdrawal {
            account_id: required(&r.endpoint_account_id, "endpoint account")?,
            component: required(&r.endpoint_component, "endpoint component")?,
            amount: required(&r.amount, "amount")?,
            currency: required(&r.currency, "currency")?,
        }),
        PendingActivityKind::Transfer => Ok(PendingActivityPayloadInput::Transfer {
            source_account_id: required(&r.source_account_id, "source account")?,
            source_component: required(&r.source_component, "source component")?,
            source_amount: required(&r.source_amount, "source amount")?,
            source_currency: required(&r.source_currency, "source currency")?,
            destination_account_id: required(&r.destination_account_id, "destination account")?,
            destination_component: required(&r.destination_component, "destination component")?,
            destination_amount: required(&r.destination_amount, "destination amount")?,
            destination_currency: required(&r.destination_currency, "destination currency")?,
            fee_amount: clone_opt(&r.fee_amount),
            fee_kind: clone_opt(&r.fee_kind),
        }),
        PendingActivityKind::PositionTransfer => Ok(PendingActivityPayloadInput::PositionTransfer {
            source_holding_id: required(&r.source_holding_id, "source holding")?,
            destination_holding_id: required(&r.destination_holding_id, "destination holding")?,
            quantity: required(&r.quantity, "quantity")?,
        }),
        PendingActivityKind::Buy | PendingActivityKind::Sell => {
            let holding_id = required(&r.holding_id, "holding")?;
            let instrument_id = required(&r.instrument_id, "instrument")?;
            let quantity = required(&r.quantity, "quantity")?;
            let unit_price = required(&r.unit_price, "unit price")?;
            let gross_amount = required(&r.gross_amount, "gross amount")?;
            let settlement_currency = required(&r.gross_currency, "gross currency")?;
            if kind == PendingActivityKind::Buy {
                Ok(PendingActivityPayloadInput::Buy {
                    holding_id,
                    instrument_id,
                    quantity,
                    unit_price,
                    gross_amount,
                    settlement_currency,
                    fee_amount: clone_opt(&r.fee_amount),
                    confirm_zero_unit_price: r.confirm_zero_unit_price,
                })
            } else {
                Ok(PendingActivityPayloadInput::Sell {
                    holding_id,
                    instrument_id,
                    quantity,
                    unit_price,
                    gross_amount,
                    settlement_currency,
                    fee_amount: clone_opt(&r.fee_amount),
                    confirm_zero_unit_price: r.confirm_zero_unit_price,
                })
            }
        },
        PendingActivityKind::Income | PendingActivityKind::Fee => {
            let account_id = required(&r.endpoint_account_id, "endpoint account")?;
            let component = required(&r.endpoint_component, "endpoint component")?;
            let amount = required(&r.amount, "amount")?;
            let currency = required(&r.currency, "currency")?;
            if kind == PendingActivityKind::Income {
                Ok(PendingActivityPayloadInput::Income {
                    account_id,
                    component,
                    amount,
                    currency,
                    income_kind: required(&r.income_kind, "income kind")?,
                    instrument_id: clone_opt(&r.related_instrument_id),
                })
            } else {
                Ok(PendingActivityPayloadInput::Fee {
                    account_id,
                    component,
                    amount,
                    currency,
                    fee_kind: required(&r.fee_kind, "fee kind")?,
                    instrument_id: clone_opt(&r.related_instrument_id),
                })
            }
        },
        PendingActivityKind::DebtDraw => Ok(PendingActivityPayloadInput::DebtDraw {
            liability_account_id: required(&r.liability_account_id, "liability account")?,
            principal_amount: required(&r.principal_amount, "principal amount")?,
            principal_currency: required(&r.principal_currency, "principal currency")?,
            cash_account_id: clone_opt(&r.cash_account_id),
            cash_component: clone_opt(&r.cash_component),
            cash_amount: clone_opt(&r.cash_amount),
            cash_currency: clone_opt(&r.cash_currency),
            fx_rate: clone_opt(&r.fx_rate),
        }),
        PendingActivityKind::DebtPayment => Ok(PendingActivityPayloadInput::DebtPayment {
            liability_account_id: required(&r.liability_account_id, "liability account")?,
            principal_amount: required(&r.principal_amount, "principal amount")?,
            principal_currency: required(&r.principal_currency, "principal currency")?,
            cash_account_id: required(&r.cash_account_id, "cash account")?,
            cash_component: required(&r.cash_component, "cash component")?,
            cash_amount: required(&r.cash_amount, "cash amount")?,
            cash_currency: required(&r.cash_currency, "cash currency")?,
            fx_rate: clone_opt(&r.fx_rate),
            fee_amount: clone_opt(&r.fee_amount),
            fee_kind: clone_opt(&r.fee_kind),
        }),
    }
}

/// The typed payload is the one a stored kind name and its complete
/// columns spell.
pub open spec fn spells(kind_name: Seq<char>, r: PendingPayloadRecord, input: PendingActivityPayloadInput) -> bool {
    pending_kind_spec(kind_name) matches Some(k) && record_complete(k, r) && input_spells_record(k, r, input)
}

/// The pending columns a rule record fills: its own columns, with no
/// holdings or trades.
pub open spec fn widened_rule_record(r: RulePayloadRecord, p: PendingPayloadRecord) -> bool {
    p.endpoint_account_id == r.endpoint_account_id && p.endpoint_component == r.endpoint_component
        && p.amount == r.amount && p.currency == r.currency
        && p.source_account_id == r.source_account_id && p.source_component == r.source_component
        && p.source_amount == r.source_amount && p.source_currency == r.source_currency
        && p.destination_account_id == r.destination_account_id
        && p.destination_component == r.destination_component
        && p.destination_amount == r.destination_amount
        && p.destination_currency == r.destination_currency
        && p.fee_amount == r.fee_amount && p.fee_currency == r.fee_currency && p.fee_kind == r.fee_kind
        && p.income_kind == r.income_kind && p.related_instrument_id == r.related_instrument_id
        && p.liability_account_id == r.liability_account_id && p.principal_amount == r.principal_amount
        && p.principal_currency == r.principal_currency && p.cash_account_id == r.cash_account_id
        && p.cash_component == r.cash_component && p.cash_amount == r.cash_amount
        && p.cash_currency == r.cash_currency && p.fx_rate == r.fx_rate
        && p.source_holding_id is None && p.source_instrument_id is None
        && p.destination_holding_id is None && p.destination_instrument_id is None
        && p.holding_id is None && p.instrument_id is None && p.quantity is None
        && p.unit_price is None && p.gross_amount is None && p.gross_currency is None
        && !p.confirm_zero_unit_price
}

/// Rebuilds the typed payload of a recurring rule from its stored columns.
pub fn pending_input_from_rule_record(kind: &str, record: &RulePayloadRecord) -> (input: Result<PendingActivityPayloadInput, AppError>)
    ensures
        exists|p: PendingPayloadRecord| #[trigger] widened_rule_record(*record, p) && match input {
            Ok(i) => spells(kind@, p, i),
            Err(e) => match pending_kind_spec(kind@) {
                None => is_validation_of(e, "kind"@),
                Some(k) => !record_complete(k, p) && e is InvalidPendingActivity,
            },
        },
{
    let pending = PendingPayloadRecord {
        endpoint_account_id: clone_opt(&record.endpoint_account_id),
        endpoint_component: clone_opt(&record.endpoint_component),
        amount: clone_opt(&record.amount),
        currency: clone_opt(&record.currency),
        source_account_id: clone_opt(&record.source_account_id),
        source_component: clone_opt(&record.source_component),
        source_amount: clone_opt(&record.source_amount),
        source_currency: clone_opt(&record.source_currency),
        source_holding_id: None,
        source_instrument_id: None,
        destination_account_id: clone_opt(&record.destination_account_id),
        destination_component: clone_opt(&record.destination_component),
        destination_amount: clone_opt(&record.destination_amount),
        destination_currency: clone_opt(&record.destination_currency),
        destination_holding_id: None,
        destination_instrument_id: None,
        holding_id: None,
        instrument_id: None,
        quantity: None,
        unit_price: None,
        gross_amount: None,
        gross_currency: None,
        confirm_zero_unit_price: false,
        fee_amount: clone_opt(&record.fee_amount),
        fee_currency: clone_opt(&record.fee_currency),
        fee_kind: clone_opt(&record.fee_kind),
        income_kind: clone_opt(&record.income_kind),
        related_instrument_id: clone_opt(&record.related_instrument_id),
        liability_account_id: clone_opt(&record.liability_account_id),
        principal_amount: clone_opt(&record.principal_amount),
        principal_currency: clone_opt(&record.principal_currency),
        cash_account_id: clone_opt(&record.cash_account_id),
        cash_component: clone_opt(&record.cash_component),
        cash_amount: clone_opt(&record.cash_amount),
        cash_currency: clone_opt(&record.cash_currency),
        fx_rate: clone_opt(&record.fx_rate),
    };
    let input = pending_input_from_record(kind, &pending);
    assert(widened_rule_record(*record, pending));
    input
}

/// An i64 column read back as i32, or an unavailable database when it does
/// not fit.
fn narrow_i32(value: i64) -> (narrowed: Result<i32, AppError>)
    ensures
        match narrowed {
            Ok(n) => n == value,
            Err(e) => (value < i32::MIN || value > i32::MAX) && e is DatabaseUnavailable,
        },
{
    if value < -2147483648 || value > 2147483647 {
        Err(AppError::DatabaseUnavailable)
    } else {
        Ok(value as i32)
    }
}

/// The interface form shows the stored pending Activity.
pub open spec fn shows_pending(row: PendingActivityRecord, d: PendingActivityDto) -> bool {
    d.id == row.id && d.recurring_rule_id == row.recurring_rule_id
        && (match row.recurring_rule_revision {
            Some(r) => d.recurring_rule_revision == Some(r as i32) && i32::MIN <= r <= i32::MAX,
            None => d.recurring_rule_revision is None,
        })
        && d.scheduled_local_date == row.scheduled_local_date
        && d.creation_source == row.creation_source
        && spells(row.kind@, row.payload, d.payload)
        && d.note == row.note && d.status == row.status
        && d.posted_activity_id == row.posted_activity_id && d.skipped_at == row.skipped_at
        && d.created_at == row.created_at && d.updated_at == row.updated_at
}

/// A stored pending Activity that cannot be shown: a revision beyond an
/// `i32`, an unknown kind, or columns missing for its kind.
pub open spec fn pending_unreadable(row: PendingActivityRecord) -> bool {
    (row.recurring_rule_revision matches Some(r) && (r < i32::MIN || r > i32::MAX))
        || pending_kind_spec(row.kind@) is None
        || !record_complete(pending_kind_spec(row.kind@)->Some_0, row.payload)
}

/// The interface form of a stored pending Activity.
pub fn pending_dto(row: &PendingActivityRecord) -> (dto: Result<PendingActivityDto, AppError>)
    ensures
        match dto {
            Ok(d) => shows_pending(*row, d),
            Err(e) => (row.recurring_rule_revision matches Some(r) && (r < i32::MIN || r > i32::MAX) && e is DatabaseUnavailable)
                || pending_kind_spec(row.kind@) is None
                || !record_complete(pending_kind_spec(row.kind@)->Some_0, row.payload),
        },
{
    let revision = match row.recurring_rule_revision {
        Some(value) => Some(narrow_i32(value)?),
        None => None,
    };
    Ok(PendingActivityDto {
        id: row.id.clone(),
        recurring_rule_id: clone_opt(&row.recurring_rule_id),
        recurring_rule_revision: revision,
        scheduled_local_date: row.scheduled_local_date.clone(),
        creation_source: row.creation_source.clone(),
        payload: pending_input_from_record(row.kind.as_str(), &row.payload)?,
        note: clone_opt(&row.note),
        status: row.status.clone(),
        posted_activity_id: clone_opt(&row.posted_activity_id),
        skipped_at: clone_opt(&row.skipped_at),
        created_at: row.created_at.clone(),
        updated_at: row.updated_at.clone(),
    })
}

/// The interface form of a stored recurring rule.
pub fn recurring_rule_dto(row: &RecurringActivityRuleRecord) -> (dto: Result<RecurringActivityRuleDto, AppError>)
    ensures
        dto matches Ok(d) ==> d.id == row.id && d.cadence == row.cadence
            && d.interval_value == row.interval_value && d.start_local_date == row.start_local_date
            && d.end_local_date == row.end_local_date && d.anchor_local_date == row.anchor_local_date
            && d.note == row.note && d.revision == row.revision && d.archived_at == row.archived_at
            && d.created_at == row.created_at && d.updated_at == row.updated_at
            && (exists|p: PendingPayloadRecord| #[trigger] widened_rule_record(row.payload, p)
                && spells(row.kind@, p, d.payload)),
        (i32::MIN <= row.interval_value <= i32::MAX && i32::MIN <= row.revision <= i32::MAX
            && pending_kind_spec(row.kind@) is Some
            && (forall|p: PendingPayloadRecord| #[trigger] widened_rule_record(row.payload, p)
                ==> record_complete(pending_kind_spec(row.kind@)->Some_0, p))) ==> dto is Ok,
        !(i32::MIN <= row.interval_value <= i32::MAX) ==> dto matches Err(AppError::DatabaseUnavailable),
{
    let interval_value = narrow_i32(row.interval_value)?;
    let payload = pending_input_from_rule_record(row.kind.as_str(), &row.payload)?;
    let revision = narrow_i32(row.revision)?;
    Ok(RecurringActivityRuleDto {
        id: row.id.clone(),
        cadence: row.cadence.clone(),
        interval_value,
        start_local_date: row.start_local_date.clone(),
        end_local_date: clone_opt(&row.end_local_date),
        anchor_local_date: row.anchor_local_date.clone(),
        payload,
        note: clone_opt(&row.note),
        revision,
        archived_at: clone_opt(&row.archived_at),
        created_at: row.created_at.clone(),
        updated_at: row.updated_at.clone(),
    })
}

/// Posted and skipped proposals are immutable.
pub fn require_open(row: &PendingActivityRecord) -> (open: Result<(), AppError>)
    ensures
        open is Ok <==> row.status@ == "open"@,
        open matches Err(e) ==> e is Conflict,
{
    if !text_eq(row.status.as_str(), "open") {
        return Err(AppError::conflict("Posted and skipped pending Activities are immutable."));
    }
    Ok(())
}

/// The statuses a pending Activity can have.
pub open spec fn is_pending_status(status: Seq<char>) -> bool {
    status == "open"@ || status == "posted"@ || status == "skipped"@
}

/// Accepts a status filter.
pub fn validate_status(status: &str) -> (valid: Result<(), AppError>)
    ensures
        valid is Ok <==> is_pending_status(status@),
        valid matches Err(e) ==> is_validation_of(e, "status"@),
{
    if text_eq(status, "open") || text_eq(status, "posted") || text_eq(status, "skipped") {
        Ok(())
    } else {
        Err(AppError::validation("status", "Pending Activity status is not supported."))
    }
}

/// The requested page size, 50 when none is given, between 1 and 100.
pub fn page_limit(limit: Option<i32>) -> (size: Result<i64, AppError>)
    ensures
        ({
            let wanted: int = match limit { Some(l) => l as int, None => 50 };
            match size {
                Ok(n) => n == wanted && 1 <= wanted <= 100,
                Err(e) => !(1 <= wanted <= 100) && is_validation_of(e, "limit"@),
            }
        }),
{
    let limit: i64 = match limit {
        Some(value) => value as i64,
        None => DEFAULT_PAGE_SIZE,
    };
    if limit < 1 || limit > MAX_PAGE_SIZE {
        return Err(AppError::validation("limit", "The page size must be between 1 and 100."));
    }
    Ok(limit)
}

/// Failures of a rule's references block it with a stable reason; any
/// other failure marks it unavailable.
pub open spec fn is_reference_failure(error: AppError) -> bool {
    error is Validation || error is InvalidActivity || error is InvalidCategory || error is NotFound
        || error is Conflict || error is InvalidPendingActivity || error is InvalidRecurringRule
}

/// The reason recorded for a recurring rule that could not generate.
pub fn stable_rule_block_reason(error: AppError) -> (reason: String)
    ensures
        is_reference_failure(error) ==> reason@ == "rule_reference_invalid"@,
        !is_reference_failure(error) ==> reason@ == "rule_unavailable"@,
{
    match error {
        AppError::Validation { .. }
        | AppError::InvalidActivity { .. }
        | AppError::InvalidCategory { .. }
        | AppError::NotFound { .. }
        | AppError::Conflict { .. }
        | AppError::InvalidPendingActivity { .. }
        | AppError::InvalidRecurringRule { .. } => String::from_str("rule_reference_invalid"),
        _ => String::from_str("rule_unavailable"),
    }
}

/// Where money moves in or out of an Account.
#[derive(Debug, Clone, Copy, PartialEq, Eq, Structural)]
pub enum MonetaryComponent {
    AccountValue,
    HoldingsCash,
}

/// An Account and the monetary component of it that an Activity touches.
#[derive(Debug, Clone)]
pub struct MonetaryEndpoint {
    pub account_id: String,
    pub component: MonetaryComponent,
}

/// Reads an Account endpoint: the Account id must be an identifier and the
/// component `account_value` or `holdings_cash`.
pub fn monetary_endpoint(account_id: &str, component: &str) -> (endpoint: Result<MonetaryEndpoint, AppError>)
    ensures
        match endpoint {
            Ok(e) => uuid_accepts(account_id@) && e.account_id@ == account_id@
                && (component@ == "account_value"@ ==> e.component == MonetaryComponent::AccountValue)
                && (component@ == "holdings_cash"@ ==> e.component == MonetaryComponent::HoldingsCash)
                && (component@ == "account_value"@ || component@ == "holdings_cash"@),
            Err(e) => (!uuid_accepts(account_id@) && is_validation_of(e, "accountId"@)) || (uuid_accepts(account_id@)
                && !(component@ == "account_value"@ || component@ == "holdings_cash"@) && is_validation_of(e, "component"@)),
        },
{
    require_id("accountId", account_id)?;
    proof {
        reveal_strlit("account_value");
        reveal_strlit("holdings_cash");
    }
    let part = if text_eq(component, "account_value") {
        MonetaryComponent::AccountValue
    } else if text_eq(component, "holdings_cash") {
        MonetaryComponent::HoldingsCash
    } else {
        return Err(AppError::validation("component", "Monetary component is not supported."));
    };
    assert("account_value"@ != "holdings_cash"@) by {
        assert("account_value"@[0] != "holdings_cash"@[0]);
    }
    Ok(MonetaryEndpoint { account_id: String::from_str(account_id), component: part })
}

} // verus!
