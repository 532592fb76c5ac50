//! The checked form of a pending Activity payload: reading it from the
//! interface's text fields and laying it out in the stored columns.

use vstd::prelude::*;

use crate::amount::{canonical_text, decimal_reading, normalized_value, DecimalValue, Money};
use crate::calendar::{date_ordinal, CalendarDate};
use crate::currency::{is_currency_code, CurrencyCode};
use crate::error::{is_validation_of, AppError};
use crate::ids::{optional_id_ok, require_id, require_optional_id, uuid_accepts};
use crate::pending::{
    monetary_endpoint, MonetaryComponent, MonetaryEndpoint, PendingActivityKind, PendingActivityPayloadInput,
    PendingPayloadRecord, RecurringActivityRuleInput, RulePayloadRecord,
};
use crate::quotes::parse_decimal_field;
use crate::text::{clone_opt, opt_view, text_eq};

verus! {

/// The kinds of fee an Activity can carry.
#[derive(Debug, Clone, Copy, PartialEq, Eq, Structural)]
pub enum FeeKind {
    BankFee,
    Other,
}

/// The fee kind a stored name stands for.
pub open spec fn fee_kind_spec(name: Seq<char>) -> Option<FeeKind> {
    if name == "bank_fee"@ {
        Some(FeeKind::BankFee)
    } else if name == "other"@ {
        Some(FeeKind::Other)
    } else {
        None
    }
}

/// The stored name of a fee kind.
pub open spec fn fee_kind_name(kind: FeeKind) -> Seq<char> {
    match kind {
        FeeKind::BankFee => "bank_fee"@,
        FeeKind::Other => "other"@,
    }
}

impl FeeKind {
    /// Reads a fee kind name.
    pub fn parse(name: &str) -> (kind: Result<FeeKind, AppError>)
        ensures
            match kind {
                Ok(k) => fee_kind_spec(name@) == Some(k),
                Err(e) => fee_kind_spec(name@) is None && is_validation_of(e, "feeKind"@),
            },
    {
        if text_eq(name, "bank_fee") {
            Ok(FeeKind::BankFee)
        } else if text_eq(name, "other") {
            Ok(FeeKind::Other)
        } else {
            Err(AppError::validation("feeKind", "The fee kind is not supported."))
        }
    }

    /// The stored name.
    pub fn as_str(&self) -> (name: &'static str)
        ensures
            name@ == fee_kind_name(*self),
    {
        match self {
            FeeKind::BankFee => "bank_fee",
            FeeKind::Other => "other",
        }
    }
}

/// The kinds of income an Activity can record.
#[derive(Debug, Clone, Copy, PartialEq, Eq, Structural)]
pub enum IncomeKind {
    Dividend,
    Interest,
    Other,
}

/// The income kind a stored name stands for.
pub open spec fn income_kind_spec(name: Seq<char>) -> Option<IncomeKind> {
    if name == "dividend"@ {
        Some(IncomeKind::Dividend)
    } else if name == "interest"@ {
        Some(IncomeKind::Interest)
    } else if name == "other"@ {
        Some(IncomeKind::Other)
    } else {
        None
    }
}

/// The stored name of an income kind.
pub open spec fn income_kind_name(kind: IncomeKind) -> Seq<char> {
    match kind {
        IncomeKind::Dividend => "dividend"@,
        IncomeKind::Interest => "interest"@,
        IncomeKind::Other => "other"@,
    }
}

impl IncomeKind {
    /// Reads an income kind name.
    pub fn parse(name: &str) -> (kind: Result<IncomeKind, AppError>)
        ensures
            match kind {
                Ok(k) => income_kind_spec(name@) == Some(k),
                Err(e) => income_kind_spec(name@) is None && is_validation_of(e, "incomeKind"@),
            },
    {
        if text_eq(name, "dividend") {
            Ok(IncomeKind::Dividend)
        } else if text_eq(name, "interest") {
            Ok(IncomeKind::Interest)
        } else if text_eq(name, "other") {
            Ok(IncomeKind::Other)
        } else {
            Err(AppError::validation("incomeKind", "The income kind is not supported."))
        }
    }

    /// The stored name.
    pub fn as_str(&self) -> (name: &'static str)
        ensures
            name@ == income_kind_name(*self),
    {
        match self {
            IncomeKind::Dividend => "dividend",
            IncomeKind::Interest => "interest",
            IncomeKind::Other => "other",
        }
    }
}

/// A Holding of an Account, and its Instrument, that units move out of or
/// into.
#[derive(Debug, Clone)]
pub struct QuantityEndpoint {
    pub account_id: String,
    pub holding_id: String,
    pub instrument_id: String,
}

/// A checked pending Activity payload.
#[derive(Debug)]
#[allow(inconsistent_fields)]
pub enum PendingActivityPayload {
    Deposit { endpoint: MonetaryEndpoint, amount: Money },
    Withdrawal { endpoint: MonetaryEndpoint, amount: Money },
    Transfer {
        source: MonetaryEndpoint,
        source_amount: Money,
        destination: MonetaryEndpoint,
        destination_amount: Money,
        fee: Option<Money>,
        fee_kind: Option<FeeKind>,
    },
    PositionTransfer { source: QuantityEndpoint, destination: QuantityEndpoint, quantity: DecimalValue },
    Buy {
        holding_id: String,
        instrument_id: String,
        quantity: DecimalValue,
        unit_price: DecimalValue,
        gross_amount: Money,
        fee: Option<Money>,
        confirm_zero_unit_price: bool,
    },
    Sell {
        holding_id: String,
        instrument_id: String,
        quantity: DecimalValue,
        unit_price: DecimalValue,
        gross_amount: Money,
        fee: Option<Money>,
        confirm_zero_unit_price: bool,
    },
    Income { endpoint: MonetaryEndpoint, amount: Money, income_kind: IncomeKind, instrument_id: Option<String> },
    Fee { endpoint: MonetaryEndpoint, amount: Money, fee_kind: FeeKind, instrument_id: Option<String> },
    DebtDraw {
        liability_account_id: String,
        principal: Money,
        cash: Option<(MonetaryEndpoint, Money)>,
        fx_rate: Option<DecimalValue>,
    },
    DebtPayment {
        liability_account_id: String,
        principal: Money,
        cash: (MonetaryEndpoint, Money),
        fee: Option<(Money, FeeKind)>,
        fx_rate: Option<DecimalValue>,
    },
}

/// The kind of a payload.
pub open spec fn payload_kind(payload: PendingActivityPayload) -> PendingActivityKind {
    match payload {
        PendingActivityPayload::Deposit { .. } => PendingActivityKind::Deposit,
        PendingActivityPayload::Withdrawal { .. } => PendingActivityKind::Withdrawal,
        PendingActivityPayload::Transfer { .. } => PendingActivityKind::Transfer,
        PendingActivityPayload::PositionTransfer { .. } => PendingActivityKind::PositionTransfer,
        PendingActivityPayload::Buy { .. } => PendingActivityKind::Buy,
        PendingActivityPayload::Sell { .. } => PendingActivityKind::Sell,
        PendingActivityPayload::Income { .. } => PendingActivityKind::Income,
        PendingActivityPayload::Fee { .. } => PendingActivityKind::Fee,
        PendingActivityPayload::DebtDraw { .. } => PendingActivityKind::DebtDraw,
        PendingActivityPayload::DebtPayment { .. } => PendingActivityKind::DebtPayment,
    }
}

/// The stored name of a pending Activity kind.
pub open spec fn kind_name(kind: PendingActivityKind) -> Seq<char> {
    match kind {
        PendingActivityKind::Deposit => "deposit"@,
        PendingActivityKind::Withdrawal => "withdrawal"@,
        PendingActivityKind::Transfer => "transfer"@,
        PendingActivityKind::PositionTransfer => "position_transfer"@,
        PendingActivityKind::Buy => "buy"@,
        PendingActivityKind::Sell => "sell"@,
        PendingActivityKind::Income => "income"@,
        PendingActivityKind::Fee => "fee"@,
        PendingActivityKind::DebtDraw => "debt_draw"@,
        PendingActivityKind::DebtPayment => "debt_payment"@,
    }
}

fn kind_text(kind: PendingActivityKind) -> (name: String)
    ensures
        name@ == kind_name(kind),
{
    let name = match kind {
        PendingActivityKind::Deposit => "deposit",
        PendingActivityKind::Withdrawal => "withdrawal",
        PendingActivityKind::Transfer => "transfer",
        PendingActivityKind::PositionTransfer => "position_transfer",
        PendingActivityKind::Buy => "buy",
        PendingActivityKind::Sell => "sell",
        PendingActivityKind::Income => "income",
        PendingActivityKind::Fee => "fee",
        PendingActivityKind::DebtDraw => "debt_draw",
        PendingActivityKind::DebtPayment => "debt_payment",
    };
    String::from_str(name)
}

/// The stored name of a monetary component.
pub open spec fn component_name(component: MonetaryComponent) -> Seq<char> {
    match component {
        MonetaryComponent::AccountValue => "account_value"@,
        MonetaryComponent::HoldingsCash => "holdings_cash"@,
    }
}

/// The column holds exactly the text.
pub open spec fn shows(column: Option<String>, text: Seq<char>) -> bool {
    opt_view(column) == Some(text)
}

/// The column holds the canonical text of the value, which reads back to
/// the value normalised.
pub open spec fn shows_value(column: Option<String>, value: (i128, u32)) -> bool {
    shows(column, canonical_text(value)) && decimal_reading(canonical_text(value)) == Some(normalized_value(value))
}

/// Four columns spell an endpoint and an amount of money at it.
pub open spec fn shows_endpoint(
    account: Option<String>,
    component: Option<String>,
    amount: Option<String>,
    currency: Option<String>,
    endpoint: MonetaryEndpoint,
    value: Money,
) -> bool {
    &&& shows(account, endpoint.account_id@)
    &&& shows(component, component_name(endpoint.component))
    &&& shows_value(amount, value.amount@)
    &&& shows(currency, value.currency.code())
}

/// The fee columns spell an optional fee amount and an optional fee kind.
pub open spec fn shows_fee(r: PendingPayloadRecord, fee: Option<Money>, kind: Option<FeeKind>) -> bool {
    &&& match fee {
        Some(m) => shows_value(r.fee_amount, m.amount@) && shows(r.fee_currency, m.currency.code()),
        None => r.fee_amount is None && r.fee_currency is None,
    }
    &&& match kind {
        Some(k) => shows(r.fee_kind, fee_kind_name(k)),
        None => r.fee_kind is None,
    }
}

/// The optional identifier column holds the optional identifier.
pub open spec fn shows_optional(column: Option<String>, value: Option<String>) -> bool {
    opt_view(column) == opt_view(value)
}

/// No endpoint columns are used.
pub open spec fn no_endpoint(r: PendingPayloadRecord) -> bool {
    r.endpoint_account_id is None && r.endpoint_component is None && r.amount is None && r.currency is None
}

/// No monetary source or destination columns are used.
pub open spec fn no_transfer(r: PendingPayloadRecord) -> bool {
    &&& r.source_account_id is None && r.source_component is None
    &&& r.source_amount is None && r.source_currency is None
    &&& r.destination_account_id is None && r.destination_component is None
    &&& r.destination_amount is None && r.destination_currency is None
}

/// No position columns are used.
pub open spec fn no_position(r: PendingPayloadRecord) -> bool {
    r.source_holding_id is None && r.source_instrument_id is None && r.destination_holding_id is None
        && r.destination_instrument_id is None
}

/// No trade columns are used.
pub open spec fn no_trade(r: PendingPayloadRecord) -> bool {
    &&& r.holding_id is None && r.instrument_id is None && r.quantity is None
    &&& r.unit_price is None && r.gross_amount is None && r.gross_currency is None
    &&& !r.confirm_zero_unit_price
}

/// No fee, income or related Instrument columns are used.
pub open spec fn no_fee_or_income(r: PendingPayloadRecord) -> bool {
    r.fee_amount is None && r.fee_currency is None && r.fee_kind is None && r.income_kind is None
        && r.related_instrument_id is None
}

/// No debt columns are used.
pub open spec fn no_debt(r: PendingPayloadRecord) -> bool {
    &&& r.liability_account_id is None && r.principal_amount is None && r.principal_currency is None
    &&& r.cash_account_id is None && r.cash_component is None && r.cash_amount is None
    &&& r.cash_currency is None && r.fx_rate is None
}

/// The optional rate column holds the canonical text of the optional rate.
pub open spec fn shows_rate(column: Option<String>, rate: Option<DecimalValue>) -> bool {
    match rate {
        Some(x) => shows_value(column, x@),
        None => column is None,
    }
}

/// The columns of a stored payload spell the checked payload, and every
/// column the payload's kind does not use is empty.
pub open spec fn pending_columns(payload: PendingActivityPayload, r: PendingPayloadRecord) -> bool {
    match payload {
        PendingActivityPayload::Deposit { endpoint, amount } | PendingActivityPayload::Withdrawal { endpoint, amount } => {
            &&& shows_endpoint(r.endpoint_account_id, r.endpoint_component, r.amount, r.currency, endpoint, amount)
            &&& no_transfer(r) && no_position(r) && no_trade(r) && no_fee_or_income(r) && no_debt(r)
        },
        PendingActivityPayload::Transfer { source, source_amount, destination, destination_amount, fee, fee_kind } => {
            &&& shows_endpoint(r.source_account_id, r.source_component, r.source_amount, r.source_currency, source, source_amount)
            &&& shows_endpoint(
                r.destination_account_id,
                r.destination_component,
                r.destination_amount,
                r.destination_currency,
                destination,
                destination_amount,
            )
            &&& shows_fee(r, fee, fee_kind)
            &&& no_endpoint(r) && no_position(r) && no_trade(r) && no_debt(r)
            &&& r.income_kind is None && r.related_instrument_id is None
        },
        PendingActivityPayload::PositionTransfer { source, destination, quantity } => {
            &&& shows(r.source_account_id, source.account_id@)
            &&& shows(r.source_holding_id, source.holding_id@)
            &&& shows(r.source_instrument_id, source.instrument_id@)
            &&& shows(r.destination_account_id, destination.account_id@)
            &&& shows(r.destination_holding_id, destination.holding_id@)
            &&& shows(r.destination_instrument_id, destination.instrument_id@)
            &&& shows(r.quantity, canonical_text(quantity@))
            &&& r.source_component is None && r.source_amount is None && r.source_currency is None
            &&& r.destination_component is None && r.destination_amount is None && r.destination_currency is None
            &&& r.holding_id is None && r.instrument_id is None && r.unit_price is None
            &&& r.gross_amount is None && r.gross_currency is None && !r.confirm_zero_unit_price
            &&& no_endpoint(r) && no_fee_or_income(r) && no_debt(r)
        },
        PendingActivityPayload::Buy { holding_id, instrument_id, quantity, unit_price, gross_amount, fee, confirm_zero_unit_price }
        | PendingActivityPayload::Sell { holding_id, instrument_id, quantity, unit_price, gross_amount, fee, confirm_zero_unit_price } => {
            &&& shows(r.holding_id, holding_id@) && shows(r.instrument_id, instrument_id@)
            &&& shows(r.quantity, canonical_text(quantity@)) && shows(r.unit_price, canonical_text(unit_price@))
            &&& shows(r.gross_amount, canonical_text(gross_amount.amount@))
            &&& shows(r.gross_currency, gross_amount.currency.code())
            &&& r.confirm_zero_unit_price == confirm_zero_unit_price
            &&& shows_fee(r, fee, None)
            &&& no_endpoint(r) && no_transfer(r) && no_position(r) && no_debt(r)
            &&& r.income_kind is None && r.related_instrument_id is None
        },
        PendingActivityPayload::Income { endpoint, amount, income_kind, instrument_id } => {
            &&& shows_endpoint(r.endpoint_account_id, r.endpoint_component, r.amount, r.currency, endpoint, amount)
            &&& shows(r.income_kind, income_kind_name(income_kind))
            &&& shows_optional(r.related_instrument_id, instrument_id)
            &&& r.fee_amount is None && r.fee_currency is None && r.fee_kind is None
            &&& no_transfer(r) && no_position(r) && no_trade(r) && no_debt(r)
        },
        PendingActivityPayload::Fee { endpoint, amount, fee_kind, instrument_id } => {
            &&& shows_endpoint(r.endpoint_account_id, r.endpoint_component, r.amount, r.currency, endpoint, amount)
            &&& shows(r.fee_kind, fee_kind_name(fee_kind))
            &&& shows_optional(r.related_instrument_id, instrument_id)
            &&& r.fee_amount is None && r.fee_currency is None && r.income_kind is None
            &&& no_transfer(r) && no_position(r) && no_trade(r) && no_debt(r)
        },
        PendingActivityPayload::DebtDraw { liability_account_id, principal, cash, fx_rate } => {
            &&& shows(r.liability_account_id, liability_account_id@)
            &&& shows_value(r.principal_amount, principal.amount@)
            &&& shows(r.principal_currency, principal.currency.code())
            &&& match cash {
                Some((endpoint, amount)) => shows_endpoint(
                    r.cash_account_id,
                    r.cash_component,
                    r.cash_amount,
                    r.cash_currency,
                    endpoint,
                    amount,
                ),
                None => r.cash_account_id is None && r.cash_component is None && r.cash_amount is None
                    && r.cash_currency is None,
            }
            &&& shows_rate(r.fx_rate, fx_rate)
            &&& no_endpoint(r) && no_transfer(r) && no_position(r) && no_trade(r) && no_fee_or_income(r)
        },
        PendingActivityPayload::DebtPayment { liability_account_id, principal, cash, fee, fx_rate } => {
            &&& shows(r.liability_account_id, liability_account_id@)
            &&& shows_value(r.principal_amount, principal.amount@)
            &&& shows(r.principal_currency, principal.currency.code())
            &&& shows_endpoint(r.cash_account_id, r.cash_component, r.cash_amount, r.cash_currency, cash.0, cash.1)
            &&& shows_fee(
                r,
                match fee { Some(f) => Some(f.0), None => None },
                match fee { Some(f) => Some(f.1), None => None },
            )
            &&& shows_rate(r.fx_rate, fx_rate)
            &&& no_endpoint(r) && no_transfer(r) && no_position(r) && no_trade(r)
            &&& r.income_kind is None && r.related_instrument_id is None
        },
    }
}

/// A record with every column empty.
pub fn blank_record() -> (record: PendingPayloadRecord)
    ensures
        no_endpoint(record) && no_transfer(record) && no_position(record) && no_trade(record)
            && no_fee_or_income(record) && no_debt(record),
{
    PendingPayloadRecord {
        endpoint_account_id: None,
        endpoint_component: None,
        amount: None,
        currency: None,
        source_account_id: None,
        source_component: None,
        source_amount: None,
        source_currency: None,
        source_holding_id: None,
        source_instrument_id: None,
        destination_account_id: None,
        destination_component: None,
        destination_amount: None,
        destination_currency: None,
        destination_holding_id: None,
        destination_instrument_id: None,
        holding_id: None,
        instrument_id: None,
        quantity: None,
        unit_price: None,
        gross_amount: None,
        gross_currency: None,
        confirm_zero_unit_price: false,
        fee_amount: None,
        fee_currency: None,
        fee_kind: None,
        income_kind: None,
        related_instrument_id: None,
        liability_account_id: None,
        principal_amount: None,
        principal_currency: None,
        cash_account_id: None,
        cash_component: None,
        cash_amount: None,
        cash_currency: None,
        fx_rate: None,
    }
}

fn component_text(component: MonetaryComponent) -> (name: String)
    ensures
        name@ == component_name(component),
{
    match component {
        MonetaryComponent::AccountValue => String::from_str("account_value"),
        MonetaryComponent::HoldingsCash => String::from_str("holdings_cash"),
    }
}

/// Writes an endpoint and an amount of money at it into four columns.
pub fn set_endpoint(
    account_id: &mut Option<String>,
    component: &mut Option<String>,
    amount: &mut Option<String>,
    currency: &mut Option<String>,
    endpoint: &MonetaryEndpoint,
    value: Money,
)
    ensures
        shows_endpoint(*final(account_id), *final(component), *final(amount), *final(currency), *endpoint, value),
{
    *account_id = Some(endpoint.account_id.clone());
    *component = Some(component_text(endpoint.component));
    *amount = Some(value.canonical_amount());
    *currency = Some(value.currency.to_text());
}

/// Writes an optional fee amount and an optional fee kind into the fee
/// columns of a pending record; an absent amount leaves its columns alone.
pub fn set_fee(record: &mut PendingPayloadRecord, amount: Option<Money>, kind: Option<FeeKind>)
    ensures
        match amount {
            Some(m) => shows_value(final(record).fee_amount, m.amount@)
                && shows(final(record).fee_currency, m.currency.code()),
            None => final(record).fee_amount == old(record).fee_amount
                && final(record).fee_currency == old(record).fee_currency,
        },
        match kind {
            Some(k) => shows(final(record).fee_kind, fee_kind_name(k)),
            None => final(record).fee_kind is None,
        },
        same_except_fee(*old(record), *final(record)),
{
    if let Some(money) = amount {
        record.fee_amount = Some(money.canonical_amount());
        record.fee_currency = Some(money.currency.to_text());
    }
    record.fee_kind = match kind {
        Some(k) => Some(String::from_str(k.as_str())),
        None => None,
    };
}

/// Two pending records agree on every column but the fee columns.
pub open spec fn same_except_fee(a: PendingPayloadRecord, b: PendingPayloadRecord) -> bool {
    b == PendingPayloadRecord { fee_amount: b.fee_amount, fee_currency: b.fee_currency, fee_kind: b.fee_kind, ..a }
}

/// Two rule records agree on every column but the fee columns.
pub open spec fn rule_same_except_fee(a: RulePayloadRecord, b: RulePayloadRecord) -> bool {
    b == RulePayloadRecord { fee_amount: b.fee_amount, fee_currency: b.fee_currency, fee_kind: b.fee_kind, ..a }
}

/// Writes an optional fee amount and an optional fee kind into the fee
/// columns of a rule record; an absent amount leaves its columns alone.
pub fn set_rule_fee(record: &mut RulePayloadRecord, amount: Option<Money>, kind: Option<FeeKind>)
    ensures
        match amount {
            Some(m) => shows_value(final(record).fee_amount, m.amount@)
                && shows(final(record).fee_currency, m.currency.code()),
            None => final(record).fee_amount == old(record).fee_amount
                && final(record).fee_currency == old(record).fee_currency,
        },
        match kind {
            Some(k) => shows(final(record).fee_kind, fee_kind_name(k)),
            None => final(record).fee_kind is None,
        },
        rule_same_except_fee(*old(record), *final(record)),
{
    if let Some(money) = amount {
        record.fee_amount = Some(money.canonical_amount());
        record.fee_currency = Some(money.currency.to_text());
    }
    record.fee_kind = match kind {
        Some(k) => Some(String::from_str(k.as_str())),
        None => None,
    };
}

/// Lays a checked payload out in the stored columns, with its kind's name.
pub fn pending_record_from_payload(payload: &PendingActivityPayload) -> (stored: Result<(String, PendingPayloadRecord), AppError>)
    ensures
        stored matches Ok(pair) && pair.0@ == kind_name(payload_kind(*payload)) && pending_columns(*payload, pair.1),
{
    let mut record = blank_record();
    let kind = match payload {
        PendingActivityPayload::Deposit { endpoint, amount } => {
            set_endpoint(
                &mut record.endpoint_account_id,
                &mut record.endpoint_component,
                &mut record.amount,
                &mut record.currency,
                endpoint,
                *amount,
            );
            PendingActivityKind::Deposit
        },
        PendingActivityPayload::Withdrawal { endpoint, amount } => {
            set_endpoint(
                &mut record.endpoint_account_id,
                &mut record.endpoint_component,
                &mut record.amount,
                &mut record.currency,
                endpoint,
                *amount,
            );
            PendingActivityKind::Withdrawal
        },
        PendingActivityPayload::Transfer { source, source_amount, destination, destination_amount, fee, fee_kind } => {
            set_endpoint(
                &mut record.source_account_id,
                &mut record.source_component,
                &mut record.source_amount,
                &mut record.source_currency,
                source,
                *source_amount,
            );
            set_endpoint(
                &mut record.destination_account_id,
                &mut record.destination_component,
                &mut record.destination_amount,
                &mut record.destination_currency,
                destination,
                *destination_amount,
            );
            set_fee(&mut record, *fee, *fee_kind);
            PendingActivityKind::Transfer
        },
        PendingActivityPayload::PositionTransfer { source, destination, quantity } => {
            record.source_account_id = Some(source.account_id.clone());
            record.source_holding_id = Some(source.holding_id.clone());
            record.source_instrument_id = Some(source.instrument_id.clone());
            record.destination_account_id = Some(destination.account_id.clone());
            record.destination_holding_id = Some(destination.holding_id.clone());
            record.destination_instrument_id = Some(destination.instrument_id.clone());
            record.quantity = Some(quantity.canonical());
            PendingActivityKind::PositionTransfer
        },
        PendingActivityPayload::Buy { holding_id, instrument_id, quantity, unit_price, gross_amount, fee, confirm_zero_unit_price } => {
            record.holding_id = Some(holding_id.clone());
            record.instrument_id = Some(instrument_id.clone());
            record.quantity = Some(quantity.canonical());
            record.unit_price = Some(unit_price.canonical());
            record.gross_amount = Some(gross_amount.canonical_amount());
            record.gross_currency = Some(gross_amount.currency.to_text());
            record.confirm_zero_unit_price = *confirm_zero_unit_price;
            if let Some(fee) = fee {
                record.fee_amount = Some(fee.canonical_amount());
                record.fee_currency = Some(fee.currency.to_text());
            }
            PendingActivityKind::Buy
        },
        PendingActivityPayload::Sell { holding_id, instrument_id, quantity, unit_price, gross_amount, fee, confirm_zero_unit_price } => {
            record.holding_id = Some(holding_id.clone());
            record.instrument_id = Some(instrument_id.clone());
            record.quantity = Some(quantity.canonical());
            record.unit_price = Some(unit_price.canonical());
            record.gross_amount = Some(gross_amount.canonical_amount());
            record.gross_currency = Some(gross_amount.currency.to_text());
            record.confirm_zero_unit_price = *confirm_zero_unit_price;
            if let Some(fee) = fee {
                record.fee_amount = Some(fee.canonical_amount());
                record.fee_currency = Some(fee.currency.to_text());
            }
            PendingActivityKind::Sell
        },
        PendingActivityPayload::Income { endpoint, amount, income_kind, instrument_id } => {
            set_endpoint(
                &mut record.endpoint_account_id,
                &mut record.endpoint_component,
                &mut record.amount,
                &mut record.currency,
                endpoint,
                *amount,
            );
            record.income_kind = Some(String::from_str(income_kind.as_str()));
            record.related_instrument_id = clone_opt(instrument_id);
            PendingActivityKind::Income
        },
        PendingActivityPayload::Fee { endpoint, amount, fee_kind, instrument_id } => {
            set_endpoint(
                &mut record.endpoint_account_id,
                &mut record.endpoint_component,
                &mut record.amount,
                &mut record.currency,
                endpoint,
                *amount,
            );
            record.fee_kind = Some(String::from_str(fee_kind.as_str()));
            record.related_instrument_id = clone_opt(instrument_id);
            PendingActivityKind::Fee
        },
        PendingActivityPayload::DebtDraw { liability_account_id, principal, cash, fx_rate } => {
            record.liability_account_id = Some(liability_account_id.clone());
            record.principal_amount = Some(principal.canonical_amount());
            record.principal_currency = Some(principal.currency.to_text());
            if let Some((endpoint, amount)) = cash {
                set_endpoint(
                    &mut record.cash_account_id,
                    &mut record.cash_component,
                    &mut record.cash_amount,
                    &mut record.cash_currency,
                    endpoint,
                    *amount,
                );
            }
            record.fx_rate = canonical_rate(fx_rate);
            PendingActivityKind::DebtDraw
        },
        PendingActivityPayload::DebtPayment { liability_account_id, principal, cash, fee, fx_rate } => {
            record.liability_account_id = Some(liability_account_id.clone());
            record.principal_amount = Some(principal.canonical_amount());
            record.principal_currency = Some(principal.currency.to_text());
            set_endpoint(
                &mut record.cash_account_id,
                &mut record.cash_component,
                &mut record.cash_amount,
                &mut record.cash_currency,
                &cash.0,
                cash.1,
            );
            let (fee_amount, fee_kind) = match fee {
                Some(pair) => (Some(pair.0), Some(pair.1)),
                None => (None, None),
            };
            set_fee(&mut record, fee_amount, fee_kind);
            record.fx_rate = canonical_rate(fx_rate);
            PendingActivityKind::DebtPayment
        },
    };
    Ok((kind_text(kind), record))
}

/// The canonical text of an optional rate.
fn canonical_rate(rate: &Option<DecimalValue>) -> (text: Option<String>)
    ensures
        shows_rate(text, *rate),
{
    match rate {
        Some(value) => Some(value.canonical()),
        None => None,
    }
}

/// The pending columns of a rule record: its own, with the holding and
/// trade columns empty.
pub open spec fn widen(r: RulePayloadRecord) -> PendingPayloadRecord {
    PendingPayloadRecord {
        endpoint_account_id: r.endpoint_account_id,
        endpoint_component: r.endpoint_component,
        amount: r.amount,
        currency: r.currency,
        source_account_id: r.source_account_id,
        source_component: r.source_component,
        source_amount: r.source_amount,
        source_currency: r.source_currency,
        source_holding_id: None,
        source_instrument_id: None,
        destination_account_id: r.destination_account_id,
        destination_component: r.destination_component,
        destination_amount: r.destination_amount,
        destination_currency: r.destination_currency,
        destination_holding_id: None,
        destination_instrument_id: None,
        holding_id: None,
        instrument_id: None,
        quantity: None,
        unit_price: None,
        gross_amount: None,
        gross_currency: None,
        confirm_zero_unit_price: false,
        fee_amount: r.fee_amount,
        fee_currency: r.fee_currency,
        fee_kind: r.fee_kind,
        income_kind: r.income_kind,
        related_instrument_id: r.related_instrument_id,
        liability_account_id: r.liability_account_id,
        principal_amount: r.principal_amount,
        principal_currency: r.principal_currency,
        cash_account_id: r.cash_account_id,
        cash_component: r.cash_component,
        cash_amount: r.cash_amount,
        cash_currency: r.cash_currency,
        fx_rate: r.fx_rate,
    }
}

/// Payloads that move holdings or trade cannot recur.
pub open spec fn recurs(payload: PendingActivityPayload) -> bool {
    !(payload is PositionTransfer || payload is Buy || payload is Sell)
}

/// The error for a payload that cannot recur.
pub open spec fn is_unsupported_by_rules(error: AppError) -> bool {
    error matches AppError::InvalidRecurringRule { message }
        && message@ == "This Activity payload is not supported by recurring rules."@
}

fn blank_rule_record() -> (record: RulePayloadRecord)
    ensures
        no_endpoint(widen(record)) && no_transfer(widen(record)) && no_fee_or_income(widen(record))
            && no_debt(widen(record)),
{
    RulePayloadRecord {
        endpoint_account_id: None,
        endpoint_component: None,
        amount: None,
        currency: None,
        source_account_id: None,
        source_component: None,
        source_amount: None,
        source_currency: None,
        destination_account_id: None,
        destination_component: None,
        destination_amount: None,
        destination_currency: None,
        fee_amount: None,
        fee_currency: None,
        fee_kind: None,
        income_kind: None,
        related_instrument_id: None,
        liability_account_id: None,
        principal_amount: None,
        principal_currency: None,
        cash_account_id: None,
        cash_component: None,
        cash_amount: None,
        cash_currency: None,
        fx_rate: None,
    }
}

/// Lays a checked payload out in a recurring rule's columns, with its
/// kind's name; payloads that move holdings or trade are refused.
pub fn rule_record_from_payload(payload: &PendingActivityPayload) -> (stored: Result<(String, RulePayloadRecord), AppError>)
    ensures
        match stored {
            Ok(pair) => recurs(*payload) && pair.0@ == kind_name(payload_kind(*payload))
                && pending_columns(*payload, widen(pair.1)),
            Err(e) => !recurs(*payload) && is_unsupported_by_rules(e),
        },
{
    let mut record = blank_rule_record();
    let kind = match payload {
        PendingActivityPayload::Deposit { endpoint, amount } => {
            set_endpoint(
                &mut record.endpoint_account_id,
                &mut record.endpoint_component,
                &mut record.amount,
                &mut record.currency,
                endpoint,
                *amount,
            );
            PendingActivityKind::Deposit
        },
        PendingActivityPayload::Withdrawal { endpoint, amount } => {
            set_endpoint(
                &mut record.endpoint_account_id,
                &mut record.endpoint_component,
                &mut record.amount,
                &mut record.currency,
                endpoint,
                *amount,
            );
            PendingActivityKind::Withdrawal
        },
        PendingActivityPayload::Transfer { source, source_amount, destination, destination_amount, fee, fee_kind } => {
            set_endpoint(
                &mut record.source_account_id,
                &mut record.source_component,
                &mut record.source_amount,
                &mut record.source_currency,
                source,
                *source_amount,
            );
            set_endpoint(
                &mut record.destination_account_id,
                &mut record.destination_component,
                &mut record.destination_amount,
                &mut record.destination_currency,
                destination,
                *destination_amount,
            );
            set_rule_fee(&mut record, *fee, *fee_kind);
            PendingActivityKind::Transfer
        },
        PendingActivityPayload::Income { endpoint, amount, income_kind, instrument_id } => {
            set_endpoint(
                &mut record.endpoint_account_id,
                &mut record.endpoint_component,
                &mut record.amount,
                &mut record.currency,
                endpoint,
                *amount,
            );
            record.income_kind = Some(String::from_str(income_kind.as_str()));
            record.related_instrument_id = clone_opt(instrument_id);
            PendingActivityKind::Income
        },
        PendingActivityPayload::Fee { endpoint, amount, fee_kind, instrument_id } => {
            set_endpoint(
                &mut record.endpoint_account_id,
                &mut record.endpoint_component,
                &mut record.amount,
                &mut record.currency,
                endpoint,
                *amount,
            );
            record.fee_kind = Some(String::from_str(fee_kind.as_str()));
            record.related_instrument_id = clone_opt(instrument_id);
            PendingActivityKind::Fee
        },
        PendingActivityPayload::DebtDraw { liability_account_id, principal, cash, fx_rate } => {
            record.liability_account_id = Some(liability_account_id.clone());
            record.principal_amount = Some(principal.canonical_amount());
            record.principal_currency = Some(principal.currency.to_text());
            if let Some((endpoint, amount)) = cash {
                set_endpoint(
                    &mut record.cash_account_id,
                    &mut record.cash_component,
                    &mut record.cash_amount,
                    &mut record.cash_currency,
                    endpoint,
                    *amount,
                );
            }
            record.fx_rate = canonical_rate(fx_rate);
            PendingActivityKind::DebtDraw
        },
        PendingActivityPayload::DebtPayment { liability_account_id, principal, cash, fee, fx_rate } => {
            record.liability_account_id = Some(liability_account_id.clone());
            record.principal_amount = Some(principal.canonical_amount());
            record.principal_currency = Some(principal.currency.to_text());
            set_endpoint(
                &mut record.cash_account_id,
                &mut record.cash_component,
                &mut record.cash_amount,
                &mut record.cash_currency,
                &cash.0,
                cash.1,
            );
            let (fee_amount, fee_kind) = match fee {
                Some(pair) => (Some(pair.0), Some(pair.1)),
                None => (None, None),
            };
            set_rule_fee(&mut record, fee_amount, fee_kind);
            record.fx_rate = canonical_rate(fx_rate);
            PendingActivityKind::DebtPayment
        },
        PendingActivityPayload::PositionTransfer { .. } | PendingActivityPayload::Buy { .. }
        | PendingActivityPayload::Sell { .. } => {
            return Err(AppError::invalid_recurring_rule(
                "This Activity payload is not supported by recurring rules.",
            ));
        },
    };
    Ok((kind_text(kind), record))
}

/// An Account id and component text name a monetary endpoint.
pub open spec fn endpoint_ok(account: Seq<char>, component: Seq<char>) -> bool {
    uuid_accepts(account) && (component == "account_value"@ || component == "holdings_cash"@)
}

/// The endpoint is the one the texts name.
pub open spec fn reads_endpoint(account: Seq<char>, component: Seq<char>, endpoint: MonetaryEndpoint) -> bool {
    endpoint.account_id@ == account && component_name(endpoint.component) == component
}

/// An amount text and a currency text name an amount of money.
pub open spec fn money_ok(amount: Seq<char>, currency: Seq<char>) -> bool {
    is_currency_code(currency) && decimal_reading(amount) is Some
}

/// The money is the amount the texts name.
pub open spec fn reads_money(amount: Seq<char>, currency: Seq<char>, value: Money) -> bool {
    decimal_reading(amount) == Some(value.amount@) && value.currency.code() == currency
}

/// A fee is given whole (amount and kind) or not at all.
pub open spec fn fee_pair_ok(amount: Option<String>, kind: Option<String>) -> bool {
    match (amount, kind) {
        (None, None) => true,
        (Some(a), Some(k)) => decimal_reading(a@) is Some && fee_kind_spec(k@) is Some,
        _ => false,
    }
}

/// The fee is the one the texts name, in the given currency.
pub open spec fn reads_fee_pair(
    amount: Option<String>,
    kind: Option<String>,
    currency: Seq<char>,
    fee: Option<(Money, FeeKind)>,
) -> bool {
    match (amount, kind) {
        (Some(a), Some(k)) => fee matches Some(pair) && reads_money(a@, currency, pair.0)
            && fee_kind_spec(k@) == Some(pair.1),
        _ => fee is None,
    }
}

/// The optional rate is the one the optional text names.
pub open spec fn reads_rate(text: Option<String>, rate: Option<DecimalValue>) -> bool {
    match text {
        Some(t) => rate matches Some(r) && decimal_reading(t@) == Some(r@),
        None => rate is None,
    }
}

/// An optional rate text is absent or a decimal.
pub open spec fn rate_ok(text: Option<String>) -> bool {
    match text {
        Some(t) => decimal_reading(t@) is Some,
        None => true,
    }
}

/// The optional identifier is the one the optional text names.
pub open spec fn reads_optional_id(text: Option<String>, id: Option<String>) -> bool {
    opt_view(text) == opt_view(id)
}

/// The payload text fields of a recurring kind name a checked payload.
pub open spec fn readable(input: PendingActivityPayloadInput) -> bool {
    match input {
        PendingActivityPayloadInput::Deposit { account_id, component, amount, currency }
        | PendingActivityPayloadInput::Withdrawal { account_id, component, amount, currency } =>
            endpoint_ok(account_id@, component@) && money_ok(amount@, currency@),
        PendingActivityPayloadInput::Transfer {
            source_account_id, source_component, source_amount, source_currency, destination_account_id,
            destination_component, destination_amount, destination_currency, fee_amount, fee_kind,
        } => {
            &&& money_ok(source_amount@, source_currency@) && fee_pair_ok(fee_amount, fee_kind)
            &&& endpoint_ok(source_account_id@, source_component@)
            &&& endpoint_ok(destination_account_id@, destination_component@)
            &&& money_ok(destination_amount@, destination_currency@)
        },
        PendingActivityPayloadInput::Income { account_id, component, amount, currency, income_kind, instrument_id } =>
            endpoint_ok(account_id@, component@) && money_ok(amount@, currency@)
                && income_kind_spec(income_kind@) is Some && optional_id_ok(instrument_id),
        PendingActivityPayloadInput::Fee { account_id, component, amount, currency, fee_kind, instrument_id } =>
            endpoint_ok(account_id@, component@) && money_ok(amount@, currency@)
                && fee_kind_spec(fee_kind@) is Some && optional_id_ok(instrument_id),
        PendingActivityPayloadInput::DebtDraw {
            liability_account_id, principal_amount, principal_currency, cash_account_id, cash_component,
            cash_amount, cash_currency, fx_rate,
        } => {
            &&& uuid_accepts(liability_account_id@) && money_ok(principal_amount@, principal_currency@)
            &&& match (cash_account_id, cash_component, cash_amount, cash_currency) {
                (None, None, None, None) => true,
                (Some(a), Some(c), Some(m), Some(k)) => endpoint_ok(a@, c@) && money_ok(m@, k@),
                _ => false,
            }
            &&& rate_ok(fx_rate)
        },
        PendingActivityPayloadInput::DebtPayment {
            liability_account_id, principal_amount, principal_currency, cash_account_id, cash_component,
            cash_amount, cash_currency, fx_rate, fee_amount, fee_kind,
        } => {
            &&& money_ok(cash_amount@, cash_currency@) && fee_pair_ok(fee_amount, fee_kind)
            &&& uuid_accepts(liability_account_id@) && money_ok(principal_amount@, principal_currency@)
            &&& endpoint_ok(cash_account_id@, cash_component@) && rate_ok(fx_rate)
        },
        PendingActivityPayloadInput::PositionTransfer { .. } | PendingActivityPayloadInput::Buy { .. }
        | PendingActivityPayloadInput::Sell { .. } => false,
    }
}

/// The checked payload is the one the text fields name.
pub open spec fn reads_payload(input: PendingActivityPayloadInput, payload: PendingActivityPayload) -> bool {
    match input {
        PendingActivityPayloadInput::Deposit { account_id, component, amount, currency } =>
            payload matches PendingActivityPayload::Deposit { endpoint, amount: m }
                && reads_endpoint(account_id@, component@, endpoint) && reads_money(amount@, currency@, m),
        PendingActivityPayloadInput::Withdrawal { account_id, component, amount, currency } =>
            payload matches PendingActivityPayload::Withdrawal { endpoint, amount: m }
                && reads_endpoint(account_id@, component@, endpoint) && reads_money(amount@, currency@, m),
        PendingActivityPayloadInput::Transfer {
            source_account_id, source_component, source_amount, source_currency, destination_account_id,
            destination_component, destination_amount, destination_currency, fee_amount, fee_kind,
        } => payload matches PendingActivityPayload::Transfer {
                source, source_amount: sm, destination, destination_amount: dm, fee, fee_kind: fk }
            && reads_endpoint(source_account_id@, source_component@, source)
            && reads_money(source_amount@, source_currency@, sm)
            && reads_endpoint(destination_account_id@, destination_component@, destination)
            && reads_money(destination_amount@, destination_currency@, dm)
            && reads_fee_pair(
                fee_amount,
                fee_kind,
                source_currency@,
                match (fee, fk) { (Some(m), Some(k)) => Some((m, k)), _ => None },
            )
            && (fee is Some <==> fk is Some),
        PendingActivityPayloadInput::Income { account_id, component, amount, currency, income_kind, instrument_id } =>
            payload matches PendingActivityPayload::Income { endpoint, amount: m, income_kind: k, instrument_id: i }
                && reads_endpoint(account_id@, component@, endpoint) && reads_money(amount@, currency@, m)
                && income_kind_spec(income_kind@) == Some(k) && reads_optional_id(instrument_id, i),
        PendingActivityPayloadInput::Fee { account_id, component, amount, currency, fee_kind, instrument_id } =>
            payload matches PendingActivityPayload::Fee { endpoint, amount: m, fee_kind: k, instrument_id: i }
                && reads_endpoint(account_id@, component@, endpoint) && reads_money(amount@, currency@, m)
                && fee_kind_spec(fee_kind@) == Some(k) && reads_optional_id(instrument_id, i),
        PendingActivityPayloadInput::DebtDraw {
            liability_account_id, principal_amount, principal_currency, cash_account_id, cash_component,
            cash_amount, cash_currency, fx_rate,
        } => payload matches PendingActivityPayload::DebtDraw { liability_account_id: l, principal, cash, fx_rate: r }
            && l@ == liability_account_id@ && reads_money(principal_amount@, principal_currency@, principal)
            && reads_rate(fx_rate, r)
            && match (cash_account_id, cash_component, cash_amount, cash_currency) {
                (Some(a), Some(c), Some(m), Some(k)) => cash matches Some(pair)
                    && reads_endpoint(a@, c@, pair.0) && reads_money(m@, k@, pair.1),
                _ => cash is None,
            },
        PendingActivityPayloadInput::DebtPayment {
            liability_account_id, principal_amount, principal_currency, cash_account_id, cash_component,
            cash_amount, cash_currency, fx_rate, fee_amount, fee_kind,
        } => payload matches PendingActivityPayload::DebtPayment { liability_account_id: l, principal, cash, fee, fx_rate: r }
            && l@ == liability_account_id@ && reads_money(principal_amount@, principal_currency@, principal)
            && reads_endpoint(cash_account_id@, cash_component@, cash.0)
            && reads_money(cash_amount@, cash_currency@, cash.1)
            && reads_fee_pair(fee_amount, fee_kind, cash_currency@, fee)
            && reads_rate(fx_rate, r),
        _ => false,
    }
}

/// Reads an amount in a currency: the currency first, then the amount.
pub fn parse_money(amount: &str, currency: &str) -> (money: Result<Money, AppError>)
    ensures
        match money {
            Ok(m) => money_ok(amount@, currency@) && reads_money(amount@, currency@, m),
            Err(e) => !money_ok(amount@, currency@),
        },
{
    let code = CurrencyCode::parse(currency)?;
    Money::parse(amount, code)
}

/// Reads an optional fee in a currency: amount and kind together, or
/// neither; one without the other is a validation error on `field`.
pub fn optional_fee(
    amount: Option<String>,
    kind: Option<String>,
    currency: CurrencyCode,
    field: &str,
) -> (fee: Result<Option<(Money, FeeKind)>, AppError>)
    ensures
        match fee {
            Ok(f) => fee_pair_ok(amount, kind) && reads_fee_pair(amount, kind, currency.code(), f),
            Err(e) => !fee_pair_ok(amount, kind)
                && ((amount is Some) != (kind is Some) ==> is_validation_of(e, field@)),
        },
{
    match (amount, kind) {
        (None, None) => Ok(None),
        (Some(amount), Some(kind)) => {
            let code = currency.to_text();
            let money = parse_money(amount.as_str(), code.as_str())?;
            let fee_kind = FeeKind::parse(kind.as_str())?;
            Ok(Some((money, fee_kind)))
        },
        _ => Err(AppError::validation(field, "Fee amount and fee kind must be supplied together.")),
    }
}

pub(crate) fn read_endpoint(account_id: &str, component: &str) -> (endpoint: Result<MonetaryEndpoint, AppError>)
    ensures
        match endpoint {
            Ok(e) => endpoint_ok(account_id@, component@) && reads_endpoint(account_id@, component@, e),
            Err(e) => !endpoint_ok(account_id@, component@) && (uuid_accepts(account_id@) ==> is_validation_of(
                e,
                "component"@,
            )),
        },
{
    let endpoint = monetary_endpoint(account_id, component)?;
    Ok(endpoint)
}

pub(crate) fn read_rate(text: &Option<String>) -> (rate: Result<Option<DecimalValue>, AppError>)
    ensures
        match rate {
            Ok(r) => rate_ok(*text) && reads_rate(*text, r),
            Err(e) => !rate_ok(*text) && is_validation_of(e, "rate"@),
        },
{
    match text {
        Some(t) => {
            let value = parse_decimal_field("rate", t.as_str())?;
            Ok(Some(value))
        },
        None => Ok(None),
    }
}

fn copy_optional_id(text: &Option<String>) -> (id: Result<Option<String>, AppError>)
    ensures
        match id {
            Ok(i) => optional_id_ok(*text) && reads_optional_id(*text, i),
            Err(e) => !optional_id_ok(*text) && is_validation_of(e, "instrumentId"@),
        },
{
    require_optional_id("instrumentId", text)?;
    Ok(clone_opt(text))
}

/// The error a recurring payload reader gives for the first defect it
/// meets: a bad component of the first endpoint read, a fee given by half,
/// or debt cash fields given by half.
pub open spec fn recurring_defect_error(input: PendingActivityPayloadInput, e: AppError) -> bool {
    match input {
        PendingActivityPayloadInput::Deposit { account_id, component, .. }
        | PendingActivityPayloadInput::Withdrawal { account_id, component, .. }
        | PendingActivityPayloadInput::Income { account_id, component, .. }
        | PendingActivityPayloadInput::Fee { account_id, component, .. } => (uuid_accepts(account_id@) && !(component@
            == "account_value"@ || component@ == "holdings_cash"@)) ==> is_validation_of(e, "component"@),
        PendingActivityPayloadInput::Transfer {
            source_account_id, source_component, source_amount, source_currency, destination_account_id,
            destination_component, fee_amount, fee_kind, ..
        } => {
            &&& (is_currency_code(source_currency@) && (fee_amount is Some) != (fee_kind is Some)) ==> is_validation_of(
                e,
                "feeAmount"@,
            )
            &&& (is_currency_code(source_currency@) && fee_pair_ok(fee_amount, fee_kind) && uuid_accepts(
                source_account_id@,
            ) && !endpoint_component_ok(source_component@)) ==> is_validation_of(e, "component"@)
            &&& (is_currency_code(source_currency@) && fee_pair_ok(fee_amount, fee_kind) && endpoint_ok(
                source_account_id@,
                source_component@,
            ) && money_ok(source_amount@, source_currency@) && uuid_accepts(destination_account_id@)
                && !endpoint_component_ok(destination_component@)) ==> is_validation_of(e, "component"@)
        },
        PendingActivityPayloadInput::DebtPayment {
            liability_account_id, principal_amount, principal_currency, cash_account_id, cash_component,
            cash_currency, fee_amount, fee_kind, ..
        } => {
            &&& (is_currency_code(cash_currency@) && (fee_amount is Some) != (fee_kind is Some)) ==> is_validation_of(
                e,
                "feeAmount"@,
            )
            &&& (is_currency_code(cash_currency@) && fee_pair_ok(fee_amount, fee_kind) && uuid_accepts(
                liability_account_id@,
            ) && money_ok(principal_amount@, principal_currency@) && uuid_accepts(cash_account_id@)
                && !endpoint_component_ok(cash_component@)) ==> is_validation_of(e, "component"@)
        },
        PendingActivityPayloadInput::DebtDraw {
            liability_account_id, principal_amount, principal_currency, cash_account_id, cash_component, cash_amount,
            cash_currency, ..
        } => ((uuid_accepts(liability_account_id@) && money_ok(principal_amount@, principal_currency@) && !(
        (cash_account_id is Some && cash_component is Some && cash_amount is Some && cash_currency is Some) || (
        cash_account_id is None && cash_component is None && cash_amount is None && cash_currency is None))) ==> e is InvalidRecurringRule)
            && ((uuid_accepts(liability_account_id@) && money_ok(principal_amount@, principal_currency@)
            && cash_account_id is Some && cash_component is Some && cash_amount is Some
            && cash_currency is Some && uuid_accepts(cash_account_id->Some_0@) && !endpoint_component_ok(
            cash_component->Some_0@,
        )) ==> is_validation_of(
            e,
            "component"@,
        )),
        _ => true,
    }
}

/// Reads the text fields of a recurring payload into a checked payload;
/// payloads that move holdings or trade are refused.
pub fn pending_payload_from_input_without_tx(input: PendingActivityPayloadInput) -> (payload: Result<PendingActivityPayload, AppError>)
    ensures
        match payload {
            Ok(p) => readable(input) && reads_payload(input, p),
            Err(e) => !readable(input) && ((input is PositionTransfer || input is Buy || input is Sell)
                ==> is_unsupported_by_rules(e)) && recurring_defect_error(input, e),
        },
{
    match input {
        PendingActivityPayloadInput::Deposit { account_id, component, amount, currency } => {
            let endpoint = read_endpoint(account_id.as_str(), component.as_str())?;
            let amount = parse_money(amount.as_str(), currency.as_str())?;
            Ok(PendingActivityPayload::Deposit { endpoint, amount })
        },
        PendingActivityPayloadInput::Withdrawal { account_id, component, amount, currency } => {
            let endpoint = read_endpoint(account_id.as_str(), component.as_str())?;
            let amount = parse_money(amount.as_str(), currency.as_str())?;
            Ok(PendingActivityPayload::Withdrawal { endpoint, amount })
        },
        PendingActivityPayloadInput::Transfer {
            source_account_id, source_component, source_amount, source_currency, destination_account_id,
            destination_component, destination_amount, destination_currency, fee_amount, fee_kind,
        } => {
            let source_code = CurrencyCode::parse(source_currency.as_str())?;
            let fee = optional_fee(fee_amount, fee_kind, source_code, "feeAmount")?;
            let (fee, fee_kind) = match fee {
                Some(pair) => (Some(pair.0), Some(pair.1)),
                None => (None, None),
            };
            let source = read_endpoint(source_account_id.as_str(), source_component.as_str())?;
            let source_amount = parse_money(source_amount.as_str(), source_currency.as_str())?;
            let destination = read_endpoint(destination_account_id.as_str(), destination_component.as_str())?;
            let destination_amount = parse_money(destination_amount.as_str(), destination_currency.as_str())?;
            Ok(PendingActivityPayload::Transfer { source, source_amount, destination, destination_amount, fee, fee_kind })
        },
        PendingActivityPayloadInput::Income { account_id, component, amount, currency, income_kind, instrument_id } => {
            let endpoint = read_endpoint(account_id.as_str(), component.as_str())?;
            let amount = parse_money(amount.as_str(), currency.as_str())?;
            let income_kind = IncomeKind::parse(income_kind.as_str())?;
            let instrument_id = copy_optional_id(&instrument_id)?;
            Ok(PendingActivityPayload::Income { endpoint, amount, income_kind, instrument_id })
        },
        PendingActivityPayloadInput::Fee { account_id, component, amount, currency, fee_kind, instrument_id } => {
            let endpoint = read_endpoint(account_id.as_str(), component.as_str())?;
            let amount = parse_money(amount.as_str(), currency.as_str())?;
            let fee_kind = FeeKind::parse(fee_kind.as_str())?;
            let instrument_id = copy_optional_id(&instrument_id)?;
            Ok(PendingActivityPayload::Fee { endpoint, amount, fee_kind, instrument_id })
        },
        PendingActivityPayloadInput::DebtDraw {
            liability_account_id, principal_amount, principal_currency, cash_account_id, cash_component,
            cash_amount, cash_currency, fx_rate,
        } => {
            require_id("accountId", liability_account_id.as_str())?;
            let principal = parse_money(principal_amount.as_str(), principal_currency.as_str())?;
            let cash = match (cash_account_id, cash_component, cash_amount, cash_currency) {
                (None, None, None, None) => None,
                (Some(account_id), Some(component), Some(amount), Some(currency)) => {
                    let endpoint = read_endpoint(account_id.as_str(), component.as_str())?;
                    let money = parse_money(amount.as_str(), currency.as_str())?;
                    Some((endpoint, money))
                },
                _ => {
                    return Err(AppError::invalid_recurring_rule(
                        "Debt cash endpoint fields must be supplied together.",
                    ));
                },
            };
            let fx_rate = read_rate(&fx_rate)?;
            Ok(PendingActivityPayload::DebtDraw { liability_account_id, principal, cash, fx_rate })
        },
        PendingActivityPayloadInput::DebtPayment {
            liability_account_id, principal_amount, principal_currency, cash_account_id, cash_component,
            cash_amount, cash_currency, fx_rate, fee_amount, fee_kind,
        } => {
            let code = CurrencyCode::parse(cash_currency.as_str())?;
            let fee = optional_fee(fee_amount, fee_kind, code, "feeAmount")?;
            require_id("accountId", liability_account_id.as_str())?;
            let principal = parse_money(principal_amount.as_str(), principal_currency.as_str())?;
            let endpoint = read_endpoint(cash_account_id.as_str(), cash_component.as_str())?;
            let cash_money = parse_money(cash_amount.as_str(), cash_currency.as_str())?;
            let fx_rate = read_rate(&fx_rate)?;
            Ok(PendingActivityPayload::DebtPayment {
                liability_account_id,
                principal,
                cash: (endpoint, cash_money),
                fee,
                fx_rate,
            })
        },
        PendingActivityPayloadInput::PositionTransfer { .. } | PendingActivityPayloadInput::Buy { .. }
        | PendingActivityPayloadInput::Sell { .. } => Err(AppError::invalid_recurring_rule(
            "This Activity payload is not supported by recurring rules.",
        )),
    }
}

/// How often a recurring rule falls due.
#[derive(Debug, Clone, Copy, PartialEq, Eq, Structural)]
pub enum ScheduleCadence {
    Daily,
    Weekly,
    Monthly,
    Yearly,
}

/// The cadence a stored name stands for.
pub open spec fn cadence_spec(name: Seq<char>) -> Option<ScheduleCadence> {
    if name == "daily"@ {
        Some(ScheduleCadence::Daily)
    } else if name == "weekly"@ {
        Some(ScheduleCadence::Weekly)
    } else if name == "monthly"@ {
        Some(ScheduleCadence::Monthly)
    } else if name == "yearly"@ {
        Some(ScheduleCadence::Yearly)
    } else {
        None
    }
}

/// A recurring rule's schedule: every `interval` cadence periods from the
/// start date, up to the optional end date.
#[derive(Debug, Clone, Copy)]
pub struct Schedule {
    pub cadence: ScheduleCadence,
    pub interval: u16,
    pub start: CalendarDate,
    pub end: Option<CalendarDate>,
}

/// Why a schedule request is refused, in the order the checks run, as the
/// message of the recurring-rule error; `None` when only the dates remain
/// to be read.
pub open spec fn schedule_problem(input: RecurringActivityRuleInput) -> Option<Seq<char>> {
    if cadence_spec(input.cadence@) is None {
        Some("Schedule cadence is not supported."@)
    } else if !(1 <= input.interval_value <= u16::MAX) {
        Some("Schedule interval is invalid."@)
    } else {
        None
    }
}

/// The optional end date text is absent or a date.
pub open spec fn end_date_ok(end: Option<String>) -> bool {
    match end {
        Some(t) => date_ordinal(t@) is Some,
        None => true,
    }
}

/// Reads the schedule of a recurring rule request.
pub fn schedule_from_input(input: &RecurringActivityRuleInput) -> (schedule: Result<Schedule, AppError>)
    ensures
        match schedule {
            Ok(s) => schedule_problem(*input) is None
                && cadence_spec(input.cadence@) == Some(s.cadence) && s.interval == input.interval_value
                && date_ordinal(input.start_local_date@) == Some(s.start.ordinal())
                && match input.end_local_date {
                    Some(t) => s.end matches Some(e) && date_ordinal(t@) == Some(e.ordinal())
                        && s.start.ordinal() <= e.ordinal(),
                    None => s.end is None,
                },
            Err(e) => match schedule_problem(*input) {
                Some(m) => e matches AppError::InvalidRecurringRule { message } && message@ == m,
                None => if date_ordinal(input.start_local_date@) is None || !end_date_ok(input.end_local_date) {
                    is_validation_of(e, "date"@)
                } else {
                    e matches AppError::InvalidRecurringRule { message }
                        && message@ == "The schedule end must not precede its start."@
                },
            },
        },
{
    let cadence = if text_eq(input.cadence.as_str(), "daily") {
        ScheduleCadence::Daily
    } else if text_eq(input.cadence.as_str(), "weekly") {
        ScheduleCadence::Weekly
    } else if text_eq(input.cadence.as_str(), "monthly") {
        ScheduleCadence::Monthly
    } else if text_eq(input.cadence.as_str(), "yearly") {
        ScheduleCadence::Yearly
    } else {
        return Err(AppError::invalid_recurring_rule("Schedule cadence is not supported."));
    };
    if input.interval_value < 1 || input.interval_value > 65535 {
        return Err(AppError::invalid_recurring_rule("Schedule interval is invalid."));
    }
    let interval = input.interval_value as u16;
    let start = CalendarDate::parse(input.start_local_date.as_str())?;
    let end = match &input.end_local_date {
        Some(text) => Some(CalendarDate::parse(text.as_str())?),
        None => None,
    };
    if let Some(last) = end {
        if last.is_before(&start) {
            return Err(AppError::invalid_recurring_rule("The schedule end must not precede its start."));
        }
    }
    Ok(Schedule { cadence, interval, start, end })
}

/// Every stored payload reads back: the kind name a payload is stored
/// under names its kind, and its columns hold every column that kind
/// cannot do without.
pub proof fn law_stored_payload_reads_back(payload: PendingActivityPayload, record: PendingPayloadRecord)
    requires
        pending_columns(payload, record),
    ensures
        crate::pending::pending_kind_spec(kind_name(payload_kind(payload))) == Some(payload_kind(payload)),
        crate::pending::record_complete(payload_kind(payload), record),
{
    reveal_strlit("deposit");
    reveal_strlit("withdrawal");
    reveal_strlit("transfer");
    reveal_strlit("position_transfer");
    reveal_strlit("buy");
    reveal_strlit("sell");
    reveal_strlit("income");
    reveal_strlit("fee");
    reveal_strlit("debt_draw");
    reveal_strlit("debt_payment");
    assert("deposit"@ != "withdrawal"@) by { assert("deposit"@.len() != "withdrawal"@.len()); }
    assert("deposit"@ != "transfer"@) by { assert("deposit"@.len() != "transfer"@.len()); }
    assert("deposit"@ != "position_transfer"@) by { assert("deposit"@.len() != "position_transfer"@.len()); }
    assert("deposit"@ != "buy"@) by { assert("deposit"@.len() != "buy"@.len()); }
    assert("deposit"@ != "sell"@) by { assert("deposit"@.len() != "sell"@.len()); }
    assert("deposit"@ != "income"@) by { assert("deposit"@.len() != "income"@.len()); }
    assert("deposit"@ != "fee"@) by { assert("deposit"@.len() != "fee"@.len()); }
    assert("deposit"@ != "debt_draw"@) by { assert("deposit"@.len() != "debt_draw"@.len()); }
    assert("deposit"@ != "debt_payment"@) by { assert("deposit"@.len() != "debt_payment"@.len()); }
    assert("withdrawal"@ != "transfer"@) by { assert("withdrawal"@.len() != "transfer"@.len()); }
    assert("withdrawal"@ != "position_transfer"@) by { assert("withdrawal"@.len() != "position_transfer"@.len()); }
    assert("withdrawal"@ != "buy"@) by { assert("withdrawal"@.len() != "buy"@.len()); }
    assert("withdrawal"@ != "sell"@) by { assert("withdrawal"@.len() != "sell"@.len()); }
    assert("withdrawal"@ != "income"@) by { assert("withdrawal"@.len() != "income"@.len()); }
    assert("withdrawal"@ != "fee"@) by { assert("withdrawal"@.len() != "fee"@.len()); }
    assert("withdrawal"@ != "debt_draw"@) by { assert("withdrawal"@.len() != "debt_draw"@.len()); }
    assert("withdrawal"@ != "debt_payment"@) by { assert("withdrawal"@.len() != "debt_payment"@.len()); }
    assert("transfer"@ != "position_transfer"@) by { assert("transfer"@.len() != "position_transfer"@.len()); }
    assert("transfer"@ != "buy"@) by { assert("transfer"@.len() != "buy"@.len()); }
    assert("transfer"@ != "sell"@) by { assert("transfer"@.len() != "sell"@.len()); }
    assert("transfer"@ != "income"@) by { assert("transfer"@.len() != "income"@.len()); }
    assert("transfer"@ != "fee"@) by { assert("transfer"@.len() != "fee"@.len()); }
    assert("transfer"@ != "debt_draw"@) by { assert("transfer"@.len() != "debt_draw"@.len()); }
    assert("transfer"@ != "debt_payment"@) by { assert("transfer"@.len() != "debt_payment"@.len()); }
    assert("position_transfer"@ != "buy"@) by { assert("position_transfer"@.len() != "buy"@.len()); }
    assert("position_transfer"@ != "sell"@) by { assert("position_transfer"@.len() != "sell"@.len()); }
    assert("position_transfer"@ != "income"@) by { assert("position_transfer"@.len() != "income"@.len()); }
    assert("position_transfer"@ != "fee"@) by { assert("position_transfer"@.len() != "fee"@.len()); }
    assert("position_transfer"@ != "debt_draw"@) by { assert("position_transfer"@.len() != "debt_draw"@.len()); }
    assert("position_transfer"@ != "debt_payment"@) by { assert("position_transfer"@.len() != "debt_payment"@.len()); }
    assert("buy"@ != "sell"@) by { assert("buy"@.len() != "sell"@.len()); }
    assert("buy"@ != "income"@) by { assert("buy"@.len() != "income"@.len()); }
    assert("buy"@ != "fee"@) by { assert("buy"@[0] != "fee"@[0]); }
    assert("buy"@ != "debt_draw"@) by { assert("buy"@.len() != "debt_draw"@.len()); }
    assert("buy"@ != "debt_payment"@) by { assert("buy"@.len() != "debt_payment"@.len()); }
    assert("sell"@ != "income"@) by { assert("sell"@.len() != "income"@.len()); }
    assert("sell"@ != "fee"@) by { assert("sell"@.len() != "fee"@.len()); }
    assert("sell"@ != "debt_draw"@) by { assert("sell"@.len() != "debt_draw"@.len()); }
    assert("sell"@ != "debt_payment"@) by { assert("sell"@.len() != "debt_payment"@.len()); }
    assert("income"@ != "fee"@) by { assert("income"@.len() != "fee"@.len()); }
    assert("income"@ != "debt_draw"@) by { assert("income"@.len() != "debt_draw"@.len()); }
    assert("income"@ != "debt_payment"@) by { assert("income"@.len() != "debt_payment"@.len()); }
    assert("fee"@ != "debt_draw"@) by { assert("fee"@.len() != "debt_draw"@.len()); }
    assert("fee"@ != "debt_payment"@) by { assert("fee"@.len() != "debt_payment"@.len()); }
    assert("debt_draw"@ != "debt_payment"@) by { assert("debt_draw"@.len() != "debt_payment"@.len()); }
}

/// The optional canonical text of an optional amount of money.
pub open spec fn optional_amount_text(m: Option<Money>) -> Option<Seq<char>> {
    match m {
        Some(x) => Some(canonical_text(x.amount@)),
        None => None,
    }
}

/// The optional canonical text of an optional rate.
pub open spec fn optional_rate_text(r: Option<DecimalValue>) -> Option<Seq<char>> {
    match r {
        Some(x) => Some(canonical_text(x@)),
        None => None,
    }
}

/// The input's text fields spell the payload: its ids, the names of its
/// components and kinds, the canonical texts of its amounts and the codes
/// of their currencies; an optional part is present exactly when the
/// payload has it.
pub open spec fn input_shows_payload(i: PendingActivityPayloadInput, p: PendingActivityPayload) -> bool {
    match p {
        PendingActivityPayload::Deposit { endpoint, amount } => i matches PendingActivityPayloadInput::Deposit {
            account_id, component, amount: a, currency } && account_id@ == endpoint.account_id@
            && component@ == component_name(endpoint.component) && a@ == canonical_text(amount.amount@)
            && currency@ == amount.currency.code(),
        PendingActivityPayload::Withdrawal { endpoint, amount } => i matches PendingActivityPayloadInput::Withdrawal {
            account_id, component, amount: a, currency } && account_id@ == endpoint.account_id@
            && component@ == component_name(endpoint.component) && a@ == canonical_text(amount.amount@)
            && currency@ == amount.currency.code(),
        PendingActivityPayload::Transfer { source, source_amount, destination, destination_amount, fee, fee_kind } =>
            i matches PendingActivityPayloadInput::Transfer {
                source_account_id, source_component, source_amount: sa, source_currency, destination_account_id,
                destination_component, destination_amount: da, destination_currency, fee_amount, fee_kind: fk }
            && source_account_id@ == source.account_id@ && source_component@ == component_name(source.component)
            && sa@ == canonical_text(source_amount.amount@) && source_currency@ == source_amount.currency.code()
            && destination_account_id@ == destination.account_id@
            && destination_component@ == component_name(destination.component)
            && da@ == canonical_text(destination_amount.amount@)
            && destination_currency@ == destination_amount.currency.code()
            && opt_view(fee_amount) == optional_amount_text(fee)
            && opt_view(fk) == match fee_kind { Some(k) => Some(fee_kind_name(k)), None => None },
        PendingActivityPayload::PositionTransfer { source, destination, quantity } =>
            i matches PendingActivityPayloadInput::PositionTransfer { source_holding_id, destination_holding_id, quantity: q }
            && source_holding_id@ == source.holding_id@ && destination_holding_id@ == destination.holding_id@
            && q@ == canonical_text(quantity@),
        PendingActivityPayload::Buy { holding_id, instrument_id, quantity, unit_price, gross_amount, fee, confirm_zero_unit_price } =>
            i matches PendingActivityPayloadInput::Buy {
                holding_id: h, instrument_id: n, quantity: q, unit_price: u, gross_amount: g, settlement_currency,
                fee_amount, confirm_zero_unit_price: c }
            && h@ == holding_id@ && n@ == instrument_id@ && q@ == canonical_text(quantity@)
            && u@ == canonical_text(unit_price@) && g@ == canonical_text(gross_amount.amount@)
            && settlement_currency@ == gross_amount.currency.code() && opt_view(fee_amount) == optional_amount_text(fee)
            && c == confirm_zero_unit_price,
        PendingActivityPayload::Sell { holding_id, instrument_id, quantity, unit_price, gross_amount, fee, confirm_zero_unit_price } =>
            i matches PendingActivityPayloadInput::Sell {
                holding_id: h, instrument_id: n, quantity: q, unit_price: u, gross_amount: g, settlement_currency,
                fee_amount, confirm_zero_unit_price: c }
            && h@ == holding_id@ && n@ == instrument_id@ && q@ == canonical_text(quantity@)
            && u@ == canonical_text(unit_price@) && g@ == canonical_text(gross_amount.amount@)
            && settlement_currency@ == gross_amount.currency.code() && opt_view(fee_amount) == optional_amount_text(fee)
            && c == confirm_zero_unit_price,
        PendingActivityPayload::Income { endpoint, amount, income_kind, instrument_id } =>
            i matches PendingActivityPayloadInput::Income { account_id, component, amount: a, currency, income_kind: k, instrument_id: n }
            && account_id@ == endpoint.account_id@ && component@ == component_name(endpoint.component)
            && a@ == canonical_text(amount.amount@) && currency@ == amount.currency.code()
            && k@ == income_kind_name(income_kind) && opt_view(n) == opt_view(instrument_id),
        PendingActivityPayload::Fee { endpoint, amount, fee_kind, instrument_id } =>
            i matches PendingActivityPayloadInput::Fee { account_id, component, amount: a, currency, fee_kind: k, instrument_id: n }
            && account_id@ == endpoint.account_id@ && component@ == component_name(endpoint.component)
            && a@ == canonical_text(amount.amount@) && currency@ == amount.currency.code()
            && k@ == fee_kind_name(fee_kind) && opt_view(n) == opt_view(instrument_id),
        PendingActivityPayload::DebtDraw { liability_account_id, principal, cash, fx_rate } =>
            i matches PendingActivityPayloadInput::DebtDraw {
                liability_account_id: l, principal_amount, principal_currency, cash_account_id, cash_component,
                cash_amount, cash_currency, fx_rate: r }
            && l@ == liability_account_id@ && principal_amount@ == canonical_text(principal.amount@)
            && principal_currency@ == principal.currency.code()
            && match cash {
                Some(pair) => opt_view(cash_account_id) == Some(pair.0.account_id@)
                    && opt_view(cash_component) == Some(component_name(pair.0.component))
                    && opt_view(cash_amount) == Some(canonical_text(pair.1.amount@))
                    && opt_view(cash_currency) == Some(pair.1.currency.code()),
                None => cash_account_id is None && cash_component is None && cash_amount is None && cash_currency is None,
            }
            && opt_view(r) == optional_rate_text(fx_rate),
        PendingActivityPayload::DebtPayment { liability_account_id, principal, cash, fee, fx_rate } =>
            i matches PendingActivityPayloadInput::DebtPayment {
                liability_account_id: l, principal_amount, principal_currency, cash_account_id, cash_component,
                cash_amount, cash_currency, fx_rate: r, fee_amount, fee_kind }
            && l@ == liability_account_id@ && principal_amount@ == canonical_text(principal.amount@)
            && principal_currency@ == principal.currency.code() && cash_account_id@ == cash.0.account_id@
            && cash_component@ == component_name(cash.0.component) && cash_amount@ == canonical_text(cash.1.amount@)
            && cash_currency@ == cash.1.currency.code() && opt_view(r) == optional_rate_text(fx_rate)
            && opt_view(fee_amount) == match fee { Some(f) => Some(canonical_text(f.0.amount@)), None => None }
            && opt_view(fee_kind) == match fee { Some(f) => Some(fee_kind_name(f.1)), None => None },
    }
}

/// Storing a payload and rebuilding its input from the stored columns
/// gives the input that spells the payload: the stored kind reads back, the
/// columns that kind needs are all there, and the rebuilt text fields are
/// the payload's ids, names and canonical amounts.
pub proof fn law_stored_payload_rebuilds_its_input(
    payload: PendingActivityPayload,
    record: PendingPayloadRecord,
    input: PendingActivityPayloadInput,
)
    requires
        pending_columns(payload, record),
        crate::pending::input_spells_record(payload_kind(payload), record, input),
    ensures
        crate::pending::pending_kind_spec(kind_name(payload_kind(payload))) == Some(payload_kind(payload)),
        crate::pending::record_complete(payload_kind(payload), record),
        input_shows_payload(input, payload),
{
    law_stored_payload_reads_back(payload, record);
}

/// Every account id of a recurring payload is an identifier, every
/// currency a code, and every fee is given whole and in the currency it is
/// taken from.
pub open spec fn recurring_payload_well_formed(payload: PendingActivityPayload) -> bool {
    match payload {
        PendingActivityPayload::Deposit { endpoint, amount } | PendingActivityPayload::Withdrawal { endpoint, amount } =>
            uuid_accepts(endpoint.account_id@) && is_currency_code(amount.currency.code()),
        PendingActivityPayload::Transfer { source, source_amount, destination, destination_amount, fee, fee_kind } => {
            &&& uuid_accepts(source.account_id@) && uuid_accepts(destination.account_id@)
            &&& is_currency_code(source_amount.currency.code()) && is_currency_code(destination_amount.currency.code())
            &&& (fee is Some <==> fee_kind is Some)
            &&& fee matches Some(m) ==> m.currency == source_amount.currency
        },
        PendingActivityPayload::Income { endpoint, amount, instrument_id, .. }
        | PendingActivityPayload::Fee { endpoint, amount, instrument_id, .. } =>
            uuid_accepts(endpoint.account_id@) && is_currency_code(amount.currency.code()) && optional_id_ok(instrument_id),
        PendingActivityPayload::DebtDraw { liability_account_id, principal, cash, .. } => {
            &&& uuid_accepts(liability_account_id@) && is_currency_code(principal.currency.code())
            &&& cash matches Some(pair) ==> uuid_accepts(pair.0.account_id@) && is_currency_code(pair.1.currency.code())
        },
        PendingActivityPayload::DebtPayment { liability_account_id, principal, cash, fee, .. } => {
            &&& uuid_accepts(liability_account_id@) && is_currency_code(principal.currency.code())
            &&& uuid_accepts(cash.0.account_id@) && is_currency_code(cash.1.currency.code())
            &&& fee matches Some(f) ==> f.0.currency == cash.1.currency
        },
        _ => false,
    }
}

/// An amount column read back shows the value it was read as.
proof fn lemma_amount_reads_back(column: Option<String>, text: String, written: (i128, u32), read: (i128, u32))
    requires
        shows_value(column, written),
        crate::pending::holds(column, text),
        decimal_reading(text@) == Some(read),
    ensures
        shows_value(column, read),
{
    crate::amount::lemma_normalized_value_is_fixed(written);
}

/// The kind names read back to their kinds.
proof fn lemma_kind_names_read_back()
    ensures
        forall|k: FeeKind| #[trigger] fee_kind_spec(fee_kind_name(k)) == Some(k),
        forall|k: IncomeKind| #[trigger] income_kind_spec(income_kind_name(k)) == Some(k),
        forall|t: Seq<char>| #[trigger] fee_kind_spec(t) is Some ==> fee_kind_name(fee_kind_spec(t)->Some_0) == t,
        forall|t: Seq<char>| #[trigger] income_kind_spec(t) is Some ==> income_kind_name(income_kind_spec(t)->Some_0) == t,
        forall|c: MonetaryComponent| #[trigger] endpoint_component_ok(component_name(c)),
{
    reveal_strlit("bank_fee");
    reveal_strlit("other");
    reveal_strlit("dividend");
    reveal_strlit("interest");
    reveal_strlit("account_value");
    reveal_strlit("holdings_cash");
    assert("bank_fee"@ != "other"@) by { assert("bank_fee"@.len() != "other"@.len()); }
    assert("dividend"@ != "interest"@) by { assert("dividend"@[0] != "interest"@[0]); }
    assert("dividend"@ != "other"@) by { assert("dividend"@.len() != "other"@.len()); }
    assert("interest"@ != "other"@) by { assert("interest"@.len() != "other"@.len()); }
}

/// A component name the endpoint reader accepts.
pub open spec fn endpoint_component_ok(t: Seq<char>) -> bool {
    t == "account_value"@ || t == "holdings_cash"@
}

/// Storing a recurring payload, rebuilding its input from the stored
/// columns, and reading that input gives the payload back: the input is
/// readable, and a payload read from it lays out in the same columns, so
/// every id, kind and currency is the original one and every amount has
/// the original value (trailing zeros after the point dropped).
pub proof fn law_recurring_payload_round_trip(
    payload: PendingActivityPayload,
    record: PendingPayloadRecord,
    input: PendingActivityPayloadInput,
    read: PendingActivityPayload,
)
    requires
        recurring_payload_well_formed(payload),
        pending_columns(payload, record),
        crate::pending::input_spells_record(payload_kind(payload), record, input),
    ensures
        readable(input),
        reads_payload(input, read) ==> pending_columns(read, record),
{
    lemma_kind_names_read_back();
    match payload {
        PendingActivityPayload::Deposit { endpoint, amount } => {
            if let PendingActivityPayloadInput::Deposit { account_id, component, amount: text, currency } = input {
                if let PendingActivityPayload::Deposit { endpoint: e2, amount: m2 } = read {
                    if reads_payload(input, read) {
                        lemma_amount_reads_back(record.amount, text, amount.amount@, m2.amount@);
                    }
                }
            }
        },
        PendingActivityPayload::Withdrawal { endpoint, amount } => {
            if let PendingActivityPayloadInput::Withdrawal { account_id, component, amount: text, currency } = input {
                if let PendingActivityPayload::Withdrawal { endpoint: e2, amount: m2 } = read {
                    if reads_payload(input, read) {
                        lemma_amount_reads_back(record.amount, text, amount.amount@, m2.amount@);
                    }
                }
            }
        },
        PendingActivityPayload::Transfer { source, source_amount, destination, destination_amount, fee, fee_kind } => {
            if let PendingActivityPayloadInput::Transfer {
                source_amount: sa, destination_amount: da, fee_amount: fa, ..
            } = input {
                if let PendingActivityPayload::Transfer {
                    source_amount: sm2, destination_amount: dm2, fee: f2, ..
                } = read {
                    if reads_payload(input, read) {
                        lemma_amount_reads_back(record.source_amount, sa, source_amount.amount@, sm2.amount@);
                        lemma_amount_reads_back(record.destination_amount, da, destination_amount.amount@, dm2.amount@);
                        if fee is Some {
                            lemma_amount_reads_back(record.fee_amount, fa->Some_0, fee->Some_0.amount@, f2->Some_0.amount@);
                        }
                    }
                }
            }
        },
        PendingActivityPayload::Income { endpoint, amount, .. } => {
            if let PendingActivityPayloadInput::Income { amount: text, .. } = input {
                if let PendingActivityPayload::Income { amount: m2, .. } = read {
                    if reads_payload(input, read) {
                        lemma_amount_reads_back(record.amount, text, amount.amount@, m2.amount@);
                    }
                }
            }
        },
        PendingActivityPayload::Fee { endpoint, amount, .. } => {
            if let PendingActivityPayloadInput::Fee { amount: text, .. } = input {
                if let PendingActivityPayload::Fee { amount: m2, .. } = read {
                    if reads_payload(input, read) {
                        lemma_amount_reads_back(record.amount, text, amount.amount@, m2.amount@);
                    }
                }
            }
        },
        PendingActivityPayload::DebtDraw { principal, cash, fx_rate, .. } => {
            if let PendingActivityPayloadInput::DebtDraw { principal_amount: pa, cash_amount: ca, fx_rate: rt, .. } = input {
                if let PendingActivityPayload::DebtDraw { principal: p2, cash: c2, fx_rate: r2, .. } = read {
                    if reads_payload(input, read) {
                        lemma_amount_reads_back(record.principal_amount, pa, principal.amount@, p2.amount@);
                        if cash is Some {
                            lemma_amount_reads_back(record.cash_amount, ca->Some_0, cash->Some_0.1.amount@, c2->Some_0.1.amount@);
                        }
                        if fx_rate is Some {
                            lemma_amount_reads_back(record.fx_rate, rt->Some_0, fx_rate->Some_0@, r2->Some_0@);
                        }
                    }
                }
            }
        },
        PendingActivityPayload::DebtPayment { principal, cash, fee, fx_rate, .. } => {
            if let PendingActivityPayloadInput::DebtPayment {
                principal_amount: pa, cash_amount: ca, fx_rate: rt, fee_amount: fa, ..
            } = input {
                if let PendingActivityPayload::DebtPayment { principal: p2, cash: c2, fee: f2, fx_rate: r2, .. } = read {
                    if reads_payload(input, read) {
                        lemma_amount_reads_back(record.principal_amount, pa, principal.amount@, p2.amount@);
                        lemma_amount_reads_back(record.cash_amount, ca, cash.1.amount@, c2.1.amount@);
                        if fee is Some {
                            lemma_amount_reads_back(record.fee_amount, fa->Some_0, fee->Some_0.0.amount@, f2->Some_0.0.amount@);
                        }
                        if fx_rate is Some {
                            lemma_amount_reads_back(record.fx_rate, rt->Some_0, fx_rate->Some_0@, r2->Some_0@);
                        }
                    }
                }
            }
        },
        _ => {},
    }
}

} // verus!
