use nestworth::error::AppError;
use nestworth::pending::{
    pending_input_from_record, pending_input_from_rule_record, PendingActivityPayloadInput, PendingActivityRecord,
    RecurringActivityRuleInput,
};
use nestworth::pending_cursor::{decode_pending_cursor, encode_pending_cursor};
use nestworth::pending_payload::{
    optional_fee, parse_money, pending_payload_from_input_without_tx, pending_record_from_payload,
    rule_record_from_payload, schedule_from_input, FeeKind, PendingActivityPayload, ScheduleCadence,
};
use nestworth::currency::CurrencyCode;

const CASH: &str = "bbbbbbbb-bbbb-4bbb-8bbb-bbbbbbbbbbbb";
const BROKERAGE: &str = "99999999-9999-4999-8999-999999999999";
const LOAN: &str = "cccccccc-cccc-4ccc-8ccc-cccccccccccc";

fn transfer() -> PendingActivityPayloadInput {
    PendingActivityPayloadInput::Transfer {
        source_account_id: CASH.to_owned(),
        source_component: "account_value".to_owned(),
        source_amount: "100.00".to_owned(),
        source_currency: "USD".to_owned(),
        destination_account_id: BROKERAGE.to_owned(),
        destination_component: "holdings_cash".to_owned(),
        destination_amount: "100".to_owned(),
        destination_currency: "USD".to_owned(),
        fee_amount: Some("1.50".to_owned()),
        fee_kind: Some("bank_fee".to_owned()),
    }
}

#[test]
fn a_transfer_payload_is_stored_with_canonical_amounts_and_read_back() {
    let payload = pending_payload_from_input_without_tx(transfer()).expect("payload");
    let (kind, record) = pending_record_from_payload(&payload).expect("record");
    assert_eq!(kind, "transfer");
    assert_eq!(record.source_amount.as_deref(), Some("100"));
    assert_eq!(record.destination_component.as_deref(), Some("holdings_cash"));
    assert_eq!(record.fee_amount.as_deref(), Some("1.5"));
    assert_eq!(record.fee_currency.as_deref(), Some("USD"));
    assert_eq!(record.fee_kind.as_deref(), Some("bank_fee"));
    assert_eq!(record.endpoint_account_id, None);
    let read = pending_input_from_record(&kind, &record).expect("input");
    assert!(matches!(read, PendingActivityPayloadInput::Transfer { source_amount, fee_amount, .. }
        if source_amount == "100" && fee_amount.as_deref() == Some("1.5")));
}

#[test]
fn a_stored_debt_payment_reads_back_to_the_same_columns() {
    let payment = PendingActivityPayloadInput::DebtPayment {
        liability_account_id: LOAN.to_owned(),
        principal_amount: "200.0".to_owned(),
        principal_currency: "CNY".to_owned(),
        cash_account_id: CASH.to_owned(),
        cash_component: "holdings_cash".to_owned(),
        cash_amount: "28.20".to_owned(),
        cash_currency: "USD".to_owned(),
        fx_rate: Some("7.0900".to_owned()),
        fee_amount: Some("0.10".to_owned()),
        fee_kind: Some("other".to_owned()),
    };
    let payload = pending_payload_from_input_without_tx(payment).expect("payload");
    let (kind, record) = pending_record_from_payload(&payload).expect("record");
    let input = pending_input_from_record(&kind, &record).expect("input");
    let again = pending_payload_from_input_without_tx(input).expect("read back");
    let (kind_again, record_again) = pending_record_from_payload(&again).expect("record again");
    assert_eq!(kind_again, kind);
    assert_eq!(record_again.principal_amount, record.principal_amount);
    assert_eq!(record_again.cash_component, record.cash_component);
    assert_eq!(record_again.cash_amount, record.cash_amount);
    assert_eq!(record_again.fx_rate, record.fx_rate);
    assert_eq!(record_again.fee_amount, record.fee_amount);
    assert_eq!(record_again.fee_kind, record.fee_kind);
    assert_eq!(record_again.liability_account_id.as_deref(), Some(LOAN));
}

#[test]
fn a_rule_record_matches_the_pending_record_of_a_recurring_payload() {
    let payload = pending_payload_from_input_without_tx(transfer()).expect("payload");
    let (kind, record) = rule_record_from_payload(&payload).expect("rule record");
    assert_eq!(kind, "transfer");
    assert_eq!(record.source_amount.as_deref(), Some("100"));
    let read = pending_input_from_rule_record(&kind, &record).expect("input");
    assert!(matches!(read, PendingActivityPayloadInput::Transfer { .. }));
}

#[test]
fn trades_and_position_moves_cannot_recur() {
    let buy = PendingActivityPayloadInput::Buy {
        holding_id: CASH.to_owned(),
        instrument_id: BROKERAGE.to_owned(),
        quantity: "1".to_owned(),
        unit_price: "10".to_owned(),
        gross_amount: "10".to_owned(),
        settlement_currency: "USD".to_owned(),
        fee_amount: None,
        confirm_zero_unit_price: false,
    };
    assert!(matches!(
        pending_payload_from_input_without_tx(buy),
        Err(AppError::InvalidRecurringRule { message }) if message == "This Activity payload is not supported by recurring rules."
    ));
}

#[test]
fn half_a_fee_or_half_a_cash_endpoint_is_refused() {
    let usd = CurrencyCode::parse("USD").expect("usd");
    assert!(matches!(
        optional_fee(Some("1".to_owned()), None, usd, "feeAmount"),
        Err(AppError::Validation { field, .. }) if field == "feeAmount"
    ));
    let fee = optional_fee(Some("2.50".to_owned()), Some("other".to_owned()), usd, "feeAmount").expect("fee");
    assert!(matches!(fee, Some((money, FeeKind::Other)) if money.canonical_amount() == "2.5"));
    let draw = PendingActivityPayloadInput::DebtDraw {
        liability_account_id: LOAN.to_owned(),
        principal_amount: "500".to_owned(),
        principal_currency: "USD".to_owned(),
        cash_account_id: Some(CASH.to_owned()),
        cash_component: None,
        cash_amount: Some("500".to_owned()),
        cash_currency: Some("USD".to_owned()),
        fx_rate: None,
    };
    assert!(matches!(
        pending_payload_from_input_without_tx(draw),
        Err(AppError::InvalidRecurringRule { message }) if message == "Debt cash endpoint fields must be supplied together."
    ));
    assert!(matches!(parse_money("1", "usd"), Err(AppError::Validation { field, .. }) if field == "currency"));
}

#[test]
fn a_debt_payment_keeps_its_rate_and_fee() {
    let payment = PendingActivityPayloadInput::DebtPayment {
        liability_account_id: LOAN.to_owned(),
        principal_amount: "200.0".to_owned(),
        principal_currency: "CNY".to_owned(),
        cash_account_id: CASH.to_owned(),
        cash_component: "account_value".to_owned(),
        cash_amount: "28.20".to_owned(),
        cash_currency: "USD".to_owned(),
        fx_rate: Some("7.0900".to_owned()),
        fee_amount: Some("0.10".to_owned()),
        fee_kind: Some("bank_fee".to_owned()),
    };
    let payload = pending_payload_from_input_without_tx(payment).expect("payload");
    assert!(matches!(payload, PendingActivityPayload::DebtPayment { .. }));
    let (kind, record) = pending_record_from_payload(&payload).expect("record");
    assert_eq!(kind, "debt_payment");
    assert_eq!(record.principal_amount.as_deref(), Some("200"));
    assert_eq!(record.cash_amount.as_deref(), Some("28.2"));
    assert_eq!(record.fx_rate.as_deref(), Some("7.09"));
    assert_eq!(record.fee_amount.as_deref(), Some("0.1"));
    assert_eq!(record.fee_currency.as_deref(), Some("USD"));
}

fn row(date: &str, created: &str, id: &str) -> PendingActivityRecord {
    PendingActivityRecord {
        id: id.to_owned(),
        household_id: "h".to_owned(),
        recurring_rule_id: None,
        recurring_rule_revision: None,
        scheduled_local_date: date.to_owned(),
        creation_source: "manual".to_owned(),
        kind: "deposit".to_owned(),
        payload: nestworth::pending_payload::blank_record(),
        note: None,
        status: "pending".to_owned(),
        posted_activity_id: None,
        skipped_at: None,
        created_at: created.to_owned(),
        updated_at: created.to_owned(),
    }
}

#[test]
fn a_cursor_reads_back_as_the_row_position() {
    let cursor = encode_pending_cursor(&row("2026-03-01", "2026-02-01T10:00:00.000Z", BROKERAGE));
    assert!(!cursor.contains('='));
    let (date, created, id) = decode_pending_cursor(&cursor).expect("cursor");
    assert_eq!(date, "2026-03-01");
    assert_eq!(created, "2026-02-01T10:00:00.000Z");
    assert_eq!(id, BROKERAGE);
}

#[test]
fn malformed_cursors_are_validation_errors() {
    assert!(matches!(decode_pending_cursor("!!!"), Err(AppError::Validation { field, .. }) if field == "cursor"));
    let no_breaks = "MjAyNi0wMy0wMQ";
    assert!(matches!(decode_pending_cursor(no_breaks), Err(AppError::Validation { field, .. }) if field == "cursor"));
}

fn rule(cadence: &str, interval: i32, start: &str, end: Option<&str>) -> RecurringActivityRuleInput {
    RecurringActivityRuleInput {
        cadence: cadence.to_owned(),
        interval_value: interval,
        start_local_date: start.to_owned(),
        end_local_date: end.map(str::to_owned),
        payload: transfer(),
        note: None,
    }
}

#[test]
fn schedules_check_cadence_interval_and_order() {
    let schedule = schedule_from_input(&rule("daily", 2, "2026-01-01", Some("2026-02-01"))).expect("schedule");
    assert_eq!(schedule.cadence, ScheduleCadence::Daily);
    assert_eq!(schedule.interval, 2);
    assert!(matches!(
        schedule_from_input(&rule("hourly", 1, "2026-01-01", None)),
        Err(AppError::InvalidRecurringRule { message }) if message == "Schedule cadence is not supported."
    ));
    assert!(matches!(
        schedule_from_input(&rule("weekly", 0, "2026-01-01", None)),
        Err(AppError::InvalidRecurringRule { message }) if message == "Schedule interval is invalid."
    ));
    assert!(matches!(
        schedule_from_input(&rule("weekly", 70000, "2026-01-01", None)),
        Err(AppError::InvalidRecurringRule { .. })
    ));
    assert!(matches!(
        schedule_from_input(&rule("monthly", 1, "2026-03-01", Some("2026-02-01"))),
        Err(AppError::InvalidRecurringRule { message }) if message == "The schedule end must not precede its start."
    ));
    assert!(matches!(
        schedule_from_input(&rule("monthly", 1, "2026-13-01", None)),
        Err(AppError::Validation { field, .. }) if field == "date"
    ));
}
