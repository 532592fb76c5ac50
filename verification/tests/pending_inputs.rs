use nestworth::error::AppError;
use nestworth::pending::PendingActivityPayloadInput;
use nestworth::pending_input::{pending_payload_from_input, quantity_endpoint, HoldingEndpointRow};
use nestworth::pending_payload::PendingActivityPayload;

const CASH: &str = "bbbbbbbb-bbbb-4bbb-8bbb-bbbbbbbbbbbb";
const BROKERAGE: &str = "99999999-9999-4999-8999-999999999999";
const LOAN: &str = "cccccccc-cccc-4ccc-8ccc-cccccccccccc";
const HOLDING_A: &str = "aaaaaaaa-aaaa-4aaa-8aaa-aaaaaaaaaaaa";
const HOLDING_B: &str = "dddddddd-dddd-4ddd-8ddd-dddddddddddd";
const INSTRUMENT: &str = "eeeeeeee-eeee-4eee-8eee-eeeeeeeeeeee";

fn row(account: &str) -> HoldingEndpointRow {
    HoldingEndpointRow { account_id: account.to_owned(), instrument_id: INSTRUMENT.to_owned() }
}

fn buy(quantity: &str, fee: Option<&str>) -> PendingActivityPayloadInput {
    PendingActivityPayloadInput::Buy {
        holding_id: HOLDING_A.to_owned(),
        instrument_id: INSTRUMENT.to_owned(),
        quantity: quantity.to_owned(),
        unit_price: "12.50".to_owned(),
        gross_amount: "125.00".to_owned(),
        settlement_currency: "USD".to_owned(),
        fee_amount: fee.map(|value| value.to_owned()),
        confirm_zero_unit_price: false,
    }
}

#[test]
fn a_position_transfer_uses_the_looked_up_holdings() {
    let input = PendingActivityPayloadInput::PositionTransfer {
        source_holding_id: HOLDING_A.to_owned(),
        destination_holding_id: HOLDING_B.to_owned(),
        quantity: "3.5".to_owned(),
    };
    let payload = pending_payload_from_input(input, Some((row(CASH), row(BROKERAGE)))).expect("payload");
    match payload {
        PendingActivityPayload::PositionTransfer { source, destination, quantity } => {
            assert_eq!(source.holding_id, HOLDING_A);
            assert_eq!(source.account_id, CASH);
            assert_eq!(destination.holding_id, HOLDING_B);
            assert_eq!(destination.account_id, BROKERAGE);
            assert_eq!(destination.instrument_id, INSTRUMENT);
            assert_eq!(quantity.canonical(), "3.5");
        }
        other => panic!("unexpected payload {other:?}"),
    }
}

#[test]
fn a_holding_with_a_malformed_account_is_refused() {
    let error = quantity_endpoint(HOLDING_A, &row("not-an-id")).expect_err("invalid");
    assert!(matches!(error, AppError::Validation { .. }));
}

#[test]
fn a_buy_reads_its_fee_in_the_settlement_currency() {
    let payload = pending_payload_from_input(buy("10", Some("1.25")), None).expect("payload");
    match payload {
        PendingActivityPayload::Buy { holding_id, quantity, unit_price, gross_amount, fee, .. } => {
            assert_eq!(holding_id, HOLDING_A);
            assert_eq!(quantity.canonical(), "10");
            assert_eq!(unit_price.canonical(), "12.5");
            assert_eq!(gross_amount.canonical_amount(), "125");
            assert_eq!(fee.expect("fee").currency.to_text(), "USD");
        }
        other => panic!("unexpected payload {other:?}"),
    }
    let without_fee = pending_payload_from_input(buy("10", None), None).expect("payload");
    assert!(matches!(without_fee, PendingActivityPayload::Buy { fee: None, .. }));
}

#[test]
fn a_trade_with_a_malformed_quantity_is_refused() {
    let error = pending_payload_from_input(buy("ten", None), None).expect_err("invalid");
    match error {
        AppError::Validation { field, .. } => assert_eq!(field, "quantity"),
        other => panic!("unexpected error {other:?}"),
    }
}

#[test]
fn debt_cash_fields_must_come_together_when_proposed_by_hand() {
    let input = PendingActivityPayloadInput::DebtDraw {
        liability_account_id: LOAN.to_owned(),
        principal_amount: "1000".to_owned(),
        principal_currency: "USD".to_owned(),
        cash_account_id: Some(CASH.to_owned()),
        cash_component: None,
        cash_amount: None,
        cash_currency: None,
        fx_rate: None,
    };
    let error = pending_payload_from_input(input, None).expect_err("invalid");
    assert!(matches!(error, AppError::InvalidPendingActivity { .. }));
}

#[test]
fn a_deposit_reads_as_for_recurring_rules() {
    let input = PendingActivityPayloadInput::Deposit {
        account_id: CASH.to_owned(),
        component: "account_value".to_owned(),
        amount: "50.00".to_owned(),
        currency: "EUR".to_owned(),
    };
    let payload = pending_payload_from_input(input, None).expect("payload");
    assert!(matches!(payload, PendingActivityPayload::Deposit { .. }));
}
