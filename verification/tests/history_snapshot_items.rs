use nestworth::amount::{DecimalValue, Money};
use nestworth::currency::CurrencyCode;
use nestworth::error::AppError;
use nestworth::history_items::{
    component_coverage, snapshot_items, CashValuation, Conversion, HoldingValuation, SnapshotAccount, StoredAmount,
};

fn dec(text: &str) -> DecimalValue {
    DecimalValue::parse(text).expect("decimal")
}

fn converted(base: Option<&str>, complete: bool, reason: Option<&str>) -> Conversion {
    Conversion {
        base: base.map(dec),
        complete,
        missing_reason: reason.map(str::to_owned),
        fx_quote_id: Some("fx-1".to_owned()),
    }
}

fn account(id: &str, mode: &str, value: Option<(&str, &str)>, conversion: Conversion) -> SnapshotAccount {
    SnapshotAccount {
        id: id.to_owned(),
        archived: false,
        include_in_net_worth: true,
        tracking_mode: mode.to_owned(),
        latest_value: value.map(|(amount, currency)| StoredAmount { amount: amount.to_owned(), currency: currency.to_owned() }),
        conversion,
        state_id: Some(format!("state-{id}")),
        last_activity_id: None,
    }
}

fn holding(account_id: &str, id: &str, complete: bool) -> HoldingValuation {
    HoldingValuation {
        account_id: account_id.to_owned(),
        holding_id: id.to_owned(),
        instrument_id: format!("instrument-{id}"),
        instrument_known: true,
        native: Some(Money { amount: dec("700.00"), currency: CurrencyCode::parse("USD").expect("code") }),
        base: if complete { Some(dec("4830.000")) } else { None },
        complete,
        missing_reason: if complete { None } else { Some("fx_quote".to_owned()) },
        instrument_quote_id: Some("quote-1".to_owned()),
        fx_quote_id: Some("fx-1".to_owned()),
        last_activity_id: Some("activity-1".to_owned()),
    }
}

fn cash(account_id: &str, amount: &str, currency: &str) -> CashValuation {
    CashValuation {
        account_id: account_id.to_owned(),
        amount: amount.to_owned(),
        currency: currency.to_owned(),
        conversion: converted(Some("100"), true, None),
        last_activity_id: None,
    }
}

#[test]
fn holdings_accounts_give_one_item_per_holding_and_cash_balance() {
    let accounts = vec![
        account("broker", "holdings", None, converted(None, false, None)),
        account("bank", "balance", Some(("1000.50", "CNY")), converted(Some("1000.5"), true, None)),
    ];
    let holdings = vec![holding("broker", "h1", true), holding("other", "h2", true), holding("broker", "h3", false)];
    let balances = vec![cash("broker", "100.0", "CNY")];
    let items = snapshot_items(&accounts, &holdings, &balances, "origin").expect("items");
    let kinds: Vec<_> = items.iter().map(|item| (item.account_id.clone(), item.component_kind.clone())).collect();
    assert_eq!(
        kinds,
        vec![
            ("broker".to_owned(), "holding_quantity".to_owned()),
            ("broker".to_owned(), "holding_quantity".to_owned()),
            ("broker".to_owned(), "holdings_cash".to_owned()),
            ("bank".to_owned(), "account_value".to_owned()),
        ]
    );
    assert_eq!(items[0].native_amount.as_deref(), Some("700"));
    assert_eq!(items[0].base_amount.as_deref(), Some("4830"));
    assert_eq!(items[0].account_state_observation_id.as_deref(), Some("state-broker"));
    assert!(!items[1].is_complete);
    assert_eq!(items[1].base_amount, None);
    assert_eq!(items[1].missing_reason.as_deref(), Some("fx_quote"));
    assert_eq!(items[2].native_amount.as_deref(), Some("100"));
    assert_eq!(items[3].native_amount.as_deref(), Some("1000.5"));
    assert_eq!(items[3].origin_id.as_deref(), Some("origin"));
    assert!(items.iter().all(|item| item.is_complete || item.base_amount.is_none()));
    assert_eq!(component_coverage(&accounts, &holdings, &balances).expect("coverage"), (3, 4));
}

#[test]
fn an_account_without_a_value_is_an_explicit_incomplete_item() {
    let mut archived = account("old", "balance", Some(("5", "CNY")), converted(Some("5"), true, None));
    archived.archived = true;
    let mut hidden = account("hidden", "balance", Some(("5", "CNY")), converted(Some("5"), true, None));
    hidden.include_in_net_worth = false;
    let empty = account("empty", "manual_value", None, converted(None, false, None));
    let items = snapshot_items(&vec![archived, hidden, empty], &Vec::new(), &Vec::new(), "origin").expect("items");
    assert_eq!(items.len(), 1);
    assert_eq!(items[0].account_id, "empty");
    assert_eq!(items[0].component_kind, "account_value");
    assert!(!items[0].is_complete);
    assert_eq!(items[0].base_amount, None);
    assert_eq!(items[0].native_amount, None);
    assert_eq!(items[0].missing_reason.as_deref(), Some("account_value"));
}

#[test]
fn unreadable_values_and_unknown_instruments_are_errors() {
    let accounts = vec![account("bank", "balance", Some(("ten", "CNY")), converted(None, true, None))];
    let error = snapshot_items(&accounts, &Vec::new(), &Vec::new(), "origin").expect_err("amount");
    assert!(matches!(error, AppError::Validation { ref field, .. } if field == "amount"));
    let broker = vec![account("broker", "holdings", None, converted(None, false, None))];
    let error = snapshot_items(&broker, &Vec::new(), &vec![cash("broker", "1", "cny")], "origin").expect_err("currency");
    assert!(matches!(error, AppError::Validation { ref field, .. } if field == "currency"));
    let mut lost = holding("broker", "h1", true);
    lost.instrument_known = false;
    let error = snapshot_items(&broker, &vec![lost], &Vec::new(), "origin").expect_err("instrument");
    assert!(matches!(error, AppError::NotFound { ref entity, .. } if entity == "instrument"));
}
