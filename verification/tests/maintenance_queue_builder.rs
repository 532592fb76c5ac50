use nestworth::calendar::CalendarDate;
use nestworth::maintenance::{FreshnessPolicyRecord, MaintenanceSnoozeRecord};
use nestworth::maintenance_builder::{
    maintenance_queue, CashObservation, MaintenanceAccount, MaintenanceInputs, MaintenanceInstrument, RequiredPair,
};
use nestworth::maintenance_observations::LatestObservation;
use nestworth::pending::{PendingActivityDto, PendingActivityPayloadInput};
use nestworth::time::HistoryTimezone;

fn policy(id: &str, kind: &str, interval: Option<i64>) -> FreshnessPolicyRecord {
    FreshnessPolicyRecord {
        id: id.to_owned(),
        household_id: "h".to_owned(),
        kind: kind.to_owned(),
        target_account_id: None,
        target_instrument_id: None,
        target_currency_a: None,
        target_currency_b: None,
        review_interval_days: interval,
        archived_at: None,
        created_at: "2026-01-01T00:00:00.000Z".to_owned(),
        updated_at: "2026-01-01T00:00:00.000Z".to_owned(),
    }
}

fn account(id: &str, name: &str, mode: &str) -> MaintenanceAccount {
    MaintenanceAccount { id: id.to_owned(), name: name.to_owned(), tracking_mode: mode.to_owned() }
}

fn pending(id: &str, scheduled: &str) -> PendingActivityDto {
    PendingActivityDto {
        id: id.to_owned(),
        recurring_rule_id: None,
        recurring_rule_revision: None,
        scheduled_local_date: scheduled.to_owned(),
        creation_source: "manual".to_owned(),
        payload: PendingActivityPayloadInput::Transfer {
            source_account_id: "11111111-1111-4111-8111-111111111111".to_owned(),
            source_component: "account_value".to_owned(),
            source_amount: "10".to_owned(),
            source_currency: "USD".to_owned(),
            destination_account_id: "22222222-2222-4222-8222-222222222222".to_owned(),
            destination_component: "account_value".to_owned(),
            destination_amount: "10".to_owned(),
            destination_currency: "USD".to_owned(),
            fee_amount: None,
            fee_kind: None,
        },
        note: None,
        status: "pending".to_owned(),
        posted_activity_id: None,
        skipped_at: None,
        created_at: "2026-03-01T00:00:00.000Z".to_owned(),
        updated_at: "2026-03-01T00:00:00.000Z".to_owned(),
    }
}

fn inputs() -> MaintenanceInputs {
    MaintenanceInputs {
        policies: vec![
            policy("pv", "account_value", Some(30)),
            policy("pc", "account_cash", Some(7)),
            policy("pi", "instrument_quote", Some(14)),
            policy("pf", "fx_quote", Some(30)),
        ],
        snoozes: vec![],
        accounts: vec![
            account("11111111-1111-4111-8111-111111111111", "Checking", "balance"),
            account("22222222-2222-4222-8222-222222222222", "Brokerage", "holdings"),
            account("33333333-3333-4333-8333-333333333333", "House", "untracked"),
        ],
        value_dates: vec![("11111111-1111-4111-8111-111111111111".to_owned(), "2026-03-01T12:00:00.000Z".to_owned())],
        cash: vec![
            CashObservation {
                account_id: "22222222-2222-4222-8222-222222222222".to_owned(),
                currency: "USD".to_owned(),
                effective_at: "2026-03-09T12:00:00.000Z".to_owned(),
            },
            CashObservation {
                account_id: "11111111-1111-4111-8111-111111111111".to_owned(),
                currency: "USD".to_owned(),
                effective_at: "2026-03-09T12:00:00.000Z".to_owned(),
            },
        ],
        instruments: vec![
            MaintenanceInstrument {
                id: "44444444-4444-4444-8444-444444444444".to_owned(),
                name: "VTI".to_owned(),
                archived: false,
                quote_preference: "manual".to_owned(),
            },
            MaintenanceInstrument {
                id: "i2".to_owned(),
                name: "Old fund".to_owned(),
                archived: true,
                quote_preference: "manual".to_owned(),
            },
            MaintenanceInstrument {
                id: "i3".to_owned(),
                name: "AAPL".to_owned(),
                archived: false,
                quote_preference: "provider".to_owned(),
            },
        ],
        instrument_latest: vec![],
        pairs: vec![RequiredPair {
            currency_a: "EUR".to_owned(),
            currency_b: "USD".to_owned(),
            preference: "manual".to_owned(),
        }],
        fx_latest: vec![LatestObservation {
            key: "EUR/USD".to_owned(),
            quoted_at: "2026-01-01T00:00:00.000Z".to_owned(),
            created_at: "2026-01-01T00:00:00.000Z".to_owned(),
            id: "q1".to_owned(),
        }],
    }
}

#[test]
fn queue_lists_watched_targets_then_due_pendings_in_urgency_order() {
    let timezone = HistoryTimezone::parse("UTC").expect("timezone");
    let today = CalendarDate::parse("2026-03-10").expect("today");
    let page = maintenance_queue(today, &timezone, &inputs(), vec![pending("p1", "2026-03-10")]).expect("queue");
    assert_eq!(page.local_date, "2026-03-10");
    let ids: Vec<&str> = page.items.iter().map(|item| item.id.as_str()).collect();
    assert_eq!(
        ids,
        vec!["fx_quote:EUR/USD", "pending_activity:p1", "instrument_quote:44444444-4444-4444-8444-444444444444", "account_cash:22222222-2222-4222-8222-222222222222:USD", "account_value:11111111-1111-4111-8111-111111111111"]
    );
    let statuses: Vec<&str> = page.items.iter().map(|item| item.status.as_str()).collect();
    assert_eq!(statuses, vec!["overdue", "due", "missing", "current", "current"]);
    let labels: Vec<&str> = page.items.iter().map(|item| item.label.as_str()).collect();
    assert_eq!(labels, vec!["EUR/USD", "Pending Activity", "VTI", "Brokerage (USD)", "Checking"]);
    assert_eq!(page.items[4].due_on.as_deref(), Some("2026-03-31"));
    assert_eq!(page.items[0].observed_on.as_deref(), Some("2026-01-01"));
}

#[test]
fn disabled_policy_and_snooze_shape_the_queue() {
    let timezone = HistoryTimezone::parse("UTC").expect("timezone");
    let today = CalendarDate::parse("2026-03-10").expect("today");
    let mut data = inputs();
    data.policies[2].review_interval_days = None;
    data.snoozes = vec![MaintenanceSnoozeRecord {
        id: "s1".to_owned(),
        household_id: "h".to_owned(),
        policy_kind: "account_value".to_owned(),
        target_account_id: Some("11111111-1111-4111-8111-111111111111".to_owned()),
        target_instrument_id: None,
        target_currency_a: None,
        target_currency_b: None,
        snoozed_until: "2026-03-20".to_owned(),
        created_at: "2026-03-05T00:00:00.000Z".to_owned(),
    }];
    let page = maintenance_queue(today, &timezone, &data, vec![]).expect("queue");
    let ids: Vec<&str> = page.items.iter().map(|item| item.id.as_str()).collect();
    assert_eq!(ids, vec!["fx_quote:EUR/USD", "account_value:11111111-1111-4111-8111-111111111111", "account_cash:22222222-2222-4222-8222-222222222222:USD"]);
    assert_eq!(page.items[1].status, "snoozed");
    assert_eq!(page.items[1].underlying_status, "current");
    assert_eq!(page.items[1].snoozed_until.as_deref(), Some("2026-03-20"));
}

#[test]
fn unreadable_snooze_or_observation_fails_the_queue() {
    let timezone = HistoryTimezone::parse("UTC").expect("timezone");
    let today = CalendarDate::parse("2026-03-10").expect("today");
    let mut bad_snooze = inputs();
    bad_snooze.snoozes = vec![MaintenanceSnoozeRecord {
        id: "s1".to_owned(),
        household_id: "h".to_owned(),
        policy_kind: "account_value".to_owned(),
        target_account_id: Some("11111111-1111-4111-8111-111111111111".to_owned()),
        target_instrument_id: None,
        target_currency_a: None,
        target_currency_b: None,
        snoozed_until: "not a date".to_owned(),
        created_at: "2026-03-05T00:00:00.000Z".to_owned(),
    }];
    assert!(maintenance_queue(today, &timezone, &bad_snooze, vec![]).is_err());
    let mut bad_time = inputs();
    bad_time.value_dates = vec![("11111111-1111-4111-8111-111111111111".to_owned(), "yesterday".to_owned())];
    assert!(maintenance_queue(today, &timezone, &bad_time, vec![]).is_err());
}
