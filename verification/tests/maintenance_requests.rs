use nestworth::error::AppError;
use nestworth::maintenance::{
    FreshnessPolicyKind, FreshnessPolicyRecord, PolicyTarget, SnoozeMaintenanceItemInput, UpdateFreshnessPolicyInput,
};
use nestworth::maintenance_requests::{policy_by_id, policy_request, policy_row, snooze_record, snooze_request};

const ACCOUNT: &str = "33333333-3333-4333-8333-333333333333";
const OTHER: &str = "44444444-4444-4444-8444-444444444444";
const POLICY: &str = "55555555-5555-4555-8555-555555555555";

fn policy(id: &str, account: Option<&str>, interval: Option<i64>) -> FreshnessPolicyRecord {
    FreshnessPolicyRecord {
        id: id.to_owned(),
        household_id: "h".to_owned(),
        kind: "account_value".to_owned(),
        target_account_id: account.map(str::to_owned),
        target_instrument_id: None,
        target_currency_a: None,
        target_currency_b: None,
        review_interval_days: interval,
        archived_at: None,
        created_at: "2026-01-01T00:00:00.000Z".to_owned(),
        updated_at: "2026-01-01T00:00:00.000Z".to_owned(),
    }
}

fn snooze(account: Option<&str>, until: &str) -> SnoozeMaintenanceItemInput {
    SnoozeMaintenanceItemInput {
        policy_kind: "account_value".to_owned(),
        target_account_id: account.map(str::to_owned),
        target_instrument_id: None,
        target_currency_a: None,
        target_currency_b: None,
        snoozed_until: until.to_owned(),
    }
}

fn account_target(account: &str) -> PolicyTarget {
    PolicyTarget { account_id: Some(account.to_owned()), instrument_id: None, currency_a: None, currency_b: None }
}

fn field_of(error: AppError) -> String {
    match error {
        AppError::Validation { field, .. } => field,
        other => panic!("unexpected error {other:?}"),
    }
}

#[test]
fn a_snooze_needs_a_concrete_target_and_a_date() {
    assert_eq!(field_of(snooze_request(&snooze(None, "2026-04-01")).expect_err("default")), "target");
    assert_eq!(field_of(snooze_request(&snooze(Some(ACCOUNT), "April")).expect_err("date")), "date");
    let (kind, target) = snooze_request(&snooze(Some(ACCOUNT), "2026-04-01")).expect("request");
    assert_eq!(kind, FreshnessPolicyKind::AccountValue);
    assert_eq!(target.account_id.as_deref(), Some(ACCOUNT));
}

#[test]
fn a_snooze_needs_an_enabled_policy() {
    let target = account_target(ACCOUNT);
    let kind = FreshnessPolicyKind::AccountValue;
    let none = snooze_record(kind, &target, "2026-04-01".to_owned(), &[], "s".to_owned(), "h".to_owned(), "now".to_owned());
    assert!(matches!(none, Err(AppError::Conflict { .. })));
    let disabled = [policy("p", Some(ACCOUNT), None), policy("d", None, Some(30))];
    let refused = snooze_record(kind, &target, "2026-04-01".to_owned(), &disabled, "s".to_owned(), "h".to_owned(), "now".to_owned());
    match refused {
        Err(AppError::Conflict { message }) => assert!(message.contains("disabled")),
        other => panic!("unexpected {other:?}"),
    }
    let enabled = [policy("d", None, Some(30))];
    let row = snooze_record(kind, &target, "2026-04-01".to_owned(), &enabled, "s".to_owned(), "h".to_owned(), "now".to_owned())
        .expect("row");
    assert_eq!(row.policy_kind, "account_value");
    assert_eq!(row.target_account_id.as_deref(), Some(ACCOUNT));
    assert_eq!(row.snoozed_until, "2026-04-01");
    assert_eq!(row.id, "s");
}

#[test]
fn a_policy_request_checks_interval_and_id() {
    let mut input = UpdateFreshnessPolicyInput {
        id: None,
        kind: "account_value".to_owned(),
        target_account_id: Some(ACCOUNT.to_owned()),
        target_instrument_id: None,
        target_currency_a: None,
        target_currency_b: None,
        review_interval_days: Some(0),
    };
    assert_eq!(field_of(policy_request(&input).expect_err("interval")), "reviewIntervalDays");
    input.review_interval_days = Some(14);
    input.id = Some("not-an-id".to_owned());
    assert_eq!(field_of(policy_request(&input).expect_err("id")), "id");
    input.id = Some(POLICY.to_owned());
    let (kind, target, interval) = policy_request(&input).expect("request");
    assert_eq!(kind, FreshnessPolicyKind::AccountValue);
    assert_eq!(target.account_id.as_deref(), Some(ACCOUNT));
    assert_eq!(interval, Some(14));
}

#[test]
fn a_policy_is_found_by_id_or_not_found() {
    let rows = vec![policy("a", None, Some(1)), policy(POLICY, Some(ACCOUNT), Some(7))];
    assert_eq!(policy_by_id(rows.clone(), POLICY).expect("found").review_interval_days, Some(7));
    assert!(matches!(policy_by_id(rows, "missing"), Err(AppError::NotFound { .. })));
}

#[test]
fn a_policy_keeps_its_kind_and_target() {
    let kind = FreshnessPolicyKind::AccountValue;
    let created = policy_row(None, kind, &account_target(ACCOUNT), Some(10), "new".to_owned(), "h".to_owned(), "t1".to_owned())
        .expect("created");
    assert_eq!(created.id, "new");
    assert_eq!(created.kind, "account_value");
    assert_eq!(created.created_at, "t1");
    assert_eq!(created.review_interval_days, Some(10));

    let existing = policy(POLICY, Some(ACCOUNT), Some(7));
    let updated = policy_row(Some(existing.clone()), kind, &account_target(ACCOUNT), None, "x".to_owned(), "h".to_owned(), "t2".to_owned())
        .expect("updated");
    assert_eq!(updated.id, POLICY);
    assert_eq!(updated.review_interval_days, None);
    assert_eq!(updated.created_at, existing.created_at);
    assert_eq!(updated.updated_at, "t2");

    let moved = policy_row(Some(existing), kind, &account_target(OTHER), Some(3), "x".to_owned(), "h".to_owned(), "t3".to_owned());
    assert!(matches!(moved, Err(AppError::Conflict { .. })));
}
