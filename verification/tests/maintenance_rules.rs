use nestworth::calendar::CalendarDate;
use nestworth::error::AppError;
use nestworth::maintenance::{
    active_snoozes, freshness_status, normalize_target, parse_interval, resolve_policy, status_rank,
    FreshnessPolicyKind, FreshnessPolicyRecord, MaintenanceSnoozeRecord, PolicyTarget,
};
use nestworth::time::{HistoryTimezone, Timestamp};

fn date(value: &str) -> CalendarDate {
    CalendarDate::parse(value).expect("date")
}

#[test]
fn freshness_status_respects_exact_due_and_overdue_boundaries() {
    assert_eq!(
        freshness_status(date("2026-02-28"), Some("2026-01-31"), 28).expect("due"),
        ("due", Some("2026-02-28".to_owned()))
    );
    assert_eq!(
        freshness_status(date("2028-02-29"), Some("2028-01-31"), 29).expect("leap"),
        ("due", Some("2028-02-29".to_owned()))
    );
    assert_eq!(
        freshness_status(date("2026-02-27"), Some("2026-01-31"), 28).expect("current"),
        ("current", Some("2026-02-28".to_owned()))
    );
    assert_eq!(
        freshness_status(date("2026-02-28"), None, 28).expect("missing"),
        ("missing", None)
    );
}

#[test]
fn target_normalization_rejects_wrong_shape_and_normalizes_fx_pair() {
    assert!(normalize_target(
        FreshnessPolicyKind::AccountValue,
        None,
        Some("11111111-1111-4111-8111-111111111111".to_owned()),
        None,
        None,
    )
    .is_err());
    let target = normalize_target(
        FreshnessPolicyKind::FxQuote,
        None,
        None,
        Some("USD".to_owned()),
        Some("CNY".to_owned()),
    )
    .expect("fx target");
    assert_eq!(target.currency_a.as_deref(), Some("CNY"));
    assert_eq!(target.currency_b.as_deref(), Some("USD"));
}

#[test]
fn interval_is_bounded_or_disabled() {
    assert_eq!(parse_interval(None).expect("disabled"), None);
    assert_eq!(parse_interval(Some(3650)).expect("upper"), Some(3650));
    assert!(parse_interval(Some(0)).is_err());
    assert!(parse_interval(Some(3651)).is_err());
}

#[test]
fn snooze_expiry_and_history_timezone_use_calendar_dates() {
    let timezone = HistoryTimezone::parse("America/New_York").expect("timezone");
    let dst_day = Timestamp::parse("2026-03-08T07:00:00Z").expect("timestamp");
    assert_eq!(timezone.local_date(&dst_day).expect("local date").to_ymd(), "2026-03-08");

    let rows = vec![MaintenanceSnoozeRecord {
        id: "11111111-1111-4111-8111-111111111111".to_owned(),
        household_id: "22222222-2222-4222-8222-222222222222".to_owned(),
        policy_kind: "account_value".to_owned(),
        target_account_id: Some("33333333-3333-4333-8333-333333333333".to_owned()),
        target_instrument_id: None,
        target_currency_a: None,
        target_currency_b: None,
        snoozed_until: "2026-08-21".to_owned(),
        created_at: "2026-08-20T00:00:00.000Z".to_owned(),
    }];
    assert_eq!(
        active_snoozes(&rows, CalendarDate::parse("2026-08-20").expect("today"))
            .expect("active")
            .len(),
        1
    );
    assert!(
        active_snoozes(&rows, CalendarDate::parse("2026-08-21").expect("expiry"))
            .expect("expired")
            .is_empty()
    );
}

#[test]
fn overdue_status_after_due_date_and_shape_errors_name_target() {
    assert_eq!(
        freshness_status(date("2026-03-01"), Some("2026-01-31"), 28).expect("overdue"),
        ("overdue", Some("2026-02-28".to_owned()))
    );
    let error = normalize_target(
        FreshnessPolicyKind::FxQuote,
        None,
        None,
        Some("USD".to_owned()),
        None,
    )
    .expect_err("half pair");
    assert!(matches!(error, AppError::Validation { field, .. } if field == "target"));
    assert!(normalize_target(FreshnessPolicyKind::FxQuote, None, None, Some("USD".to_owned()), Some("USD".to_owned())).is_err());
    assert!(normalize_target(FreshnessPolicyKind::AccountValue, Some("not-an-id".to_owned()), None, None, None).is_err());
}

#[test]
fn queue_statuses_rank_in_urgency_order() {
    assert_eq!(status_rank("overdue"), 0);
    assert_eq!(status_rank("due"), 1);
    assert_eq!(status_rank("missing"), 2);
    assert_eq!(status_rank("snoozed"), 3);
    assert_eq!(status_rank("current"), 4);
    assert_eq!(status_rank("other"), 5);
}

fn policy(id: &str, account: Option<&str>, interval: Option<i64>) -> FreshnessPolicyRecord {
    FreshnessPolicyRecord {
        id: id.to_owned(),
        household_id: "h".to_owned(),
        kind: "account_value".to_owned(),
        target_account_id: account.map(str::to_owned),
        target_instrument_id: None,
        target_currency_a: None,
        target_currency_b: None,
        review_interval_days: interval,
        archived_at: None,
        created_at: "2026-01-01T00:00:00.000Z".to_owned(),
        updated_at: "2026-01-01T00:00:00.000Z".to_owned(),
    }
}

#[test]
fn override_policy_wins_over_the_kind_default() {
    let account = "33333333-3333-4333-8333-333333333333";
    let policies = vec![policy("default", None, Some(30)), policy("override", Some(account), Some(7))];
    let target = PolicyTarget {
        account_id: Some(account.to_owned()),
        instrument_id: None,
        currency_a: None,
        currency_b: None,
    };
    let other = PolicyTarget {
        account_id: Some("44444444-4444-4444-8444-444444444444".to_owned()),
        instrument_id: None,
        currency_a: None,
        currency_b: None,
    };
    assert_eq!(resolve_policy(&policies, FreshnessPolicyKind::AccountValue, &target).expect("override").id, "override");
    assert_eq!(resolve_policy(&policies, FreshnessPolicyKind::AccountValue, &other).expect("default").id, "default");
    assert!(resolve_policy(&policies, FreshnessPolicyKind::AccountCash, &other).is_none());
}

#[test]
fn latest_snooze_per_target_wins() {
    let make = |id: &str, until: &str, created: &str| MaintenanceSnoozeRecord {
        id: id.to_owned(),
        household_id: "h".to_owned(),
        policy_kind: "account_value".to_owned(),
        target_account_id: Some("33333333-3333-4333-8333-333333333333".to_owned()),
        target_instrument_id: None,
        target_currency_a: None,
        target_currency_b: None,
        snoozed_until: until.to_owned(),
        created_at: created.to_owned(),
    };
    let rows = vec![
        make("a", "2026-09-01", "2026-08-01T00:00:00.000Z"),
        make("b", "2026-08-10", "2026-08-05T00:00:00.000Z"),
    ];
    let active = active_snoozes(&rows, date("2026-08-20")).expect("active");
    assert!(active.is_empty());
    let bad = vec![make("c", "not a date", "2026-08-05T00:00:00.000Z")];
    assert!(active_snoozes(&bad, date("2026-08-20")).is_err());
}
