use nestworth::calendar::CalendarDate;
use nestworth::error::AppError;
use nestworth::income_fee::{activity_in_period, excluded_activity_ids, fee_bucket, ActivitySummary, TRADE_COMMISSION};
use nestworth::overview::clamp_share_bps;
use nestworth::pending::PendingActivityKind;
use nestworth::query_count::{record, QueryCapture};
use nestworth::reference::{next_sort_order_sql, sort_order_i32, SortTable};

#[test]
fn sort_orders_must_fit_in_32_bits() {
    assert_eq!(sort_order_i32(7).expect("fits"), 7);
    assert!(matches!(sort_order_i32(i64::from(i32::MAX) + 1), Err(AppError::Internal)));
    assert!(next_sort_order_sql(SortTable::Institutions).contains("FROM institutions"));
}

#[test]
fn query_families_are_recorded_only_while_capturing() {
    let mut capture = QueryCapture::idle();
    record(&mut capture, "ignored");
    capture.begin();
    record(&mut capture, "trend");
    record(&mut capture, "trend_live");
    assert_eq!(capture.finish(), vec!["trend".to_owned(), "trend_live".to_owned()]);
    assert!(capture.finish().is_empty());
}

#[test]
fn shares_are_clamped_to_the_whole() {
    assert_eq!(clamp_share_bps(-5), 0);
    assert_eq!(clamp_share_bps(2_500), 2_500);
    assert_eq!(clamp_share_bps(12_000), 10_000);
}

fn activity(id: &str, kind: PendingActivityKind, reverses: Option<&str>, fee_kind: Option<&str>, day: &str) -> ActivitySummary {
    ActivitySummary {
        id: id.to_owned(),
        kind,
        reverses: reverses.map(str::to_owned),
        fee_kind: fee_kind.map(str::to_owned),
        effective_local_date: CalendarDate::parse(day).expect("date"),
    }
}

#[test]
fn reversals_drop_out_with_what_they_reverse() {
    let activities = vec![
        activity("a", PendingActivityKind::Fee, None, None, "2026-01-01"),
        activity("b", PendingActivityKind::Fee, Some("a"), None, "2026-01-02"),
        activity("c", PendingActivityKind::Buy, None, None, "2026-01-03"),
    ];
    let mut excluded = excluded_activity_ids(&activities);
    excluded.sort();
    assert_eq!(excluded, vec!["a".to_owned(), "b".to_owned()]);
}

#[test]
fn trade_fees_without_a_kind_are_commissions() {
    assert_eq!(fee_bucket(&activity("c", PendingActivityKind::Buy, None, None, "2026-01-03")).as_deref(), Some(TRADE_COMMISSION));
    assert_eq!(fee_bucket(&activity("f", PendingActivityKind::Fee, None, None, "2026-01-03")).as_deref(), Some("other"));
    assert_eq!(fee_bucket(&activity("g", PendingActivityKind::Fee, None, Some("bank_fee"), "2026-01-03")).as_deref(), Some("bank_fee"));
    assert_eq!(fee_bucket(&activity("d", PendingActivityKind::Deposit, None, None, "2026-01-03")), None);
}

#[test]
fn periods_include_both_ends_and_an_inverted_period_is_empty() {
    let day = |text: &str| CalendarDate::parse(text).expect("date");
    let a = activity("a", PendingActivityKind::Income, None, None, "2026-01-31");
    assert!(activity_in_period(&a, Some(day("2026-01-01")), Some(day("2026-01-31"))));
    assert!(!activity_in_period(&a, Some(day("2026-02-01")), Some(day("2026-02-28"))));
    assert!(!activity_in_period(&a, Some(day("2026-02-01")), Some(day("2026-01-01"))));
    assert!(activity_in_period(&a, None, Some(day("2025-01-01"))));
}
