use nestworth::calendar::CalendarDate;
use nestworth::error::AppError;
use nestworth::history::{
    component_item, last_closed_on, map_rebuild_error, plan_rebuild_days, rebuild_day_limit, rebuild_result,
    snapshot_coverage_bps, trend_point_from_snapshot, trend_start, trend_window, MAX_REBUILD_DAYS,
};
use nestworth::history_records::{flag, DailyValuationSnapshotRecord, SnapshotStateRecord};

fn date(value: &str) -> CalendarDate {
    CalendarDate::parse(value).expect("date")
}

fn ymd(days: &[CalendarDate]) -> Vec<String> {
    days.iter().map(|day| day.to_ymd()).collect()
}

#[test]
fn rebuild_plans_consecutive_closed_days_from_the_first_dirty_day() {
    let days = plan_rebuild_days(&Some("2026-01-03".to_owned()), "2026-01-01", date("2026-01-07"), 366).expect("plan");
    assert_eq!(ymd(&days), vec!["2026-01-03", "2026-01-04", "2026-01-05", "2026-01-06"]);
}

#[test]
fn rebuild_plans_start_no_earlier_than_the_origin_and_respect_the_bound() {
    let days = plan_rebuild_days(&Some("2025-12-01".to_owned()), "2026-01-01", date("2026-02-01"), 2).expect("plan");
    assert_eq!(ymd(&days), vec!["2026-01-01", "2026-01-02"]);
    let none = plan_rebuild_days(&None, "2026-01-01", date("2026-02-01"), 10).expect("plan");
    assert!(none.is_empty());
    let today_only = plan_rebuild_days(&Some("2026-02-01".to_owned()), "2026-01-01", date("2026-02-01"), 10).expect("plan");
    assert!(today_only.is_empty());
    let negative = plan_rebuild_days(&Some("2026-01-01".to_owned()), "2026-01-01", date("2026-02-01"), -5).expect("plan");
    assert!(negative.is_empty());
    assert!(matches!(
        plan_rebuild_days(&Some("soon".to_owned()), "2026-01-01", date("2026-02-01"), 1),
        Err(AppError::Validation { field, .. }) if field == "date"
    ));
}

#[test]
fn rebuild_limits_and_errors_are_normalised() {
    assert_eq!(rebuild_day_limit(-1), 0);
    assert_eq!(rebuild_day_limit(10), 10);
    assert_eq!(rebuild_day_limit(1000), MAX_REBUILD_DAYS);
    assert!(matches!(map_rebuild_error(AppError::HistoryInitializationFailed), AppError::HistoryInitializationFailed));
    assert!(matches!(map_rebuild_error(AppError::DatabaseUnavailable), AppError::SnapshotRebuildFailed));
    assert!(matches!(map_rebuild_error(AppError::Internal), AppError::SnapshotRebuildFailed));
}

#[test]
fn coverage_is_the_valued_share_in_basis_points() {
    assert_eq!(snapshot_coverage_bps(0, 0), 10_000);
    assert_eq!(snapshot_coverage_bps(1, 3), 3_333);
    assert_eq!(snapshot_coverage_bps(3, 3), 10_000);
    assert!(flag(2));
    assert!(!flag(0));
}

#[test]
fn trend_ranges_reach_back_but_not_before_the_origin() {
    let origin = date("2025-06-01");
    let today = date("2026-01-31");
    assert_eq!(trend_start("1m", origin, today).expect("1m").to_ymd(), "2026-01-01");
    assert_eq!(trend_start("1y", origin, today).expect("1y").to_ymd(), "2025-06-01");
    assert_eq!(trend_start("all", origin, today).expect("all").to_ymd(), "2025-06-01");
    assert!(matches!(trend_start("5y", origin, today), Err(AppError::Validation { field, .. }) if field == "range"));
    let (start, end) = trend_window("3m", origin, today).expect("window").expect("some");
    assert_eq!(start.to_ymd(), "2025-11-02");
    assert_eq!(end.to_ymd(), "2026-01-30");
    let fresh = trend_window("1m", today, today).expect("window").expect("origin day");
    assert_eq!((fresh.0.to_ymd(), fresh.1.to_ymd()), ("2026-01-31".to_owned(), "2026-01-31".to_owned()));
    assert_eq!(last_closed_on(today), Some("2026-01-30".to_owned()));
}

#[test]
fn stored_snapshots_draw_as_trend_points() {
    let row = DailyValuationSnapshotRecord {
        id: "s".to_owned(),
        household_id: "h".to_owned(),
        snapshot_on: "2026-01-05".to_owned(),
        cutoff_at: "2026-01-05T16:00:00.000Z".to_owned(),
        revision: 2,
        supersedes_snapshot_id: Some("r".to_owned()),
        assets_amount: "100".to_owned(),
        liabilities_amount: "40".to_owned(),
        net_worth_amount: "60".to_owned(),
        currency: "CNY".to_owned(),
        is_complete: false,
        valued_component_count: 3,
        total_component_count: 4,
        coverage_bps: 7_500,
        generation_reason: "rebuild".to_owned(),
        created_at: "2026-01-06T00:00:00.000Z".to_owned(),
    };
    let point = trend_point_from_snapshot(row);
    assert_eq!(point.date.as_deref(), Some("2026-01-05"));
    assert_eq!(point.net_worth.amount, "60");
    assert_eq!(point.net_worth.currency, "CNY");
    assert_eq!(point.missing_count, 1);
    assert_eq!(point.coverage_bps, 7_500);
    assert!(!point.is_live);
}

#[test]
fn rebuild_results_report_what_remains() {
    let state = SnapshotStateRecord {
        household_id: "h".to_owned(),
        dirty_from: Some("2026-01-05".to_owned()),
        last_completed_on: Some("2026-01-04".to_owned()),
        rebuild_status: "running".to_owned(),
        rebuild_cursor_on: None,
        updated_at: "2026-01-06T00:00:00.000Z".to_owned(),
    };
    let done = rebuild_result(4, &state, false);
    assert!(done.remaining);
    assert_eq!(done.status, "idle");
    let cancelled = rebuild_result(0, &state, true);
    assert_eq!(cancelled.status, "cancelled");
    let item = component_item("acct", None, None, "account_value", None, None, None, None, None, None, None, None, false, Some("account_value".to_owned()));
    assert_eq!(item.component_kind, "account_value");
    assert_eq!(item.snapshot_id, "");
    assert_eq!(item.id.len(), 36);
}
