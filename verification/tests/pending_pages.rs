use nestworth::error::AppError;
use nestworth::pending::{ListPendingActivitiesInput, PendingActivityRecord};
use nestworth::pending_cursor::{decode_pending_cursor, encode_pending_cursor};
use nestworth::pending_pages::{pending_page, pending_page_query};

const CASH: &str = "bbbbbbbb-bbbb-4bbb-8bbb-bbbbbbbbbbbb";

fn deposit_row(id: &str, date: &str) -> PendingActivityRecord {
    let mut payload = nestworth::pending_payload::blank_record();
    payload.endpoint_account_id = Some(CASH.to_owned());
    payload.endpoint_component = Some("account_value".to_owned());
    payload.amount = Some("10".to_owned());
    payload.currency = Some("USD".to_owned());
    PendingActivityRecord {
        id: id.to_owned(),
        household_id: "h".to_owned(),
        recurring_rule_id: None,
        recurring_rule_revision: None,
        scheduled_local_date: date.to_owned(),
        creation_source: "manual".to_owned(),
        kind: "deposit".to_owned(),
        payload,
        note: None,
        status: "open".to_owned(),
        posted_activity_id: None,
        skipped_at: None,
        created_at: "2026-03-01T00:00:00.000Z".to_owned(),
        updated_at: "2026-03-01T00:00:00.000Z".to_owned(),
    }
}

#[test]
fn a_page_keeps_the_limit_and_points_after_its_last_row() {
    let rows = vec![deposit_row("a", "2026-03-01"), deposit_row("b", "2026-03-02"), deposit_row("c", "2026-03-03")];
    let page = pending_page(rows.clone(), 2).expect("page");
    assert!(page.has_more);
    assert_eq!(page.items.len(), 2);
    assert_eq!(page.items[1].id, "b");
    let cursor = page.next_cursor.expect("cursor");
    assert_eq!(cursor, encode_pending_cursor(&rows[1]));
    let (date, created, id) = decode_pending_cursor(&cursor).expect("decoded");
    assert_eq!((date.as_str(), created.as_str(), id.as_str()), ("2026-03-02", "2026-03-01T00:00:00.000Z", "b"));

    let last = pending_page(rows, 3).expect("page");
    assert!(!last.has_more);
    assert_eq!(last.items.len(), 3);
    assert!(last.next_cursor.is_none());
}

#[test]
fn an_unreadable_row_fails_the_page() {
    let mut broken = deposit_row("x", "2026-03-01");
    broken.kind = "teleport".to_owned();
    assert!(pending_page(vec![broken], 5).is_err());
}

#[test]
fn a_listing_request_checks_limit_status_and_cursor() {
    let query = |limit: Option<i32>, status: Option<&str>, cursor: Option<&str>| ListPendingActivitiesInput {
        cursor: cursor.map(str::to_owned),
        limit,
        status: status.map(str::to_owned),
    };
    assert_eq!(pending_page_query(&query(None, None, None)).expect("default").0, 50);
    assert!(matches!(pending_page_query(&query(Some(0), None, None)), Err(AppError::Validation { .. })));
    assert!(matches!(pending_page_query(&query(Some(10), Some("lost"), None)), Err(AppError::Validation { .. })));
    assert!(matches!(pending_page_query(&query(Some(10), None, Some("!!"))), Err(AppError::Validation { .. })));
    let cursor = encode_pending_cursor(&deposit_row("a", "2026-03-01"));
    let (limit, position) = pending_page_query(&query(Some(10), Some("open"), Some(&cursor))).expect("query");
    assert_eq!(limit, 10);
    assert_eq!(position.expect("position").2, "a");
}
