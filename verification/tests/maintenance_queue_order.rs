use nestworth::calendar::CalendarDate;
use nestworth::maintenance::MaintenanceItemDto;
use nestworth::maintenance_queue::{item_before, pending_maintenance_item, sort_maintenance_items};
use nestworth::pending::{PendingActivityDto, PendingActivityPayloadInput};

fn item(id: &str, kind: &str, policy_kind: Option<&str>, label: &str, status: &str) -> MaintenanceItemDto {
    MaintenanceItemDto {
        id: id.to_owned(),
        item_kind: kind.to_owned(),
        policy_id: None,
        policy_kind: policy_kind.map(|value| value.to_owned()),
        target_account_id: None,
        target_instrument_id: None,
        target_currency_a: None,
        target_currency_b: None,
        label: label.to_owned(),
        underlying_status: status.to_owned(),
        status: status.to_owned(),
        observed_on: None,
        due_on: None,
        snoozed_until: None,
        pending_activity: None,
    }
}

fn pending(id: &str, scheduled: &str) -> PendingActivityDto {
    PendingActivityDto {
        id: id.to_owned(),
        recurring_rule_id: None,
        recurring_rule_revision: None,
        scheduled_local_date: scheduled.to_owned(),
        creation_source: "manual".to_owned(),
        payload: PendingActivityPayloadInput::Transfer {
            source_account_id: "cash".to_owned(),
            source_component: "account_value".to_owned(),
            source_amount: "10".to_owned(),
            source_currency: "USD".to_owned(),
            destination_account_id: "savings".to_owned(),
            destination_component: "account_value".to_owned(),
            destination_amount: "10".to_owned(),
            destination_currency: "USD".to_owned(),
            fee_amount: None,
            fee_kind: None,
        },
        note: None,
        status: "pending".to_owned(),
        posted_activity_id: None,
        skipped_at: None,
        created_at: "2026-03-01T00:00:00.000Z".to_owned(),
        updated_at: "2026-03-01T00:00:00.000Z".to_owned(),
    }
}

#[test]
fn queue_is_ordered_by_urgency_then_kind_policy_label_and_id() {
    let items = vec![
        item("c", "freshness", Some("account_value"), "Cash", "current"),
        item("b", "freshness", Some("instrument_quote"), "VTI", "overdue"),
        item("a", "freshness", None, "Zed", "overdue"),
        item("p", "pending_activity", None, "Pending Activity", "due"),
        item("d", "freshness", Some("account_value"), "Brokerage", "current"),
        item("s", "freshness", Some("fx_rate"), "EUR/USD", "snoozed"),
        item("m", "freshness", Some("fx_rate"), "GBP/USD", "missing"),
    ];
    let sorted = sort_maintenance_items(items);
    let ids: Vec<&str> = sorted.iter().map(|entry| entry.id.as_str()).collect();
    assert_eq!(ids, vec!["a", "b", "p", "m", "s", "d", "c"]);
}

#[test]
fn entries_with_equal_keys_compare_neither_way() {
    let left = item("x", "freshness", None, "L", "due");
    let right = item("x", "freshness", None, "L", "due");
    assert!(!item_before(&left, &right));
    assert!(!item_before(&right, &left));
    let later = item("y", "freshness", None, "L", "due");
    assert!(item_before(&left, &later));
    assert!(!item_before(&later, &left));
}

#[test]
fn an_empty_queue_stays_empty() {
    assert!(sort_maintenance_items(Vec::new()).is_empty());
}

#[test]
fn a_pending_activity_is_due_on_its_day_and_overdue_after() {
    let today = CalendarDate::parse("2026-03-10").expect("date");
    let due = pending_maintenance_item(pending("p1", "2026-03-10"), today);
    assert_eq!(due.id, "pending_activity:p1");
    assert_eq!(due.item_kind, "pending_activity");
    assert_eq!(due.label, "Pending Activity");
    assert_eq!(due.status, "due");
    assert_eq!(due.underlying_status, "due");
    assert_eq!(due.due_on.as_deref(), Some("2026-03-10"));
    assert!(due.policy_kind.is_none());
    assert_eq!(due.pending_activity.as_ref().map(|value| value.id.as_str()), Some("p1"));

    let overdue = pending_maintenance_item(pending("p2", "2026-03-02"), today);
    assert_eq!(overdue.status, "overdue");
    assert_eq!(overdue.underlying_status, "overdue");
    assert_eq!(overdue.due_on.as_deref(), Some("2026-03-02"));
}
