//! The order of the Maintenance queue and the entries of due pending
//! Activities in it.

use vstd::prelude::*;
use vstd::multiset::Multiset;
use vstd::seq_lib::{to_multiset_insert, to_multiset_remove};

use crate::calendar::{civil, ymd_text, CalendarDate};
use crate::maintenance::{status_rank, status_rank_spec, MaintenanceItemDto};
use crate::pending::PendingActivityDto;
use crate::text::{lemma_seq_less_asymmetric, lemma_seq_less_transitive, seq_less, text_eq, text_less};

verus! {

broadcast use {CalendarDate::lemma_ordinal_bounds, vstd::seq_lib::group_to_multiset_ensures, vstd::multiset::group_multiset_axioms};

/// The order key of a queue entry: the urgency rank of its status, then its
/// kind, policy kind (none sorting first), label and id.
pub open spec fn queue_key(item: MaintenanceItemDto) -> (int, Seq<char>, Seq<char>, Seq<char>, Seq<char>) {
    (
        status_rank_spec(item.status@) as int,
        item.item_kind@,
        match item.policy_kind {
            Some(kind) => kind@,
            None => Seq::<char>::empty(),
        },
        item.label@,
        item.id@,
    )
}

/// One key comes strictly before another, field by field.
pub open spec fn key_before(
    a: (int, Seq<char>, Seq<char>, Seq<char>, Seq<char>),
    b: (int, Seq<char>, Seq<char>, Seq<char>, Seq<char>),
) -> bool {
    a.0 < b.0 || (a.0 == b.0 && (seq_less(a.1, b.1) || (a.1 == b.1 && (seq_less(a.2, b.2) || (a.2 == b.2 && (
    seq_less(a.3, b.3) || (a.3 == b.3 && seq_less(a.4, b.4))))))))
}

/// No entry comes before an entry listed ahead of it.
pub open spec fn queue_sorted(items: Seq<MaintenanceItemDto>) -> bool {
    forall|i: int, j: int| 0 <= i < j < items.len() ==> !key_before(queue_key(#[trigger] items[j]), queue_key(#[trigger] items[i]))
}

proof fn lemma_key_before_asymmetric(
    a: (int, Seq<char>, Seq<char>, Seq<char>, Seq<char>),
    b: (int, Seq<char>, Seq<char>, Seq<char>, Seq<char>),
)
    ensures
        !(key_before(a, b) && key_before(b, a)),
{
    lemma_seq_less_asymmetric(a.1, b.1);
    lemma_seq_less_asymmetric(a.2, b.2);
    lemma_seq_less_asymmetric(a.3, b.3);
    lemma_seq_less_asymmetric(a.4, b.4);
}

proof fn lemma_key_before_transitive(
    a: (int, Seq<char>, Seq<char>, Seq<char>, Seq<char>),
    b: (int, Seq<char>, Seq<char>, Seq<char>, Seq<char>),
    c: (int, Seq<char>, Seq<char>, Seq<char>, Seq<char>),
)
    requires
        key_before(a, b),
        key_before(b, c),
    ensures
        key_before(a, c),
{
    if seq_less(a.1, b.1) && seq_less(b.1, c.1) {
        lemma_seq_less_transitive(a.1, b.1, c.1);
    }
    if seq_less(a.2, b.2) && seq_less(b.2, c.2) {
        lemma_seq_less_transitive(a.2, b.2, c.2);
    }
    if seq_less(a.3, b.3) && seq_less(b.3, c.3) {
        lemma_seq_less_transitive(a.3, b.3, c.3);
    }
    if seq_less(a.4, b.4) && seq_less(b.4, c.4) {
        lemma_seq_less_transitive(a.4, b.4, c.4);
    }
}

fn policy_kind_text(item: &MaintenanceItemDto) -> (text: &str)
    ensures
        text@ == queue_key(*item).2,
{
    match &item.policy_kind {
        Some(kind) => kind.as_str(),
        None => {
            proof {
                reveal_strlit("");
            }
            ""
        },
    }
}

/// Whether one queue entry comes strictly before another.
pub fn item_before(a: &MaintenanceItemDto, b: &MaintenanceItemDto) -> (before: bool)
    ensures
        before == key_before(queue_key(*a), queue_key(*b)),
{
    let rank_a = status_rank(a.status.as_str());
    let rank_b = status_rank(b.status.as_str());
    if rank_a != rank_b {
        return rank_a < rank_b;
    }
    if !text_eq(a.item_kind.as_str(), b.item_kind.as_str()) {
        return text_less(a.item_kind.as_str(), b.item_kind.as_str());
    }
    let kind_a = policy_kind_text(a);
    let kind_b = policy_kind_text(b);
    let ghost ka = queue_key(*a);
    let ghost kb = queue_key(*b);
    if !text_eq(kind_a, kind_b) {
        proof {
            lemma_seq_less_asymmetric(ka.1, kb.1);
        }
        return text_less(kind_a, kind_b);
    }
    proof {
        lemma_seq_less_asymmetric(ka.1, kb.1);
        lemma_seq_less_asymmetric(ka.2, kb.2);
    }
    if !text_eq(a.label.as_str(), b.label.as_str()) {
        return text_less(a.label.as_str(), b.label.as_str());
    }
    proof {
        lemma_seq_less_asymmetric(ka.3, kb.3);
    }
    text_less(a.id.as_str(), b.id.as_str())
}

/// The queue in its display order: the same entries, most urgent first,
/// then by kind, policy kind, label and id.
pub fn sort_maintenance_items(items: Vec<MaintenanceItemDto>) -> (sorted: Vec<MaintenanceItemDto>)
    ensures
        sorted@.to_multiset() == items@.to_multiset(),
        sorted@.len() == items@.len(),
        queue_sorted(sorted@),
{
    let ghost all = items@;
    let mut remaining = items;
    let mut sorted: Vec<MaintenanceItemDto> = Vec::new();
    proof {
        assert(sorted@.to_multiset() =~= Multiset::<MaintenanceItemDto>::empty());
        assert(remaining@.to_multiset().add(sorted@.to_multiset()) =~= all.to_multiset());
    }
    while remaining.len() > 0
        invariant
            remaining@.to_multiset().add(sorted@.to_multiset()) == all.to_multiset(),
            remaining@.len() + sorted@.len() == all.len(),
            queue_sorted(sorted@),
        decreases remaining@.len(),
    {
        let ghost before_remaining = remaining@;
        let item = remaining.remove(0);
        proof {
            to_multiset_remove(before_remaining, 0);
        }
        let mut position: usize = 0;
        while position < sorted.len() && !item_before(&item, &sorted[position])
            invariant
                position <= sorted@.len(),
                forall|k: int| 0 <= k < position ==> !key_before(queue_key(item), queue_key(#[trigger] sorted@[k])),
            decreases sorted@.len() - position,
        {
            position = position + 1;
        }
        let ghost old_sorted = sorted@;
        proof {
            to_multiset_insert(old_sorted, position as int, item);
            if position < old_sorted.len() {
                assert forall|k: int| position <= k < old_sorted.len() implies key_before(
                    queue_key(item),
                    queue_key(#[trigger] old_sorted[k]),
                ) by {
                    if k > position {
                        lemma_key_before_total_or(queue_key(item), queue_key(old_sorted[position as int]), queue_key(old_sorted[k]));
                    }
                }
            }
        }
        sorted.insert(position, item);
        proof {
            let s = sorted@;
            assert(s =~= old_sorted.insert(position as int, item));
            assert forall|i: int, j: int| 0 <= i < j < s.len() implies !key_before(
                queue_key(#[trigger] s[j]),
                queue_key(#[trigger] s[i]),
            ) by {
                if j < position {
                    assert(s[i] == old_sorted[i] && s[j] == old_sorted[j]);
                } else if j == position {
                    assert(s[i] == old_sorted[i]);
                } else if i < position {
                    assert(s[i] == old_sorted[i] && s[j] == old_sorted[j - 1]);
                    if key_before(queue_key(s[j]), queue_key(s[i])) {
                        lemma_key_before_transitive(queue_key(item), queue_key(s[j]), queue_key(s[i]));
                        lemma_key_before_asymmetric(queue_key(item), queue_key(s[i]));
                    }
                } else if i == position {
                    assert(s[j] == old_sorted[j - 1]);
                    lemma_key_before_asymmetric(queue_key(item), queue_key(s[j]));
                } else {
                    assert(s[i] == old_sorted[i - 1] && s[j] == old_sorted[j - 1]);
                }
            }
            assert(remaining@.to_multiset().add(sorted@.to_multiset()) =~= all.to_multiset());
        }
    }
    sorted
}

/// With `b ≤ c` (c not before b) and `a < b`, `a < c`.
proof fn lemma_key_before_total_or(
    a: (int, Seq<char>, Seq<char>, Seq<char>, Seq<char>),
    b: (int, Seq<char>, Seq<char>, Seq<char>, Seq<char>),
    c: (int, Seq<char>, Seq<char>, Seq<char>, Seq<char>),
)
    requires
        key_before(a, b),
        !key_before(c, b),
    ensures
        key_before(a, c),
{
    if b == c {
    } else {
        lemma_key_total(b, c);
        lemma_key_before_transitive(a, b, c);
    }
}

/// Two different keys are ordered one way or the other.
proof fn lemma_key_total(
    a: (int, Seq<char>, Seq<char>, Seq<char>, Seq<char>),
    b: (int, Seq<char>, Seq<char>, Seq<char>, Seq<char>),
)
    requires
        a != b,
    ensures
        key_before(a, b) || key_before(b, a),
{
    if a.1 != b.1 {
        crate::text::lemma_seq_less_total(a.1, b.1);
    }
    if a.2 != b.2 {
        crate::text::lemma_seq_less_total(a.2, b.2);
    }
    if a.3 != b.3 {
        crate::text::lemma_seq_less_total(a.3, b.3);
    }
    if a.4 != b.4 {
        crate::text::lemma_seq_less_total(a.4, b.4);
    }
}

/// The queue status of a due pending Activity: due on its scheduled day,
/// overdue after it.
pub open spec fn pending_status(scheduled: Seq<char>, today: Seq<char>) -> Seq<char> {
    if scheduled == today { "due"@ } else { "overdue"@ }
}

/// The queue entry of a due pending Activity, by value.
pub open spec fn pending_entry(item: MaintenanceItemDto, pending: PendingActivityDto, today: CalendarDate) -> bool {
    let day = ymd_text(civil(today.ordinal()).0, civil(today.ordinal()).1, civil(today.ordinal()).2);
    &&& item.id@ == "pending_activity:"@ + pending.id@
    &&& item.item_kind@ == "pending_activity"@
    &&& item.policy_id is None && item.policy_kind is None
    &&& item.target_account_id is None && item.target_instrument_id is None
    &&& item.target_currency_a is None && item.target_currency_b is None
    &&& item.label@ == "Pending Activity"@
    &&& item.status@ == pending_status(pending.scheduled_local_date@, day)
    &&& item.underlying_status@ == item.status@
    &&& item.observed_on is None && item.snoozed_until is None
    &&& item.due_on == Some(pending.scheduled_local_date)
    &&& item.pending_activity == Some(pending)
}

/// The queue entry of a due pending Activity.
pub fn pending_maintenance_item(pending: PendingActivityDto, today: CalendarDate) -> (item: MaintenanceItemDto)
    ensures
        pending_entry(item, pending, today),
        ({
            let day = ymd_text(civil(today.ordinal()).0, civil(today.ordinal()).1, civil(today.ordinal()).2);
            &&& item.id@ == "pending_activity:"@ + pending.id@
            &&& item.item_kind@ == "pending_activity"@
            &&& item.policy_id is None && item.policy_kind is None
            &&& item.target_account_id is None && item.target_instrument_id is None
            &&& item.target_currency_a is None && item.target_currency_b is None
            &&& item.label@ == "Pending Activity"@
            &&& item.status@ == pending_status(pending.scheduled_local_date@, day)
            &&& item.underlying_status@ == item.status@
            &&& item.observed_on is None && item.snoozed_until is None
            &&& item.due_on == Some(pending.scheduled_local_date)
            &&& item.pending_activity == Some(pending)
        }),
{
    let day = today.to_ymd();
    let status = if text_eq(pending.scheduled_local_date.as_str(), day.as_str()) { "due" } else { "overdue" };
    let id = String::from_str("pending_activity:").concat(pending.id.as_str());
    let due_on = pending.scheduled_local_date.clone();
    MaintenanceItemDto {
        id,
        item_kind: String::from_str("pending_activity"),
        policy_id: None,
        policy_kind: None,
        target_account_id: None,
        target_instrument_id: None,
        target_currency_a: None,
        target_currency_b: None,
        label: String::from_str("Pending Activity"),
        underlying_status: String::from_str(status),
        status: String::from_str(status),
        observed_on: None,
        due_on: Some(due_on),
        snoozed_until: None,
        pending_activity: Some(pending),
    }
}

} // verus!
