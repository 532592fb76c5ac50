//! Income and fee totals: their interface records and the per-Activity
//! decisions behind them.

use vstd::prelude::*;

use crate::amount::MoneyDto;
use crate::calendar::CalendarDate;
use crate::pending::PendingActivityKind;
use crate::text::clone_opt;

verus! {

/// The fee bucket of buy and sell commissions.
pub const TRADE_COMMISSION: &'static str = "tradeCommission";

#[derive(Debug, Clone)]
pub struct IncomeBucketDto {
    pub income_kind: String,
    pub attributed_instrument_id: Option<String>,
    pub amount: MoneyDto,
}

#[derive(Debug, Clone)]
pub struct FeeBucketDto {
    pub fee_kind: String,
    pub attributed_instrument_id: Option<String>,
    pub amount: MoneyDto,
}

#[derive(Debug, Clone)]
pub struct IncomeFeeTotalsDto {
    pub income: Vec<IncomeBucketDto>,
    pub fees: Vec<FeeBucketDto>,
}

/// What the income and fee totals read of one Activity.
#[derive(Debug, Clone)]
pub struct ActivitySummary {
    pub id: String,
    pub kind: PendingActivityKind,
    pub reverses: Option<String>,
    pub fee_kind: Option<String>,
    pub effective_local_date: CalendarDate,
}

/// A reversal and the Activity it reverses both drop out of the totals.
pub open spec fn is_excluded(activities: Seq<ActivitySummary>, id: Seq<char>) -> bool {
    exists|i: int| 0 <= i < activities.len() && (#[trigger] activities[i]).reverses is Some
        && (activities[i].id@ == id || activities[i].reverses.unwrap()@ == id)
}

/// The ids of reversals and of the Activities they reverse.
pub fn excluded_activity_ids(activities: &Vec<ActivitySummary>) -> (excluded: Vec<String>)
    ensures
        forall|id: Seq<char>| is_excluded(activities@, id)
            <==> exists|k: int| 0 <= k < excluded@.len() && (#[trigger] excluded@[k])@ == id,
{
    let mut excluded: Vec<String> = Vec::new();
    let mut i: usize = 0;
    while i < activities.len()
        invariant
            i <= activities@.len(),
            forall|id: Seq<char>| is_excluded(activities@.subrange(0, i as int), id)
                <==> exists|k: int| 0 <= k < excluded@.len() && (#[trigger] excluded@[k])@ == id,
        decreases activities@.len() - i,
    {
        let activity = &activities[i];
        let ghost before = excluded@;
        match &activity.reverses {
            Some(original) => {
                excluded.push(original.clone());
                excluded.push(activity.id.clone());
            },
            None => {},
        }
        proof {
            let prefix = activities@.subrange(0, i as int);
            let next = activities@.subrange(0, i + 1);
            assert forall|id: Seq<char>| is_excluded(next, id)
                <==> exists|k: int| 0 <= k < excluded@.len() && (#[trigger] excluded@[k])@ == id by {
                if is_excluded(next, id) {
                    let j = choose|j: int| 0 <= j < next.len() && (#[trigger] next[j]).reverses is Some
                        && (next[j].id@ == id || next[j].reverses.unwrap()@ == id);
                    if j < i {
                        assert(prefix[j] == next[j]);
                        assert(is_excluded(prefix, id));
                        let k = choose|k: int| 0 <= k < before.len() && (#[trigger] before[k])@ == id;
                        assert(excluded@[k] == before[k]);
                    } else {
                        assert(next[j] == activities@[i as int]);
                        if activities@[i as int].reverses.unwrap()@ == id {
                            assert(excluded@[before.len() as int]@ == id);
                        } else {
                            assert(excluded@[before.len() as int + 1]@ == id);
                        }
                    }
                }
                if exists|k: int| 0 <= k < excluded@.len() && (#[trigger] excluded@[k])@ == id {
                    let k = choose|k: int| 0 <= k < excluded@.len() && (#[trigger] excluded@[k])@ == id;
                    if k < before.len() {
                        assert(excluded@[k] == before[k]);
                        assert(is_excluded(prefix, id));
                        let j = choose|j: int| 0 <= j < prefix.len() && (#[trigger] prefix[j]).reverses is Some
                            && (prefix[j].id@ == id || prefix[j].reverses.unwrap()@ == id);
                        assert(next[j] == prefix[j]);
                    } else {
                        assert(next[i as int] == activities@[i as int]);
                    }
                }
            }
        }
        i = i + 1;
    }
    assert(activities@.subrange(0, activities@.len() as int) =~= activities@);
    excluded
}

/// The fee bucket an Activity's fee falls in: its fee kind, else the trade
/// commission of a buy or sell, else `other` for a fee; none otherwise.
pub open spec fn fee_bucket_spec(activity: ActivitySummary) -> Option<Seq<char>> {
    match activity.fee_kind {
        Some(kind) => Some(kind@),
        None => match activity.kind {
            PendingActivityKind::Buy | PendingActivityKind::Sell => Some("tradeCommission"@),
            PendingActivityKind::Fee => Some("other"@),
            _ => None,
        },
    }
}

/// The fee bucket of an Activity.
pub fn fee_bucket(activity: &ActivitySummary) -> (bucket: Option<String>)
    ensures
        match bucket {
            Some(b) => fee_bucket_spec(*activity) == Some(b@),
            None => fee_bucket_spec(*activity) is None,
        },
        activity.fee_kind matches Some(k) ==> (bucket matches Some(b) && b@ == k@),
        activity.fee_kind is None && (activity.kind is Buy || activity.kind is Sell) ==> (bucket matches Some(b)
            && b@ == "tradeCommission"@),
        activity.fee_kind is None && activity.kind is Fee ==> (bucket matches Some(b) && b@ == "other"@),
        activity.fee_kind is None && !(activity.kind is Buy || activity.kind is Sell || activity.kind is Fee)
            ==> bucket is None,
{
    if activity.fee_kind.is_some() {
        return clone_opt(&activity.fee_kind);
    }
    match activity.kind {
        PendingActivityKind::Buy | PendingActivityKind::Sell => Some(String::from_str(TRADE_COMMISSION)),
        PendingActivityKind::Fee => Some(String::from_str("other")),
        _ => None,
    }
}

/// Whether an Activity counts in a reporting period: always without both
/// bounds; within them, ends included, when they are ordered; never when
/// the start follows the end.
pub open spec fn in_period(activity: ActivitySummary, start: Option<CalendarDate>, end: Option<CalendarDate>) -> bool {
    match (start, end) {
        (Some(s), Some(e)) => s.ordinal() <= e.ordinal()
            && s.ordinal() <= activity.effective_local_date.ordinal()
            && activity.effective_local_date.ordinal() <= e.ordinal(),
        _ => true,
    }
}

/// Whether an Activity counts in a reporting period.
pub fn activity_in_period(activity: &ActivitySummary, start: Option<CalendarDate>, end: Option<CalendarDate>) -> (counts: bool)
    ensures
        counts == in_period(*activity, start, end),
        match (start, end) {
            (Some(s), Some(e)) => counts <==> (s.ordinal() <= activity.effective_local_date.ordinal()
                && activity.effective_local_date.ordinal() <= e.ordinal()),
            _ => counts,
        },
{
    match (start, end) {
        (Some(s), Some(e)) => {
            if e.is_before(&s) {
                false
            } else {
                let date = activity.effective_local_date;
                !date.is_before(&s) && !e.is_before(&date)
            }
        },
        _ => true,
    }
}


/// Where a fee lands: in its own fee kind when the Activity carries one;
/// otherwise a buy or sell commission lands in `tradeCommission`, a fee
/// Activity's fee in `other`, and any other Activity's leg in no bucket.
pub proof fn law_fee_buckets(activity: ActivitySummary)
    ensures
        activity.fee_kind matches Some(k) ==> fee_bucket_spec(activity) == Some(k@),
        activity.fee_kind is None && (activity.kind is Buy || activity.kind is Sell) ==> fee_bucket_spec(activity)
            == Some("tradeCommission"@),
        activity.fee_kind is None && activity.kind is Fee ==> fee_bucket_spec(activity) == Some("other"@),
        activity.fee_kind is None && !(activity.kind is Buy || activity.kind is Sell || activity.kind is Fee)
            ==> fee_bucket_spec(activity) is None,
{
}

/// A reporting period with both bounds counts exactly the Activities dated
/// from its first day through its last, both included; without both bounds
/// every Activity counts.
pub proof fn law_period_includes_both_ends(activity: ActivitySummary, start: CalendarDate, end: CalendarDate)
    ensures
        in_period(activity, Some(start), Some(end)) <==> start.ordinal() <= activity.effective_local_date.ordinal()
            <= end.ordinal(),
        start.ordinal() <= end.ordinal() ==> in_period(
            ActivitySummary { effective_local_date: start, ..activity },
            Some(start),
            Some(end),
        ) && in_period(ActivitySummary { effective_local_date: end, ..activity }, Some(start), Some(end)),
        in_period(activity, None, Some(end)) && in_period(activity, Some(start), None),
{
}

} // verus!
