//! Daily valuation history: which closed days a rebuild covers, how its
//! outcome and status are reported, and how trend points are drawn.

use vstd::prelude::*;

use crate::amount::MoneyDto;
use crate::calendar::{date_ordinal, CalendarDate};
use crate::error::{is_validation_of, AppError};
use crate::history_records::{DailyValuationSnapshotItemRecord, DailyValuationSnapshotRecord, SnapshotStateRecord};
use crate::ids::{new_id, uuid_accepts};
use crate::overview::TOTAL_BPS;
use crate::text::{clone_opt, text_eq};

verus! {

broadcast use CalendarDate::lemma_ordinal_bounds;

/// The most closed days one rebuild call processes.
pub const MAX_REBUILD_DAYS: i64 = 366;

#[derive(Debug, Clone)]
pub struct RebuildHistorySnapshotsInput {
    pub cancel: bool,
}

#[derive(Debug, Clone)]
pub struct RebuildHistorySnapshotsResultDto {
    pub processed_days: i32,
    pub remaining: bool,
    pub cancelled: bool,
    pub dirty_from: Option<String>,
    pub last_completed_on: Option<String>,
    pub status: String,
}

#[derive(Debug, Clone)]
pub struct HistoryStatusDto {
    pub timezone: String,
    pub timezone_confirmed: bool,
    pub origin_at: String,
    pub origin_local_date: String,
    pub dirty_from: Option<String>,
    pub last_completed_on: Option<String>,
    pub last_closed_on: Option<String>,
    pub rebuild_status: String,
    pub rebuild_cursor_on: Option<String>,
}

#[derive(Debug, Clone)]
pub struct GetNetWorthTrendInput {
    pub range: String,
}

#[derive(Debug, Clone)]
pub struct NetWorthTrendDto {
    pub base_currency: String,
    pub range: String,
    pub origin_local_date: String,
    pub dirty_from: Option<String>,
    pub points: Vec<NetWorthTrendPointDto>,
    pub current: NetWorthTrendPointDto,
}

#[derive(Debug, Clone)]
pub struct NetWorthTrendPointDto {
    pub date: Option<String>,
    pub as_of: String,
    pub assets: MoneyDto,
    pub liabilities: MoneyDto,
    pub net_worth: MoneyDto,
    pub is_complete: bool,
    pub is_live: bool,
    pub coverage_bps: i32,
    pub missing_count: i32,
    pub valued_component_count: i32,
    pub total_component_count: i32,
}

/// The number of days one rebuild call may process: the request held
/// within zero and the maximum.
pub fn rebuild_day_limit(max_days: i64) -> (limit: i64)
    ensures
        limit == if max_days < 0 { 0 } else if max_days > MAX_REBUILD_DAYS { MAX_REBUILD_DAYS } else { max_days },
{
    if max_days < 0 {
        0
    } else if max_days > MAX_REBUILD_DAYS {
        MAX_REBUILD_DAYS
    } else {
        max_days
    }
}

/// A failed rebuild reports the history errors a user can act on as they
/// are, and any other failure as a failed rebuild.
pub fn map_rebuild_error(error: AppError) -> (mapped: AppError)
    ensures
        (error is HistoryTimezoneConfirmationRequired || error is HistoryInitializationFailed
            || error is SnapshotRebuildRequired) ==> mapped == error,
        !(error is HistoryTimezoneConfirmationRequired || error is HistoryInitializationFailed
            || error is SnapshotRebuildRequired) ==> mapped is SnapshotRebuildFailed,
{
    match error {
        AppError::HistoryTimezoneConfirmationRequired => error,
        AppError::HistoryInitializationFailed => error,
        AppError::SnapshotRebuildRequired => error,
        _ => AppError::SnapshotRebuildFailed,
    }
}

/// The first closed day a rebuild starts from: the first dirty day, but
/// never before the History Origin date.
pub open spec fn rebuild_start(dirty: int, origin: int) -> int {
    if dirty < origin { origin } else { dirty }
}

/// The number of closed days a rebuild plans: consecutive days from the
/// start through the last closed day (the day before `today`), at most
/// `max_days`.
pub open spec fn planned_length(start: int, today: int, max_days: int) -> int {
    let available = today - 1 - start + 1;
    let limit = if max_days < 0 { 0 } else { max_days };
    if today == 0 || available <= 0 { 0 } else if available < limit { available } else { limit }
}

/// The closed days a rebuild processes, in order: from the first dirty day
/// (not before the History Origin date) through the last closed day, at most
/// `max_days` of them; none when nothing is dirty.
pub fn plan_rebuild_days(
    dirty_from: &Option<String>,
    origin_local_date: &str,
    today: CalendarDate,
    max_days: i64,
) -> (days: Result<Vec<CalendarDate>, AppError>)
    ensures
        match dirty_from {
            None => days matches Ok(d) && d@.len() == 0,
            Some(dirty) => match days {
                Ok(d) => date_ordinal(dirty@) is Some && date_ordinal(origin_local_date@) is Some && {
                    let start = rebuild_start(date_ordinal(dirty@).unwrap(), date_ordinal(origin_local_date@).unwrap());
                    &&& d@.len() == planned_length(start, today.ordinal(), max_days as int)
                    &&& forall|i: int| 0 <= i < d@.len() ==> (#[trigger] d@[i]).ordinal() == start + i
                },
                Err(e) => (date_ordinal(dirty@) is None || date_ordinal(origin_local_date@) is None)
                    && is_validation_of(e, "date"@),
            },
        },
{
    let dirty = match dirty_from {
        Some(text) => text,
        None => return Ok(Vec::new()),
    };
    let first = CalendarDate::parse(dirty.as_str())?;
    let origin = CalendarDate::parse(origin_local_date)?;
    let start = CalendarDate::later(first, origin);
    let mut days: Vec<CalendarDate> = Vec::new();
    let last_closed = match today.pred() {
        Some(day) => day,
        None => return Ok(days),
    };
    if last_closed.is_before(&start) {
        return Ok(days);
    }
    let limit: usize = if max_days < 0 {
        0
    } else if max_days as u64 > usize::MAX as u64 {
        usize::MAX
    } else {
        max_days as usize
    };
    let ghost s = start.ordinal();
    let ghost last = last_closed.ordinal();
    let mut cursor = start;
    let mut more = true;
    while more && days.len() < limit && !last_closed.is_before(&cursor)
        invariant
            s <= last,
            last_closed.ordinal() == last,
            more ==> cursor.ordinal() == s + days@.len(),
            !more ==> s + days@.len() - 1 == last && cursor.ordinal() == last,
            days@.len() <= limit,
            days@.len() <= last - s + 1,
            forall|i: int| 0 <= i < days@.len() ==> (#[trigger] days@[i]).ordinal() == s + i,
        decreases last - s + 1 - days@.len(),
    {
        days.push(cursor);
        match cursor.succ() {
            Some(next) => {
                cursor = next;
            },
            None => {
                more = false;
            },
        }
    }
    proof {
        let avail = last - s + 1;
        if more && days@.len() < limit {
            assert(cursor.ordinal() > last);
        }
        assert(limit == if max_days < 0 { 0 } else { max_days as int } || (max_days as int > usize::MAX && limit == usize::MAX));
    }
    Ok(days)
}

/// The share of valued components in basis points; a day without
/// components counts as fully covered.
pub open spec fn coverage_bps_spec(valued: int, total: int) -> int {
    if total == 0 { TOTAL_BPS as int } else { valued * (TOTAL_BPS as int) / total }
}

/// The coverage of a stored snapshot.
pub fn snapshot_coverage_bps(valued: usize, total: usize) -> (bps: i64)
    requires
        valued <= total,
        total * 10_000 <= i64::MAX,
    ensures
        bps == coverage_bps_spec(valued as int, total as int),
        0 <= bps <= TOTAL_BPS,
{
    if total == 0 {
        TOTAL_BPS as i64
    } else {
        let bps = (valued as i64) * (TOTAL_BPS as i64) / (total as i64);
        proof {
            assert((valued as int) * 10000 <= (total as int) * 10000) by (nonlinear_arith)
                requires valued <= total;
            assert((valued as int) * 10000 / (total as int) <= 10000) by (nonlinear_arith)
                requires (valued as int) * 10000 <= (total as int) * 10000, total > 0;
        }
        bps
    }
}

/// A counter as the interface carries it: zero when it does not fit.
pub open spec fn as_i32_or_zero(value: int) -> int {
    if i32::MIN <= value <= i32::MAX { value } else { 0 }
}

fn narrow_or_zero(value: i64) -> (narrow: i32)
    ensures
        narrow == as_i32_or_zero(value as int),
{
    if i32::MIN as i64 <= value && value <= i32::MAX as i64 {
        value as i32
    } else {
        0
    }
}

/// A stored daily snapshot drawn as a trend point.
pub fn trend_point_from_snapshot(row: DailyValuationSnapshotRecord) -> (point: NetWorthTrendPointDto)
    requires
        i64::MIN <= row.total_component_count - row.valued_component_count <= i64::MAX,
    ensures
        point.date == Some(row.snapshot_on),
        point.as_of == row.cutoff_at,
        point.assets.amount == row.assets_amount && point.assets.currency == row.currency,
        point.liabilities.amount == row.liabilities_amount && point.liabilities.currency == row.currency,
        point.net_worth.amount == row.net_worth_amount && point.net_worth.currency == row.currency,
        point.is_complete == row.is_complete,
        !point.is_live,
        point.coverage_bps == as_i32_or_zero(row.coverage_bps as int),
        point.missing_count == as_i32_or_zero(
            if row.total_component_count - row.valued_component_count < 0 { 0 }
            else { row.total_component_count - row.valued_component_count },
        ),
        point.valued_component_count == as_i32_or_zero(row.valued_component_count as int),
        point.total_component_count == as_i32_or_zero(row.total_component_count as int),
{
    let difference = row.total_component_count - row.valued_component_count;
    let missing = if difference < 0 { 0 } else { difference };
    let currency = row.currency;
    NetWorthTrendPointDto {
        date: Some(row.snapshot_on),
        as_of: row.cutoff_at,
        assets: MoneyDto { amount: row.assets_amount, currency: currency.clone() },
        liabilities: MoneyDto { amount: row.liabilities_amount, currency: currency.clone() },
        net_worth: MoneyDto { amount: row.net_worth_amount, currency },
        is_complete: row.is_complete,
        is_live: false,
        coverage_bps: narrow_or_zero(row.coverage_bps),
        missing_count: narrow_or_zero(missing),
        valued_component_count: narrow_or_zero(row.valued_component_count),
        total_component_count: narrow_or_zero(row.total_component_count),
    }
}

/// How far back a trend range reaches, in days; `None` for `all`, which
/// reaches back to the History Origin date.
pub open spec fn trend_days(range: Seq<char>) -> Option<Option<int>> {
    if range == "1m"@ {
        Some(Some(30))
    } else if range == "3m"@ {
        Some(Some(90))
    } else if range == "1y"@ {
        Some(Some(365))
    } else if range == "all"@ {
        Some(None)
    } else {
        None
    }
}

/// The first day of a trend range: that many days before today, but never
/// before the History Origin date.
pub open spec fn trend_start_spec(days: Option<int>, origin: int, today: int) -> int {
    match days {
        None => origin,
        Some(n) => if today - n < 0 || today - n < origin { origin } else { today - n },
    }
}

/// The four range names are four different texts.
proof fn lemma_range_names_differ()
    ensures
        "1m"@ != "3m"@,
        "1m"@ != "1y"@,
        "3m"@ != "1y"@,
        "all"@ != "1m"@,
        "all"@ != "3m"@,
        "all"@ != "1y"@,
{
    reveal_strlit("1m");
    reveal_strlit("3m");
    reveal_strlit("1y");
    reveal_strlit("all");
    assert("1m"@[0] != "3m"@[0]);
    assert("1m"@[1] != "1y"@[1]);
    assert("3m"@[0] != "1y"@[0]);
    assert("all"@.len() != "1m"@.len());
}

/// The first day of a trend range.
pub fn trend_start(range: &str, origin_date: CalendarDate, today: CalendarDate) -> (start: Result<CalendarDate, AppError>)
    ensures
        match start {
            Ok(s) => trend_days(range@) matches Some(days)
                && s.ordinal() == trend_start_spec(days, origin_date.ordinal(), today.ordinal()),
            Err(e) => trend_days(range@) is None && is_validation_of(e, "range"@),
        },
        range@ == "1m"@ ==> (start matches Ok(s) && s.ordinal() == if today.ordinal() - 30 < origin_date.ordinal() {
            origin_date.ordinal()
        } else {
            today.ordinal() - 30
        }),
        range@ == "3m"@ ==> (start matches Ok(s) && s.ordinal() == if today.ordinal() - 90 < origin_date.ordinal() {
            origin_date.ordinal()
        } else {
            today.ordinal() - 90
        }),
        range@ == "1y"@ ==> (start matches Ok(s) && s.ordinal() == if today.ordinal() - 365 < origin_date.ordinal() {
            origin_date.ordinal()
        } else {
            today.ordinal() - 365
        }),
        range@ == "all"@ ==> start == Ok::<CalendarDate, AppError>(origin_date),
        start is Ok <==> (range@ == "1m"@ || range@ == "3m"@ || range@ == "1y"@ || range@ == "all"@),
{
    proof {
        lemma_range_names_differ();
    }
    let days: i64 = if text_eq(range, "1m") {
        30
    } else if text_eq(range, "3m") {
        90
    } else if text_eq(range, "1y") {
        365
    } else if text_eq(range, "all") {
        return Ok(origin_date);
    } else {
        return Err(AppError::validation("range", "Trend range must be 1m, 3m, 1y, or all."));
    };
    let back = match today.checked_add_days(-days) {
        Some(day) => day,
        None => origin_date,
    };
    Ok(CalendarDate::later(back, origin_date))
}

/// A trend range reaches back its own number of days from today (a month
/// 30, a quarter 90, a year 365) and never before the History Origin date;
/// `all` starts at the origin. So a longer range never starts later than a
/// shorter one, and no range starts before the origin.
pub proof fn law_trend_ranges_reach_back(origin: int, today: int)
    requires
        0 <= origin,
    ensures
        trend_days("1m"@) matches Some(d) && trend_start_spec(d, origin, today) == if today - 30 < origin {
            origin
        } else {
            today - 30
        },
        trend_days("3m"@) matches Some(d) && trend_start_spec(d, origin, today) == if today - 90 < origin {
            origin
        } else {
            today - 90
        },
        trend_days("1y"@) matches Some(d) && trend_start_spec(d, origin, today) == if today - 365 < origin {
            origin
        } else {
            today - 365
        },
        trend_days("all"@) matches Some(d) && trend_start_spec(d, origin, today) == origin,
        trend_start_spec(trend_days("all"@)->Some_0, origin, today) <= trend_start_spec(trend_days("1y"@)->Some_0, origin, today)
            <= trend_start_spec(trend_days("3m"@)->Some_0, origin, today) <= trend_start_spec(
            trend_days("1m"@)->Some_0,
            origin,
            today,
        ),
        forall|r: Seq<char>| #[trigger] trend_days(r) matches Some(d) ==> origin <= trend_start_spec(d, origin, today),
{
    lemma_range_names_differ();
}

/// The days whose snapshots a trend shows: from the range's start through
/// the last closed day (or the History Origin date before any day has
/// closed), neither before the origin date; `None` when that span is empty.
pub fn trend_window(range: &str, origin_date: CalendarDate, today: CalendarDate) -> (window: Result<Option<(CalendarDate, CalendarDate)>, AppError>)
    ensures
        match window {
            Ok(w) => trend_days(range@) matches Some(days) && {
                let start = trend_start_spec(days, origin_date.ordinal(), today.ordinal());
                let last = if today.ordinal() == 0 { origin_date.ordinal() } else { today.ordinal() - 1 };
                let end = if last < origin_date.ordinal() { origin_date.ordinal() } else { last };
                match w {
                    Some((s, e)) => start <= end && s.ordinal() == start && e.ordinal() == end,
                    None => start > end,
                }
            },
            Err(e) => trend_days(range@) is None && is_validation_of(e, "range"@),
        },
{
    let start = trend_start(range, origin_date, today)?;
    let end = match today.pred() {
        Some(day) => day,
        None => origin_date,
    };
    let start_on = CalendarDate::later(start, origin_date);
    let end_on = CalendarDate::later(end, origin_date);
    if end_on.is_before(&start_on) {
        Ok(None)
    } else {
        Ok(Some((start_on, end_on)))
    }
}

/// The last closed local day as the status reports it: the day before
/// today, when there is one.
pub fn last_closed_on(today: CalendarDate) -> (day: Option<String>)
    ensures
        today.ordinal() == 0 ==> day is None,
        today.ordinal() > 0 ==> day is Some,
{
    match today.pred() {
        Some(day) => Some(day.to_ymd()),
        None => None,
    }
}

/// The outcome of a rebuild call, read from the snapshot state it left:
/// days remain while a dirty day is recorded.
pub fn rebuild_result(processed: i32, state: &SnapshotStateRecord, cancelled: bool) -> (result: RebuildHistorySnapshotsResultDto)
    ensures
        result.processed_days == processed,
        result.remaining == (state.dirty_from is Some),
        result.cancelled == cancelled,
        result.dirty_from == state.dirty_from,
        result.last_completed_on == state.last_completed_on,
        cancelled ==> result.status@ == "cancelled"@,
        !cancelled ==> result.status@ == "idle"@,
{
    RebuildHistorySnapshotsResultDto {
        processed_days: processed,
        remaining: state.dirty_from.is_some(),
        cancelled,
        dirty_from: clone_opt(&state.dirty_from),
        last_completed_on: clone_opt(&state.last_completed_on),
        status: if cancelled { String::from_str("cancelled") } else { String::from_str("idle") },
    }
}

/// One valued component of a snapshot, under a fresh id, not yet attached
/// to its snapshot.
pub fn component_item(
    account_id: &str,
    holding_id: Option<String>,
    instrument_id: Option<String>,
    component_kind: &str,
    native_amount: Option<String>,
    native_currency: Option<String>,
    base_amount: Option<String>,
    instrument_quote_id: Option<String>,
    fx_quote_id: Option<String>,
    account_state_observation_id: Option<String>,
    origin_id: Option<String>,
    activity_id: Option<String>,
    is_complete: bool,
    missing_reason: Option<String>,
) -> (item: DailyValuationSnapshotItemRecord)
    ensures
        uuid_accepts(item.id@),
        item.snapshot_id@.len() == 0,
        item.account_id@ == account_id@,
        item.holding_id == holding_id && item.instrument_id == instrument_id,
        item.component_kind@ == component_kind@,
        item.native_amount == native_amount && item.native_currency == native_currency,
        item.base_amount == base_amount,
        item.instrument_quote_id == instrument_quote_id && item.fx_quote_id == fx_quote_id,
        item.account_state_observation_id == account_state_observation_id,
        item.origin_id == origin_id && item.activity_id == activity_id,
        item.is_complete == is_complete && item.missing_reason == missing_reason,
        item.sort_order == 0,
{
    DailyValuationSnapshotItemRecord {
        id: new_id(),
        snapshot_id: String::new(),
        account_id: String::from_str(account_id),
        holding_id,
        instrument_id,
        component_kind: String::from_str(component_kind),
        native_amount,
        native_currency,
        base_amount,
        instrument_quote_id,
        fx_quote_id,
        account_state_observation_id,
        origin_id,
        activity_id,
        is_complete,
        missing_reason,
        sort_order: 0,
    }
}

} // verus!
