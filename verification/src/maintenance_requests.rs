//! The decisions of the two maintenance writes: setting a freshness policy
//! and snoozing a target. Each is checked in two steps: the request alone,
//! before any storage is read, then against the policies read.

use vstd::prelude::*;

use crate::calendar::{parse_ymd_spec, CalendarDate};
use crate::error::{is_not_found_of, is_validation_of, AppError};
use crate::ids::{require_id, uuid_accepts};
use crate::maintenance::{
    default_key, first_keyed, is_default_target, none_keyed, normalize_spec, normalize_target, policy_columns,
    policy_kind_name, policy_kind_spec, record_key_spec, record_target, resolve_policy, FreshnessPolicyKind,
    FreshnessPolicyRecord, MaintenanceSnoozeRecord, PolicyTarget, SnoozeMaintenanceItemInput, TargetView,
    UpdateFreshnessPolicyInput,
};
use crate::text::{clone_opt, opt_view, text_eq};

verus! {

/// The target columns of a request, as text.
pub open spec fn snooze_input_columns(input: SnoozeMaintenanceItemInput) -> TargetView {
    (opt_view(input.target_account_id), opt_view(input.target_instrument_id), opt_view(input.target_currency_a), opt_view(
        input.target_currency_b,
    ))
}

/// The target columns of a policy request, as text.
pub open spec fn policy_input_columns(input: UpdateFreshnessPolicyInput) -> TargetView {
    (opt_view(input.target_account_id), opt_view(input.target_instrument_id), opt_view(input.target_currency_a), opt_view(
        input.target_currency_b,
    ))
}

/// The kind and normalised target a snooze request names, when its kind,
/// target and date read and the target is a concrete one.
pub open spec fn snooze_request_spec(input: SnoozeMaintenanceItemInput) -> Option<(FreshnessPolicyKind, TargetView)> {
    match policy_kind_spec(input.policy_kind@) {
        Some(k) => match normalize_spec(k, snooze_input_columns(input)) {
            Some(t) => if !is_default_target(t) && parse_ymd_spec(input.snoozed_until@) is Some {
                Some((k, t))
            } else {
                None
            },
            None => None,
        },
        None => None,
    }
}

/// Checks a snooze request before storage is read: its kind, its target
/// (a concrete one; a kind's default is refused on `target`) and its date.
pub fn snooze_request(input: &SnoozeMaintenanceItemInput) -> (checked: Result<(FreshnessPolicyKind, PolicyTarget), AppError>)
    ensures
        match checked {
            Ok(pair) => snooze_request_spec(*input) == Some((pair.0, pair.1@)),
            Err(e) => snooze_request_spec(*input) is None && match policy_kind_spec(input.policy_kind@) {
                Some(k) => match normalize_spec(k, snooze_input_columns(*input)) {
                    Some(t) => if is_default_target(t) {
                        is_validation_of(e, "target"@)
                    } else {
                        is_validation_of(e, "date"@)
                    },
                    None => true,
                },
                None => true,
            },
        },
{
    let kind = FreshnessPolicyKind::parse(input.policy_kind.as_str())?;
    let target = normalize_target(
        kind,
        clone_opt(&input.target_account_id),
        clone_opt(&input.target_instrument_id),
        clone_opt(&input.target_currency_a),
        clone_opt(&input.target_currency_b),
    )?;
    if target.is_default() {
        return Err(AppError::validation("target", "A snooze must identify a concrete maintenance target."));
    }
    CalendarDate::parse(input.snoozed_until.as_str())?;
    Ok((kind, target))
}

/// The policy a target resolves to: its own, else its kind's default.
pub open spec fn resolves_to(
    policies: Seq<FreshnessPolicyRecord>,
    kind: FreshnessPolicyKind,
    target: TargetView,
    p: FreshnessPolicyRecord,
) -> bool {
    ||| exists|i: int| first_keyed(policies, i, (kind, target)) && policies[i] == p
    ||| none_keyed(policies, (kind, target)) && exists|i: int| first_keyed(policies, i, default_key(kind)) && policies[i] == p
}

/// The error is a conflict carrying the given message.
pub open spec fn is_conflict_of(error: AppError, message: Seq<char>) -> bool {
    error matches AppError::Conflict { message: m } && m@ == message
}

/// A snooze row holds the request's kind, target and date.
pub open spec fn snooze_row(
    r: MaintenanceSnoozeRecord,
    kind: FreshnessPolicyKind,
    target: TargetView,
    snoozed_until: Seq<char>,
) -> bool {
    &&& r.policy_kind@ == policy_kind_name(kind)
    &&& (opt_view(r.target_account_id), opt_view(r.target_instrument_id), opt_view(r.target_currency_a), opt_view(
        r.target_currency_b,
    )) == target
    &&& r.snoozed_until@ == snoozed_until
}

/// The snooze row of a checked request, against the policies read: the
/// target's policy must exist and be enabled, else the write is a conflict.
pub fn snooze_record(
    kind: FreshnessPolicyKind,
    target: &PolicyTarget,
    snoozed_until: String,
    policies: &[FreshnessPolicyRecord],
    id: String,
    household_id: String,
    created_at: String,
) -> (row: Result<MaintenanceSnoozeRecord, AppError>)
    ensures
        match row {
            Ok(r) => (exists|p: FreshnessPolicyRecord| resolves_to(policies@, kind, target@, p) && p.review_interval_days is Some)
                && snooze_row(r, kind, target@, snoozed_until@) && r.id == id && r.household_id == household_id
                && r.created_at == created_at,
            Err(e) => (none_keyed(policies@, (kind, target@)) && none_keyed(policies@, default_key(kind))
                && is_conflict_of(e, "No active freshness policy exists for this target."@))
                || ((exists|p: FreshnessPolicyRecord| resolves_to(policies@, kind, target@, p) && p.review_interval_days is None)
                && is_conflict_of(e, "The freshness policy is disabled for this target."@)),
        },
{
    let policy = match resolve_policy(policies, kind, target) {
        Some(policy) => policy,
        None => {
            return Err(AppError::conflict("No active freshness policy exists for this target."));
        },
    };
    assert(resolves_to(policies@, kind, target@, *policy));
    if policy.review_interval_days.is_none() {
        return Err(AppError::conflict("The freshness policy is disabled for this target."));
    }
    Ok(MaintenanceSnoozeRecord {
        id,
        household_id,
        policy_kind: String::from_str(kind.as_str()),
        target_account_id: clone_opt(&target.account_id),
        target_instrument_id: clone_opt(&target.instrument_id),
        target_currency_a: clone_opt(&target.currency_a),
        target_currency_b: clone_opt(&target.currency_b),
        snoozed_until,
        created_at,
    })
}

/// A review interval the policy write accepts: 1 to 3650 days, or none.
pub open spec fn interval_spec(interval: Option<i32>) -> Option<Option<i64>> {
    match interval {
        None => Some(None),
        Some(v) => if 1 <= v <= 3650 { Some(Some(v as i64)) } else { None },
    }
}

/// The kind, normalised target and interval a policy request names, when
/// they read and its id, if any, is an identifier.
pub open spec fn policy_request_spec(input: UpdateFreshnessPolicyInput) -> Option<(FreshnessPolicyKind, TargetView, Option<i64>)> {
    match policy_kind_spec(input.kind@) {
        Some(k) => match normalize_spec(k, policy_input_columns(input)) {
            Some(t) => match interval_spec(input.review_interval_days) {
                Some(interval) => if input.id matches Some(id) && !uuid_accepts(id@) {
                    None
                } else {
                    Some((k, t, interval))
                },
                None => None,
            },
            None => None,
        },
        None => None,
    }
}

/// Checks a policy request before storage is read: kind, target, interval,
/// then the id of the policy to change, if one is given.
pub fn policy_request(input: &UpdateFreshnessPolicyInput) -> (checked: Result<
    (FreshnessPolicyKind, PolicyTarget, Option<i64>),
    AppError,
>)
    ensures
        match checked {
            Ok(c) => policy_request_spec(*input) == Some((c.0, c.1@, c.2)),
            Err(_) => policy_request_spec(*input) is None,
        },
{
    let kind = FreshnessPolicyKind::parse(input.kind.as_str())?;
    let target = normalize_target(
        kind,
        clone_opt(&input.target_account_id),
        clone_opt(&input.target_instrument_id),
        clone_opt(&input.target_currency_a),
        clone_opt(&input.target_currency_b),
    )?;
    let interval = crate::maintenance::parse_interval(input.review_interval_days)?;
    match &input.id {
        Some(id) => require_id("id", id.as_str())?,
        None => {},
    }
    Ok((kind, target, interval))
}

/// The policy with the id among those read, archived ones included.
pub fn policy_by_id(policies: Vec<FreshnessPolicyRecord>, id: &str) -> (found: Result<FreshnessPolicyRecord, AppError>)
    ensures
        match found {
            Ok(p) => exists|i: int| 0 <= i < policies@.len() && policies@[i] == p && p.id@ == id@ && forall|j: int|
                0 <= j < i ==> (#[trigger] policies@[j]).id@ != id@,
            Err(e) => is_not_found_of(e, "freshness policy"@, id@) && forall|j: int| 0 <= j < policies@.len() ==> (
            #[trigger] policies@[j]).id@ != id@,
        },
{
    let mut i: usize = 0;
    while i < policies.len()
        invariant
            i <= policies@.len(),
            forall|j: int| 0 <= j < i ==> (#[trigger] policies@[j]).id@ != id@,
        decreases policies@.len() - i,
    {
        if text_eq(policies[i].id.as_str(), id) {
            let ghost at = i as int;
            assert(policies@[at].id@ == id@);
            let mut rest = policies;
            let found = rest.remove(i);
            return Ok(found);
        }
        i = i + 1;
    }
    Err(AppError::not_found("freshness policy", id))
}

/// A kind's stored name reads back as the kind.
proof fn lemma_kind_name_reads_back(kind: FreshnessPolicyKind)
    ensures
        policy_kind_spec(policy_kind_name(kind)) == Some(kind),
        forall|name: Seq<char>| policy_kind_spec(name) == Some(kind) ==> name == policy_kind_name(kind),
{
    reveal_strlit("account_value");
    reveal_strlit("account_cash");
    reveal_strlit("instrument_quote");
    reveal_strlit("fx_quote");
    assert("account_value"@.len() == 13 && "account_cash"@.len() == 12);
    assert("instrument_quote"@.len() == 16 && "fx_quote"@.len() == 8);
}

/// The row a policy write stores: the existing policy, or a new one with
/// the request's kind and target created now, carrying the request's
/// interval and updated now. A write may not change a policy's kind or
/// target.
pub fn policy_row(
    existing: Option<FreshnessPolicyRecord>,
    kind: FreshnessPolicyKind,
    target: &PolicyTarget,
    interval: Option<i64>,
    new_id: String,
    household_id: String,
    now: String,
) -> (row: Result<FreshnessPolicyRecord, AppError>)
    ensures
        match existing {
            Some(old) => match row {
                Ok(r) => record_key_spec(old) == Some((kind, target@)) && r.id == old.id && r.household_id
                    == old.household_id && r.kind == old.kind && policy_columns(r) == policy_columns(old)
                    && r.archived_at == old.archived_at && r.created_at == old.created_at
                    && r.review_interval_days == interval && r.updated_at == now,
                Err(e) => match record_key_spec(old) {
                    None => true,
                    Some(key) => key != (kind, target@) && e is Conflict,
                },
            },
            None => match row {
                Ok(r) => r.id == new_id && r.household_id == household_id && r.kind@ == policy_kind_name(kind)
                    && policy_columns(r) == target@ && r.review_interval_days == interval && r.archived_at is None
                    && r.created_at == now && r.updated_at == now,
                Err(_) => normalize_spec(kind, target@) != Some(target@),
            },
        },
{
    let mut row = match existing {
        Some(old) => old,
        None => FreshnessPolicyRecord {
            id: new_id,
            household_id,
            kind: String::from_str(kind.as_str()),
            target_account_id: clone_opt(&target.account_id),
            target_instrument_id: clone_opt(&target.instrument_id),
            target_currency_a: clone_opt(&target.currency_a),
            target_currency_b: clone_opt(&target.currency_b),
            review_interval_days: interval,
            archived_at: None,
            created_at: now.clone(),
            updated_at: now.clone(),
        },
    };
    proof {
        lemma_kind_name_reads_back(kind);
    }
    let stored_target = record_target(&row)?;
    let same_kind = text_eq(row.kind.as_str(), kind.as_str());
    let same_target = crate::maintenance::TargetKey::new(kind, &stored_target).same(&crate::maintenance::TargetKey::new(kind, target));
    if !same_kind || !same_target {
        return Err(AppError::conflict("A freshness policy kind and target cannot be changed after creation."));
    }
    row.review_interval_days = interval;
    row.updated_at = now;
    Ok(row)
}

} // verus!
