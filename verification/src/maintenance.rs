//! Freshness policies, snoozes and the read-only Maintenance queue.
//!
//! Freshness is an application label: these functions read observations,
//! policies and snoozes and decide what the queue shows; they never change
//! the ledger or any valuation.

use vstd::prelude::*;

use crate::calendar::{civil, max_ordinal, ordinal_of, parse_ymd_spec, ymd_text, CalendarDate};
use crate::currency::{is_currency_code, CurrencyCode, FxPair};
use crate::error::{is_validation_of, AppError};
use crate::ids::{require_id, uuid_accepts};
use crate::pending::PendingActivityDto;
use crate::time::{rfc3339_millis, zone_local_ymd, HistoryTimezone, Timestamp};
use crate::text::{clone_opt, lemma_seq_less_asymmetric, opt_view, seq_less, text_eq, text_less};

verus! {

/// How many due pending Activities the queue shows at most.
pub const DUE_PENDING_LIMIT: i64 = 200;

#[derive(Debug, Clone)]
pub struct UpdateFreshnessPolicyInput {
    pub id: Option<String>,
    pub kind: String,
    pub target_account_id: Option<String>,
    pub target_instrument_id: Option<String>,
    pub target_currency_a: Option<String>,
    pub target_currency_b: Option<String>,
    pub review_interval_days: Option<i32>,
}

#[derive(Debug, Clone)]
pub struct SnoozeMaintenanceItemInput {
    pub policy_kind: String,
    pub target_account_id: Option<String>,
    pub target_instrument_id: Option<String>,
    pub target_currency_a: Option<String>,
    pub target_currency_b: Option<String>,
    pub snoozed_until: String,
}

#[derive(Debug, Clone)]
pub struct FreshnessPolicyDto {
    pub id: String,
    pub kind: String,
    pub target_account_id: Option<String>,
    pub target_instrument_id: Option<String>,
    pub target_currency_a: Option<String>,
    pub target_currency_b: Option<String>,
    pub review_interval_days: Option<i32>,
    pub is_default: bool,
    pub archived_at: Option<String>,
    pub created_at: String,
    pub updated_at: String,
}

#[derive(Debug, Clone)]
pub struct MaintenanceSnoozeDto {
    pub id: String,
    pub policy_kind: String,
    pub target_account_id: Option<String>,
    pub target_instrument_id: Option<String>,
    pub target_currency_a: Option<String>,
    pub target_currency_b: Option<String>,
    pub snoozed_until: String,
    pub created_at: String,
}

#[derive(Debug, Clone)]
pub struct MaintenancePageDto {
    pub local_date: String,
    pub items: Vec<MaintenanceItemDto>,
}

#[derive(Debug, Clone)]
pub struct MaintenanceItemDto {
    pub id: String,
    pub item_kind: String,
    pub policy_id: Option<String>,
    pub policy_kind: Option<String>,
    pub target_account_id: Option<String>,
    pub target_instrument_id: Option<String>,
    pub target_currency_a: Option<String>,
    pub target_currency_b: Option<String>,
    pub label: String,
    pub underlying_status: String,
    pub status: String,
    pub observed_on: Option<String>,
    pub due_on: Option<String>,
    pub snoozed_until: Option<String>,
    pub pending_activity: Option<PendingActivityDto>,
}

/// A stored freshness policy.
#[derive(Debug, Clone)]
pub struct FreshnessPolicyRecord {
    pub id: String,
    pub household_id: String,
    pub kind: String,
    pub target_account_id: Option<String>,
    pub target_instrument_id: Option<String>,
    pub target_currency_a: Option<String>,
    pub target_currency_b: Option<String>,
    pub review_interval_days: Option<i64>,
    pub archived_at: Option<String>,
    pub created_at: String,
    pub updated_at: String,
}

/// A stored snooze of one maintenance target.
#[derive(Debug, Clone)]
pub struct MaintenanceSnoozeRecord {
    pub id: String,
    pub household_id: String,
    pub policy_kind: String,
    pub target_account_id: Option<String>,
    pub target_instrument_id: Option<String>,
    pub target_currency_a: Option<String>,
    pub target_currency_b: Option<String>,
    pub snoozed_until: String,
    pub created_at: String,
}

/// What a freshness policy watches.
#[derive(Debug, Clone, Copy, PartialEq, Eq, Hash, Structural)]
pub enum FreshnessPolicyKind {
    AccountValue,
    AccountCash,
    InstrumentQuote,
    FxQuote,
}

/// The kind a stored name denotes.
pub open spec fn policy_kind_spec(name: Seq<char>) -> Option<FreshnessPolicyKind> {
    if name == "account_value"@ { Some(FreshnessPolicyKind::AccountValue) }
    else if name == "account_cash"@ { Some(FreshnessPolicyKind::AccountCash) }
    else if name == "instrument_quote"@ { Some(FreshnessPolicyKind::InstrumentQuote) }
    else if name == "fx_quote"@ { Some(FreshnessPolicyKind::FxQuote) }
    else { None }
}

/// The stored name of a kind.
pub open spec fn policy_kind_name(kind: FreshnessPolicyKind) -> Seq<char> {
    match kind {
        FreshnessPolicyKind::AccountValue => "account_value"@,
        FreshnessPolicyKind::AccountCash => "account_cash"@,
        FreshnessPolicyKind::InstrumentQuote => "instrument_quote"@,
        FreshnessPolicyKind::FxQuote => "fx_quote"@,
    }
}

impl FreshnessPolicyKind {
    /// Reads a stored kind name.
    pub fn parse(name: &str) -> (kind: Result<FreshnessPolicyKind, AppError>)
        ensures
            match kind {
                Ok(k) => policy_kind_spec(name@) == Some(k),
                Err(e) => policy_kind_spec(name@) is None && is_validation_of(e, "policyKind"@),
            },
    {
        if text_eq(name, "account_value") {
            Ok(FreshnessPolicyKind::AccountValue)
        } else if text_eq(name, "account_cash") {
            Ok(FreshnessPolicyKind::AccountCash)
        } else if text_eq(name, "instrument_quote") {
            Ok(FreshnessPolicyKind::InstrumentQuote)
        } else if text_eq(name, "fx_quote") {
            Ok(FreshnessPolicyKind::FxQuote)
        } else {
            Err(AppError::validation("policyKind", "The freshness policy kind is not supported."))
        }
    }

    /// The stored name.
    pub fn as_str(&self) -> (name: &'static str)
        ensures
            name@ == policy_kind_name(*self),
    {
        match self {
            FreshnessPolicyKind::AccountValue => "account_value",
            FreshnessPolicyKind::AccountCash => "account_cash",
            FreshnessPolicyKind::InstrumentQuote => "instrument_quote",
            FreshnessPolicyKind::FxQuote => "fx_quote",
        }
    }
}

/// The four optional target columns, as text.
pub type TargetView = (Option<Seq<char>>, Option<Seq<char>>, Option<Seq<char>>, Option<Seq<char>>);

/// The target of a policy or snooze: one Account, one Instrument, one
/// normalised currency pair, or nothing for a kind's default policy.
#[derive(Debug, Clone, PartialEq, Eq)]
pub struct PolicyTarget {
    pub account_id: Option<String>,
    pub instrument_id: Option<String>,
    pub currency_a: Option<String>,
    pub currency_b: Option<String>,
}

impl View for PolicyTarget {
    type V = TargetView;

    open spec fn view(&self) -> TargetView {
        (opt_view(self.account_id), opt_view(self.instrument_id), opt_view(self.currency_a), opt_view(self.currency_b))
    }
}

/// The target holds no column: it addresses a kind's default policy.
pub open spec fn is_default_target(t: TargetView) -> bool {
    t.0 is None && t.1 is None && t.2 is None && t.3 is None
}

impl PolicyTarget {
    pub fn is_default(&self) -> (r: bool)
        ensures
            r == is_default_target(self@),
    {
        self.account_id.is_none() && self.instrument_id.is_none() && self.currency_a.is_none()
            && self.currency_b.is_none()
    }
}

/// A kind with its target: how policies and snoozes are matched.
#[derive(Debug, Clone, PartialEq, Eq)]
pub struct TargetKey {
    pub kind: FreshnessPolicyKind,
    pub account_id: Option<String>,
    pub instrument_id: Option<String>,
    pub currency_a: Option<String>,
    pub currency_b: Option<String>,
}

impl View for TargetKey {
    type V = (FreshnessPolicyKind, TargetView);

    open spec fn view(&self) -> (FreshnessPolicyKind, TargetView) {
        (self.kind, (opt_view(self.account_id), opt_view(self.instrument_id), opt_view(self.currency_a), opt_view(self.currency_b)))
    }
}

impl TargetKey {
    pub fn new(kind: FreshnessPolicyKind, target: &PolicyTarget) -> (key: TargetKey)
        ensures
            key@ == (kind, target@),
    {
        TargetKey {
            kind,
            account_id: clone_opt(&target.account_id),
            instrument_id: clone_opt(&target.instrument_id),
            currency_a: clone_opt(&target.currency_a),
            currency_b: clone_opt(&target.currency_b),
        }
    }

    /// A copy of the key.
    pub fn duplicate(&self) -> (copy: TargetKey)
        ensures
            copy@ == self@,
    {
        TargetKey {
            kind: self.kind,
            account_id: clone_opt(&self.account_id),
            instrument_id: clone_opt(&self.instrument_id),
            currency_a: clone_opt(&self.currency_a),
            currency_b: clone_opt(&self.currency_b),
        }
    }

    /// Same kind and target.
    pub fn same(&self, other: &TargetKey) -> (r: bool)
        ensures
            r == (self@ == other@),
    {
        self.kind == other.kind && same_opt(&self.account_id, &other.account_id)
            && same_opt(&self.instrument_id, &other.instrument_id)
            && same_opt(&self.currency_a, &other.currency_a)
            && same_opt(&self.currency_b, &other.currency_b)
    }
}

fn same_opt(a: &Option<String>, b: &Option<String>) -> (r: bool)
    ensures
        r == (opt_view(*a) == opt_view(*b)),
{
    match (a, b) {
        (Some(x), Some(y)) => text_eq(x.as_str(), y.as_str()),
        (None, None) => true,
        _ => false,
    }
}

/// The target shape holds more than one kind of column, or half a pair.
pub open spec fn target_shape_invalid(t: TargetView) -> bool {
    let has_currency = t.2 is Some || t.3 is Some;
    let count = (if t.0 is Some { 1int } else { 0 }) + (if t.1 is Some { 1int } else { 0 })
        + (if has_currency { 1int } else { 0 });
    count > 1 || (has_currency && (t.2 is None || t.3 is None))
}

/// The normalised target a kind accepts for the given columns, or `None`
/// when it rejects them.
pub open spec fn normalize_spec(kind: FreshnessPolicyKind, t: TargetView) -> Option<TargetView> {
    if target_shape_invalid(t) {
        None
    } else if is_default_target(t) {
        Some(t)
    } else {
        match kind {
            FreshnessPolicyKind::AccountValue | FreshnessPolicyKind::AccountCash =>
                match t.0 { Some(a) => if uuid_accepts(a) { Some(t) } else { None }, None => None },
            FreshnessPolicyKind::InstrumentQuote =>
                match t.1 { Some(i) => if uuid_accepts(i) { Some(t) } else { None }, None => None },
            FreshnessPolicyKind::FxQuote => match (t.2, t.3) {
                (Some(a), Some(b)) =>
                    if t.0 is None && t.1 is None && is_currency_code(a) && is_currency_code(b) && a != b {
                        if seq_less(a, b) { Some(t) } else { Some((None, None, Some(b), Some(a))) }
                    } else {
                        None
                    },
                _ => None,
            },
        }
    }
}

/// The columns hold the one shape a kind watches: an Account for the
/// Account kinds, an Instrument for quotes, a pair and nothing else for FX.
pub open spec fn shape_suits(kind: FreshnessPolicyKind, t: TargetView) -> bool {
    match kind {
        FreshnessPolicyKind::AccountValue | FreshnessPolicyKind::AccountCash => t.0 is Some && t.1 is None && t.2 is None
            && t.3 is None,
        FreshnessPolicyKind::InstrumentQuote => t.1 is Some && t.0 is None && t.2 is None && t.3 is None,
        FreshnessPolicyKind::FxQuote => t.2 is Some && t.3 is Some && t.0 is None && t.1 is None,
    }
}

/// Checks the target columns of a policy or snooze for a kind and
/// normalises a currency pair to alphabetical order.
pub fn normalize_target(
    kind: FreshnessPolicyKind,
    account_id: Option<String>,
    instrument_id: Option<String>,
    currency_a: Option<String>,
    currency_b: Option<String>,
) -> (target: Result<PolicyTarget, AppError>)
    ensures
        ({
            let t = (opt_view(account_id), opt_view(instrument_id), opt_view(currency_a), opt_view(currency_b));
            &&& target matches Ok(p) ==> normalize_spec(kind, t) == Some(p@)
            &&& target is Err ==> normalize_spec(kind, t) is None && target->Err_0 is Validation
            &&& target_shape_invalid(t) ==> target is Err && is_validation_of(target->Err_0, "target"@)
            &&& (!is_default_target(t) && !shape_suits(kind, t)) ==> target is Err && is_validation_of(
                target->Err_0,
                "target"@,
            )
        }),
{
    let has_account = account_id.is_some();
    let has_instrument = instrument_id.is_some();
    let has_currency = currency_a.is_some() || currency_b.is_some();
    let target_count = (if has_account { 1usize } else { 0 }) + (if has_instrument { 1usize } else { 0 })
        + (if has_currency { 1usize } else { 0 });
    if target_count > 1 || (has_currency && (currency_a.is_none() || currency_b.is_none())) {
        return Err(AppError::validation(
            "target",
            "A freshness policy target must contain exactly one compatible target shape.",
        ));
    }
    if target_count == 0 {
        return Ok(PolicyTarget { account_id: None, instrument_id: None, currency_a: None, currency_b: None });
    }
    match kind {
        FreshnessPolicyKind::AccountValue | FreshnessPolicyKind::AccountCash => {
            match &account_id {
                Some(id) => require_id("accountId", id.as_str())?,
                None => return Err(AppError::validation("target", "This policy kind requires an Account target.")),
            }
            Ok(PolicyTarget { account_id, instrument_id: None, currency_a: None, currency_b: None })
        },
        FreshnessPolicyKind::InstrumentQuote => {
            match &instrument_id {
                Some(id) => require_id("instrumentId", id.as_str())?,
                None => return Err(AppError::validation(
                    "target",
                    "Instrument quote policies require an Instrument target.",
                )),
            }
            Ok(PolicyTarget { account_id: None, instrument_id, currency_a: None, currency_b: None })
        },
        FreshnessPolicyKind::FxQuote => {
            if has_account || has_instrument {
                return Err(AppError::validation("target", "FX quote policies require a normalized currency pair."));
            }
            let (left_text, right_text) = match (&currency_a, &currency_b) {
                (Some(a), Some(b)) => (a, b),
                _ => return Err(AppError::Internal),
            };
            let left = CurrencyCode::parse(left_text.as_str())?;
            let right = CurrencyCode::parse(right_text.as_str())?;
            let pair = FxPair::new(left, right)?;
            let first = pair.currency_a.to_text();
            let second = pair.currency_b.to_text();
            proof {
                lemma_seq_less_asymmetric(left_text@, right_text@);
            }
            Ok(PolicyTarget { account_id: None, instrument_id: None, currency_a: Some(first), currency_b: Some(second) })
        },
    }
}

/// A review interval between 1 and 3650 days, or none for a disabled policy.
pub fn parse_interval(interval: Option<i32>) -> (days: Result<Option<i64>, AppError>)
    ensures
        match interval {
            None => days == Ok::<Option<i64>, AppError>(None),
            Some(v) => if 1 <= v <= 3650 {
                days == Ok::<Option<i64>, AppError>(Some(v as i64))
            } else {
                days is Err && is_validation_of(days->Err_0, "reviewIntervalDays"@)
            },
        },
{
    match interval {
        None => Ok(None),
        Some(value) => {
            let value = value as i64;
            if 1 <= value && value <= 3650 {
                Ok(Some(value))
            } else {
                Err(AppError::validation(
                    "reviewIntervalDays",
                    "The review interval must be between 1 and 3650 days, or disabled.",
                ))
            }
        },
    }
}

/// Freshness of a target observed on a date, reviewed every `interval`
/// days: current before the due date, due on it, overdue after it.
pub open spec fn status_for(today: int, due: int) -> Seq<char> {
    if today < due { "current"@ } else if today == due { "due"@ } else { "overdue"@ }
}

/// The status of a target and its due date, or `missing` without an
/// observation.
pub fn freshness_status(today: CalendarDate, observed_on: Option<&str>, interval_days: i64) -> (status: Result<(&'static str, Option<String>), AppError>)
    ensures
        match observed_on {
            None => status matches Ok((s, d)) && s@ == "missing"@ && d is None,
            Some(text) => match parse_ymd_spec(text@) {
                None => status is Err && is_validation_of(status->Err_0, "date"@),
                Some(t) => {
                    let due = ordinal_of(t.0, t.1, t.2) + interval_days;
                    if 0 <= due <= max_ordinal() {
                        status matches Ok((s, Some(d))) && s@ == status_for(today.ordinal(), due)
                            && d@ == ymd_text(civil(due).0, civil(due).1, civil(due).2)
                    } else {
                        status matches Err(AppError::DatabaseUnavailable)
                    }
                },
            },
        },
{
    let observed_on = match observed_on {
        Some(text) => text,
        None => return Ok(("missing", None)),
    };
    let observed = CalendarDate::parse(observed_on)?;
    let due = match observed.checked_add_days(interval_days) {
        Some(due) => due,
        None => return Err(AppError::DatabaseUnavailable),
    };
    let status = if today.is_before(&due) {
        "current"
    } else if today.same_day(&due) {
        "due"
    } else {
        "overdue"
    };
    Ok((status, Some(due.to_ymd())))
}

/// Queue order of statuses: overdue, due, missing, snoozed, current.
pub open spec fn status_rank_spec(status: Seq<char>) -> u8 {
    if status == "overdue"@ { 0 }
    else if status == "due"@ { 1 }
    else if status == "missing"@ { 2 }
    else if status == "snoozed"@ { 3 }
    else if status == "current"@ { 4 }
    else { 5 }
}

pub fn status_rank(status: &str) -> (rank: u8)
    ensures
        rank == status_rank_spec(status@),
{
    if text_eq(status, "overdue") { 0 }
    else if text_eq(status, "due") { 1 }
    else if text_eq(status, "missing") { 2 }
    else if text_eq(status, "snoozed") { 3 }
    else if text_eq(status, "current") { 4 }
    else { 5 }
}

/// The target columns of a stored policy.
pub open spec fn policy_columns(row: FreshnessPolicyRecord) -> TargetView {
    (opt_view(row.target_account_id), opt_view(row.target_instrument_id), opt_view(row.target_currency_a), opt_view(row.target_currency_b))
}

/// The target columns of a stored snooze.
pub open spec fn snooze_columns(row: MaintenanceSnoozeRecord) -> TargetView {
    (opt_view(row.target_account_id), opt_view(row.target_instrument_id), opt_view(row.target_currency_a), opt_view(row.target_currency_b))
}

/// The kind and normalised target of a stored policy, when both are valid.
pub open spec fn record_key_spec(row: FreshnessPolicyRecord) -> Option<(FreshnessPolicyKind, TargetView)> {
    match policy_kind_spec(row.kind@) {
        Some(k) => match normalize_spec(k, policy_columns(row)) {
            Some(t) => Some((k, t)),
            None => None,
        },
        None => None,
    }
}

/// The kind and normalised target of a stored snooze, when both are valid.
pub open spec fn snooze_key_spec(row: MaintenanceSnoozeRecord) -> Option<(FreshnessPolicyKind, TargetView)> {
    match policy_kind_spec(row.policy_kind@) {
        Some(k) => match normalize_spec(k, snooze_columns(row)) {
            Some(t) => Some((k, t)),
            None => None,
        },
        None => None,
    }
}

/// The normalised target of a stored policy.
pub fn record_target(row: &FreshnessPolicyRecord) -> (target: Result<PolicyTarget, AppError>)
    ensures
        match target {
            Ok(t) => record_key_spec(*row) matches Some(k) && k.1 == t@,
            Err(_) => record_key_spec(*row) is None,
        },
{
    let kind = FreshnessPolicyKind::parse(row.kind.as_str())?;
    normalize_target(
        kind,
        clone_opt(&row.target_account_id),
        clone_opt(&row.target_instrument_id),
        clone_opt(&row.target_currency_a),
        clone_opt(&row.target_currency_b),
    )
}

/// The normalised target of a stored snooze.
pub fn record_target_from_snooze(row: &MaintenanceSnoozeRecord) -> (target: Result<PolicyTarget, AppError>)
    ensures
        match target {
            Ok(t) => snooze_key_spec(*row) matches Some(k) && k.1 == t@,
            Err(_) => snooze_key_spec(*row) is None,
        },
{
    let kind = FreshnessPolicyKind::parse(row.policy_kind.as_str())?;
    normalize_target(
        kind,
        clone_opt(&row.target_account_id),
        clone_opt(&row.target_instrument_id),
        clone_opt(&row.target_currency_a),
        clone_opt(&row.target_currency_b),
    )
}

/// The matching key of a stored policy.
pub fn record_key(row: &FreshnessPolicyRecord) -> (key: Result<TargetKey, AppError>)
    ensures
        match key {
            Ok(k) => record_key_spec(*row) == Some(k@),
            Err(_) => record_key_spec(*row) is None,
        },
{
    let kind = FreshnessPolicyKind::parse(row.kind.as_str())?;
    let target = record_target(row)?;
    Ok(TargetKey::new(kind, &target))
}

/// The interface form of a stored policy.
pub fn policy_dto(row: &FreshnessPolicyRecord) -> (dto: Result<FreshnessPolicyDto, AppError>)
    ensures
        match dto {
            Ok(d) => policy_kind_spec(row.kind@) is Some
                && d.id == row.id && d.kind == row.kind
                && d.target_account_id == row.target_account_id
                && d.target_instrument_id == row.target_instrument_id
                && d.target_currency_a == row.target_currency_a
                && d.target_currency_b == row.target_currency_b
                && (match row.review_interval_days {
                    Some(v) => i32::MIN <= v <= i32::MAX && d.review_interval_days == Some(v as i32),
                    None => d.review_interval_days is None,
                })
                && d.is_default == is_default_target(policy_columns(*row))
                && d.archived_at == row.archived_at && d.created_at == row.created_at
                && d.updated_at == row.updated_at,
            Err(e) => policy_kind_spec(row.kind@) is None
                || (row.review_interval_days matches Some(v) && (v < i32::MIN || v > i32::MAX) && e is DatabaseUnavailable),
        },
{
    FreshnessPolicyKind::parse(row.kind.as_str())?;
    let interval = match row.review_interval_days {
        Some(value) => {
            if value < -2147483648 || value > 2147483647 {
                return Err(AppError::DatabaseUnavailable);
            }
            Some(value as i32)
        },
        None => None,
    };
    Ok(FreshnessPolicyDto {
        id: row.id.clone(),
        kind: row.kind.clone(),
        target_account_id: clone_opt(&row.target_account_id),
        target_instrument_id: clone_opt(&row.target_instrument_id),
        target_currency_a: clone_opt(&row.target_currency_a),
        target_currency_b: clone_opt(&row.target_currency_b),
        review_interval_days: interval,
        is_default: row.target_account_id.is_none() && row.target_instrument_id.is_none()
            && row.target_currency_a.is_none() && row.target_currency_b.is_none(),
        archived_at: clone_opt(&row.archived_at),
        created_at: row.created_at.clone(),
        updated_at: row.updated_at.clone(),
    })
}

/// The interface form of a stored snooze.
pub fn snooze_dto(row: &MaintenanceSnoozeRecord) -> (dto: Result<MaintenanceSnoozeDto, AppError>)
    ensures
        match dto {
            Ok(d) => policy_kind_spec(row.policy_kind@) is Some
                && d.id == row.id && d.policy_kind == row.policy_kind
                && d.target_account_id == row.target_account_id
                && d.target_instrument_id == row.target_instrument_id
                && d.target_currency_a == row.target_currency_a
                && d.target_currency_b == row.target_currency_b
                && d.snoozed_until == row.snoozed_until && d.created_at == row.created_at,
            Err(e) => policy_kind_spec(row.policy_kind@) is None && is_validation_of(e, "policyKind"@),
        },
{
    FreshnessPolicyKind::parse(row.policy_kind.as_str())?;
    Ok(MaintenanceSnoozeDto {
        id: row.id.clone(),
        policy_kind: row.policy_kind.clone(),
        target_account_id: clone_opt(&row.target_account_id),
        target_instrument_id: clone_opt(&row.target_instrument_id),
        target_currency_a: clone_opt(&row.target_currency_a),
        target_currency_b: clone_opt(&row.target_currency_b),
        snoozed_until: row.snoozed_until.clone(),
        created_at: row.created_at.clone(),
    })
}

/// The policy at `i` carries the key.
pub open spec fn keyed_at(ps: Seq<FreshnessPolicyRecord>, i: int, key: (FreshnessPolicyKind, TargetView)) -> bool {
    record_key_spec(ps[i]) == Some(key)
}

/// `i` is the first position whose policy carries the key.
pub open spec fn first_keyed(ps: Seq<FreshnessPolicyRecord>, i: int, key: (FreshnessPolicyKind, TargetView)) -> bool {
    0 <= i < ps.len() && keyed_at(ps, i, key) && forall|j: int| 0 <= j < i ==> !#[trigger] keyed_at(ps, j, key)
}

/// No policy carries the key.
pub open spec fn none_keyed(ps: Seq<FreshnessPolicyRecord>, key: (FreshnessPolicyKind, TargetView)) -> bool {
    forall|j: int| 0 <= j < ps.len() ==> !#[trigger] keyed_at(ps, j, key)
}

/// The default key of a kind.
pub open spec fn default_key(kind: FreshnessPolicyKind) -> (FreshnessPolicyKind, TargetView) {
    (kind, (None, None, None, None))
}

fn find_policy<'a>(policies: &'a [FreshnessPolicyRecord], key: &TargetKey) -> (found: Option<&'a FreshnessPolicyRecord>)
    ensures
        match found {
            Some(p) => exists|i: int| first_keyed(policies@, i, key@) && policies@[i] == *p,
            None => none_keyed(policies@, key@),
        },
{
    let mut i: usize = 0;
    while i < policies.len()
        invariant
            0 <= i <= policies@.len(),
            forall|j: int| 0 <= j < i ==> !#[trigger] keyed_at(policies@, j, key@),
        decreases policies.len() - i,
    {
        let row = &policies[i];
        match record_key(row) {
            Ok(row_key) => {
                if row_key.same(key) {
                    assert(first_keyed(policies@, i as int, key@));
                    return Some(row);
                }
            },
            Err(_) => {},
        }
        i = i + 1;
    }
    None
}

/// The policy of a target: its own override when one exists, else its
/// kind's default.
pub fn resolve_policy<'a>(policies: &'a [FreshnessPolicyRecord], kind: FreshnessPolicyKind, target: &PolicyTarget) -> (found: Option<&'a FreshnessPolicyRecord>)
    ensures
        match found {
            Some(p) => (exists|i: int| first_keyed(policies@, i, (kind, target@)) && policies@[i] == *p)
                || (none_keyed(policies@, (kind, target@))
                    && exists|i: int| first_keyed(policies@, i, default_key(kind)) && policies@[i] == *p),
            None => none_keyed(policies@, (kind, target@)) && none_keyed(policies@, default_key(kind)),
        },
{
    let key = TargetKey::new(kind, target);
    match find_policy(policies, &key) {
        Some(found) => Some(found),
        None => {
            let default = TargetKey { kind, account_id: None, instrument_id: None, currency_a: None, currency_b: None };
            find_policy(policies, &default)
        },
    }
}

/// The policy that governs a target: the first one keyed to it, else the
/// first default policy of its kind; none when that policy has no interval.
pub open spec fn policy_for(ps: Seq<FreshnessPolicyRecord>, kind: FreshnessPolicyKind, target: TargetView) -> Option<FreshnessPolicyRecord> {
    if exists|i: int| first_keyed(ps, i, (kind, target)) {
        let i = choose|i: int| first_keyed(ps, i, (kind, target));
        if ps[i].review_interval_days is Some { Some(ps[i]) } else { None }
    } else if exists|i: int| first_keyed(ps, i, default_key(kind)) {
        let i = choose|i: int| first_keyed(ps, i, default_key(kind));
        if ps[i].review_interval_days is Some { Some(ps[i]) } else { None }
    } else {
        None
    }
}

/// Only one position is the first to carry a key.
proof fn lemma_first_keyed_unique(ps: Seq<FreshnessPolicyRecord>, i: int, j: int, key: (FreshnessPolicyKind, TargetView))
    requires
        first_keyed(ps, i, key),
        first_keyed(ps, j, key),
    ensures
        i == j,
{
    if i < j {
        assert(keyed_at(ps, i, key));
    } else if j < i {
        assert(keyed_at(ps, j, key));
    }
}

/// The resolved policy of a target when it is enabled (has an interval).
pub fn enabled_policy<'a>(policies: &'a [FreshnessPolicyRecord], kind: FreshnessPolicyKind, target: &PolicyTarget) -> (found: Option<&'a FreshnessPolicyRecord>)
    ensures
        match found {
            Some(p) => p.review_interval_days is Some
                && ((exists|i: int| first_keyed(policies@, i, (kind, target@)) && policies@[i] == *p)
                || (none_keyed(policies@, (kind, target@))
                    && exists|i: int| first_keyed(policies@, i, default_key(kind)) && policies@[i] == *p)),
            None => (none_keyed(policies@, (kind, target@)) && none_keyed(policies@, default_key(kind)))
                || (exists|i: int| first_keyed(policies@, i, (kind, target@)) && policies@[i].review_interval_days is None)
                || (none_keyed(policies@, (kind, target@)) && exists|i: int| first_keyed(policies@, i, default_key(kind))
                    && policies@[i].review_interval_days is None),
        },
        match found {
            Some(p) => policy_for(policies@, kind, target@) == Some(*p),
            None => policy_for(policies@, kind, target@) is None,
        },
{
    proof {
        let key = (kind, target@);
        if exists|i: int| first_keyed(policies@, i, key) {
            let c = choose|i: int| first_keyed(policies@, i, key);
            assert forall|i: int| first_keyed(policies@, i, key) implies i == c by {
                lemma_first_keyed_unique(policies@, i, c, key);
            }
            assert(!none_keyed(policies@, key)) by {
                assert(keyed_at(policies@, c, key));
            }
        }
        if exists|i: int| first_keyed(policies@, i, default_key(kind)) {
            let c = choose|i: int| first_keyed(policies@, i, default_key(kind));
            assert forall|i: int| first_keyed(policies@, i, default_key(kind)) implies i == c by {
                lemma_first_keyed_unique(policies@, i, c, default_key(kind));
            }
            assert(!none_keyed(policies@, default_key(kind))) by {
                assert(keyed_at(policies@, c, default_key(kind)));
            }
        }
    }
    match resolve_policy(policies, kind, target) {
        Some(policy) => {
            if policy.review_interval_days.is_some() {
                Some(policy)
            } else {
                None
            }
        },
        None => None,
    }
}

/// A stored snooze can be read: known kind, valid target and a date.
pub open spec fn snooze_row_valid(r: MaintenanceSnoozeRecord) -> bool {
    snooze_key_spec(r) is Some && parse_ymd_spec(r.snoozed_until@) is Some
}

/// The row sorts after the kept entry: `(created_at, id)` compared with the
/// kept `(created_at, snoozed_until)` pair, lexicographically.
pub open spec fn row_after(kept: (Seq<char>, Seq<char>), r: MaintenanceSnoozeRecord) -> bool {
    seq_less(kept.0, r.created_at@) || (kept.0 == r.created_at@ && seq_less(kept.1, r.id@))
}

/// For every snoozed target, the `(created_at, snoozed_until)` of the row
/// that wins when the rows are read in order.
pub open spec fn latest_snoozes(rows: Seq<MaintenanceSnoozeRecord>) -> Map<(FreshnessPolicyKind, TargetView), (Seq<char>, Seq<char>)>
    decreases rows.len(),
{
    if rows.len() == 0 {
        Map::empty()
    } else {
        let prev = latest_snoozes(rows.drop_last());
        let r = rows.last();
        match snooze_key_spec(r) {
            Some(k) => if !prev.contains_key(k) || row_after(prev[k], r) {
                prev.insert(k, (r.created_at@, r.snoozed_until@))
            } else {
                prev
            },
            None => prev,
        }
    }
}

/// The listed snoozes are exactly the table's entries whose end date sorts
/// after `day`, each target once.
pub open spec fn active_snoozes_spec(
    table: Map<(FreshnessPolicyKind, TargetView), (Seq<char>, Seq<char>)>,
    day: Seq<char>,
    v: Seq<(TargetKey, String)>,
) -> bool {
    &&& forall|a: int, b: int| 0 <= a < b < v.len() ==> (#[trigger] v[a]).0@ != (#[trigger] v[b]).0@
    &&& forall|j: int| 0 <= j < v.len() ==> table.contains_key((#[trigger] v[j]).0@)
        && table[v[j].0@].1 == v[j].1@ && seq_less(day, v[j].1@)
    &&& forall|k: (FreshnessPolicyKind, TargetView)| #[trigger] table.contains_key(k) && seq_less(day, table[k].1)
        ==> exists|j: int| 0 <= j < v.len() && (#[trigger] v[j]).0@ == k
}

fn tuple_after(kept_created: &String, kept_until: &String, row: &MaintenanceSnoozeRecord) -> (r: bool)
    ensures
        r == row_after((kept_created@, kept_until@), *row),
{
    text_less(kept_created.as_str(), row.created_at.as_str())
        || (text_eq(kept_created.as_str(), row.created_at.as_str()) && text_less(kept_until.as_str(), row.id.as_str()))
}

/// The snoozes in force on `today`: for each target the latest snooze,
/// kept while its end date is after today.
pub fn active_snoozes(rows: &[MaintenanceSnoozeRecord], today: CalendarDate) -> (active: Result<Vec<(TargetKey, String)>, AppError>)
    ensures
        match active {
            Err(_) => exists|i: int| 0 <= i < rows@.len() && !snooze_row_valid(#[trigger] rows@[i]),
            Ok(v) => (forall|i: int| 0 <= i < rows@.len() ==> snooze_row_valid(#[trigger] rows@[i]))
                && active_snoozes_spec(latest_snoozes(rows@),
                    ymd_text(civil(today.ordinal()).0, civil(today.ordinal()).1, civil(today.ordinal()).2), v@),
        },
{
    let mut entries: Vec<(TargetKey, String, String)> = Vec::new();
    let mut i: usize = 0;
    while i < rows.len()
        invariant
            0 <= i <= rows@.len(),
            forall|x: int| 0 <= x < i ==> snooze_row_valid(#[trigger] rows@[x]),
            forall|a: int, b: int| 0 <= a < b < entries@.len() ==> (#[trigger] entries@[a]).0@ != (#[trigger] entries@[b]).0@,
            forall|j: int| 0 <= j < entries@.len() ==> latest_snoozes(rows@.subrange(0, i as int)).contains_key((#[trigger] entries@[j]).0@)
                && latest_snoozes(rows@.subrange(0, i as int))[entries@[j].0@] == (entries@[j].1@, entries@[j].2@),
            forall|k: (FreshnessPolicyKind, TargetView)| #[trigger] latest_snoozes(rows@.subrange(0, i as int)).contains_key(k)
                ==> exists|j: int| 0 <= j < entries@.len() && (#[trigger] entries@[j]).0@ == k,
        decreases rows.len() - i,
    {
        let row = &rows[i];
        let kind = match FreshnessPolicyKind::parse(row.policy_kind.as_str()) {
            Ok(kind) => kind,
            Err(error) => {
                assert(!snooze_row_valid(rows@[i as int]));
                return Err(error);
            },
        };
        let target = match record_target_from_snooze(row) {
            Ok(target) => target,
            Err(error) => {
                assert(!snooze_row_valid(rows@[i as int]));
                return Err(error);
            },
        };
        match CalendarDate::parse(row.snoozed_until.as_str()) {
            Ok(_) => {},
            Err(error) => {
                assert(!snooze_row_valid(rows@[i as int]));
                return Err(error);
            },
        }
        let key = TargetKey::new(kind, &target);
        let ghost prefix = rows@.subrange(0, i as int);
        let ghost next = rows@.subrange(0, i as int + 1);
        proof {
            assert(next.drop_last() =~= prefix);
            assert(next.last() == rows@[i as int]);
        }
        let ghost prev = latest_snoozes(prefix);
        let mut j: usize = 0;
        let mut found = false;
        while j < entries.len() && !found
            invariant
                0 <= j <= entries@.len(),
                !found ==> forall|x: int| 0 <= x < j ==> (#[trigger] entries@[x]).0@ != key@,
                found ==> j < entries@.len() && entries@[j as int].0@ == key@,
            decreases entries.len() - j + (if found { 0int } else { 1int }),
        {
            if entries[j].0.same(&key) {
                found = true;
            } else {
                j = j + 1;
            }
        }
        let ghost old_entries = entries@;
        if found {
            if tuple_after(&entries[j].1, &entries[j].2, row) {
                entries.set(j, (key, row.created_at.clone(), row.snoozed_until.clone()));
            }
        } else {
            entries.push((key, row.created_at.clone(), row.snoozed_until.clone()));
        }
        proof {
            let table = latest_snoozes(next);
            assert(snooze_key_spec(rows@[i as int]) == Some(key@));
            if found {
                assert(prev.contains_key(key@));
                assert(prev[key@] == (old_entries[j as int].1@, old_entries[j as int].2@));
            } else {
                assert(!prev.contains_key(key@)) by {
                    if prev.contains_key(key@) {
                        let w = choose|w: int| 0 <= w < old_entries.len() && (#[trigger] old_entries[w]).0@ == key@;
                    }
                }
            }
            assert forall|jj: int| 0 <= jj < entries@.len() implies table.contains_key((#[trigger] entries@[jj]).0@)
                && table[entries@[jj].0@] == (entries@[jj].1@, entries@[jj].2@) by {
                if jj < old_entries.len() && old_entries[jj].0@ != key@ {
                    assert(entries@[jj] == old_entries[jj]);
                }
            }
            assert forall|k: (FreshnessPolicyKind, TargetView)| #[trigger] table.contains_key(k)
                implies exists|w: int| 0 <= w < entries@.len() && (#[trigger] entries@[w]).0@ == k by {
                if k == key@ {
                    if found {
                        assert(entries@[j as int].0@ == k);
                    } else {
                        assert(entries@[entries@.len() - 1].0@ == k);
                    }
                } else {
                    assert(prev.contains_key(k));
                    let w = choose|w: int| 0 <= w < old_entries.len() && (#[trigger] old_entries[w]).0@ == k;
                    assert(entries@[w].0@ == k);
                }
            }
            assert forall|a: int, b: int| 0 <= a < b < entries@.len() implies (#[trigger] entries@[a]).0@ != (#[trigger] entries@[b]).0@ by {
                if b == old_entries.len() {
                    assert(old_entries[a].0@ != key@);
                } else {
                    if a == j as int || b == j as int {
                        if found {
                            if a == j as int {
                                assert(old_entries[b].0@ != old_entries[a].0@);
                            } else {
                                assert(old_entries[a].0@ != old_entries[b].0@);
                            }
                        }
                    }
                    if !(found && (a == j as int || b == j as int)) {
                        assert(entries@[a] == old_entries[a]);
                        assert(entries@[b] == old_entries[b]);
                    }
                }
            }
        }
        i = i + 1;
    }
    proof {
        assert(rows@.subrange(0, rows@.len() as int) =~= rows@);
    }
    let day = today.to_ymd();
    let mut active: Vec<(TargetKey, String)> = Vec::new();
    let ghost mut origin: Seq<int> = Seq::empty();
    let mut e: usize = 0;
    while e < entries.len()
        invariant
            0 <= e <= entries@.len(),
            origin.len() == active@.len(),
            forall|x: int| 0 <= x < active@.len() ==> 0 <= #[trigger] origin[x] < e
                && entries@[origin[x]].0@ == active@[x].0@ && entries@[origin[x]].2@ == active@[x].1@,
            forall|a: int, b: int| 0 <= a < b < active@.len() ==> #[trigger] origin[a] < #[trigger] origin[b],
            forall|x: int| 0 <= x < active@.len() ==> seq_less(day@, (#[trigger] active@[x]).1@),
            forall|w: int| 0 <= w < e && seq_less(day@, (#[trigger] entries@[w]).2@) ==> exists|x: int| 0 <= x < active@.len()
                && #[trigger] origin[x] == w,
        decreases entries.len() - e,
    {
        if text_less(day.as_str(), entries[e].2.as_str()) {
            let ghost before = origin;
            active.push((entries[e].0.duplicate(), entries[e].2.clone()));
            proof {
                origin = origin.push(e as int);
                assert forall|w: int| 0 <= w < e + 1 && seq_less(day@, (#[trigger] entries@[w]).2@) implies exists|x: int| 0 <= x < active@.len()
                    && #[trigger] origin[x] == w by {
                    if w == e as int {
                        assert(origin[before.len() as int] == w);
                    } else {
                        let x = choose|x: int| 0 <= x < before.len() && #[trigger] before[x] == w;
                        assert(origin[x] == w);
                    }
                }
            }
        }
        e = e + 1;
    }
    proof {
        let table = latest_snoozes(rows@);
        assert forall|x: int| 0 <= x < active@.len() implies table.contains_key((#[trigger] active@[x]).0@)
            && table[active@[x].0@].1 == active@[x].1@ && seq_less(day@, active@[x].1@) by {
            assert(entries@[origin[x]].0@ == active@[x].0@);
        }
        assert forall|a: int, b: int| 0 <= a < b < active@.len() implies (#[trigger] active@[a]).0@ != (#[trigger] active@[b]).0@ by {
            assert(origin[a] < origin[b]);
            assert(entries@[origin[a]].0@ != entries@[origin[b]].0@);
        }
        assert forall|k: (FreshnessPolicyKind, TargetView)| #[trigger] table.contains_key(k) && seq_less(day@, table[k].1)
            implies exists|x: int| 0 <= x < active@.len() && (#[trigger] active@[x]).0@ == k by {
            let w = choose|w: int| 0 <= w < entries@.len() && (#[trigger] entries@[w]).0@ == k;
            assert(seq_less(day@, entries@[w].2@));
            let x = choose|x: int| 0 <= x < active@.len() && #[trigger] origin[x] == w;
            assert(active@[x].0@ == k);
        }
        assert(day@ == ymd_text(civil(today.ordinal()).0, civil(today.ordinal()).1, civil(today.ordinal()).2));
        assert(active_snoozes_spec(table, day@, active@));
    }
    Ok(active)
}

/// The text of the local calendar date of a stored instant.
pub open spec fn local_date_text(zone: Seq<char>, instant: Seq<char>) -> Option<Seq<char>> {
    match rfc3339_millis(instant) {
        Some(ms) => {
            let ymd = zone_local_ymd(zone, ms);
            let o = ordinal_of(ymd.0 as int, ymd.1 as int, ymd.2 as int);
            if crate::time::in_four_digit_years(ms) && crate::calendar::valid_ymd(ymd.0 as int, ymd.1 as int, ymd.2 as int) {
                Some(ymd_text(civil(o).0, civil(o).1, civil(o).2))
            } else {
                None
            }
        },
        None => None,
    }
}

/// The calendar date, in the history timezone, of a stored instant.
pub fn local_observation_date(timezone: &HistoryTimezone, timestamp: &str) -> (date: Result<String, AppError>)
    ensures
        match date {
            Ok(d) => local_date_text(timezone.zone_name(), timestamp@) == Some(d@),
            Err(e) => local_date_text(timezone.zone_name(), timestamp@) is None
                && (e is DatabaseUnavailable || e is Internal),
        },
{
    let instant = match Timestamp::parse(timestamp) {
        Ok(instant) => instant,
        Err(_) => return Err(AppError::DatabaseUnavailable),
    };
    let local = timezone.local_date(&instant)?;
    Ok(local.to_ymd())
}

/// A stored instant not later than `now`.
pub fn eligible_timestamp(timestamp: &str, now: &Timestamp) -> (eligible: Result<bool, AppError>)
    ensures
        match rfc3339_millis(timestamp@) {
            Some(ms) => eligible == Ok::<bool, AppError>(ms <= now.unix_millis),
            None => eligible matches Err(AppError::DatabaseUnavailable),
        },
{
    match Timestamp::parse(timestamp) {
        Ok(parsed) => Ok(parsed.not_after(now)),
        Err(_) => Err(AppError::DatabaseUnavailable),
    }
}

/// The snooze end date listed for a key, if any.
fn find_snooze(active: &[(TargetKey, String)], key: &TargetKey) -> (until: Option<String>)
    ensures
        match until {
            Some(u) => exists|j: int| 0 <= j < active@.len() && (#[trigger] active@[j]).0@ == key@ && active@[j].1@ == u@,
            None => forall|j: int| 0 <= j < active@.len() ==> (#[trigger] active@[j]).0@ != key@,
        },
{
    let mut j: usize = 0;
    while j < active.len()
        invariant
            0 <= j <= active@.len(),
            forall|x: int| 0 <= x < j ==> (#[trigger] active@[x]).0@ != key@,
        decreases active.len() - j,
    {
        if active[j].0.same(key) {
            return Some(active[j].1.clone());
        }
        j = j + 1;
    }
    None
}

/// The queue identifier of a freshness item.
pub open spec fn freshness_item_id(kind: FreshnessPolicyKind, t: TargetView, currency: Option<Seq<char>>) -> Seq<char> {
    let text = |o: Option<Seq<char>>| match o { Some(s) => s, None => Seq::<char>::empty() };
    match kind {
        FreshnessPolicyKind::AccountValue => "account_value:"@ + text(t.0),
        FreshnessPolicyKind::AccountCash => "account_cash:"@ + text(t.0) + ":"@ + text(currency),
        FreshnessPolicyKind::InstrumentQuote => "instrument_quote:"@ + text(t.1),
        FreshnessPolicyKind::FxQuote => "fx_quote:"@ + text(t.2) + "/"@ + text(t.3),
    }
}

fn opt_text(value: &Option<String>) -> (text: &str)
    ensures
        text@ == match opt_view(*value) { Some(s) => s, None => Seq::<char>::empty() },
{
    proof {
        reveal_strlit("");
    }
    match value {
        Some(text) => text.as_str(),
        None => "",
    }
}

/// The freshness item of a target can be made: its policy is enabled and
/// of a known kind and, when the target was observed, the instant reads as
/// a local date whose due date is a representable day.
pub open spec fn freshness_item_ok(policy: FreshnessPolicyRecord, zone: Seq<char>, observed_at: Option<Seq<char>>) -> bool {
    &&& policy.review_interval_days is Some
    &&& policy_kind_spec(policy.kind@) is Some
    &&& match observed_at {
        None => true,
        Some(at) => match local_date_text(zone, at) {
            Some(day) => match parse_ymd_spec(day) {
                Some(t) => 0 <= ordinal_of(t.0, t.1, t.2) + policy.review_interval_days->Some_0 <= max_ordinal(),
                None => false,
            },
            None => false,
        },
    }
}

/// The queue entry of a freshness target, by value: its id, kind, policy
/// and target, its label, its observation day and due day with the status
/// they give today, and its snooze.
pub open spec fn freshness_item(
    item: MaintenanceItemDto,
    today: CalendarDate,
    zone: Seq<char>,
    policy: FreshnessPolicyRecord,
    target: TargetView,
    label: Seq<char>,
    observed_at: Option<Seq<char>>,
    snoozes: Seq<(TargetKey, String)>,
    currency: Option<Seq<char>>,
) -> bool {
    let kind = policy_kind_spec(policy.kind@)->Some_0;
    &&& policy.review_interval_days is Some
    &&& policy_kind_spec(policy.kind@) is Some
    &&& item.id@ == freshness_item_id(kind, target, currency)
    &&& item.item_kind@ == "freshness"@
    &&& opt_view(item.policy_id) == Some(policy.id@)
    &&& opt_view(item.policy_kind) == Some(policy_kind_name(kind))
    &&& opt_view(item.target_account_id) == target.0 && opt_view(item.target_instrument_id) == target.1
    &&& opt_view(item.target_currency_a) == target.2 && opt_view(item.target_currency_b) == target.3
    &&& item.label@ == label
    &&& item.pending_activity is None
    &&& match observed_at {
        None => item.observed_on is None && item.due_on is None && item.underlying_status@ == "missing"@,
        Some(at) => local_date_text(zone, at) matches Some(day) && opt_view(item.observed_on) == Some(day)
            && parse_ymd_spec(day) is Some && ({
            let t = parse_ymd_spec(day)->Some_0;
            let due = ordinal_of(t.0, t.1, t.2) + policy.review_interval_days->Some_0;
            &&& 0 <= due <= max_ordinal()
            &&& item.underlying_status@ == status_for(today.ordinal(), due)
            &&& opt_view(item.due_on) == Some(ymd_text(civil(due).0, civil(due).1, civil(due).2))
        }),
    }
    &&& (exists|j: int| 0 <= j < snoozes.len() && (#[trigger] snoozes[j]).0@ == (kind, target)) ==> item.status@
        == "snoozed"@ && item.snoozed_until is Some && (exists|j: int| 0 <= j < snoozes.len()
        && (#[trigger] snoozes[j]).0@ == (kind, target) && snoozes[j].1@ == item.snoozed_until->Some_0@)
    &&& (forall|j: int| 0 <= j < snoozes.len() ==> (#[trigger] snoozes[j]).0@ != (kind, target)) ==> item.status@
        == item.underlying_status@ && item.snoozed_until is None
}

/// Appends the freshness item of one target to the queue.
#[allow(clippy::too_many_arguments)]
pub fn append_freshness_item(
    items: &mut Vec<MaintenanceItemDto>,
    today: CalendarDate,
    timezone: &HistoryTimezone,
    policy: &FreshnessPolicyRecord,
    target: &PolicyTarget,
    label: String,
    observed_at: Option<&str>,
    active_snoozes: &[(TargetKey, String)],
    component_currency: Option<String>,
) -> (appended: Result<(), AppError>)
    ensures
        appended is Ok ==> final(items)@.len() == old(items)@.len() + 1
            && final(items)@.subrange(0, old(items)@.len() as int) == old(items)@
            && ({
                let item = final(items)@[old(items)@.len() as int];
                let kind = policy_kind_spec(policy.kind@)->Some_0;
                &&& policy.review_interval_days is Some
                &&& policy_kind_spec(policy.kind@) is Some
                &&& item.id@ == freshness_item_id(kind, target@, opt_view(component_currency))
                &&& item.item_kind@ == "freshness"@
                &&& item.policy_id == Some(policy.id)
                &&& opt_view(item.policy_kind) == Some(policy_kind_name(kind))
                &&& item.target_account_id == target.account_id
                &&& item.target_instrument_id == target.instrument_id
                &&& item.target_currency_a == target.currency_a
                &&& item.target_currency_b == target.currency_b
                &&& item.label == label
                &&& item.pending_activity is None
                &&& (match observed_at {
                    None => item.observed_on is None && item.due_on is None && item.underlying_status@ == "missing"@,
                    Some(at) => local_date_text(timezone.zone_name(), at@) matches Some(day)
                        && opt_view(item.observed_on) == Some(day)
                        && parse_ymd_spec(day) is Some
                        && ({
                            let t = parse_ymd_spec(day)->Some_0;
                            let due = ordinal_of(t.0, t.1, t.2) + policy.review_interval_days->Some_0;
                            &&& 0 <= due <= max_ordinal()
                            &&& item.underlying_status@ == status_for(today.ordinal(), due)
                            &&& opt_view(item.due_on) == Some(ymd_text(civil(due).0, civil(due).1, civil(due).2))
                        }),
                })
                &&& (exists|j: int| 0 <= j < active_snoozes@.len() && (#[trigger] active_snoozes@[j]).0@ == (kind, target@))
                    ==> item.status@ == "snoozed"@ && item.snoozed_until is Some
                        && (exists|j: int| 0 <= j < active_snoozes@.len() && (#[trigger] active_snoozes@[j]).0@ == (kind, target@)
                            && active_snoozes@[j].1@ == item.snoozed_until->Some_0@)
                &&& (forall|j: int| 0 <= j < active_snoozes@.len() ==> (#[trigger] active_snoozes@[j]).0@ != (kind, target@))
                    ==> item.status@ == item.underlying_status@ && item.snoozed_until is None
            }),
        appended is Err ==> final(items)@ == old(items)@,
        appended is Ok ==> freshness_item(
            final(items)@[old(items)@.len() as int],
            today,
            timezone.zone_name(),
            *policy,
            target@,
            label@,
            match observed_at {
                Some(at) => Some(at@),
                None => None,
            },
            active_snoozes@,
            opt_view(component_currency),
        ),
        appended is Ok <==> freshness_item_ok(
            *policy,
            timezone.zone_name(),
            match observed_at {
                Some(at) => Some(at@),
                None => None,
            },
        ),
{
    let interval = match policy.review_interval_days {
        Some(interval) => interval,
        None => return Err(AppError::Internal),
    };
    let observed_on = match observed_at {
        Some(value) => Some(local_observation_date(timezone, value)?),
        None => None,
    };
    let observed_text: Option<&str> = match &observed_on {
        Some(text) => Some(text.as_str()),
        None => None,
    };
    let (underlying_status, due_on) = freshness_status(today, observed_text, interval)?;
    let kind = FreshnessPolicyKind::parse(policy.kind.as_str())?;
    let key = TargetKey::new(kind, target);
    let snoozed_until = find_snooze(active_snoozes, &key);
    let status = if snoozed_until.is_some() {
        String::from_str("snoozed")
    } else {
        String::from_str(underlying_status)
    };
    let id = match kind {
        FreshnessPolicyKind::AccountValue => String::from_str("account_value:").concat(opt_text(&target.account_id)),
        FreshnessPolicyKind::AccountCash => String::from_str("account_cash:")
            .concat(opt_text(&target.account_id))
            .concat(":")
            .concat(opt_text(&component_currency)),
        FreshnessPolicyKind::InstrumentQuote => String::from_str("instrument_quote:").concat(opt_text(&target.instrument_id)),
        FreshnessPolicyKind::FxQuote => String::from_str("fx_quote:")
            .concat(opt_text(&target.currency_a))
            .concat("/")
            .concat(opt_text(&target.currency_b)),
    };
    let ghost old_items = items@;
    items.push(MaintenanceItemDto {
        id,
        item_kind: String::from_str("freshness"),
        policy_id: Some(policy.id.clone()),
        policy_kind: Some(String::from_str(kind.as_str())),
        target_account_id: clone_opt(&target.account_id),
        target_instrument_id: clone_opt(&target.instrument_id),
        target_currency_a: clone_opt(&target.currency_a),
        target_currency_b: clone_opt(&target.currency_b),
        label,
        underlying_status: String::from_str(underlying_status),
        status,
        observed_on,
        due_on,
        snoozed_until,
        pending_activity: None,
    });
    proof {
        assert(items@.subrange(0, old_items.len() as int) =~= old_items);
    }
    Ok(())
}

/// A target's freshness never becomes less urgent as days pass: for the
/// same due date, a later day's status ranks at least as urgent (a lower
/// rank) as an earlier day's.
pub proof fn law_status_escalates(earlier: int, later: int, due: int)
    requires
        earlier <= later,
    ensures
        status_rank_spec(status_for(later, due)) <= status_rank_spec(status_for(earlier, due)),
{
    reveal_strlit("current");
    reveal_strlit("due");
    reveal_strlit("overdue");
    assert("current"@ != "due"@ && "current"@ != "overdue"@ && "due"@ != "overdue"@) by {
        assert("current"@[0] != "due"@[0]);
        assert("current"@[0] != "overdue"@[0]);
        assert("due"@[0] != "overdue"@[0]);
    }
}

} // verus!
