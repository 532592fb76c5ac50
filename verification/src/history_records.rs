//! The rows the history store keeps: the origin, observations over time and
//! daily valuation snapshots.

use vstd::prelude::*;

verus! {

/// A stored flag: any non-zero integer is set.
pub fn flag(value: i64) -> (set: bool)
    ensures
        set == (value != 0),
{
    value != 0
}

/// The history origin of a household: the instant and zone from which its history is kept.
#[derive(Debug, Clone)]
pub struct HistoryOriginRecord {
    pub id: String,
    pub household_id: String,
    pub timezone: String,
    pub timezone_confirmed: bool,
    pub origin_at: String,
    pub origin_local_date: String,
    pub source: String,
    pub schema_version: i64,
    pub created_at: String,
}

/// An Account value captured at the history origin.
#[derive(Debug, Clone)]
pub struct OriginAccountValueRecord {
    pub origin_id: String,
    pub account_id: String,
    pub amount: String,
    pub currency: String,
    pub value_kind: String,
}

/// A holdings-cash value captured at the history origin.
#[derive(Debug, Clone)]
pub struct OriginCashValueRecord {
    pub origin_id: String,
    pub account_id: String,
    pub amount: String,
    pub currency: String,
}

/// A Holding quantity captured at the history origin.
#[derive(Debug, Clone)]
pub struct OriginHoldingRecord {
    pub origin_id: String,
    pub holding_id: String,
    pub account_id: String,
    pub instrument_id: String,
    pub quantity: String,
    pub active: bool,
}

/// An Account classification captured at the history origin.
#[derive(Debug, Clone)]
pub struct OriginAccountStateRecord {
    pub origin_id: String,
    pub account_id: String,
    pub primary_category: String,
    pub secondary_category: String,
    pub tracking_mode: String,
    pub include_in_net_worth: bool,
    pub include_in_investment: bool,
    pub include_in_liquid_assets: bool,
    pub archived_at: Option<String>,
    pub institution_id: Option<String>,
    pub group_id: Option<String>,
}

/// An ownership share captured at the history origin.
#[derive(Debug, Clone)]
pub struct OriginOwnershipRecord {
    pub origin_id: String,
    pub account_id: String,
    pub member_id: String,
    pub share_bps: i64,
}

/// The position after which an Activity listing resumes.
#[derive(Debug, Clone)]
pub struct ActivityListCursor {
    pub effective_at: String,
    pub created_at: String,
    pub id: String,
}

/// A Holding quantity observed from an instant on.
#[derive(Debug, Clone)]
pub struct HoldingQuantityRecord {
    pub id: String,
    pub holding_id: String,
    pub quantity: String,
    pub effective_at: String,
    pub created_at: String,
    pub activity_id: Option<String>,
}

/// An Account classification observed from an instant on.
#[derive(Debug, Clone)]
pub struct AccountStateObservationRecord {
    pub id: String,
    pub account_id: String,
    pub primary_category: String,
    pub secondary_category: String,
    pub tracking_mode: String,
    pub include_in_net_worth: bool,
    pub include_in_investment: bool,
    pub include_in_liquid_assets: bool,
    pub archived_at: Option<String>,
    pub institution_id: Option<String>,
    pub group_id: Option<String>,
    pub effective_at: String,
    pub created_at: String,
}

/// An ownership share belonging to an Account state observation.
#[derive(Debug, Clone)]
pub struct AccountStateOwnershipRecord {
    pub observation_id: String,
    pub member_id: String,
    pub share_bps: i64,
}

/// A Holding's active state observed from an instant on.
#[derive(Debug, Clone)]
pub struct HoldingStateObservationRecord {
    pub id: String,
    pub holding_id: String,
    pub active: bool,
    pub archived_at: Option<String>,
    pub effective_at: String,
    pub created_at: String,
}

/// An Instrument quote preference observed from an instant on.
#[derive(Debug, Clone)]
pub struct InstrumentPreferenceObservationRecord {
    pub id: String,
    pub instrument_id: String,
    pub quote_preference: String,
    pub effective_at: String,
    pub created_at: String,
}

/// An FX pair quote preference observed from an instant on.
#[derive(Debug, Clone)]
pub struct FxPreferenceObservationRecord {
    pub id: String,
    pub household_id: String,
    pub currency_a: String,
    pub currency_b: String,
    pub source_kind: String,
    pub effective_at: String,
    pub created_at: String,
}

/// Where the daily snapshot rebuild of a household stands.
#[derive(Debug, Clone)]
pub struct SnapshotStateRecord {
    pub household_id: String,
    pub dirty_from: Option<String>,
    pub last_completed_on: Option<String>,
    pub rebuild_status: String,
    pub rebuild_cursor_on: Option<String>,
    pub updated_at: String,
}

/// One revision of a household's daily valuation snapshot.
#[derive(Debug, Clone)]
pub struct DailyValuationSnapshotRecord {
    pub id: String,
    pub household_id: String,
    pub snapshot_on: String,
    pub cutoff_at: String,
    pub revision: i64,
    pub supersedes_snapshot_id: Option<String>,
    pub assets_amount: String,
    pub liabilities_amount: String,
    pub net_worth_amount: String,
    pub currency: String,
    pub is_complete: bool,
    pub valued_component_count: i64,
    pub total_component_count: i64,
    pub coverage_bps: i64,
    pub generation_reason: String,
    pub created_at: String,
}

/// One valued component of a daily valuation snapshot.
#[derive(Debug, Clone)]
pub struct DailyValuationSnapshotItemRecord {
    pub id: String,
    pub snapshot_id: String,
    pub account_id: String,
    pub holding_id: Option<String>,
    pub instrument_id: Option<String>,
    pub component_kind: String,
    pub native_amount: Option<String>,
    pub native_currency: Option<String>,
    pub base_amount: Option<String>,
    pub instrument_quote_id: Option<String>,
    pub fx_quote_id: Option<String>,
    pub account_state_observation_id: Option<String>,
    pub origin_id: Option<String>,
    pub activity_id: Option<String>,
    pub is_complete: bool,
    pub missing_reason: Option<String>,
    pub sort_order: i64,
}

} // verus!
