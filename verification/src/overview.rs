//! Overview and portfolio breakdown rows.

use vstd::prelude::*;

use crate::amount::MoneyDto;

verus! {

/// Basis points in a whole.
pub const TOTAL_BPS: i32 = 10_000;

/// One row of an overview breakdown.
#[derive(Debug, Clone)]
pub struct BreakdownRowDto {
    pub key: String,
    pub id: Option<String>,
    pub name: Option<String>,
    pub amount: MoneyDto,
    pub share_bps: i32,
}

/// One row of a portfolio allocation.
#[derive(Debug, Clone)]
pub struct AllocationRowDto {
    pub key: String,
    pub name: Option<String>,
    pub amount: MoneyDto,
    pub share_bps: i32,
}

/// One Account of the portfolio view.
#[derive(Debug, Clone)]
pub struct PortfolioAccountDto {
    pub account_id: String,
    pub name: String,
    pub base_value: Option<MoneyDto>,
    pub complete: bool,
    pub freshness: String,
}

/// A share held within zero and the whole.
pub fn clamp_share_bps(value: i32) -> (share: i32)
    ensures
        share == if value < 0 { 0 } else if value > TOTAL_BPS { TOTAL_BPS } else { value },
{
    if value < 0 {
        0
    } else if value > TOTAL_BPS {
        TOTAL_BPS
    } else {
        value
    }
}

} // verus!
