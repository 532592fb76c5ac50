//! Shared reference inputs and the ordering position of listed entities.

use vstd::prelude::*;

use crate::error::AppError;

verus! {

/// The entity lists that keep a manual sort order.
#[derive(Debug, Clone, Copy, PartialEq, Eq, Structural)]
pub enum SortTable {
    Members,
    Institutions,
    AccountGroups,
}

/// Whether archived entities are listed too.
#[derive(Debug, Clone)]
pub struct ListFilterInput {
    pub include_archived: bool,
}

/// A request naming one entity.
#[derive(Debug, Clone)]
pub struct IdInput {
    pub id: String,
}

/// The query that yields the next free sort position of a table: one past
/// the largest, or zero for an empty list.
pub fn next_sort_order_sql(table: SortTable) -> (sql: &'static str)
    ensures
        table is Members ==> sql@ == "SELECT COALESCE(MAX(sort_order), -1) + 1 FROM members WHERE household_id = ?"@,
        table is Institutions ==> sql@ == "SELECT COALESCE(MAX(sort_order), -1) + 1 FROM institutions WHERE household_id = ?"@,
        table is AccountGroups ==> sql@ == "SELECT COALESCE(MAX(sort_order), -1) + 1 FROM account_groups WHERE household_id = ?"@,
{
    match table {
        SortTable::Members => "SELECT COALESCE(MAX(sort_order), -1) + 1 FROM members WHERE household_id = ?",
        SortTable::Institutions => "SELECT COALESCE(MAX(sort_order), -1) + 1 FROM institutions WHERE household_id = ?",
        SortTable::AccountGroups => "SELECT COALESCE(MAX(sort_order), -1) + 1 FROM account_groups WHERE household_id = ?",
    }
}

/// A stored sort position as the interface carries it; an internal error
/// when it does not fit in 32 bits.
pub fn sort_order_i32(value: i64) -> (order: Result<i32, AppError>)
    ensures
        match order {
            Ok(v) => v == value,
            Err(e) => !(i32::MIN <= value <= i32::MAX) && e is Internal,
        },
{
    if i32::MIN as i64 <= value && value <= i32::MAX as i64 {
        Ok(value as i32)
    } else {
        Err(AppError::Internal)
    }
}

} // verus!
