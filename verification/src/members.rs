//! Household Members: their interface records and the reading of stored ones.

use vstd::prelude::*;

use crate::error::{reports, AppError};
use crate::ids::{optional_id_ok, require_id, require_optional_id, uuid_accepts};
use crate::institutions::require_household;
use crate::time::{optional_instant, rfc3339_millis, Timestamp};

verus! {

#[derive(Debug, Clone)]
pub struct CreateMemberInput {
    pub name: String,
    pub note: Option<String>,
}

#[derive(Debug, Clone)]
pub struct UpdateMemberInput {
    pub id: String,
    pub name: String,
    pub note: Option<String>,
}

#[derive(Debug, Clone)]
pub struct MemberRecordDto {
    pub id: String,
    pub name: String,
    pub note: Option<String>,
    pub avatar_asset_id: Option<String>,
    pub sort_order: i32,
    pub created_at: String,
    pub updated_at: String,
    pub archived_at: Option<String>,
}

/// The query listing the household's Members in display order, with archived ones only when asked for.
pub fn list_members_sql(include_archived: bool) -> (sql: &'static str)
    ensures
        include_archived ==> sql@ == "SELECT id, name, note, avatar_asset_id, sort_order, created_at, updated_at, archived_at
         FROM members
         WHERE household_id = ?
         ORDER BY sort_order ASC, name COLLATE NOCASE ASC, id ASC"@,
        !include_archived ==> sql@ == "SELECT id, name, note, avatar_asset_id, sort_order, created_at, updated_at, archived_at
         FROM members
         WHERE household_id = ? AND archived_at IS NULL
         ORDER BY sort_order ASC, name COLLATE NOCASE ASC, id ASC"@,
{
    if include_archived {
        "SELECT id, name, note, avatar_asset_id, sort_order, created_at, updated_at, archived_at
         FROM members
         WHERE household_id = ?
         ORDER BY sort_order ASC, name COLLATE NOCASE ASC, id ASC"
    } else {
        "SELECT id, name, note, avatar_asset_id, sort_order, created_at, updated_at, archived_at
         FROM members
         WHERE household_id = ? AND archived_at IS NULL
         ORDER BY sort_order ASC, name COLLATE NOCASE ASC, id ASC"
    }
}

/// A Member read back from its stored record.
#[derive(Debug, Clone)]
pub struct Member {
    pub id: String,
    pub household_id: String,
    pub name: String,
    pub avatar_asset_id: Option<String>,
    pub note: Option<String>,
    pub sort_order: i64,
    pub created_at: Timestamp,
    pub updated_at: Timestamp,
    pub archived_at: Option<Timestamp>,
}

/// The first check that fails when a stored Member is read: the field its
/// validation error names, or `None` for an internal fault.
pub open spec fn member_problem(household_id: Seq<char>, dto: MemberRecordDto) -> Option<Option<Seq<char>>> {
    if !uuid_accepts(dto.id@) {
        Some(Some("id"@))
    } else if !uuid_accepts(household_id) {
        Some(None)
    } else if !optional_id_ok(dto.avatar_asset_id) {
        Some(Some("avatarAssetId"@))
    } else if rfc3339_millis(dto.created_at@) is None || rfc3339_millis(dto.updated_at@) is None
        || optional_instant(dto.archived_at) is None {
        Some(Some("timestamp"@))
    } else {
        None
    }
}

/// Reads a stored Member record of the household into checked values.
pub fn member_from_dto(household_id: &str, dto: MemberRecordDto) -> (member: Result<Member, AppError>)
    ensures
        match member {
            Ok(m) => member_problem(household_id@, dto) is None
                && m.id == dto.id && m.household_id@ == household_id@ && m.name == dto.name
                && m.avatar_asset_id == dto.avatar_asset_id && m.note == dto.note
                && m.sort_order == dto.sort_order as i64
                && Some(m.created_at.unix_millis) == rfc3339_millis(dto.created_at@)
                && Some(m.updated_at.unix_millis) == rfc3339_millis(dto.updated_at@)
                && optional_instant(dto.archived_at) == Some(m.archived_at),
            Err(e) => member_problem(household_id@, dto) matches Some(p) && reports(e, p),
        },
{
    require_id("id", dto.id.as_str())?;
    require_household(household_id)?;
    require_optional_id("avatarAssetId", &dto.avatar_asset_id)?;
    let created_at = Timestamp::parse(dto.created_at.as_str())?;
    let updated_at = Timestamp::parse(dto.updated_at.as_str())?;
    let archived_at = Timestamp::parse_optional(&dto.archived_at)?;
    Ok(Member {
        id: dto.id,
        household_id: String::from_str(household_id),
        name: dto.name,
        avatar_asset_id: dto.avatar_asset_id,
        note: dto.note,
        sort_order: dto.sort_order as i64,
        created_at,
        updated_at,
        archived_at,
    })
}

/// The outcome of an archive that changed no row, from the Member as read
/// again and the number of active Members: a Member already archived is
/// returned as it is; otherwise the household's last active Member cannot
/// be archived, and any other cause is an internal fault.
pub fn classify_failed_member_archive(current: MemberRecordDto, active_count: i64) -> (outcome: Result<
    MemberRecordDto,
    AppError,
>)
    ensures
        match outcome {
            Ok(m) => current.archived_at is Some && m == current,
            Err(e) => current.archived_at is None && (active_count <= 1 ==> e is LastActiveMember) && (active_count > 1
                ==> e is Internal),
        },
{
    if current.archived_at.is_some() {
        return Ok(current);
    }
    if active_count <= 1 {
        return Err(AppError::LastActiveMember);
    }
    Err(AppError::Internal)
}

} // verus!
