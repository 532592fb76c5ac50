//! Institutions: their interface records and the reading of stored ones.

use vstd::prelude::*;

use crate::error::{reports, AppError};
use crate::ids::{optional_id_ok, require_id, require_optional_id, uuid_accepts};
use crate::time::{optional_instant, rfc3339_millis, Timestamp};

verus! {

#[derive(Debug, Clone)]
pub struct CreateInstitutionInput {
    pub name: String,
    pub institution_type: Option<String>,
    pub country_code: Option<String>,
    pub website: Option<String>,
    pub note: Option<String>,
}

#[derive(Debug, Clone)]
pub struct UpdateInstitutionInput {
    pub id: String,
    pub name: String,
    pub institution_type: Option<String>,
    pub country_code: Option<String>,
    pub website: Option<String>,
    pub note: Option<String>,
}

#[derive(Debug, Clone)]
pub struct InstitutionRecordDto {
    pub id: String,
    pub name: String,
    pub institution_type: Option<String>,
    pub country_code: Option<String>,
    pub website: Option<String>,
    pub note: Option<String>,
    pub logo_asset_id: Option<String>,
    pub sort_order: i32,
    pub created_at: String,
    pub updated_at: String,
    pub archived_at: Option<String>,
}

/// A stored household id that is not an identifier is an internal fault.
pub fn require_household(household_id: &str) -> (checked: Result<(), AppError>)
    ensures
        checked is Ok <==> uuid_accepts(household_id@),
        checked matches Err(e) ==> e is Internal,
{
    match require_id("householdId", household_id) {
        Ok(()) => Ok(()),
        Err(_) => Err(AppError::Internal),
    }
}

/// The query listing the household's Institutions in display order, with archived ones only when asked for.
pub fn list_institutions_sql(include_archived: bool) -> (sql: &'static str)
    ensures
        include_archived ==> sql@ == "SELECT id, name, institution_type, country_code, website, note, logo_asset_id, sort_order, created_at, updated_at, archived_at
         FROM institutions
         WHERE household_id = ?
         ORDER BY sort_order ASC, name COLLATE NOCASE ASC, id ASC"@,
        !include_archived ==> sql@ == "SELECT id, name, institution_type, country_code, website, note, logo_asset_id, sort_order, created_at, updated_at, archived_at
         FROM institutions
         WHERE household_id = ? AND archived_at IS NULL
         ORDER BY sort_order ASC, name COLLATE NOCASE ASC, id ASC"@,
{
    if include_archived {
        "SELECT id, name, institution_type, country_code, website, note, logo_asset_id, sort_order, created_at, updated_at, archived_at
         FROM institutions
         WHERE household_id = ?
         ORDER BY sort_order ASC, name COLLATE NOCASE ASC, id ASC"
    } else {
        "SELECT id, name, institution_type, country_code, website, note, logo_asset_id, sort_order, created_at, updated_at, archived_at
         FROM institutions
         WHERE household_id = ? AND archived_at IS NULL
         ORDER BY sort_order ASC, name COLLATE NOCASE ASC, id ASC"
    }
}

/// An Institution read back from its stored record.
#[derive(Debug, Clone)]
pub struct Institution {
    pub id: String,
    pub household_id: String,
    pub name: String,
    pub institution_type: Option<String>,
    pub country_code: Option<String>,
    pub website: Option<String>,
    pub note: Option<String>,
    pub logo_asset_id: Option<String>,
    pub sort_order: i64,
    pub created_at: Timestamp,
    pub updated_at: Timestamp,
    pub archived_at: Option<Timestamp>,
}

/// The first check that fails when a stored Institution is read: the field
/// its validation error names, or `None` for an internal fault.
pub open spec fn institution_problem(household_id: Seq<char>, dto: InstitutionRecordDto) -> Option<Option<Seq<char>>> {
    if !uuid_accepts(dto.id@) {
        Some(Some("id"@))
    } else if !uuid_accepts(household_id) {
        Some(None)
    } else if !optional_id_ok(dto.logo_asset_id) {
        Some(Some("logoAssetId"@))
    } else if rfc3339_millis(dto.created_at@) is None || rfc3339_millis(dto.updated_at@) is None
        || optional_instant(dto.archived_at) is None {
        Some(Some("timestamp"@))
    } else {
        None
    }
}

/// Reads a stored Institution record of the household into checked values.
pub fn institution_from_dto(household_id: &str, dto: InstitutionRecordDto) -> (institution: Result<Institution, AppError>)
    ensures
        match institution {
            Ok(i) => institution_problem(household_id@, dto) is None
                && i.id == dto.id && i.household_id@ == household_id@ && i.name == dto.name
                && i.institution_type == dto.institution_type && i.country_code == dto.country_code
                && i.website == dto.website && i.note == dto.note && i.logo_asset_id == dto.logo_asset_id
                && i.sort_order == dto.sort_order as i64
                && Some(i.created_at.unix_millis) == rfc3339_millis(dto.created_at@)
                && Some(i.updated_at.unix_millis) == rfc3339_millis(dto.updated_at@)
                && optional_instant(dto.archived_at) == Some(i.archived_at),
            Err(e) => institution_problem(household_id@, dto) matches Some(p) && reports(e, p),
        },
{
    require_id("id", dto.id.as_str())?;
    require_household(household_id)?;
    require_optional_id("logoAssetId", &dto.logo_asset_id)?;
    let created_at = Timestamp::parse(dto.created_at.as_str())?;
    let updated_at = Timestamp::parse(dto.updated_at.as_str())?;
    let archived_at = Timestamp::parse_optional(&dto.archived_at)?;
    Ok(Institution {
        id: dto.id,
        household_id: String::from_str(household_id),
        name: dto.name,
        institution_type: dto.institution_type,
        country_code: dto.country_code,
        website: dto.website,
        note: dto.note,
        logo_asset_id: dto.logo_asset_id,
        sort_order: dto.sort_order as i64,
        created_at,
        updated_at,
        archived_at,
    })
}

} // verus!
