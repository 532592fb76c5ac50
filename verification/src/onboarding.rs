//! First-run onboarding: the household and its first Members, checked
//! before anything is stored.

use vstd::prelude::*;

use crate::currency::{is_currency_code, CurrencyCode};
use crate::error::{is_validation_of, AppError};
use crate::ids::{new_id, uuid_accepts};
use crate::members::Member;
use crate::text::{is_blank, nat_text, text_eq, text_is_blank, usize_text};
use crate::time::Timestamp;

verus! {

#[derive(Debug, Clone)]
pub struct CompleteOnboardingInput {
    pub household_name: String,
    pub base_currency: String,
    pub members: Vec<OnboardingMemberInput>,
}

#[derive(Debug, Clone)]
pub struct OnboardingMemberInput {
    pub name: String,
}

/// A household about to be created.
#[derive(Debug, Clone)]
pub struct Household {
    pub id: String,
    pub name: String,
    pub base_currency: CurrencyCode,
    pub created_at: Timestamp,
}

/// A checked onboarding request, ready to be stored.
#[derive(Debug, Clone)]
pub struct PreparedOnboarding {
    pub household: Household,
    pub members: Vec<Member>,
    pub now: Timestamp,
}

/// Renames the field of a validation error reported on `from`; any other
/// error passes unchanged.
pub fn remap_validation_field(error: AppError, from: &str, to: &str) -> (remapped: AppError)
    ensures
        match error {
            AppError::Validation { field, message } => if field@ == from@ {
                remapped matches AppError::Validation { field: f, message: m } && f@ == to@ && m == message
            } else {
                remapped == error
            },
            _ => remapped == error,
        },
{
    match error {
        AppError::Validation { field, message } => {
            if text_eq(field.as_str(), from) {
                AppError::Validation { field: String::from_str(to), message }
            } else {
                AppError::Validation { field, message }
            }
        },
        other => other,
    }
}

/// The field named for the Member at a position of the request.
pub open spec fn member_field(index: int) -> Seq<char> {
    "members."@ + nat_text(index as nat) + ".name"@
}

/// The first Member of the request whose name is blank.
pub open spec fn first_blank_member(members: Seq<OnboardingMemberInput>) -> int {
    choose|i: int| 0 <= i < members.len() && is_blank(members[i].name@)
        && forall|j: int| 0 <= j < i ==> !is_blank(#[trigger] members[j].name@)
}

/// The field whose check fails first for an onboarding request, if any.
pub open spec fn onboarding_problem(input: CompleteOnboardingInput) -> Option<Seq<char>> {
    if input.members@.len() == 0 {
        Some("members"@)
    } else if !is_currency_code(input.base_currency@) {
        Some("baseCurrency"@)
    } else if is_blank(input.household_name@) {
        Some("householdName"@)
    } else if exists|i: int| 0 <= i < input.members@.len() && is_blank(#[trigger] input.members@[i].name@) {
        Some(member_field(first_blank_member(input.members@)))
    } else {
        None
    }
}

/// Checks an onboarding request and lays out the household and its Members,
/// in request order, under fresh identifiers and one creation instant.
pub fn prepare_onboarding(input: CompleteOnboardingInput) -> (prepared: Result<PreparedOnboarding, AppError>)
    requires
        input.members@.len() <= i64::MAX,
    ensures
        match prepared {
            Ok(p) => onboarding_problem(input) is None
                && uuid_accepts(p.household.id@)
                && p.household.name == input.household_name
                && p.household.base_currency.code() == input.base_currency@
                && p.household.created_at == p.now
                && p.members@.len() == input.members@.len()
                && forall|i: int| 0 <= i < p.members@.len() ==> {
                    let m = #[trigger] p.members@[i];
                    &&& uuid_accepts(m.id@)
                    &&& m.household_id == p.household.id
                    &&& m.name == input.members@[i].name
                    &&& m.avatar_asset_id is None && m.note is None
                    &&& m.sort_order == i
                    &&& m.created_at == p.now && m.updated_at == p.now
                    &&& m.archived_at is None
                },
            Err(e) => onboarding_problem(input) matches Some(f) && is_validation_of(e, f),
        },
{
    if input.members.len() == 0 {
        return Err(AppError::validation("members", "At least one member is required."));
    }
    let now = Timestamp::now();
    let base_currency = match CurrencyCode::parse(input.base_currency.as_str()) {
        Ok(code) => code,
        Err(error) => return Err(remap_validation_field(error, "currency", "baseCurrency")),
    };
    if text_is_blank(input.household_name.as_str()) {
        return Err(AppError::validation("householdName", "The household name is required."));
    }
    let household = Household {
        id: new_id(),
        name: input.household_name.clone(),
        base_currency,
        created_at: now,
    };
    let mut members: Vec<Member> = Vec::new();
    let mut index: usize = 0;
    while index < input.members.len()
        invariant
            index <= input.members@.len(),
            input.members@.len() <= i64::MAX,
            input.members@.len() > 0,
            is_currency_code(input.base_currency@),
            !is_blank(input.household_name@),
            household.name == input.household_name,
            household.base_currency.code() == input.base_currency@,
            household.created_at == now,
            uuid_accepts(household.id@),
            members@.len() == index,
            forall|j: int| 0 <= j < index ==> !is_blank(#[trigger] input.members@[j].name@),
            forall|i: int| 0 <= i < members@.len() ==> {
                let m = #[trigger] members@[i];
                &&& uuid_accepts(m.id@)
                &&& m.household_id == household.id
                &&& m.name == input.members@[i].name
                &&& m.avatar_asset_id is None && m.note is None
                &&& m.sort_order == i
                &&& m.created_at == now && m.updated_at == now
                &&& m.archived_at is None
            },
        decreases input.members@.len() - index,
    {
        let name = &input.members[index].name;
        if text_is_blank(name.as_str()) {
            let ghost first = first_blank_member(input.members@);
            assert(0 <= index < input.members@.len() && is_blank(input.members@[index as int].name@));
            assert(first == index as int);
            let position = usize_text(index);
            let field = String::from_str("members.").concat(position.as_str()).concat(".name");
            assert(field@ =~= member_field(index as int));
            return Err(AppError::Validation {
                field,
                message: String::from_str("The member name is required."),
            });
        }
        members.push(Member {
            id: new_id(),
            household_id: household.id.clone(),
            name: name.clone(),
            avatar_asset_id: None,
            note: None,
            sort_order: index as i64,
            created_at: now,
            updated_at: now,
            archived_at: None,
        });
        index = index + 1;
    }
    Ok(PreparedOnboarding { household, members, now })
}

} // verus!
