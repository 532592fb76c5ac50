use nestworth::error::AppError;
use nestworth::holdings::{holding_from_dto, list_sql, HoldingRecordDto};
use nestworth::institutions::{institution_from_dto, list_institutions_sql, InstitutionRecordDto};
use nestworth::instruments::{
    instrument_from_dto, new_instrument_from_create, CreateInstrumentInput, InstrumentRecordDto, InstrumentType,
    QuoteSourceKind,
};
use nestworth::members::{list_members_sql, member_from_dto, MemberRecordDto};
use nestworth::onboarding::{
    prepare_onboarding, remap_validation_field, CompleteOnboardingInput, OnboardingMemberInput,
};

const HOUSEHOLD: &str = "aaaaaaaa-aaaa-4aaa-8aaa-aaaaaaaaaaaa";
const ID: &str = "11111111-1111-4111-8111-111111111111";
const ACCOUNT: &str = "22222222-2222-4222-8222-222222222222";
const INSTRUMENT: &str = "33333333-3333-4333-8333-333333333333";

fn holding() -> HoldingRecordDto {
    HoldingRecordDto {
        id: ID.to_owned(),
        account_id: ACCOUNT.to_owned(),
        instrument_id: INSTRUMENT.to_owned(),
        instrument_name: "Invesco QQQ".to_owned(),
        instrument_symbol: Some("QQQ".to_owned()),
        quote_currency: "USD".to_owned(),
        quantity: "10.50".to_owned(),
        note: None,
        sort_order: 3,
        created_at: "2026-01-01T00:00:00Z".to_owned(),
        updated_at: "2026-01-02T00:00:00Z".to_owned(),
        archived_at: None,
    }
}

#[test]
fn stored_holdings_read_back_and_bad_fields_are_named() {
    let read = holding_from_dto(holding()).expect("holding");
    assert_eq!(read.quantity.canonical(), "10.5");
    assert_eq!(read.sort_order, 3);
    assert_eq!(read.archived_at, None);
    let mut bad = holding();
    bad.account_id = "x".to_owned();
    assert!(matches!(holding_from_dto(bad), Err(AppError::Validation { field, .. }) if field == "accountId"));
    let mut bad = holding();
    bad.archived_at = Some("yesterday".to_owned());
    assert!(matches!(holding_from_dto(bad), Err(AppError::Validation { field, .. }) if field == "timestamp"));
    assert!(list_sql(true).contains("WHERE h.account_id = ?\n"));
    assert!(list_sql(false).contains("h.archived_at IS NULL"));
}

#[test]
fn stored_institutions_and_members_need_a_valid_household() {
    let institution = InstitutionRecordDto {
        id: ID.to_owned(),
        name: "Bank".to_owned(),
        institution_type: Some("bank".to_owned()),
        country_code: Some("US".to_owned()),
        website: None,
        note: None,
        logo_asset_id: None,
        sort_order: 0,
        created_at: "2026-01-01T00:00:00Z".to_owned(),
        updated_at: "2026-01-01T00:00:00Z".to_owned(),
        archived_at: None,
    };
    assert_eq!(institution_from_dto(HOUSEHOLD, institution.clone()).expect("institution").name, "Bank");
    assert!(matches!(institution_from_dto("not-an-id", institution.clone()), Err(AppError::Internal)));
    let mut bad_logo = institution;
    bad_logo.logo_asset_id = Some("logo".to_owned());
    assert!(matches!(institution_from_dto(HOUSEHOLD, bad_logo), Err(AppError::Validation { field, .. }) if field == "logoAssetId"));
    let member = MemberRecordDto {
        id: ID.to_owned(),
        name: "Walt".to_owned(),
        note: None,
        avatar_asset_id: None,
        sort_order: 1,
        created_at: "2026-01-01T00:00:00Z".to_owned(),
        updated_at: "2026-01-01T00:00:00Z".to_owned(),
        archived_at: Some("2026-02-01T00:00:00Z".to_owned()),
    };
    let read = member_from_dto(HOUSEHOLD, member).expect("member");
    assert!(read.archived_at.is_some());
    assert!(list_members_sql(false).contains("archived_at IS NULL"));
    assert!(!list_institutions_sql(true).contains("archived_at IS NULL"));
}

fn qqq() -> CreateInstrumentInput {
    CreateInstrumentInput {
        name: "Invesco QQQ".to_owned(),
        symbol: Some("QQQ".to_owned()),
        instrument_type: "etf".to_owned(),
        quote_currency: "USD".to_owned(),
        market_code: None,
        country_code: None,
        isin: None,
        provider_key: None,
        provider_symbol: None,
        quote_preference: None,
        note: None,
    }
}

#[test]
fn new_instruments_default_to_manual_quotes_and_reject_unknown_types() {
    let created = new_instrument_from_create(HOUSEHOLD, &qqq(), 4).expect("instrument");
    assert_eq!(created.instrument_type, InstrumentType::Etf);
    assert_eq!(created.quote_preference, QuoteSourceKind::Manual);
    assert_eq!(created.sort_order, 4);
    let mut invalid = qqq();
    invalid.instrument_type = "option".to_owned();
    assert!(matches!(new_instrument_from_create(HOUSEHOLD, &invalid, 0), Err(AppError::Validation { field, .. }) if field == "instrumentType"));
    let stored = InstrumentRecordDto {
        id: ID.to_owned(),
        name: "Invesco QQQ".to_owned(),
        symbol: Some("QQQ".to_owned()),
        instrument_type: "etf".to_owned(),
        quote_currency: "usd".to_owned(),
        market_code: None,
        country_code: None,
        isin: None,
        provider_key: None,
        provider_symbol: None,
        quote_preference: "provider".to_owned(),
        note: None,
        logo_asset_id: None,
        sort_order: 0,
        created_at: "2026-01-01T00:00:00Z".to_owned(),
        updated_at: "2026-01-01T00:00:00Z".to_owned(),
        archived_at: None,
    };
    assert!(matches!(instrument_from_dto(HOUSEHOLD, stored), Err(AppError::Validation { field, .. }) if field == "currency"));
}

fn onboarding_input() -> CompleteOnboardingInput {
    CompleteOnboardingInput {
        household_name: "Wang Family".to_owned(),
        base_currency: "CNY".to_owned(),
        members: vec![
            OnboardingMemberInput { name: "Walt".to_owned() },
            OnboardingMemberInput { name: "Spouse".to_owned() },
        ],
    }
}

#[test]
fn onboarding_lays_out_members_in_order_under_one_household() {
    let prepared = prepare_onboarding(onboarding_input()).expect("prepared");
    assert_eq!(prepared.members.len(), 2);
    assert_eq!(prepared.members[1].name, "Spouse");
    assert_eq!(prepared.members[1].sort_order, 1);
    assert_eq!(prepared.members[0].household_id, prepared.household.id);
    assert_eq!(prepared.household.base_currency.to_text(), "CNY");
}

#[test]
fn onboarding_rejects_each_invalid_field_by_name() {
    let mut empty_members = onboarding_input();
    empty_members.members.clear();
    assert!(matches!(prepare_onboarding(empty_members), Err(AppError::Validation { field, .. }) if field == "members"));
    let mut bad_name = onboarding_input();
    bad_name.household_name = "   ".to_owned();
    assert!(matches!(prepare_onboarding(bad_name), Err(AppError::Validation { field, .. }) if field == "householdName"));
    let mut bad_currency = onboarding_input();
    bad_currency.base_currency = "cny".to_owned();
    assert!(matches!(prepare_onboarding(bad_currency), Err(AppError::Validation { field, .. }) if field == "baseCurrency"));
    let mut bad_member = onboarding_input();
    bad_member.members[1].name = String::new();
    assert!(matches!(prepare_onboarding(bad_member), Err(AppError::Validation { field, .. }) if field == "members.1.name"));
}

#[test]
fn only_validation_errors_on_the_named_field_are_renamed() {
    let renamed = remap_validation_field(AppError::validation("name", "bad"), "name", "householdName");
    assert!(matches!(renamed, AppError::Validation { field, message } if field == "householdName" && message == "bad"));
    let kept = remap_validation_field(AppError::validation("other", "bad"), "name", "householdName");
    assert!(matches!(kept, AppError::Validation { field, .. } if field == "other"));
    assert!(matches!(remap_validation_field(AppError::Internal, "name", "x"), AppError::Internal));
}

#[test]
fn the_last_active_member_cannot_be_archived() {
    let member = nestworth::members::MemberRecordDto {
        id: "m".to_owned(),
        name: "Ada".to_owned(),
        note: None,
        avatar_asset_id: None,
        sort_order: 0,
        created_at: "2026-01-01T00:00:00.000Z".to_owned(),
        updated_at: "2026-01-01T00:00:00.000Z".to_owned(),
        archived_at: None,
    };
    assert!(matches!(
        nestworth::members::classify_failed_member_archive(member.clone(), 1),
        Err(nestworth::error::AppError::LastActiveMember)
    ));
    assert!(matches!(
        nestworth::members::classify_failed_member_archive(member.clone(), 2),
        Err(nestworth::error::AppError::Internal)
    ));
    let mut archived = member;
    archived.archived_at = Some("2026-02-01T00:00:00.000Z".to_owned());
    let kept = nestworth::members::classify_failed_member_archive(archived, 1).expect("archived");
    assert_eq!(kept.archived_at.as_deref(), Some("2026-02-01T00:00:00.000Z"));
}
