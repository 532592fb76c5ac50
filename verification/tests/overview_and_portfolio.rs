use nestworth::accounts::{AccountRecordDto, AccountValuation, OwnershipShare, UnvaluedItemDto};
use nestworth::amount::DecimalValue;
use nestworth::error::AppError;
use nestworth::institutions::InstitutionRecordDto;
use nestworth::members::MemberRecordDto;
use nestworth::net_worth::{compute_overview, GroupRecordDto, OverviewDto};
use nestworth::portfolio::{portfolio_from_components, ComponentKind, PortfolioComponent};

fn dec(text: &str) -> DecimalValue {
    DecimalValue::parse(text).expect("decimal")
}

fn member(id: &str, name: &str, archived: bool) -> MemberRecordDto {
    MemberRecordDto {
        id: id.to_owned(),
        name: name.to_owned(),
        note: None,
        avatar_asset_id: None,
        sort_order: 0,
        created_at: "2026-01-01T00:00:00.000Z".to_owned(),
        updated_at: "2026-01-01T00:00:00.000Z".to_owned(),
        archived_at: if archived { Some("2026-01-02T00:00:00.000Z".to_owned()) } else { None },
    }
}

fn institution(id: &str, name: &str) -> InstitutionRecordDto {
    InstitutionRecordDto {
        id: id.to_owned(),
        name: name.to_owned(),
        institution_type: None,
        country_code: None,
        website: None,
        note: None,
        logo_asset_id: None,
        sort_order: 0,
        created_at: "2026-01-01T00:00:00.000Z".to_owned(),
        updated_at: "2026-01-01T00:00:00.000Z".to_owned(),
        archived_at: None,
    }
}

fn owner(member_id: &str, share_bps: i32) -> OwnershipShare {
    OwnershipShare { member_id: member_id.to_owned(), share_bps }
}

fn valuation(base: Option<&str>, complete: bool) -> AccountValuation {
    AccountValuation {
        base: base.map(dec),
        complete,
        freshness: "fresh".to_owned(),
        unvalued_items: Vec::new(),
    }
}

#[allow(clippy::too_many_arguments)]
fn account(
    id: &str,
    primary: &str,
    amount: &str,
    owners: Vec<OwnershipShare>,
    institution_id: Option<&str>,
    include_in_net_worth: bool,
) -> AccountRecordDto {
    AccountRecordDto {
        id: id.to_owned(),
        name: id.to_owned(),
        primary_category: primary.to_owned(),
        institution_id: institution_id.map(str::to_owned),
        group_id: None,
        include_in_net_worth,
        include_in_investment: primary == "investment",
        archived: false,
        owners,
        valuation: valuation(Some(amount), true),
    }
}

fn overview(accounts: &[AccountRecordDto], members: &[MemberRecordDto]) -> OverviewDto {
    compute_overview("CNY", &accounts.to_vec(), &members.to_vec(), &Vec::new(), &Vec::new()).expect("overview")
}

fn holding(account_id: &str, id: &str, value: Option<&str>, complete: bool, currency: &str, kind: &str) -> PortfolioComponent {
    PortfolioComponent {
        account_id: account_id.to_owned(),
        id: id.to_owned(),
        name: id.to_owned(),
        complete,
        base_value: value.map(dec),
        kind: ComponentKind::Holding {
            native_currency: Some(currency.to_owned()),
            country_code: None,
            instrument_type: kind.to_owned(),
            missing_reason: None,
        },
    }
}

#[test]
fn empty_household_has_zero_totals_and_no_accounts() {
    let overview = overview(&[], &[member("m1", "Walt", false), member("m2", "Spouse", false)]);
    assert_eq!(overview.account_count, 0);
    assert_eq!(overview.assets.amount, "0");
    assert_eq!(overview.liabilities.amount, "0");
    assert_eq!(overview.net_worth.amount, "0");
    assert!(overview.by_category.is_empty());
}

#[test]
fn golden_household_matches_phase_7_totals() {
    let members = [member("walt", "Walt", false), member("spouse", "Spouse", false)];
    let accounts = [
        account("DBS Savings", "cash_equivalent", "100000", vec![owner("walt", 10_000)], Some("dbs"), true),
        account("WeChat", "cash_equivalent", "10000", vec![owner("spouse", 10_000)], None, true),
        account("Home", "property", "4000000", vec![owner("walt", 5_000), owner("spouse", 5_000)], None, true),
        account("Mortgage", "liability", "1000000", vec![owner("walt", 5_000), owner("spouse", 5_000)], None, true),
    ];
    let overview = compute_overview("CNY", &accounts.to_vec(), &members.to_vec(), &vec![institution("dbs", "DBS")], &Vec::new())
        .expect("overview");
    assert_eq!(overview.account_count, 4);
    assert_eq!(overview.assets.amount, "4110000");
    assert_eq!(overview.liabilities.amount, "1000000");
    assert_eq!(overview.net_worth.amount, "3110000");
    assert_eq!(overview.by_category[0].key, "cash_equivalent");
    assert_eq!(overview.by_category[0].amount.amount, "110000");
    assert_eq!(overview.by_category[1].key, "property");
    assert_eq!(overview.by_category[1].amount.amount, "4000000");
    assert_eq!(overview.by_member[0].name.as_deref(), Some("Walt"));
    assert_eq!(overview.by_member[0].amount.amount, "1600000");
    assert_eq!(overview.by_member[0].share_bps, 5109);
    assert_eq!(overview.by_member[1].name.as_deref(), Some("Spouse"));
    assert_eq!(overview.by_member[1].amount.amount, "1510000");
    assert_eq!(overview.by_member[1].share_bps, 4891);
    assert_eq!(overview.by_member.iter().map(|row| row.share_bps).sum::<i32>(), 10_000);
}

#[test]
fn member_share_uses_assets_not_net_worth() {
    let members = [member("walt", "Walt", false), member("spouse", "Spouse", false)];
    let accounts = [
        account("Cash", "cash_equivalent", "100", vec![owner("walt", 10_000)], None, true),
        account("Debt", "liability", "90", vec![owner("spouse", 10_000)], None, true),
    ];
    let overview = overview(&accounts, &members);
    assert_eq!(overview.assets.amount, "100");
    assert_eq!(overview.liabilities.amount, "90");
    assert_eq!(overview.net_worth.amount, "10");
    assert_eq!(overview.by_member[0].name.as_deref(), Some("Walt"));
    assert_eq!(overview.by_member[0].amount.amount, "100");
    assert_eq!(overview.by_member[0].share_bps, 10_000);
    assert_eq!(overview.by_member[1].name.as_deref(), Some("Spouse"));
    assert_eq!(overview.by_member[1].amount.amount, "-90");
    assert_eq!(overview.by_member[1].share_bps, 0);
    assert!(overview.by_member.iter().all(|row| row.share_bps <= 10_000));
}

#[test]
fn archived_and_excluded_accounts_do_not_change_totals() {
    let members = [member("walt", "Walt", false)];
    let included = account("DBS Savings", "cash_equivalent", "100000", vec![owner("walt", 10_000)], None, true);
    let hidden = account("Hidden", "cash_equivalent", "50000", vec![owner("walt", 10_000)], None, false);
    let before = overview(&[included, hidden.clone()], &members);
    assert_eq!(before.account_count, 2);
    assert_eq!(before.net_worth.amount, "100000");
    let after = overview(&[hidden], &members);
    assert_eq!(after.account_count, 1);
    assert_eq!(after.net_worth.amount, "0");
}

#[test]
fn account_portfolio_and_overview_round_after_aggregate() {
    let members = [member("walt", "Walt", false)];
    let mut precision = account("Precision Holdings", "investment", "0.0001", vec![owner("walt", 10_000)], None, true);
    precision.valuation = valuation(Some("0.0001"), true);
    let overview = overview(&[precision.clone()], &members);
    assert_eq!(overview.assets.amount, "0.0001");
    assert_eq!(overview.net_worth.amount, "0.0001");
    let components = vec![
        holding("Precision Holdings", "first", Some("0.00005"), true, "CNY", "other"),
        holding("Precision Holdings", "second", Some("0.00005"), true, "CNY", "other"),
    ];
    let portfolio = portfolio_from_components("CNY", &vec![precision], &components).expect("portfolio");
    assert_eq!(portfolio.total.amount, "0.0001");
    assert!(portfolio.is_complete);
}

#[test]
fn institution_rows_list_named_institutions_then_unassigned() {
    let members = [member("walt", "Walt", false)];
    let accounts = [
        account("Savings", "cash_equivalent", "300", vec![owner("walt", 10_000)], Some("dbs"), true),
        account("Card", "liability", "100", vec![owner("walt", 10_000)], Some("dbs"), true),
        account("Wallet", "cash_equivalent", "100", vec![owner("walt", 10_000)], None, true),
    ];
    let overview = compute_overview(
        "CNY",
        &accounts.to_vec(),
        &members.to_vec(),
        &vec![institution("dbs", "DBS"), institution("ocbc", "OCBC")],
        &vec![GroupRecordDto { id: "g".to_owned(), name: "Family".to_owned() }],
    )
    .expect("overview");
    assert_eq!(overview.by_institution.len(), 2);
    assert_eq!(overview.by_institution[0].key, "dbs");
    assert_eq!(overview.by_institution[0].name.as_deref(), Some("DBS"));
    assert_eq!(overview.by_institution[0].amount.amount, "200");
    assert_eq!(overview.by_institution[0].share_bps, 7500);
    assert_eq!(overview.by_institution[1].key, "unassigned");
    assert_eq!(overview.by_institution[1].amount.amount, "100");
    assert_eq!(overview.by_institution[1].share_bps, 2500);
    assert_eq!(overview.by_group.len(), 1);
    assert_eq!(overview.by_group[0].key, "unassigned");
    assert_eq!(overview.by_group[0].amount.amount, "300");
    assert_eq!(overview.by_category[0].share_bps, 10_000);
}

#[test]
fn archived_members_appear_only_as_owners() {
    let members = [member("walt", "Walt", false), member("old", "Old", true), member("gone", "Gone", true)];
    let accounts = [account("Cash", "cash_equivalent", "80", vec![owner("walt", 7_500), owner("old", 2_500)], None, true)];
    let overview = overview(&accounts, &members);
    let names: Vec<_> = overview.by_member.iter().map(|row| row.name.clone().unwrap()).collect();
    assert_eq!(names, vec!["Walt".to_owned(), "Old".to_owned()]);
    assert_eq!(overview.by_member[0].amount.amount, "60");
    assert_eq!(overview.by_member[1].amount.amount, "20");
    assert_eq!(overview.by_member[0].share_bps, 7500);
}

#[test]
fn incomplete_accounts_report_their_unvalued_items() {
    let members = [member("walt", "Walt", false)];
    let mut broker = account("Broker", "investment", "0", vec![owner("walt", 10_000)], None, true);
    broker.valuation = AccountValuation {
        base: None,
        complete: false,
        freshness: "missing".to_owned(),
        unvalued_items: vec![UnvaluedItemDto {
            kind: "holding".to_owned(),
            id: "h1".to_owned(),
            name: "QQQ".to_owned(),
            reason: "quote".to_owned(),
        }],
    };
    let overview = overview(&[broker], &members);
    assert!(!overview.is_complete);
    assert_eq!(overview.unvalued_items.len(), 1);
    assert_eq!(overview.unvalued_items[0].id, "h1");
    assert_eq!(overview.assets.amount, "0");
}

#[test]
fn overview_rejects_bad_currency_and_unknown_categories() {
    let members = [member("walt", "Walt", false)];
    let error = compute_overview("cny", &Vec::new(), &members.to_vec(), &Vec::new(), &Vec::new()).expect_err("currency");
    assert!(matches!(error, AppError::Validation { ref field, .. } if field == "currency"));
    let odd = account("Odd", "crypto", "1", vec![owner("walt", 10_000)], None, true);
    let error = compute_overview("CNY", &vec![odd.clone()], &members.to_vec(), &Vec::new(), &Vec::new()).expect_err("category");
    assert!(matches!(error, AppError::InvalidCategory { .. }));
    let mut excluded = odd;
    excluded.include_in_net_worth = false;
    assert!(compute_overview("CNY", &vec![excluded], &members.to_vec(), &Vec::new(), &Vec::new()).is_ok());
}

#[test]
fn portfolio_counts_only_investment_accounts_and_splits_by_key() {
    let investment = account("Broker", "investment", "1000", vec![owner("walt", 10_000)], None, true);
    let mut archived = account("Old Broker", "investment", "5", vec![owner("walt", 10_000)], None, true);
    archived.archived = true;
    let mut debt = account("Margin", "liability", "5", vec![owner("walt", 10_000)], None, true);
    debt.include_in_investment = true;
    let components = vec![
        holding("Broker", "qqq", Some("700"), true, "USD", "etf"),
        holding("Broker", "es3", Some("200"), true, "SGD", "etf"),
        holding("Broker", "stale", None, false, "USD", "stock"),
        holding("Old Broker", "ignored", Some("5"), true, "USD", "etf"),
        holding("Margin", "ignored-too", Some("5"), true, "USD", "etf"),
        PortfolioComponent {
            account_id: "Broker".to_owned(),
            id: "cash".to_owned(),
            name: String::new(),
            complete: true,
            base_value: Some(dec("100")),
            kind: ComponentKind::Cash { currency: "CNY".to_owned(), native_amount: dec("100") },
        },
        PortfolioComponent {
            account_id: "Broker".to_owned(),
            id: "usd-cash".to_owned(),
            name: String::new(),
            complete: false,
            base_value: None,
            kind: ComponentKind::Cash { currency: "USD".to_owned(), native_amount: dec("3") },
        },
    ];
    let portfolio = portfolio_from_components("CNY", &vec![investment, archived, debt], &components).expect("portfolio");
    assert_eq!(portfolio.total.amount, "1000");
    assert!(!portfolio.is_complete);
    assert_eq!(portfolio.coverage_bps, 6000);
    assert_eq!(portfolio.accounts.len(), 1);
    assert_eq!(portfolio.accounts[0].account_id, "Broker");
    assert_eq!(portfolio.unvalued_items.len(), 2);
    assert_eq!(portfolio.unvalued_items[0].kind, "holding");
    assert_eq!(portfolio.unvalued_items[0].reason, "quote");
    assert_eq!(portfolio.unvalued_items[1].name, "USD cash");
    assert_eq!(portfolio.unvalued_items[1].reason, "fx_quote");
    let keys: Vec<_> = portfolio.by_currency.iter().map(|row| (row.key.clone(), row.share_bps)).collect();
    assert_eq!(keys, vec![("CNY".to_owned(), 1000), ("SGD".to_owned(), 2000), ("USD".to_owned(), 7000)]);
    assert_eq!(portfolio.by_country.len(), 1);
    assert_eq!(portfolio.by_country[0].key, "unknown");
    let types: Vec<_> = portfolio.by_instrument_type.iter().map(|row| row.key.clone()).collect();
    assert_eq!(types, vec!["cash".to_owned(), "etf".to_owned()]);
    assert_eq!(portfolio.cash.len(), 1);
    assert_eq!(portfolio.cash[0].amount, "100");
}

#[test]
fn portfolio_rejects_a_cash_balance_without_a_currency_code() {
    let investment = account("Broker", "investment", "1", vec![], None, true);
    let components = vec![PortfolioComponent {
        account_id: "Broker".to_owned(),
        id: "cash".to_owned(),
        name: String::new(),
        complete: true,
        base_value: Some(dec("1")),
        kind: ComponentKind::Cash { currency: "usd".to_owned(), native_amount: dec("1") },
    }];
    let error = portfolio_from_components("CNY", &vec![investment], &components).expect_err("currency");
    assert!(matches!(error, AppError::Validation { ref field, .. } if field == "currency"));
    let empty = portfolio_from_components("CNY", &Vec::new(), &Vec::new()).expect("empty");
    assert_eq!(empty.coverage_bps, 10_000);
    assert_eq!(empty.total.amount, "0");
}
