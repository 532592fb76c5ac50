//! The investment portfolio: which Accounts it counts, the total of their
//! valued holdings and cash, how much of it could be valued, and its split
//! by currency, country and instrument type.

use vstd::prelude::*;

use crate::accounts::{category_named, AccountRecordDto, PrimaryCategory, UnvaluedItemDto};
use crate::allocation::{allocated_rows, allocation_overflows, allocation_rows};
use crate::amount::{canonical_text, DecimalValue, MoneyDto};
use crate::currency::{is_currency_code, CurrencyCode};
use crate::error::{is_validation_of, AppError};
use crate::history::{coverage_bps_spec, snapshot_coverage_bps};
use crate::keyed_sums::{
    add_to_key, all_keys_fit, collect, lemma_collect_next, lemma_no_entries, lemma_overflow_persists,
    lemma_running_sum_push, lemma_values_for_push, running_sum, totals_by_key, values_for,
};
use crate::overview::{AllocationRowDto, PortfolioAccountDto};
use crate::text::text_eq;

verus! {

/// What a valued part of an Account is.
#[derive(Debug, Clone)]
pub enum ComponentKind {
    /// A holding of an instrument.
    Holding {
        native_currency: Option<String>,
        country_code: Option<String>,
        instrument_type: String,
        missing_reason: Option<String>,
    },
    /// A cash balance in a currency.
    Cash { currency: String, native_amount: DecimalValue },
}

/// A holding or cash balance as the valuation found it, with its value in
/// the base currency when one could be computed.
#[derive(Debug, Clone)]
pub struct PortfolioComponent {
    pub account_id: String,
    pub id: String,
    pub name: String,
    pub complete: bool,
    pub base_value: Option<DecimalValue>,
    pub kind: ComponentKind,
}

/// The portfolio as the interface shows it.
#[derive(Debug, Clone)]
pub struct PortfolioDto {
    pub base_currency: String,
    pub total: MoneyDto,
    pub is_complete: bool,
    pub coverage_bps: i32,
    pub unvalued_items: Vec<UnvaluedItemDto>,
    pub accounts: Vec<PortfolioAccountDto>,
    pub cash: Vec<MoneyDto>,
    pub by_currency: Vec<AllocationRowDto>,
    pub by_country: Vec<AllocationRowDto>,
    pub by_instrument_type: Vec<AllocationRowDto>,
}

/// The portfolio counts an Account marked for investment, not archived,
/// whose category is known and is not a liability.
pub open spec fn counts_in_portfolio(account: AccountRecordDto) -> bool {
    &&& account.include_in_investment
    &&& !account.archived
    &&& category_named(account.primary_category@) is Some
    &&& category_named(account.primary_category@) != Some(PrimaryCategory::Liability)
}

/// Some counted Account has the id.
pub open spec fn included_in(accounts: Seq<AccountRecordDto>, account_id: Seq<char>) -> bool {
    exists|a: int| 0 <= a < accounts.len() && counts_in_portfolio(accounts[a]) && (#[trigger] accounts[a]).id@ == account_id
}

/// The component is counted, fully valued, and has a base value.
pub open spec fn contributes(accounts: Seq<AccountRecordDto>, c: PortfolioComponent) -> bool {
    included_in(accounts, c.account_id@) && c.complete && c.base_value is Some
}

/// The base value of each contributing component, all under one key.
pub open spec fn total_entry(accounts: Seq<AccountRecordDto>) -> spec_fn(PortfolioComponent) -> Option<(Seq<char>, (i128, u32))> {
    |c: PortfolioComponent|
        if contributes(accounts, c) {
            Some((Seq::<char>::empty(), c.base_value->Some_0@))
        } else {
            None
        }
}

/// The base value of a contributing component under its native currency.
pub open spec fn currency_entry(accounts: Seq<AccountRecordDto>) -> spec_fn(PortfolioComponent) -> Option<(Seq<char>, (i128, u32))> {
    |c: PortfolioComponent|
        if contributes(accounts, c) {
            match c.kind {
                ComponentKind::Holding { native_currency: Some(code), .. } => Some((code@, c.base_value->Some_0@)),
                ComponentKind::Holding { .. } => None,
                ComponentKind::Cash { currency, .. } => Some((currency@, c.base_value->Some_0@)),
            }
        } else {
            None
        }
}

/// The base value of a contributing component under its country; cash and
/// holdings without one are "unknown".
pub open spec fn country_entry(accounts: Seq<AccountRecordDto>) -> spec_fn(PortfolioComponent) -> Option<(Seq<char>, (i128, u32))> {
    |c: PortfolioComponent|
        if contributes(accounts, c) {
            match c.kind {
                ComponentKind::Holding { country_code: Some(code), .. } => Some((code@, c.base_value->Some_0@)),
                _ => Some(("unknown"@, c.base_value->Some_0@)),
            }
        } else {
            None
        }
}

/// The base value of a contributing component under its instrument type;
/// cash is "cash".
pub open spec fn type_entry(accounts: Seq<AccountRecordDto>) -> spec_fn(PortfolioComponent) -> Option<(Seq<char>, (i128, u32))> {
    |c: PortfolioComponent|
        if contributes(accounts, c) {
            match c.kind {
                ComponentKind::Holding { instrument_type, .. } => Some((instrument_type@, c.base_value->Some_0@)),
                ComponentKind::Cash { .. } => Some(("cash"@, c.base_value->Some_0@)),
            }
        } else {
            None
        }
}

/// The native amount of each counted, fully valued cash balance under its currency.
pub open spec fn cash_entry(accounts: Seq<AccountRecordDto>) -> spec_fn(PortfolioComponent) -> Option<(Seq<char>, (i128, u32))> {
    |c: PortfolioComponent|
        if included_in(accounts, c.account_id@) && c.complete {
            match c.kind {
                ComponentKind::Cash { currency, native_amount } => Some((currency@, native_amount@)),
                _ => None,
            }
        } else {
            None
        }
}

/// Marks each counted component.
pub open spec fn counted(accounts: Seq<AccountRecordDto>) -> spec_fn(PortfolioComponent) -> Option<()> {
    |c: PortfolioComponent| if included_in(accounts, c.account_id@) { Some(()) } else { None }
}

/// Marks each counted, fully valued component.
pub open spec fn valued(accounts: Seq<AccountRecordDto>) -> spec_fn(PortfolioComponent) -> Option<()> {
    |c: PortfolioComponent| if included_in(accounts, c.account_id@) && c.complete { Some(()) } else { None }
}

/// (kind, id, name, reason) of an item that could not be valued.
pub open spec fn item_view(item: UnvaluedItemDto) -> (Seq<char>, Seq<char>, Seq<char>, Seq<char>) {
    (item.kind@, item.id@, item.name@, item.reason@)
}

/// The unvalued item reported for each counted component not fully valued:
/// a holding with its name and reason ("quote" when none is given), a cash
/// balance named after its currency for want of an exchange rate.
pub open spec fn unvalued_entry(accounts: Seq<AccountRecordDto>) -> spec_fn(PortfolioComponent) -> Option<(Seq<char>, Seq<char>, Seq<char>, Seq<char>)> {
    |c: PortfolioComponent|
        if included_in(accounts, c.account_id@) && !c.complete {
            match c.kind {
                ComponentKind::Holding { missing_reason: Some(reason), .. } => Some(("holding"@, c.id@, c.name@, reason@)),
                ComponentKind::Holding { .. } => Some(("holding"@, c.id@, c.name@, "quote"@)),
                ComponentKind::Cash { currency, .. } => Some(("cash"@, c.id@, currency@ + " cash"@, "fx_quote"@)),
            }
        } else {
            None
        }
}

/// A counted cash balance names a currency.
pub open spec fn cash_currency_ok(accounts: Seq<AccountRecordDto>, c: PortfolioComponent) -> bool {
    included_in(accounts, c.account_id@) ==> match c.kind {
        ComponentKind::Cash { currency, .. } => is_currency_code(currency@),
        _ => true,
    }
}

/// Every counted cash balance names a currency.
pub open spec fn cash_currencies_ok(accounts: Seq<AccountRecordDto>, comps: Seq<PortfolioComponent>) -> bool {
    forall|j: int| 0 <= j < comps.len() ==> cash_currency_ok(accounts, #[trigger] comps[j])
}

/// The portfolio total: the contributing base values summed in order.
pub open spec fn portfolio_total(accounts: Seq<AccountRecordDto>, comps: Seq<PortfolioComponent>) -> Option<(i128, u32)> {
    running_sum(values_for(collect(comps, total_entry(accounts)), Seq::empty()))
}

/// Every sum the portfolio takes stays within range.
pub open spec fn portfolio_sums_fit(accounts: Seq<AccountRecordDto>, comps: Seq<PortfolioComponent>) -> bool {
    &&& portfolio_total(accounts, comps) is Some
    &&& all_keys_fit(collect(comps, currency_entry(accounts)))
    &&& all_keys_fit(collect(comps, country_entry(accounts)))
    &&& all_keys_fit(collect(comps, type_entry(accounts)))
    &&& all_keys_fit(collect(comps, cash_entry(accounts)))
}

/// The shares of some breakdown cannot be computed in range.
pub open spec fn breakdown_overflows(accounts: Seq<AccountRecordDto>, comps: Seq<PortfolioComponent>) -> bool {
    let whole = portfolio_total(accounts, comps)->Some_0;
    ||| exists|t: Seq<(String, DecimalValue)>| totals_by_key(t, collect(comps, currency_entry(accounts))) && allocation_overflows(t, whole)
    ||| exists|t: Seq<(String, DecimalValue)>| totals_by_key(t, collect(comps, country_entry(accounts))) && allocation_overflows(t, whole)
    ||| exists|t: Seq<(String, DecimalValue)>| totals_by_key(t, collect(comps, type_entry(accounts))) && allocation_overflows(t, whole)
}

/// The row of a counted Account: id, name, base value with the base
/// currency, completeness and freshness.
pub open spec fn account_row(base: Seq<char>) -> spec_fn(AccountRecordDto) -> Option<(Seq<char>, Seq<char>, Option<(Seq<char>, Seq<char>)>, bool, Seq<char>)> {
    |a: AccountRecordDto|
        if counts_in_portfolio(a) {
            Some((
                a.id@,
                a.name@,
                match a.valuation.base {
                    Some(v) => Some((canonical_text(v@), base)),
                    None => None,
                },
                a.valuation.complete,
                a.valuation.freshness@,
            ))
        } else {
            None
        }
}

/// The view of a portfolio Account row.
pub open spec fn account_row_view(row: PortfolioAccountDto) -> (Seq<char>, Seq<char>, Option<(Seq<char>, Seq<char>)>, bool, Seq<char>) {
    (
        row.account_id@,
        row.name@,
        match row.base_value {
            Some(m) => Some((m.amount@, m.currency@)),
            None => None,
        },
        row.complete,
        row.freshness@,
    )
}

/// A breakdown whose shares overflow makes the portfolio's breakdowns overflow.
proof fn lemma_breakdown_overflows(
    accounts: Seq<AccountRecordDto>,
    comps: Seq<PortfolioComponent>,
    t: Seq<(String, DecimalValue)>,
    f: spec_fn(PortfolioComponent) -> Option<(Seq<char>, (i128, u32))>,
)
    requires
        f == currency_entry(accounts) || f == country_entry(accounts) || f == type_entry(accounts),
        totals_by_key(t, collect(comps, f)),
        allocation_overflows(t, portfolio_total(accounts, comps)->Some_0),
    ensures
        breakdown_overflows(accounts, comps),
{
}

/// Whether a counted Account has the id.
fn is_included(accounts: &Vec<AccountRecordDto>, account_id: &String) -> (found: bool)
    ensures
        found == included_in(accounts@, account_id@),
{
    let mut a: usize = 0;
    while a < accounts.len()
        invariant
            a <= accounts@.len(),
            forall|b: int| 0 <= b < a ==> !(counts_in_portfolio(accounts@[b]) && (#[trigger] accounts@[b]).id@ == account_id@),
        decreases accounts@.len() - a,
    {
        let account = &accounts[a];
        if account.include_in_investment && !account.archived && text_eq(account.id.as_str(), account_id.as_str()) {
            match PrimaryCategory::parse(account.primary_category.as_str()) {
                Ok(category) => {
                    if category != PrimaryCategory::Liability {
                        return true;
                    }
                },
                Err(_) => {},
            }
        }
        a = a + 1;
    }
    false
}

/// The rows of the counted Accounts, in order.
fn account_rows(accounts: &Vec<AccountRecordDto>, base: &str) -> (rows: Vec<PortfolioAccountDto>)
    ensures
        rows@.len() == collect(accounts@, account_row(base@)).len(),
        forall|k: int| 0 <= k < rows@.len() ==> account_row_view(#[trigger] rows@[k]) == collect(
            accounts@,
            account_row(base@),
        )[k],
{
    let mut rows: Vec<PortfolioAccountDto> = Vec::new();
    let mut a: usize = 0;
    while a < accounts.len()
        invariant
            a <= accounts@.len(),
            rows@.len() == collect(accounts@.subrange(0, a as int), account_row(base@)).len(),
            forall|k: int| 0 <= k < rows@.len() ==> account_row_view(#[trigger] rows@[k]) == collect(
                accounts@.subrange(0, a as int),
                account_row(base@),
            )[k],
        decreases accounts@.len() - a,
    {
        proof {
            lemma_collect_next(accounts@, a as int, account_row(base@));
        }
        let account = &accounts[a];
        let counts = account.include_in_investment && !account.archived && match PrimaryCategory::parse(
            account.primary_category.as_str(),
        ) {
            Ok(category) => category != PrimaryCategory::Liability,
            Err(_) => false,
        };
        if counts {
            let base_value = match &account.valuation.base {
                Some(v) => Some(MoneyDto { amount: v.canonical(), currency: String::from_str(base) }),
                None => None,
            };
            rows.push(
                PortfolioAccountDto {
                    account_id: account.id.clone(),
                    name: account.name.clone(),
                    base_value,
                    complete: account.valuation.complete,
                    freshness: account.valuation.freshness.clone(),
                },
            );
        }
        a = a + 1;
    }
    assert(accounts@.subrange(0, accounts@.len() as int) =~= accounts@);
    rows
}

/// The cash totals as amounts in their currencies.
fn cash_amounts(totals: &Vec<(String, DecimalValue)>) -> (cash: Vec<MoneyDto>)
    ensures
        cash@.len() == totals@.len(),
        forall|k: int| 0 <= k < cash@.len() ==> (#[trigger] cash@[k]).amount@ == canonical_text(totals@[k].1@)
            && cash@[k].currency@ == totals@[k].0@,
{
    let mut cash: Vec<MoneyDto> = Vec::new();
    let mut k: usize = 0;
    while k < totals.len()
        invariant
            k <= totals@.len(),
            cash@.len() == k,
            forall|x: int| 0 <= x < k ==> (#[trigger] cash@[x]).amount@ == canonical_text(totals@[x].1@)
                && cash@[x].currency@ == totals@[x].0@,
        decreases totals@.len() - k,
    {
        cash.push(MoneyDto { amount: totals[k].1.canonical(), currency: totals[k].0.clone() });
        k = k + 1;
    }
    cash
}

/// The portfolio of the counted Accounts from their valued components
/// (holdings first, then cash balances, as the valuation lists them).
///
/// A component counts when its Account does. The total adds the base value
/// of every counted, fully valued component; the breakdowns file the same
/// values by native currency, country and instrument type. Coverage is the
/// share of counted components that were fully valued. An invalid base
/// currency, or an invalid currency on a counted cash balance, is a
/// validation error on `currency`; a sum or share out of range is
/// `DecimalOverflow`.
pub fn portfolio_from_components(
    base_currency: &str,
    accounts: &Vec<AccountRecordDto>,
    components: &Vec<PortfolioComponent>,
) -> (portfolio: Result<PortfolioDto, AppError>)
    requires
        components@.len() <= i32::MAX,
    ensures
        portfolio is Ok ==> is_currency_code(base_currency@) && cash_currencies_ok(accounts@, components@)
            && portfolio_sums_fit(accounts@, components@),
        is_currency_code(base_currency@) && cash_currencies_ok(accounts@, components@) && portfolio_sums_fit(
            accounts@,
            components@,
        ) && !breakdown_overflows(accounts@, components@) ==> portfolio is Ok,
        !is_currency_code(base_currency@) ==> (portfolio matches Err(e) && is_validation_of(e, "currency"@)),
        portfolio matches Err(e) ==> (is_validation_of(e, "currency"@) && !(is_currency_code(base_currency@)
            && cash_currencies_ok(accounts@, components@))) || (e is DecimalOverflow && !(portfolio_sums_fit(
            accounts@,
            components@,
        ) && !breakdown_overflows(accounts@, components@))),
        portfolio matches Ok(p) ==> {
            let whole = portfolio_total(accounts@, components@)->Some_0;
            &&& p.base_currency@ == base_currency@
            &&& p.total.amount@ == canonical_text(whole)
            &&& p.total.currency@ == base_currency@
            &&& p.is_complete == (collect(components@, unvalued_entry(accounts@)).len() == 0)
            &&& p.coverage_bps as int == coverage_bps_spec(
                collect(components@, valued(accounts@)).len() as int,
                collect(components@, counted(accounts@)).len() as int,
            )
            &&& p.unvalued_items@.len() == collect(components@, unvalued_entry(accounts@)).len()
            &&& forall|k: int| 0 <= k < p.unvalued_items@.len() ==> item_view(#[trigger] p.unvalued_items@[k]) == collect(
                components@,
                unvalued_entry(accounts@),
            )[k]
            &&& p.accounts@.len() == collect(accounts@, account_row(base_currency@)).len()
            &&& forall|k: int| 0 <= k < p.accounts@.len() ==> account_row_view(#[trigger] p.accounts@[k]) == collect(
                accounts@,
                account_row(base_currency@),
            )[k]
            &&& exists|t: Seq<(String, DecimalValue)>| {
                &&& totals_by_key(t, collect(components@, cash_entry(accounts@)))
                &&& p.cash@.len() == t.len()
                &&& forall|k: int| 0 <= k < t.len() ==> (#[trigger] p.cash@[k]).amount@ == canonical_text(t[k].1@)
                    && p.cash@[k].currency@ == t[k].0@
            }
            &&& exists|t: Seq<(String, DecimalValue)>| totals_by_key(t, collect(components@, currency_entry(accounts@)))
                && allocated_rows(t, whole, base_currency@, p.by_currency@)
            &&& exists|t: Seq<(String, DecimalValue)>| totals_by_key(t, collect(components@, country_entry(accounts@)))
                && allocated_rows(t, whole, base_currency@, p.by_country@)
            &&& exists|t: Seq<(String, DecimalValue)>| totals_by_key(t, collect(components@, type_entry(accounts@)))
                && allocated_rows(t, whole, base_currency@, p.by_instrument_type@)
        },
{
    let _base = CurrencyCode::parse(base_currency)?;
    let ghost acc = accounts@;
    let ghost comps = components@;
    let mut total = DecimalValue::zero();
    let mut all_valued = true;
    let mut valued_count: usize = 0;
    let mut counted_count: usize = 0;
    let mut unvalued: Vec<UnvaluedItemDto> = Vec::new();
    let mut by_currency: Vec<(String, DecimalValue)> = Vec::new();
    let mut by_country: Vec<(String, DecimalValue)> = Vec::new();
    let mut by_type: Vec<(String, DecimalValue)> = Vec::new();
    let mut cash_totals: Vec<(String, DecimalValue)> = Vec::new();
    proof {
        assert(comps.subrange(0, 0) =~= Seq::<PortfolioComponent>::empty());
        assert forall|key: Seq<char>| #[trigger] running_sum(values_for(Seq::<(Seq<char>, (i128, u32))>::empty(), key)) is Some by {
            lemma_no_entries(key);
        }
    }
    let mut i: usize = 0;
    while i < components.len()
        invariant
            i <= comps.len(),
            acc == accounts@,
            comps == components@,
            comps.len() <= i32::MAX,
            is_currency_code(base_currency@),
            valued_count <= counted_count <= i,
            forall|j: int| 0 <= j < i ==> cash_currency_ok(acc, #[trigger] comps[j]),
            portfolio_total(acc, comps.subrange(0, i as int)) == Some(total@),
            totals_by_key(by_currency@, collect(comps.subrange(0, i as int), currency_entry(acc))),
            all_keys_fit(collect(comps.subrange(0, i as int), currency_entry(acc))),
            totals_by_key(by_country@, collect(comps.subrange(0, i as int), country_entry(acc))),
            all_keys_fit(collect(comps.subrange(0, i as int), country_entry(acc))),
            totals_by_key(by_type@, collect(comps.subrange(0, i as int), type_entry(acc))),
            all_keys_fit(collect(comps.subrange(0, i as int), type_entry(acc))),
            totals_by_key(cash_totals@, collect(comps.subrange(0, i as int), cash_entry(acc))),
            all_keys_fit(collect(comps.subrange(0, i as int), cash_entry(acc))),
            valued_count == collect(comps.subrange(0, i as int), valued(acc)).len(),
            counted_count == collect(comps.subrange(0, i as int), counted(acc)).len(),
            all_valued == (collect(comps.subrange(0, i as int), unvalued_entry(acc)).len() == 0),
            unvalued@.len() == collect(comps.subrange(0, i as int), unvalued_entry(acc)).len(),
            forall|k: int| 0 <= k < unvalued@.len() ==> item_view(#[trigger] unvalued@[k]) == collect(
                comps.subrange(0, i as int),
                unvalued_entry(acc),
            )[k],
        decreases comps.len() - i,
    {
        let ghost prefix = comps.subrange(0, i as int);
        let ghost next = comps.subrange(0, i as int + 1);
        proof {
            lemma_collect_next(comps, i as int, total_entry(acc));
            lemma_collect_next(comps, i as int, currency_entry(acc));
            lemma_collect_next(comps, i as int, country_entry(acc));
            lemma_collect_next(comps, i as int, type_entry(acc));
            lemma_collect_next(comps, i as int, cash_entry(acc));
            lemma_collect_next(comps, i as int, valued(acc));
            lemma_collect_next(comps, i as int, counted(acc));
            lemma_collect_next(comps, i as int, unvalued_entry(acc));
        }
        let component = &components[i];
        if !is_included(accounts, &component.account_id) {
            i = i + 1;
            continue;
        }
        match &component.kind {
            ComponentKind::Cash { currency, .. } => {
                match CurrencyCode::parse(currency.as_str()) {
                    Ok(_) => {},
                    Err(e) => {
                        assert(!cash_currency_ok(acc, comps[i as int]));
                        return Err(e);
                    },
                }
            },
            ComponentKind::Holding { .. } => {},
        }
        counted_count = counted_count + 1;
        if component.complete {
            valued_count = valued_count + 1;
            match component.base_value {
                Some(amount) => {
                    let ghost te = collect(prefix, total_entry(acc));
                    proof {
                        lemma_values_for_push(te, (Seq::<char>::empty(), amount@), Seq::<char>::empty());
                        lemma_running_sum_push(values_for(te, Seq::<char>::empty()), amount@);
                    }
                    total = match total.checked_add(&amount) {
                        Some(sum) => sum,
                        None => {
                            proof {
                                lemma_overflow_persists(comps, i as int + 1, total_entry(acc), Seq::<char>::empty());
                            }
                            return Err(AppError::DecimalOverflow);
                        },
                    };
                    let currency_key: Option<String> = match &component.kind {
                        ComponentKind::Holding { native_currency, .. } => match native_currency {
                            Some(code) => Some(code.clone()),
                            None => None,
                        },
                        ComponentKind::Cash { currency, .. } => Some(currency.clone()),
                    };
                    match currency_key {
                        Some(key) => {
                            let ghost entries = collect(prefix, currency_entry(acc));
                            match add_to_key(&mut by_currency, &key, amount, Ghost(Set::empty()), Ghost(entries)) {
                                Ok(()) => {},
                                Err(e) => {
                                    proof {
                                        lemma_overflow_persists(comps, i as int + 1, currency_entry(acc), key@);
                                    }
                                    return Err(e);
                                },
                            }
                        },
                        None => {},
                    }
                    let country_key: String = match &component.kind {
                        ComponentKind::Holding { country_code, .. } => match country_code {
                            Some(code) => code.clone(),
                            None => String::from_str("unknown"),
                        },
                        ComponentKind::Cash { .. } => String::from_str("unknown"),
                    };
                    let ghost country_entries = collect(prefix, country_entry(acc));
                    match add_to_key(&mut by_country, &country_key, amount, Ghost(Set::empty()), Ghost(country_entries)) {
                        Ok(()) => {},
                        Err(e) => {
                            proof {
                                lemma_overflow_persists(comps, i as int + 1, country_entry(acc), country_key@);
                            }
                            return Err(e);
                        },
                    }
                    let type_key: String = match &component.kind {
                        ComponentKind::Holding { instrument_type, .. } => instrument_type.clone(),
                        ComponentKind::Cash { .. } => String::from_str("cash"),
                    };
                    let ghost type_entries = collect(prefix, type_entry(acc));
                    match add_to_key(&mut by_type, &type_key, amount, Ghost(Set::empty()), Ghost(type_entries)) {
                        Ok(()) => {},
                        Err(e) => {
                            proof {
                                lemma_overflow_persists(comps, i as int + 1, type_entry(acc), type_key@);
                            }
                            return Err(e);
                        },
                    }
                },
                None => {},
            }
            match &component.kind {
                ComponentKind::Cash { currency, native_amount } => {
                    let ghost cash_entries = collect(prefix, cash_entry(acc));
                    match add_to_key(&mut cash_totals, currency, *native_amount, Ghost(Set::empty()), Ghost(cash_entries)) {
                        Ok(()) => {},
                        Err(e) => {
                            proof {
                                lemma_overflow_persists(comps, i as int + 1, cash_entry(acc), currency@);
                            }
                            return Err(e);
                        },
                    }
                },
                ComponentKind::Holding { .. } => {},
            }
        } else {
            all_valued = false;
            let item = match &component.kind {
                ComponentKind::Holding { missing_reason, .. } => UnvaluedItemDto {
                    kind: String::from_str("holding"),
                    id: component.id.clone(),
                    name: component.name.clone(),
                    reason: match missing_reason {
                        Some(reason) => reason.clone(),
                        None => String::from_str("quote"),
                    },
                },
                ComponentKind::Cash { currency, .. } => UnvaluedItemDto {
                    kind: String::from_str("cash"),
                    id: component.id.clone(),
                    name: currency.clone().concat(" cash"),
                    reason: String::from_str("fx_quote"),
                },
            };
            unvalued.push(item);
        }
        i = i + 1;
    }
    assert(comps.subrange(0, comps.len() as int) =~= comps);
    let coverage = snapshot_coverage_bps(valued_count, counted_count);
    let whole = total;
    assert(portfolio_total(acc, comps) == Some(whole@));
    let currency_rows = match allocation_rows(&by_currency, whole, base_currency) {
        Some(rows) => rows,
        None => {
            proof {
                lemma_breakdown_overflows(acc, comps, by_currency@, currency_entry(acc));
            }
            return Err(AppError::DecimalOverflow);
        },
    };
    let country_rows = match allocation_rows(&by_country, whole, base_currency) {
        Some(rows) => rows,
        None => {
            proof {
                lemma_breakdown_overflows(acc, comps, by_country@, country_entry(acc));
            }
            return Err(AppError::DecimalOverflow);
        },
    };
    let type_rows = match allocation_rows(&by_type, whole, base_currency) {
        Some(rows) => rows,
        None => {
            proof {
                lemma_breakdown_overflows(acc, comps, by_type@, type_entry(acc));
            }
            return Err(AppError::DecimalOverflow);
        },
    };
    let cash = cash_amounts(&cash_totals);
    let rows = account_rows(accounts, base_currency);
    Ok(
        PortfolioDto {
            base_currency: String::from_str(base_currency),
            total: MoneyDto { amount: total.canonical(), currency: String::from_str(base_currency) },
            is_complete: all_valued,
            coverage_bps: coverage as i32,
            unvalued_items: unvalued,
            accounts: rows,
            cash,
            by_currency: currency_rows,
            by_country: country_rows,
            by_instrument_type: type_rows,
        },
    )
}

} // verus!
