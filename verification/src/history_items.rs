//! The items of a daily valuation snapshot: one per holding and cash
//! balance of a holdings Account, one per other Account, each with its
//! value or the reason it has none.

use vstd::prelude::*;

use crate::amount::{canonical_text, decimal_reading, DecimalValue, Money};
use crate::currency::{is_currency_code, CurrencyCode};
use crate::error::{is_not_found_of, is_validation_of, AppError};
use crate::history::component_item;
use crate::history_records::DailyValuationSnapshotItemRecord;
use crate::ids::uuid_accepts;
use crate::keyed_sums::{collect, flat_collect, lemma_collect_next, lemma_flat_collect_next};
use crate::text::{clone_opt, opt_view, text_eq};

verus! {

/// What converting an amount into the base currency gave.
#[derive(Debug, Clone)]
pub struct Conversion {
    pub base: Option<DecimalValue>,
    pub complete: bool,
    pub missing_reason: Option<String>,
    pub fx_quote_id: Option<String>,
}

/// A stored amount in a currency, as text.
#[derive(Debug, Clone)]
pub struct StoredAmount {
    pub amount: String,
    pub currency: String,
}

/// An Account as a snapshot reads it, with the conversion of its latest
/// value (for Accounts that do not track holdings).
#[derive(Debug, Clone)]
pub struct SnapshotAccount {
    pub id: String,
    pub archived: bool,
    pub include_in_net_worth: bool,
    pub tracking_mode: String,
    pub latest_value: Option<StoredAmount>,
    pub conversion: Conversion,
    pub state_id: Option<String>,
    pub last_activity_id: Option<String>,
}

/// A holding as the valuation at the cutoff found it.
#[derive(Debug, Clone)]
pub struct HoldingValuation {
    pub account_id: String,
    pub holding_id: String,
    pub instrument_id: String,
    pub instrument_known: bool,
    pub native: Option<Money>,
    pub base: Option<DecimalValue>,
    pub complete: bool,
    pub missing_reason: Option<String>,
    pub instrument_quote_id: Option<String>,
    pub fx_quote_id: Option<String>,
    pub last_activity_id: Option<String>,
}

/// A cash balance of a holdings Account and its conversion.
#[derive(Debug, Clone)]
pub struct CashValuation {
    pub account_id: String,
    pub amount: String,
    pub currency: String,
    pub conversion: Conversion,
    pub last_activity_id: Option<String>,
}

/// A snapshot counts an Account that is not archived and is included in
/// net worth.
pub open spec fn counted_in_snapshot(a: SnapshotAccount) -> bool {
    !a.archived && a.include_in_net_worth
}

/// The Account is valued by its holdings and cash.
pub open spec fn tracks_holdings(a: SnapshotAccount) -> bool {
    a.tracking_mode@ == "holdings"@
}

/// The numbers `0..n`.
pub open spec fn indices(n: nat) -> Seq<int> {
    Seq::new(n, |i: int| i)
}

/// The holdings of the Account, by index, tagged 0.
pub open spec fn holding_sources(a: SnapshotAccount, i: int, holdings: Seq<HoldingValuation>) -> spec_fn(int) -> Option<(int, int, int)> {
    |j: int| if holdings[j].account_id@ == a.id@ { Some((i, 0int, j)) } else { None }
}

/// The cash balances of the Account, by index, tagged 1.
pub open spec fn cash_sources(a: SnapshotAccount, i: int, cash: Seq<CashValuation>) -> spec_fn(int) -> Option<(int, int, int)> {
    |j: int| if cash[j].account_id@ == a.id@ { Some((i, 1int, j)) } else { None }
}

/// Where the items of the `i`-th Account come from, in order: its holdings
/// then its cash balances for a holdings Account, its own value (tagged 2)
/// otherwise, nothing for an Account the snapshot does not count.
pub open spec fn account_sources(
    accounts: Seq<SnapshotAccount>,
    holdings: Seq<HoldingValuation>,
    cash: Seq<CashValuation>,
) -> spec_fn(int) -> Seq<(int, int, int)> {
    |i: int|
        if counted_in_snapshot(accounts[i]) {
            if tracks_holdings(accounts[i]) {
                collect(indices(holdings.len()), holding_sources(accounts[i], i, holdings)) + collect(
                    indices(cash.len()),
                    cash_sources(accounts[i], i, cash),
                )
            } else {
                seq![(i, 2int, 0int)]
            }
        } else {
            Seq::empty()
        }
}

/// Where every item comes from, Account by Account.
pub open spec fn snapshot_sources(
    accounts: Seq<SnapshotAccount>,
    holdings: Seq<HoldingValuation>,
    cash: Seq<CashValuation>,
) -> Seq<(int, int, int)> {
    flat_collect(indices(accounts.len()), account_sources(accounts, holdings, cash))
}

/// An amount text and a currency text name an amount of money.
pub open spec fn amount_text_ok(amount: Seq<char>, currency: Seq<char>) -> bool {
    is_currency_code(currency) && decimal_reading(amount) is Some
}

/// What an Account needs for its items to be made: the instruments of
/// its holdings known and its cash balances readable, or its latest value
/// readable.
pub open spec fn account_readable(
    a: SnapshotAccount,
    holdings: Seq<HoldingValuation>,
    cash: Seq<CashValuation>,
) -> bool {
    counted_in_snapshot(a) ==> if tracks_holdings(a) {
        &&& forall|j: int| 0 <= j < holdings.len() && (#[trigger] holdings[j]).account_id@ == a.id@ ==> holdings[j].instrument_known
        &&& forall|j: int| 0 <= j < cash.len() && (#[trigger] cash[j]).account_id@ == a.id@ ==> amount_text_ok(
            cash[j].amount@,
            cash[j].currency@,
        )
    } else {
        a.latest_value matches Some(v) ==> amount_text_ok(v.amount@, v.currency@)
    }
}

/// Every Account the snapshot counts can have its items made.
pub open spec fn snapshot_readable(
    accounts: Seq<SnapshotAccount>,
    holdings: Seq<HoldingValuation>,
    cash: Seq<CashValuation>,
) -> bool {
    forall|i: int| 0 <= i < accounts.len() ==> account_readable(#[trigger] accounts[i], holdings, cash)
}

/// The item carries what the conversion gave: its completeness and FX
/// quote, and the canonical base amount with no missing reason when
/// complete, or no base amount and the conversion's reason when not.
pub open spec fn carries_conversion(item: DailyValuationSnapshotItemRecord, c: Conversion) -> bool {
    &&& item.is_complete == c.complete
    &&& opt_view(item.fx_quote_id) == opt_view(c.fx_quote_id)
    &&& if c.complete {
        &&& opt_view(item.base_amount) == match c.base {
            Some(b) => Some(canonical_text(b@)),
            None => None,
        }
        &&& item.missing_reason is None
    } else {
        item.base_amount is None && opt_view(item.missing_reason) == opt_view(c.missing_reason)
    }
}

/// What every item of an Account carries: a fresh id, no snapshot yet,
/// the Account, its state observation and the History Origin.
pub open spec fn item_of_account(item: DailyValuationSnapshotItemRecord, a: SnapshotAccount, origin: Seq<char>) -> bool {
    &&& uuid_accepts(item.id@) && item.snapshot_id@.len() == 0 && item.sort_order == 0
    &&& item.account_id@ == a.id@
    &&& opt_view(item.account_state_observation_id) == opt_view(a.state_id)
    &&& opt_view(item.origin_id) == Some(origin)
}

/// The item of a holding: its quantity's native value and currency (and
/// FX quote) when it has one, its quote, and its base amount when
/// complete, else its missing reason.
pub open spec fn holding_item_ok(item: DailyValuationSnapshotItemRecord, a: SnapshotAccount, h: HoldingValuation, origin: Seq<char>) -> bool {
    &&& item_of_account(item, a, origin)
    &&& opt_view(item.holding_id) == Some(h.holding_id@)
    &&& opt_view(item.instrument_id) == Some(h.instrument_id@)
    &&& item.component_kind@ == "holding_quantity"@
    &&& match h.native {
        Some(m) => opt_view(item.native_amount) == Some(canonical_text(m.amount@)) && opt_view(item.native_currency)
            == Some(m.currency.code()) && opt_view(item.fx_quote_id) == opt_view(h.fx_quote_id),
        None => item.native_amount is None && item.native_currency is None && item.fx_quote_id is None,
    }
    &&& opt_view(item.instrument_quote_id) == opt_view(h.instrument_quote_id)
    &&& opt_view(item.activity_id) == opt_view(h.last_activity_id)
    &&& item.is_complete == h.complete
    &&& if h.complete {
        &&& opt_view(item.base_amount) == match h.base {
            Some(b) => Some(canonical_text(b@)),
            None => None,
        }
        &&& item.missing_reason is None
    } else {
        item.base_amount is None && opt_view(item.missing_reason) == opt_view(h.missing_reason)
    }
}

/// The item of a cash balance: its canonical amount and currency and its
/// conversion.
pub open spec fn cash_item_ok(item: DailyValuationSnapshotItemRecord, a: SnapshotAccount, c: CashValuation, origin: Seq<char>) -> bool {
    &&& item_of_account(item, a, origin)
    &&& item.holding_id is None && item.instrument_id is None && item.instrument_quote_id is None
    &&& item.component_kind@ == "holdings_cash"@
    &&& opt_view(item.native_amount) == Some(canonical_text(decimal_reading(c.amount@)->Some_0))
    &&& opt_view(item.native_currency) == Some(c.currency@)
    &&& opt_view(item.activity_id) == opt_view(c.last_activity_id)
    &&& carries_conversion(item, c.conversion)
}

/// The item of an Account valued as a whole: its latest value and its
/// conversion, or, without a value, an incomplete item whose missing
/// reason is `account_value`.
pub open spec fn value_item_ok(item: DailyValuationSnapshotItemRecord, a: SnapshotAccount, origin: Seq<char>) -> bool {
    &&& item_of_account(item, a, origin)
    &&& item.holding_id is None && item.instrument_id is None && item.instrument_quote_id is None
    &&& item.component_kind@ == "account_value"@
    &&& opt_view(item.activity_id) == opt_view(a.last_activity_id)
    &&& match a.latest_value {
        None => {
            &&& item.native_amount is None && item.native_currency is None && item.base_amount is None
            &&& item.fx_quote_id is None && !item.is_complete
            &&& opt_view(item.missing_reason) == Some("account_value"@)
        },
        Some(v) => {
            &&& opt_view(item.native_amount) == Some(canonical_text(decimal_reading(v.amount@)->Some_0))
            &&& opt_view(item.native_currency) == Some(v.currency@)
            &&& carries_conversion(item, a.conversion)
        },
    }
}

/// The item that a source gives.
pub open spec fn item_from_source(
    item: DailyValuationSnapshotItemRecord,
    source: (int, int, int),
    accounts: Seq<SnapshotAccount>,
    holdings: Seq<HoldingValuation>,
    cash: Seq<CashValuation>,
    origin: Seq<char>,
) -> bool {
    if source.1 == 0 {
        holding_item_ok(item, accounts[source.0], holdings[source.2], origin)
    } else if source.1 == 1 {
        cash_item_ok(item, accounts[source.0], cash[source.2], origin)
    } else {
        value_item_ok(item, accounts[source.0], origin)
    }
}

/// Reads an amount text in a currency text: the currency first, then the amount.
fn read_amount(amount: &str, currency: &str) -> (money: Result<Money, AppError>)
    ensures
        match money {
            Ok(m) => amount_text_ok(amount@, currency@) && decimal_reading(amount@) == Some(m.amount@)
                && m.currency.code() == currency@,
            Err(e) => !amount_text_ok(amount@, currency@) && (is_validation_of(e, "currency"@) || is_validation_of(
                e,
                "amount"@,
            )),
        },
{
    let code = CurrencyCode::parse(currency)?;
    Money::parse(amount, code)
}

fn base_text(base: &Option<DecimalValue>) -> (text: Option<String>)
    ensures
        opt_view(text) == match *base {
            Some(b) => Some(canonical_text(b@)),
            None => None,
        },
{
    match base {
        Some(b) => Some(b.canonical()),
        None => None,
    }
}

/// The item of a value converted into the base currency.
fn converted_item(
    account: &SnapshotAccount,
    component_kind: &str,
    native: Money,
    conversion: &Conversion,
    activity_id: &Option<String>,
    origin_id: &str,
) -> (item: DailyValuationSnapshotItemRecord)
    ensures
        uuid_accepts(item.id@) && item.snapshot_id@.len() == 0 && item.sort_order == 0,
        item.account_id@ == account.id@,
        opt_view(item.account_state_observation_id) == opt_view(account.state_id),
        opt_view(item.origin_id) == Some(origin_id@),
        item.holding_id is None && item.instrument_id is None && item.instrument_quote_id is None,
        item.component_kind@ == component_kind@,
        opt_view(item.native_amount) == Some(canonical_text(native.amount@)),
        opt_view(item.native_currency) == Some(native.currency.code()),
        opt_view(item.activity_id) == opt_view(*activity_id),
        carries_conversion(item, *conversion),
{
    let (base_amount, missing_reason) = if conversion.complete {
        (base_text(&conversion.base), None)
    } else {
        (None, clone_opt(&conversion.missing_reason))
    };
    component_item(
        account.id.as_str(),
        None,
        None,
        component_kind,
        Some(native.canonical_amount()),
        Some(native.currency.to_text()),
        base_amount,
        None,
        clone_opt(&conversion.fx_quote_id),
        clone_opt(&account.state_id),
        Some(String::from_str(origin_id)),
        clone_opt(activity_id),
        conversion.complete,
        missing_reason,
    )
}

/// The item of a holding.
fn holding_item(account: &SnapshotAccount, h: &HoldingValuation, origin_id: &str) -> (item: DailyValuationSnapshotItemRecord)
    ensures
        holding_item_ok(item, *account, *h, origin_id@),
{
    let (native_amount, native_currency, fx_quote_id) = match &h.native {
        Some(m) => (Some(m.canonical_amount()), Some(m.currency.to_text()), clone_opt(&h.fx_quote_id)),
        None => (None, None, None),
    };
    let (base_amount, missing_reason) = if h.complete {
        (base_text(&h.base), None)
    } else {
        (None, clone_opt(&h.missing_reason))
    };
    component_item(
        account.id.as_str(),
        Some(h.holding_id.clone()),
        Some(h.instrument_id.clone()),
        "holding_quantity",
        native_amount,
        native_currency,
        base_amount,
        clone_opt(&h.instrument_quote_id),
        fx_quote_id,
        clone_opt(&account.state_id),
        Some(String::from_str(origin_id)),
        clone_opt(&h.last_activity_id),
        h.complete,
        missing_reason,
    )
}

/// The item of an Account without a value: incomplete for want of one.
fn missing_value_item(account: &SnapshotAccount, origin_id: &str) -> (item: DailyValuationSnapshotItemRecord)
    requires
        account.latest_value is None,
    ensures
        value_item_ok(item, *account, origin_id@),
{
    component_item(
        account.id.as_str(),
        None,
        None,
        "account_value",
        None,
        None,
        None,
        None,
        None,
        clone_opt(&account.state_id),
        Some(String::from_str(origin_id)),
        clone_opt(&account.last_activity_id),
        false,
        Some(String::from_str("account_value")),
    )
}

/// The items of a daily snapshot, Account by Account: for each Account
/// that is not archived and is included in net worth, one item per holding
/// and per cash balance when it tracks holdings, else one `account_value`
/// item (incomplete, for want of `account_value`, when it has no value).
/// Items that are not complete carry no base amount. An unreadable currency
/// or amount is a validation error on `currency` or `amount`; a holding of
/// an unknown instrument is `NotFound`.
pub fn snapshot_items(
    accounts: &Vec<SnapshotAccount>,
    holdings: &Vec<HoldingValuation>,
    cash: &Vec<CashValuation>,
    origin_id: &str,
) -> (items: Result<Vec<DailyValuationSnapshotItemRecord>, AppError>)
    ensures
        items is Ok <==> snapshot_readable(accounts@, holdings@, cash@),
        items matches Ok(v) ==> {
            let sources = snapshot_sources(accounts@, holdings@, cash@);
            &&& v@.len() == sources.len()
            &&& forall|k: int| 0 <= k < v@.len() ==> item_from_source(#[trigger] v@[k], sources[k], accounts@, holdings@, cash@, origin_id@)
            &&& forall|k: int| 0 <= k < v@.len() ==> 0 <= (#[trigger] sources[k]).0 < accounts@.len()
                && counted_in_snapshot(accounts@[sources[k].0])
            &&& forall|k: int| 0 <= k < v@.len() ==> (!(#[trigger] v@[k]).is_complete ==> v@[k].base_amount is None)
        },
        items matches Err(e) ==> is_validation_of(e, "currency"@) || is_validation_of(e, "amount"@) || is_not_found_of(
            e,
            "instrument"@,
            e->NotFound_id@,
        ),
{
    let ghost acc = accounts@;
    let ghost hs = holdings@;
    let ghost cs = cash@;
    let ghost idx = indices(acc.len());
    let ghost f = account_sources(acc, hs, cs);
    let ghost origin = origin_id@;
    let mut items: Vec<DailyValuationSnapshotItemRecord> = Vec::new();
    assert(idx.subrange(0, 0) =~= Seq::<int>::empty());
    let mut i: usize = 0;
    while i < accounts.len()
        invariant
            i <= acc.len(),
            acc == accounts@ && hs == holdings@ && cs == cash@ && origin == origin_id@,
            idx == indices(acc.len()),
            f == account_sources(acc, hs, cs),
            items@.len() == flat_collect(idx.subrange(0, i as int), f).len(),
            forall|k: int| 0 <= k < items@.len() ==> item_from_source(
                #[trigger] items@[k],
                flat_collect(idx.subrange(0, i as int), f)[k],
                acc,
                hs,
                cs,
                origin,
            ),
            forall|k: int| 0 <= k < items@.len() ==> 0 <= (#[trigger] flat_collect(idx.subrange(0, i as int), f)[k]).0 < i
                && counted_in_snapshot(acc[flat_collect(idx.subrange(0, i as int), f)[k].0]),
            forall|x: int| 0 <= x < i ==> account_readable(#[trigger] acc[x], hs, cs),
        decreases acc.len() - i,
    {
        proof {
            lemma_flat_collect_next(idx, i as int, f);
        }
        let ghost before = items@;
        let ghost done = flat_collect(idx.subrange(0, i as int), f);
        let account = &accounts[i];
        if account.archived || !account.include_in_net_worth {
            assert(flat_collect(idx.subrange(0, i as int + 1), f) =~= done);
            i = i + 1;
            continue;
        }
        if text_eq(account.tracking_mode.as_str(), "holdings") {
            let ghost hsrc = holding_sources(acc[i as int], i as int, hs);
            let ghost hidx = indices(hs.len());
            assert(hidx.subrange(0, 0) =~= Seq::<int>::empty());
            let mut j: usize = 0;
            while j < holdings.len()
                invariant
                    j <= hs.len(),
                    i < acc.len(),
                    acc == accounts@ && hs == holdings@ && origin == origin_id@,
                    *account == acc[i as int],
                    counted_in_snapshot(acc[i as int]),
                    tracks_holdings(acc[i as int]),
                    hidx == indices(hs.len()),
                    hsrc == holding_sources(acc[i as int], i as int, hs),
                    items@.len() == before.len() + collect(hidx.subrange(0, j as int), hsrc).len(),
                    forall|k: int| 0 <= k < before.len() ==> items@[k] == before[k],
                    forall|k: int| 0 <= k < collect(hidx.subrange(0, j as int), hsrc).len() ==> #[trigger] collect(
                        hidx.subrange(0, j as int),
                        hsrc,
                    )[k] == (i as int, 0int, collect(hidx.subrange(0, j as int), hsrc)[k].2) && holding_item_ok(
                        items@[before.len() + k],
                        acc[i as int],
                        hs[collect(hidx.subrange(0, j as int), hsrc)[k].2],
                        origin,
                    ),
                    forall|y: int| 0 <= y < j && (#[trigger] hs[y]).account_id@ == acc[i as int].id@ ==> hs[y].instrument_known,
                decreases hs.len() - j,
            {
                proof {
                    lemma_collect_next(hidx, j as int, hsrc);
                }
                let h = &holdings[j];
                if text_eq(h.account_id.as_str(), account.id.as_str()) {
                    if !h.instrument_known {
                        assert(!snapshot_readable(acc, hs, cash@)) by {
                            assert(hs[j as int] == *h);
                            assert(tracks_holdings(acc[i as int]));
                            assert(!account_readable(acc[i as int], hs, cash@));
                        }
                        return Err(AppError::not_found("instrument", h.instrument_id.as_str()));
                    }
                    let item = holding_item(account, h, origin_id);
                    items.push(item);
                }
                j = j + 1;
            }
            assert(hidx.subrange(0, hs.len() as int) =~= hidx);
            let ghost after_holdings = items@;
            let ghost csrc = cash_sources(acc[i as int], i as int, cs);
            let ghost cidx = indices(cs.len());
            assert(cidx.subrange(0, 0) =~= Seq::<int>::empty());
            let mut j: usize = 0;
            while j < cash.len()
                invariant
                    j <= cs.len(),
                    i < acc.len(),
                    acc == accounts@ && cs == cash@ && origin == origin_id@,
                    *account == acc[i as int],
                    counted_in_snapshot(acc[i as int]),
                    tracks_holdings(acc[i as int]),
                    cidx == indices(cs.len()),
                    csrc == cash_sources(acc[i as int], i as int, cs),
                    items@.len() == after_holdings.len() + collect(cidx.subrange(0, j as int), csrc).len(),
                    forall|k: int| 0 <= k < after_holdings.len() ==> items@[k] == after_holdings[k],
                    forall|k: int| 0 <= k < collect(cidx.subrange(0, j as int), csrc).len() ==> #[trigger] collect(
                        cidx.subrange(0, j as int),
                        csrc,
                    )[k] == (i as int, 1int, collect(cidx.subrange(0, j as int), csrc)[k].2) && cash_item_ok(
                        items@[after_holdings.len() + k],
                        acc[i as int],
                        cs[collect(cidx.subrange(0, j as int), csrc)[k].2],
                        origin,
                    ),
                    forall|y: int| 0 <= y < j && (#[trigger] cs[y]).account_id@ == acc[i as int].id@ ==> amount_text_ok(
                        cs[y].amount@,
                        cs[y].currency@,
                    ),
                decreases cs.len() - j,
            {
                proof {
                    lemma_collect_next(cidx, j as int, csrc);
                }
                let c = &cash[j];
                if text_eq(c.account_id.as_str(), account.id.as_str()) {
                    let native = match read_amount(c.amount.as_str(), c.currency.as_str()) {
                        Ok(native) => native,
                        Err(e) => {
                            assert(!snapshot_readable(acc, holdings@, cs)) by {
                                assert(cs[j as int] == *c);
                                assert(tracks_holdings(acc[i as int]));
                                assert(!account_readable(acc[i as int], holdings@, cs));
                            }
                            return Err(e);
                        },
                    };
                    let item = converted_item(account, "holdings_cash", native, &c.conversion, &c.last_activity_id, origin_id);
                    items.push(item);
                }
                j = j + 1;
            }
            assert(cidx.subrange(0, cs.len() as int) =~= cidx);
            proof {
                let hpart = collect(hidx, hsrc);
                let cpart = collect(cidx, csrc);
                assert(tracks_holdings(acc[i as int]));
                assert(f(i as int) == hpart + cpart);
                let total = flat_collect(idx.subrange(0, i as int + 1), f);
                assert(total == done + (hpart + cpart));
                assert forall|k: int| 0 <= k < items@.len() implies item_from_source(#[trigger] items@[k], total[k], acc, hs, cs, origin)
                    && 0 <= total[k].0 < i + 1 && counted_in_snapshot(acc[total[k].0]) by {
                    if k < before.len() {
                        assert(items@[k] == after_holdings[k]);
                        assert(after_holdings[k] == before[k]);
                        assert(total[k] == done[k]);
                    } else if k < after_holdings.len() {
                        assert(items@[k] == after_holdings[k]);
                        assert(total[k] == hpart[k - before.len()]);
                    } else {
                        assert(total[k] == cpart[k - after_holdings.len()]);
                    }
                }
            }
        } else {
            let item = match &account.latest_value {
                None => missing_value_item(account, origin_id),
                Some(v) => {
                    let native = match read_amount(v.amount.as_str(), v.currency.as_str()) {
                        Ok(native) => native,
                        Err(e) => {
                            assert(!snapshot_readable(acc, hs, cs)) by {
                                assert(!account_readable(acc[i as int], hs, cs));
                            }
                            return Err(e);
                        },
                    };
                    converted_item(account, "account_value", native, &account.conversion, &account.last_activity_id, origin_id)
                },
            };
            items.push(item);
            proof {
                let total = flat_collect(idx.subrange(0, i as int + 1), f);
                assert(f(i as int) == seq![(i as int, 2int, 0int)]);
                assert(total == done + seq![(i as int, 2int, 0int)]);
                assert forall|k: int| 0 <= k < items@.len() implies item_from_source(#[trigger] items@[k], total[k], acc, hs, cs, origin)
                    && 0 <= total[k].0 < i + 1 && counted_in_snapshot(acc[total[k].0]) by {
                    if k < before.len() {
                        assert(items@[k] == before[k]);
                        assert(total[k] == done[k]);
                    }
                }
            }
        }
        i = i + 1;
    }
    assert(idx.subrange(0, acc.len() as int) =~= idx);
    Ok(items)
}

/// A source whose value is complete: a fully valued holding, a converted
/// cash balance, or an Account with a converted value.
pub open spec fn source_complete(
    source: (int, int, int),
    accounts: Seq<SnapshotAccount>,
    holdings: Seq<HoldingValuation>,
    cash: Seq<CashValuation>,
) -> bool {
    if source.1 == 0 {
        holdings[source.2].complete
    } else if source.1 == 1 {
        cash[source.2].conversion.complete
    } else {
        accounts[source.0].latest_value is Some && accounts[source.0].conversion.complete
    }
}

/// Marks each complete source.
pub open spec fn complete_mark(
    accounts: Seq<SnapshotAccount>,
    holdings: Seq<HoldingValuation>,
    cash: Seq<CashValuation>,
) -> spec_fn((int, int, int)) -> Option<()> {
    |source: (int, int, int)| if source_complete(source, accounts, holdings, cash) { Some(()) } else { None }
}

/// How many of a snapshot's components are complete, and how many there
/// are: the valued and total component counts of its coverage.
pub fn component_coverage(
    accounts: &Vec<SnapshotAccount>,
    holdings: &Vec<HoldingValuation>,
    cash: &Vec<CashValuation>,
) -> (coverage: Result<(usize, usize), AppError>)
    ensures
        coverage is Ok <==> snapshot_readable(accounts@, holdings@, cash@),
        coverage matches Ok(counts) ==> {
            let sources = snapshot_sources(accounts@, holdings@, cash@);
            &&& counts.1 == sources.len()
            &&& counts.0 == collect(sources, complete_mark(accounts@, holdings@, cash@)).len()
        },
        coverage matches Err(e) ==> is_validation_of(e, "currency"@) || is_validation_of(e, "amount"@) || is_not_found_of(
            e,
            "instrument"@,
            e->NotFound_id@,
        ),
{
    let items = snapshot_items(accounts, holdings, cash, "")?;
    let ghost sources = snapshot_sources(accounts@, holdings@, cash@);
    let ghost mark = complete_mark(accounts@, holdings@, cash@);
    let mut valued: usize = 0;
    let mut k: usize = 0;
    assert(sources.subrange(0, 0) =~= Seq::<(int, int, int)>::empty());
    while k < items.len()
        invariant
            k <= items@.len(),
            items@.len() == sources.len(),
            sources == snapshot_sources(accounts@, holdings@, cash@),
            mark == complete_mark(accounts@, holdings@, cash@),
            forall|x: int| 0 <= x < items@.len() ==> item_from_source(#[trigger] items@[x], sources[x], accounts@, holdings@, cash@, ""@),
            valued == collect(sources.subrange(0, k as int), mark).len(),
            valued <= k,
        decreases items@.len() - k,
    {
        proof {
            lemma_collect_next(sources, k as int, mark);
            assert(item_from_source(items@[k as int], sources[k as int], accounts@, holdings@, cash@, ""@));
        }
        if items[k].is_complete {
            valued = valued + 1;
        }
        k = k + 1;
    }
    assert(sources.subrange(0, sources.len() as int) =~= sources);
    Ok((valued, items.len()))
}

} // verus!
