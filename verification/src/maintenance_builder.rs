//! The maintenance queue of a day: a freshness entry for every watched
//! Account value, cash balance, manually quoted Instrument and manually
//! quoted currency pair whose policy is enabled, then the due pending
//! Activities, in display order.

use vstd::prelude::*;

use crate::calendar::{civil, ymd_text, CalendarDate};
use crate::error::AppError;
use crate::history_items::indices;
use crate::keyed_sums::{collect, lemma_collect_next, lemma_collect_prefix};
use crate::maintenance::{
    active_snoozes, active_snoozes_spec, append_freshness_item, enabled_policy, freshness_item, freshness_item_ok,
    latest_snoozes, policy_for, snooze_row_valid, FreshnessPolicyKind, FreshnessPolicyRecord, MaintenanceItemDto, MaintenancePageDto,
    MaintenanceSnoozeRecord, PolicyTarget, TargetKey, TargetView,
};
use crate::maintenance_observations::LatestObservation;
use crate::maintenance_queue::{pending_entry, pending_maintenance_item, queue_sorted, sort_maintenance_items};
use crate::pending::PendingActivityDto;
use crate::text::text_eq;
use crate::time::HistoryTimezone;

verus! {

/// An Account as the queue reads it.
#[derive(Debug, Clone)]
pub struct MaintenanceAccount {
    pub id: String,
    pub name: String,
    pub tracking_mode: String,
}

/// A cash balance of an Account and when it was last stated.
#[derive(Debug, Clone)]
pub struct CashObservation {
    pub account_id: String,
    pub currency: String,
    pub effective_at: String,
}

/// An Instrument as the queue reads it.
#[derive(Debug, Clone)]
pub struct MaintenanceInstrument {
    pub id: String,
    pub name: String,
    pub archived: bool,
    pub quote_preference: String,
}

/// A currency pair the valuation needs, normalised, with the quote source
/// preferred for it.
#[derive(Debug, Clone)]
pub struct RequiredPair {
    pub currency_a: String,
    pub currency_b: String,
    pub preference: String,
}

/// `i` is the first position holding `key`.
pub open spec fn first_at(keys: Seq<Seq<char>>, i: int, key: Seq<char>) -> bool {
    0 <= i < keys.len() && keys[i] == key && forall|j: int| 0 <= j < i ==> #[trigger] keys[j] != key
}

/// The first position holding `key`, if any.
pub open spec fn first_index(keys: Seq<Seq<char>>, key: Seq<char>) -> Option<int> {
    if exists|i: int| first_at(keys, i, key) {
        Some(choose|i: int| first_at(keys, i, key))
    } else {
        None
    }
}

proof fn lemma_first_at(keys: Seq<Seq<char>>, i: int, key: Seq<char>)
    requires
        first_at(keys, i, key),
    ensures
        first_index(keys, key) == Some(i),
{
    let c = choose|c: int| first_at(keys, c, key);
    if c < i {
        assert(keys[c] == key);
    } else if i < c {
        assert(keys[i] == key);
    }
}

/// The ids of the Accounts.
pub open spec fn account_ids(accounts: Seq<MaintenanceAccount>) -> Seq<Seq<char>> {
    Seq::new(accounts.len(), |i: int| accounts[i].id@)
}

/// The Account ids of the value dates.
pub open spec fn dated_ids(dates: Seq<(String, String)>) -> Seq<Seq<char>> {
    Seq::new(dates.len(), |i: int| dates[i].0@)
}

/// The keys of the latest observations.
pub open spec fn observed_keys(latest: Seq<LatestObservation>) -> Seq<Seq<char>> {
    Seq::new(latest.len(), |i: int| latest[i].key@)
}

/// When an Account's value was last observed, if it was.
pub open spec fn value_date(dates: Seq<(String, String)>, id: Seq<char>) -> Option<Seq<char>> {
    match first_index(dated_ids(dates), id) {
        Some(i) => Some(dates[i].1@),
        None => None,
    }
}

/// When a key was last quoted manually, if it was.
pub open spec fn latest_date(latest: Seq<LatestObservation>, key: Seq<char>) -> Option<Seq<char>> {
    match first_index(observed_keys(latest), key) {
        Some(i) => Some(latest[i].quoted_at@),
        None => None,
    }
}

/// The target of one Account.
pub open spec fn account_target(id: Seq<char>) -> TargetView {
    (Some(id), None, None, None)
}

/// The target of one Instrument.
pub open spec fn instrument_target(id: Seq<char>) -> TargetView {
    (None, Some(id), None, None)
}

/// The target of one currency pair.
pub open spec fn pair_target(a: Seq<char>, b: Seq<char>) -> TargetView {
    (None, None, Some(a), Some(b))
}

/// The Account whose value is watched: one kept by balance or manual value
/// whose value policy is enabled.
pub open spec fn watches_value(ps: Seq<FreshnessPolicyRecord>, a: MaintenanceAccount) -> bool {
    (a.tracking_mode@ == "balance"@ || a.tracking_mode@ == "manual_value"@) && policy_for(
        ps,
        FreshnessPolicyKind::AccountValue,
        account_target(a.id@),
    ) is Some
}

/// The cash balance is watched: its Account is listed, tracks holdings, and
/// its cash policy is enabled.
pub open spec fn watches_cash(ps: Seq<FreshnessPolicyRecord>, accounts: Seq<MaintenanceAccount>, c: CashObservation) -> bool {
    &&& first_index(account_ids(accounts), c.account_id@) matches Some(i) && accounts[i].tracking_mode@ == "holdings"@
    &&& policy_for(ps, FreshnessPolicyKind::AccountCash, account_target(c.account_id@)) is Some
}

/// The Instrument is watched: not archived, quoted manually, its quote
/// policy enabled.
pub open spec fn watches_instrument(ps: Seq<FreshnessPolicyRecord>, ins: MaintenanceInstrument) -> bool {
    !ins.archived && ins.quote_preference@ == "manual"@ && policy_for(
        ps,
        FreshnessPolicyKind::InstrumentQuote,
        instrument_target(ins.id@),
    ) is Some
}

/// The currency pair is watched: quoted manually, its FX policy enabled.
pub open spec fn watches_pair(ps: Seq<FreshnessPolicyRecord>, p: RequiredPair) -> bool {
    p.preference@ == "manual"@ && policy_for(ps, FreshnessPolicyKind::FxQuote, pair_target(p.currency_a@, p.currency_b@))
        is Some
}

/// The key of a pair's latest observation.
pub open spec fn pair_key(p: RequiredPair) -> Seq<char> {
    p.currency_a@ + "/"@ + p.currency_b@
}

/// Marks the Account values that get an entry, tagged 0 with their index.
pub open spec fn value_source(ps: Seq<FreshnessPolicyRecord>, accounts: Seq<MaintenanceAccount>) -> spec_fn(int) -> Option<(int, int)> {
    |k: int| if watches_value(ps, accounts[k]) { Some((0int, k)) } else { None }
}

/// Marks the cash balances that get an entry, tagged 1 with their index.
pub open spec fn cash_source(ps: Seq<FreshnessPolicyRecord>, accounts: Seq<MaintenanceAccount>, cash: Seq<CashObservation>) -> spec_fn(int) -> Option<(int, int)> {
    |k: int| if watches_cash(ps, accounts, cash[k]) { Some((1int, k)) } else { None }
}

/// Marks the Instruments that get an entry, tagged 2 with their index.
pub open spec fn instrument_source(ps: Seq<FreshnessPolicyRecord>, instruments: Seq<MaintenanceInstrument>) -> spec_fn(int) -> Option<(int, int)> {
    |k: int| if watches_instrument(ps, instruments[k]) { Some((2int, k)) } else { None }
}

/// Marks the currency pairs that get an entry, tagged 3 with their index.
pub open spec fn pair_source(ps: Seq<FreshnessPolicyRecord>, pairs: Seq<RequiredPair>) -> spec_fn(int) -> Option<(int, int)> {
    |k: int| if watches_pair(ps, pairs[k]) { Some((3int, k)) } else { None }
}

/// What the queue reads besides the day and the due pending Activities.
#[derive(Debug, Clone)]
pub struct MaintenanceInputs {
    pub policies: Vec<FreshnessPolicyRecord>,
    pub snoozes: Vec<MaintenanceSnoozeRecord>,
    pub accounts: Vec<MaintenanceAccount>,
    /// Per Account id, when its value was last observed.
    pub value_dates: Vec<(String, String)>,
    pub cash: Vec<CashObservation>,
    pub instruments: Vec<MaintenanceInstrument>,
    /// Per Instrument id, its latest manual quote.
    pub instrument_latest: Vec<LatestObservation>,
    pub pairs: Vec<RequiredPair>,
    /// Per pair, keyed `A/B`, its latest manual quote.
    pub fx_latest: Vec<LatestObservation>,
}

/// The watched Account values, in Account order.
pub open spec fn value_group(inp: MaintenanceInputs) -> Seq<(int, int)> {
    collect(indices(inp.accounts@.len()), value_source(inp.policies@, inp.accounts@))
}

/// The watched cash balances, in the order they are listed.
pub open spec fn cash_group(inp: MaintenanceInputs) -> Seq<(int, int)> {
    collect(indices(inp.cash@.len()), cash_source(inp.policies@, inp.accounts@, inp.cash@))
}

/// The watched Instruments, in the order they are listed.
pub open spec fn instrument_group(inp: MaintenanceInputs) -> Seq<(int, int)> {
    collect(indices(inp.instruments@.len()), instrument_source(inp.policies@, inp.instruments@))
}

/// The watched currency pairs, in the order they are listed.
pub open spec fn pair_group(inp: MaintenanceInputs) -> Seq<(int, int)> {
    collect(indices(inp.pairs@.len()), pair_source(inp.policies@, inp.pairs@))
}

/// Where each freshness entry comes from, in order: the watched Account
/// values, cash balances, Instruments and currency pairs, tagged 0 to 3
/// with their index.
pub open spec fn freshness_sources(inp: MaintenanceInputs) -> Seq<(int, int)> {
    value_group(inp) + cash_group(inp) + instrument_group(inp) + pair_group(inp)
}

/// The freshness sources, then the due pending Activities (tagged 4).
pub open spec fn queue_sources(inp: MaintenanceInputs, pendings: nat) -> Seq<(int, int)> {
    freshness_sources(inp) + Seq::new(pendings, |k: int| (4int, k))
}

/// The label of a cash balance's entry: the Account's name and the currency.
pub open spec fn cash_label(accounts: Seq<MaintenanceAccount>, c: CashObservation) -> Seq<char> {
    accounts[first_index(account_ids(accounts), c.account_id@)->Some_0].name@ + " ("@ + c.currency@ + ")"@
}

/// The policy, target, label, observation and component currency of the
/// freshness entry a source gives.
pub open spec fn entry_facts(source: (int, int), inp: MaintenanceInputs) -> (
    FreshnessPolicyRecord,
    TargetView,
    Seq<char>,
    Option<Seq<char>>,
    Option<Seq<char>>,
) {
    let ps = inp.policies@;
    if source.0 == 0 {
        let a = inp.accounts@[source.1];
        let t = account_target(a.id@);
        (policy_for(ps, FreshnessPolicyKind::AccountValue, t)->Some_0, t, a.name@, value_date(inp.value_dates@, a.id@), None)
    } else if source.0 == 1 {
        let c = inp.cash@[source.1];
        let t = account_target(c.account_id@);
        (
            policy_for(ps, FreshnessPolicyKind::AccountCash, t)->Some_0,
            t,
            cash_label(inp.accounts@, c),
            Some(c.effective_at@),
            Some(c.currency@),
        )
    } else if source.0 == 2 {
        let ins = inp.instruments@[source.1];
        let t = instrument_target(ins.id@);
        (
            policy_for(ps, FreshnessPolicyKind::InstrumentQuote, t)->Some_0,
            t,
            ins.name@,
            latest_date(inp.instrument_latest@, ins.id@),
            None,
        )
    } else {
        let p = inp.pairs@[source.1];
        let t = pair_target(p.currency_a@, p.currency_b@);
        (policy_for(ps, FreshnessPolicyKind::FxQuote, t)->Some_0, t, pair_key(p), latest_date(inp.fx_latest@, pair_key(p)), None)
    }
}

/// Every watched target's entry can be made: its policy's interval and
/// kind and its observation day can be read.
pub open spec fn entries_readable(zone: Seq<char>, inp: MaintenanceInputs) -> bool {
    forall|k: int| 0 <= k < freshness_sources(inp).len() ==> {
        let f = entry_facts(#[trigger] freshness_sources(inp)[k], inp);
        freshness_item_ok(f.0, zone, f.3)
    }
}

/// Every stored snooze can be read.
pub open spec fn snoozes_valid(rows: Seq<MaintenanceSnoozeRecord>) -> bool {
    forall|i: int| 0 <= i < rows.len() ==> snooze_row_valid(#[trigger] rows[i])
}

/// The day as `YYYY-MM-DD`.
pub open spec fn day_text(day: CalendarDate) -> Seq<char> {
    ymd_text(civil(day.ordinal()).0, civil(day.ordinal()).1, civil(day.ordinal()).2)
}

/// The entry a source gives: a freshness entry from its facts, or the
/// entry of a due pending Activity.
pub open spec fn entry_ok(
    item: MaintenanceItemDto,
    source: (int, int),
    today: CalendarDate,
    zone: Seq<char>,
    inp: MaintenanceInputs,
    active: Seq<(TargetKey, String)>,
    pendings: Seq<PendingActivityDto>,
) -> bool {
    if source.0 == 4 {
        pending_entry(item, pendings[source.1], today)
    } else {
        let f = entry_facts(source, inp);
        freshness_item(item, today, zone, f.0, f.1, f.2, f.3, active, f.4)
    }
}

/// The items are, one for one, the entries of the sources.
pub open spec fn built(
    items: Seq<MaintenanceItemDto>,
    sources: Seq<(int, int)>,
    today: CalendarDate,
    zone: Seq<char>,
    inp: MaintenanceInputs,
    active: Seq<(TargetKey, String)>,
    pendings: Seq<PendingActivityDto>,
) -> bool {
    &&& items.len() == sources.len()
    &&& forall|k: int| 0 <= k < items.len() ==> entry_ok(#[trigger] items[k], sources[k], today, zone, inp, active, pendings)
}

/// The queue before ordering: the entries of all sources, with the snoozes
/// in force on the day.
pub open spec fn queue_built(
    items: Seq<MaintenanceItemDto>,
    today: CalendarDate,
    zone: Seq<char>,
    inp: MaintenanceInputs,
    pendings: Seq<PendingActivityDto>,
) -> bool {
    exists|active: Seq<(TargetKey, String)>|
        active_snoozes_spec(latest_snoozes(inp.snoozes@), day_text(today), active) && #[trigger] built(
            items,
            queue_sources(inp, pendings.len()),
            today,
            zone,
            inp,
            active,
            pendings,
        )
}

proof fn lemma_built_push(
    items: Seq<MaintenanceItemDto>,
    sources: Seq<(int, int)>,
    item: MaintenanceItemDto,
    source: (int, int),
    today: CalendarDate,
    zone: Seq<char>,
    inp: MaintenanceInputs,
    active: Seq<(TargetKey, String)>,
    pendings: Seq<PendingActivityDto>,
)
    requires
        built(items, sources, today, zone, inp, active, pendings),
        entry_ok(item, source, today, zone, inp, active, pendings),
    ensures
        built(items.push(item), sources.push(source), today, zone, inp, active, pendings),
{
    assert forall|k: int| 0 <= k < items.len() + 1 implies entry_ok(
        #[trigger] items.push(item)[k],
        sources.push(source)[k],
        today,
        zone,
        inp,
        active,
        pendings,
    ) by {
        if k < items.len() {
            assert(items.push(item)[k] == items[k]);
        }
    }
}

/// The entry the `k`-th item of a group gives stands, in the whole list,
/// right after what the earlier items of the group gave.
proof fn lemma_source_at(
    whole: Seq<(int, int)>,
    prior: Seq<(int, int)>,
    rest: Seq<(int, int)>,
    n: nat,
    k: int,
    f: spec_fn(int) -> Option<(int, int)>,
)
    requires
        whole == prior + collect(indices(n), f) + rest,
        0 <= k < n,
        f(k) is Some,
    ensures
        prior.len() + collect(indices(n).subrange(0, k), f).len() < prior.len() + collect(indices(n), f).len(),
        whole[(prior.len() + collect(indices(n).subrange(0, k), f).len()) as int] == f(k)->Some_0,
{
    lemma_collect_next(indices(n), k, f);
    lemma_collect_prefix(indices(n), k + 1, f);
    let short = collect(indices(n).subrange(0, k), f);
    let long = collect(indices(n).subrange(0, k + 1), f);
    assert(indices(n)[k] == k);
    assert(long[short.len() as int] == f(k)->Some_0);
    assert(long[short.len() as int] == collect(indices(n), f)[short.len() as int]);
}

proof fn lemma_unreadable(zone: Seq<char>, inp: MaintenanceInputs, idx: int)
    requires
        0 <= idx < freshness_sources(inp).len(),
        !({
            let f = entry_facts(freshness_sources(inp)[idx], inp);
            freshness_item_ok(f.0, zone, f.3)
        }),
    ensures
        !entries_readable(zone, inp),
{
}

fn find_first_account(accounts: &Vec<MaintenanceAccount>, id: &str) -> (found: Option<usize>)
    ensures
        match found {
            Some(i) => first_index(account_ids(accounts@), id@) == Some(i as int),
            None => first_index(account_ids(accounts@), id@) is None,
        },
{
    let ghost keys = account_ids(accounts@);
    let mut i: usize = 0;
    while i < accounts.len()
        invariant
            i <= accounts@.len(),
            keys == account_ids(accounts@),
            forall|j: int| 0 <= j < i ==> #[trigger] keys[j] != id@,
        decreases accounts@.len() - i,
    {
        if text_eq(accounts[i].id.as_str(), id) {
            proof {
                lemma_first_at(keys, i as int, id@);
            }
            return Some(i);
        }
        i = i + 1;
    }
    assert(!exists|i: int| first_at(keys, i, id@));
    None
}

fn find_value_date<'a>(dates: &'a Vec<(String, String)>, id: &str) -> (found: Option<&'a str>)
    ensures
        match found {
            Some(t) => value_date(dates@, id@) == Some(t@),
            None => value_date(dates@, id@) is None,
        },
{
    let ghost keys = dated_ids(dates@);
    let mut i: usize = 0;
    while i < dates.len()
        invariant
            i <= dates@.len(),
            keys == dated_ids(dates@),
            forall|j: int| 0 <= j < i ==> #[trigger] keys[j] != id@,
        decreases dates@.len() - i,
    {
        if text_eq(dates[i].0.as_str(), id) {
            proof {
                lemma_first_at(keys, i as int, id@);
            }
            return Some(dates[i].1.as_str());
        }
        i = i + 1;
    }
    assert(!exists|i: int| first_at(keys, i, id@));
    None
}

fn find_latest_date<'a>(latest: &'a Vec<LatestObservation>, key: &str) -> (found: Option<&'a str>)
    ensures
        match found {
            Some(t) => latest_date(latest@, key@) == Some(t@),
            None => latest_date(latest@, key@) is None,
        },
{
    let ghost keys = observed_keys(latest@);
    let mut i: usize = 0;
    while i < latest.len()
        invariant
            i <= latest@.len(),
            keys == observed_keys(latest@),
            forall|j: int| 0 <= j < i ==> #[trigger] keys[j] != key@,
        decreases latest@.len() - i,
    {
        if text_eq(latest[i].key.as_str(), key) {
            proof {
                lemma_first_at(keys, i as int, key@);
            }
            return Some(latest[i].quoted_at.as_str());
        }
        i = i + 1;
    }
    assert(!exists|i: int| first_at(keys, i, key@));
    None
}


/// Appends the entries of the watched Account values.
fn append_value_entries(
    items: &mut Vec<MaintenanceItemDto>,
    today: CalendarDate,
    timezone: &HistoryTimezone,
    inputs: &MaintenanceInputs,
    active: &[(TargetKey, String)],
    pendings: Ghost<Seq<PendingActivityDto>>,
) -> (done: Result<(), AppError>)
    requires
        built(old(items)@, Seq::empty(), today, timezone.zone_name(), *inputs, active@, pendings@),
    ensures
        done is Ok ==> built(final(items)@, value_group(*inputs), today, timezone.zone_name(), *inputs, active@, pendings@),
        done is Err ==> !entries_readable(timezone.zone_name(), *inputs),
{
    let ghost inp = *inputs;
    let ghost zone = timezone.zone_name();
    let ghost f = value_source(inputs.policies@, inputs.accounts@);
    let n = inputs.accounts.len();
    let mut k: usize = 0;
    while k < n
        invariant
            k <= n,
            n == inputs.accounts@.len(),
            inp == *inputs,
            zone == timezone.zone_name(),
            f == value_source(inputs.policies@, inputs.accounts@),
            built(items@, collect(indices(n as nat).subrange(0, k as int), f), today, zone, inp, active@, pendings@),
        decreases n - k,
    {
        proof {
            lemma_collect_next(indices(n as nat), k as int, f);
        }
        let account = &inputs.accounts[k];
        if text_eq(account.tracking_mode.as_str(), "balance") || text_eq(account.tracking_mode.as_str(), "manual_value") {
            let target = PolicyTarget {
                account_id: Some(account.id.clone()),
                instrument_id: None,
                currency_a: None,
                currency_b: None,
            };
            if let Some(policy) = enabled_policy(inputs.policies.as_slice(), FreshnessPolicyKind::AccountValue, &target) {
                let observed = find_value_date(&inputs.value_dates, account.id.as_str());
                let ghost before = items@;
                let appended = append_freshness_item(
                    items,
                    today,
                    timezone,
                    policy,
                    &target,
                    account.name.clone(),
                    observed,
                    active,
                    None,
                );
                if let Err(error) = appended {
                    proof {
                        let whole = freshness_sources(inp);
                        assert(whole =~= Seq::<(int, int)>::empty() + value_group(inp) + (cash_group(inp) + instrument_group(
                            inp,
                        ) + pair_group(inp)));
                        lemma_source_at(
                            whole,
                            Seq::empty(),
                            cash_group(inp) + instrument_group(inp) + pair_group(inp),
                            n as nat,
                            k as int,
                            f,
                        );
                        lemma_unreadable(zone, inp, collect(indices(n as nat).subrange(0, k as int), f).len() as int);
                    }
                    return Err(error);
                }
                proof {
                    lemma_built_push(
                        before,
                        collect(indices(n as nat).subrange(0, k as int), f),
                        items@[before.len() as int],
                        (0int, k as int),
                        today,
                        zone,
                        inp,
                        active@,
                        pendings@,
                    );
                    assert(items@ =~= before.push(items@[before.len() as int]));
                }
            }
        }
        k = k + 1;
    }
    proof {
        assert(indices(n as nat).subrange(0, n as int) =~= indices(n as nat));
    }
    Ok(())
}


/// Appends the entries of the watched cash balances.
fn append_cash_entries(
    items: &mut Vec<MaintenanceItemDto>,
    today: CalendarDate,
    timezone: &HistoryTimezone,
    inputs: &MaintenanceInputs,
    active: &[(TargetKey, String)],
    pendings: Ghost<Seq<PendingActivityDto>>,
) -> (done: Result<(), AppError>)
    requires
        built(old(items)@, value_group(*inputs), today, timezone.zone_name(), *inputs, active@, pendings@),
    ensures
        done is Ok ==> built(
            final(items)@,
            value_group(*inputs) + cash_group(*inputs),
            today,
            timezone.zone_name(),
            *inputs,
            active@,
            pendings@,
        ),
        done is Err ==> !entries_readable(timezone.zone_name(), *inputs),
{
    let ghost inp = *inputs;
    let ghost zone = timezone.zone_name();
    let ghost f = cash_source(inputs.policies@, inputs.accounts@, inputs.cash@);
    let ghost prior = value_group(inp);
    let n = inputs.cash.len();
    let mut k: usize = 0;
    proof {
        assert(prior + collect(indices(n as nat).subrange(0, 0), f) =~= prior);
    }
    while k < n
        invariant
            k <= n,
            n == inputs.cash@.len(),
            inp == *inputs,
            zone == timezone.zone_name(),
            f == cash_source(inputs.policies@, inputs.accounts@, inputs.cash@),
            prior == value_group(inp),
            built(items@, prior + collect(indices(n as nat).subrange(0, k as int), f), today, zone, inp, active@, pendings@),
        decreases n - k,
    {
        proof {
            lemma_collect_next(indices(n as nat), k as int, f);
        }
        let cash = &inputs.cash[k];
        if let Some(i) = find_first_account(&inputs.accounts, cash.account_id.as_str()) {
            let account = &inputs.accounts[i];
            if text_eq(account.tracking_mode.as_str(), "holdings") {
                let target = PolicyTarget {
                    account_id: Some(cash.account_id.clone()),
                    instrument_id: None,
                    currency_a: None,
                    currency_b: None,
                };
                if let Some(policy) = enabled_policy(inputs.policies.as_slice(), FreshnessPolicyKind::AccountCash, &target) {
                    let label = account.name.clone().concat(" (").concat(cash.currency.as_str()).concat(")");
                    let ghost before = items@;
                    let appended = append_freshness_item(
                        items,
                        today,
                        timezone,
                        policy,
                        &target,
                        label,
                        Some(cash.effective_at.as_str()),
                        active,
                        Some(cash.currency.clone()),
                    );
                    if let Err(error) = appended {
                        proof {
                            let whole = freshness_sources(inp);
                            assert(whole =~= prior + cash_group(inp) + (instrument_group(inp) + pair_group(inp)));
                            lemma_source_at(whole, prior, instrument_group(inp) + pair_group(inp), n as nat, k as int, f);
                            lemma_unreadable(
                                zone,
                                inp,
                                (prior.len() + collect(indices(n as nat).subrange(0, k as int), f).len()) as int,
                            );
                        }
                        return Err(error);
                    }
                    proof {
                        let short = prior + collect(indices(n as nat).subrange(0, k as int), f);
                        lemma_built_push(
                            before,
                            short,
                            items@[before.len() as int],
                            (1int, k as int),
                            today,
                            zone,
                            inp,
                            active@,
                            pendings@,
                        );
                        assert(items@ =~= before.push(items@[before.len() as int]));
                        assert(prior + collect(indices(n as nat).subrange(0, k + 1), f) =~= short.push((1int, k as int)));
                    }
                }
            }
        }
        k = k + 1;
    }
    proof {
        assert(indices(n as nat).subrange(0, n as int) =~= indices(n as nat));
    }
    Ok(())
}


/// Appends the entries of the watched Instruments.
fn append_instrument_entries(
    items: &mut Vec<MaintenanceItemDto>,
    today: CalendarDate,
    timezone: &HistoryTimezone,
    inputs: &MaintenanceInputs,
    active: &[(TargetKey, String)],
    pendings: Ghost<Seq<PendingActivityDto>>,
) -> (done: Result<(), AppError>)
    requires
        built(old(items)@, value_group(*inputs) + cash_group(*inputs), today, timezone.zone_name(), *inputs, active@, pendings@),
    ensures
        done is Ok ==> built(
            final(items)@,
            value_group(*inputs) + cash_group(*inputs) + instrument_group(*inputs),
            today,
            timezone.zone_name(),
            *inputs,
            active@,
            pendings@,
        ),
        done is Err ==> !entries_readable(timezone.zone_name(), *inputs),
{
    let ghost inp = *inputs;
    let ghost zone = timezone.zone_name();
    let ghost f = instrument_source(inputs.policies@, inputs.instruments@);
    let ghost prior = value_group(inp) + cash_group(inp);
    let n = inputs.instruments.len();
    let mut k: usize = 0;
    proof {
        assert(prior + collect(indices(n as nat).subrange(0, 0), f) =~= prior);
    }
    while k < n
        invariant
            k <= n,
            n == inputs.instruments@.len(),
            inp == *inputs,
            zone == timezone.zone_name(),
            f == instrument_source(inputs.policies@, inputs.instruments@),
            prior == value_group(inp) + cash_group(inp),
            built(items@, prior + collect(indices(n as nat).subrange(0, k as int), f), today, zone, inp, active@, pendings@),
        decreases n - k,
    {
        proof {
            lemma_collect_next(indices(n as nat), k as int, f);
        }
        let instrument = &inputs.instruments[k];
        if !instrument.archived && text_eq(instrument.quote_preference.as_str(), "manual") {
            let target = PolicyTarget {
                account_id: None,
                instrument_id: Some(instrument.id.clone()),
                currency_a: None,
                currency_b: None,
            };
            if let Some(policy) = enabled_policy(inputs.policies.as_slice(), FreshnessPolicyKind::InstrumentQuote, &target) {
                let observed = find_latest_date(&inputs.instrument_latest, instrument.id.as_str());
                let ghost before = items@;
                let appended = append_freshness_item(
                    items,
                    today,
                    timezone,
                    policy,
                    &target,
                    instrument.name.clone(),
                    observed,
                    active,
                    None,
                );
                if let Err(error) = appended {
                    proof {
                        let whole = freshness_sources(inp);
                        assert(whole =~= prior + instrument_group(inp) + pair_group(inp));
                        lemma_source_at(whole, prior, pair_group(inp), n as nat, k as int, f);
                        lemma_unreadable(
                            zone,
                            inp,
                            (prior.len() + collect(indices(n as nat).subrange(0, k as int), f).len()) as int,
                        );
                    }
                    return Err(error);
                }
                proof {
                    let short = prior + collect(indices(n as nat).subrange(0, k as int), f);
                    lemma_built_push(
                        before,
                        short,
                        items@[before.len() as int],
                        (2int, k as int),
                        today,
                        zone,
                        inp,
                        active@,
                        pendings@,
                    );
                    assert(items@ =~= before.push(items@[before.len() as int]));
                    assert(prior + collect(indices(n as nat).subrange(0, k + 1), f) =~= short.push((2int, k as int)));
                }
            }
        }
        k = k + 1;
    }
    proof {
        assert(indices(n as nat).subrange(0, n as int) =~= indices(n as nat));
    }
    Ok(())
}

/// Appends the entries of the watched currency pairs.
fn append_pair_entries(
    items: &mut Vec<MaintenanceItemDto>,
    today: CalendarDate,
    timezone: &HistoryTimezone,
    inputs: &MaintenanceInputs,
    active: &[(TargetKey, String)],
    pendings: Ghost<Seq<PendingActivityDto>>,
) -> (done: Result<(), AppError>)
    requires
        built(old(items)@, value_group(*inputs) + cash_group(*inputs) + instrument_group(*inputs), today, timezone.zone_name(), *inputs, active@, pendings@),
    ensures
        done is Ok ==> built(
            final(items)@,
            value_group(*inputs) + cash_group(*inputs) + instrument_group(*inputs) + pair_group(*inputs),
            today,
            timezone.zone_name(),
            *inputs,
            active@,
            pendings@,
        ),
        done is Err ==> !entries_readable(timezone.zone_name(), *inputs),
{
    let ghost inp = *inputs;
    let ghost zone = timezone.zone_name();
    let ghost f = pair_source(inputs.policies@, inputs.pairs@);
    let ghost prior = value_group(inp) + cash_group(inp) + instrument_group(inp);
    let n = inputs.pairs.len();
    let mut k: usize = 0;
    proof {
        assert(prior + collect(indices(n as nat).subrange(0, 0), f) =~= prior);
    }
    while k < n
        invariant
            k <= n,
            n == inputs.pairs@.len(),
            inp == *inputs,
            zone == timezone.zone_name(),
            f == pair_source(inputs.policies@, inputs.pairs@),
            prior == value_group(inp) + cash_group(inp) + instrument_group(inp),
            built(items@, prior + collect(indices(n as nat).subrange(0, k as int), f), today, zone, inp, active@, pendings@),
        decreases n - k,
    {
        proof {
            lemma_collect_next(indices(n as nat), k as int, f);
        }
        let pair = &inputs.pairs[k];
        if text_eq(pair.preference.as_str(), "manual") {
            let target = PolicyTarget {
                account_id: None,
                instrument_id: None,
                currency_a: Some(pair.currency_a.clone()),
                currency_b: Some(pair.currency_b.clone()),
            };
            if let Some(policy) = enabled_policy(inputs.policies.as_slice(), FreshnessPolicyKind::FxQuote, &target) {
                let key = pair.currency_a.clone().concat("/").concat(pair.currency_b.as_str());
                let observed = find_latest_date(&inputs.fx_latest, key.as_str());
                let ghost before = items@;
                let appended = append_freshness_item(
                    items,
                    today,
                    timezone,
                    policy,
                    &target,
                    key,
                    observed,
                    active,
                    None,
                );
                if let Err(error) = appended {
                    proof {
                        let whole = freshness_sources(inp);
                        assert(whole =~= prior + pair_group(inp) + Seq::<(int, int)>::empty());
                        lemma_source_at(whole, prior, Seq::<(int, int)>::empty(), n as nat, k as int, f);
                        lemma_unreadable(
                            zone,
                            inp,
                            (prior.len() + collect(indices(n as nat).subrange(0, k as int), f).len()) as int,
                        );
                    }
                    return Err(error);
                }
                proof {
                    let short = prior + collect(indices(n as nat).subrange(0, k as int), f);
                    lemma_built_push(
                        before,
                        short,
                        items@[before.len() as int],
                        (3int, k as int),
                        today,
                        zone,
                        inp,
                        active@,
                        pendings@,
                    );
                    assert(items@ =~= before.push(items@[before.len() as int]));
                    assert(prior + collect(indices(n as nat).subrange(0, k + 1), f) =~= short.push((3int, k as int)));
                }
            }
        }
        k = k + 1;
    }
    proof {
        assert(indices(n as nat).subrange(0, n as int) =~= indices(n as nat));
    }
    Ok(())
}


/// Every entry of a list collected by `f` carries the tag `g` when every
/// value `f` gives does.
proof fn lemma_collect_tag<T>(items: Seq<T>, f: spec_fn(T) -> Option<(int, int)>, g: int)
    requires
        forall|t: T| (#[trigger] f(t)) is Some ==> f(t)->Some_0.0 == g,
    ensures
        forall|k: int| 0 <= k < collect(items, f).len() ==> (#[trigger] collect(items, f)[k]).0 == g,
    decreases items.len(),
{
    if items.len() > 0 {
        lemma_collect_tag(items.drop_last(), f, g);
        let rest = collect(items.drop_last(), f);
        assert forall|k: int| 0 <= k < collect(items, f).len() implies (#[trigger] collect(items, f)[k]).0 == g by {
            if k < rest.len() {
                assert(rest[k].0 == g);
            } else {
                assert(f(items.last()) is Some);
            }
        }
    }
}

/// The freshness entries are those of tags 0 to 3.
proof fn lemma_freshness_tags(inp: MaintenanceInputs)
    ensures
        forall|k: int| 0 <= k < freshness_sources(inp).len() ==> 0 <= (#[trigger] freshness_sources(inp)[k]).0 <= 3,
{
    lemma_collect_tag(indices(inp.accounts@.len()), value_source(inp.policies@, inp.accounts@), 0);
    lemma_collect_tag(indices(inp.cash@.len()), cash_source(inp.policies@, inp.accounts@, inp.cash@), 1);
    lemma_collect_tag(indices(inp.instruments@.len()), instrument_source(inp.policies@, inp.instruments@), 2);
    lemma_collect_tag(indices(inp.pairs@.len()), pair_source(inp.policies@, inp.pairs@), 3);
    let a = value_group(inp);
    let b = cash_group(inp);
    let c = instrument_group(inp);
    let d = pair_group(inp);
    assert forall|k: int| 0 <= k < freshness_sources(inp).len() implies 0 <= (#[trigger] freshness_sources(inp)[k]).0
        <= 3 by {
        if k < a.len() {
            assert(a[k].0 == 0);
        } else if k < a.len() + b.len() {
            assert(b[k - a.len()].0 == 1);
        } else if k < a.len() + b.len() + c.len() {
            assert(c[k - a.len() - b.len()].0 == 2);
        } else {
            assert(d[k - a.len() - b.len() - c.len()].0 == 3);
        }
    }
}

/// The maintenance queue of `today`: an entry for every watched Account
/// value, cash balance, manually quoted Instrument and manually quoted
/// currency pair whose policy is enabled, then one for every due pending
/// Activity, in display order. A stored snooze or an entry that cannot be
/// read fails the whole queue.
pub fn maintenance_queue(
    today: CalendarDate,
    timezone: &HistoryTimezone,
    inputs: &MaintenanceInputs,
    pendings: Vec<PendingActivityDto>,
) -> (page: Result<MaintenancePageDto, AppError>)
    ensures
        page is Ok <==> snoozes_valid(inputs.snoozes@) && entries_readable(timezone.zone_name(), *inputs),
        page matches Ok(p) ==> {
            &&& p.local_date@ == day_text(today)
            &&& queue_sorted(p.items@)
            &&& exists|u: Seq<MaintenanceItemDto>| #[trigger]
                queue_built(u, today, timezone.zone_name(), *inputs, pendings@) && u.to_multiset()
                    == p.items@.to_multiset()
        },
{
    let ghost inp = *inputs;
    let ghost zone = timezone.zone_name();
    let ghost all_pendings = pendings@;
    let active = match active_snoozes(inputs.snoozes.as_slice(), today) {
        Ok(active) => active,
        Err(error) => return Err(error),
    };
    let mut items: Vec<MaintenanceItemDto> = Vec::new();
    if let Err(error) = append_value_entries(&mut items, today, timezone, inputs, active.as_slice(), Ghost(all_pendings)) {
        return Err(error);
    }
    if let Err(error) = append_cash_entries(&mut items, today, timezone, inputs, active.as_slice(), Ghost(all_pendings)) {
        return Err(error);
    }
    if let Err(error) = append_instrument_entries(
        &mut items,
        today,
        timezone,
        inputs,
        active.as_slice(),
        Ghost(all_pendings),
    ) {
        return Err(error);
    }
    if let Err(error) = append_pair_entries(&mut items, today, timezone, inputs, active.as_slice(), Ghost(all_pendings)) {
        return Err(error);
    }
    let ghost fresh = freshness_sources(inp);
    proof {
        lemma_freshness_tags(inp);
        assert forall|k: int| 0 <= k < fresh.len() implies {
            let f = entry_facts(#[trigger] fresh[k], inp);
            freshness_item_ok(f.0, zone, f.3)
        } by {
            assert(entry_ok(items@[k], fresh[k], today, zone, inp, active@, all_pendings));
        }
        assert(fresh + Seq::new(0, |x: int| (4int, x)) =~= fresh);
    }
    let np = pendings.len();
    let mut remaining = pendings;
    let mut j: usize = 0;
    while j < np
        invariant
            j <= np,
            np == all_pendings.len(),
            remaining@ == all_pendings.subrange(j as int, np as int),
            inp == *inputs,
            zone == timezone.zone_name(),
            fresh == freshness_sources(inp),
            built(items@, fresh + Seq::new(j as nat, |x: int| (4int, x)), today, zone, inp, active@, all_pendings),
        decreases np - j,
    {
        let pending = remaining.remove(0);
        proof {
            assert(remaining@ =~= all_pendings.subrange(j + 1, np as int));
        }
        let item = pending_maintenance_item(pending, today);
        let ghost before = items@;
        items.push(item);
        proof {
            lemma_built_push(
                before,
                fresh + Seq::new(j as nat, |x: int| (4int, x)),
                item,
                (4int, j as int),
                today,
                zone,
                inp,
                active@,
                all_pendings,
            );
            assert(fresh + Seq::new((j + 1) as nat, |x: int| (4int, x)) =~= (fresh + Seq::new(
                j as nat,
                |x: int| (4int, x),
            )).push((4int, j as int)));
        }
        j = j + 1;
    }
    let ghost unsorted = items@;
    proof {
        assert(fresh + Seq::new(np as nat, |x: int| (4int, x)) =~= queue_sources(inp, all_pendings.len()));
        assert(built(unsorted, queue_sources(inp, all_pendings.len()), today, zone, inp, active@, all_pendings));
        assert(queue_built(unsorted, today, zone, inp, all_pendings));
    }
    let sorted = sort_maintenance_items(items);
    Ok(MaintenancePageDto { local_date: today.to_ymd(), items: sorted })
}


/// Collecting over the first `n` indices, where `f` marks index `k` as
/// `(g, k)` or not at all, lists exactly the marked indices, each once, in
/// increasing order.
proof fn lemma_marks(n: nat, f: spec_fn(int) -> Option<(int, int)>, g: int)
    requires
        forall|k: int| (#[trigger] f(k)) is Some ==> f(k)->Some_0 == (g, k),
    ensures
        forall|k: int| 0 <= k < n ==> (f(k) is Some <==> #[trigger] collect(indices(n), f).contains((g, k))),
        forall|i: int, j: int|
            0 <= i < j < collect(indices(n), f).len() ==> (#[trigger] collect(indices(n), f)[i]).1 < (#[trigger] collect(
                indices(n),
                f,
            )[j]).1,
        forall|i: int|
            0 <= i < collect(indices(n), f).len() ==> (#[trigger] collect(indices(n), f)[i]).0 == g && 0 <= collect(
                indices(n),
                f,
            )[i].1 < n,
    decreases n,
{
    if n > 0 {
        let m = (n - 1) as nat;
        lemma_marks(m, f, g);
        assert(indices(n).drop_last() =~= indices(m));
        assert(indices(n).last() == m);
        let rest = collect(indices(m), f);
        let all = collect(indices(n), f);
        assert(all == match f(m as int) {
            Some(u) => rest.push(u),
            None => rest,
        });
        assert forall|k: int| 0 <= k < n implies (f(k) is Some <==> #[trigger] all.contains((g, k))) by {
            if k < m {
                if all.contains((g, k)) {
                    let i = choose|i: int| 0 <= i < all.len() && all[i] == (g, k);
                    if i < rest.len() {
                        assert(rest[i] == all[i]);
                        assert(rest.contains((g, k)));
                    }
                }
                if rest.contains((g, k)) {
                    let i = choose|i: int| 0 <= i < rest.len() && rest[i] == (g, k);
                    assert(all[i] == rest[i]);
                }
            } else {
                if f(k) is Some {
                    assert(all[all.len() - 1] == (g, k));
                }
                if all.contains((g, k)) {
                    let i = choose|i: int| 0 <= i < all.len() && all[i] == (g, k);
                    if i < rest.len() {
                        assert(rest[i] == all[i]);
                    }
                }
            }
        }
    }
}

/// Which targets get a freshness entry, stated by what each one is: an
/// Account kept by balance or by manual value whose value policy is
/// enabled; a cash balance of a listed Account kept by holdings whose cash
/// policy is enabled; an Instrument not archived, quoted manually, whose
/// quote policy is enabled; a currency pair quoted manually whose FX policy
/// is enabled. Each gets exactly one entry.
pub proof fn law_watched_targets_get_one_entry(inp: MaintenanceInputs)
    ensures
        forall|k: int| 0 <= k < inp.accounts@.len() ==> (#[trigger] freshness_sources(inp).contains((0int, k)) <==> {
            let a = inp.accounts@[k];
            &&& (a.tracking_mode@ == "balance"@ || a.tracking_mode@ == "manual_value"@)
            &&& policy_for(inp.policies@, FreshnessPolicyKind::AccountValue, (Some(a.id@), None, None, None)) is Some
        }),
        forall|k: int| 0 <= k < inp.cash@.len() ==> (#[trigger] freshness_sources(inp).contains((1int, k)) <==> {
            let c = inp.cash@[k];
            &&& exists|i: int| #[trigger] first_at(account_ids(inp.accounts@), i, c.account_id@)
                && inp.accounts@[i].tracking_mode@ == "holdings"@
            &&& policy_for(inp.policies@, FreshnessPolicyKind::AccountCash, (Some(c.account_id@), None, None, None)) is Some
        }),
        forall|k: int| 0 <= k < inp.instruments@.len() ==> (#[trigger] freshness_sources(inp).contains((2int, k)) <==> {
            let ins = inp.instruments@[k];
            &&& !ins.archived && ins.quote_preference@ == "manual"@
            &&& policy_for(inp.policies@, FreshnessPolicyKind::InstrumentQuote, (None, Some(ins.id@), None, None)) is Some
        }),
        forall|k: int| 0 <= k < inp.pairs@.len() ==> (#[trigger] freshness_sources(inp).contains((3int, k)) <==> {
            let p = inp.pairs@[k];
            &&& p.preference@ == "manual"@
            &&& policy_for(
                inp.policies@,
                FreshnessPolicyKind::FxQuote,
                (None, None, Some(p.currency_a@), Some(p.currency_b@)),
            ) is Some
        }),
        forall|i: int, j: int|
            0 <= i < j < freshness_sources(inp).len() ==> #[trigger] freshness_sources(inp)[i] != #[trigger] freshness_sources(
                inp,
            )[j],
{
    let ps = inp.policies@;
    lemma_marks(inp.accounts@.len(), value_source(ps, inp.accounts@), 0);
    lemma_marks(inp.cash@.len(), cash_source(ps, inp.accounts@, inp.cash@), 1);
    lemma_marks(inp.instruments@.len(), instrument_source(ps, inp.instruments@), 2);
    lemma_marks(inp.pairs@.len(), pair_source(ps, inp.pairs@), 3);
    let a = value_group(inp);
    let b = cash_group(inp);
    let c = instrument_group(inp);
    let d = pair_group(inp);
    let all = freshness_sources(inp);
    assert forall|x: (int, int)| #[trigger] all.contains(x) <==> (a.contains(x) || b.contains(x) || c.contains(x)
        || d.contains(x)) by {
        if all.contains(x) {
            let i = choose|i: int| 0 <= i < all.len() && all[i] == x;
            if i < a.len() {
                assert(a[i] == x);
            } else if i < a.len() + b.len() {
                assert(b[i - a.len()] == x);
            } else if i < a.len() + b.len() + c.len() {
                assert(c[i - a.len() - b.len()] == x);
            } else {
                assert(d[i - a.len() - b.len() - c.len()] == x);
            }
        }
        if a.contains(x) {
            let i = choose|i: int| 0 <= i < a.len() && a[i] == x;
            assert(all[i] == x);
        }
        if b.contains(x) {
            let i = choose|i: int| 0 <= i < b.len() && b[i] == x;
            assert(all[i + a.len()] == x);
        }
        if c.contains(x) {
            let i = choose|i: int| 0 <= i < c.len() && c[i] == x;
            assert(all[i + a.len() + b.len()] == x);
        }
        if d.contains(x) {
            let i = choose|i: int| 0 <= i < d.len() && d[i] == x;
            assert(all[i + a.len() + b.len() + c.len()] == x);
        }
    }
    assert forall|k: int| 0 <= k < inp.cash@.len() implies (#[trigger] all.contains((1int, k)) <==> {
        let cs = inp.cash@[k];
        &&& exists|i: int| #[trigger] first_at(account_ids(inp.accounts@), i, cs.account_id@)
            && inp.accounts@[i].tracking_mode@ == "holdings"@
        &&& policy_for(ps, FreshnessPolicyKind::AccountCash, (Some(cs.account_id@), None, None, None)) is Some
    }) by {
        let cs = inp.cash@[k];
        let keys = account_ids(inp.accounts@);
        if exists|i: int| first_at(keys, i, cs.account_id@) {
            let i = choose|i: int| first_at(keys, i, cs.account_id@);
            lemma_first_at(keys, i, cs.account_id@);
            assert forall|j: int| first_at(keys, j, cs.account_id@) implies j == i by {
                lemma_first_at(keys, j, cs.account_id@);
            }
        }
        assert(!a.contains((1int, k)));
        assert(!c.contains((1int, k)));
        assert(!d.contains((1int, k)));
    }
    assert forall|i: int, j: int| 0 <= i < j < all.len() implies #[trigger] all[i] != #[trigger] all[j] by {
        let la = a.len() as int;
        let lb = b.len() as int;
        let lc = c.len() as int;
        if j < la {
            assert(a[i].1 < a[j].1);
        } else if j < la + lb {
            if i >= la {
                assert(b[i - la].1 < b[j - la].1);
            } else {
                assert(a[i].0 != b[j - la].0);
            }
        } else if j < la + lb + lc {
            if i >= la + lb {
                assert(c[i - la - lb].1 < c[j - la - lb].1);
            } else if i >= la {
                assert(b[i - la].0 != c[j - la - lb].0);
            } else {
                assert(a[i].0 != c[j - la - lb].0);
            }
        } else {
            if i >= la + lb + lc {
                assert(d[i - la - lb - lc].1 < d[j - la - lb - lc].1);
            } else if i >= la + lb {
                assert(c[i - la - lb].0 != d[j - la - lb - lc].0);
            } else if i >= la {
                assert(b[i - la].0 != d[j - la - lb - lc].0);
            } else {
                assert(a[i].0 != d[j - la - lb - lc].0);
            }
        }
    }
}


/// What each freshness entry is made of. An Account value's entry is
/// labelled with the Account's name and observed when its value was last
/// stated; a cash balance's with the Account's name and the currency in
/// brackets, observed when the balance was stated, for that currency; an
/// Instrument's with its name, observed at its latest manual quote; a
/// pair's as `A/B`, observed at the latest manual quote of that pair. Each
/// is governed by the policy of its kind for its own target.
pub proof fn law_entry_labels_and_observations(inp: MaintenanceInputs, k: int)
    ensures
        0 <= k < inp.accounts@.len() ==> ({
            let a = inp.accounts@[k];
            let target = (Some(a.id@), None, None, None);
            entry_facts((0int, k), inp) == (
                policy_for(inp.policies@, FreshnessPolicyKind::AccountValue, target)->Some_0,
                target,
                a.name@,
                value_date(inp.value_dates@, a.id@),
                None::<Seq<char>>,
            )
        }),
        0 <= k < inp.cash@.len() ==> (first_index(account_ids(inp.accounts@), inp.cash@[k].account_id@) matches Some(i)
            ==> {
            let c = inp.cash@[k];
            let target = (Some(c.account_id@), None, None, None);
            entry_facts((1int, k), inp) == (
                policy_for(inp.policies@, FreshnessPolicyKind::AccountCash, target)->Some_0,
                target,
                inp.accounts@[i].name@ + " ("@ + c.currency@ + ")"@,
                Some(c.effective_at@),
                Some(c.currency@),
            )
        }),
        0 <= k < inp.instruments@.len() ==> ({
            let ins = inp.instruments@[k];
            let target = (None, Some(ins.id@), None, None);
            entry_facts((2int, k), inp) == (
                policy_for(inp.policies@, FreshnessPolicyKind::InstrumentQuote, target)->Some_0,
                target,
                ins.name@,
                latest_date(inp.instrument_latest@, ins.id@),
                None::<Seq<char>>,
            )
        }),
        0 <= k < inp.pairs@.len() ==> ({
            let p = inp.pairs@[k];
            let target = (None, None, Some(p.currency_a@), Some(p.currency_b@));
            let key = p.currency_a@ + "/"@ + p.currency_b@;
            entry_facts((3int, k), inp) == (
                policy_for(inp.policies@, FreshnessPolicyKind::FxQuote, target)->Some_0,
                target,
                key,
                latest_date(inp.fx_latest@, key),
                None::<Seq<char>>,
            )
        }),
{
}

} // verus!
