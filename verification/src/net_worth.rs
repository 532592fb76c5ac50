//! The household overview: assets, liabilities and net worth of the
//! Accounts counted in net worth, split by category, Member, institution and
//! group.

use vstd::prelude::*;

use crate::accounts::{category_named, category_text, AccountRecordDto, PrimaryCategory, UnvaluedItemDto};
use crate::allocation::{
    allocate_share_bps, bps_quotient, floors_fit, raw_share, raw_shares, raw_shares_computed, rounded_share, share_bps,
    share_of,
};
use crate::amount::{
    canonical_text, decimal_checked_product, decimal_checked_quotient, decimal_checked_sum, DecimalValue, MoneyDto,
};
use crate::currency::{is_currency_code, CurrencyCode};
use crate::error::{is_validation_of, AppError};
use crate::institutions::InstitutionRecordDto;
use crate::keyed_sums::{
    add_to_key, all_keys_fit, collect, flat_collect, lemma_collect_next, lemma_flat_collect_next,
    lemma_flat_overflow_persists, lemma_no_entries, lemma_overflow_extends, lemma_overflow_persists,
    lemma_running_sum_push, lemma_values_for_push, running_sum, seed_key, seeded_totals, totals_by_key,
    values_for,
};
use crate::members::MemberRecordDto;
use crate::overview::BreakdownRowDto;
use crate::portfolio::item_view;
use crate::text::{opt_view, text_eq};

verus! {

/// A group of Accounts, as the overview lists it.
#[derive(Debug, Clone)]
pub struct GroupRecordDto {
    pub id: String,
    pub name: String,
}

/// The overview as the interface shows it.
#[derive(Debug, Clone)]
pub struct OverviewDto {
    pub base_currency: String,
    pub account_count: i32,
    pub assets: MoneyDto,
    pub liabilities: MoneyDto,
    pub net_worth: MoneyDto,
    pub by_category: Vec<BreakdownRowDto>,
    pub by_member: Vec<BreakdownRowDto>,
    pub by_institution: Vec<BreakdownRowDto>,
    pub by_group: Vec<BreakdownRowDto>,
    pub is_complete: bool,
    pub unvalued_items: Vec<UnvaluedItemDto>,
}

/// An Account counted in net worth whose category is known.
pub open spec fn counted_in_net_worth(a: AccountRecordDto) -> bool {
    a.include_in_net_worth && category_named(a.primary_category@) is Some
}

/// A liability.
pub open spec fn is_liability(a: AccountRecordDto) -> bool {
    category_named(a.primary_category@) == Some(PrimaryCategory::Liability)
}

/// The Account's value in the base currency, zero when none was computed.
pub open spec fn value_of(a: AccountRecordDto) -> (i128, u32) {
    match a.valuation.base {
        Some(v) => v@,
        None => (0i128, 0u32),
    }
}

/// The value with a liability's sign turned negative.
pub open spec fn signed_value_of(a: AccountRecordDto) -> (i128, u32) {
    if is_liability(a) {
        ((-value_of(a).0) as i128, value_of(a).1)
    } else {
        value_of(a)
    }
}

/// The value of each counted asset, under one key.
pub open spec fn asset_entry() -> spec_fn(AccountRecordDto) -> Option<(Seq<char>, (i128, u32))> {
    |a: AccountRecordDto|
        if counted_in_net_worth(a) && !is_liability(a) {
            Some((Seq::<char>::empty(), value_of(a)))
        } else {
            None
        }
}

/// The value of each counted liability, under one key.
pub open spec fn liability_entry() -> spec_fn(AccountRecordDto) -> Option<(Seq<char>, (i128, u32))> {
    |a: AccountRecordDto|
        if counted_in_net_worth(a) && is_liability(a) {
            Some((Seq::<char>::empty(), value_of(a)))
        } else {
            None
        }
}

/// The value of each counted asset under its category's name.
pub open spec fn category_entry() -> spec_fn(AccountRecordDto) -> Option<(Seq<char>, (i128, u32))> {
    |a: AccountRecordDto|
        if counted_in_net_worth(a) && !is_liability(a) {
            Some((category_text(category_named(a.primary_category@)->Some_0), value_of(a)))
        } else {
            None
        }
}

/// The institution's id, or for `group` the group's id.
pub open spec fn bucket_of(a: AccountRecordDto, group: bool) -> Option<String> {
    if group {
        a.group_id
    } else {
        a.institution_id
    }
}

/// What an Account files under its institution (or group): its value when
/// it is an asset and `assets_only`, its signed value otherwise. With
/// `assigned` the entries of Accounts that name one, under its id; without,
/// those of Accounts that name none.
pub open spec fn bucket_entry(assets_only: bool, group: bool, assigned: bool) -> spec_fn(AccountRecordDto) -> Option<(Seq<char>, (i128, u32))> {
    |a: AccountRecordDto|
        if counted_in_net_worth(a) && !(assets_only && is_liability(a)) {
            let v = if assets_only { value_of(a) } else { signed_value_of(a) };
            match bucket_of(a, group) {
                Some(k) => if assigned { Some((k@, v)) } else { None },
                None => if assigned { None } else { Some((Seq::<char>::empty(), v)) },
            }
        } else {
            None
        }
}

/// An owner's part of a value: `value × share_bps / 10000`, as
/// `rust_decimal` multiplies and divides; `None` where either step fails.
pub open spec fn owner_part(value: (i128, u32), bps: i32) -> Option<(i128, u32)> {
    match decimal_checked_product(value.0, value.1, bps as i128, 0u32) {
        Some(p) => decimal_checked_quotient(p.0, p.1, 10_000i128, 0u32),
        None => None,
    }
}

/// What each owner of a counted Account files under their Member id: their
/// part of the signed value, or with `assets_only` their part of an asset's
/// value.
pub open spec fn owner_entries(assets_only: bool) -> spec_fn(AccountRecordDto) -> Seq<(Seq<char>, (i128, u32))> {
    |a: AccountRecordDto|
        if counted_in_net_worth(a) && !(assets_only && is_liability(a)) {
            Seq::new(
                a.owners@.len(),
                |j: int|
                    (
                        a.owners@[j].member_id@,
                        owner_part(if assets_only { value_of(a) } else { signed_value_of(a) }, a.owners@[j].share_bps)->Some_0,
                    ),
            )
        } else {
            Seq::empty()
        }
}

/// Every owner's parts of the Account can be computed.
pub open spec fn owner_parts_fit_for(a: AccountRecordDto) -> bool {
    forall|j: int|
        0 <= j < a.owners@.len() ==> owner_part(signed_value_of(a), (#[trigger] a.owners@[j]).share_bps) is Some && (
        !is_liability(a) ==> owner_part(value_of(a), a.owners@[j].share_bps) is Some)
}

/// Every owner's parts of the counted Accounts can be computed.
pub open spec fn owner_parts_fit(accounts: Seq<AccountRecordDto>) -> bool {
    forall|i: int| 0 <= i < accounts.len() && counted_in_net_worth(accounts[i]) ==> owner_parts_fit_for(
        #[trigger] accounts[i],
    )
}

/// Every Account counted in net worth has a known category.
pub open spec fn categories_known(accounts: Seq<AccountRecordDto>) -> bool {
    forall|i: int| 0 <= i < accounts.len() && (#[trigger] accounts[i]).include_in_net_worth ==> category_named(
        accounts[i].primary_category@,
    ) is Some
}

/// The unvalued items of each Account counted in net worth that was not
/// fully valued.
pub open spec fn unvalued_of() -> spec_fn(AccountRecordDto) -> Seq<(Seq<char>, Seq<char>, Seq<char>, Seq<char>)> {
    |a: AccountRecordDto|
        if a.include_in_net_worth && !a.valuation.complete {
            Seq::new(a.valuation.unvalued_items@.len(), |k: int| item_view(a.valuation.unvalued_items@[k]))
        } else {
            Seq::empty()
        }
}

/// Marks each Account counted in net worth that was not fully valued.
pub open spec fn incomplete() -> spec_fn(AccountRecordDto) -> Option<()> {
    |a: AccountRecordDto| if a.include_in_net_worth && !a.valuation.complete { Some(()) } else { None }
}

/// The ids of the Members that are not archived.
pub open spec fn active_member_ids(members: Seq<MemberRecordDto>) -> Set<Seq<char>> {
    Set::new(|k: Seq<char>| exists|m: int| 0 <= m < members.len() && (#[trigger] members[m]).archived_at is None && members[m].id@ == k)
}

/// A sum over a sequence of entries under one key.
pub open spec fn sum_of(entries: Seq<(Seq<char>, (i128, u32))>, key: Seq<char>) -> (i128, u32) {
    running_sum(values_for(entries, key))->Some_0
}

/// Total assets.
pub open spec fn assets_total(accounts: Seq<AccountRecordDto>) -> (i128, u32) {
    sum_of(collect(accounts, asset_entry()), Seq::empty())
}

/// Total liabilities.
pub open spec fn liabilities_total(accounts: Seq<AccountRecordDto>) -> (i128, u32) {
    sum_of(collect(accounts, liability_entry()), Seq::empty())
}

/// Every sum the overview takes stays within range.
pub open spec fn overview_sums_fit(accounts: Seq<AccountRecordDto>) -> bool {
    &&& running_sum(values_for(collect(accounts, asset_entry()), Seq::empty())) is Some
    &&& running_sum(values_for(collect(accounts, liability_entry()), Seq::empty())) is Some
    &&& all_keys_fit(collect(accounts, category_entry()))
    &&& forall|assets_only: bool, group: bool, assigned: bool| all_keys_fit(
        #[trigger] collect(accounts, bucket_entry(assets_only, group, assigned)),
    )
    &&& owner_parts_fit(accounts)
    &&& all_keys_fit(flat_collect(accounts, owner_entries(false)))
    &&& all_keys_fit(flat_collect(accounts, owner_entries(true)))
}

/// The running sums of the first Accounts, held while they are read.
struct Sums {
    assets: DecimalValue,
    liabilities: DecimalValue,
    categories: Vec<(String, DecimalValue)>,
    institution_assets: Vec<(String, DecimalValue)>,
    institution_net: Vec<(String, DecimalValue)>,
    unassigned_institution_assets: DecimalValue,
    unassigned_institution_net: DecimalValue,
    group_assets: Vec<(String, DecimalValue)>,
    group_net: Vec<(String, DecimalValue)>,
    unassigned_group_assets: DecimalValue,
    unassigned_group_net: DecimalValue,
    member_net: Vec<(String, DecimalValue)>,
    member_assets: Vec<(String, DecimalValue)>,
    complete: bool,
    unvalued: Vec<UnvaluedItemDto>,
}

/// The sums hold for the Accounts read so far.
spec fn sums_hold(s: Sums, accounts: Seq<AccountRecordDto>, seeds: Set<Seq<char>>) -> bool {
    &&& running_sum(values_for(collect(accounts, asset_entry()), Seq::empty())) == Some(s.assets@)
    &&& running_sum(values_for(collect(accounts, liability_entry()), Seq::empty())) == Some(s.liabilities@)
    &&& totals_by_key(s.categories@, collect(accounts, category_entry()))
    &&& all_keys_fit(collect(accounts, category_entry()))
    &&& totals_by_key(s.institution_assets@, collect(accounts, bucket_entry(true, false, true)))
    &&& totals_by_key(s.institution_net@, collect(accounts, bucket_entry(false, false, true)))
    &&& totals_by_key(s.group_assets@, collect(accounts, bucket_entry(true, true, true)))
    &&& totals_by_key(s.group_net@, collect(accounts, bucket_entry(false, true, true)))
    &&& running_sum(values_for(collect(accounts, bucket_entry(true, false, false)), Seq::empty())) == Some(
        s.unassigned_institution_assets@,
    )
    &&& running_sum(values_for(collect(accounts, bucket_entry(false, false, false)), Seq::empty())) == Some(
        s.unassigned_institution_net@,
    )
    &&& running_sum(values_for(collect(accounts, bucket_entry(true, true, false)), Seq::empty())) == Some(
        s.unassigned_group_assets@,
    )
    &&& running_sum(values_for(collect(accounts, bucket_entry(false, true, false)), Seq::empty())) == Some(
        s.unassigned_group_net@,
    )
    &&& forall|assets_only: bool, group: bool, assigned: bool| all_keys_fit(
        #[trigger] collect(accounts, bucket_entry(assets_only, group, assigned)),
    )
    &&& seeded_totals(s.member_net@, seeds, flat_collect(accounts, owner_entries(false)))
    &&& seeded_totals(s.member_assets@, seeds, flat_collect(accounts, owner_entries(true)))
    &&& all_keys_fit(flat_collect(accounts, owner_entries(false)))
    &&& all_keys_fit(flat_collect(accounts, owner_entries(true)))
    &&& owner_parts_fit(accounts)
    &&& categories_known(accounts)
    &&& s.complete == (collect(accounts, incomplete()).len() == 0)
    &&& s.unvalued@.len() == flat_collect(accounts, unvalued_of()).len()
    &&& forall|k: int| 0 <= k < s.unvalued@.len() ==> item_view(#[trigger] s.unvalued@[k]) == flat_collect(
        accounts,
        unvalued_of(),
    )[k]
}

/// Files a value under an optional key: under the key in `keyed`, or into
/// `loose` when there is none. `DecimalOverflow` when the sum leaves the range.
fn file_optional(
    keyed: &mut Vec<(String, DecimalValue)>,
    loose: &mut DecimalValue,
    key: &Option<String>,
    value: DecimalValue,
    Ghost(assigned): Ghost<Seq<(Seq<char>, (i128, u32))>>,
    Ghost(unassigned): Ghost<Seq<(Seq<char>, (i128, u32))>>,
) -> (filed: Result<(), AppError>)
    requires
        totals_by_key(old(keyed)@, assigned),
        all_keys_fit(assigned),
        running_sum(values_for(unassigned, Seq::empty())) == Some(old(loose)@),
        forall|k: Seq<char>| #[trigger] running_sum(values_for(unassigned, k)) is Some,
    ensures
        filed is Ok ==> match key {
            Some(k) => totals_by_key(final(keyed)@, assigned.push((k@, value@))) && all_keys_fit(
                assigned.push((k@, value@)),
            ) && final(loose)@ == old(loose)@,
            None => final(keyed)@ == old(keyed)@ && running_sum(values_for(unassigned.push((Seq::empty(), value@)), Seq::empty()))
                == Some(final(loose)@) && forall|k: Seq<char>| #[trigger] running_sum(
                values_for(unassigned.push((Seq::empty(), value@)), k),
            ) is Some,
        },
        filed matches Err(e) ==> e is DecimalOverflow && match key {
            Some(k) => running_sum(values_for(assigned.push((k@, value@)), k@)) is None,
            None => running_sum(values_for(unassigned.push((Seq::empty(), value@)), Seq::empty())) is None,
        },
{
    match key {
        Some(k) => add_to_key(keyed, k, value, Ghost(Set::empty()), Ghost(assigned)),
        None => {
            let ghost next = unassigned.push((Seq::<char>::empty(), value@));
            proof {
                lemma_values_for_push(unassigned, (Seq::<char>::empty(), value@), Seq::<char>::empty());
                lemma_running_sum_push(values_for(unassigned, Seq::<char>::empty()), value@);
            }
            match loose.checked_add(&value) {
                Some(sum) => {
                    *loose = sum;
                    proof {
                        assert forall|k: Seq<char>| #[trigger] running_sum(values_for(next, k)) is Some by {
                            lemma_values_for_push(unassigned, (Seq::<char>::empty(), value@), k);
                        }
                    }
                    Ok(())
                },
                None => Err(AppError::DecimalOverflow),
            }
        },
    }
}

/// Files each owner's parts of a counted Account under their Member id.
fn file_owner_parts(
    net: &mut Vec<(String, DecimalValue)>,
    assets: &mut Vec<(String, DecimalValue)>,
    account: &AccountRecordDto,
    value: DecimalValue,
    signed: DecimalValue,
    liability: bool,
    Ghost(seeds): Ghost<Set<Seq<char>>>,
    Ghost(net_before): Ghost<Seq<(Seq<char>, (i128, u32))>>,
    Ghost(assets_before): Ghost<Seq<(Seq<char>, (i128, u32))>>,
) -> (filed: Result<(), AppError>)
    requires
        seeded_totals(old(net)@, seeds, net_before),
        seeded_totals(old(assets)@, seeds, assets_before),
        all_keys_fit(net_before),
        all_keys_fit(assets_before),
        counted_in_net_worth(*account),
        value@ == value_of(*account),
        signed@ == signed_value_of(*account),
        liability == is_liability(*account),
    ensures
        filed is Ok ==> {
            &&& owner_parts_fit_for(*account)
            &&& seeded_totals(final(net)@, seeds, net_before + owner_entries(false)(*account))
            &&& seeded_totals(final(assets)@, seeds, assets_before + owner_entries(true)(*account))
            &&& all_keys_fit(net_before + owner_entries(false)(*account))
            &&& all_keys_fit(assets_before + owner_entries(true)(*account))
        },
        filed matches Err(e) ==> e is DecimalOverflow && (!owner_parts_fit_for(*account) || !all_keys_fit(
            net_before + owner_entries(false)(*account),
        ) || !all_keys_fit(assets_before + owner_entries(true)(*account))),
{
    let ghost net_all = owner_entries(false)(*account);
    let ghost assets_all = owner_entries(true)(*account);
    let ten_thousand = DecimalValue::from_parts(10_000, 0);
    let mut j: usize = 0;
    proof {
        assert(net_before + net_all.take(0) =~= net_before);
        assert(assets_before + assets_all.take(0) =~= assets_before);
    }
    while j < account.owners.len()
        invariant
            j <= account.owners@.len(),
            net_all == owner_entries(false)(*account),
            assets_all == owner_entries(true)(*account),
            net_all.len() == account.owners@.len(),
            liability ==> assets_all.len() == 0,
            !liability ==> assets_all.len() == account.owners@.len(),
            counted_in_net_worth(*account),
            value@ == value_of(*account),
            signed@ == signed_value_of(*account),
            liability == is_liability(*account),
            ten_thousand@ == (10_000i128, 0u32),
            forall|x: int| 0 <= x < j ==> owner_part(signed_value_of(*account), (#[trigger] account.owners@[x]).share_bps) is Some
                && (!liability ==> owner_part(value_of(*account), account.owners@[x].share_bps) is Some),
            seeded_totals(net@, seeds, net_before + net_all.take(j as int)),
            all_keys_fit(net_before + net_all.take(j as int)),
            seeded_totals(assets@, seeds, assets_before + (if liability { assets_all } else { assets_all.take(j as int) })),
            all_keys_fit(assets_before + (if liability { assets_all } else { assets_all.take(j as int) })),
        decreases account.owners@.len() - j,
    {
        let owner = &account.owners[j];
        let bps = DecimalValue::from_parts(owner.share_bps as i128, 0);
        let net_part = match signed.checked_mul(&bps) {
            Some(product) => product.checked_div(&ten_thousand),
            None => None,
        };
        let net_part = match net_part {
            Some(part) => part,
            None => {
                assert(!owner_parts_fit_for(*account)) by {
                    assert(account.owners@[j as int] == *owner);
                }
                return Err(AppError::DecimalOverflow);
            },
        };
        let ghost net_now = net_before + net_all.take(j as int);
        proof {
            assert(net_now.push(net_all[j as int]) =~= net_before + net_all.take(j as int + 1));
            assert(net_all[j as int] == (owner.member_id@, net_part@));
        }
        match add_to_key(net, &owner.member_id, net_part, Ghost(seeds), Ghost(net_now)) {
            Ok(()) => {},
            Err(e) => {
                proof {
                    let key = owner.member_id@;
                    assert((net_before + net_all.take(j as int + 1)) + net_all.skip(j as int + 1) =~= net_before + net_all);
                    lemma_overflow_extends(net_before + net_all.take(j as int + 1), net_all.skip(j as int + 1), key);
                }
                return Err(e);
            },
        }
        if !liability {
            let asset_part = match value.checked_mul(&bps) {
                Some(product) => product.checked_div(&ten_thousand),
                None => None,
            };
            let asset_part = match asset_part {
                Some(part) => part,
                None => {
                    assert(!owner_parts_fit_for(*account)) by {
                        assert(account.owners@[j as int] == *owner);
                    }
                    return Err(AppError::DecimalOverflow);
                },
            };
            let ghost assets_now = assets_before + assets_all.take(j as int);
            proof {
                assert(assets_now.push(assets_all[j as int]) =~= assets_before + assets_all.take(j as int + 1));
                assert(assets_all[j as int] == (owner.member_id@, asset_part@));
            }
            match add_to_key(assets, &owner.member_id, asset_part, Ghost(seeds), Ghost(assets_now)) {
                Ok(()) => {},
                Err(e) => {
                    proof {
                        let key = owner.member_id@;
                        assert((assets_before + assets_all.take(j as int + 1)) + assets_all.skip(j as int + 1)
                            =~= assets_before + assets_all);
                        lemma_overflow_extends(
                            assets_before + assets_all.take(j as int + 1),
                            assets_all.skip(j as int + 1),
                            key,
                        );
                    }
                    return Err(e);
                },
            }
        }
        j = j + 1;
    }
    proof {
        assert(net_all.take(net_all.len() as int) =~= net_all);
        assert(assets_all.take(assets_all.len() as int) =~= assets_all);
    }
    Ok(())
}

/// Appends copies of the items.
fn append_items(list: &mut Vec<UnvaluedItemDto>, items: &Vec<UnvaluedItemDto>)
    ensures
        final(list)@.len() == old(list)@.len() + items@.len(),
        forall|x: int| 0 <= x < old(list)@.len() ==> final(list)@[x] == old(list)@[x],
        forall|x: int| 0 <= x < items@.len() ==> item_view(#[trigger] final(list)@[old(list)@.len() + x]) == item_view(
            items@[x],
        ),
{
    let ghost start = list@;
    let mut k: usize = 0;
    while k < items.len()
        invariant
            k <= items@.len(),
            list@.len() == start.len() + k,
            forall|x: int| 0 <= x < start.len() ==> list@[x] == start[x],
            forall|x: int| 0 <= x < k ==> item_view(#[trigger] list@[start.len() + x]) == item_view(items@[x]),
        decreases items@.len() - k,
    {
        let item = &items[k];
        list.push(
            UnvaluedItemDto {
                kind: item.kind.clone(),
                id: item.id.clone(),
                name: item.name.clone(),
                reason: item.reason.clone(),
            },
        );
        k = k + 1;
    }
}

/// A sum over the first `i + 1` Accounts that overflows overflows over all of them.
proof fn lemma_step_overflow(
    accounts: Seq<AccountRecordDto>,
    i: int,
    f: spec_fn(AccountRecordDto) -> Option<(Seq<char>, (i128, u32))>,
    key: Seq<char>,
)
    requires
        0 <= i < accounts.len(),
        running_sum(values_for(collect(accounts.subrange(0, i + 1), f), key)) is None,
    ensures
        running_sum(values_for(collect(accounts, f), key)) is None,
        !all_keys_fit(collect(accounts, f)),
{
    lemma_overflow_persists(accounts, i + 1, f, key);
}

/// A sum over the owners of the first `i + 1` Accounts that overflows
/// overflows over all of them.
proof fn lemma_owner_step_overflow(accounts: Seq<AccountRecordDto>, i: int, assets_only: bool)
    requires
        0 <= i < accounts.len(),
        !all_keys_fit(flat_collect(accounts.subrange(0, i + 1), owner_entries(assets_only))),
    ensures
        !all_keys_fit(flat_collect(accounts, owner_entries(assets_only))),
{
    let key = choose|key: Seq<char>| !(#[trigger] running_sum(values_for(flat_collect(accounts.subrange(0, i + 1), owner_entries(assets_only)), key)) is Some);
    lemma_flat_overflow_persists(accounts, i + 1, owner_entries(assets_only), key);
}

/// Zero sums for every Member that is not archived.
fn seed_members(members: &Vec<MemberRecordDto>) -> (seeded: (Vec<(String, DecimalValue)>, Vec<(String, DecimalValue)>))
    ensures
        seeded_totals(seeded.0@, active_member_ids(members@), Seq::empty()),
        seeded_totals(seeded.1@, active_member_ids(members@), Seq::empty()),
{
    let mut net: Vec<(String, DecimalValue)> = Vec::new();
    let mut assets: Vec<(String, DecimalValue)> = Vec::new();
    let ghost none = Seq::<(Seq<char>, (i128, u32))>::empty();
    let ghost mut seeds = Set::<Seq<char>>::empty();
    proof {
        assert forall|k: Seq<char>|
            #![trigger values_for(none, k)]
            #![trigger seeds.contains(k)]
            values_for(none, k).len() > 0 || seeds.contains(k) implies exists|a: int|
                0 <= a < net@.len() && (#[trigger] net@[a]).0@ == k by {
            lemma_no_entries(k);
        }
        assert forall|k: Seq<char>|
            #![trigger values_for(none, k)]
            #![trigger seeds.contains(k)]
            values_for(none, k).len() > 0 || seeds.contains(k) implies exists|a: int|
                0 <= a < assets@.len() && (#[trigger] assets@[a]).0@ == k by {
            lemma_no_entries(k);
        }
    }
    let mut m: usize = 0;
    while m < members.len()
        invariant
            m <= members@.len(),
            none == Seq::<(Seq<char>, (i128, u32))>::empty(),
            seeded_totals(net@, seeds, none),
            seeded_totals(assets@, seeds, none),
            seeds == Set::new(|k: Seq<char>| exists|x: int| 0 <= x < m && (#[trigger] members@[x]).archived_at is None && members@[x].id@ == k),
        decreases members@.len() - m,
    {
        let member = &members[m];
        let ghost next = Set::new(|k: Seq<char>| exists|x: int| 0 <= x < m + 1 && (#[trigger] members@[x]).archived_at is None && members@[x].id@ == k);
        if member.archived_at.is_none() {
            seed_key(&mut net, &member.id, Ghost(seeds));
            seed_key(&mut assets, &member.id, Ghost(seeds));
            proof {
                assert forall|k: Seq<char>| next.contains(k) <==> seeds.insert(member.id@).contains(k) by {
                    if k == member.id@ {
                        assert(members@[m as int] == *member);
                    }
                }
                assert(next =~= seeds.insert(member.id@));
                seeds = next;
            }
        } else {
            proof {
                assert forall|k: Seq<char>| next.contains(k) <==> seeds.contains(k) by {
                    if next.contains(k) {
                        let x = choose|x: int| 0 <= x < m + 1 && (#[trigger] members@[x]).archived_at is None && members@[x].id@ == k;
                        if x == m {
                            assert(members@[m as int] == *member);
                        }
                    }
                }
                assert(next =~= seeds);
                seeds = next;
            }
        }
        m = m + 1;
    }
    assert(seeds =~= active_member_ids(members@));
    (net, assets)
}

/// Reads the Accounts counted in net worth in order and takes every sum
/// of the overview. An unknown category on a counted Account is
/// `InvalidCategory`; a sum out of range is `DecimalOverflow`.
fn overview_sums(accounts: &Vec<AccountRecordDto>, members: &Vec<MemberRecordDto>) -> (sums: Result<Sums, AppError>)
    ensures
        sums matches Ok(s) ==> sums_hold(s, accounts@, active_member_ids(members@)),
        sums matches Err(e) ==> (e is InvalidCategory && !categories_known(accounts@)) || (e is DecimalOverflow
            && !overview_sums_fit(accounts@)),
{
    let ghost acc = accounts@;
    let ghost seeds = active_member_ids(members@);
    let (member_net, member_assets) = seed_members(members);
    let mut sums = Sums {
        assets: DecimalValue::zero(),
        liabilities: DecimalValue::zero(),
        categories: Vec::new(),
        institution_assets: Vec::new(),
        institution_net: Vec::new(),
        unassigned_institution_assets: DecimalValue::zero(),
        unassigned_institution_net: DecimalValue::zero(),
        group_assets: Vec::new(),
        group_net: Vec::new(),
        unassigned_group_assets: DecimalValue::zero(),
        unassigned_group_net: DecimalValue::zero(),
        member_net,
        member_assets,
        complete: true,
        unvalued: Vec::new(),
    };
    proof {
        let none = Seq::<(Seq<char>, (i128, u32))>::empty();
        assert(acc.subrange(0, 0) =~= Seq::<AccountRecordDto>::empty());
        assert forall|k: Seq<char>| #[trigger] running_sum(values_for(none, k)) is Some by {
            lemma_no_entries(k);
        }
        assert forall|k: Seq<char>|
            #![trigger values_for(none, k)]
            #![trigger Set::<Seq<char>>::empty().contains(k)]
            values_for(none, k).len() > 0 || Set::<Seq<char>>::empty().contains(k) implies exists|a: int|
                0 <= a < Seq::<(String, DecimalValue)>::empty().len() && (#[trigger] Seq::<(String, DecimalValue)>::empty()[a]).0@
                    == k by {
            lemma_no_entries(k);
        }
        assert(sums.categories@ =~= Seq::<(String, DecimalValue)>::empty());
        assert(sums.institution_assets@ =~= Seq::<(String, DecimalValue)>::empty());
        assert(sums.institution_net@ =~= Seq::<(String, DecimalValue)>::empty());
        assert(sums.group_assets@ =~= Seq::<(String, DecimalValue)>::empty());
        assert(sums.group_net@ =~= Seq::<(String, DecimalValue)>::empty());
        assert(sums_hold(sums, acc.subrange(0, 0), seeds));
    }
    let mut i: usize = 0;
    while i < accounts.len()
        invariant
            i <= acc.len(),
            acc == accounts@,
            seeds == active_member_ids(members@),
            sums_hold(sums, acc.subrange(0, i as int), seeds),
        decreases acc.len() - i,
    {
        let ghost prefix = acc.subrange(0, i as int);
        let ghost next = acc.subrange(0, i as int + 1);
        let ghost before = sums;
        let account = &accounts[i];
        proof {
            assert(acc[i as int] == *account);
            lemma_collect_next(acc, i as int, asset_entry());
            lemma_collect_next(acc, i as int, liability_entry());
            lemma_collect_next(acc, i as int, category_entry());
            lemma_collect_next(acc, i as int, incomplete());
            lemma_flat_collect_next(acc, i as int, owner_entries(false));
            lemma_flat_collect_next(acc, i as int, owner_entries(true));
            lemma_flat_collect_next(acc, i as int, unvalued_of());
            assert forall|assets_only: bool, group: bool, assigned: bool| #[trigger] collect(next, bucket_entry(assets_only, group, assigned))
                == match bucket_entry(assets_only, group, assigned)(*account) {
                    Some(u) => collect(prefix, bucket_entry(assets_only, group, assigned)).push(u),
                    None => collect(prefix, bucket_entry(assets_only, group, assigned)),
                } by {
                lemma_collect_next(acc, i as int, bucket_entry(assets_only, group, assigned));
            }
        }
        if !account.include_in_net_worth {
            proof {
                assert(flat_collect(next, owner_entries(false)) =~= flat_collect(prefix, owner_entries(false)));
                assert(flat_collect(next, owner_entries(true)) =~= flat_collect(prefix, owner_entries(true)));
                assert(flat_collect(next, unvalued_of()) =~= flat_collect(prefix, unvalued_of()));
                assert forall|j: int| 0 <= j < next.len() && (#[trigger] next[j]).include_in_net_worth implies category_named(
                    next[j].primary_category@,
                ) is Some by {
                    assert(prefix[j] == next[j]);
                }
                assert forall|j: int| 0 <= j < next.len() && counted_in_net_worth(next[j]) implies owner_parts_fit_for(
                    #[trigger] next[j],
                ) by {
                    assert(prefix[j] == next[j]);
                }
            }
            i = i + 1;
            continue;
        }
        let value = match &account.valuation.base {
            Some(v) => *v,
            None => DecimalValue::zero(),
        };
        let _ = value.parts();
        if !account.valuation.complete {
            sums.complete = false;
            let ghost start = sums.unvalued@;
            append_items(&mut sums.unvalued, &account.valuation.unvalued_items);
            proof {
                let added = unvalued_of()(*account);
                assert(start == before.unvalued@);
                assert forall|x: int| 0 <= x < sums.unvalued@.len() implies item_view(#[trigger] sums.unvalued@[x])
                    == (flat_collect(prefix, unvalued_of()) + added)[x] by {
                    if x < start.len() {
                        assert(sums.unvalued@[x] == start[x]);
                        assert(item_view(before.unvalued@[x]) == flat_collect(prefix, unvalued_of())[x]);
                    } else {
                        assert(item_view(sums.unvalued@[start.len() + (x - start.len())]) == item_view(
                            account.valuation.unvalued_items@[x - start.len()],
                        ));
                    }
                }
            }
        } else {
            proof {
                assert(unvalued_of()(*account) =~= Seq::<(Seq<char>, Seq<char>, Seq<char>, Seq<char>)>::empty());
                assert(flat_collect(next, unvalued_of()) =~= flat_collect(prefix, unvalued_of()));
            }
        }
        let category = match PrimaryCategory::parse(account.primary_category.as_str()) {
            Ok(category) => category,
            Err(e) => {
                assert(!categories_known(acc)) by {
                    assert(acc[i as int] == *account);
                }
                return Err(e);
            },
        };
        let liability = category == PrimaryCategory::Liability;
        let signed = if liability { value.negated() } else { value };
        assert(is_liability(*account) == liability);
        assert(value@ == value_of(*account));
        assert(signed@ == signed_value_of(*account));
        if liability {
            let ghost entries = collect(prefix, liability_entry());
            proof {
                lemma_values_for_push(entries, (Seq::<char>::empty(), value@), Seq::<char>::empty());
                lemma_running_sum_push(values_for(entries, Seq::<char>::empty()), value@);
            }
            sums.liabilities = match sums.liabilities.checked_add(&value) {
                Some(sum) => sum,
                None => {
                    proof {
                        lemma_step_overflow(acc, i as int, liability_entry(), Seq::<char>::empty());
                    }
                    return Err(AppError::DecimalOverflow);
                },
            };
        } else {
            let ghost entries = collect(prefix, asset_entry());
            proof {
                lemma_values_for_push(entries, (Seq::<char>::empty(), value@), Seq::<char>::empty());
                lemma_running_sum_push(values_for(entries, Seq::<char>::empty()), value@);
            }
            sums.assets = match sums.assets.checked_add(&value) {
                Some(sum) => sum,
                None => {
                    proof {
                        lemma_step_overflow(acc, i as int, asset_entry(), Seq::<char>::empty());
                    }
                    return Err(AppError::DecimalOverflow);
                },
            };
            let key = String::from_str(category.as_str());
            match add_to_key(&mut sums.categories, &key, value, Ghost(Set::empty()), Ghost(collect(prefix, category_entry()))) {
                Ok(()) => {},
                Err(e) => {
                    proof {
                        lemma_step_overflow(acc, i as int, category_entry(), key@);
                    }
                    return Err(e);
                },
            }
        }
        if !liability {
            match file_optional(
                &mut sums.institution_assets,
                &mut sums.unassigned_institution_assets,
                &account.institution_id,
                value,
                Ghost(collect(prefix, bucket_entry(true, false, true))),
                Ghost(collect(prefix, bucket_entry(true, false, false))),
            ) {
                Ok(()) => {},
                Err(e) => {
                    proof {
                        if account.institution_id is Some {
                            lemma_step_overflow(acc, i as int, bucket_entry(true, false, true), account.institution_id->Some_0@);
                        } else {
                            lemma_step_overflow(acc, i as int, bucket_entry(true, false, false), Seq::<char>::empty());
                        }
                    }
                    return Err(e);
                },
            }
        }
        match file_optional(
            &mut sums.institution_net,
            &mut sums.unassigned_institution_net,
            &account.institution_id,
            signed,
            Ghost(collect(prefix, bucket_entry(false, false, true))),
            Ghost(collect(prefix, bucket_entry(false, false, false))),
        ) {
            Ok(()) => {},
            Err(e) => {
                proof {
                    if account.institution_id is Some {
                        lemma_step_overflow(acc, i as int, bucket_entry(false, false, true), account.institution_id->Some_0@);
                    } else {
                        lemma_step_overflow(acc, i as int, bucket_entry(false, false, false), Seq::<char>::empty());
                    }
                }
                return Err(e);
            },
        }
        if !liability {
            match file_optional(
                &mut sums.group_assets,
                &mut sums.unassigned_group_assets,
                &account.group_id,
                value,
                Ghost(collect(prefix, bucket_entry(true, true, true))),
                Ghost(collect(prefix, bucket_entry(true, true, false))),
            ) {
                Ok(()) => {},
                Err(e) => {
                    proof {
                        if account.group_id is Some {
                            lemma_step_overflow(acc, i as int, bucket_entry(true, true, true), account.group_id->Some_0@);
                        } else {
                            lemma_step_overflow(acc, i as int, bucket_entry(true, true, false), Seq::<char>::empty());
                        }
                    }
                    return Err(e);
                },
            }
        }
        match file_optional(
            &mut sums.group_net,
            &mut sums.unassigned_group_net,
            &account.group_id,
            signed,
            Ghost(collect(prefix, bucket_entry(false, true, true))),
            Ghost(collect(prefix, bucket_entry(false, true, false))),
        ) {
            Ok(()) => {},
            Err(e) => {
                proof {
                    if account.group_id is Some {
                        lemma_step_overflow(acc, i as int, bucket_entry(false, true, true), account.group_id->Some_0@);
                    } else {
                        lemma_step_overflow(acc, i as int, bucket_entry(false, true, false), Seq::<char>::empty());
                    }
                }
                return Err(e);
            },
        }
        match file_owner_parts(
            &mut sums.member_net,
            &mut sums.member_assets,
            account,
            value,
            signed,
            liability,
            Ghost(seeds),
            Ghost(flat_collect(prefix, owner_entries(false))),
            Ghost(flat_collect(prefix, owner_entries(true))),
        ) {
            Ok(()) => {},
            Err(e) => {
                proof {
                    if !owner_parts_fit_for(*account) {
                        assert(!owner_parts_fit(acc));
                    } else if !all_keys_fit(flat_collect(next, owner_entries(false))) {
                        lemma_owner_step_overflow(acc, i as int, false);
                    } else {
                        lemma_owner_step_overflow(acc, i as int, true);
                    }
                }
                return Err(e);
            },
        }
        proof {
            assert forall|j: int| 0 <= j < next.len() && (#[trigger] next[j]).include_in_net_worth implies category_named(
                next[j].primary_category@,
            ) is Some by {
                if j < i {
                    assert(prefix[j] == next[j]);
                }
            }
            assert forall|j: int| 0 <= j < next.len() && counted_in_net_worth(next[j]) implies owner_parts_fit_for(
                #[trigger] next[j],
            ) by {
                if j < i {
                    assert(prefix[j] == next[j]);
                }
            }
        }
        i = i + 1;
    }
    proof {
        assert(acc.subrange(0, acc.len() as int) =~= acc);
    }
    Ok(sums)
}

/// A part's share of the whole in basis points, rounded on its own: zero
/// for a zero whole or a part below zero; `None` where the arithmetic fails.
pub open spec fn share_of_whole(part: (i128, u32), whole: (i128, u32)) -> Option<int> {
    if whole.0 == 0 || part.0 < 0 {
        Some(0)
    } else {
        match bps_quotient(part, whole) {
            Some(q) => Some(rounded_share(q)),
            None => None,
        }
    }
}

/// The raw shares of parts given by value.
pub open spec fn raws_of(parts: Seq<(i128, u32)>, whole: (i128, u32)) -> Seq<Option<(i128, u32)>> {
    Seq::new(parts.len(), |i: int| raw_share(parts[i], whole).unwrap())
}

/// Largest-remainder shares of the parts, each held within the whole; all
/// zero for a zero whole or no parts; `None` where the arithmetic fails.
pub open spec fn member_shares(parts: Seq<(i128, u32)>, whole: (i128, u32)) -> Option<Seq<int>> {
    if whole.0 == 0 || parts.len() == 0 {
        Some(Seq::new(parts.len(), |i: int| 0int))
    } else if (forall|i: int| 0 <= i < parts.len() ==> (#[trigger] raw_share(parts[i], whole)) is Some) && floors_fit(
        raws_of(parts, whole),
        true,
    ) {
        Some(Seq::new(parts.len(), |i: int| share_of(raws_of(parts, whole), i, true)))
    } else {
        None
    }
}

/// A breakdown row as values: key, id, name, amount text, currency, share.
pub open spec fn row_view(row: BreakdownRowDto) -> (Seq<char>, Option<Seq<char>>, Option<Seq<char>>, Seq<char>, Seq<char>, int) {
    (row.key@, opt_view(row.id), opt_view(row.name), row.amount.amount@, row.amount.currency@, row.share_bps as int)
}

/// The categories of assets, in the order their rows are listed.
pub open spec fn listed_categories() -> Seq<PrimaryCategory> {
    seq![
        PrimaryCategory::CashEquivalent,
        PrimaryCategory::Investment,
        PrimaryCategory::Property,
        PrimaryCategory::Receivable,
    ]
}

/// The total of one asset category.
pub open spec fn category_amount(accounts: Seq<AccountRecordDto>, c: PrimaryCategory) -> (i128, u32) {
    sum_of(collect(accounts, category_entry()), category_text(c))
}

/// The row of each asset category with a non-zero total: its name, its
/// amount, and its share of all assets.
pub open spec fn category_row(accounts: Seq<AccountRecordDto>, base: Seq<char>) -> spec_fn(PrimaryCategory) -> Option<(Seq<char>, Option<Seq<char>>, Option<Seq<char>>, Seq<char>, Seq<char>, int)> {
    |c: PrimaryCategory|
        if category_amount(accounts, c).0 != 0 {
            Some((
                category_text(c),
                None,
                None,
                canonical_text(category_amount(accounts, c)),
                base,
                share_of_whole(category_amount(accounts, c), assets_total(accounts))->Some_0,
            ))
        } else {
            None
        }
}

/// Every listed category's share can be computed.
pub open spec fn category_shares_fit(accounts: Seq<AccountRecordDto>) -> bool {
    forall|k: int| 0 <= k < 4 && category_amount(accounts, #[trigger] listed_categories()[k]).0 != 0 ==> share_of_whole(
        category_amount(accounts, listed_categories()[k]),
        assets_total(accounts),
    ) is Some
}

/// A Member gets a row when not archived or when they own part of a
/// counted Account.
pub open spec fn member_listed(accounts: Seq<AccountRecordDto>, seeds: Set<Seq<char>>) -> spec_fn(MemberRecordDto) -> Option<MemberRecordDto> {
    |m: MemberRecordDto|
        if seeds.contains(m.id@) || values_for(flat_collect(accounts, owner_entries(false)), m.id@).len() > 0 {
            Some(m)
        } else {
            None
        }
}

/// The Members with rows, in order.
pub open spec fn listed_members(accounts: Seq<AccountRecordDto>, members: Seq<MemberRecordDto>) -> Seq<MemberRecordDto> {
    collect(members, member_listed(accounts, active_member_ids(members)))
}

/// Each listed Member's part of the assets.
pub open spec fn member_asset_parts(accounts: Seq<AccountRecordDto>, members: Seq<MemberRecordDto>) -> Seq<(i128, u32)> {
    Seq::new(
        listed_members(accounts, members).len(),
        |k: int| sum_of(flat_collect(accounts, owner_entries(true)), listed_members(accounts, members)[k].id@),
    )
}

/// The row of the `k`-th listed Member: their net part and their share of
/// the assets.
pub open spec fn member_row(accounts: Seq<AccountRecordDto>, members: Seq<MemberRecordDto>, base: Seq<char>, k: int) -> (Seq<char>, Option<Seq<char>>, Option<Seq<char>>, Seq<char>, Seq<char>, int) {
    let m = listed_members(accounts, members)[k];
    (
        "member"@,
        Some(m.id@),
        Some(m.name@),
        canonical_text(sum_of(flat_collect(accounts, owner_entries(false)), m.id@)),
        base,
        member_shares(member_asset_parts(accounts, members), assets_total(accounts))->Some_0[k],
    )
}

/// The net amount filed under an id of the catalog.
pub open spec fn named_net(accounts: Seq<AccountRecordDto>, group: bool, id: Seq<char>) -> (i128, u32) {
    sum_of(collect(accounts, bucket_entry(false, group, true)), id)
}

/// The assets filed under an id of the catalog.
pub open spec fn named_assets(accounts: Seq<AccountRecordDto>, group: bool, id: Seq<char>) -> (i128, u32) {
    sum_of(collect(accounts, bucket_entry(true, group, true)), id)
}

/// The row of each catalog entry (id, name) with a non-zero net amount or
/// non-zero assets.
pub open spec fn named_row(accounts: Seq<AccountRecordDto>, group: bool, base: Seq<char>) -> spec_fn((Seq<char>, Seq<char>)) -> Option<(Seq<char>, Option<Seq<char>>, Option<Seq<char>>, Seq<char>, Seq<char>, int)> {
    |entry: (Seq<char>, Seq<char>)|
        if named_net(accounts, group, entry.0).0 != 0 || named_assets(accounts, group, entry.0).0 != 0 {
            Some((
                entry.0,
                Some(entry.0),
                Some(entry.1),
                canonical_text(named_net(accounts, group, entry.0)),
                base,
                share_of_whole(named_assets(accounts, group, entry.0), assets_total(accounts))->Some_0,
            ))
        } else {
            None
        }
}

/// The row of the Accounts that name no institution (or group), when their
/// net amount or assets are not zero.
pub open spec fn unassigned_rows(accounts: Seq<AccountRecordDto>, group: bool, base: Seq<char>) -> Seq<(Seq<char>, Option<Seq<char>>, Option<Seq<char>>, Seq<char>, Seq<char>, int)> {
    let net = sum_of(collect(accounts, bucket_entry(false, group, false)), Seq::empty());
    let assets = sum_of(collect(accounts, bucket_entry(true, group, false)), Seq::empty());
    if net.0 != 0 || assets.0 != 0 {
        seq![("unassigned"@, None, None, canonical_text(net), base, share_of_whole(assets, assets_total(accounts))->Some_0)]
    } else {
        Seq::empty()
    }
}

/// The rows of a catalog: its entries with amounts, then the unassigned row.
pub open spec fn named_rows_spec(accounts: Seq<AccountRecordDto>, group: bool, base: Seq<char>, catalog: Seq<(Seq<char>, Seq<char>)>) -> Seq<(Seq<char>, Option<Seq<char>>, Option<Seq<char>>, Seq<char>, Seq<char>, int)> {
    collect(catalog, named_row(accounts, group, base)) + unassigned_rows(accounts, group, base)
}

/// Every share of the catalog's rows can be computed.
pub open spec fn named_shares_fit(accounts: Seq<AccountRecordDto>, group: bool, catalog: Seq<(Seq<char>, Seq<char>)>) -> bool {
    &&& forall|k: int| 0 <= k < catalog.len() && (named_net(accounts, group, (#[trigger] catalog[k]).0).0 != 0 || named_assets(
        accounts,
        group,
        catalog[k].0,
    ).0 != 0) ==> share_of_whole(named_assets(accounts, group, catalog[k].0), assets_total(accounts)) is Some
    &&& (sum_of(collect(accounts, bucket_entry(false, group, false)), Seq::empty()).0 != 0 || sum_of(
        collect(accounts, bucket_entry(true, group, false)),
        Seq::empty(),
    ).0 != 0) ==> share_of_whole(sum_of(collect(accounts, bucket_entry(true, group, false)), Seq::empty()), assets_total(accounts)) is Some
}

/// The value filed under a key: the sum, or zero where nothing is.
fn lookup(
    totals: &Vec<(String, DecimalValue)>,
    key: &str,
    Ghost(seeds): Ghost<Set<Seq<char>>>,
    Ghost(entries): Ghost<Seq<(Seq<char>, (i128, u32))>>,
) -> (found: (DecimalValue, bool))
    requires
        seeded_totals(totals@, seeds, entries),
    ensures
        running_sum(values_for(entries, key@)) == Some(found.0@),
        found.1 == (values_for(entries, key@).len() > 0 || seeds.contains(key@)),
{
    let mut i: usize = 0;
    while i < totals.len()
        invariant
            i <= totals@.len(),
            seeded_totals(totals@, seeds, entries),
            forall|a: int| 0 <= a < i ==> (#[trigger] totals@[a]).0@ != key@,
        decreases totals@.len() - i,
    {
        if text_eq(totals[i].0.as_str(), key) {
            return (totals[i].1, true);
        }
        i = i + 1;
    }
    proof {
        if values_for(entries, key@).len() > 0 || seeds.contains(key@) {
            let a = choose|a: int| 0 <= a < totals@.len() && (#[trigger] totals@[a]).0@ == key@;
            assert(false);
        }
    }
    assert(values_for(entries, key@) =~= Seq::<(i128, u32)>::empty());
    (DecimalValue::zero(), false)
}

/// The rows as values.
pub open spec fn rows_view(rows: Seq<BreakdownRowDto>) -> Seq<(Seq<char>, Option<Seq<char>>, Option<Seq<char>>, Seq<char>, Seq<char>, int)> {
    Seq::new(rows.len(), |k: int| row_view(rows[k]))
}

/// A part's share of the whole, rounded on its own.
fn rounded_share_of(part: DecimalValue, whole: DecimalValue) -> (share: Result<i32, AppError>)
    ensures
        match share {
            Ok(v) => share_of_whole(part@, whole@) == Some(v as int),
            Err(e) => share_of_whole(part@, whole@) is None && e is DecimalOverflow,
        },
{
    match share_bps(part, whole) {
        Some(v) => Ok(v),
        None => Err(AppError::DecimalOverflow),
    }
}

/// The rows of the asset categories with non-zero totals.
fn category_rows(sums: &Sums, base: &str, Ghost(accounts): Ghost<Seq<AccountRecordDto>>, Ghost(seeds): Ghost<Set<Seq<char>>>) -> (rows: Result<Vec<BreakdownRowDto>, AppError>)
    requires
        sums_hold(*sums, accounts, seeds),
    ensures
        rows matches Ok(r) ==> rows_view(r@) == collect(listed_categories(), category_row(accounts, base@))
            && category_shares_fit(accounts),
        rows matches Err(e) ==> e is DecimalOverflow && !category_shares_fit(accounts),
{
    let order: Vec<PrimaryCategory> = vec![
        PrimaryCategory::CashEquivalent,
        PrimaryCategory::Investment,
        PrimaryCategory::Property,
        PrimaryCategory::Receivable,
    ];
    assert(order@ =~= listed_categories());
    let mut rows: Vec<BreakdownRowDto> = Vec::new();
    let mut k: usize = 0;
    while k < order.len()
        invariant
            k <= 4,
            order@ == listed_categories(),
            sums_hold(*sums, accounts, seeds),
            rows_view(rows@) == collect(listed_categories().subrange(0, k as int), category_row(accounts, base@)),
            forall|x: int| 0 <= x < k && category_amount(accounts, #[trigger] listed_categories()[x]).0 != 0 ==> share_of_whole(
                category_amount(accounts, listed_categories()[x]),
                assets_total(accounts),
            ) is Some,
        decreases 4 - k,
    {
        proof {
            lemma_collect_next(listed_categories(), k as int, category_row(accounts, base@));
        }
        let category = order[k];
        let key = category.as_str();
        let (amount, _) = lookup(&sums.categories, key, Ghost(Set::empty()), Ghost(collect(accounts, category_entry())));
        if !amount.is_zero() {
            let share = match rounded_share_of(amount, sums.assets) {
                Ok(share) => share,
                Err(e) => {
                    assert(!category_shares_fit(accounts)) by {
                        assert(listed_categories()[k as int] == category);
                    }
                    return Err(e);
                },
            };
            let ghost before = rows@;
            rows.push(
                BreakdownRowDto {
                    key: String::from_str(key),
                    id: None,
                    name: None,
                    amount: MoneyDto { amount: amount.canonical(), currency: String::from_str(base) },
                    share_bps: share,
                },
            );
            assert(rows_view(rows@) =~= rows_view(before).push(row_view(rows@[before.len() as int])));
        }
        k = k + 1;
    }
    assert(listed_categories().subrange(0, 4) =~= listed_categories());
    Ok(rows)
}

/// The rows of the Members with a net part: each with that part and their
/// share of the assets by largest remainder.
fn member_rows(
    members: &Vec<MemberRecordDto>,
    sums: &Sums,
    base: &str,
    Ghost(accounts): Ghost<Seq<AccountRecordDto>>,
) -> (rows: Result<Vec<BreakdownRowDto>, AppError>)
    requires
        sums_hold(*sums, accounts, active_member_ids(members@)),
    ensures
        rows matches Ok(r) ==> r@.len() == listed_members(accounts, members@).len() && forall|k: int|
            0 <= k < r@.len() ==> row_view(#[trigger] r@[k]) == member_row(accounts, members@, base@, k),
        rows matches Ok(r) ==> member_shares(member_asset_parts(accounts, members@), assets_total(accounts)) is Some,
        rows matches Err(e) ==> e is DecimalOverflow && member_shares(member_asset_parts(accounts, members@), assets_total(accounts)) is None,
{
    let ghost seeds = active_member_ids(members@);
    let ghost net_entries = flat_collect(accounts, owner_entries(false));
    let ghost asset_entries = flat_collect(accounts, owner_entries(true));
    let ghost listed = listed_members(accounts, members@);
    let mut chosen: Vec<usize> = Vec::new();
    let mut nets: Vec<DecimalValue> = Vec::new();
    let mut parts: Vec<DecimalValue> = Vec::new();
    let mut m: usize = 0;
    while m < members.len()
        invariant
            m <= members@.len(),
            sums_hold(*sums, accounts, seeds),
            seeds == active_member_ids(members@),
            net_entries == flat_collect(accounts, owner_entries(false)),
            asset_entries == flat_collect(accounts, owner_entries(true)),
            chosen@.len() == collect(members@.subrange(0, m as int), member_listed(accounts, seeds)).len(),
            nets@.len() == chosen@.len(),
            parts@.len() == chosen@.len(),
            forall|k: int| 0 <= k < chosen@.len() ==> (#[trigger] chosen@[k]) < members@.len() && members@[chosen@[k] as int]
                == collect(members@.subrange(0, m as int), member_listed(accounts, seeds))[k],
            forall|k: int| 0 <= k < chosen@.len() ==> (#[trigger] nets@[k])@ == sum_of(net_entries, members@[chosen@[k] as int].id@),
            forall|k: int| 0 <= k < chosen@.len() ==> (#[trigger] parts@[k])@ == sum_of(asset_entries, members@[chosen@[k] as int].id@),
        decreases members@.len() - m,
    {
        proof {
            lemma_collect_next(members@, m as int, member_listed(accounts, seeds));
        }
        let member = &members[m];
        let (net, listed_here) = lookup(&sums.member_net, member.id.as_str(), Ghost(seeds), Ghost(net_entries));
        if listed_here {
            let (part, _) = lookup(&sums.member_assets, member.id.as_str(), Ghost(seeds), Ghost(asset_entries));
            chosen.push(m);
            nets.push(net);
            parts.push(part);
        }
        m = m + 1;
    }
    assert(members@.subrange(0, members@.len() as int) =~= members@);
    let ghost views = member_asset_parts(accounts, members@);
    assert(parts@.len() == views.len());
    assert forall|i: int| 0 <= i < parts@.len() implies (#[trigger] parts@[i])@ == views[i] by {
        assert(members@[chosen@[i] as int] == listed[i]);
    }
    assert(raws_of(views, assets_total(accounts)) =~= raw_shares(parts@, sums.assets@));
    assert(raw_shares_computed(parts@, sums.assets@) == (forall|i: int| 0 <= i < views.len() ==> (#[trigger] raw_share(views[i], assets_total(accounts))) is Some)) by {
        assert forall|i: int| 0 <= i < views.len() implies raw_share(parts@[i]@, sums.assets@) == (#[trigger] raw_share(views[i], assets_total(accounts))) by {
            assert(parts@[i]@ == views[i]);
        }
    }
    let shares = match allocate_share_bps(&parts, sums.assets) {
        Some(shares) => shares,
        None => {
            return Err(AppError::DecimalOverflow);
        },
    };
    let ghost expected = member_shares(views, assets_total(accounts))->Some_0;
    assert(shares@.len() == parts@.len());
    assert forall|i: int| 0 <= i < shares@.len() implies (#[trigger] shares@[i]) as int == expected[i] by {
    }
    let mut rows: Vec<BreakdownRowDto> = Vec::new();
    let mut k: usize = 0;
    while k < chosen.len()
        invariant
            k <= chosen@.len(),
            nets@.len() == chosen@.len(),
            shares@.len() == chosen@.len(),
            chosen@.len() == listed.len(),
            listed == listed_members(accounts, members@),
            forall|x: int| 0 <= x < chosen@.len() ==> (#[trigger] chosen@[x]) < members@.len() && members@[chosen@[x] as int] == listed[x],
            forall|x: int| 0 <= x < chosen@.len() ==> (#[trigger] nets@[x])@ == sum_of(net_entries, members@[chosen@[x] as int].id@),
            forall|x: int| 0 <= x < shares@.len() ==> (#[trigger] shares@[x]) as int == expected[x],
            expected == member_shares(member_asset_parts(accounts, members@), assets_total(accounts))->Some_0,
            net_entries == flat_collect(accounts, owner_entries(false)),
            rows@.len() == k,
            forall|x: int| 0 <= x < k ==> row_view(#[trigger] rows@[x]) == member_row(accounts, members@, base@, x),
        decreases chosen@.len() - k,
    {
        let member = &members[chosen[k]];
        rows.push(
            BreakdownRowDto {
                key: String::from_str("member"),
                id: Some(member.id.clone()),
                name: Some(member.name.clone()),
                amount: MoneyDto { amount: nets[k].canonical(), currency: String::from_str(base) },
                share_bps: shares[k],
            },
        );
        k = k + 1;
    }
    Ok(rows)
}

/// The catalog entries as (id, name) values.
pub open spec fn catalog_view(catalog: Seq<(String, String)>) -> Seq<(Seq<char>, Seq<char>)> {
    Seq::new(catalog.len(), |k: int| (catalog[k].0@, catalog[k].1@))
}

/// The rows of a catalog of institutions (or groups), then the row of
/// the Accounts that name none.
fn named_rows(
    catalog: &Vec<(String, String)>,
    assets_by_id: &Vec<(String, DecimalValue)>,
    net_by_id: &Vec<(String, DecimalValue)>,
    unassigned_assets: DecimalValue,
    unassigned_net: DecimalValue,
    assets: DecimalValue,
    base: &str,
    Ghost(accounts): Ghost<Seq<AccountRecordDto>>,
    Ghost(group): Ghost<bool>,
) -> (rows: Result<Vec<BreakdownRowDto>, AppError>)
    requires
        totals_by_key(assets_by_id@, collect(accounts, bucket_entry(true, group, true))),
        totals_by_key(net_by_id@, collect(accounts, bucket_entry(false, group, true))),
        running_sum(values_for(collect(accounts, bucket_entry(true, group, false)), Seq::empty())) == Some(unassigned_assets@),
        running_sum(values_for(collect(accounts, bucket_entry(false, group, false)), Seq::empty())) == Some(unassigned_net@),
        assets@ == assets_total(accounts),
    ensures
        rows matches Ok(r) ==> rows_view(r@) == named_rows_spec(accounts, group, base@, catalog_view(catalog@))
            && named_shares_fit(accounts, group, catalog_view(catalog@)),
        rows matches Err(e) ==> e is DecimalOverflow && !named_shares_fit(accounts, group, catalog_view(catalog@)),
{
    let ghost entries = catalog_view(catalog@);
    let mut rows: Vec<BreakdownRowDto> = Vec::new();
    let mut k: usize = 0;
    while k < catalog.len()
        invariant
            k <= catalog@.len(),
            entries == catalog_view(catalog@),
            totals_by_key(assets_by_id@, collect(accounts, bucket_entry(true, group, true))),
            totals_by_key(net_by_id@, collect(accounts, bucket_entry(false, group, true))),
            assets@ == assets_total(accounts),
            rows_view(rows@) == collect(entries.subrange(0, k as int), named_row(accounts, group, base@)),
            forall|x: int| 0 <= x < k && (named_net(accounts, group, (#[trigger] entries[x]).0).0 != 0 || named_assets(
                accounts,
                group,
                entries[x].0,
            ).0 != 0) ==> share_of_whole(named_assets(accounts, group, entries[x].0), assets_total(accounts)) is Some,
        decreases catalog@.len() - k,
    {
        proof {
            lemma_collect_next(entries, k as int, named_row(accounts, group, base@));
        }
        let id = &catalog[k].0;
        let (net, _) = lookup(net_by_id, id.as_str(), Ghost(Set::empty()), Ghost(collect(accounts, bucket_entry(false, group, true))));
        let (bucket, _) = lookup(assets_by_id, id.as_str(), Ghost(Set::empty()), Ghost(collect(accounts, bucket_entry(true, group, true))));
        if !(net.is_zero() && bucket.is_zero()) {
            let share = match rounded_share_of(bucket, assets) {
                Ok(share) => share,
                Err(e) => {
                    assert(!named_shares_fit(accounts, group, entries)) by {
                        assert(entries[k as int].0 == id@);
                    }
                    return Err(e);
                },
            };
            let ghost before = rows@;
            rows.push(
                BreakdownRowDto {
                    key: id.clone(),
                    id: Some(id.clone()),
                    name: Some(catalog[k].1.clone()),
                    amount: MoneyDto { amount: net.canonical(), currency: String::from_str(base) },
                    share_bps: share,
                },
            );
            assert(rows_view(rows@) =~= rows_view(before).push(row_view(rows@[before.len() as int])));
        }
        k = k + 1;
    }
    assert(entries.subrange(0, entries.len() as int) =~= entries);
    let ghost listed = rows@;
    if !(unassigned_net.is_zero() && unassigned_assets.is_zero()) {
        let share = match rounded_share_of(unassigned_assets, assets) {
            Ok(share) => share,
            Err(e) => {
                return Err(e);
            },
        };
        rows.push(
            BreakdownRowDto {
                key: String::from_str("unassigned"),
                id: None,
                name: None,
                amount: MoneyDto { amount: unassigned_net.canonical(), currency: String::from_str(base) },
                share_bps: share,
            },
        );
        assert(rows_view(rows@) =~= rows_view(listed) + unassigned_rows(accounts, group, base@));
    } else {
        assert(rows_view(rows@) =~= rows_view(listed) + unassigned_rows(accounts, group, base@));
    }
    Ok(rows)
}

/// The (id, name) of each institution.
pub open spec fn institution_catalog(institutions: Seq<InstitutionRecordDto>) -> Seq<(Seq<char>, Seq<char>)> {
    Seq::new(institutions.len(), |k: int| (institutions[k].id@, institutions[k].name@))
}

/// The (id, name) of each group.
pub open spec fn group_catalog(groups: Seq<GroupRecordDto>) -> Seq<(Seq<char>, Seq<char>)> {
    Seq::new(groups.len(), |k: int| (groups[k].id@, groups[k].name@))
}

/// The (id, name) of each institution, in order.
fn institution_entries(institutions: &Vec<InstitutionRecordDto>) -> (catalog: Vec<(String, String)>)
    ensures
        catalog_view(catalog@) == institution_catalog(institutions@),
{
    let mut catalog: Vec<(String, String)> = Vec::new();
    let mut k: usize = 0;
    while k < institutions.len()
        invariant
            k <= institutions@.len(),
            catalog@.len() == k,
            catalog_view(catalog@) == institution_catalog(institutions@).subrange(0, k as int),
        decreases institutions@.len() - k,
    {
        let ghost before = catalog@;
        let id = institutions[k].id.clone();
        let name = institutions[k].name.clone();
        catalog.push((id, name));
        assert(catalog@[k as int] == (id, name));
        k = k + 1;
        assert(catalog_view(catalog@) =~= institution_catalog(institutions@).subrange(0, k as int)) by {
            assert forall|j: int| 0 <= j < k - 1 implies catalog_view(catalog@)[j] == catalog_view(before)[j] by {}
        }
    }
    assert(institution_catalog(institutions@).subrange(0, k as int) =~= institution_catalog(institutions@));
    catalog
}

/// The (id, name) of each group, in order.
fn group_entries(groups: &Vec<GroupRecordDto>) -> (catalog: Vec<(String, String)>)
    ensures
        catalog_view(catalog@) == group_catalog(groups@),
{
    let mut catalog: Vec<(String, String)> = Vec::new();
    let mut k: usize = 0;
    while k < groups.len()
        invariant
            k <= groups@.len(),
            catalog@.len() == k,
            catalog_view(catalog@) == group_catalog(groups@).subrange(0, k as int),
        decreases groups@.len() - k,
    {
        let ghost before = catalog@;
        let id = groups[k].id.clone();
        let name = groups[k].name.clone();
        catalog.push((id, name));
        assert(catalog@[k as int] == (id, name));
        k = k + 1;
        assert(catalog_view(catalog@) =~= group_catalog(groups@).subrange(0, k as int)) by {
            assert forall|j: int| 0 <= j < k - 1 implies catalog_view(catalog@)[j] == catalog_view(before)[j] by {}
        }
    }
    assert(group_catalog(groups@).subrange(0, k as int) =~= group_catalog(groups@));
    catalog
}

/// Net worth: assets less liabilities, as `rust_decimal` adds the negated
/// liabilities; `None` on overflow.
pub open spec fn net_worth_of(accounts: Seq<AccountRecordDto>) -> Option<(i128, u32)> {
    let a = assets_total(accounts);
    let l = liabilities_total(accounts);
    decimal_checked_sum(a.0, a.1, (-l.0) as i128, l.1)
}

/// Every amount and share of the overview can be computed.
pub open spec fn overview_fits(
    accounts: Seq<AccountRecordDto>,
    members: Seq<MemberRecordDto>,
    institutions: Seq<InstitutionRecordDto>,
    groups: Seq<GroupRecordDto>,
) -> bool {
    &&& overview_sums_fit(accounts)
    &&& net_worth_of(accounts) is Some
    &&& category_shares_fit(accounts)
    &&& member_shares(member_asset_parts(accounts, members), assets_total(accounts)) is Some
    &&& named_shares_fit(accounts, false, institution_catalog(institutions))
    &&& named_shares_fit(accounts, true, group_catalog(groups))
}

/// The overview of the household's Accounts in the base currency.
///
/// The Accounts counted are those included in net worth. Assets add the
/// values of the counted Accounts that are not liabilities, liabilities add
/// those of the liabilities, and net worth is their difference. Category
/// rows list the non-zero asset categories; Member rows give each Member
/// who is not archived or owns part of a counted Account their owned part
/// (`value × share_bps / 10000`, negative for liabilities) and their share
/// of the assets; institution and group rows give each listed one with
/// amounts its net amount and share of the assets, then the Accounts that
/// name none. An invalid base currency is a validation error on `currency`,
/// more Accounts than an `i32` counts is `Internal`, an unknown category
/// on a counted Account is `InvalidCategory`, and an amount or share out of
/// range is `DecimalOverflow`.
pub fn compute_overview(
    base_currency: &str,
    accounts: &Vec<AccountRecordDto>,
    members: &Vec<MemberRecordDto>,
    institutions: &Vec<InstitutionRecordDto>,
    groups: &Vec<GroupRecordDto>,
) -> (overview: Result<OverviewDto, AppError>)
    ensures
        !is_currency_code(base_currency@) ==> (overview matches Err(e) && is_validation_of(e, "currency"@)),
        is_currency_code(base_currency@) && accounts@.len() > i32::MAX ==> (overview matches Err(e) && e is Internal),
        overview matches Err(e) ==> (is_validation_of(e, "currency"@) && !is_currency_code(base_currency@)) || (
        e is Internal && accounts@.len() > i32::MAX) || (e is InvalidCategory && !categories_known(accounts@)) || (
        e is DecimalOverflow && !overview_fits(accounts@, members@, institutions@, groups@)),
        overview is Ok ==> is_currency_code(base_currency@) && accounts@.len() <= i32::MAX && categories_known(accounts@)
            && overview_fits(accounts@, members@, institutions@, groups@),
        overview matches Ok(o) ==> {
            &&& o.base_currency@ == base_currency@
            &&& o.account_count as int == accounts@.len()
            &&& o.assets.amount@ == canonical_text(assets_total(accounts@))
            &&& o.assets.currency@ == base_currency@
            &&& o.liabilities.amount@ == canonical_text(liabilities_total(accounts@))
            &&& o.liabilities.currency@ == base_currency@
            &&& o.net_worth.amount@ == canonical_text(net_worth_of(accounts@)->Some_0)
            &&& o.net_worth.currency@ == base_currency@
            &&& rows_view(o.by_category@) == collect(listed_categories(), category_row(accounts@, base_currency@))
            &&& o.by_member@.len() == listed_members(accounts@, members@).len()
            &&& forall|k: int| 0 <= k < o.by_member@.len() ==> row_view(#[trigger] o.by_member@[k]) == member_row(
                accounts@,
                members@,
                base_currency@,
                k,
            )
            &&& rows_view(o.by_institution@) == named_rows_spec(accounts@, false, base_currency@, institution_catalog(institutions@))
            &&& rows_view(o.by_group@) == named_rows_spec(accounts@, true, base_currency@, group_catalog(groups@))
            &&& o.is_complete == (collect(accounts@, incomplete()).len() == 0)
            &&& o.unvalued_items@.len() == flat_collect(accounts@, unvalued_of()).len()
            &&& forall|k: int| 0 <= k < o.unvalued_items@.len() ==> item_view(#[trigger] o.unvalued_items@[k]) == flat_collect(
                accounts@,
                unvalued_of(),
            )[k]
        },
{
    let _currency = CurrencyCode::parse(base_currency)?;
    if accounts.len() > i32::MAX as usize {
        return Err(AppError::Internal);
    }
    let account_count = accounts.len() as i32;
    let sums = overview_sums(accounts, members)?;
    let _ = sums.liabilities.parts();
    let negative = sums.liabilities.negated();
    assert(negative@ == ((-sums.liabilities@.0) as i128, sums.liabilities@.1));
    let net_worth = match sums.assets.checked_add(&negative) {
        Some(value) => value,
        None => {
            return Err(AppError::DecimalOverflow);
        },
    };
    let by_category = category_rows(&sums, base_currency, Ghost(accounts@), Ghost(active_member_ids(members@)))?;
    let by_member = member_rows(members, &sums, base_currency, Ghost(accounts@))?;
    let institution_catalog_entries = institution_entries(institutions);
    let by_institution = named_rows(
        &institution_catalog_entries,
        &sums.institution_assets,
        &sums.institution_net,
        sums.unassigned_institution_assets,
        sums.unassigned_institution_net,
        sums.assets,
        base_currency,
        Ghost(accounts@),
        Ghost(false),
    )?;
    let group_catalog_entries = group_entries(groups);
    let by_group = named_rows(
        &group_catalog_entries,
        &sums.group_assets,
        &sums.group_net,
        sums.unassigned_group_assets,
        sums.unassigned_group_net,
        sums.assets,
        base_currency,
        Ghost(accounts@),
        Ghost(true),
    )?;
    Ok(
        OverviewDto {
            base_currency: String::from_str(base_currency),
            account_count,
            assets: MoneyDto { amount: sums.assets.canonical(), currency: String::from_str(base_currency) },
            liabilities: MoneyDto { amount: sums.liabilities.canonical(), currency: String::from_str(base_currency) },
            net_worth: MoneyDto { amount: net_worth.canonical(), currency: String::from_str(base_currency) },
            by_category,
            by_member,
            by_institution,
            by_group,
            is_complete: sums.complete,
            unvalued_items: sums.unvalued,
        },
    )
}

} // verus!
