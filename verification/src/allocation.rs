//! Shares of a whole in basis points: one part rounded on its own, or all
//! parts divided by largest remainder.

use vstd::prelude::*;

use crate::amount::{canonical_text, decimal_checked_product, decimal_checked_quotient, DecimalValue, MoneyDto, MAX_SCALE};
use crate::decimal_parts::{
    compare_fractions, fraction_above, fraction_mantissa, fraction_same, pow10, round_half_even, rounded_half_even,
    split_whole, whole_part,
};
use crate::overview::{clamp_share_bps, AllocationRowDto, TOTAL_BPS};
use crate::text::{lemma_seq_less_total, lemma_seq_less_transitive, seq_less, text_less};

verus! {

/// A value held within zero and the whole.
pub open spec fn clamp_bps(value: int) -> int {
    if value < 0 { 0 } else if value > TOTAL_BPS { TOTAL_BPS as int } else { value }
}

/// An integer printed and read back as an `i32`: itself where it fits,
/// else zero.
pub open spec fn as_i32_or_zero(value: int) -> int {
    if i32::MIN <= value <= i32::MAX { value } else { 0 }
}

/// `part × 10000 / whole`, as `rust_decimal` multiplies and divides; `None`
/// where either step fails.
pub open spec fn bps_quotient(part: (i128, u32), whole: (i128, u32)) -> Option<(i128, u32)> {
    match decimal_checked_product(part.0, part.1, 10_000, 0) {
        Some(product) => decimal_checked_quotient(product.0, product.1, whole.0, whole.1),
        None => None,
    }
}

/// The raw share of one part for largest-remainder division: `Some(None)`
/// for a part that is not above zero, `Some(Some(q))` with its quotient
/// otherwise, and `None` where the arithmetic fails.
pub open spec fn raw_share(part: (i128, u32), whole: (i128, u32)) -> Option<Option<(i128, u32)>> {
    if part.0 <= 0 {
        Some(None)
    } else {
        match bps_quotient(part, whole) {
            Some(q) => Some(Some(q)),
            None => None,
        }
    }
}

/// The raw shares of all parts, where every one of them could be computed.
pub open spec fn raw_shares(parts: Seq<DecimalValue>, whole: (i128, u32)) -> Seq<Option<(i128, u32)>> {
    Seq::new(parts.len(), |i: int| raw_share(parts[i]@, whole).unwrap())
}

/// Every part's raw share could be computed.
pub open spec fn raw_shares_computed(parts: Seq<DecimalValue>, whole: (i128, u32)) -> bool {
    forall|i: int| 0 <= i < parts.len() ==> (#[trigger] raw_share(parts[i]@, whole)) is Some
}

/// The raw shares as values.
pub open spec fn raw_views(raws: Seq<Option<DecimalValue>>) -> Seq<Option<(i128, u32)>> {
    Seq::new(raws.len(), |i: int| match raws[i] {
        Some(v) => Some(v@),
        None => None,
    })
}

/// The whole basis points a raw share is worth before the remainder is
/// handed out: its whole part read as an `i32`, held within the whole
/// when `clamped`.
pub open spec fn floor_share(raw: (i128, u32), clamped: bool) -> int {
    let read = as_i32_or_zero(whole_part(raw));
    if clamped { clamp_bps(read) } else { read }
}

/// The floor of part `i`: zero for a part that is not above zero.
pub open spec fn part_floor(raws: Seq<Option<(i128, u32)>>, i: int, clamped: bool) -> int {
    match raws[i] {
        Some(q) => floor_share(q, clamped),
        None => 0,
    }
}

/// The floors of the first `n` parts added up.
pub open spec fn floors_through(raws: Seq<Option<(i128, u32)>>, n: nat, clamped: bool) -> int
    decreases n,
{
    if n == 0 {
        0
    } else {
        floors_through(raws, (n - 1) as nat, clamped) + part_floor(raws, n - 1, clamped)
    }
}

/// The basis points left once every floor is given out.
pub open spec fn leftover_points(raws: Seq<Option<(i128, u32)>>, clamped: bool) -> int {
    let left = TOTAL_BPS - floors_through(raws, raws.len(), clamped);
    if left < 0 { 0 } else { left }
}

/// Part `j` comes before part `i` when the remainder is handed out: both
/// are above zero, and `j` has the larger fractional part, or an equal one
/// and a lower index.
pub open spec fn ahead_of(raws: Seq<Option<(i128, u32)>>, j: int, i: int) -> bool {
    &&& raws[j] is Some
    &&& raws[i] is Some
    &&& {
        let a = raws[j].unwrap();
        let b = raws[i].unwrap();
        ||| fraction_above(fraction_mantissa(a), a.1 as nat, fraction_mantissa(b), b.1 as nat)
        ||| (fraction_same(fraction_mantissa(a), a.1 as nat, fraction_mantissa(b), b.1 as nat) && j < i)
    }
}

/// How many of the first `n` parts come before part `i`.
pub open spec fn rank_among(raws: Seq<Option<(i128, u32)>>, i: int, n: nat) -> nat
    decreases n,
{
    if n == 0 {
        0
    } else {
        rank_among(raws, i, (n - 1) as nat) + if ahead_of(raws, n - 1, i) { 1nat } else { 0nat }
    }
}

/// Part `i` is among those that receive one of the leftover points.
pub open spec fn gets_extra_point(raws: Seq<Option<(i128, u32)>>, i: int, clamped: bool) -> bool {
    raws[i] is Some && rank_among(raws, i, raws.len()) < leftover_points(raws, clamped)
}

/// The share of part `i`: its floor, plus one point if it is among the
/// first parts by fractional part while points are left.
pub open spec fn share_of(raws: Seq<Option<(i128, u32)>>, i: int, clamped: bool) -> int {
    let floor = part_floor(raws, i, clamped);
    if gets_extra_point(raws, i, clamped) {
        if clamped { clamp_bps(floor + 1) } else { floor + 1 }
    } else {
        floor
    }
}

/// The running total of floors, and the leftover computed from it, stay
/// within an `i32`.
pub open spec fn floors_fit(raws: Seq<Option<(i128, u32)>>, clamped: bool) -> bool {
    &&& forall|k: nat| k <= raws.len() ==> i32::MIN <= #[trigger] floors_through(raws, k, clamped) <= i32::MAX
    &&& TOTAL_BPS - floors_through(raws, raws.len(), clamped) <= i32::MAX
}

/// Without clamping, no part that receives a point already holds the
/// largest `i32`.
pub open spec fn extra_points_fit(raws: Seq<Option<(i128, u32)>>, clamped: bool) -> bool {
    clamped || forall|i: int| 0 <= i < raws.len() && #[trigger] gets_extra_point(raws, i, clamped) ==> part_floor(
        raws,
        i,
        clamped,
    ) < i32::MAX
}

/// The fractional part of a raw share, with its scale and bounds.
pub open spec fn fraction_of(raw: (i128, u32), f: (i128, u32)) -> bool {
    &&& f.0 == fraction_mantissa(raw)
    &&& f.1 == raw.1
    &&& f.1 <= MAX_SCALE
    &&& -pow10(f.1 as nat) < f.0 < pow10(f.1 as nat)
}

/// Divides the whole by largest remainder: each part receives the whole
/// basis points of its raw share, and the points left go one each to the
/// parts with the largest fractional parts, ties to the lower index. `None`
/// where the running total of floors, or a share given an extra point,
/// would leave an `i32`.
pub fn distribute_shares(raws: &Vec<Option<DecimalValue>>, clamped: bool) -> (shares: Option<Vec<i32>>)
    ensures
        shares is Some <==> (floors_fit(raw_views(raws@), clamped) && extra_points_fit(raw_views(raws@), clamped)),
        shares matches Some(v) ==> (v@.len() == raws@.len() && forall|i: int| 0 <= i < raws@.len() ==> v@[i] as int
            == share_of(raw_views(raws@), i, clamped)),
{
    let ghost rv = raw_views(raws@);
    let n = raws.len();
    let mut floors: Vec<i32> = Vec::new();
    let mut fractions: Vec<(i128, u32)> = Vec::new();
    let mut total: i32 = 0;
    let mut i: usize = 0;
    while i < n
        invariant
            i <= n,
            n == raws@.len(),
            rv == raw_views(raws@),
            rv.len() == n,
            floors@.len() == i,
            fractions@.len() == i,
            total as int == floors_through(rv, i as nat, clamped),
            forall|k: nat| k <= i ==> i32::MIN <= #[trigger] floors_through(rv, k, clamped) <= i32::MAX,
            forall|k: int| 0 <= k < i ==> floors@[k] as int == part_floor(rv, k, clamped),
            forall|k: int| 0 <= k < i && (#[trigger] rv[k]) is Some ==> fraction_of(rv[k].unwrap(), fractions@[k]),
        decreases n - i,
    {
        assert(rv[i as int] == match raws@[i as int] {
            Some(v) => Some(v@),
            None => None,
        });
        match &raws[i] {
            Some(raw) => {
                let (w, f) = split_whole(raw);
                let read: i32 = if i32::MIN as i128 <= w && w <= i32::MAX as i128 { w as i32 } else { 0 };
                let floor: i32 = if clamped { clamp_share_bps(read) } else { read };
                assert(floor as int == part_floor(rv, i as int, clamped));
                let next: i64 = total as i64 + floor as i64;
                if next < i32::MIN as i64 || next > i32::MAX as i64 {
                    assert(!floors_fit(rv, clamped)) by {
                        assert(floors_through(rv, (i + 1) as nat, clamped) == next);
                    }
                    return None;
                }
                total = next as i32;
                floors.push(floor);
                let scale = raw.parts().1;
                fractions.push((f, scale));
            },
            None => {
                floors.push(0);
                fractions.push((0, 0));
            },
        }
        i = i + 1;
        assert(total as int == floors_through(rv, i as nat, clamped));
    }
    if total < TOTAL_BPS - i32::MAX {
        return None;
    }
    assert(floors_fit(rv, clamped));
    let leftover: i32 = if TOTAL_BPS - total < 0 { 0 } else { TOTAL_BPS - total };
    assert(leftover as int == leftover_points(rv, clamped));
    let mut shares: Vec<i32> = Vec::new();
    let mut i: usize = 0;
    while i < n
        invariant
            i <= n,
            n == raws@.len(),
            rv == raw_views(raws@),
            rv.len() == n,
            floors_fit(rv, clamped),
            floors@.len() == n,
            fractions@.len() == n,
            leftover as int == leftover_points(rv, clamped),
            leftover >= 0,
            forall|k: int| 0 <= k < n ==> floors@[k] as int == part_floor(rv, k, clamped),
            forall|k: int| 0 <= k < n && (#[trigger] rv[k]) is Some ==> fraction_of(rv[k].unwrap(), fractions@[k]),
            shares@.len() == i,
            forall|k: int| 0 <= k < i ==> shares@[k] as int == share_of(rv, k, clamped),
            !clamped ==> forall|k: int| 0 <= k < i && #[trigger] gets_extra_point(rv, k, clamped) ==> part_floor(
                rv,
                k,
                clamped,
            ) < i32::MAX,
        decreases n - i,
    {
        assert(rv[i as int] == match raws@[i as int] {
            Some(v) => Some(v@),
            None => None,
        });
        if raws[i].is_none() {
            shares.push(0);
        } else {
            let mut rank: usize = 0;
            let mut j: usize = 0;
            while j < n
                invariant
                    j <= n,
                    i < n,
                    n == raws@.len(),
                    rv == raw_views(raws@),
                    rv.len() == n,
                    rv[i as int] is Some,
                    fractions@.len() == n,
                    forall|k: int| 0 <= k < n && (#[trigger] rv[k]) is Some ==> fraction_of(rv[k].unwrap(), fractions@[k]),
                    rank as int == rank_among(rv, i as int, j as nat),
                    rank <= j,
                decreases n - j,
            {
                assert(rv[j as int] == match raws@[j as int] {
                    Some(v) => Some(v@),
                    None => None,
                });
                if raws[j].is_some() {
                    let (above, same) = compare_fractions(fractions[j].0, fractions[j].1, fractions[i].0, fractions[i].1);
                    if above || (same && j < i) {
                        rank = rank + 1;
                    }
                }
                j = j + 1;
            }
            let floor = floors[i];
            let extra = rank < leftover as usize;
            assert(extra == gets_extra_point(rv, i as int, clamped));
            if extra && !clamped && floor == i32::MAX {
                return None;
            }
            let share: i32 = if extra {
                if clamped {
                    clamp_share_bps(floor + 1)
                } else {
                    floor + 1
                }
            } else {
                floor
            };
            shares.push(share);
        }
        i = i + 1;
    }
    Some(shares)
}

/// Divides the whole among the parts in basis points by largest remainder,
/// each share held within the whole (the overview's member rows). All zero
/// when the whole is zero or there are no parts; `None` where the
/// arithmetic overflows.
pub fn allocate_share_bps(parts: &Vec<DecimalValue>, whole: DecimalValue) -> (shares: Option<Vec<i32>>)
    ensures
        (whole@.0 == 0 || parts@.len() == 0) ==> (shares matches Some(v) && v@ == Seq::new(
            parts@.len(),
            |i: int| 0i32,
        )),
        !(whole@.0 == 0 || parts@.len() == 0) ==> (shares is Some <==> (raw_shares_computed(parts@, whole@)
            && floors_fit(raw_shares(parts@, whole@), true))),
        !(whole@.0 == 0 || parts@.len() == 0) ==> (shares matches Some(v) ==> (v@.len() == parts@.len()
            && forall|i: int| 0 <= i < parts@.len() ==> v@[i] as int == share_of(raw_shares(parts@, whole@), i, true))),
{
    split_by_largest_remainder(parts, whole, true)
}

/// Divides the whole among the parts in basis points by largest remainder,
/// shares not held within the whole (the portfolio's allocation rows). All
/// zero when the whole is zero or there are no parts; `None` where the
/// arithmetic overflows.
pub fn allocate(parts: &Vec<DecimalValue>, whole: DecimalValue) -> (shares: Option<Vec<i32>>)
    ensures
        (whole@.0 == 0 || parts@.len() == 0) ==> (shares matches Some(v) && v@ == Seq::new(
            parts@.len(),
            |i: int| 0i32,
        )),
        !(whole@.0 == 0 || parts@.len() == 0) ==> (shares is Some <==> (raw_shares_computed(parts@, whole@)
            && floors_fit(raw_shares(parts@, whole@), false) && extra_points_fit(raw_shares(parts@, whole@), false))),
        !(whole@.0 == 0 || parts@.len() == 0) ==> (shares matches Some(v) ==> (v@.len() == parts@.len()
            && forall|i: int| 0 <= i < parts@.len() ==> v@[i] as int == share_of(raw_shares(parts@, whole@), i, false))),
{
    split_by_largest_remainder(parts, whole, false)
}

fn split_by_largest_remainder(parts: &Vec<DecimalValue>, whole: DecimalValue, clamped: bool) -> (shares: Option<Vec<i32>>)
    ensures
        (whole@.0 == 0 || parts@.len() == 0) ==> (shares matches Some(v) && v@ == Seq::new(
            parts@.len(),
            |i: int| 0i32,
        )),
        !(whole@.0 == 0 || parts@.len() == 0) ==> (shares is Some <==> (raw_shares_computed(parts@, whole@)
            && floors_fit(raw_shares(parts@, whole@), clamped) && extra_points_fit(raw_shares(parts@, whole@), clamped))),
        !(whole@.0 == 0 || parts@.len() == 0) ==> (shares matches Some(v) ==> (v@.len() == parts@.len()
            && forall|i: int| 0 <= i < parts@.len() ==> v@[i] as int == share_of(raw_shares(parts@, whole@), i, clamped))),
{
    let n = parts.len();
    if whole.is_zero() || n == 0 {
        let mut zeros: Vec<i32> = Vec::new();
        let mut i: usize = 0;
        while i < n
            invariant
                i <= n,
                zeros@ == Seq::new(i as nat, |k: int| 0i32),
            decreases n - i,
        {
            zeros.push(0);
            i = i + 1;
            assert(zeros@ =~= Seq::new(i as nat, |k: int| 0i32));
        }
        return Some(zeros);
    }
    let ten_thousand = DecimalValue::from_parts(10_000, 0);
    let mut raws: Vec<Option<DecimalValue>> = Vec::new();
    let mut i: usize = 0;
    while i < n
        invariant
            i <= n,
            n == parts@.len(),
            ten_thousand@ == (10_000i128, 0u32),
            raws@.len() == i,
            forall|k: int| 0 <= k < i ==> (#[trigger] raw_share(parts@[k]@, whole@)) is Some,
            forall|k: int| 0 <= k < i ==> (match #[trigger] raws@[k] {
                Some(v) => Some(v@),
                None => None,
            }) == raw_share(parts@[k]@, whole@).unwrap(),
            !(whole@.0 == 0 || parts@.len() == 0),
        decreases n - i,
    {
        let part = &parts[i];
        if part.is_negative() || part.is_zero() {
            raws.push(None);
        } else {
            match part.checked_mul(&ten_thousand) {
                None => {
                    assert(raw_share(parts@[i as int]@, whole@) is None);
                    assert(!raw_shares_computed(parts@, whole@));
                    return None;
                },
                Some(product) => match product.checked_div(&whole) {
                    None => {
                        assert(raw_share(parts@[i as int]@, whole@) is None);
                        assert(!raw_shares_computed(parts@, whole@));
                        return None;
                    },
                    Some(q) => {
                        raws.push(Some(q));
                    },
                },
            }
        }
        i = i + 1;
    }
    assert(raw_views(raws@) =~= raw_shares(parts@, whole@));
    distribute_shares(&raws, clamped)
}

/// A part's share of the whole on its own: the quotient rounded half to
/// even, read as an `i32` and held within the whole.
pub open spec fn rounded_share(quotient: (i128, u32)) -> int {
    clamp_bps(as_i32_or_zero(rounded_half_even(quotient)))
}

/// One part's share of the whole in basis points, rounded on its own (the
/// overview's category rows). Zero when the whole is zero or the part is
/// below zero; `None` where the arithmetic overflows.
pub fn share_bps(part: DecimalValue, whole: DecimalValue) -> (share: Option<i32>)
    ensures
        (whole@.0 == 0 || part@.0 < 0) ==> share == Some(0i32),
        !(whole@.0 == 0 || part@.0 < 0) ==> (share matches Some(s) ==> bps_quotient(part@, whole@) matches Some(
            q,
        ) && s as int == rounded_share(q)),
        !(whole@.0 == 0 || part@.0 < 0) ==> (share is None <==> bps_quotient(part@, whole@) is None),
{
    if whole.is_zero() || part.is_negative() {
        return Some(0);
    }
    let ten_thousand = DecimalValue::from_parts(10_000, 0);
    let product = match part.checked_mul(&ten_thousand) {
        Some(product) => product,
        None => {
            return None;
        },
    };
    let quotient = match product.checked_div(&whole) {
        Some(quotient) => quotient,
        None => {
            return None;
        },
    };
    let rounded = round_half_even(&quotient);
    let read: i32 = if i32::MIN as i128 <= rounded && rounded <= i32::MAX as i128 { rounded as i32 } else { 0 };
    Some(clamp_share_bps(read))
}

/// The shares largest-remainder division gives, as integers; `None` where
/// the arithmetic overflows.
pub open spec fn largest_remainder(parts: Seq<DecimalValue>, whole: (i128, u32), clamped: bool) -> Option<Seq<int>> {
    if whole.0 == 0 || parts.len() == 0 {
        Some(Seq::new(parts.len(), |i: int| 0int))
    } else if raw_shares_computed(parts, whole) && floors_fit(raw_shares(parts, whole), clamped) && extra_points_fit(
        raw_shares(parts, whole),
        clamped,
    ) {
        Some(Seq::new(parts.len(), |i: int| share_of(raw_shares(parts, whole), i, clamped)))
    } else {
        None
    }
}

/// Integers as they are printed in a row.
pub open spec fn as_ints(v: Seq<i32>) -> Seq<int> {
    Seq::new(v.len(), |i: int| v[i] as int)
}

/// The portfolio's split of a whole by largest remainder, as `allocate`
/// computes it, restated over `largest_remainder`.
fn allocate_exactly(parts: &Vec<DecimalValue>, whole: DecimalValue) -> (shares: Option<Vec<i32>>)
    ensures
        match shares {
            Some(v) => largest_remainder(parts@, whole@, false) == Some(as_ints(v@)),
            None => largest_remainder(parts@, whole@, false) is None,
        },
{
    let shares = allocate(parts, whole);
    proof {
        if shares is Some {
            assert(as_ints(shares->Some_0@) =~= largest_remainder(parts@, whole@, false)->Some_0);
        }
    }
    shares
}

/// Keys strictly increasing.
pub open spec fn keys_increasing(kept: Seq<(String, DecimalValue)>) -> bool {
    forall|a: int, b: int| 0 <= a < b < kept.len() ==> seq_less((#[trigger] kept[a]).0@, (#[trigger] kept[b]).0@)
}

/// An entry is one of the first `n` totals.
pub open spec fn among(totals: Seq<(String, DecimalValue)>, n: int, entry: (String, DecimalValue)) -> bool {
    exists|j: int| 0 <= j < n && (#[trigger] totals[j]).0@ == entry.0@ && totals[j].1@ == entry.1@
}

/// Some kept entry has the key.
pub open spec fn key_kept(kept: Seq<(String, DecimalValue)>, key: Seq<char>) -> bool {
    exists|a: int| 0 <= a < kept.len() && (#[trigger] kept[a]).0@ == key
}

/// The entries of the first `n` totals kept in a row: those that are not
/// zero, ordered by key, keys strictly increasing.
pub open spec fn kept_through(totals: Seq<(String, DecimalValue)>, n: int, kept: Seq<(String, DecimalValue)>) -> bool {
    &&& keys_increasing(kept)
    &&& forall|a: int| 0 <= a < kept.len() ==> (#[trigger] kept[a]).1@.0 != 0 && among(totals, n, kept[a])
    &&& forall|j: int| 0 <= j < n && (#[trigger] totals[j]).1@.0 != 0 ==> key_kept(kept, totals[j].0@)
}

/// The entries of all totals kept in a row.
pub open spec fn kept_in_order(totals: Seq<(String, DecimalValue)>, kept: Seq<(String, DecimalValue)>) -> bool {
    kept_through(totals, totals.len() as int, kept)
}

/// The keys of the totals are distinct.
pub open spec fn distinct_keys(totals: Seq<(String, DecimalValue)>) -> bool {
    forall|a: int, b: int| 0 <= a < b < totals.len() ==> (#[trigger] totals[a]).0@ != (#[trigger] totals[b]).0@
}

/// Inserting the next non-zero total where its key belongs keeps the row
/// in order.
proof fn lemma_insert_in_order(
    totals: Seq<(String, DecimalValue)>,
    i: int,
    before: Seq<(String, DecimalValue)>,
    position: int,
    entry: (String, DecimalValue),
)
    requires
        0 <= i < totals.len(),
        distinct_keys(totals),
        kept_through(totals, i, before),
        entry.0@ == totals[i].0@,
        entry.1@ == totals[i].1@,
        entry.1@.0 != 0,
        0 <= position <= before.len(),
        forall|a: int| 0 <= a < position ==> seq_less((#[trigger] before[a]).0@, entry.0@),
        position < before.len() ==> !seq_less(before[position].0@, entry.0@),
    ensures
        kept_through(totals, i + 1, before.insert(position, entry)),
{
    let now = before.insert(position, entry);
    if position < before.len() {
        assert(among(totals, i, before[position]));
        let j = choose|j: int| 0 <= j < i && (#[trigger] totals[j]).0@ == before[position].0@ && totals[j].1@ == before[position].1@;
        assert(totals[j].0@ != totals[i].0@);
        lemma_seq_less_total(entry.0@, before[position].0@);
        assert forall|b: int| position <= b < before.len() implies seq_less(entry.0@, (#[trigger] before[b]).0@) by {
            if b > position {
                lemma_seq_less_transitive(entry.0@, before[position].0@, before[b].0@);
            }
        }
    }
    assert forall|a: int, b: int| 0 <= a < b < now.len() implies seq_less((#[trigger] now[a]).0@, (#[trigger] now[b]).0@) by {
        if b < position {
            assert(now[a] == before[a] && now[b] == before[b]);
        } else if b == position {
            assert(now[a] == before[a]);
        } else if a < position {
            assert(now[a] == before[a] && now[b] == before[b - 1]);
            lemma_seq_less_transitive(before[a].0@, entry.0@, before[b - 1].0@);
        } else if a == position {
            assert(now[b] == before[b - 1]);
        } else {
            assert(now[a] == before[a - 1] && now[b] == before[b - 1]);
        }
    }
    assert forall|a: int| 0 <= a < now.len() implies (#[trigger] now[a]).1@.0 != 0 && among(totals, i + 1, now[a]) by {
        if a < position {
            assert(now[a] == before[a]);
            assert(among(totals, i, before[a]));
            let j = choose|j: int| 0 <= j < i && (#[trigger] totals[j]).0@ == before[a].0@ && totals[j].1@ == before[a].1@;
            assert(0 <= j < i + 1);
        } else if a == position {
            assert(now[a] == entry);
            assert(totals[i].0@ == now[a].0@);
        } else {
            assert(now[a] == before[a - 1]);
            assert(among(totals, i, before[a - 1]));
            let j = choose|j: int| 0 <= j < i && (#[trigger] totals[j]).0@ == before[a - 1].0@ && totals[j].1@ == before[a - 1].1@;
            assert(0 <= j < i + 1);
        }
    }
    assert forall|j: int| 0 <= j < i + 1 && (#[trigger] totals[j]).1@.0 != 0 implies key_kept(now, totals[j].0@) by {
        if j < i {
            assert(key_kept(before, totals[j].0@));
            let a = choose|a: int| 0 <= a < before.len() && (#[trigger] before[a]).0@ == totals[j].0@;
            if a < position {
                assert(now[a] == before[a]);
            } else {
                assert(now[a + 1] == before[a]);
            }
        } else {
            assert(now[position] == entry);
        }
    }
}

/// A zero total leaves the row as it was.
proof fn lemma_skip_zero(totals: Seq<(String, DecimalValue)>, i: int, kept: Seq<(String, DecimalValue)>)
    requires
        0 <= i < totals.len(),
        kept_through(totals, i, kept),
        totals[i].1@.0 == 0,
    ensures
        kept_through(totals, i + 1, kept),
{
    assert forall|a: int| 0 <= a < kept.len() implies (#[trigger] kept[a]).1@.0 != 0 && among(totals, i + 1, kept[a]) by {
        assert(among(totals, i, kept[a]));
        let j = choose|j: int| 0 <= j < i && (#[trigger] totals[j]).0@ == kept[a].0@ && totals[j].1@ == kept[a].1@;
        assert(0 <= j < i + 1);
    }
}

/// The non-zero totals, ordered by key.
fn nonzero_by_key(totals: &Vec<(String, DecimalValue)>) -> (kept: Vec<(String, DecimalValue)>)
    requires
        distinct_keys(totals@),
    ensures
        kept_in_order(totals@, kept@),
{
    let mut kept: Vec<(String, DecimalValue)> = Vec::new();
    let mut i: usize = 0;
    while i < totals.len()
        invariant
            i <= totals@.len(),
            distinct_keys(totals@),
            kept_through(totals@, i as int, kept@),
        decreases totals@.len() - i,
    {
        let entry = &totals[i];
        if !entry.1.is_zero() {
            let mut position: usize = 0;
            while position < kept.len() && text_less(kept[position].0.as_str(), entry.0.as_str())
                invariant
                    position <= kept@.len(),
                    forall|a: int| 0 <= a < position ==> seq_less((#[trigger] kept@[a]).0@, entry.0@),
                decreases kept@.len() - position,
            {
                position = position + 1;
            }
            let ghost before = kept@;
            let copy = (entry.0.clone(), entry.1);
            kept.insert(position, copy);
            proof {
                lemma_insert_in_order(totals@, i as int, before, position as int, copy);
            }
        } else {
            proof {
                lemma_skip_zero(totals@, i as int, kept@);
            }
        }
        i = i + 1;
    }
    kept
}

/// The rows made of the kept totals: each key with its canonical amount in
/// the currency and its share of the whole by largest remainder.
pub open spec fn rows_of_kept(
    kept: Seq<(String, DecimalValue)>,
    whole: (i128, u32),
    currency: Seq<char>,
    r: Seq<AllocationRowDto>,
) -> bool {
    &&& kept.len() == r.len()
    &&& largest_remainder(Seq::new(kept.len(), |k: int| kept[k].1), whole, false) matches Some(shares)
    &&& forall|k: int| 0 <= k < r.len() ==> {
        &&& (#[trigger] r[k]).key@ == kept[k].0@
        &&& r[k].name matches Some(n) && n@ == kept[k].0@
        &&& r[k].amount.amount@ == canonical_text(kept[k].1@)
        &&& r[k].amount.currency@ == currency
        &&& r[k].share_bps as int == shares[k]
    }
}

/// `r` are the allocation rows of the totals: the non-zero ones ordered by
/// key, each with its amount and its share of the whole.
pub open spec fn allocated_rows(
    totals: Seq<(String, DecimalValue)>,
    whole: (i128, u32),
    currency: Seq<char>,
    r: Seq<AllocationRowDto>,
) -> bool {
    exists|kept: Seq<(String, DecimalValue)>| kept_in_order(totals, kept) && rows_of_kept(kept, whole, currency, r)
}

/// The shares of the non-zero totals cannot be computed in range.
pub open spec fn allocation_overflows(totals: Seq<(String, DecimalValue)>, whole: (i128, u32)) -> bool {
    exists|kept: Seq<(String, DecimalValue)>| kept_in_order(totals, kept) && largest_remainder(
        Seq::new(kept.len(), |k: int| kept[k].1),
        whole,
        false,
    ) is None
}

/// The allocation rows of a portfolio breakdown: the non-zero totals
/// ordered by key, each with its canonical amount in the currency and its
/// share of the whole by largest remainder. `None` where the arithmetic
/// overflows.
pub fn allocation_rows(
    totals: &Vec<(String, DecimalValue)>,
    whole: DecimalValue,
    currency: &str,
) -> (rows: Option<Vec<AllocationRowDto>>)
    requires
        distinct_keys(totals@),
    ensures
        rows matches Some(r) ==> allocated_rows(totals@, whole@, currency@, r@),
        rows is None ==> allocation_overflows(totals@, whole@),
{
    let kept = nonzero_by_key(totals);
    let mut parts: Vec<DecimalValue> = Vec::new();
    let mut i: usize = 0;
    while i < kept.len()
        invariant
            i <= kept@.len(),
            parts@.len() == i,
            forall|k: int| 0 <= k < i ==> parts@[k] == kept@[k].1,
        decreases kept@.len() - i,
    {
        parts.push(kept[i].1);
        i = i + 1;
    }
    assert(parts@ =~= Seq::new(kept@.len(), |k: int| kept@[k].1));
    let shares = match allocate_exactly(&parts, whole) {
        Some(shares) => shares,
        None => {
            assert(kept_in_order(totals@, kept@));
            return None;
        },
    };
    let ghost expected = largest_remainder(parts@, whole@, false)->Some_0;
    assert(shares@.len() == kept@.len()) by {
        assert(as_ints(shares@).len() == expected.len());
    }
    let mut rows: Vec<AllocationRowDto> = Vec::new();
    let mut k: usize = 0;
    while k < kept.len()
        invariant
            k <= kept@.len(),
            kept_in_order(totals@, kept@),
            shares@.len() == kept@.len(),
            as_ints(shares@) == expected,
            rows@.len() == k,
            forall|x: int| 0 <= x < k ==> {
                &&& (#[trigger] rows@[x]).key@ == kept@[x].0@
                &&& rows@[x].name matches Some(n) && n@ == kept@[x].0@
                &&& rows@[x].amount.amount@ == canonical_text(kept@[x].1@)
                &&& rows@[x].amount.currency@ == currency@
                &&& rows@[x].share_bps as int == expected[x]
            },
        decreases kept@.len() - k,
    {
        let key = kept[k].0.clone();
        let name = kept[k].0.clone();
        assert(as_ints(shares@)[k as int] == shares@[k as int] as int);
        rows.push(AllocationRowDto {
            key,
            name: Some(name),
            amount: MoneyDto { amount: kept[k].1.canonical(), currency: String::from_str(currency) },
            share_bps: shares[k],
        });
        k = k + 1;
    }
    assert(rows_of_kept(kept@, whole@, currency@, rows@));
    Some(rows)
}

} // verus!
