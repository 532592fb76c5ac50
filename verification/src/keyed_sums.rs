//! Running decimal sums, overall and per key, as `rust_decimal` adds them.

use vstd::prelude::*;

use crate::amount::{decimal_checked_sum, DecimalValue};
use crate::error::AppError;
use crate::text::text_eq;

verus! {

/// The values added left to right from zero, each step by
/// `Decimal::checked_add`; `None` once a step overflows.
pub open spec fn running_sum(values: Seq<(i128, u32)>) -> Option<(i128, u32)>
    decreases values.len(),
{
    if values.len() == 0 {
        Some((0i128, 0u32))
    } else {
        match running_sum(values.drop_last()) {
            Some(acc) => decimal_checked_sum(acc.0, acc.1, values.last().0, values.last().1),
            None => None,
        }
    }
}

/// The values filed under `key`, in order.
pub open spec fn values_for(entries: Seq<(Seq<char>, (i128, u32))>, key: Seq<char>) -> Seq<(i128, u32)>
    decreases entries.len(),
{
    if entries.len() == 0 {
        Seq::empty()
    } else {
        let rest = values_for(entries.drop_last(), key);
        if entries.last().0 == key {
            rest.push(entries.last().1)
        } else {
            rest
        }
    }
}

/// What `f` gives each item, in order; items it gives nothing are skipped.
pub open spec fn collect<T, U>(items: Seq<T>, f: spec_fn(T) -> Option<U>) -> Seq<U>
    decreases items.len(),
{
    if items.len() == 0 {
        Seq::empty()
    } else {
        let rest = collect(items.drop_last(), f);
        match f(items.last()) {
            Some(u) => rest.push(u),
            None => rest,
        }
    }
}

/// One more item adds what `f` gives it.
pub proof fn lemma_collect_push<T, U>(items: Seq<T>, item: T, f: spec_fn(T) -> Option<U>)
    ensures
        collect(items.push(item), f) == match f(item) {
            Some(u) => collect(items, f).push(u),
            None => collect(items, f),
        },
{
    assert(items.push(item).drop_last() =~= items);
}

/// The first `n + 1` items are the first `n` and one more.
pub proof fn lemma_collect_next<T, U>(items: Seq<T>, n: int, f: spec_fn(T) -> Option<U>)
    requires
        0 <= n < items.len(),
    ensures
        collect(items.subrange(0, n + 1), f) == match f(items[n]) {
            Some(u) => collect(items.subrange(0, n), f).push(u),
            None => collect(items.subrange(0, n), f),
        },
{
    assert(items.subrange(0, n + 1) =~= items.subrange(0, n).push(items[n]));
    lemma_collect_push(items.subrange(0, n), items[n], f);
}

/// What the first `n` items give comes first in what all the items give.
pub proof fn lemma_collect_prefix<T, U>(items: Seq<T>, n: int, f: spec_fn(T) -> Option<U>)
    requires
        0 <= n <= items.len(),
    ensures
        collect(items.subrange(0, n), f).len() <= collect(items, f).len(),
        forall|k: int| 0 <= k < collect(items.subrange(0, n), f).len() ==> #[trigger] collect(items.subrange(0, n), f)[k]
            == collect(items, f)[k],
    decreases items.len() - n,
{
    if n == items.len() {
        assert(items.subrange(0, n) =~= items);
    } else {
        lemma_collect_next(items, n, f);
        lemma_collect_prefix(items, n + 1, f);
        let shorter = collect(items.subrange(0, n), f);
        let longer = collect(items.subrange(0, n + 1), f);
        assert forall|k: int| 0 <= k < shorter.len() implies #[trigger] shorter[k] == collect(
            items,
            f,
        )[k] by {
            assert(shorter[k] == longer[k]);
        }
    }
}

/// A key whose sum overflows over the first `n` items overflows over all.
pub proof fn lemma_overflow_persists<T>(
    items: Seq<T>,
    n: int,
    f: spec_fn(T) -> Option<(Seq<char>, (i128, u32))>,
    key: Seq<char>,
)
    requires
        0 <= n <= items.len(),
        running_sum(values_for(collect(items.subrange(0, n), f), key)) is None,
    ensures
        running_sum(values_for(collect(items, f), key)) is None,
    decreases items.len() - n,
{
    if n == items.len() {
        assert(items.subrange(0, n) =~= items);
    } else {
        lemma_collect_next(items, n, f);
        match f(items[n]) {
            Some(e) => {
                lemma_overflow_stays(collect(items.subrange(0, n), f), e, key);
            },
            None => {},
        }
        lemma_overflow_persists(items, n + 1, f, key);
    }
}

/// What `f` gives each item, joined in order.
pub open spec fn flat_collect<T, U>(items: Seq<T>, f: spec_fn(T) -> Seq<U>) -> Seq<U>
    decreases items.len(),
{
    if items.len() == 0 {
        Seq::empty()
    } else {
        flat_collect(items.drop_last(), f) + f(items.last())
    }
}

/// The first `n + 1` items give what the first `n` give, then the next one's.
pub proof fn lemma_flat_collect_next<T, U>(items: Seq<T>, n: int, f: spec_fn(T) -> Seq<U>)
    requires
        0 <= n < items.len(),
    ensures
        flat_collect(items.subrange(0, n + 1), f) == flat_collect(items.subrange(0, n), f) + f(items[n]),
{
    assert(items.subrange(0, n + 1).drop_last() =~= items.subrange(0, n));
}

/// Appending entries keeps an overflowed sum overflowed.
pub proof fn lemma_overflow_extends(
    entries: Seq<(Seq<char>, (i128, u32))>,
    more: Seq<(Seq<char>, (i128, u32))>,
    key: Seq<char>,
)
    requires
        running_sum(values_for(entries, key)) is None,
    ensures
        running_sum(values_for(entries + more, key)) is None,
    decreases more.len(),
{
    if more.len() == 0 {
        assert(entries + more =~= entries);
    } else {
        lemma_overflow_extends(entries, more.drop_last(), key);
        assert(entries + more =~= (entries + more.drop_last()).push(more.last()));
        lemma_overflow_stays(entries + more.drop_last(), more.last(), key);
    }
}

/// A key whose sum overflows over the first `n` items' joined entries
/// overflows over all of them.
pub proof fn lemma_flat_overflow_persists<T>(
    items: Seq<T>,
    n: int,
    f: spec_fn(T) -> Seq<(Seq<char>, (i128, u32))>,
    key: Seq<char>,
)
    requires
        0 <= n <= items.len(),
        running_sum(values_for(flat_collect(items.subrange(0, n), f), key)) is None,
    ensures
        running_sum(values_for(flat_collect(items, f), key)) is None,
    decreases items.len() - n,
{
    if n == items.len() {
        assert(items.subrange(0, n) =~= items);
    } else {
        lemma_flat_collect_next(items, n, f);
        lemma_overflow_extends(flat_collect(items.subrange(0, n), f), f(items[n]), key);
        lemma_flat_overflow_persists(items, n + 1, f, key);
    }
}

/// Every key's running sum stays within range.
pub open spec fn all_keys_fit(entries: Seq<(Seq<char>, (i128, u32))>) -> bool {
    forall|key: Seq<char>| #[trigger] running_sum(values_for(entries, key)) is Some
}

/// `totals` holds one entry per key that has values or is seeded, with
/// that key's sum (zero for a seeded key without values).
pub open spec fn seeded_totals(
    totals: Seq<(String, DecimalValue)>,
    seeds: Set<Seq<char>>,
    entries: Seq<(Seq<char>, (i128, u32))>,
) -> bool {
    &&& forall|a: int, b: int| 0 <= a < b < totals.len() ==> (#[trigger] totals[a]).0@ != (#[trigger] totals[b]).0@
    &&& forall|a: int| 0 <= a < totals.len() ==> (values_for(entries, (#[trigger] totals[a]).0@).len() > 0
        || seeds.contains(totals[a].0@)) && running_sum(values_for(entries, totals[a].0@)) == Some(totals[a].1@)
    &&& forall|key: Seq<char>|
        #![trigger values_for(entries, key)]
        #![trigger seeds.contains(key)]
        values_for(entries, key).len() > 0 || seeds.contains(key) ==> exists|a: int|
            0 <= a < totals.len() && (#[trigger] totals[a]).0@ == key
}

/// `totals` holds one entry per key that has values, with that key's sum.
pub open spec fn totals_by_key(totals: Seq<(String, DecimalValue)>, entries: Seq<(Seq<char>, (i128, u32))>) -> bool {
    seeded_totals(totals, Set::empty(), entries)
}

/// Adding one more value to a sequence adds it to the running sum.
pub proof fn lemma_running_sum_push(values: Seq<(i128, u32)>, value: (i128, u32))
    ensures
        running_sum(values.push(value)) == match running_sum(values) {
            Some(acc) => decimal_checked_sum(acc.0, acc.1, value.0, value.1),
            None => None,
        },
{
    assert(values.push(value).drop_last() =~= values);
}

/// A new entry files its value under its key and leaves the other keys alone.
pub proof fn lemma_values_for_push(entries: Seq<(Seq<char>, (i128, u32))>, entry: (Seq<char>, (i128, u32)), key: Seq<char>)
    ensures
        values_for(entries.push(entry), key) == if entry.0 == key {
            values_for(entries, key).push(entry.1)
        } else {
            values_for(entries, key)
        },
{
    assert(entries.push(entry).drop_last() =~= entries);
}

/// Once a key's sum overflows it stays overflowed.
pub proof fn lemma_overflow_stays(entries: Seq<(Seq<char>, (i128, u32))>, entry: (Seq<char>, (i128, u32)), key: Seq<char>)
    requires
        running_sum(values_for(entries, key)) is None,
    ensures
        running_sum(values_for(entries.push(entry), key)) is None,
{
    lemma_values_for_push(entries, entry, key);
    lemma_running_sum_push(values_for(entries, key), entry.1);
}

/// No values: nothing is filed.
pub proof fn lemma_no_entries(key: Seq<char>)
    ensures
        values_for(Seq::empty(), key).len() == 0,
        running_sum(values_for(Seq::empty(), key)) == Some((0i128, 0u32)),
{
}

/// Files `value` under `key` in `totals`: adds it to the key's sum, or
/// starts the key at zero plus the value. `DecimalOverflow` when the sum
/// leaves the range, and then `totals` is left as it was.
pub fn add_to_key(
    totals: &mut Vec<(String, DecimalValue)>,
    key: &String,
    value: DecimalValue,
    Ghost(seeds): Ghost<Set<Seq<char>>>,
    Ghost(entries): Ghost<Seq<(Seq<char>, (i128, u32))>>,
) -> (added: Result<(), AppError>)
    requires
        seeded_totals(old(totals)@, seeds, entries),
        all_keys_fit(entries),
    ensures
        added is Ok <==> running_sum(values_for(entries.push((key@, value@)), key@)) is Some,
        added is Ok ==> seeded_totals(final(totals)@, seeds, entries.push((key@, value@))) && all_keys_fit(
            entries.push((key@, value@)),
        ),
        added matches Err(e) ==> e is DecimalOverflow,
{
    let ghost next = entries.push((key@, value@));
    proof {
        lemma_values_for_push(entries, (key@, value@), key@);
        lemma_running_sum_push(values_for(entries, key@), value@);
    }
    let mut i: usize = 0;
    while i < totals.len()
        invariant
            i <= totals@.len(),
            forall|a: int| 0 <= a < i ==> (#[trigger] totals@[a]).0@ != key@,
        ensures
            i <= totals@.len(),
            forall|a: int| 0 <= a < i ==> (#[trigger] totals@[a]).0@ != key@,
            i < totals@.len() ==> totals@[i as int].0@ == key@,
        decreases totals@.len() - i,
    {
        if text_eq(totals[i].0.as_str(), key.as_str()) {
            break;
        }
        i = i + 1;
    }
    let current = if i < totals.len() { totals[i].1 } else { DecimalValue::zero() };
    assert(running_sum(values_for(entries, key@)) == Some(current@)) by {
        if i >= totals@.len() {
            if values_for(entries, key@).len() > 0 || seeds.contains(key@) {
                let a = choose|a: int| 0 <= a < totals@.len() && (#[trigger] totals@[a]).0@ == key@;
            }
            assert(values_for(entries, key@) =~= Seq::<(i128, u32)>::empty());
        }
    }
    let sum = match current.checked_add(&value) {
        Some(sum) => sum,
        None => {
            return Err(AppError::DecimalOverflow);
        },
    };
    let ghost before = totals@;
    if i < totals.len() {
        let kept_key = totals[i].0.clone();
        totals.set(i, (kept_key, sum));
    } else {
        totals.push((key.clone(), sum));
    }
    proof {
        assert forall|k: Seq<char>| #[trigger] running_sum(values_for(next, k)) is Some by {
            lemma_values_for_push(entries, (key@, value@), k);
            lemma_running_sum_push(values_for(entries, k), value@);
            assert(running_sum(values_for(entries, k)) is Some);
        }
        assert forall|a: int| 0 <= a < totals@.len() implies (values_for(next, (#[trigger] totals@[a]).0@).len() > 0
            || seeds.contains(totals@[a].0@)) && running_sum(values_for(next, totals@[a].0@)) == Some(totals@[a].1@) by {
            lemma_values_for_push(entries, (key@, value@), totals@[a].0@);
            if a < before.len() && a != i {
                assert(totals@[a] == before[a]);
            }
        }
        assert forall|k: Seq<char>|
            #![trigger values_for(next, k)]
            #![trigger seeds.contains(k)]
            values_for(next, k).len() > 0 || seeds.contains(k) implies exists|a: int|
                0 <= a < totals@.len() && (#[trigger] totals@[a]).0@ == k by {
            lemma_values_for_push(entries, (key@, value@), k);
            if k == key@ {
                assert(totals@[i as int].0@ == k);
            } else {
                assert(values_for(entries, k).len() > 0 || seeds.contains(k));
                let a = choose|a: int| 0 <= a < before.len() && (#[trigger] before[a]).0@ == k;
                assert(totals@[a] == before[a]);
            }
        }
        assert forall|a: int, b: int| 0 <= a < b < totals@.len() implies (#[trigger] totals@[a]).0@
            != (#[trigger] totals@[b]).0@ by {
            if b < before.len() {
                if a != i && b != i {
                    assert(totals@[a] == before[a] && totals@[b] == before[b]);
                } else if a == i {
                    assert(totals@[b] == before[b]);
                } else {
                    assert(totals@[a] == before[a]);
                }
            } else {
                assert(totals@[a] == before[a]);
            }
        }
    }
    Ok(())
}

/// Seeds `key` at zero unless it is already held. Seeding happens before
/// any value is filed.
pub fn seed_key(
    totals: &mut Vec<(String, DecimalValue)>,
    key: &String,
    Ghost(seeds): Ghost<Set<Seq<char>>>,
)
    requires
        seeded_totals(old(totals)@, seeds, Seq::empty()),
    ensures
        seeded_totals(final(totals)@, seeds.insert(key@), Seq::empty()),
{
    let ghost none = Seq::<(Seq<char>, (i128, u32))>::empty();
    let mut i: usize = 0;
    while i < totals.len()
        invariant
            i <= totals@.len(),
            seeded_totals(totals@, seeds, none),
            none == Seq::<(Seq<char>, (i128, u32))>::empty(),
            forall|a: int| 0 <= a < i ==> (#[trigger] totals@[a]).0@ != key@,
        decreases totals@.len() - i,
    {
        if text_eq(totals[i].0.as_str(), key.as_str()) {
            proof {
                assert forall|k: Seq<char>|
                    #![trigger values_for(none, k)]
                    #![trigger seeds.insert(key@).contains(k)]
                    values_for(none, k).len() > 0 || seeds.insert(key@).contains(k) implies exists|a: int|
                        0 <= a < totals@.len() && (#[trigger] totals@[a]).0@ == k by {
                    lemma_no_entries(k);
                    if k != key@ {
                        assert(seeds.contains(k));
                    } else {
                        assert(totals@[i as int].0@ == k);
                    }
                }
            }
            return;
        }
        i = i + 1;
    }
    let ghost before = totals@;
    totals.push((key.clone(), DecimalValue::zero()));
    proof {
        assert forall|k: Seq<char>|
            #![trigger values_for(none, k)]
            #![trigger seeds.insert(key@).contains(k)]
            values_for(none, k).len() > 0 || seeds.insert(key@).contains(k) implies exists|a: int|
                0 <= a < totals@.len() && (#[trigger] totals@[a]).0@ == k by {
            lemma_no_entries(k);
            if k == key@ {
                assert(totals@[before.len() as int].0@ == k);
            } else {
                assert(seeds.contains(k));
                let a = choose|a: int| 0 <= a < before.len() && (#[trigger] before[a]).0@ == k;
                assert(totals@[a] == before[a]);
            }
        }
        assert forall|a: int| 0 <= a < totals@.len() implies (values_for(none, (#[trigger] totals@[a]).0@).len() > 0
            || seeds.insert(key@).contains(totals@[a].0@)) && running_sum(values_for(none, totals@[a].0@)) == Some(
            totals@[a].1@,
        ) by {
            if a < before.len() {
                assert(totals@[a] == before[a]);
            }
        }
    }
}

} // verus!
