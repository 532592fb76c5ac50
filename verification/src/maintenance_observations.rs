//! The latest manual quote of each Instrument or currency pair that the
//! maintenance queue measures freshness from.

use vstd::prelude::*;

use crate::error::AppError;
use crate::maintenance::eligible_timestamp;
use crate::text::{lemma_seq_less_asymmetric, lemma_seq_less_total, lemma_seq_less_transitive, seq_less, text_eq, text_less};
use crate::time::{rfc3339_millis, Timestamp};

verus! {

/// One stored quote as the queue reads it: what it is a quote of, where it
/// came from, and when it was quoted and recorded.
#[derive(Debug, Clone)]
pub struct ObservedQuote {
    pub key: String,
    pub source_kind: String,
    pub quoted_at: String,
    pub created_at: String,
    pub id: String,
}

/// The latest manual quote found for a key.
#[derive(Debug, Clone)]
pub struct LatestObservation {
    pub key: String,
    pub quoted_at: String,
    pub created_at: String,
    pub id: String,
}

/// The order key of a quote: quoted, then recorded, then its id.
pub open spec fn stamp(q: ObservedQuote) -> (Seq<char>, Seq<char>, Seq<char>) {
    (q.quoted_at@, q.created_at@, q.id@)
}

/// The order key of a latest observation.
pub open spec fn latest_stamp(l: LatestObservation) -> (Seq<char>, Seq<char>, Seq<char>) {
    (l.quoted_at@, l.created_at@, l.id@)
}

/// One order key comes strictly before another, field by field.
pub open spec fn stamp_before(a: (Seq<char>, Seq<char>, Seq<char>), b: (Seq<char>, Seq<char>, Seq<char>)) -> bool {
    seq_less(a.0, b.0) || (a.0 == b.0 && (seq_less(a.1, b.1) || (a.1 == b.1 && seq_less(a.2, b.2))))
}

/// A manual quote whose quoted instant cannot be read.
pub open spec fn unreadable(q: ObservedQuote) -> bool {
    q.source_kind@ == "manual"@ && rfc3339_millis(q.quoted_at@) is None
}

/// A manual quote quoted no later than `now`.
pub open spec fn counts(q: ObservedQuote, now: int) -> bool {
    &&& q.source_kind@ == "manual"@
    &&& rfc3339_millis(q.quoted_at@) matches Some(ms) && ms <= now
}

/// Some counted row of the observation's key has its order key.
pub open spec fn witnessed(rows: Seq<ObservedQuote>, now: int, l: LatestObservation) -> bool {
    exists|i: int| 0 <= i < rows.len() && counts(#[trigger] rows[i], now) && rows[i].key@ == l.key@
        && stamp(rows[i]) == latest_stamp(l)
}

/// Some observation is listed for a key.
pub open spec fn listed(latest: Seq<LatestObservation>, key: Seq<char>) -> bool {
    exists|a: int| 0 <= a < latest.len() && (#[trigger] latest[a]).key@ == key
}

/// The latest observations are those of the rows: one per key that has a
/// counted row, each the greatest counted row of its key.
pub open spec fn latest_of(rows: Seq<ObservedQuote>, now: int, latest: Seq<LatestObservation>) -> bool {
    &&& forall|a: int, b: int| 0 <= a < b < latest.len() ==> (#[trigger] latest[a]).key@ != (#[trigger] latest[b]).key@
    &&& forall|a: int| 0 <= a < latest.len() ==> #[trigger] witnessed(rows, now, latest[a])
    &&& forall|a: int, i: int| 0 <= a < latest.len() && 0 <= i < rows.len() && counts(#[trigger] rows[i], now)
        && rows[i].key@ == (#[trigger] latest[a]).key@ ==> !stamp_before(latest_stamp(latest[a]), stamp(rows[i]))
    &&& forall|i: int| 0 <= i < rows.len() && counts(#[trigger] rows[i], now) ==> listed(latest, rows[i].key@)
}

proof fn lemma_stamp_transitive(
    a: (Seq<char>, Seq<char>, Seq<char>),
    b: (Seq<char>, Seq<char>, Seq<char>),
    c: (Seq<char>, Seq<char>, Seq<char>),
)
    requires
        stamp_before(a, b),
        stamp_before(b, c),
    ensures
        stamp_before(a, c),
{
    if seq_less(a.0, b.0) && seq_less(b.0, c.0) {
        lemma_seq_less_transitive(a.0, b.0, c.0);
    }
    if seq_less(a.1, b.1) && seq_less(b.1, c.1) {
        lemma_seq_less_transitive(a.1, b.1, c.1);
    }
    if seq_less(a.2, b.2) && seq_less(b.2, c.2) {
        lemma_seq_less_transitive(a.2, b.2, c.2);
    }
}

/// Whatever is not after `a` is not after a key that comes after `a`.
proof fn lemma_stamp_not_after(
    x: (Seq<char>, Seq<char>, Seq<char>),
    a: (Seq<char>, Seq<char>, Seq<char>),
    b: (Seq<char>, Seq<char>, Seq<char>),
)
    requires
        !stamp_before(a, x),
        stamp_before(a, b),
    ensures
        !stamp_before(b, x),
{
    if stamp_before(b, x) {
        lemma_stamp_transitive(a, b, x);
    }
}

/// A key that is not before another, and differs from it, comes after it.
proof fn lemma_stamp_total(a: (Seq<char>, Seq<char>, Seq<char>), b: (Seq<char>, Seq<char>, Seq<char>))
    ensures
        a == b || stamp_before(a, b) || stamp_before(b, a),
        !(stamp_before(a, b) && stamp_before(b, a)),
{
    lemma_seq_less_asymmetric(a.0, b.0);
    lemma_seq_less_asymmetric(a.1, b.1);
    lemma_seq_less_asymmetric(a.2, b.2);
    if a.0 != b.0 {
        lemma_seq_less_total(a.0, b.0);
    }
    if a.1 != b.1 {
        lemma_seq_less_total(a.1, b.1);
    }
    if a.2 != b.2 {
        lemma_seq_less_total(a.2, b.2);
    }
}

fn is_before(a: &LatestObservation, b: &ObservedQuote) -> (before: bool)
    ensures
        before == stamp_before(latest_stamp(*a), stamp(*b)),
{
    if !text_eq(a.quoted_at.as_str(), b.quoted_at.as_str()) {
        return text_less(a.quoted_at.as_str(), b.quoted_at.as_str());
    }
    proof {
        lemma_seq_less_asymmetric(a.quoted_at@, b.quoted_at@);
    }
    if !text_eq(a.created_at.as_str(), b.created_at.as_str()) {
        return text_less(a.created_at.as_str(), b.created_at.as_str());
    }
    proof {
        lemma_seq_less_asymmetric(a.created_at@, b.created_at@);
    }
    text_less(a.id.as_str(), b.id.as_str())
}

fn observation_of(q: &ObservedQuote) -> (l: LatestObservation)
    ensures
        l.key@ == q.key@,
        latest_stamp(l) == stamp(*q),
{
    LatestObservation {
        key: q.key.clone(),
        quoted_at: q.quoted_at.clone(),
        created_at: q.created_at.clone(),
        id: q.id.clone(),
    }
}

/// A row that does not count leaves the latest observations as they were.
proof fn lemma_skip_row(prefix: Seq<ObservedQuote>, row: ObservedQuote, now: int, latest: Seq<LatestObservation>)
    requires
        latest_of(prefix, now, latest),
        !counts(row, now),
    ensures
        latest_of(prefix.push(row), now, latest),
{
    let next = prefix.push(row);
    assert forall|a: int| 0 <= a < latest.len() implies #[trigger] witnessed(next, now, latest[a]) by {
        assert(witnessed(prefix, now, latest[a]));
        let k = choose|k: int| 0 <= k < prefix.len() && counts(#[trigger] prefix[k], now) && prefix[k].key@ == latest[a].key@
            && stamp(prefix[k]) == latest_stamp(latest[a]);
        assert(next[k] == prefix[k]);
    }
    assert forall|a: int, k: int| 0 <= a < latest.len() && 0 <= k < next.len() && counts(#[trigger] next[k], now)
        && next[k].key@ == (#[trigger] latest[a]).key@ implies !stamp_before(latest_stamp(latest[a]), stamp(next[k])) by {
        assert(k < prefix.len());
        assert(next[k] == prefix[k]);
    }
    assert forall|k: int| 0 <= k < next.len() && counts(#[trigger] next[k], now) implies listed(latest, next[k].key@) by {
        assert(k < prefix.len());
        assert(next[k] == prefix[k]);
    }
}

/// A counted row of a key not seen yet becomes that key's observation.
proof fn lemma_new_key(
    prefix: Seq<ObservedQuote>,
    row: ObservedQuote,
    now: int,
    before: Seq<LatestObservation>,
    added: LatestObservation,
)
    requires
        latest_of(prefix, now, before),
        counts(row, now),
        forall|a: int| 0 <= a < before.len() ==> (#[trigger] before[a]).key@ != row.key@,
        added.key@ == row.key@,
        latest_stamp(added) == stamp(row),
    ensures
        latest_of(prefix.push(row), now, before.push(added)),
{
    let next = prefix.push(row);
    let l = before.push(added);
    let i = prefix.len() as int;
    assert(next[i] == row);
    assert forall|a: int| 0 <= a < l.len() implies #[trigger] witnessed(next, now, l[a]) by {
        if a < before.len() {
            assert(l[a] == before[a]);
            assert(witnessed(prefix, now, before[a]));
            let k = choose|k: int| 0 <= k < prefix.len() && counts(#[trigger] prefix[k], now)
                && prefix[k].key@ == before[a].key@ && stamp(prefix[k]) == latest_stamp(before[a]);
            assert(next[k] == prefix[k]);
        } else {
            assert(l[a] == added);
            assert(next[i] == row);
        }
    }
    assert forall|k: int| 0 <= k < next.len() && counts(#[trigger] next[k], now) implies listed(l, next[k].key@) by {
        if k < i {
            assert(next[k] == prefix[k]);
            assert(listed(before, prefix[k].key@));
            let a = choose|a: int| 0 <= a < before.len() && (#[trigger] before[a]).key@ == prefix[k].key@;
            assert(l[a] == before[a]);
        } else {
            assert(l[before.len() as int] == added);
        }
    }
    assert forall|a: int, k: int| 0 <= a < l.len() && 0 <= k < next.len() && counts(#[trigger] next[k], now)
        && next[k].key@ == (#[trigger] l[a]).key@ implies !stamp_before(latest_stamp(l[a]), stamp(next[k])) by {
        if a < before.len() {
            assert(l[a] == before[a]);
            if k < i {
                assert(next[k] == prefix[k]);
            }
        } else {
            assert(l[a] == added);
            if k < i {
                assert(next[k] == prefix[k]);
                assert(listed(before, prefix[k].key@));
                let b = choose|b: int| 0 <= b < before.len() && (#[trigger] before[b]).key@ == prefix[k].key@;
                assert(before[b].key@ != row.key@);
            } else {
                lemma_stamp_total(stamp(row), stamp(row));
            }
        }
    }
    assert forall|a: int, b: int| 0 <= a < b < l.len() implies (#[trigger] l[a]).key@ != (#[trigger] l[b]).key@ by {
        assert(l[a] == before[a]);
        if b < before.len() {
            assert(l[b] == before[b]);
        } else {
            assert(l[b] == added);
        }
    }
}

/// A counted row of a key already seen takes its place when it comes later.
#[verifier::spinoff_prover]
#[verifier::rlimit(40)]
proof fn lemma_known_key(
    prefix: Seq<ObservedQuote>,
    row: ObservedQuote,
    now: int,
    before: Seq<LatestObservation>,
    p: int,
    replace: bool,
    after: Seq<LatestObservation>,
)
    requires
        latest_of(prefix, now, before),
        counts(row, now),
        0 <= p < before.len(),
        before[p].key@ == row.key@,
        replace == stamp_before(latest_stamp(before[p]), stamp(row)),
        after.len() == before.len(),
        forall|a: int| 0 <= a < before.len() && a != p ==> after[a] == before[a],
        replace ==> after[p].key@ == row.key@ && latest_stamp(after[p]) == stamp(row),
        !replace ==> after[p] == before[p],
    ensures
        latest_of(prefix.push(row), now, after),
{
    let next = prefix.push(row);
    let i = prefix.len() as int;
    assert(next[i] == row);
    assert forall|a: int| 0 <= a < after.len() implies #[trigger] witnessed(next, now, after[a]) by {
        if a != p || !replace {
            assert(after[a] == before[a]);
            assert(witnessed(prefix, now, before[a]));
            let k = choose|k: int| 0 <= k < prefix.len() && counts(#[trigger] prefix[k], now)
                && prefix[k].key@ == before[a].key@ && stamp(prefix[k]) == latest_stamp(before[a]);
            assert(next[k] == prefix[k]);
        }
    }
    assert forall|k: int| 0 <= k < next.len() && counts(#[trigger] next[k], now) implies listed(after, next[k].key@) by {
        if k < i {
            assert(next[k] == prefix[k]);
            assert(listed(before, prefix[k].key@));
            let a = choose|a: int| 0 <= a < before.len() && (#[trigger] before[a]).key@ == prefix[k].key@;
            assert(after[a].key@ == before[a].key@);
        } else {
            assert(after[p].key@ == row.key@);
        }
    }
    assert forall|a: int, k: int| 0 <= a < after.len() && 0 <= k < next.len() && counts(#[trigger] next[k], now)
        && next[k].key@ == (#[trigger] after[a]).key@ implies !stamp_before(latest_stamp(after[a]), stamp(next[k])) by {
        if a != p {
            assert(after[a] == before[a]);
            if k < i {
                assert(next[k] == prefix[k]);
            } else {
                assert(before[a].key@ != before[p].key@);
            }
        } else if replace {
            if k < i {
                assert(next[k] == prefix[k]);
                lemma_stamp_not_after(stamp(prefix[k]), latest_stamp(before[p]), stamp(row));
            } else {
                lemma_stamp_total(stamp(row), stamp(row));
            }
        } else {
            assert(after[p] == before[p]);
            if k < i {
                assert(next[k] == prefix[k]);
            }
        }
    }
    assert forall|a: int, b: int| 0 <= a < b < after.len() implies (#[trigger] after[a]).key@ != (#[trigger] after[b]).key@ by {
        assert(after[a].key@ == before[a].key@ && after[b].key@ == before[b].key@);
    }
}

/// Takes a counted row into the latest observations.
fn take_row(latest: &mut Vec<LatestObservation>, row: &ObservedQuote, Ghost(prefix): Ghost<Seq<ObservedQuote>>, Ghost(now): Ghost<int>)
    requires
        latest_of(prefix, now, old(latest)@),
        counts(*row, now),
    ensures
        latest_of(prefix.push(*row), now, final(latest)@),
{
    let mut position: usize = 0;
    while position < latest.len() && !text_eq(latest[position].key.as_str(), row.key.as_str())
        invariant
            position <= latest@.len(),
            forall|a: int| 0 <= a < position ==> (#[trigger] latest@[a]).key@ != row.key@,
        decreases latest@.len() - position,
    {
        position = position + 1;
    }
    let ghost before = latest@;
    if position == latest.len() {
        let added = observation_of(row);
        let ghost added_view = added;
        latest.push(added);
        proof {
            lemma_new_key(prefix, *row, now, before, added_view);
        }
    } else {
        let replace = is_before(&latest[position], row);
        if replace {
            latest.set(position, observation_of(row));
        }
        proof {
            lemma_known_key(prefix, *row, now, before, position as int, replace, latest@);
        }
    }
}

/// The latest manual quote of each key among quotes quoted no later than
/// `now`; a manual quote whose instant cannot be read fails the read.
pub fn latest_manual_quotes(rows: &Vec<ObservedQuote>, now: &Timestamp) -> (latest: Result<
    Vec<LatestObservation>,
    AppError,
>)
    ensures
        match latest {
            Ok(l) => (forall|i: int| 0 <= i < rows@.len() ==> !unreadable(#[trigger] rows@[i])) && latest_of(
                rows@,
                now.unix_millis as int,
                l@,
            ),
            Err(e) => e is DatabaseUnavailable && exists|i: int| 0 <= i < rows@.len() && unreadable(#[trigger] rows@[i]),
        },
{
    let ghost now_ms = now.unix_millis as int;
    let mut latest: Vec<LatestObservation> = Vec::new();
    let mut i: usize = 0;
    while i < rows.len()
        invariant
            0 <= i <= rows@.len(),
            now_ms == now.unix_millis as int,
            forall|k: int| 0 <= k < i ==> !unreadable(#[trigger] rows@[k]),
            latest_of(rows@.subrange(0, i as int), now_ms, latest@),
        decreases rows@.len() - i,
    {
        let row = &rows[i];
        let ghost prefix = rows@.subrange(0, i as int);
        assert(rows@.subrange(0, i + 1) =~= prefix.push(rows@[i as int]));
        let mut counted = false;
        if text_eq(row.source_kind.as_str(), "manual") {
            counted = match eligible_timestamp(row.quoted_at.as_str(), now) {
                Ok(eligible) => eligible,
                Err(e) => {
                    assert(unreadable(rows@[i as int]));
                    return Err(e);
                },
            };
        }
        assert(!unreadable(rows@[i as int]));
        assert(counted == counts(rows@[i as int], now_ms));
        if counted {
            take_row(&mut latest, row, Ghost(prefix), Ghost(now_ms));
        } else {
            proof {
                lemma_skip_row(prefix, rows@[i as int], now_ms, latest@);
            }
        }
        i = i + 1;
    }
    assert(rows@.subrange(0, rows@.len() as int) =~= rows@);
    Ok(latest)
}

} // verus!
