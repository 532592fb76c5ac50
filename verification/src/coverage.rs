//! Which calendar days of daily market history are already stored for a
//! target: merging covered ranges and finding the gaps of a request.

use vstd::prelude::*;
use vstd::multiset::Multiset;
use vstd::seq_lib::{to_multiset_insert, to_multiset_remove};

use crate::calendar::{max_ordinal, CalendarDate};
use crate::error::{is_validation_of, AppError};
use crate::market_data::YAHOO_FINANCE_PROVIDER;
use crate::text::{seq_less, text_eq, text_less};

verus! {

broadcast use {CalendarDate::lemma_ordinal_bounds, vstd::seq_lib::group_to_multiset_ensures, vstd::multiset::group_multiset_axioms};

/// The subject of a coverage record: one instrument, or one normalised
/// currency pair, of one household and provider.
#[derive(Debug, Clone, PartialEq, Eq)]
pub struct CoverageTarget {
    pub household_id: String,
    pub provider_key: String,
    pub instrument_id: Option<String>,
    pub currency_a: Option<String>,
    pub currency_b: Option<String>,
}

/// The storage kind of a well-shaped target: an instrument with a non-empty
/// id, or a currency pair in strictly increasing order.
pub open spec fn target_kind_spec(target: CoverageTarget) -> Option<Seq<char>> {
    match (target.instrument_id, target.currency_a, target.currency_b) {
        (Some(instrument), None, None) => if instrument@.len() > 0 { Some("instrument"@) } else { None },
        (None, Some(left), Some(right)) => if seq_less(left@, right@) { Some("fx"@) } else { None },
        _ => None,
    }
}

impl CoverageTarget {
    pub fn instrument(household_id: &str, provider_key: &str, instrument_id: &str) -> (target: Self)
        ensures
            target.household_id@ == household_id@,
            target.provider_key@ == provider_key@,
            target.instrument_id matches Some(i) && i@ == instrument_id@,
            target.currency_a is None,
            target.currency_b is None,
    {
        CoverageTarget {
            household_id: String::from_str(household_id),
            provider_key: String::from_str(provider_key),
            instrument_id: Some(String::from_str(instrument_id)),
            currency_a: None,
            currency_b: None,
        }
    }

    pub fn fx(household_id: &str, provider_key: &str, currency_a: &str, currency_b: &str) -> (target: Self)
        ensures
            target.household_id@ == household_id@,
            target.provider_key@ == provider_key@,
            target.instrument_id is None,
            target.currency_a matches Some(a) && a@ == currency_a@,
            target.currency_b matches Some(b) && b@ == currency_b@,
    {
        CoverageTarget {
            household_id: String::from_str(household_id),
            provider_key: String::from_str(provider_key),
            instrument_id: None,
            currency_a: Some(String::from_str(currency_a)),
            currency_b: Some(String::from_str(currency_b)),
        }
    }

    /// The storage kind of the target, or a validation error on `target`.
    pub fn kind(&self) -> (kind: Result<&'static str, AppError>)
        ensures
            match kind {
                Ok(k) => target_kind_spec(*self) == Some(k@),
                Err(e) => target_kind_spec(*self) is None && is_validation_of(e, "target"@),
            },
    {
        match (&self.instrument_id, &self.currency_a, &self.currency_b) {
            (Some(instrument), None, None) => {
                if !instrument.as_str().is_empty() {
                    return Ok("instrument");
                }
            },
            (None, Some(left), Some(right)) => {
                if text_less(left.as_str(), right.as_str()) {
                    return Ok("fx");
                }
            },
            _ => {},
        }
        Err(AppError::validation("target", "The market-data coverage target is invalid."))
    }

    /// Checks the provider, then the shape, before any storage is touched.
    pub fn validate_shape(&self) -> (kind: Result<&'static str, AppError>)
        ensures
            self.provider_key@ != YAHOO_FINANCE_PROVIDER@ ==> kind matches Err(AppError::MarketDataUnsupported { .. }),
            self.provider_key@ == YAHOO_FINANCE_PROVIDER@ ==> match kind {
                Ok(k) => target_kind_spec(*self) == Some(k@),
                Err(e) => target_kind_spec(*self) is None && is_validation_of(e, "target"@),
            },
    {
        if !text_eq(self.provider_key.as_str(), YAHOO_FINANCE_PROVIDER) {
            return Err(AppError::market_data_unsupported("The market-data provider is unavailable."));
        }
        self.kind()
    }
}

/// An inclusive range of calendar days.
#[derive(Debug, Clone, Copy, PartialEq, Eq, PartialOrd, Ord, Structural)]
pub struct CoverageRange {
    pub start: CalendarDate,
    pub end: CalendarDate,
}

/// The day numbered `o` lies in the range.
pub open spec fn in_range(r: CoverageRange, o: int) -> bool {
    r.start.ordinal() <= o <= r.end.ordinal()
}

/// Some range of the sequence holds the day numbered `o`.
pub open spec fn covers(rs: Seq<CoverageRange>, o: int) -> bool {
    exists|k: int| 0 <= k < rs.len() && #[trigger] in_range(rs[k], o)
}

/// Every range starts no later than it ends.
pub open spec fn ordered(rs: Seq<CoverageRange>) -> bool {
    forall|k: int| 0 <= k < rs.len() ==> (#[trigger] rs[k]).start.ordinal() <= rs[k].end.ordinal()
}

/// Ranges come in increasing order with at least one uncovered day between
/// neighbours.
pub open spec fn separated(rs: Seq<CoverageRange>) -> bool {
    forall|i: int, j: int|
        0 <= i < j < rs.len() ==> (#[trigger] rs[i]).end.ordinal() + 1 < (#[trigger] rs[j]).start.ordinal()
}

/// The canonical form of a set of covered days.
pub open spec fn canonical(rs: Seq<CoverageRange>) -> bool {
    ordered(rs) && separated(rs)
}

impl CoverageRange {
    /// An ordered range, or a validation error on `date`.
    pub fn new(start: CalendarDate, end: CalendarDate) -> (range: Result<Self, AppError>)
        ensures
            match range {
                Ok(r) => r.start == start && r.end == end && start.ordinal() <= end.ordinal(),
                Err(e) => end.ordinal() < start.ordinal() && is_validation_of(e, "date"@),
            },
    {
        if end.is_before(&start) {
            return Err(AppError::validation("date", "The coverage range must be ordered."));
        }
        Ok(CoverageRange { start, end })
    }
}

proof fn lemma_covers_push(rs: Seq<CoverageRange>, r: CoverageRange)
    ensures
        forall|o: int| covers(rs.push(r), o) <==> (covers(rs, o) || in_range(r, o)),
{
    assert forall|o: int| covers(rs.push(r), o) <==> (covers(rs, o) || in_range(r, o)) by {
        if covers(rs.push(r), o) {
            let k = choose|k: int| 0 <= k < rs.push(r).len() && #[trigger] in_range(rs.push(r)[k], o);
            if k < rs.len() {
                assert(in_range(rs[k], o));
            }
        }
        if covers(rs, o) {
            let k = choose|k: int| 0 <= k < rs.len() && #[trigger] in_range(rs[k], o);
            assert(in_range(rs.push(r)[k], o));
        }
        if in_range(r, o) {
            assert(in_range(rs.push(r)[rs.len() as int], o));
        }
    }
}

proof fn lemma_covers_empty(rs: Seq<CoverageRange>)
    requires
        rs.len() == 0,
    ensures
        forall|o: int| !covers(rs, o),
{
}

/// One range sorts before another: by start, then by end.
pub open spec fn range_before(a: CoverageRange, b: CoverageRange) -> bool {
    a.start.ordinal() < b.start.ordinal() || (a.start.ordinal() == b.start.ordinal() && a.end.ordinal() < b.end.ordinal())
}

/// No range sorts before one listed ahead of it.
pub open spec fn ranges_sorted(rs: Seq<CoverageRange>) -> bool {
    forall|i: int, j: int| 0 <= i < j < rs.len() ==> !range_before(#[trigger] rs[j], #[trigger] rs[i])
}

/// The same ranges, sorted by start and then end.
fn sort_ranges(ranges: Vec<CoverageRange>) -> (sorted: Vec<CoverageRange>)
    ensures
        sorted@.to_multiset() == ranges@.to_multiset(),
        ranges_sorted(sorted@),
{
    let ghost all = ranges@;
    let mut remaining = ranges;
    let mut sorted: Vec<CoverageRange> = Vec::new();
    proof {
        assert(sorted@.to_multiset() =~= Multiset::<CoverageRange>::empty());
        assert(remaining@.to_multiset().add(sorted@.to_multiset()) =~= all.to_multiset());
    }
    while remaining.len() > 0
        invariant
            remaining@.to_multiset().add(sorted@.to_multiset()) == all.to_multiset(),
            ranges_sorted(sorted@),
        decreases remaining@.len(),
    {
        let ghost before_remaining = remaining@;
        let range = remaining.remove(0);
        proof {
            to_multiset_remove(before_remaining, 0);
        }
        let mut position: usize = 0;
        while position < sorted.len() && !(range.start.is_before(&sorted[position].start) || (!sorted[position].start.is_before(
            &range.start,
        ) && range.end.is_before(&sorted[position].end)))
            invariant
                position <= sorted@.len(),
                forall|k: int| 0 <= k < position ==> !range_before(range, #[trigger] sorted@[k]),
            decreases sorted@.len() - position,
        {
            position = position + 1;
        }
        let ghost old_sorted = sorted@;
        proof {
            to_multiset_insert(old_sorted, position as int, range);
        }
        sorted.insert(position, range);
        proof {
            let s = sorted@;
            assert(s =~= old_sorted.insert(position as int, range));
            assert forall|i: int, j: int| 0 <= i < j < s.len() implies !range_before(#[trigger] s[j], #[trigger] s[i]) by {
                if j < position {
                    assert(s[i] == old_sorted[i] && s[j] == old_sorted[j]);
                } else if j == position {
                    assert(s[i] == old_sorted[i]);
                } else if i < position {
                    assert(s[i] == old_sorted[i] && s[j] == old_sorted[j - 1]);
                } else if i == position {
                    assert(s[j] == old_sorted[j - 1]);
                    assert(range_before(range, old_sorted[position as int]));
                    if j - 1 > position {
                        assert(!range_before(old_sorted[j - 1], old_sorted[position as int]));
                    }
                } else {
                    assert(s[i] == old_sorted[i - 1] && s[j] == old_sorted[j - 1]);
                }
            }
            assert(remaining@.to_multiset().add(sorted@.to_multiset()) =~= all.to_multiset());
        }
    }
    sorted
}

/// Replacing the last range of a list changes which days it covers by what
/// the two ranges cover.
proof fn lemma_covers_replace_last(rs: Seq<CoverageRange>, r: CoverageRange)
    requires
        rs.len() > 0,
    ensures
        forall|o: int| #[trigger] covers(rs.drop_last().push(r), o) <==> (covers(rs.drop_last(), o) || in_range(r, o)),
        forall|o: int| #[trigger] covers(rs, o) <==> (covers(rs.drop_last(), o) || in_range(rs.last(), o)),
{
    lemma_covers_push(rs.drop_last(), r);
    lemma_covers_push(rs.drop_last(), rs.last());
    assert(rs.drop_last().push(rs.last()) =~= rs);
}

/// Two lists with the same ranges, counted alike, cover the same days.
proof fn lemma_same_ranges_cover_alike(a: Seq<CoverageRange>, b: Seq<CoverageRange>)
    requires
        a.to_multiset() == b.to_multiset(),
    ensures
        forall|o: int| covers(a, o) <==> covers(b, o),
        ordered(a) <==> ordered(b),
{
    assert forall|x: CoverageRange| a.contains(x) <==> b.contains(x) by {
        a.to_multiset_ensures();
        b.to_multiset_ensures();
        assert(a.contains(x) <==> a.to_multiset().count(x) > 0);
        assert(b.contains(x) <==> b.to_multiset().count(x) > 0);
        assert(a.to_multiset().count(x) == b.to_multiset().count(x));
    }
    assert forall|o: int| covers(a, o) <==> covers(b, o) by {
        if covers(a, o) {
            let k = choose|k: int| 0 <= k < a.len() && #[trigger] in_range(a[k], o);
            assert(a.contains(a[k]));
            let m = choose|m: int| 0 <= m < b.len() && b[m] == a[k];
            assert(in_range(b[m], o));
        }
        if covers(b, o) {
            let k = choose|k: int| 0 <= k < b.len() && #[trigger] in_range(b[k], o);
            assert(b.contains(b[k]));
            let m = choose|m: int| 0 <= m < a.len() && a[m] == b[k];
            assert(in_range(a[m], o));
        }
    }
    if ordered(a) {
        assert forall|k: int| 0 <= k < b.len() implies (#[trigger] b[k]).start.ordinal() <= b[k].end.ordinal() by {
            assert(b.contains(b[k]));
            let m = choose|m: int| 0 <= m < a.len() && a[m] == b[k];
        }
    }
    if ordered(b) {
        assert forall|k: int| 0 <= k < a.len() implies (#[trigger] a[k]).start.ordinal() <= a[k].end.ordinal() by {
            assert(a.contains(a[k]));
            let m = choose|m: int| 0 <= m < b.len() && b[m] == a[k];
        }
    }
}

/// Sorts the ranges by start and then end, and sweeps them: a range that
/// overlaps or touches the last merged one extends it, any other starts a
/// new one. The merged list covers the same days; for ordered ranges it is
/// the canonical list of those days.
pub fn merge_coverage(ranges: Vec<CoverageRange>) -> (merged: Vec<CoverageRange>)
    ensures
        forall|o: int| covers(merged@, o) <==> covers(ranges@, o),
        ordered(ranges@) ==> canonical(merged@),
        merged_from(ranges@, merged@),
{
    let ghost input = ranges@;
    let sorted = sort_ranges(ranges);
    proof {
        lemma_same_ranges_cover_alike(sorted@, input);
    }
    let mut merged: Vec<CoverageRange> = Vec::new();
    let mut i: usize = 0;
    proof {
        lemma_covers_empty(merged@);
        lemma_covers_empty(sorted@.subrange(0, 0));
    }
    while i < sorted.len()
        invariant
            0 <= i <= sorted@.len(),
            ranges_sorted(sorted@),
            ordered(sorted@) == ordered(input),
            i > 0 ==> merged@.len() > 0,
            merged@.len() > 0 ==> forall|k: int| i <= k < sorted@.len() ==> merged@.last().start.ordinal()
                <= (#[trigger] sorted@[k]).start.ordinal(),
            ordered(sorted@) ==> canonical(merged@),
            forall|o: int| #![trigger covers(sorted@.subrange(0, i as int), o)] covers(merged@, o) <==> covers(
                sorted@.subrange(0, i as int),
                o,
            ),
        decreases sorted@.len() - i,
    {
        let range = sorted[i];
        proof {
            assert(sorted@.subrange(0, i as int + 1) =~= sorted@.subrange(0, i as int).push(range));
            lemma_covers_push(sorted@.subrange(0, i as int), range);
        }
        let ghost old_merged = merged@;
        let count = merged.len();
        if count == 0 {
            merged.push(range);
            proof {
                lemma_covers_push(old_merged, range);
                assert(merged@ == old_merged.push(range));
                assert forall|k: int| i + 1 <= k < sorted@.len() implies merged@.last().start.ordinal()
                    <= (#[trigger] sorted@[k]).start.ordinal() by {
                    assert(!range_before(sorted@[k], sorted@[i as int]));
                }
                assert forall|o: int| #![trigger covers(sorted@.subrange(0, i as int + 1), o)] covers(merged@, o) <==> covers(
                    sorted@.subrange(0, i as int + 1),
                    o,
                ) by {
                    assert(covers(old_merged, o) <==> covers(sorted@.subrange(0, i as int), o));
                    assert(covers(sorted@.subrange(0, i as int + 1), o) == (covers(sorted@.subrange(0, i as int), o)
                        || in_range(range, o)));
                    assert(covers(old_merged.push(range), o) == (covers(old_merged, o) || in_range(range, o)));
                }
            }
        } else {
            let last = merged[count - 1];
            let adjacent = match last.end.succ() {
                Some(next) => !next.is_before(&range.start),
                None => false,
            };
            if !last.end.is_before(&range.start) || adjacent {
                let end = if last.end.is_before(&range.end) { range.end } else { last.end };
                let joined = CoverageRange { start: last.start, end };
                merged.set(count - 1, joined);
                proof {
                    assert(range.start.ordinal() <= last.end.ordinal() + 1);
                    assert(last.start.ordinal() <= range.start.ordinal());
                    assert(merged@ =~= old_merged.drop_last().push(joined));
                    lemma_covers_replace_last(old_merged, joined);
                    assert forall|o: int| in_range(joined, o) <==> (in_range(last, o) || in_range(range, o)) by {}
                    assert(old_merged.last() == last);
                    assert forall|o: int| #![trigger covers(sorted@.subrange(0, i as int + 1), o)] covers(merged@, o) <==> covers(
                        sorted@.subrange(0, i as int + 1),
                        o,
                    ) by {
                        assert(covers(old_merged, o) <==> covers(sorted@.subrange(0, i as int), o));
                        assert(covers(sorted@.subrange(0, i as int + 1), o) == (covers(sorted@.subrange(0, i as int), o)
                            || in_range(range, o)));
                        assert(covers(old_merged, o) <==> (covers(old_merged.drop_last(), o) || in_range(last, o)));
                        assert(covers(old_merged.drop_last().push(joined), o) <==> (covers(old_merged.drop_last(), o)
                            || in_range(joined, o)));
                        assert(merged@ == old_merged.drop_last().push(joined));
                    }
                    if ordered(sorted@) {
                        assert(sorted@[i as int].start.ordinal() <= sorted@[i as int].end.ordinal());
                        assert forall|x: int, y: int| 0 <= x < y < merged@.len() implies (#[trigger] merged@[x]).end.ordinal() + 1
                            < (#[trigger] merged@[y]).start.ordinal() by {
                            assert(merged@[x] == old_merged[x]);
                            if y < count - 1 {
                                assert(merged@[y] == old_merged[y]);
                            }
                        }
                    }
                }
            } else {
                merged.push(range);
                proof {
                    lemma_covers_push(old_merged, range);
                    assert(merged@ == old_merged.push(range));
                    assert forall|k: int| i + 1 <= k < sorted@.len() implies merged@.last().start.ordinal()
                        <= (#[trigger] sorted@[k]).start.ordinal() by {
                        assert(!range_before(sorted@[k], sorted@[i as int]));
                    }
                    assert forall|o: int| #![trigger covers(sorted@.subrange(0, i as int + 1), o)] covers(merged@, o) <==> covers(
                        sorted@.subrange(0, i as int + 1),
                        o,
                    ) by {
                        assert(covers(old_merged, o) <==> covers(sorted@.subrange(0, i as int), o));
                        assert(covers(sorted@.subrange(0, i as int + 1), o) == (covers(sorted@.subrange(0, i as int), o)
                            || in_range(range, o)));
                        assert(covers(old_merged.push(range), o) == (covers(old_merged, o) || in_range(range, o)));
                    }
                    if ordered(sorted@) {
                        assert(sorted@[i as int].start.ordinal() <= sorted@[i as int].end.ordinal());
                        assert forall|x: int, y: int| 0 <= x < y < merged@.len() implies (#[trigger] merged@[x]).end.ordinal() + 1
                            < (#[trigger] merged@[y]).start.ordinal() by {
                            assert(merged@[x] == old_merged[x]);
                            if y < count {
                                assert(merged@[y] == old_merged[y]);
                            } else if x < count - 1 {
                                assert(old_merged[x].end.ordinal() + 1 < old_merged[count - 1].start.ordinal());
                            }
                        }
                    }
                }
            }
        }
        i = i + 1;
    }
    proof {
        assert(sorted@.subrange(0, sorted@.len() as int) =~= sorted@);
    }
    merged
}

/// The ordered gaps of `request` that `covered` leaves open; an inverted
/// request has none.
pub fn subtract_coverage(request: CoverageRange, covered: &[CoverageRange]) -> (gaps: Vec<CoverageRange>)
    requires
        ordered(covered@),
    ensures
        ordered(gaps@),
        forall|i: int, j: int|
            0 <= i < j < gaps@.len() ==> (#[trigger] gaps@[i]).end.ordinal() < (#[trigger] gaps@[j]).start.ordinal(),
        request.end.ordinal() < max_ordinal() ==> separated(gaps@),
        forall|o: int| #![trigger covers(gaps@, o)]
            covers(gaps@, o) <==> (in_range(request, o) && !covers(covered@, o)),
{
    if request.end.is_before(&request.start) {
        return Vec::new();
    }
    let mut cursor = request.start;
    let mut gaps: Vec<CoverageRange> = Vec::new();
    let merged = merge_coverage(vstd::slice::slice_to_vec(covered));
    let mut idx: usize = 0;
    let mut stop = false;
    let mut saturated = false;
    proof {
        lemma_covers_empty(gaps@);
    }
    while idx < merged.len() && !stop
        invariant
            0 <= idx <= merged@.len(),
            canonical(merged@),
            forall|o: int| #![trigger covers(merged@, o)] covers(merged@, o) <==> covers(covered@, o),
            request.start.ordinal() <= request.end.ordinal(),
            request.start.ordinal() <= cursor.ordinal(),
            stop ==> cursor.ordinal() == request.end.ordinal() + 1,
            !stop ==> cursor.ordinal() <= request.end.ordinal(),
            !stop && idx < merged@.len() && !saturated ==> (cursor.ordinal() == request.start.ordinal()
                || cursor.ordinal() < merged@[idx as int].start.ordinal()),
            saturated ==> cursor.ordinal() == max_ordinal() && request.end.ordinal() == max_ordinal()
                && idx == merged@.len() && !stop && covers(merged@, max_ordinal()),
            ordered(gaps@),
            forall|i: int, j: int|
                0 <= i < j < gaps@.len() ==> (#[trigger] gaps@[i]).end.ordinal() < (#[trigger] gaps@[j]).start.ordinal(),
            forall|j: int| 0 <= j < gaps@.len() ==> (#[trigger] gaps@[j]).end.ordinal() < cursor.ordinal(),
            request.end.ordinal() < max_ordinal() ==> forall|j: int| 0 <= j < gaps@.len() ==> (#[trigger] gaps@[j]).end.ordinal() + 1 < cursor.ordinal(),
            request.end.ordinal() < max_ordinal() ==> separated(gaps@),
            forall|o: int| #![trigger covers(gaps@, o)] covers(gaps@, o) ==> request.start.ordinal() <= o < cursor.ordinal(),
            forall|o: int| #![trigger covers(gaps@, o)] request.start.ordinal() <= o < cursor.ordinal() ==> (covers(gaps@, o) <==> !covers(merged@, o)),
            !saturated && !stop ==> forall|kk: int| 0 <= kk < idx ==> (#[trigger] merged@[kk]).end.ordinal() < cursor.ordinal()
                || merged@[kk].start.ordinal() > request.end.ordinal(),
        decreases merged@.len() - idx,
    {
        let range = merged[idx];
        let ghost old_gaps = gaps@;
        let ghost old_cursor = cursor;
        if range.end.is_before(&request.start) || request.end.is_before(&range.start) {
            proof {
                if idx + 1 < merged@.len() {
                    assert(merged@[idx as int].end.ordinal() + 1 < merged@[idx + 1].start.ordinal());
                }
            }
            idx = idx + 1;
            continue;
        }
        let start = CalendarDate::later(range.start, request.start);
        let end = CalendarDate::earlier(range.end, request.end);
        if cursor.is_before(&start) {
            let last_open = start.pred().unwrap();
            gaps.push(CoverageRange { start: cursor, end: last_open });
            proof {
                lemma_covers_push(old_gaps, CoverageRange { start: cursor, end: last_open });
                assert(gaps@ == old_gaps.push(CoverageRange { start: cursor, end: last_open }));
            }
        }
        let ghost mid_gaps = gaps@;
        match end.succ() {
            Some(next) => {
                cursor = CalendarDate::later(cursor, next);
            },
            None => {
                cursor = request.end;
                saturated = true;
                proof {
                    assert(in_range(merged@[idx as int], max_ordinal()));
                    assert(idx + 1 == merged@.len()) by {
                        if idx + 1 < merged@.len() {
                            assert(merged@[idx as int].end.ordinal() + 1 < merged@[idx + 1].start.ordinal());
                        }
                    }
                }
            },
        }
        if request.end.is_before(&cursor) {
            stop = true;
        }
        proof {
            if idx + 1 < merged@.len() {
                assert(merged@[idx as int].end.ordinal() + 1 < merged@[idx + 1].start.ordinal());
            }
            assert forall|o: int| #![trigger covers(gaps@, o)] covers(gaps@, o) ==> request.start.ordinal() <= o < cursor.ordinal() by {
                if covers(gaps@, o) && covers(old_gaps, o) {
                    assert(request.start.ordinal() <= o < old_cursor.ordinal());
                }
            }
            assert forall|o: int| #![trigger covers(gaps@, o)] request.start.ordinal() <= o < cursor.ordinal() implies (covers(gaps@, o) <==> !covers(merged@, o)) by {
                if o < old_cursor.ordinal() {
                    assert(covers(old_gaps, o) <==> !covers(merged@, o));
                    assert(covers(gaps@, o) <==> covers(old_gaps, o));
                } else if o < start.ordinal() {
                    assert(!covers(old_gaps, o));
                    assert(in_range(gaps@[gaps@.len() - 1], o));
                    if covers(merged@, o) {
                        let kk = choose|kk: int| 0 <= kk < merged@.len() && #[trigger] in_range(merged@[kk], o);
                        if kk < idx {
                        } else if kk > idx {
                            assert(merged@[idx as int].end.ordinal() + 1 < merged@[kk].start.ordinal());
                        }
                    }
                } else {
                    assert(in_range(merged@[idx as int], o));
                    assert(!covers(old_gaps, o));
                    assert(!covers(gaps@, o)) by {
                        if covers(gaps@, o) && !covers(old_gaps, o) {
                            assert(in_range(gaps@[gaps@.len() - 1], o));
                        }
                    }
                }
            }
        }
        idx = idx + 1;
    }
    let ghost before_gaps = gaps@;
    if !saturated && !request.end.is_before(&cursor) {
        gaps.push(CoverageRange { start: cursor, end: request.end });
        proof {
            lemma_covers_push(before_gaps, CoverageRange { start: cursor, end: request.end });
            assert(gaps@ == before_gaps.push(CoverageRange { start: cursor, end: request.end }));
        }
    }
    proof {
        assert forall|o: int| #![trigger covers(gaps@, o)]
            covers(gaps@, o) <==> (in_range(request, o) && !covers(covered@, o)) by {
            assert(covers(merged@, o) <==> covers(covered@, o));
            if request.start.ordinal() <= o < cursor.ordinal() {
                assert(covers(before_gaps, o) <==> !covers(merged@, o));
            }
            if cursor.ordinal() <= o <= request.end.ordinal() {
                assert(!covers(before_gaps, o));
                assert(!stop);
                if saturated {
                    assert(gaps@ == before_gaps);
                    assert(o == max_ordinal());
                } else {
                    assert(in_range(gaps@[gaps@.len() - 1], o));
                    assert(covers(gaps@, o));
                    if covers(merged@, o) {
                        let kk = choose|kk: int| 0 <= kk < merged@.len() && #[trigger] in_range(merged@[kk], o);
                        assert(merged@[kk].end.ordinal() < cursor.ordinal() || merged@[kk].start.ordinal() > request.end.ordinal());
                    }
                }
            } else if covers(gaps@, o) {
                if !covers(before_gaps, o) {
                    assert(in_range(gaps@[gaps@.len() - 1], o));
                }
            }
        }
    }
    gaps
}

/// What merging gives: a list covering the same days, canonical when every
/// range of the input is ordered.
pub open spec fn merged_from(ranges: Seq<CoverageRange>, merged: Seq<CoverageRange>) -> bool {
    &&& forall|o: int| #![trigger covers(merged, o)] #![trigger covers(ranges, o)] covers(merged, o) <==> covers(ranges, o)
    &&& ordered(ranges) ==> canonical(merged)
}

/// Two lists holding the same ranges, in any order, cover the same days
/// and are ordered alike.
proof fn lemma_same_ranges_any_order(a: Seq<CoverageRange>, b: Seq<CoverageRange>)
    requires
        a.to_multiset() =~= b.to_multiset(),
    ensures
        forall|o: int| covers(a, o) <==> covers(b, o),
        ordered(a) ==> ordered(b),
{
    broadcast use vstd::seq_lib::to_multiset_contains;
    assert forall|o: int| covers(a, o) implies covers(b, o) by {
        let k = choose|k: int| 0 <= k < a.len() && #[trigger] in_range(a[k], o);
        assert(a.contains(a[k]));
        assert(a.to_multiset().count(a[k]) > 0);
        assert(b.to_multiset().count(a[k]) > 0);
        assert(b.contains(a[k]));
        let j = choose|j: int| 0 <= j < b.len() && b[j] == a[k];
        assert(in_range(b[j], o));
    }
    assert forall|o: int| covers(b, o) implies covers(a, o) by {
        let k = choose|k: int| 0 <= k < b.len() && #[trigger] in_range(b[k], o);
        assert(b.contains(b[k]));
        assert(b.to_multiset().count(b[k]) > 0);
        assert(a.to_multiset().count(b[k]) > 0);
        assert(a.contains(b[k]));
        let j = choose|j: int| 0 <= j < a.len() && a[j] == b[k];
        assert(in_range(a[j], o));
    }
    if ordered(a) {
        assert forall|k: int| 0 <= k < b.len() implies (#[trigger] b[k]).start.ordinal() <= b[k].end.ordinal() by {
            assert(b.contains(b[k]));
            assert(b.to_multiset().count(b[k]) > 0);
            assert(a.to_multiset().count(b[k]) > 0);
            assert(a.contains(b[k]));
            let j = choose|j: int| 0 <= j < a.len() && a[j] == b[k];
        }
    }
}

/// Merging ignores the order of its input: two lists of the same ordered
/// ranges, in any order, merge to the same ranges, day for day.
pub proof fn law_merge_ignores_order(
    a: Seq<CoverageRange>,
    b: Seq<CoverageRange>,
    merged_a: Seq<CoverageRange>,
    merged_b: Seq<CoverageRange>,
)
    requires
        ordered(a),
        a.to_multiset() =~= b.to_multiset(),
        merged_from(a, merged_a),
        merged_from(b, merged_b),
    ensures
        merged_a.len() == merged_b.len(),
        forall|k: int| 0 <= k < merged_a.len() ==> (#[trigger] merged_a[k]).start.ordinal() == merged_b[k].start.ordinal()
            && merged_a[k].end.ordinal() == merged_b[k].end.ordinal(),
{
    lemma_same_ranges_any_order(a, b);
    assert forall|o: int| covers(merged_a, o) <==> covers(merged_b, o) by {
        assert(covers(merged_a, o) <==> covers(a, o));
        assert(covers(merged_b, o) <==> covers(b, o));
    }
    law_canonical_form_is_unique(merged_a, merged_b);
}

/// Merging is idempotent: merging a merged list of ordered ranges gives
/// back the same ranges, day for day.
pub proof fn law_merge_is_idempotent(ranges: Seq<CoverageRange>, once: Seq<CoverageRange>, twice: Seq<CoverageRange>)
    requires
        ordered(ranges),
        merged_from(ranges, once),
        merged_from(once, twice),
    ensures
        once.len() == twice.len(),
        forall|k: int| 0 <= k < once.len() ==> (#[trigger] once[k]).start.ordinal() == twice[k].start.ordinal()
            && once[k].end.ordinal() == twice[k].end.ordinal(),
{
    assert(canonical(once));
    assert(canonical(twice));
    assert forall|o: int| covers(once, o) <==> covers(twice, o) by {
        assert(covers(twice, o) <==> covers(once, o));
    }
    law_canonical_form_is_unique(once, twice);
}

/// The canonical form is unique: two canonical lists covering the same days
/// hold the same ranges, day for day. In particular merging an already
/// merged list gives back the same ranges.
pub proof fn law_canonical_form_is_unique(a: Seq<CoverageRange>, b: Seq<CoverageRange>)
    requires
        canonical(a),
        canonical(b),
        forall|o: int| covers(a, o) <==> covers(b, o),
    ensures
        a.len() == b.len(),
        forall|k: int| 0 <= k < a.len() ==> (#[trigger] a[k]).start.ordinal() == b[k].start.ordinal()
            && a[k].end.ordinal() == b[k].end.ordinal(),
    decreases a.len(),
{
    if a.len() == 0 {
        if b.len() > 0 {
            assert(in_range(b[0], b[0].start.ordinal()));
            assert(covers(b, b[0].start.ordinal()));
        }
        return;
    }
    if b.len() == 0 {
        assert(in_range(a[0], a[0].start.ordinal()));
        assert(covers(a, a[0].start.ordinal()));
        return;
    }
    let sa = a[0].start.ordinal();
    let sb = b[0].start.ordinal();
    let ea = a[0].end.ordinal();
    let eb = b[0].end.ordinal();
    lemma_first_range_bounds(a);
    lemma_first_range_bounds(b);
    assert(in_range(a[0], sa));
    assert(covers(a, sa));
    assert(covers(b, sa));
    assert(in_range(b[0], sb));
    assert(covers(b, sb));
    assert(covers(a, sb));
    assert(sa == sb);
    if eb < ea {
        assert(in_range(a[0], eb + 1));
        assert(covers(a, eb + 1));
        assert(covers(b, eb + 1));
        let k = choose|k: int| 0 <= k < b.len() && #[trigger] in_range(b[k], eb + 1);
        if k > 0 {
            assert(b[0].end.ordinal() + 1 < b[k].start.ordinal());
        }
    }
    if ea < eb {
        assert(in_range(b[0], ea + 1));
        assert(covers(b, ea + 1));
        assert(covers(a, ea + 1));
        let k = choose|k: int| 0 <= k < a.len() && #[trigger] in_range(a[k], ea + 1);
        if k > 0 {
            assert(a[0].end.ordinal() + 1 < a[k].start.ordinal());
        }
    }
    assert(ea == eb);
    let ta = a.drop_first();
    let tb = b.drop_first();
    assert forall|o: int| covers(ta, o) <==> covers(tb, o) by {
        if covers(ta, o) {
            let k = choose|k: int| 0 <= k < ta.len() && #[trigger] in_range(ta[k], o);
            assert(ta[k] == a[k + 1]);
            assert(in_range(a[k + 1], o));
            assert(a[0].end.ordinal() + 1 < a[k + 1].start.ordinal());
            assert(covers(a, o));
            assert(covers(b, o));
            let m = choose|m: int| 0 <= m < b.len() && #[trigger] in_range(b[m], o);
            assert(m != 0);
            assert(tb[m - 1] == b[m]);
            assert(in_range(tb[m - 1], o));
        }
        if covers(tb, o) {
            let k = choose|k: int| 0 <= k < tb.len() && #[trigger] in_range(tb[k], o);
            assert(tb[k] == b[k + 1]);
            assert(in_range(b[k + 1], o));
            assert(b[0].end.ordinal() + 1 < b[k + 1].start.ordinal());
            assert(covers(b, o));
            assert(covers(a, o));
            let m = choose|m: int| 0 <= m < a.len() && #[trigger] in_range(a[m], o);
            assert(m != 0);
            assert(ta[m - 1] == a[m]);
            assert(in_range(ta[m - 1], o));
        }
    }
    assert forall|k: int| 0 <= k < ta.len() implies (#[trigger] ta[k]).start.ordinal() <= ta[k].end.ordinal() by {
        assert(ta[k] == a[k + 1]);
    }
    assert forall|i: int, j: int| 0 <= i < j < ta.len() implies (#[trigger] ta[i]).end.ordinal() + 1 < (#[trigger] ta[j]).start.ordinal() by {
        assert(ta[i] == a[i + 1] && ta[j] == a[j + 1]);
    }
    assert forall|k: int| 0 <= k < tb.len() implies (#[trigger] tb[k]).start.ordinal() <= tb[k].end.ordinal() by {
        assert(tb[k] == b[k + 1]);
    }
    assert forall|i: int, j: int| 0 <= i < j < tb.len() implies (#[trigger] tb[i]).end.ordinal() + 1 < (#[trigger] tb[j]).start.ordinal() by {
        assert(tb[i] == b[i + 1] && tb[j] == b[j + 1]);
    }
    law_canonical_form_is_unique(ta, tb);
    assert forall|k: int| 0 <= k < a.len() implies (#[trigger] a[k]).start.ordinal() == b[k].start.ordinal()
        && a[k].end.ordinal() == b[k].end.ordinal() by {
        if k > 0 {
            assert(a[k] == ta[k - 1] && b[k] == tb[k - 1]);
        }
    }
}

/// In a canonical list the first range starts before, and ends before the
/// start of, every later one.
proof fn lemma_first_range_bounds(rs: Seq<CoverageRange>)
    requires
        canonical(rs),
        rs.len() > 0,
    ensures
        forall|k: int| 0 < k < rs.len() ==> rs[0].end.ordinal() + 1 < (#[trigger] rs[k]).start.ordinal(),
        forall|k: int, o: int| 0 <= k < rs.len() && #[trigger] in_range(rs[k], o) ==> rs[0].start.ordinal() <= o,
{
    assert forall|k: int| 0 < k < rs.len() implies rs[0].end.ordinal() + 1 < (#[trigger] rs[k]).start.ordinal() by {
        assert(rs[0].end.ordinal() + 1 < rs[k].start.ordinal());
    }
    assert forall|k: int, o: int| 0 <= k < rs.len() && #[trigger] in_range(rs[k], o) implies rs[0].start.ordinal() <= o by {
        assert(rs[0].start.ordinal() <= rs[0].end.ordinal());
        if k > 0 {
            assert(rs[0].end.ordinal() + 1 < rs[k].start.ordinal());
        }
    }
}

} // verus!
