//! What largest-remainder division keeps: every leftover point is handed
//! out while there are parts above zero to take it, so the shares add up.

use vstd::prelude::*;
use vstd::relations::injective_on;
use vstd::set_lib::{lemma_int_range, lemma_map_size, lemma_subset_equality, set_int_range};

use crate::allocation::{
    ahead_of, floors_through, gets_extra_point, leftover_points, part_floor, rank_among,
    share_of,
};
use crate::decimal_parts::{
    fraction_mantissa, lemma_pow10_positive, pow10, whole_part,
};
use crate::overview::TOTAL_BPS;

verus! {

/// How many of the first `m` parts are above zero.
pub open spec fn positives_through(raws: Seq<Option<(i128, u32)>>, m: nat) -> nat
    decreases m,
{
    if m == 0 {
        0
    } else {
        positives_through(raws, (m - 1) as nat) + if raws[m - 1] is Some { 1nat } else { 0nat }
    }
}

/// How many parts are above zero.
pub open spec fn positive_count(raws: Seq<Option<(i128, u32)>>) -> nat {
    positives_through(raws, raws.len())
}

/// How many of the first `m` parts receive one of the leftover points.
pub open spec fn extras_through(raws: Seq<Option<(i128, u32)>>, m: nat, clamped: bool) -> nat
    decreases m,
{
    if m == 0 {
        0
    } else {
        extras_through(raws, (m - 1) as nat, clamped) + if gets_extra_point(raws, m - 1, clamped) {
            1nat
        } else {
            0nat
        }
    }
}

/// The shares of the first `m` parts added up.
pub open spec fn shares_through(raws: Seq<Option<(i128, u32)>>, m: nat, clamped: bool) -> int
    decreases m,
{
    if m == 0 {
        0
    } else {
        shares_through(raws, (m - 1) as nat, clamped) + share_of(raws, m - 1, clamped)
    }
}

/// The smaller of two integers.
pub open spec fn smaller(a: int, b: int) -> int {
    if a < b { a } else { b }
}

/// The parts above zero among the first `m` form a set of that many.
proof fn lemma_positive_set(raws: Seq<Option<(i128, u32)>>, m: nat)
    ensures
        Set::new(|i: int| 0 <= i < m && raws[i] is Some).finite(),
        Set::new(|i: int| 0 <= i < m && raws[i] is Some).len() == positives_through(raws, m),
    decreases m,
{
    let s = Set::new(|i: int| 0 <= i < m && raws[i] is Some);
    if m == 0 {
        assert(s =~= Set::<int>::empty());
    } else {
        lemma_positive_set(raws, (m - 1) as nat);
        let prev = Set::new(|i: int| 0 <= i < m - 1 && raws[i] is Some);
        if raws[m - 1] is Some {
            assert(s =~= prev.insert(m - 1));
        } else {
            assert(s =~= prev);
        }
    }
}

/// The parts given an extra point among the first `m` form a set of that
/// many.
proof fn lemma_extra_set(raws: Seq<Option<(i128, u32)>>, m: nat, clamped: bool)
    ensures
        Set::new(|i: int| 0 <= i < m && gets_extra_point(raws, i, clamped)).finite(),
        Set::new(|i: int| 0 <= i < m && gets_extra_point(raws, i, clamped)).len() == extras_through(raws, m, clamped),
    decreases m,
{
    let s = Set::new(|i: int| 0 <= i < m && gets_extra_point(raws, i, clamped));
    if m == 0 {
        assert(s =~= Set::<int>::empty());
    } else {
        lemma_extra_set(raws, (m - 1) as nat, clamped);
        let prev = Set::new(|i: int| 0 <= i < m - 1 && gets_extra_point(raws, i, clamped));
        if gets_extra_point(raws, m - 1, clamped) {
            assert(s =~= prev.insert(m - 1));
        } else {
            assert(s =~= prev);
        }
    }
}

/// Cross-multiplied comparisons of fractions chain.
proof fn lemma_cross_chain(xk: int, pk: int, xj: int, pj: int, xi: int, pi: int)
    requires
        pk >= 1,
        pj >= 1,
        pi >= 1,
        xk * pj >= xj * pk,
        xj * pi >= xi * pj,
    ensures
        xk * pi >= xi * pk,
        (xk * pj > xj * pk || xj * pi > xi * pj) ==> xk * pi > xi * pk,
{
    assert((xk * pj) * pi >= (xj * pk) * pi) by (nonlinear_arith)
        requires
            xk * pj >= xj * pk,
            pi >= 1,
    ;
    assert((xj * pi) * pk >= (xi * pj) * pk) by (nonlinear_arith)
        requires
            xj * pi >= xi * pj,
            pk >= 1,
    ;
    assert((xk * pi) * pj >= (xi * pk) * pj) by (nonlinear_arith)
        requires
            (xk * pj) * pi >= (xj * pk) * pi,
            (xj * pi) * pk >= (xi * pj) * pk,
    ;
    assert(xk * pi >= xi * pk) by (nonlinear_arith)
        requires
            (xk * pi) * pj >= (xi * pk) * pj,
            pj >= 1,
    ;
    if xk * pj > xj * pk || xj * pi > xi * pj {
        assert((xk * pj) * pi > (xj * pk) * pi || (xj * pi) * pk > (xi * pj) * pk) by (nonlinear_arith)
            requires
                xk * pj > xj * pk || xj * pi > xi * pj,
                pi >= 1,
                pk >= 1,
        ;
        assert((xk * pi) * pj > (xi * pk) * pj) by (nonlinear_arith)
            requires
                (xk * pj) * pi >= (xj * pk) * pi,
                (xj * pi) * pk >= (xi * pj) * pk,
                (xk * pj) * pi > (xj * pk) * pi || (xj * pi) * pk > (xi * pj) * pk,
        ;
        assert(xk * pi > xi * pk) by (nonlinear_arith)
            requires
                (xk * pi) * pj > (xi * pk) * pj,
                pj >= 1,
        ;
    }
}

/// Coming before is transitive.
proof fn lemma_ahead_transitive(raws: Seq<Option<(i128, u32)>>, k: int, j: int, i: int)
    requires
        ahead_of(raws, k, j),
        ahead_of(raws, j, i),
    ensures
        ahead_of(raws, k, i),
{
    let a = raws[k].unwrap();
    let b = raws[j].unwrap();
    let c = raws[i].unwrap();
    lemma_pow10_positive(a.1 as nat);
    lemma_pow10_positive(b.1 as nat);
    lemma_pow10_positive(c.1 as nat);
    lemma_cross_chain(
        fraction_mantissa(a),
        pow10(a.1 as nat),
        fraction_mantissa(b),
        pow10(b.1 as nat),
        fraction_mantissa(c),
        pow10(c.1 as nat),
    );
}

/// Of two different parts above zero, exactly one comes before the other.
proof fn lemma_ahead_total(raws: Seq<Option<(i128, u32)>>, i: int, j: int)
    requires
        i != j,
        raws[i] is Some,
        raws[j] is Some,
    ensures
        ahead_of(raws, i, j) || ahead_of(raws, j, i),
        !(ahead_of(raws, i, j) && ahead_of(raws, j, i)),
{
}

/// Everything before `j` is before `i` when `j` is, and `j` itself too.
proof fn lemma_rank_grows(raws: Seq<Option<(i128, u32)>>, i: int, j: int, m: nat)
    requires
        ahead_of(raws, j, i),
    ensures
        rank_among(raws, j, m) + (if 0 <= j < m { 1int } else { 0int }) <= rank_among(raws, i, m),
    decreases m,
{
    if m > 0 {
        lemma_rank_grows(raws, i, j, (m - 1) as nat);
        let k = m - 1;
        if ahead_of(raws, k, j) {
            lemma_ahead_transitive(raws, k, j, i);
        }
        if k == j {
            assert(!ahead_of(raws, j, j));
            assert(ahead_of(raws, k, i));
        }
    }
}

/// A part above zero has fewer parts before it than there are parts above
/// zero.
proof fn lemma_rank_bound(raws: Seq<Option<(i128, u32)>>, i: int, m: nat)
    requires
        raws[i] is Some,
    ensures
        rank_among(raws, i, m) + (if 0 <= i < m { 1int } else { 0int }) <= positives_through(raws, m),
    decreases m,
{
    if m > 0 {
        lemma_rank_bound(raws, i, (m - 1) as nat);
    }
}

/// The parts above zero that receive an extra point are as many as the
/// leftover, or all of them where there are fewer.
proof fn lemma_extra_points_counted(raws: Seq<Option<(i128, u32)>>, clamped: bool)
    ensures
        extras_through(raws, raws.len(), clamped) == smaller(leftover_points(raws, clamped), positive_count(raws) as int),
{
    let n = raws.len();
    let left = leftover_points(raws, clamped);
    let rank = |i: int| rank_among(raws, i, n) as int;
    let positives = Set::new(|i: int| 0 <= i < n && raws[i] is Some);
    lemma_positive_set(raws, n);
    let p = positive_count(raws) as int;
    assert(positives.len() == p);
    assert forall|x: int, y: int| positives.contains(x) && positives.contains(y) && #[trigger] rank(x) == #[trigger] rank(
        y,
    ) implies x == y by {
        if x != y {
            lemma_ahead_total(raws, x, y);
            if ahead_of(raws, x, y) {
                lemma_rank_grows(raws, y, x, n);
            } else {
                lemma_rank_grows(raws, x, y, n);
            }
        }
    }
    assert(injective_on(rank, positives));
    let ranks = positives.map(rank);
    lemma_map_size(positives, ranks, rank);
    lemma_int_range(0, p);
    assert(ranks.subset_of(set_int_range(0, p))) by {
        assert forall|v: int| ranks.contains(v) implies set_int_range(0, p).contains(v) by {
            let x = choose|x: int| positives.contains(x) && v == rank(x);
            lemma_rank_bound(raws, x, n);
        }
    }
    lemma_subset_equality(ranks, set_int_range(0, p));
    let given = Set::new(|i: int| 0 <= i < n && gets_extra_point(raws, i, clamped));
    lemma_extra_set(raws, n, clamped);
    assert(given.subset_of(positives));
    let low = smaller(left, p);
    lemma_int_range(0, low);
    assert(given.map(rank) =~= set_int_range(0, low)) by {
        assert forall|v: int| given.map(rank).contains(v) implies set_int_range(0, low).contains(v) by {
            let x = choose|x: int| given.contains(x) && v == rank(x);
            assert(positives.contains(x));
            assert(ranks.contains(v));
        }
        assert forall|v: int| set_int_range(0, low).contains(v) implies given.map(rank).contains(v) by {
            assert(set_int_range(0, p).contains(v));
            assert(ranks.contains(v));
            let x = choose|x: int| positives.contains(x) && v == rank(x);
            assert(given.contains(x));
        }
    }
    assert(injective_on(rank, given));
    lemma_map_size(given, set_int_range(0, low), rank);
}

/// Without clamping each share is its floor plus its extra point.
proof fn lemma_shares_are_floors_and_points(raws: Seq<Option<(i128, u32)>>, m: nat)
    ensures
        shares_through(raws, m, false) == floors_through(raws, m, false) + extras_through(raws, m, false),
    decreases m,
{
    if m > 0 {
        lemma_shares_are_floors_and_points(raws, (m - 1) as nat);
    }
}

/// Largest-remainder division hands out every leftover point while there
/// are parts above zero to take one: the shares add up to the floors plus
/// the smaller of the leftover and the number of parts above zero.
pub proof fn law_leftover_points_are_handed_out(raws: Seq<Option<(i128, u32)>>)
    ensures
        shares_through(raws, raws.len(), false) == floors_through(raws, raws.len(), false) + smaller(
            leftover_points(raws, false),
            positive_count(raws) as int,
        ),
{
    lemma_shares_are_floors_and_points(raws, raws.len());
    lemma_extra_points_counted(raws, false);
}

/// When the floors do not exceed the whole and there are at least as many
/// parts above zero as points left, the shares add up to the whole.
pub proof fn law_shares_add_up_to_the_whole(raws: Seq<Option<(i128, u32)>>)
    requires
        floors_through(raws, raws.len(), false) <= TOTAL_BPS,
        TOTAL_BPS - floors_through(raws, raws.len(), false) <= positive_count(raws),
    ensures
        shares_through(raws, raws.len(), false) == TOTAL_BPS,
{
    law_leftover_points_are_handed_out(raws);
}

/// Where every part above zero has a whole part within `0..10000`, holding
/// shares within the whole changes nothing.
pub proof fn law_clamping_is_idle_below_the_whole(raws: Seq<Option<(i128, u32)>>)
    requires
        forall|i: int| 0 <= i < raws.len() && (#[trigger] raws[i]) is Some ==> 0 <= whole_part(raws[i].unwrap())
            < TOTAL_BPS,
    ensures
        forall|i: int| 0 <= i < raws.len() ==> #[trigger] share_of(raws, i, true) == share_of(raws, i, false),
        shares_through(raws, raws.len(), true) == shares_through(raws, raws.len(), false),
{
    assert forall|i: int| 0 <= i < raws.len() implies #[trigger] part_floor(raws, i, true) == part_floor(raws, i, false) by {
        if raws[i] is Some {
            assert(0 <= whole_part(raws[i].unwrap()) < TOTAL_BPS);
        }
    }
    lemma_floors_agree(raws, raws.len());
    assert forall|i: int| 0 <= i < raws.len() implies #[trigger] share_of(raws, i, true) == share_of(raws, i, false) by {
        assert(part_floor(raws, i, true) == part_floor(raws, i, false));
    }
    lemma_shares_agree(raws, raws.len());
}

proof fn lemma_floors_agree(raws: Seq<Option<(i128, u32)>>, m: nat)
    requires
        m <= raws.len(),
        forall|i: int| 0 <= i < raws.len() ==> #[trigger] part_floor(raws, i, true) == part_floor(raws, i, false),
    ensures
        floors_through(raws, m, true) == floors_through(raws, m, false),
    decreases m,
{
    if m > 0 {
        lemma_floors_agree(raws, (m - 1) as nat);
        assert(part_floor(raws, m - 1, true) == part_floor(raws, m - 1, false));
    }
}

proof fn lemma_shares_agree(raws: Seq<Option<(i128, u32)>>, m: nat)
    requires
        m <= raws.len(),
        forall|i: int| 0 <= i < raws.len() ==> #[trigger] share_of(raws, i, true) == share_of(raws, i, false),
    ensures
        shares_through(raws, m, true) == shares_through(raws, m, false),
    decreases m,
{
    if m > 0 {
        lemma_shares_agree(raws, (m - 1) as nat);
        assert(share_of(raws, m - 1, true) == share_of(raws, m - 1, false));
    }
}

} // verus!
