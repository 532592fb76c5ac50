//! The whole and fractional parts of a decimal value, how fractional parts
//! compare, and rounding half to even: what `Decimal::trunc`, `fract`,
//! `cmp` and `round` give.

use vstd::prelude::*;
use vstd::arithmetic::div_mod::{lemma_fundamental_div_mod, lemma_mod_pos_bound};

use crate::amount::{in_decimal_range, DecimalValue, MAX_SCALE};

verus! {

/// Ten to the power `n`.
pub open spec fn pow10(n: nat) -> int
    decreases n,
{
    if n == 0 { 1 } else { 10 * pow10((n - 1) as nat) }
}

/// The largest power of ten that a scale reaches.
pub open spec fn max_pow10() -> int {
    10_000_000_000_000_000_000_000_000_000
}

pub proof fn lemma_pow10_positive(n: nat)
    ensures
        pow10(n) >= 1,
    decreases n,
{
    if n > 0 {
        lemma_pow10_positive((n - 1) as nat);
    }
}

pub proof fn lemma_pow10_add(a: nat, b: nat)
    ensures
        pow10(a + b) == pow10(a) * pow10(b),
    decreases b,
{
    if b > 0 {
        lemma_pow10_add(a, (b - 1) as nat);
        assert(pow10(a + b) == 10 * pow10((a + b - 1) as nat));
        assert(10 * (pow10(a) * pow10((b - 1) as nat)) == pow10(a) * (10 * pow10((b - 1) as nat))) by (nonlinear_arith);
    }
}

pub proof fn lemma_pow10_monotone(a: nat, b: nat)
    requires
        a <= b,
    ensures
        pow10(a) <= pow10(b),
    decreases b,
{
    if a < b {
        lemma_pow10_monotone(a, (b - 1) as nat);
        lemma_pow10_positive((b - 1) as nat);
    }
}

/// Every scale's power of ten is at most `10^28`.
pub proof fn lemma_pow10_bounded(n: nat)
    requires
        n <= MAX_SCALE,
    ensures
        1 <= pow10(n) <= max_pow10(),
{
    lemma_pow10_positive(n);
    lemma_pow10_monotone(n, 28);
    assert(pow10(28) == max_pow10()) by {
        reveal_with_fuel(pow10, 29);
    }
}

/// `10^n` as a machine integer.
pub fn pow10_exec(n: u32) -> (p: i128)
    requires
        n <= MAX_SCALE,
    ensures
        p == pow10(n as nat),
{
    let mut p: i128 = 1;
    let mut i: u32 = 0;
    while i < n
        invariant
            i <= n <= MAX_SCALE,
            p == pow10(i as nat),
        decreases n - i,
    {
        proof {
            lemma_pow10_bounded((i + 1) as nat);
        }
        p = p * 10;
        i = i + 1;
    }
    p
}

/// The whole part of `mantissa × 10^-scale`, cut toward zero.
pub open spec fn whole_part(v: (i128, u32)) -> int {
    if v.0 >= 0 {
        v.0 as int / pow10(v.1 as nat)
    } else {
        -((-v.0) / pow10(v.1 as nat))
    }
}

/// The mantissa of the fractional part, at the value's own scale: the
/// value less its whole part.
pub open spec fn fraction_mantissa(v: (i128, u32)) -> int {
    v.0 - whole_part(v) * pow10(v.1 as nat)
}

/// One fractional part `fa × 10^-sa` is above another `fb × 10^-sb`.
pub open spec fn fraction_above(fa: int, sa: nat, fb: int, sb: nat) -> bool {
    fa * pow10(sb) > fb * pow10(sa)
}

/// Two fractional parts are equal in value.
pub open spec fn fraction_same(fa: int, sa: nat, fb: int, sb: nat) -> bool {
    fa * pow10(sb) == fb * pow10(sa)
}

/// The nearest integer, a tie going to the even one.
pub open spec fn rounded_half_even(v: (i128, u32)) -> int {
    let w = whole_part(v);
    let f = fraction_mantissa(v);
    let twice = if f < 0 { -2 * f } else { 2 * f };
    let away = if v.0 < 0 { w - 1 } else { w + 1 };
    if twice > pow10(v.1 as nat) {
        away
    } else if twice == pow10(v.1 as nat) && w % 2 != 0 {
        away
    } else {
        w
    }
}

/// The whole part and the fractional mantissa of a value; the fraction is
/// smaller in magnitude than the scale's power of ten and has the value's sign.
pub fn split_whole(value: &DecimalValue) -> (split: (i128, i128))
    ensures
        split.0 == whole_part(value@),
        split.1 == fraction_mantissa(value@),
        -pow10(value@.1 as nat) < split.1 < pow10(value@.1 as nat),
        value@.0 >= 0 ==> split.1 >= 0,
        value@.0 < 0 ==> split.1 <= 0,
        value@.1 <= MAX_SCALE,
{
    let (m, s) = value.parts();
    let p = pow10_exec(s);
    proof {
        lemma_pow10_bounded(s as nat);
    }
    let magnitude: i128 = if m >= 0 { m } else { -m };
    let w = magnitude / p;
    let f = magnitude % p;
    proof {
        lemma_fundamental_div_mod(magnitude as int, p as int);
        lemma_mod_pos_bound(magnitude as int, p as int);
        assert(w * p <= magnitude && magnitude - w * p == f) by (nonlinear_arith)
            requires
                magnitude == p * w + f,
                f >= 0,
        ;
        if m >= 0 {
            assert(whole_part(value@) == w);
        } else {
            assert(whole_part(value@) == -w);
            assert(m - (-w) * p == -f) by (nonlinear_arith)
                requires
                    magnitude - w * p == f,
                    m == -magnitude,
            ;
        }
    }
    if m >= 0 {
        (w, f)
    } else {
        (-w, -f)
    }
}

/// How two fractional parts compare: `(above, same)`.
pub fn compare_fractions(fa: i128, sa: u32, fb: i128, sb: u32) -> (order: (bool, bool))
    requires
        sa <= MAX_SCALE,
        sb <= MAX_SCALE,
        -pow10(sa as nat) < fa < pow10(sa as nat),
        -pow10(sb as nat) < fb < pow10(sb as nat),
    ensures
        order.0 == fraction_above(fa as int, sa as nat, fb as int, sb as nat),
        order.1 == fraction_same(fa as int, sa as nat, fb as int, sb as nat),
{
    proof {
        lemma_pow10_bounded(sa as nat);
        lemma_pow10_bounded(sb as nat);
    }
    if sa <= sb {
        let k = pow10_exec(sb - sa);
        let ghost pa = pow10(sa as nat);
        let ghost pb = pow10(sb as nat);
        proof {
            lemma_pow10_add(sa as nat, (sb - sa) as nat);
            lemma_pow10_positive((sb - sa) as nat);
            assert(pb == pa * k);
            assert(-pb < fa * k < pb) by (nonlinear_arith)
                requires
                    -pa < fa < pa,
                    k >= 1,
                    pb == pa * k,
            ;
            assert(fa * pb == (fa * k) * pa) by (nonlinear_arith)
                requires
                    pb == pa * k,
            ;
            assert((fa * k) * pa > fb * pa <==> fa * k > fb) by (nonlinear_arith)
                requires
                    pa >= 1,
            ;
            assert((fa * k) * pa == fb * pa <==> fa * k == fb) by (nonlinear_arith)
                requires
                    pa >= 1,
            ;
        }
        let lifted = fa * k;
        (lifted > fb, lifted == fb)
    } else {
        let k = pow10_exec(sa - sb);
        let ghost pa = pow10(sa as nat);
        let ghost pb = pow10(sb as nat);
        proof {
            lemma_pow10_add(sb as nat, (sa - sb) as nat);
            lemma_pow10_positive((sa - sb) as nat);
            assert(pa == pb * k);
            assert(-pa < fb * k < pa) by (nonlinear_arith)
                requires
                    -pb < fb < pb,
                    k >= 1,
                    pa == pb * k,
            ;
            assert(fb * pa == (fb * k) * pb) by (nonlinear_arith)
                requires
                    pa == pb * k,
            ;
            assert(fa * pb > (fb * k) * pb <==> fa > fb * k) by (nonlinear_arith)
                requires
                    pb >= 1,
            ;
            assert(fa * pb == (fb * k) * pb <==> fa == fb * k) by (nonlinear_arith)
                requires
                    pb >= 1,
            ;
        }
        let lifted = fb * k;
        (fa > lifted, fa == lifted)
    }
}

/// The value rounded to an integer, a tie going to the even neighbour.
pub fn round_half_even(value: &DecimalValue) -> (r: i128)
    ensures
        r == rounded_half_even(value@),
{
    let (w, f) = split_whole(value);
    let (m, s) = value.parts();
    let p = pow10_exec(s);
    proof {
        lemma_pow10_bounded(s as nat);
    }
    let twice: i128 = if f < 0 { 0 - f - f } else { f + f };
    let away: i128 = if m < 0 { w - 1 } else { w + 1 };
    if twice > p {
        away
    } else if twice == p && w % 2 != 0 {
        away
    } else {
        w
    }
}

} // verus!
