//! ISO-style currency codes and normalised currency pairs.

use vstd::prelude::*;

use crate::error::{is_validation_of, AppError};
use crate::text::{is_upper, lemma_seq_less_asymmetric, lemma_seq_less_total, push_char, seq_less};

verus! {

/// Three ASCII upper-case letters.
pub open spec fn is_currency_code(s: Seq<char>) -> bool {
    s.len() == 3 && is_upper(s[0]) && is_upper(s[1]) && is_upper(s[2])
}

/// A currency code.
#[derive(Debug, Clone, Copy, PartialEq, Eq, Hash, Structural)]
pub struct CurrencyCode {
    first: char,
    second: char,
    third: char,
}

impl CurrencyCode {
    #[verifier::type_invariant]
    spec fn letters(self) -> bool {
        is_upper(self.first) && is_upper(self.second) && is_upper(self.third)
    }

    /// The three letters of the code.
    pub closed spec fn code(self) -> Seq<char> {
        seq![self.first, self.second, self.third]
    }

    /// A code is determined by its letters.
    pub proof fn lemma_code_determines(a: CurrencyCode, b: CurrencyCode)
        requires
            a.code() == b.code(),
        ensures
            a == b,
    {
        assert(a.code()[0] == b.code()[0]);
        assert(a.code()[1] == b.code()[1]);
        assert(a.code()[2] == b.code()[2]);
    }

    /// Parses a three-letter upper-case code.
    pub fn parse(text: &str) -> (result: Result<CurrencyCode, AppError>)
        ensures
            match result {
                Ok(c) => is_currency_code(text@) && c.code() == text@,
                Err(e) => !is_currency_code(text@) && is_validation_of(e, "currency"@),
            },
    {
        if text.unicode_len() != 3 {
            return Err(AppError::validation("currency", "A currency code must be three upper-case letters."));
        }
        let first = text.get_char(0);
        let second = text.get_char(1);
        let third = text.get_char(2);
        if !(is_upper_char(first) && is_upper_char(second) && is_upper_char(third)) {
            return Err(AppError::validation("currency", "A currency code must be three upper-case letters."));
        }
        let code = CurrencyCode { first, second, third };
        assert(code.code() =~= text@);
        Ok(code)
    }

    /// The code as text.
    pub fn to_text(&self) -> (text: String)
        ensures
            text@ == self.code(),
            is_currency_code(text@),
    {
        proof {
            use_type_invariant(self);
        }
        let mut text = String::new();
        push_char(&mut text, self.first);
        push_char(&mut text, self.second);
        push_char(&mut text, self.third);
        assert(text@ =~= self.code());
        text
    }

    /// Alphabetical order of codes.
    pub fn precedes(&self, other: &CurrencyCode) -> (r: bool)
        ensures
            r == seq_less(self.code(), other.code()),
    {
        proof {
            reveal_with_fuel(seq_less, 4);
            let a = self.code();
            let b = other.code();
            assert(a.drop_first() =~= seq![self.second, self.third]);
            assert(b.drop_first() =~= seq![other.second, other.third]);
            assert(a.drop_first().drop_first() =~= seq![self.third]);
            assert(b.drop_first().drop_first() =~= seq![other.third]);
            assert(a.drop_first().drop_first().drop_first() =~= Seq::<char>::empty());
            assert(b.drop_first().drop_first().drop_first() =~= Seq::<char>::empty());
        }
        self.first < other.first || (self.first == other.first && (self.second < other.second
            || (self.second == other.second && self.third < other.third)))
    }

    /// The same currency.
    pub fn same(&self, other: &CurrencyCode) -> (r: bool)
        ensures
            r == (self.code() == other.code()),
    {
        let r = self.first == other.first && self.second == other.second && self.third == other.third;
        proof {
            if self.code() == other.code() {
                assert(self.code()[0] == other.code()[0]);
                assert(self.code()[1] == other.code()[1]);
                assert(self.code()[2] == other.code()[2]);
            }
        }
        r
    }
}

fn is_upper_char(c: char) -> (r: bool)
    ensures
        r == is_upper(c),
{
    'A' <= c && c <= 'Z'
}

/// An unordered pair of different currencies, kept with the alphabetically
/// smaller code first.
#[derive(Debug, Clone, Copy, PartialEq, Eq, Hash, Structural)]
pub struct FxPair {
    pub currency_a: CurrencyCode,
    pub currency_b: CurrencyCode,
}

impl FxPair {
    /// The normalised pair of two different currencies.
    pub fn new(left: CurrencyCode, right: CurrencyCode) -> (pair: Result<FxPair, AppError>)
        ensures
            match pair {
                Ok(p) => left.code() != right.code()
                    && seq_less(p.currency_a.code(), p.currency_b.code())
                    && ((p.currency_a == left && p.currency_b == right) || (p.currency_a == right && p.currency_b == left)),
                Err(e) => left.code() == right.code() && is_validation_of(e, "currency"@),
            },
    {
        if left.same(&right) {
            return Err(AppError::validation("currency", "An FX pair needs two different currencies."));
        }
        proof {
            lemma_seq_less_total(left.code(), right.code());
        }
        if left.precedes(&right) {
            Ok(FxPair { currency_a: left, currency_b: right })
        } else {
            Ok(FxPair { currency_a: right, currency_b: left })
        }
    }
}

/// A pair is the same whichever order its currencies are given in: two
/// pairs made by `FxPair::new(x, y)` and `FxPair::new(y, x)` are equal.
pub proof fn law_pair_ignores_order(x: CurrencyCode, y: CurrencyCode, p: FxPair, q: FxPair)
    requires
        seq_less(p.currency_a.code(), p.currency_b.code()),
        (p.currency_a == x && p.currency_b == y) || (p.currency_a == y && p.currency_b == x),
        seq_less(q.currency_a.code(), q.currency_b.code()),
        (q.currency_a == y && q.currency_b == x) || (q.currency_a == x && q.currency_b == y),
    ensures
        p == q,
{
    lemma_seq_less_asymmetric(x.code(), y.code());
}

} // verus!
