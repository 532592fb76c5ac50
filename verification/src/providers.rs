//! Quote providers: the values they return, the failures they report, and
//! in-memory providers whose answers are configured by hand.

use std::time::Duration;

use vstd::prelude::*;

use crate::amount::DecimalValue;
use crate::currency::CurrencyCode;
use crate::error::AppError;
use crate::text::{clone_opt, text_eq};
use crate::time::Timestamp;

verus! {

/// An instrument as a provider's search lists it.
#[derive(Debug, Clone)]
pub struct ProviderInstrument {
    pub provider_key: String,
    pub provider_symbol: String,
    pub name: String,
    pub symbol: Option<String>,
    pub instrument_type: String,
    pub quote_currency: CurrencyCode,
    pub market_code: Option<String>,
    pub country_code: Option<String>,
}

impl ProviderInstrument {
    /// A field-by-field copy.
    pub fn duplicate(&self) -> (copy: ProviderInstrument)
        ensures
            copy == *self,
    {
        ProviderInstrument {
            provider_key: self.provider_key.clone(),
            provider_symbol: self.provider_symbol.clone(),
            name: self.name.clone(),
            symbol: clone_opt(&self.symbol),
            instrument_type: self.instrument_type.clone(),
            quote_currency: self.quote_currency,
            market_code: clone_opt(&self.market_code),
            country_code: clone_opt(&self.country_code),
        }
    }
}

/// A latest unit price of one provider symbol.
#[derive(Debug, Clone)]
pub struct ProviderQuote {
    pub provider_symbol: String,
    pub unit_price: DecimalValue,
    pub quote_currency: CurrencyCode,
    pub quoted_at: Timestamp,
    pub delayed: bool,
}

impl ProviderQuote {
    /// A field-by-field copy.
    pub fn duplicate(&self) -> (copy: ProviderQuote)
        ensures
            copy == *self,
    {
        ProviderQuote {
            provider_symbol: self.provider_symbol.clone(),
            unit_price: self.unit_price,
            quote_currency: self.quote_currency,
            quoted_at: self.quoted_at,
            delayed: self.delayed,
        }
    }
}

/// A latest exchange rate of one currency pair.
#[derive(Debug, Clone, Copy)]
pub struct ProviderFxQuote {
    pub base_currency: CurrencyCode,
    pub quote_currency: CurrencyCode,
    pub rate: DecimalValue,
    pub quoted_at: Timestamp,
    pub delayed: bool,
}

/// The ways a provider request can fail.
#[derive(Debug, Clone, Copy, PartialEq, Eq, Structural)]
pub enum QuoteFailure {
    Timeout,
    Authentication,
    RateLimit,
    Unavailable,
    Malformed,
    Unsupported,
}

/// The error a provider failure is reported as.
pub open spec fn reports_failure(error: AppError, failure: QuoteFailure) -> bool {
    match failure {
        QuoteFailure::Timeout | QuoteFailure::Unavailable => error matches AppError::ProviderUnavailable { message }
            && message@ == "The quote provider is unavailable."@,
        QuoteFailure::Authentication => error is ProviderAuthentication,
        QuoteFailure::RateLimit => error is ProviderRateLimit,
        QuoteFailure::Malformed => error matches AppError::MalformedProviderResponse { message }
            && message@ == "The quote provider returned an invalid value."@,
        QuoteFailure::Unsupported => error matches AppError::UnsupportedProviderSymbol { message }
            && message@ == "The provider does not recognize this symbol."@,
    }
}

/// The error reported when no live provider is configured.
pub open spec fn is_unconfigured(error: AppError) -> bool {
    error matches AppError::ProviderUnavailable { message }
        && message@ == "No live market-data provider is configured."@
}

fn unconfigured() -> (error: AppError)
    ensures
        is_unconfigured(error),
{
    AppError::ProviderUnavailable { message: String::from_str("No live market-data provider is configured.") }
}

fn map_failure(failure: QuoteFailure) -> (error: AppError)
    ensures
        reports_failure(error, failure),
{
    match failure {
        QuoteFailure::Timeout | QuoteFailure::Unavailable => AppError::ProviderUnavailable {
            message: String::from_str("The quote provider is unavailable."),
        },
        QuoteFailure::Authentication => AppError::ProviderAuthentication,
        QuoteFailure::RateLimit => AppError::ProviderRateLimit,
        QuoteFailure::Malformed => AppError::MalformedProviderResponse {
            message: String::from_str("The quote provider returned an invalid value."),
        },
        QuoteFailure::Unsupported => AppError::UnsupportedProviderSymbol {
            message: String::from_str("The provider does not recognize this symbol."),
        },
    }
}

/// The request counter after one more request; it wraps as an atomic
/// counter does.
pub open spec fn next_count(count: usize) -> usize {
    if count == usize::MAX { 0 } else { (count + 1) as usize }
}

/// The quote most recently configured for a symbol.
pub open spec fn latest_quote(quotes: Seq<ProviderQuote>, symbol: Seq<char>) -> Option<ProviderQuote>
    decreases quotes.len(),
{
    if quotes.len() == 0 {
        None
    } else if quotes.last().provider_symbol@ == symbol {
        Some(quotes.last())
    } else {
        latest_quote(quotes.drop_last(), symbol)
    }
}

/// The failure most recently configured for a key.
pub open spec fn latest_failure(failures: Seq<(Seq<char>, QuoteFailure)>, key: Seq<char>) -> Option<QuoteFailure>
    decreases failures.len(),
{
    if failures.len() == 0 {
        None
    } else if failures.last().0 == key {
        Some(failures.last().1)
    } else {
        latest_failure(failures.drop_last(), key)
    }
}

/// What a quote provider answers for a symbol: the failure set for it, else
/// its quote, else an unknown-symbol error.
pub open spec fn answers_symbol(provider: FakeQuoteProvider, symbol: Seq<char>, quote: Result<ProviderQuote, AppError>) -> bool {
    match provider.failure_for(symbol) {
        Some(failure) => quote matches Err(e) && reports_failure(e, failure),
        None => match provider.quote_for(symbol) {
            Some(q) => quote == Ok::<ProviderQuote, AppError>(q),
            None => quote matches Err(e) && reports_failure(e, QuoteFailure::Unsupported),
        },
    }
}

/// A quote provider answering from quotes, failures and search results set
/// up in advance; it counts the quote requests it receives.
pub struct FakeQuoteProvider {
    quotes: Vec<ProviderQuote>,
    search: Vec<ProviderInstrument>,
    failures: Vec<(String, QuoteFailure)>,
    delay: Option<Duration>,
    requests: usize,
}

impl FakeQuoteProvider {
    /// The quote that a fetch of the symbol returns, unless a failure is set.
    pub closed spec fn quote_for(&self, symbol: Seq<char>) -> Option<ProviderQuote> {
        latest_quote(self.quotes@, symbol)
    }

    /// The failure that a fetch of the symbol reports.
    pub closed spec fn failure_for(&self, symbol: Seq<char>) -> Option<QuoteFailure> {
        latest_failure(self.failures@.map_values(|entry: (String, QuoteFailure)| (entry.0@, entry.1)), symbol)
    }

    /// The instruments every search lists, in the order they were added.
    pub closed spec fn listed(&self) -> Seq<ProviderInstrument> {
        self.search@
    }

    /// The pause before each quote is answered, once one was set.
    pub closed spec fn pause(&self) -> Option<Duration> {
        self.delay
    }

    /// Quote requests received so far.
    pub closed spec fn requests(&self) -> usize {
        self.requests
    }

    /// A provider with nothing configured.
    pub fn new() -> (provider: FakeQuoteProvider)
        ensures
            forall|s: Seq<char>| provider.quote_for(s) is None && provider.failure_for(s) is None,
            provider.listed() == Seq::<ProviderInstrument>::empty(),
            provider.pause() is None,
            provider.requests() == 0,
    {
        let provider = FakeQuoteProvider {
            quotes: Vec::new(),
            search: Vec::new(),
            failures: Vec::new(),
            delay: None,
            requests: 0,
        };
        assert forall|s: Seq<char>| provider.failure_for(s) is None by {
            assert(provider.failures@.map_values(|entry: (String, QuoteFailure)| (entry.0@, entry.1)).len() == 0);
        }
        provider
    }

    /// Sets the quote answered for its symbol.
    pub fn insert_quote(&mut self, quote: ProviderQuote)
        ensures
            final(self).quote_for(quote.provider_symbol@) == Some(quote),
            forall|s: Seq<char>| s != quote.provider_symbol@ ==> final(self).quote_for(s) == old(self).quote_for(s),
            forall|s: Seq<char>| final(self).failure_for(s) == old(self).failure_for(s),
            final(self).listed() == old(self).listed(),
            final(self).pause() == old(self).pause(),
            final(self).requests() == old(self).requests(),
    {
        let ghost before = self.quotes@;
        self.quotes.push(quote);
        assert(self.quotes@.drop_last() =~= before);
    }

    /// Makes every fetch of the symbol fail.
    pub fn fail(&mut self, symbol: &str, failure: QuoteFailure)
        ensures
            final(self).failure_for(symbol@) == Some(failure),
            forall|s: Seq<char>| s != symbol@ ==> final(self).failure_for(s) == old(self).failure_for(s),
            forall|s: Seq<char>| final(self).quote_for(s) == old(self).quote_for(s),
            final(self).listed() == old(self).listed(),
            final(self).pause() == old(self).pause(),
            final(self).requests() == old(self).requests(),
    {
        let ghost before = self.failures@.map_values(|entry: (String, QuoteFailure)| (entry.0@, entry.1));
        self.failures.push((String::from_str(symbol), failure));
        let ghost after = self.failures@.map_values(|entry: (String, QuoteFailure)| (entry.0@, entry.1));
        assert(after.drop_last() =~= before);
    }

    /// Adds an instrument to the search results.
    pub fn insert_search(&mut self, instrument: ProviderInstrument)
        ensures
            final(self).listed() == old(self).listed().push(instrument),
            forall|s: Seq<char>| final(self).quote_for(s) == old(self).quote_for(s),
            forall|s: Seq<char>| final(self).failure_for(s) == old(self).failure_for(s),
            final(self).pause() == old(self).pause(),
            final(self).requests() == old(self).requests(),
    {
        self.search.push(instrument);
    }

    /// Sets the pause before each quote.
    pub fn set_delay(&mut self, delay: Duration)
        ensures
            final(self).pause() == Some(delay),
            final(self).listed() == old(self).listed(),
            forall|s: Seq<char>| final(self).quote_for(s) == old(self).quote_for(s),
            forall|s: Seq<char>| final(self).failure_for(s) == old(self).failure_for(s),
            final(self).requests() == old(self).requests(),
    {
        self.delay = Some(delay);
    }

    /// The pause the caller waits before asking for a quote; none until one
    /// is set.
    pub fn delay(&self) -> (delay: Option<Duration>)
        ensures
            delay == self.pause(),
    {
        self.delay
    }

    /// Quote requests received so far.
    pub fn request_count(&self) -> (count: usize)
        ensures
            count == self.requests(),
    {
        self.requests
    }

    /// Every configured search result, whatever the query.
    pub fn search(&self, query: &str) -> (found: Result<Vec<ProviderInstrument>, AppError>)
        ensures
            found matches Ok(list) && list@ == self.listed(),
    {
        let mut list: Vec<ProviderInstrument> = Vec::new();
        let mut i: usize = 0;
        while i < self.search.len()
            invariant
                i <= self.search.len(),
                list@ == self.search@.subrange(0, i as int),
            decreases self.search.len() - i,
        {
            list.push(self.search[i].duplicate());
            i = i + 1;
            assert(list@ =~= self.search@.subrange(0, i as int));
        }
        assert(list@ =~= self.search@);
        Ok(list)
    }

    /// Answers one quote request: the failure set for the symbol, else its
    /// quote, else an unknown-symbol error. The caller waits `delay()` first.
    pub fn fetch_quote(&mut self, provider_symbol: &str) -> (quote: Result<ProviderQuote, AppError>)
        ensures
            final(self).requests() == next_count(old(self).requests()),
            forall|s: Seq<char>| final(self).quote_for(s) == old(self).quote_for(s),
            forall|s: Seq<char>| final(self).failure_for(s) == old(self).failure_for(s),
            final(self).listed() == old(self).listed(),
            final(self).pause() == old(self).pause(),
            answers_symbol(*old(self), provider_symbol@, quote),
    {
        self.requests = self.requests.wrapping_add(1);
        match self.find_failure(provider_symbol) {
            Some(failure) => Err(map_failure(failure)),
            None => match self.find_quote(provider_symbol) {
                Some(quote) => Ok(quote),
                None => Err(map_failure(QuoteFailure::Unsupported)),
            },
        }
    }

    fn find_failure(&self, symbol: &str) -> (failure: Option<QuoteFailure>)
        ensures
            failure == self.failure_for(symbol@),
    {
        let ghost keyed = self.failures@.map_values(|entry: (String, QuoteFailure)| (entry.0@, entry.1));
        let mut i: usize = self.failures.len();
        assert(keyed.subrange(0, i as int) =~= keyed);
        while i > 0
            invariant
                i <= self.failures.len(),
                keyed == self.failures@.map_values(|entry: (String, QuoteFailure)| (entry.0@, entry.1)),
                latest_failure(keyed.subrange(0, i as int), symbol@) == latest_failure(keyed, symbol@),
            decreases i,
        {
            let ghost prefix = keyed.subrange(0, i as int);
            assert(prefix.drop_last() =~= keyed.subrange(0, i - 1));
            if text_eq(self.failures[i - 1].0.as_str(), symbol) {
                return Some(self.failures[i - 1].1);
            }
            i = i - 1;
        }
        assert(keyed.subrange(0, 0).len() == 0);
        None
    }

    fn find_quote(&self, symbol: &str) -> (quote: Option<ProviderQuote>)
        ensures
            quote == self.quote_for(symbol@),
    {
        let mut i: usize = self.quotes.len();
        assert(self.quotes@.subrange(0, i as int) =~= self.quotes@);
        while i > 0
            invariant
                i <= self.quotes.len(),
                latest_quote(self.quotes@.subrange(0, i as int), symbol@) == latest_quote(self.quotes@, symbol@),
            decreases i,
        {
            let ghost prefix = self.quotes@.subrange(0, i as int);
            assert(prefix.drop_last() =~= self.quotes@.subrange(0, i - 1));
            if text_eq(self.quotes[i - 1].provider_symbol.as_str(), symbol) {
                return Some(self.quotes[i - 1].duplicate());
            }
            i = i - 1;
        }
        assert(self.quotes@.subrange(0, 0).len() == 0);
        None
    }
}

/// The FX quote most recently configured for (base, quote).
pub open spec fn latest_fx(quotes: Seq<ProviderFxQuote>, base: Seq<char>, quote: Seq<char>) -> Option<ProviderFxQuote>
    decreases quotes.len(),
{
    if quotes.len() == 0 {
        None
    } else if quotes.last().base_currency.code() == base && quotes.last().quote_currency.code() == quote {
        Some(quotes.last())
    } else {
        latest_fx(quotes.drop_last(), base, quote)
    }
}

/// The failure most recently configured for (base, quote).
pub open spec fn latest_fx_failure(
    failures: Seq<(Seq<char>, Seq<char>, QuoteFailure)>,
    base: Seq<char>,
    quote: Seq<char>,
) -> Option<QuoteFailure>
    decreases failures.len(),
{
    if failures.len() == 0 {
        None
    } else if failures.last().0 == base && failures.last().1 == quote {
        Some(failures.last().2)
    } else {
        latest_fx_failure(failures.drop_last(), base, quote)
    }
}

/// What an FX provider answers for (base, quote): a failure set for the
/// pair (this direction first, then the reverse), else a rate (likewise),
/// else an unavailable-provider error.
pub open spec fn answers_pair(
    provider: FakeFxProvider,
    base: CurrencyCode,
    quote: CurrencyCode,
    rate: Result<ProviderFxQuote, AppError>,
) -> bool {
    let forward = provider.failure_for(base.code(), quote.code());
    let backward = provider.failure_for(quote.code(), base.code());
    let direct = provider.rate_for(base.code(), quote.code());
    let reverse = provider.rate_for(quote.code(), base.code());
    if forward is Some {
        rate matches Err(e) && reports_failure(e, forward.unwrap())
    } else if backward is Some {
        rate matches Err(e) && reports_failure(e, backward.unwrap())
    } else if direct is Some {
        rate == Ok::<ProviderFxQuote, AppError>(direct.unwrap())
    } else if reverse is Some {
        rate == Ok::<ProviderFxQuote, AppError>(reverse.unwrap())
    } else {
        rate matches Err(e) && e matches AppError::ProviderUnavailable { message }
            && message@ == "No FX quote is available for this pair."@
    }
}

/// An FX provider answering from rates and failures set up in advance, in
/// either direction of a pair; it counts the requests it receives.
pub struct FakeFxProvider {
    quotes: Vec<ProviderFxQuote>,
    failures: Vec<(String, String, QuoteFailure)>,
    requests: usize,
}

impl FakeFxProvider {
    /// The rate configured for exactly (base, quote).
    pub closed spec fn rate_for(&self, base: Seq<char>, quote: Seq<char>) -> Option<ProviderFxQuote> {
        latest_fx(self.quotes@, base, quote)
    }

    /// The failure configured for exactly (base, quote).
    pub closed spec fn failure_for(&self, base: Seq<char>, quote: Seq<char>) -> Option<QuoteFailure> {
        latest_fx_failure(
            self.failures@.map_values(|entry: (String, String, QuoteFailure)| (entry.0@, entry.1@, entry.2)),
            base,
            quote,
        )
    }

    /// Requests received so far.
    pub closed spec fn requests(&self) -> usize {
        self.requests
    }

    /// A provider with nothing configured.
    pub fn new() -> (provider: FakeFxProvider)
        ensures
            forall|b: Seq<char>, q: Seq<char>| provider.rate_for(b, q) is None && provider.failure_for(b, q) is None,
            provider.requests() == 0,
    {
        let provider = FakeFxProvider { quotes: Vec::new(), failures: Vec::new(), requests: 0 };
        assert forall|b: Seq<char>, q: Seq<char>| provider.failure_for(b, q) is None by {
            assert(provider.failures@.map_values(
                |entry: (String, String, QuoteFailure)| (entry.0@, entry.1@, entry.2),
            ).len() == 0);
        }
        provider
    }

    /// Sets the rate answered for the quote's (base, quote).
    pub fn insert_quote(&mut self, quote: ProviderFxQuote)
        ensures
            final(self).rate_for(quote.base_currency.code(), quote.quote_currency.code()) == Some(quote),
            forall|b: Seq<char>, q: Seq<char>|
                !(b == quote.base_currency.code() && q == quote.quote_currency.code())
                    ==> final(self).rate_for(b, q) == old(self).rate_for(b, q),
            forall|b: Seq<char>, q: Seq<char>| final(self).failure_for(b, q) == old(self).failure_for(b, q),
            final(self).requests() == old(self).requests(),
    {
        let ghost before = self.quotes@;
        self.quotes.push(quote);
        assert(self.quotes@.drop_last() =~= before);
    }

    /// Makes every request for (base, quote), in either direction, fail.
    pub fn fail(&mut self, base: &str, quote: &str, failure: QuoteFailure)
        ensures
            final(self).failure_for(base@, quote@) == Some(failure),
            forall|b: Seq<char>, q: Seq<char>|
                !(b == base@ && q == quote@) ==> final(self).failure_for(b, q) == old(self).failure_for(b, q),
            forall|b: Seq<char>, q: Seq<char>| final(self).rate_for(b, q) == old(self).rate_for(b, q),
            final(self).requests() == old(self).requests(),
    {
        let ghost before = self.failures@.map_values(
            |entry: (String, String, QuoteFailure)| (entry.0@, entry.1@, entry.2),
        );
        self.failures.push((String::from_str(base), String::from_str(quote), failure));
        let ghost after = self.failures@.map_values(
            |entry: (String, String, QuoteFailure)| (entry.0@, entry.1@, entry.2),
        );
        assert(after.drop_last() =~= before);
    }

    /// Requests received so far.
    pub fn request_count(&self) -> (count: usize)
        ensures
            count == self.requests(),
    {
        self.requests
    }

    /// Answers one rate request: a failure set for the pair (this direction
    /// first, then the reverse), else a rate (likewise), else an error.
    pub fn fetch_pair(&mut self, base: CurrencyCode, quote: CurrencyCode) -> (rate: Result<ProviderFxQuote, AppError>)
        ensures
            final(self).requests() == next_count(old(self).requests()),
            forall|b: Seq<char>, q: Seq<char>| final(self).rate_for(b, q) == old(self).rate_for(b, q),
            forall|b: Seq<char>, q: Seq<char>| final(self).failure_for(b, q) == old(self).failure_for(b, q),
            answers_pair(*old(self), base, quote, rate),
    {
        self.requests = self.requests.wrapping_add(1);
        let base_text = base.to_text();
        let quote_text = quote.to_text();
        if let Some(failure) = self.find_failure(base_text.as_str(), quote_text.as_str()) {
            return Err(map_failure(failure));
        }
        if let Some(failure) = self.find_failure(quote_text.as_str(), base_text.as_str()) {
            return Err(map_failure(failure));
        }
        if let Some(rate) = self.find_rate(base, quote) {
            return Ok(rate);
        }
        if let Some(rate) = self.find_rate(quote, base) {
            return Ok(rate);
        }
        Err(AppError::ProviderUnavailable { message: String::from_str("No FX quote is available for this pair.") })
    }

    fn find_failure(&self, base: &str, quote: &str) -> (failure: Option<QuoteFailure>)
        ensures
            failure == self.failure_for(base@, quote@),
    {
        let ghost keyed = self.failures@.map_values(
            |entry: (String, String, QuoteFailure)| (entry.0@, entry.1@, entry.2),
        );
        let mut i: usize = self.failures.len();
        assert(keyed.subrange(0, i as int) =~= keyed);
        while i > 0
            invariant
                i <= self.failures.len(),
                keyed == self.failures@.map_values(
                    |entry: (String, String, QuoteFailure)| (entry.0@, entry.1@, entry.2),
                ),
                latest_fx_failure(keyed.subrange(0, i as int), base@, quote@) == latest_fx_failure(keyed, base@, quote@),
            decreases i,
        {
            let ghost prefix = keyed.subrange(0, i as int);
            assert(prefix.drop_last() =~= keyed.subrange(0, i - 1));
            let entry = &self.failures[i - 1];
            if text_eq(entry.0.as_str(), base) && text_eq(entry.1.as_str(), quote) {
                return Some(entry.2);
            }
            i = i - 1;
        }
        assert(keyed.subrange(0, 0).len() == 0);
        None
    }

    fn find_rate(&self, base: CurrencyCode, quote: CurrencyCode) -> (rate: Option<ProviderFxQuote>)
        ensures
            rate == self.rate_for(base.code(), quote.code()),
    {
        let mut i: usize = self.quotes.len();
        assert(self.quotes@.subrange(0, i as int) =~= self.quotes@);
        while i > 0
            invariant
                i <= self.quotes.len(),
                latest_fx(self.quotes@.subrange(0, i as int), base.code(), quote.code())
                    == latest_fx(self.quotes@, base.code(), quote.code()),
            decreases i,
        {
            let ghost prefix = self.quotes@.subrange(0, i as int);
            assert(prefix.drop_last() =~= self.quotes@.subrange(0, i - 1));
            let candidate = self.quotes[i - 1];
            if candidate.base_currency.same(&base) && candidate.quote_currency.same(&quote) {
                return Some(candidate);
            }
            i = i - 1;
        }
        assert(self.quotes@.subrange(0, 0).len() == 0);
        None
    }
}

/// The quote source the application is wired to.
pub enum QuoteAdapter {
    Unconfigured,
    Fake(FakeQuoteProvider),
}

impl QuoteAdapter {
    /// Wired to an in-memory provider.
    pub fn is_fake(&self) -> (fake: bool)
        ensures
            fake == (*self is Fake),
    {
        match self {
            QuoteAdapter::Fake(_) => true,
            QuoteAdapter::Unconfigured => false,
        }
    }

    /// Wired to nothing.
    pub fn is_unconfigured(&self) -> (none: bool)
        ensures
            none == (*self is Unconfigured),
    {
        match self {
            QuoteAdapter::Fake(_) => false,
            QuoteAdapter::Unconfigured => true,
        }
    }

    /// Searches the configured provider.
    pub fn search(&self, query: &str) -> (found: Result<Vec<ProviderInstrument>, AppError>)
        ensures
            match self {
                QuoteAdapter::Unconfigured => found matches Err(e) && is_unconfigured(e),
                QuoteAdapter::Fake(fake) => found matches Ok(list) && list@ == fake.listed(),
            },
    {
        match self {
            QuoteAdapter::Unconfigured => Err(unconfigured()),
            QuoteAdapter::Fake(fake) => fake.search(query),
        }
    }

    /// Fetches a latest quote from the configured provider.
    pub fn fetch_quote(&mut self, provider_symbol: &str) -> (quote: Result<ProviderQuote, AppError>)
        ensures
            match *old(self) {
                QuoteAdapter::Unconfigured => quote matches Err(e) && is_unconfigured(e) && *final(self) is Unconfigured,
                QuoteAdapter::Fake(fake) => *final(self) matches QuoteAdapter::Fake(after)
                    && after.requests() == next_count(fake.requests())
                    && answers_symbol(fake, provider_symbol@, quote),
            },
    {
        match self {
            QuoteAdapter::Unconfigured => Err(unconfigured()),
            QuoteAdapter::Fake(fake) => fake.fetch_quote(provider_symbol),
        }
    }
}

/// The FX source the application is wired to.
pub enum FxAdapter {
    Unconfigured,
    Fake(FakeFxProvider),
}

impl FxAdapter {
    /// Wired to an in-memory provider.
    pub fn is_fake(&self) -> (fake: bool)
        ensures
            fake == (*self is Fake),
    {
        match self {
            FxAdapter::Fake(_) => true,
            FxAdapter::Unconfigured => false,
        }
    }

    /// Wired to nothing.
    pub fn is_unconfigured(&self) -> (none: bool)
        ensures
            none == (*self is Unconfigured),
    {
        match self {
            FxAdapter::Fake(_) => false,
            FxAdapter::Unconfigured => true,
        }
    }

    /// Fetches a latest rate from the configured provider; without one, an
    /// unconfigured-provider error.
    pub fn fetch_pair(&mut self, base: CurrencyCode, quote: CurrencyCode) -> (rate: Result<ProviderFxQuote, AppError>)
        ensures
            *old(self) is Unconfigured ==> (rate matches Err(e) && is_unconfigured(e) && *final(self) is Unconfigured),
            *old(self) matches FxAdapter::Fake(fake) ==> (*final(self) matches FxAdapter::Fake(after)
                && after.requests() == next_count(fake.requests())
                && answers_pair(fake, base, quote, rate)),
    {
        match self {
            FxAdapter::Unconfigured => Err(unconfigured()),
            FxAdapter::Fake(fake) => fake.fetch_pair(base, quote),
        }
    }
}

/// What is inserted is what is fetched: once a quote is set for its symbol
/// and no failure is set for that symbol, a fetch of the symbol returns
/// exactly that quote.
pub proof fn law_inserted_quote_is_fetched(provider: FakeQuoteProvider, quote: ProviderQuote)
    requires
        provider.quote_for(quote.provider_symbol@) == Some(quote),
        provider.failure_for(quote.provider_symbol@) is None,
    ensures
        answers_symbol(provider, quote.provider_symbol@, Ok(quote)),
{
}

/// A failure set for a symbol is reported whatever quote is set for it.
pub proof fn law_failure_wins(provider: FakeQuoteProvider, symbol: Seq<char>, failure: QuoteFailure, answer: Result<ProviderQuote, AppError>)
    requires
        provider.failure_for(symbol) == Some(failure),
        answers_symbol(provider, symbol, answer),
    ensures
        answer matches Err(e) && reports_failure(e, failure),
{
}

} // verus!
