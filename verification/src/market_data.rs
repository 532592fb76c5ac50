//! Market-data providers as the application sees them: what each can do,
//! the identities and requests handed to them, and the closes they return.

use vstd::prelude::*;

use crate::amount::DecimalValue;
use crate::currency::CurrencyCode;
use crate::providers::{FxAdapter, QuoteAdapter};
use crate::error::AppError;
use crate::text::{
    is_blank, lemma_seq_less_asymmetric, lemma_seq_less_total, lemma_seq_less_transitive, seq_less, text_eq,
    text_is_blank, text_less,
};
use crate::time::Timestamp;

verus! {

/// The id of the Yahoo Finance provider.
pub const YAHOO_FINANCE_PROVIDER: &'static str = "yahoo_finance";
/// The id of the in-memory fixture provider.
pub const FAKE_PROVIDER: &'static str = "fake";
/// Provider requests allowed in flight at once.
pub const MAX_PROVIDER_REQUESTS: usize = 2;

/// What a provider can answer.
#[derive(Debug, Clone, Copy, PartialEq, Eq, Structural)]
pub struct MarketDataCapabilities {
    pub latest_instrument: bool,
    pub latest_fx: bool,
    pub daily_history: bool,
    pub instrument_search: bool,
}

/// One provider's capabilities as the interface shows them.
#[derive(Debug, Clone)]
pub struct MarketDataProviderCapabilitiesDto {
    pub provider_id: String,
    pub provider_name: String,
    pub latest_instrument: bool,
    pub latest_fx: bool,
    pub daily_history: bool,
    pub instrument_search: bool,
}

/// The registered providers and the default one.
#[derive(Debug, Clone)]
pub struct MarketDataCapabilitiesDto {
    pub default_provider_id: String,
    pub providers: Vec<MarketDataProviderCapabilitiesDto>,
}

/// An Instrument as a provider knows it.
#[derive(Debug, Clone)]
pub struct InstrumentMarketIdentity {
    pub provider_id: String,
    pub provider_symbol: String,
    pub expected_currency: CurrencyCode,
}

/// A currency pair as a provider knows it.
#[derive(Debug, Clone)]
pub struct FxMarketIdentity {
    pub provider_id: String,
    pub base_currency: CurrencyCode,
    pub quote_currency: CurrencyCode,
}

/// A request for daily closes between two instants.
#[derive(Debug, Clone)]
pub struct DailyHistoryRequest {
    pub provider_id: String,
    pub provider_symbol: String,
    pub expected_currency: CurrencyCode,
    pub start_at: Timestamp,
    pub end_at: Timestamp,
}

/// One daily close of an Instrument.
#[derive(Debug, Clone, Copy)]
pub struct DailyInstrumentClose {
    pub unit_price: DecimalValue,
    pub quote_currency: CurrencyCode,
    pub quoted_at: Timestamp,
    pub delayed: bool,
}

/// One daily close of a currency pair.
#[derive(Debug, Clone, Copy)]
pub struct DailyFxClose {
    pub rate: DecimalValue,
    pub base_currency: CurrencyCode,
    pub quote_currency: CurrencyCode,
    pub quoted_at: Timestamp,
    pub delayed: bool,
}

/// The display name of a provider id: known providers by name, any other
/// by its id.
pub open spec fn provider_name_spec(provider_id: Seq<char>) -> Seq<char> {
    if provider_id == "yahoo_finance"@ {
        "Yahoo Finance"@
    } else if provider_id == "fake"@ {
        "Fixture provider"@
    } else {
        provider_id
    }
}

/// The display name of a provider id.
pub fn provider_name(provider_id: &str) -> (name: String)
    ensures
        name@ == provider_name_spec(provider_id@),
{
    proof {
        reveal_strlit("yahoo_finance");
        reveal_strlit("fake");
    }
    if text_eq(provider_id, YAHOO_FINANCE_PROVIDER) {
        String::from_str("Yahoo Finance")
    } else if text_eq(provider_id, FAKE_PROVIDER) {
        String::from_str("Fixture provider")
    } else {
        String::from_str(provider_id)
    }
}

/// The providers wired before provider registration: one quote source and
/// one FX source seen as a single provider.
pub struct LegacyProvider {
    pub quote: QuoteAdapter,
    pub fx: FxAdapter,
}

impl LegacyProvider {
    /// Combines the two sources.
    pub fn new(quote: QuoteAdapter, fx: FxAdapter) -> (provider: LegacyProvider)
        ensures
            provider.quote == quote && provider.fx == fx,
    {
        LegacyProvider { quote, fx }
    }

    /// `fake` when either source is in-memory, `legacy` otherwise.
    pub fn id(&self) -> (id: &'static str)
        ensures
            (self.quote is Fake || self.fx is Fake) ==> id@ == "fake"@,
            !(self.quote is Fake || self.fx is Fake) ==> id@ == "legacy"@,
    {
        if self.quote.is_fake() || self.fx.is_fake() {
            FAKE_PROVIDER
        } else {
            "legacy"
        }
    }

    /// Latest quotes and search where a quote source is wired, latest FX
    /// where an FX source is; never daily history.
    pub fn capabilities(&self) -> (capabilities: MarketDataCapabilities)
        ensures
            capabilities.latest_instrument == !(self.quote is Unconfigured),
            capabilities.latest_fx == !(self.fx is Unconfigured),
            !capabilities.daily_history,
            capabilities.instrument_search == !(self.quote is Unconfigured),
    {
        MarketDataCapabilities {
            latest_instrument: !self.quote.is_unconfigured(),
            latest_fx: !self.fx.is_unconfigured(),
            daily_history: false,
            instrument_search: !self.quote.is_unconfigured(),
        }
    }
}

/// The (id, capabilities) entries as values.
pub open spec fn entry_views(entries: Seq<(String, MarketDataCapabilities)>) -> Seq<(Seq<char>, MarketDataCapabilities)> {
    entries.map_values(|entry: (String, MarketDataCapabilities)| (entry.0@, entry.1))
}

/// Every provider id is non-blank and no two are the same.
pub open spec fn provider_ids_valid(entries: Seq<(Seq<char>, MarketDataCapabilities)>) -> bool {
    &&& forall|i: int| 0 <= i < entries.len() ==> !is_blank(#[trigger] entries[i].0)
    &&& forall|i: int, j: int| 0 <= i < j < entries.len() ==> (#[trigger] entries[i]).0 != (#[trigger] entries[j]).0
}

/// The entries are in strictly increasing id order.
pub open spec fn sorted_by_id(entries: Seq<(Seq<char>, MarketDataCapabilities)>) -> bool {
    forall|i: int, j: int| 0 <= i < j < entries.len() ==> seq_less((#[trigger] entries[i]).0, (#[trigger] entries[j]).0)
}

/// Some entry has the id.
pub open spec fn has_id(entries: Seq<(Seq<char>, MarketDataCapabilities)>, id: Seq<char>) -> bool {
    exists|i: int| 0 <= i < entries.len() && (#[trigger] entries[i]).0 == id
}

/// Two entry lists hold the same entries.
pub open spec fn same_entries(a: Seq<(Seq<char>, MarketDataCapabilities)>, b: Seq<(Seq<char>, MarketDataCapabilities)>) -> bool {
    forall|x: (Seq<char>, MarketDataCapabilities)| #![trigger a.contains(x)] #![trigger b.contains(x)]
        a.contains(x) <==> b.contains(x)
}

/// The error of a provider list with a blank or repeated id.
pub open spec fn is_invalid_registry(error: AppError) -> bool {
    error matches AppError::Conflict { message } && message@ == "The market-data provider registry is invalid."@
}

/// The error of a default provider that is not registered.
pub open spec fn is_missing_default(error: AppError) -> bool {
    error matches AppError::Conflict { message } && message@ == "The default market-data provider is unavailable."@
}

/// The registered providers, by id, with the default one.
pub struct MarketDataRegistry {
    providers: Vec<(String, MarketDataCapabilities)>,
    default_provider_id: String,
}

impl MarketDataRegistry {
    #[verifier::type_invariant]
    spec fn well_formed(self) -> bool {
        &&& sorted_by_id(entry_views(self.providers@))
        &&& provider_ids_valid(entry_views(self.providers@))
        &&& has_id(entry_views(self.providers@), self.default_provider_id@)
    }

    /// The registered (id, capabilities) entries in id order.
    pub closed spec fn entries(&self) -> Seq<(Seq<char>, MarketDataCapabilities)> {
        entry_views(self.providers@)
    }

    /// The default provider's id.
    pub closed spec fn default_id(&self) -> Seq<char> {
        self.default_provider_id@
    }

    /// Registers providers under their ids; every id must be non-blank and
    /// used once, and the default must be among them.
    pub fn new(
        providers: Vec<(String, MarketDataCapabilities)>,
        default_provider_id: &str,
    ) -> (registry: Result<MarketDataRegistry, AppError>)
        ensures
            match registry {
                Ok(r) => provider_ids_valid(entry_views(providers@))
                    && has_id(entry_views(providers@), default_provider_id@)
                    && r.default_id() == default_provider_id@
                    && sorted_by_id(r.entries())
                    && r.entries().len() == providers@.len()
                    && same_entries(r.entries(), entry_views(providers@)),
                Err(e) => if !provider_ids_valid(entry_views(providers@)) {
                    is_invalid_registry(e)
                } else {
                    !has_id(entry_views(providers@), default_provider_id@) && is_missing_default(e)
                },
            },
    {
        let ghost input = entry_views(providers@);
        let mut sorted: Vec<(String, MarketDataCapabilities)> = Vec::new();
        let mut i: usize = 0;
        while i < providers.len()
            invariant
                i <= providers@.len(),
                input == entry_views(providers@),
                sorted@.len() == i,
                sorted_by_id(entry_views(sorted@)),
                provider_ids_valid(input.subrange(0, i as int)),
                same_entries(entry_views(sorted@), input.subrange(0, i as int)),
            decreases providers@.len() - i,
        {
            let id = &providers[i].0;
            let capabilities = providers[i].1;
            let ghost before = entry_views(sorted@);
            let ghost prefix = input.subrange(0, i as int);
            let ghost next = input.subrange(0, i + 1);
            assert(next =~= prefix.push(input[i as int]));
            if text_is_blank(id.as_str()) {
                assert(next[i as int] == input[i as int]);
                assert(!provider_ids_valid(input)) by {
                    assert(input[i as int].0 == id@);
                }
                return Err(AppError::conflict("The market-data provider registry is invalid."));
            }
            let mut position: usize = 0;
            let mut found = false;
            while !found && position < sorted.len()
                invariant
                    position <= sorted@.len(),
                    before == entry_views(sorted@),
                    sorted_by_id(before),
                    i < providers@.len(),
                    input == entry_views(providers@),
                    prefix == input.subrange(0, i as int),
                    input[i as int].0 == id@,
                    same_entries(before, prefix),
                    forall|k: int| 0 <= k < position ==> seq_less((#[trigger] before[k]).0, id@),
                    found ==> position < sorted@.len() && seq_less(id@, before[position as int].0),
                decreases sorted@.len() - position + if found { 0int } else { 1int },
            {
                let other = &sorted[position].0;
                assert(before[position as int].0 == other@);
                if text_eq(id.as_str(), other.as_str()) {
                    proof {
                        let hit = before[position as int];
                        assert(before.contains(hit));
                        assert(prefix.contains(hit));
                        let j = choose|j: int| 0 <= j < prefix.len() && prefix[j] == hit;
                        assert(input[j] == prefix[j]);
                        assert(input[j].0 == input[i as int].0);
                        assert(!provider_ids_valid(input));
                    }
                    return Err(AppError::conflict("The market-data provider registry is invalid."));
                }
                if text_less(id.as_str(), other.as_str()) {
                    found = true;
                } else {
                    proof {
                        lemma_seq_less_total(id@, other@);
                    }
                    position = position + 1;
                }
            }
            proof {
                assert forall|k: int| position <= k < before.len() implies seq_less(id@, (#[trigger] before[k]).0) by {
                    if k > position {
                        lemma_seq_less_transitive(id@, before[position as int].0, before[k].0);
                    }
                }
                assert forall|k: int| 0 <= k < before.len() implies (#[trigger] before[k]).0 != id@ by {
                    if k < position {
                        lemma_seq_less_asymmetric(before[k].0, id@);
                    } else {
                        lemma_seq_less_asymmetric(id@, before[k].0);
                    }
                }
            }
            sorted.insert(position, (id.clone(), capabilities));
            let ghost after = entry_views(sorted@);
            proof {
                let entry = (id@, capabilities);
                assert(input[i as int] == entry);
                assert(after =~= before.insert(position as int, entry));
                assert forall|a: int, b: int| 0 <= a < b < after.len() implies seq_less(
                    (#[trigger] after[a]).0,
                    (#[trigger] after[b]).0,
                ) by {
                    if b < position {
                        assert(after[a] == before[a] && after[b] == before[b]);
                    } else if b == position {
                        assert(after[a] == before[a]);
                    } else if a < position {
                        assert(after[a] == before[a] && after[b] == before[b - 1]);
                        if position < before.len() {
                            lemma_seq_less_transitive(before[a].0, id@, before[b - 1].0);
                        }
                    } else if a == position {
                        assert(after[b] == before[b - 1]);
                    } else {
                        assert(after[a] == before[a - 1] && after[b] == before[b - 1]);
                    }
                }
                assert forall|x: (Seq<char>, MarketDataCapabilities)| #![trigger after.contains(x)] #![trigger next.contains(x)]
                    after.contains(x) <==> next.contains(x) by {
                    if after.contains(x) {
                        let k = choose|k: int| 0 <= k < after.len() && after[k] == x;
                        if k < position {
                            assert(before[k] == x);
                            assert(before.contains(x));
                            let j = choose|j: int| 0 <= j < prefix.len() && prefix[j] == x;
                            assert(next[j] == x);
                        } else if k == position {
                            assert(next[i as int] == x);
                        } else {
                            assert(before[k - 1] == x);
                            assert(before.contains(x));
                            let j = choose|j: int| 0 <= j < prefix.len() && prefix[j] == x;
                            assert(next[j] == x);
                        }
                    }
                    if next.contains(x) {
                        let j = choose|j: int| 0 <= j < next.len() && next[j] == x;
                        if j < i {
                            assert(prefix[j] == x);
                            assert(prefix.contains(x));
                            assert(before.contains(x));
                            let k = choose|k: int| 0 <= k < before.len() && before[k] == x;
                            if k < position {
                                assert(after[k] == x);
                            } else {
                                assert(after[k + 1] == x);
                            }
                        } else {
                            assert(after[position as int] == x);
                        }
                    }
                }
                assert forall|a: int| 0 <= a < next.len() implies !is_blank(#[trigger] next[a].0) by {
                    if a < i {
                        assert(next[a] == prefix[a]);
                    }
                }
                assert forall|a: int, b: int| 0 <= a < b < next.len() implies (#[trigger] next[a]).0 != (#[trigger] next[b]).0 by {
                    if b < i {
                        assert(next[a] == prefix[a] && next[b] == prefix[b]);
                    } else {
                        assert(next[a] == prefix[a]);
                        assert(prefix.contains(prefix[a]));
                        let k = choose|k: int| 0 <= k < before.len() && before[k] == prefix[a];
                        assert(before[k].0 != id@);
                    }
                }
            }
            i = i + 1;
        }
        assert(input.subrange(0, i as int) =~= input);
        let ghost views = entry_views(sorted@);
        assert(same_entries(views, input));
        assert(provider_ids_valid(input));
        let mut d: usize = 0;
        let mut present = false;
        while !present && d < sorted.len()
            invariant
                d <= sorted@.len(),
                present ==> d < sorted@.len() && entry_views(sorted@)[d as int].0 == default_provider_id@,
                !present ==> forall|k: int| 0 <= k < d ==> (#[trigger] entry_views(sorted@)[k]).0 != default_provider_id@,
            decreases sorted@.len() - d + if present { 0int } else { 1int },
        {
            if text_eq(sorted[d].0.as_str(), default_provider_id) {
                present = true;
            } else {
                d = d + 1;
            }
        }
        if !present {
            proof {
                if has_id(input, default_provider_id@) {
                    let j = choose|j: int| 0 <= j < input.len() && (#[trigger] input[j]).0 == default_provider_id@;
                    assert(input.contains(input[j]));
                    assert(views.contains(input[j]));
                    let k = choose|k: int| 0 <= k < views.len() && views[k] == input[j];
                    assert(views[k].0 != default_provider_id@);
                }
            }
            return Err(AppError::conflict("The default market-data provider is unavailable."));
        }
        proof {
            assert(views.contains(views[d as int]));
            assert(input.contains(views[d as int]));
            let j = choose|j: int| 0 <= j < input.len() && input[j] == views[d as int];
            assert(input[j].0 == default_provider_id@);
            assert(has_id(input, default_provider_id@));
            assert(views[d as int].0 == default_provider_id@);
            assert(has_id(views, default_provider_id@));
            assert forall|a: int| 0 <= a < views.len() implies !is_blank(#[trigger] views[a].0) by {
                assert(views.contains(views[a]));
                assert(input.contains(views[a]));
                let b = choose|b: int| 0 <= b < input.len() && input[b] == views[a];
                assert(!is_blank(input[b].0));
            }
            assert forall|a: int, b: int| 0 <= a < b < views.len() implies (#[trigger] views[a]).0 != (#[trigger] views[b]).0 by {
                lemma_seq_less_asymmetric(views[a].0, views[b].0);
            }
        }
        Ok(MarketDataRegistry { providers: sorted, default_provider_id: String::from_str(default_provider_id) })
    }

    /// The default provider's id.
    pub fn default_provider_id(&self) -> (id: &str)
        ensures
            id@ == self.default_id(),
    {
        self.default_provider_id.as_str()
    }

    /// Whether a provider is registered under the id.
    pub fn is_registered(&self, provider_id: &str) -> (registered: bool)
        ensures
            registered == has_id(self.entries(), provider_id@),
    {
        self.capabilities_for(provider_id).is_some()
    }

    /// The capabilities registered under the id.
    pub fn capabilities_for(&self, provider_id: &str) -> (capabilities: Option<MarketDataCapabilities>)
        ensures
            match capabilities {
                Some(c) => self.entries().contains((provider_id@, c))
                    && forall|other: MarketDataCapabilities| #[trigger] self.entries().contains((provider_id@, other)) ==> other == c,
                None => !has_id(self.entries(), provider_id@),
            },
    {
        proof {
            use_type_invariant(self);
        }
        let ghost views = entry_views(self.providers@);
        let mut k: usize = 0;
        while k < self.providers.len()
            invariant
                k <= self.providers@.len(),
                views == entry_views(self.providers@),
                provider_ids_valid(views),
                forall|j: int| 0 <= j < k ==> (#[trigger] views[j]).0 != provider_id@,
            decreases self.providers@.len() - k,
        {
            if text_eq(self.providers[k].0.as_str(), provider_id) {
                assert(views[k as int] == (provider_id@, self.providers[k as int].1));
                proof {
                    assert forall|other: MarketDataCapabilities| #[trigger] views.contains((provider_id@, other))
                        implies other == self.providers[k as int].1 by {
                        let m = choose|m: int| 0 <= m < views.len() && views[m] == (provider_id@, other);
                        if m != k {
                            if m < k {
                                assert(views[m].0 != views[k as int].0);
                            } else {
                                assert(views[k as int].0 != views[m].0);
                            }
                        }
                    }
                }
                return Some(self.providers[k].1);
            }
            k = k + 1;
        }
        None
    }

    /// Every registered provider with its capabilities, in id order.
    pub fn capabilities(&self) -> (list: Vec<(String, MarketDataCapabilities)>)
        ensures
            entry_views(list@) == self.entries(),
    {
        let mut list: Vec<(String, MarketDataCapabilities)> = Vec::new();
        let mut k: usize = 0;
        while k < self.providers.len()
            invariant
                k <= self.providers@.len(),
                list@.len() == k,
                entry_views(list@) == entry_views(self.providers@).subrange(0, k as int),
            decreases self.providers@.len() - k,
        {
            let ghost old_list = list@;
            let entry = (self.providers[k].0.clone(), self.providers[k].1);
            assert(entry.0@ == self.providers@[k as int].0@);
            list.push(entry);
            assert(list@ == old_list.push(entry));
            assert(entry_views(list@)[k as int] == entry_views(self.providers@)[k as int]);
            assert forall|j: int| 0 <= j < k implies entry_views(list@)[j] == entry_views(old_list)[j] by {
                assert(list@[j] == old_list[j]);
            }
            k = k + 1;
            assert(entry_views(list@) =~= entry_views(self.providers@).subrange(0, k as int));
        }
        assert(entry_views(self.providers@).subrange(0, k as int) =~= entry_views(self.providers@));
        list
    }

    /// The registry as the interface shows it: the default provider and,
    /// in id order, each provider's display name and capabilities.
    pub fn capabilities_dto(&self) -> (dto: MarketDataCapabilitiesDto)
        ensures
            dto.default_provider_id@ == self.default_id(),
            dto.providers@.len() == self.entries().len(),
            forall|k: int| 0 <= k < dto.providers@.len() ==> {
                let row = #[trigger] dto.providers@[k];
                let entry = self.entries()[k];
                &&& row.provider_id@ == entry.0
                &&& row.provider_name@ == provider_name_spec(entry.0)
                &&& row.latest_instrument == entry.1.latest_instrument
                &&& row.latest_fx == entry.1.latest_fx
                &&& row.daily_history == entry.1.daily_history
                &&& row.instrument_search == entry.1.instrument_search
            },
    {
        let entries = self.capabilities();
        let mut rows: Vec<MarketDataProviderCapabilitiesDto> = Vec::new();
        let mut k: usize = 0;
        while k < entries.len()
            invariant
                k <= entries@.len(),
                entry_views(entries@) == self.entries(),
                rows@.len() == k,
                forall|j: int| 0 <= j < k ==> {
                    let row = #[trigger] rows@[j];
                    let entry = self.entries()[j];
                    &&& row.provider_id@ == entry.0
                    &&& row.provider_name@ == provider_name_spec(entry.0)
                    &&& row.latest_instrument == entry.1.latest_instrument
                    &&& row.latest_fx == entry.1.latest_fx
                    &&& row.daily_history == entry.1.daily_history
                    &&& row.instrument_search == entry.1.instrument_search
                },
            decreases entries@.len() - k,
        {
            let id = &entries[k].0;
            let capabilities = entries[k].1;
            assert(self.entries()[k as int] == (id@, capabilities));
            rows.push(MarketDataProviderCapabilitiesDto {
                provider_id: id.clone(),
                provider_name: provider_name(id.as_str()),
                latest_instrument: capabilities.latest_instrument,
                latest_fx: capabilities.latest_fx,
                daily_history: capabilities.daily_history,
                instrument_search: capabilities.instrument_search,
            });
            k = k + 1;
        }
        MarketDataCapabilitiesDto { default_provider_id: self.default_provider_id.clone(), providers: rows }
    }

    /// The registry of the providers wired before provider registration:
    /// the combined legacy provider alone, which is also the default.
    pub fn from_legacy(quote: QuoteAdapter, fx: FxAdapter) -> (registry: MarketDataRegistry)
        ensures
            registry.entries().len() == 1,
            (quote is Fake || fx is Fake) ==> registry.default_id() == "fake"@,
            !(quote is Fake || fx is Fake) ==> registry.default_id() == "legacy"@,
            registry.entries()[0].0 == registry.default_id(),
            registry.entries()[0].1.latest_instrument == !(quote is Unconfigured),
            registry.entries()[0].1.latest_fx == !(fx is Unconfigured),
            !registry.entries()[0].1.daily_history,
    {
        let legacy = LegacyProvider::new(quote, fx);
        let id = legacy.id();
        let capabilities = legacy.capabilities();
        proof {
            reveal_strlit("fake");
            reveal_strlit("legacy");
        }
        let entry = (String::from_str(id), capabilities);
        let ghost only = entry_views(seq![entry]);
        assert(only[0].0 == id@);
        assert(!is_blank(id@)) by {
            assert(!crate::text::is_space(id@[0]));
        }
        let sorted = vec![entry];
        assert(entry_views(sorted@) =~= only);
        assert(has_id(only, id@));
        MarketDataRegistry { providers: sorted, default_provider_id: String::from_str(id) }
    }
}

} // verus!
