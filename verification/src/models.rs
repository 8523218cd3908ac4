//! Models, the providers that offer them, and the errors of their registry.

use crate::json;
use crate::sorting;
use crate::sorting::{sort, Ranked};
use crate::strmap::StrMap;
use crate::text;
use crate::text::{concat2, contains_text, copy_texts, join, number_text};
use vstd::prelude::*;
use vstd::string::*;

verus! {

/// An error of the model registry, with the message of its cause.
#[derive(Debug, Clone)]
pub enum RegistryError {
    /// The cache could not be read.
    CacheRead(String),
    /// The cached text is no JSON.
    JsonParse(String),
    /// The models could not be fetched.
    NetworkError(String),
}

impl RegistryError {
    /// The text of the error.
    pub open spec fn text(&self) -> Seq<char> {
        match self {
            RegistryError::CacheRead(cause) => "failed to read cache: "@ + cause@,
            RegistryError::JsonParse(cause) => "failed to parse JSON: "@ + cause@,
            RegistryError::NetworkError(cause) => "network fetch failed: "@ + cause@,
        }
    }

    /// The text of the error.
    pub fn message(&self) -> (r: String)
        ensures
            r@ == self.text(),
    {
        match self {
            RegistryError::CacheRead(cause) => concat2("failed to read cache: ", cause.as_str()),
            RegistryError::JsonParse(cause) => concat2("failed to parse JSON: ", cause.as_str()),
            RegistryError::NetworkError(cause) => concat2("network fetch failed: ", cause.as_str()),
        }
    }
}

/// A price in dollars.
#[derive(Debug)]
pub struct Price {
    /// The bits of the price as a 64-bit IEEE 754 number.
    pub bits: u64,
    /// The price with two decimals.
    pub text: String,
}

/// The bits of the number zero with a minus sign.
pub const NEGATIVE_ZERO: u64 = 0x8000_0000_0000_0000;

impl Price {
    /// Whether the price is zero.
    pub open spec fn zero(&self) -> bool {
        self.bits == 0 || self.bits == NEGATIVE_ZERO
    }

    /// Whether the price is zero.
    pub fn is_zero(&self) -> (r: bool)
        ensures
            r == self.zero(),
    {
        self.bits == 0 || self.bits == NEGATIVE_ZERO
    }
}

impl Clone for Price {
    fn clone(&self) -> (r: Self)
        ensures
            r.bits == self.bits,
            r.text@ == self.text@,
    {
        Price { bits: self.bits, text: self.text.clone() }
    }
}

/// The unit of a price, where none is given.
pub fn default_pricing_unit() -> (r: String)
    ensures
        r@ == "per million tokens"@,
{
    "per million tokens".to_owned()
}

/// What holds of a model, where nothing else is said.
pub fn default_true() -> (r: bool)
    ensures
        r,
{
    true
}

/// The kind of interface of a model, where none is given.
pub fn default_api_type() -> (r: String)
    ensures
        r@ == "chat"@,
{
    "chat".to_owned()
}

/// Information about a model.
#[derive(Debug)]
pub struct ModelInfo {
    pub id: String,
    pub name: String,
    pub provider: String,
    pub context_length: u64,
    pub capabilities: Vec<String>,
    pub pricing_input: Price,
    pub pricing_output: Price,
    pub pricing_unit: String,
    pub serverless: bool,
    pub tunable: bool,
    pub recommended: bool,
    pub max_tokens: Option<u64>,
    pub supports_temperature: bool,
    pub api_type: String,
}

impl ModelInfo {
    /// The pricing as it is shown.
    pub open spec fn pricing_text(&self) -> Seq<char> {
        if self.pricing_input.zero() && self.pricing_output.zero() {
            "N/A"@
        } else {
            "$"@ + self.pricing_input.text@ + " in / $"@ + self.pricing_output.text@ + " out "@
                + self.pricing_unit@
        }
    }

    /// The model as it is shown.
    pub open spec fn display_text(&self) -> Seq<char> {
        self.name@ + "\n  Provider: "@ + self.provider@ + "\n  Context: "@ + text::decimal(
            self.context_length as nat,
        ) + " tokens\n  Capabilities: "@ + text::joined(text::texts(self.capabilities@), ", "@)
    }

    /// Whether a model has a capability.
    pub open spec fn capable(&self, capability: Seq<char>) -> bool {
        text::texts(self.capabilities@).contains(capability)
    }

    /// The pricing as it is shown.
    pub fn format_pricing(&self) -> (r: String)
        ensures
            r@ == self.pricing_text(),
    {
        if self.pricing_input.is_zero() && self.pricing_output.is_zero() {
            return "N/A".to_owned();
        }
        let mut r = "$".to_owned();
        r.append(self.pricing_input.text.as_str());
        r.append(" in / $");
        r.append(self.pricing_output.text.as_str());
        r.append(" out ");
        r.append(self.pricing_unit.as_str());
        r
    }

    /// The model as it is shown.
    pub fn display(&self) -> (r: String)
        ensures
            r@ == self.display_text(),
    {
        let mut r = self.name.as_str().to_owned();
        r.append("\n  Provider: ");
        r.append(self.provider.as_str());
        r.append("\n  Context: ");
        r.append(number_text(self.context_length).as_str());
        r.append(" tokens\n  Capabilities: ");
        r.append(join(&self.capabilities, ", ").as_str());
        r
    }

    /// Whether the model has a capability.
    pub fn has_capability(&self, capability: &str) -> (r: bool)
        ensures
            r == self.capable(capability@),
    {
        contains_text(&self.capabilities, capability)
    }
}

/// Whether two prices are the same.
pub open spec fn same_price(a: Price, b: Price) -> bool {
    a.bits == b.bits && a.text@ == b.text@
}

/// Whether the same is known of two models.
pub open spec fn same_model(a: ModelInfo, b: ModelInfo) -> bool {
    &&& a.id@ == b.id@
    &&& a.name@ == b.name@
    &&& a.provider@ == b.provider@
    &&& a.context_length == b.context_length
    &&& text::texts(a.capabilities@) == text::texts(b.capabilities@)
    &&& same_price(a.pricing_input, b.pricing_input)
    &&& same_price(a.pricing_output, b.pricing_output)
    &&& a.pricing_unit@ == b.pricing_unit@
    &&& a.serverless == b.serverless
    &&& a.tunable == b.tunable
    &&& a.recommended == b.recommended
    &&& a.max_tokens == b.max_tokens
    &&& a.supports_temperature == b.supports_temperature
    &&& a.api_type@ == b.api_type@
}

impl Clone for ModelInfo {
    fn clone(&self) -> (r: Self)
        ensures
            same_model(*self, r),
    {
        ModelInfo {
            id: self.id.clone(),
            name: self.name.clone(),
            provider: self.provider.clone(),
            context_length: self.context_length,
            capabilities: copy_texts(&self.capabilities),
            pricing_input: self.pricing_input.clone(),
            pricing_output: self.pricing_output.clone(),
            pricing_unit: self.pricing_unit.clone(),
            serverless: self.serverless,
            tunable: self.tunable,
            recommended: self.recommended,
            max_tokens: self.max_tokens,
            supports_temperature: self.supports_temperature,
            api_type: self.api_type.clone(),
        }
    }
}

impl<'a> Ranked for &'a ModelInfo {
    open spec fn ranks_before(&self, other: &Self) -> bool {
        self.context_length > other.context_length
    }

    proof fn asymmetric(a: &Self, b: &Self) {
    }

    proof fn negatively_transitive(a: &Self, b: &Self, c: &Self) {
    }

    fn is_before(&self, other: &Self) -> (r: bool) {
        self.context_length > other.context_length
    }
}

/// The models of a list of pairs that have a capability, if one is asked for.
pub open spec fn candidates<'a>(
    pairs: Seq<(String, ModelInfo)>,
    capability: Option<Seq<char>>,
) -> Seq<&'a ModelInfo> {
    pairs.filter(is_candidate(capability)).map_values(|p: (String, ModelInfo)| &p.1)
}

/// The test whether a model has a capability, if one is asked for.
pub open spec fn is_candidate(capability: Option<Seq<char>>) -> spec_fn(
    (String, ModelInfo),
) -> bool {
    |p: (String, ModelInfo)|
        match capability {
            Some(name) => p.1.capable(name),
            None => true,
        }
}

/// The test whether a model is recommended.
pub open spec fn is_recommended() -> spec_fn((String, ModelInfo)) -> bool {
    |p: (String, ModelInfo)| p.1.recommended
}

/// The model to be taken from a list of pairs: the first recommended one, or else the first.
pub open spec fn recommended(pairs: Seq<(String, ModelInfo)>) -> Option<ModelInfo> {
    if pairs.filter(is_recommended()).len() > 0 {
        Some(pairs.filter(is_recommended())[0].1)
    } else if pairs.len() > 0 {
        Some(pairs[0].1)
    } else {
        None
    }
}

/// Information about a provider.
#[derive(Debug)]
pub struct ProviderInfo {
    pub id: String,
    pub name: String,
    pub description: String,
    pub api_key_env: String,
    pub api_base_url: String,
    pub models: StrMap<ModelInfo>,
}

impl Clone for ProviderInfo {
    fn clone(&self) -> (r: Self)
        ensures
            r.id@ == self.id@,
            r.name@ == self.name@,
            r.description@ == self.description@,
            r.api_key_env@ == self.api_key_env@,
            r.api_base_url@ == self.api_base_url@,
            r.models.pairs().len() == self.models.pairs().len(),
            forall|i: int|
                0 <= i < self.models.pairs().len() ==> (#[trigger] r.models.pairs()[i]).0@
                    == self.models.pairs()[i].0@ && same_model(
                    self.models.pairs()[i].1,
                    r.models.pairs()[i].1,
                ),
    {
        ProviderInfo {
            id: self.id.clone(),
            name: self.name.clone(),
            description: self.description.clone(),
            api_key_env: self.api_key_env.clone(),
            api_base_url: self.api_base_url.clone(),
            models: self.models.clone(),
        }
    }
}

impl ProviderInfo {
    /// List the models, optionally those with a capability only, the largest context first.
    ///
    /// Models with equally large contexts keep the order of the map.
    pub fn list_models(&self, capability: Option<&str>) -> (r: Vec<&ModelInfo>)
        ensures
            r@ == sorting::sorted(
                candidates(self.models.pairs(), json::option_chars(capability)),
            ),
    {
        let ghost pairs = self.models.pairs();
        let ghost cap = json::option_chars(capability);
        let mut models: Vec<&ModelInfo> = Vec::new();
        let n: usize = self.models.len();
        let mut i: usize = 0;
        while i < n
            invariant
                i <= n,
                n == pairs.len(),
                pairs == self.models.pairs(),
                cap == json::option_chars(capability),
                models@ == candidates(pairs.take(i as int), cap),
            decreases n - i,
        {
            let model = self.models.pair(i).1;
            proof {
                assert(pairs.take(i + 1) =~= pairs.take(i as int).push(pairs[i as int]));
                pairs.take(i as int).lemma_filter_push(pairs[i as int], is_candidate(cap));
            }
            let keep = match capability {
                Some(name) => model.has_capability(name),
                None => true,
            };
            if keep {
                models.push(model);
            }
            i += 1;
        }
        proof {
            assert(pairs.take(n as int) =~= pairs);
        }
        sort(models)
    }

    /// The model to be taken, where none is chosen: the first recommended one, or else the first.
    pub fn get_recommended_model(&self) -> (r: Option<&ModelInfo>)
        ensures
            match r {
                Some(model) => recommended(self.models.pairs()) == Some(*model),
                None => recommended(self.models.pairs()) is None,
            },
    {
        let ghost pairs = self.models.pairs();
        let n: usize = self.models.len();
        let mut i: usize = 0;
        while i < n
            invariant
                i <= n,
                n == pairs.len(),
                pairs == self.models.pairs(),
                pairs.take(i as int).filter(is_recommended()).len() == 0,
            decreases n - i,
        {
            let model = self.models.pair(i).1;
            proof {
                assert(pairs.take(i + 1) =~= pairs.take(i as int).push(pairs[i as int]));
                pairs.take(i as int).lemma_filter_push(pairs[i as int], is_recommended());
            }
            if model.recommended {
                proof {
                    assert(pairs =~= pairs.take(i + 1) + pairs.skip(i + 1));
                    Seq::filter_distributes_over_add(
                        pairs.take(i + 1),
                        pairs.skip(i + 1),
                        is_recommended(),
                    );
                }
                return Some(model);
            }
            i += 1;
        }
        proof {
            assert(pairs.take(n as int) =~= pairs);
        }
        if n > 0 {
            Some(self.models.pair(0).1)
        } else {
            None
        }
    }
}

/// Models are listed with the largest context first, and exactly those that were asked for.
pub proof fn law_models_are_largest_first(
    pairs: Seq<(String, ModelInfo)>,
    capability: Option<Seq<char>>,
)
    ensures
        ({
            let list = sorting::sorted(candidates(pairs, capability));
            &&& forall|i: int, j: int|
                0 <= i < j < list.len() ==> (#[trigger] list[i]).context_length >= (
                #[trigger] list[j]).context_length
            &&& list.to_multiset() == candidates(pairs, capability).to_multiset()
        }),
{
    sorting::law_sorted_is_ordered_permutation(candidates(pairs, capability));
    let list = sorting::sorted(candidates(pairs, capability));
    assert forall|i: int, j: int| 0 <= i < j < list.len() implies (
    #[trigger] list[i]).context_length >= (#[trigger] list[j]).context_length by {
        assert(!list[j].ranks_before(&list[i]));
    }
}

/// A provider with models has one to be taken, and that one is recommended if any is.
pub proof fn law_some_model_is_taken(pairs: Seq<(String, ModelInfo)>)
    ensures
        recommended(pairs) is Some <==> pairs.len() > 0,
        (exists|i: int| 0 <= i < pairs.len() && (#[trigger] pairs[i]).1.recommended) ==> (
        recommended(pairs) matches Some(model) && model.recommended),
{
    broadcast use vstd::seq_lib::group_filter_ensures;

    let kept = pairs.filter(is_recommended());
    if exists|i: int| 0 <= i < pairs.len() && (#[trigger] pairs[i]).1.recommended {
        let i = choose|i: int| 0 <= i < pairs.len() && (#[trigger] pairs[i]).1.recommended;
        assert(is_recommended()(pairs[i]));
        assert(kept.contains(pairs[i]));
        assert(is_recommended()(kept[0]));
    }
}

/// Pricing is shown as the two prices and their unit, but where both prices are zero, of either
/// sign.
pub proof fn law_pricing_shows_both_prices(model: ModelInfo)
    ensures
        ({
            let free = (model.pricing_input.bits == 0 || model.pricing_input.bits
                == 0x8000_0000_0000_0000) && (model.pricing_output.bits == 0
                || model.pricing_output.bits == 0x8000_0000_0000_0000);
            &&& free ==> model.pricing_text() == "N/A"@
            &&& !free ==> model.pricing_text() == "$"@ + model.pricing_input.text@ + " in / $"@
                + model.pricing_output.text@ + " out "@ + model.pricing_unit@
        }),
{
}

/// A model is shown with its name, its provider, the size of its context and its capabilities.
pub proof fn law_model_is_shown_with_its_fields(model: ModelInfo)
    ensures
        model.display_text() == model.name@ + "\n  Provider: "@ + model.provider@
            + "\n  Context: "@ + text::decimal(model.context_length as nat)
            + " tokens\n  Capabilities: "@ + text::joined(
            text::texts(model.capabilities@),
            ", "@,
        ),
{
}

/// An error of the registry says what was done and why it failed.
pub proof fn law_error_tells_its_cause(error: RegistryError)
    ensures
        match error {
            RegistryError::CacheRead(cause) => error.text() == "failed to read cache: "@ + cause@,
            RegistryError::JsonParse(cause) => error.text() == "failed to parse JSON: "@ + cause@,
            RegistryError::NetworkError(cause) => error.text() == "network fetch failed: "@
                + cause@,
        },
{
}

/// A model has exactly the capabilities that it lists.
pub proof fn law_capabilities_are_the_listed_ones(model: ModelInfo, capability: Seq<char>)
    ensures
        model.capable(capability) <==> exists|i: int|
            0 <= i < model.capabilities@.len() && (#[trigger] model.capabilities@[i])@
                == capability,
{
    let list = text::texts(model.capabilities@);
    if model.capable(capability) {
        let i = choose|i: int| 0 <= i < list.len() && list[i] == capability;
        assert(model.capabilities@[i]@ == capability);
    }
    if exists|i: int|
        0 <= i < model.capabilities@.len() && (#[trigger] model.capabilities@[i])@ == capability {
        let i = choose|i: int|
            0 <= i < model.capabilities@.len() && (#[trigger] model.capabilities@[i])@
                == capability;
        assert(list[i] == capability);
    }
}

/// One more model joins the listed ones behind the others, unless a capability is asked for that
/// it does not have.
pub proof fn law_candidates_grow_in_order(
    pairs: Seq<(String, ModelInfo)>,
    pair: (String, ModelInfo),
    capability: Option<Seq<char>>,
)
    ensures
        candidates(Seq::empty(), capability).len() == 0,
        capability is None || pair.1.capable(capability->Some_0) ==> candidates(
            pairs.push(pair),
            capability,
        ) == candidates(pairs, capability).push(&pair.1),
        capability is Some && !pair.1.capable(capability->Some_0) ==> candidates(
            pairs.push(pair),
            capability,
        ) == candidates(pairs, capability),
{
    pairs.lemma_filter_push(pair, is_candidate(capability));
    assert(Seq::<(String, ModelInfo)>::empty().filter(is_candidate(capability)) =~= Seq::empty())
        by {
        reveal(Seq::filter);
    }
    if is_candidate(capability)(pair) {
        assert(candidates(pairs.push(pair), capability) =~= candidates(pairs, capability).push(
            &pair.1,
        ));
    } else {
        assert(candidates(pairs.push(pair), capability) =~= candidates(pairs, capability));
    }
}

/// The model that is taken is the first one that is recommended, and the very first one where
/// none is.
pub proof fn law_first_recommended_model_is_taken(pairs: Seq<(String, ModelInfo)>, i: int)
    requires
        0 <= i < pairs.len(),
    ensures
        pairs[i].1.recommended && (forall|j: int|
            0 <= j < i ==> !(#[trigger] pairs[j]).1.recommended) ==> recommended(pairs) == Some(
            pairs[i].1,
        ),
        (forall|j: int| 0 <= j < pairs.len() ==> !(#[trigger] pairs[j]).1.recommended)
            ==> recommended(pairs) == Some(pairs[0].1),
{
    broadcast use vstd::seq_lib::group_filter_ensures;

    let test = is_recommended();
    let kept = pairs.filter(test);
    if kept.len() > 0 {
        assert(test(kept[0]));
        assert(kept.contains(kept[0]));
        pairs.lemma_filter_contains_rev(test, kept[0]);
        let k = choose|k: int| 0 <= k < pairs.len() && pairs[k] == kept[0];
        assert(pairs[k].1.recommended);
    }
    if pairs[i].1.recommended && (forall|j: int|
        0 <= j < i ==> !(#[trigger] pairs[j]).1.recommended) {
        let front = pairs.take(i);
        let rest = pairs.skip(i + 1);
        assert(front.filter(test).len() == 0) by {
            if front.filter(test).len() > 0 {
                let found = front.filter(test)[0];
                assert(test(found));
                assert(front.filter(test).contains(found));
                front.lemma_filter_contains_rev(test, found);
                let k = choose|k: int| 0 <= k < front.len() && front[k] == found;
                assert(pairs[k] == found);
            }
        }
        front.lemma_filter_push(pairs[i], test);
        assert(pairs =~= front.push(pairs[i]) + rest);
        Seq::filter_distributes_over_add(front.push(pairs[i]), rest, test);
    }
}

/// Models of which the same is known agree in every field.
pub proof fn law_same_models_agree(a: ModelInfo, b: ModelInfo)
    requires
        same_model(a, b),
    ensures
        a.id@ == b.id@,
        a.name@ == b.name@,
        a.provider@ == b.provider@,
        a.context_length == b.context_length,
        a.capabilities@.len() == b.capabilities@.len(),
        forall|i: int|
            0 <= i < a.capabilities@.len() ==> (#[trigger] a.capabilities@[i])@
                == b.capabilities@[i]@,
        a.pricing_input.bits == b.pricing_input.bits,
        a.pricing_input.text@ == b.pricing_input.text@,
        a.pricing_output.bits == b.pricing_output.bits,
        a.pricing_output.text@ == b.pricing_output.text@,
        a.pricing_unit@ == b.pricing_unit@,
        a.serverless == b.serverless,
        a.tunable == b.tunable,
        a.recommended == b.recommended,
        a.max_tokens == b.max_tokens,
        a.supports_temperature == b.supports_temperature,
        a.api_type@ == b.api_type@,
        a.pricing_text() == b.pricing_text(),
        a.display_text() == b.display_text(),
{
    let mine = text::texts(a.capabilities@);
    let other = text::texts(b.capabilities@);
    assert(mine == other);
    assert(mine.len() == a.capabilities@.len());
    assert(other.len() == b.capabilities@.len());
    assert forall|i: int| 0 <= i < a.capabilities@.len() implies (
    #[trigger] a.capabilities@[i])@ == b.capabilities@[i]@ by {
        assert(mine[i] == other[i]);
    }
}

/// A price is zero exactly where its number is, with or without a minus sign.
pub proof fn law_zero_price_has_no_amount(price: Price)
    ensures
        price.zero() <==> price.bits == 0 || price.bits == 0x8000_0000_0000_0000,
{
}

/// Models with equally large contexts are listed in the order of their map.
pub proof fn law_equal_contexts_keep_the_order<'a>(
    pairs: Seq<(String, ModelInfo)>,
    capability: Option<Seq<char>>,
    model: &'a ModelInfo,
)
    ensures
        sorting::sorted(candidates(pairs, capability)).filter(
            |m: &'a ModelInfo| m.context_length == model.context_length,
        ) == candidates(pairs, capability).filter(
            |m: &'a ModelInfo| m.context_length == model.context_length,
        ),
{
    sorting::law_sorted_is_stable(candidates(pairs, capability), model);
    assert((|m: &'a ModelInfo| m.context_length == model.context_length) =~= sorting::ranks_like(
        model,
    ));
}

} // verus!
