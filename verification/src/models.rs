//! Models: the harness's description of one, the mapping onto it, and the
//! registry questions that pick one.

use crate::json::{Json, JsonView};
use crate::text::{first_index, string_of_range};
use vstd::prelude::*;

verus! {

/// The protocol that a model endpoint speaks.
#[derive(Debug, Clone, Copy, PartialEq, Eq, Structural)]
pub enum WireApi {
    Anthropic,
    Completions,
    Responses,
    Unavailable,
}

impl DeepView for WireApi {
    type V = WireApi;

    open spec fn deep_view(&self) -> WireApi {
        *self
    }
}

/// Whether a model thinks before it answers.
#[derive(Debug, Clone, Copy, PartialEq, Eq, Structural)]
pub enum ThinkingKind {
    Disabled,
    Enabled,
}

impl DeepView for ThinkingKind {
    type V = ThinkingKind;

    open spec fn deep_view(&self) -> ThinkingKind {
        *self
    }
}

/// A model as the harness knows it.
#[derive(Debug, PartialEq, Eq)]
pub struct Model {
    pub provider: String,
    pub api: String,
    pub id: String,
    /// How many tokens a request may hold.
    pub context_window: u64,
    /// How many tokens a response may hold.
    pub max_tokens: u64,
    pub thinking: ThinkingKind,
    /// An object of further facts.
    pub metadata: Json,
}

/// The mathematical value of a [`Model`].
#[verifier::ext_equal]
pub struct ModelView {
    pub provider: Seq<char>,
    pub api: Seq<char>,
    pub id: Seq<char>,
    pub context_window: u64,
    pub max_tokens: u64,
    pub thinking: ThinkingKind,
    pub metadata: JsonView,
}

impl DeepView for Model {
    type V = ModelView;

    open spec fn deep_view(&self) -> ModelView {
        ModelView {
            provider: self.provider@,
            api: self.api@,
            id: self.id@,
            context_window: self.context_window,
            max_tokens: self.max_tokens,
            thinking: self.thinking,
            metadata: self.metadata.deep_view(),
        }
    }
}

impl Clone for Model {
    fn clone(&self) -> (r: Self)
        ensures
            r.deep_view() == self.deep_view(),
    {
        let r = Model {
            provider: self.provider.clone(),
            api: self.api.clone(),
            id: self.id.clone(),
            context_window: self.context_window,
            max_tokens: self.max_tokens,
            thinking: self.thinking,
            metadata: self.metadata.clone(),
        };
        r
    }
}

/// What a configured model says of itself.
#[derive(Debug, PartialEq, Eq)]
pub struct ModelSource {
    pub id: String,
    pub provider_id: String,
    pub wire_api: WireApi,
    pub api_key: String,
    pub base_url: String,
    pub max_token_count: u64,
    pub max_output_tokens: u64,
    pub supports_thinking: bool,
}

/// The mathematical value of a [`ModelSource`].
#[verifier::ext_equal]
pub struct ModelSourceView {
    pub id: Seq<char>,
    pub provider_id: Seq<char>,
    pub wire_api: WireApi,
    pub api_key: Seq<char>,
    pub base_url: Seq<char>,
    pub max_token_count: u64,
    pub max_output_tokens: u64,
    pub supports_thinking: bool,
}

impl DeepView for ModelSource {
    type V = ModelSourceView;

    open spec fn deep_view(&self) -> ModelSourceView {
        ModelSourceView {
            id: self.id@,
            provider_id: self.provider_id@,
            wire_api: self.wire_api,
            api_key: self.api_key@,
            base_url: self.base_url@,
            max_token_count: self.max_token_count,
            max_output_tokens: self.max_output_tokens,
            supports_thinking: self.supports_thinking,
        }
    }
}

/// The name of a wire protocol.
pub open spec fn api_of(wire: WireApi) -> Option<Seq<char>> {
    match wire {
        WireApi::Anthropic => Some("anthropic"@),
        WireApi::Completions => Some("openai_completions"@),
        WireApi::Responses => Some("openai_responses"@),
        WireApi::Unavailable => None,
    }
}

pub open spec fn mapped_model(m: ModelSourceView, api: Seq<char>) -> ModelView {
    ModelView {
        provider: m.provider_id,
        api,
        id: m.id,
        context_window: m.max_token_count,
        max_tokens: m.max_output_tokens,
        thinking: if m.supports_thinking {
            ThinkingKind::Enabled
        } else {
            ThinkingKind::Disabled
        },
        metadata: JsonView::Object(seq![]),
    }
}

/// Maps a configured model onto the harness's description. The context window is
/// the token count, the response budget the output limit: mapping them the wrong
/// way round would ask for a response as long as the window.
pub fn map_model(model: &ModelSource) -> (r: Result<Model, String>)
    ensures
        match api_of(model.wire_api) {
            Some(api) => r matches Ok(m) && m.deep_view() == mapped_model(model.deep_view(), api),
            None => r matches Err(e) && e@ == "model wire is unavailable"@,
        },
{
    let api = match model.wire_api {
        WireApi::Anthropic => "anthropic",
        WireApi::Completions => "openai_completions",
        WireApi::Responses => "openai_responses",
        WireApi::Unavailable => {
            return Err("model wire is unavailable".to_owned());
        },
    };
    let none: Vec<(String, Json)> = Vec::new();
    let metadata = crate::json::jobj(none);
    assert(metadata.model()->Object_0 =~= seq![]);
    Ok(
        Model {
            provider: model.provider_id.clone(),
            api: api.to_owned(),
            id: model.id.clone(),
            context_window: model.max_token_count,
            max_tokens: model.max_output_tokens,
            thinking: if model.supports_thinking {
                ThinkingKind::Enabled
            } else {
                ThinkingKind::Disabled
            },
            metadata,
        },
    )
}

/// A connection to a model endpoint.
#[derive(Debug, PartialEq, Eq)]
pub struct StreamEndpoint {
    pub wire: WireApi,
    pub api_key: String,
    pub base_url: String,
}

/// Gives the endpoint to stream from: the configured one, whatever model is asked
/// for.
#[derive(Debug, PartialEq, Eq)]
pub struct StreamResolver {
    pub wire: WireApi,
    pub api_key: String,
    pub base_url: String,
}

/// The resolver for the configured model. Whether there is a wire shows when the
/// resolver is used.
pub fn stream_resolver(model: &ModelSource) -> (r: Result<StreamResolver, String>)
    ensures
        r matches Ok(s) && s.wire == model.wire_api && s.api_key@ == model.api_key@
            && s.base_url@ == model.base_url@,
{
    Ok(
        StreamResolver {
            wire: model.wire_api,
            api_key: model.api_key.clone(),
            base_url: model.base_url.clone(),
        },
    )
}

impl StreamResolver {
    /// The endpoint for a model.
    pub fn resolve(&self, _model: &Model) -> (r: Result<StreamEndpoint, String>)
        ensures
            if self.wire == WireApi::Unavailable {
                r matches Err(e) && e@ == "model wire is unavailable"@
            } else {
                r matches Ok(s) && s.wire == self.wire && s.api_key@ == self.api_key@
                    && s.base_url@ == self.base_url@
            },
    {
        if self.wire == WireApi::Unavailable {
            return Err("model wire is unavailable".to_owned());
        }
        Ok(
            StreamEndpoint {
                wire: self.wire,
                api_key: self.api_key.clone(),
                base_url: self.base_url.clone(),
            },
        )
    }
}

// ---------------------------------------------------------------------------
// Names
// ---------------------------------------------------------------------------

/// The text that the metadata hold under `key`, else `fallback`.
pub open spec fn metadata_or(m: ModelView, key: Seq<char>, fallback: Seq<char>) -> Seq<char> {
    match m.metadata.str_at(key) {
        Some(s) => s,
        None => fallback,
    }
}

fn text_or(model: &Model, key: &str, fallback: &str) -> (r: String)
    ensures
        r@ == metadata_or(model.deep_view(), key@, fallback@),
{
    match model.metadata.str_at(key) {
        Some(s) => s.to_owned(),
        None => fallback.to_owned(),
    }
}

/// Display name of a registered model: the metadata's `name`, else the id.
pub fn display_name(model: &Model) -> (r: String)
    ensures
        r@ == metadata_or(model.deep_view(), "name"@, model.id@),
{
    text_or(model, "name", model.id.as_str())
}

/// Display name of a model's provider: the metadata's `provider_display_name`,
/// else the registration name.
pub fn display_provider_name(model: &Model) -> (r: String)
    ensures
        r@ == metadata_or(model.deep_view(), "provider_display_name"@, model.provider@),
{
    text_or(model, "provider_display_name", model.provider.as_str())
}

/// Identity of a registered model in the configuration: the metadata's
/// `config_id`, else the registration id. A model registered through several
/// protocols has one.
pub fn config_id(model: &Model) -> (r: String)
    ensures
        r@ == metadata_or(model.deep_view(), "config_id"@, model.id@),
{
    text_or(model, "config_id", model.id.as_str())
}

// ---------------------------------------------------------------------------
// Legacy provider ids
// ---------------------------------------------------------------------------

/// The registration name `name-wire` behind an old provider id `wire:name`.
pub open spec fn legacy_alias(provider: Seq<char>) -> Option<Seq<char>> {
    let i = first_index(provider, ':') as int;
    if i < provider.len() {
        Some(provider.skip(i + 1) + "-"@ + provider.take(i))
    } else {
        None
    }
}

/// The registration name behind an old provider id.
pub fn legacy_provider(provider: &str) -> (r: Option<String>)
    ensures
        r.deep_view() == legacy_alias(provider@),
{
    let v = crate::text::chars_of(provider);
    assert(v@.skip(0) =~= v@);
    let i = crate::text::find_from(&v, 0, ':');
    if i < v.len() {
        let mut name = string_of_range(&v, i + 1, v.len());
        name.append("-");
        let wire = string_of_range(&v, 0, i);
        name.append(wire.as_str());
        assert(v@.subrange(i + 1, v@.len() as int) =~= provider@.skip(i + 1));
        assert(v@.subrange(0, i as int) =~= provider@.take(i as int));
        Some(name)
    } else {
        None
    }
}

/// Answers to the provider ids of older sessions too, over a catalog that knows
/// registration names alone.
#[derive(Debug, PartialEq, Eq)]
pub struct LegacyAliasCatalog {}

impl LegacyAliasCatalog {
    pub fn new() -> (r: Self)
        ensures
            r == (LegacyAliasCatalog {  }),
    {
        LegacyAliasCatalog {  }
    }

    /// What the catalog answers for a model of `provider`: its own answer, else, for
    /// an old provider id, the answer for the registration name behind it, which
    /// [`legacy_provider`] gives.
    pub fn resolve(&self, provider: &str, direct: Option<Model>, aliased: Option<Model>) -> (r:
        Option<Model>)
        ensures
            r == (if direct is Some {
                direct
            } else if legacy_alias(provider@) is Some {
                aliased
            } else {
                None
            }),
    {
        match direct {
            Some(model) => Some(model),
            None => match legacy_provider(provider) {
                Some(_) => aliased,
                None => None,
            },
        }
    }
}

/// A model is taken over with its provider, its id, its limits and whether it thinks.
pub proof fn a_model_is_taken_over(m: ModelSourceView, api: Seq<char>)
    ensures
        mapped_model(m, api).provider == m.provider_id,
        mapped_model(m, api).id == m.id,
        mapped_model(m, api).api == api,
        mapped_model(m, api).context_window == m.max_token_count,
        mapped_model(m, api).max_tokens == m.max_output_tokens,
        m.supports_thinking ==> mapped_model(m, api).thinking == ThinkingKind::Enabled,
        !m.supports_thinking ==> mapped_model(m, api).thinking == ThinkingKind::Disabled,
        mapped_model(m, api).metadata == JsonView::Object(Seq::empty()),
{
}

/// Each wire has its interface, and the unavailable one has none.
pub proof fn each_wire_has_its_interface()
    ensures
        api_of(WireApi::Anthropic) == Some("anthropic"@),
        api_of(WireApi::Completions) == Some("openai_completions"@),
        api_of(WireApi::Responses) == Some("openai_responses"@),
        api_of(WireApi::Unavailable) is None,
{
}

/// What the metadata of a model says counts before what stands in for it.
pub proof fn metadata_counts_first(m: ModelView, key: Seq<char>, fallback: Seq<char>)
    ensures
        m.metadata.str_at(key) matches Some(s) ==> metadata_or(m, key, fallback) == s,
        m.metadata.str_at(key) is None ==> metadata_or(m, key, fallback) == fallback,
{
}

/// The old name of a provider has the part behind the first colon in front.
pub proof fn the_old_name_turns_the_parts(kind: Seq<char>, name: Seq<char>)
    requires
        !kind.contains(':'),
    ensures
        legacy_alias(kind + seq![':'] + name) == Some(name + "-"@ + kind),
        legacy_alias(kind) is None,
{
    let full = kind + seq![':'] + name;
    crate::text::first_index_is_first(full, ':');
    crate::text::first_index_is_first(kind, ':');
    let n = kind.len() as int;
    assert(full[n] == ':');
    let i = first_index(full, ':') as int;
    if i < n {
        assert(full[i] == kind[i]);
        assert(kind.contains(':'));
    }
    assert(full.take(n) =~= kind);
    assert(full.skip(n + 1) =~= name);
}

/// The view of a [`Model`] is made of all its parts, each as it is.
pub proof fn model_is_viewed_whole(x: &Model)
    ensures
        x.deep_view() == (ModelView {
            provider: x.provider@,
            api: x.api@,
            id: x.id@,
            context_window: x.context_window,
            max_tokens: x.max_tokens,
            thinking: x.thinking,
            metadata: x.metadata.deep_view(),
        }),
{
}

/// The view of a [`ModelSource`] is made of all its parts, each as it is.
pub proof fn model_source_is_viewed_whole(x: &ModelSource)
    ensures
        x.deep_view() == (ModelSourceView {
            id: x.id@,
            provider_id: x.provider_id@,
            wire_api: x.wire_api,
            api_key: x.api_key@,
            base_url: x.base_url@,
            max_token_count: x.max_token_count,
            max_output_tokens: x.max_output_tokens,
            supports_thinking: x.supports_thinking,
        }),
{
}

} // verus!
