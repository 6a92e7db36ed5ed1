//! Google Gemini provider adapter.
//!
//! [`request`] turns a [`ModelRequest`] into a Gemini request; [`response`] turns
//! what Gemini answers, as a whole or event by event, into the types of
//! [`crate::model`]. [`schema`] rewrites JSON Schemas into the subset that Gemini
//! accepts.
use crate::model::ModelRequest;
use crate::models::gemini::request::{gemini_request, has_finite_schema, try_build_request};
use crate::models::gemini::types::{
    default_config, GenerateContentRequest, GenerationConfig, GenerationConfigView, ThinkingConfig,
};
use crate::text::IntoText;
use crate::views::{option_view, seq_view};
use vstd::prelude::*;

pub mod laws;
pub mod request;
pub mod response;
pub mod schema;
pub mod types;

verus! {

/// LLM provider backed by Google Gemini: which model to ask, and how.
///
/// Use [`GeminiModel::new`] for the simple case, or [`GeminiModel::builder`] to
/// configure generation settings.
pub struct GeminiModel {
    api_key: String,
    model: String,
    generation_config: Option<GenerationConfig>,
}

impl GeminiModel {
    /// The key that is presented to the API.
    pub closed spec fn spec_api_key(&self) -> Seq<char> {
        self.api_key@
    }

    /// The model identifier.
    pub closed spec fn spec_model(&self) -> Seq<char> {
        self.model@
    }

    /// The generation settings.
    pub closed spec fn spec_config(&self) -> Option<GenerationConfigView> {
        option_view(self.generation_config)
    }

    /// Creates a model with default generation settings.
    pub fn new<K: IntoText, M: IntoText>(api_key: K, model: M) -> (res: Self)
        ensures
            res.spec_api_key() == api_key.text(),
            res.spec_model() == model.text(),
            res.spec_config() is None,
    {
        GeminiModel {
            api_key: api_key.into_text(),
            model: model.into_text(),
            generation_config: None,
        }
    }

    /// Returns a builder for a model with custom settings.
    pub fn builder<K: IntoText, M: IntoText>(api_key: K, model: M) -> (res: GeminiModelBuilder)
        ensures
            res.spec_api_key() == api_key.text(),
            res.spec_model() == model.text(),
            res.spec_config() == default_config(),
    {
        GeminiModelBuilder {
            api_key: api_key.into_text(),
            model: model.into_text(),
            generation_config: GenerationConfig::default(),
        }
    }

    /// The key that is presented to the API.
    pub fn api_key(&self) -> (res: &str)
        ensures
            res@ == self.spec_api_key(),
    {
        self.api_key.as_str()
    }

    /// The model identifier.
    pub fn model(&self) -> (res: &str)
        ensures
            res@ == self.spec_model(),
    {
        self.model.as_str()
    }

    /// Writes the Gemini request for `request`. Whole answers and streams are asked
    /// for with the same request.
    pub fn build_gemini_request(&self, request: ModelRequest) -> (res: GenerateContentRequest)
        requires
            has_finite_schema(request@),
        ensures
            res@ == gemini_request(self.spec_config(), request@),
    {
        self.try_build_gemini_request(request).unwrap()
    }

    /// Writes the Gemini request for `request`; `None` where the references in its
    /// schema run in a circle.
    pub fn try_build_gemini_request(&self, request: ModelRequest) -> (res: Option<
        GenerateContentRequest,
    >)
        ensures
            res is Some <==> has_finite_schema(request@),
            res matches Some(written) ==> written@ == gemini_request(self.spec_config(), request@),
    {
        try_build_request(&self.generation_config, request)
    }
}

/// Builder for [`GeminiModel`] with generation settings.
pub struct GeminiModelBuilder {
    api_key: String,
    model: String,
    generation_config: GenerationConfig,
}

impl GeminiModelBuilder {
    /// The key that is presented to the API.
    pub closed spec fn spec_api_key(&self) -> Seq<char> {
        self.api_key@
    }

    /// The model identifier.
    pub closed spec fn spec_model(&self) -> Seq<char> {
        self.model@
    }

    /// The generation settings so far.
    pub closed spec fn spec_config(&self) -> GenerationConfigView {
        self.generation_config@
    }

    /// The settings changed to `config`, the rest as before.
    pub open spec fn same_but(&self, before: &GeminiModelBuilder, config: GenerationConfigView) -> bool {
        &&& self.spec_api_key() == before.spec_api_key()
        &&& self.spec_model() == before.spec_model()
        &&& self.spec_config() == config
    }

    /// Sets the sampling temperature, given as the bits of a 32-bit float.
    pub fn temperature_bits(self, bits: u32) -> (res: Self)
        ensures
            res.same_but(
                &self,
                GenerationConfigView { temperature_bits: Some(bits), ..self.spec_config() },
            ),
    {
        let mut res = self;
        res.generation_config.temperature_bits = Some(bits);
        res
    }

    /// Sets the nucleus sampling threshold, given as the bits of a 32-bit float.
    pub fn top_p_bits(self, bits: u32) -> (res: Self)
        ensures
            res.same_but(
                &self,
                GenerationConfigView { top_p_bits: Some(bits), ..self.spec_config() },
            ),
    {
        let mut res = self;
        res.generation_config.top_p_bits = Some(bits);
        res
    }

    /// Sets the maximum number of tokens to generate.
    pub fn max_output_tokens(self, tokens: i32) -> (res: Self)
        ensures
            res.same_but(
                &self,
                GenerationConfigView { max_output_tokens: Some(tokens), ..self.spec_config() },
            ),
    {
        let mut res = self;
        res.generation_config.max_output_tokens = Some(tokens);
        res
    }

    /// Limits the next-token selection to the K most likely tokens.
    pub fn top_k(self, top_k: i32) -> (res: Self)
        ensures
            res.same_but(&self, GenerationConfigView { top_k: Some(top_k), ..self.spec_config() }),
    {
        let mut res = self;
        res.generation_config.top_k = Some(top_k);
        res
    }

    /// Sets stop sequences that halt generation when produced.
    pub fn stop_sequences(self, stop_sequences: Vec<String>) -> (res: Self)
        ensures
            res.same_but(
                &self,
                GenerationConfigView {
                    stop_sequences: Some(seq_view(stop_sequences@)),
                    ..self.spec_config()
                },
            ),
    {
        let mut res = self;
        res.generation_config.stop_sequences = Some(stop_sequences);
        res
    }

    /// Configures the model's thinking.
    pub fn thinking_config(self, thinking_config: ThinkingConfig) -> (res: Self)
        ensures
            res.same_but(
                &self,
                GenerationConfigView {
                    thinking_config: Some(thinking_config),
                    ..self.spec_config()
                },
            ),
    {
        let mut res = self;
        res.generation_config.thinking_config = Some(thinking_config);
        res
    }

    /// Builds the [`GeminiModel`].
    pub fn build(self) -> (res: GeminiModel)
        ensures
            res.spec_api_key() == self.spec_api_key(),
            res.spec_model() == self.spec_model(),
            res.spec_config() == Some(self.spec_config()),
    {
        GeminiModel {
            api_key: self.api_key,
            model: self.model,
            generation_config: Some(self.generation_config),
        }
    }
}

} // verus!
