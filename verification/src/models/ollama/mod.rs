//! Ollama provider adapter.
//!
//! [`request`] turns a [`ModelRequest`] into a chat request; [`response`] turns what
//! Ollama answers, as a whole or piece by piece, into the types of [`crate::model`].
use crate::error::Error;
use crate::model::ModelRequest;
use crate::models::ollama::request::{build_chat_request, chat_request, fails_on_one, writes_all};
use crate::models::ollama::types::{
    default_options, ChatRequest, MessageView, Options, OptionsView, Stop, Think,
};
use crate::text::IntoText;
use crate::views::{clone_option, option_view};
use vstd::prelude::*;

pub mod laws;
pub mod request;
pub mod response;
pub mod types;

verus! {

/// LLM provider backed by an Ollama server: where it is, which model to ask, and
/// how.
///
/// Use [`OllamaModel::new`] for the simple case, or [`OllamaModel::builder`] to
/// configure generation settings.
pub struct OllamaModel {
    server_address: String,
    model: String,
    options: Option<Options>,
    think: Option<Think>,
}

impl OllamaModel {
    /// The base URL of the server.
    pub closed spec fn spec_server_address(&self) -> Seq<char> {
        self.server_address@
    }

    /// The model name.
    pub closed spec fn spec_model(&self) -> Seq<char> {
        self.model@
    }

    /// The generation settings.
    pub closed spec fn spec_options(&self) -> Option<OptionsView> {
        option_view(self.options)
    }

    /// Whether, or how hard, the model thinks.
    pub closed spec fn spec_think(&self) -> Option<Think> {
        self.think
    }

    /// Creates a model with default generation settings.
    pub fn new<S: IntoText, M: IntoText>(server_address: S, model: M) -> (res: Self)
        ensures
            res.spec_server_address() == server_address.text(),
            res.spec_model() == model.text(),
            res.spec_options() is None,
            res.spec_think() is None,
    {
        OllamaModel {
            server_address: server_address.into_text(),
            model: model.into_text(),
            options: None,
            think: None,
        }
    }

    /// Returns a builder for a model with custom settings.
    pub fn builder<S: IntoText, M: IntoText>(server_address: S, model: M) -> (res:
        OllamaModelBuilder)
        ensures
            res.spec_server_address() == server_address.text(),
            res.spec_model() == model.text(),
            res.spec_options() == default_options(),
            res.spec_think() is None,
    {
        OllamaModelBuilder {
            server_address: server_address.into_text(),
            model: model.into_text(),
            options: Options::default(),
            think: None,
        }
    }

    /// The base URL of the server.
    pub fn server_address(&self) -> (res: &str)
        ensures
            res@ == self.spec_server_address(),
    {
        self.server_address.as_str()
    }

    /// The model name.
    pub fn model(&self) -> (res: &str)
        ensures
            res@ == self.spec_model(),
    {
        self.model.as_str()
    }

    /// Builds the chat request for `request`. Whole answers and streams are asked
    /// for with the same request.
    pub fn build_request(&self, request: ModelRequest) -> (res: Result<ChatRequest, Error>)
        ensures
            match res {
                Ok(written) => exists|messages: Seq<MessageView>| #[trigger]
                    writes_all(request@.messages, messages) && written@ == chat_request(
                        self.spec_model(),
                        self.spec_options(),
                        self.spec_think(),
                        request@,
                        messages,
                    ),
                Err(error) => fails_on_one(request@.messages, error@),
            },
            res matches Ok(written) ==> written@.format == request@.output_schema,
    {
        build_chat_request(self.model.as_str(), clone_option(&self.options), self.think, request)
    }
}

/// Builder for [`OllamaModel`] with generation settings.
pub struct OllamaModelBuilder {
    server_address: String,
    model: String,
    options: Options,
    think: Option<Think>,
}

impl OllamaModelBuilder {
    /// The base URL of the server.
    pub closed spec fn spec_server_address(&self) -> Seq<char> {
        self.server_address@
    }

    /// The model name.
    pub closed spec fn spec_model(&self) -> Seq<char> {
        self.model@
    }

    /// The generation settings so far.
    pub closed spec fn spec_options(&self) -> OptionsView {
        self.options@
    }

    /// Whether, or how hard, the model thinks.
    pub closed spec fn spec_think(&self) -> Option<Think> {
        self.think
    }

    /// The settings changed to `options`, the rest as before.
    pub open spec fn same_but(&self, before: &OllamaModelBuilder, options: OptionsView) -> bool {
        &&& self.spec_server_address() == before.spec_server_address()
        &&& self.spec_model() == before.spec_model()
        &&& self.spec_think() == before.spec_think()
        &&& self.spec_options() == options
    }

    /// Sets the sampling temperature, given as the bits of a 32-bit float.
    pub fn temperature_bits(self, bits: u32) -> (res: Self)
        ensures
            res.same_but(
                &self,
                OptionsView { temperature_bits: Some(bits), ..self.spec_options() },
            ),
    {
        let mut res = self;
        res.options.temperature_bits = Some(bits);
        res
    }

    /// Sets the nucleus sampling threshold, given as the bits of a 32-bit float.
    pub fn top_p_bits(self, bits: u32) -> (res: Self)
        ensures
            res.same_but(&self, OptionsView { top_p_bits: Some(bits), ..self.spec_options() }),
    {
        let mut res = self;
        res.options.top_p_bits = Some(bits);
        res
    }

    /// Sets the random seed for reproducible outputs.
    pub fn seed(self, seed: u64) -> (res: Self)
        ensures
            res.same_but(&self, OptionsView { seed: Some(seed), ..self.spec_options() }),
    {
        let mut res = self;
        res.options.seed = Some(seed);
        res
    }

    /// Limits the next-token selection to the K most likely tokens.
    pub fn top_k(self, top_k: u32) -> (res: Self)
        ensures
            res.same_but(&self, OptionsView { top_k: Some(top_k), ..self.spec_options() }),
    {
        let mut res = self;
        res.options.top_k = Some(top_k);
        res
    }

    /// Sets the context window size in tokens.
    pub fn num_ctx(self, num_ctx: u32) -> (res: Self)
        ensures
            res.same_but(&self, OptionsView { num_ctx: Some(num_ctx), ..self.spec_options() }),
    {
        let mut res = self;
        res.options.num_ctx = Some(num_ctx);
        res
    }

    /// Sets the maximum number of tokens to generate.
    pub fn num_predict(self, num_predict: u32) -> (res: Self)
        ensures
            res.same_but(
                &self,
                OptionsView { num_predict: Some(num_predict), ..self.spec_options() },
            ),
    {
        let mut res = self;
        res.options.num_predict = Some(num_predict);
        res
    }

    /// Sets one or more stop sequences that halt generation when produced.
    pub fn stop(self, stop: Stop) -> (res: Self)
        ensures
            res.same_but(&self, OptionsView { stop: Some(stop@), ..self.spec_options() }),
    {
        let mut res = self;
        res.options.stop = Some(stop);
        res
    }

    /// Configures thinking for models that support it; others ignore it.
    pub fn think(self, think: Think) -> (res: Self)
        ensures
            res.spec_server_address() == self.spec_server_address(),
            res.spec_model() == self.spec_model(),
            res.spec_options() == self.spec_options(),
            res.spec_think() == Some(think),
    {
        let mut res = self;
        res.think = Some(think);
        res
    }

    /// Builds the [`OllamaModel`].
    pub fn build(self) -> (res: OllamaModel)
        ensures
            res.spec_server_address() == self.spec_server_address(),
            res.spec_model() == self.spec_model(),
            res.spec_options() == Some(self.spec_options()),
            res.spec_think() == self.spec_think(),
    {
        OllamaModel {
            server_address: self.server_address,
            model: self.model,
            options: Some(self.options),
            think: self.think,
        }
    }
}

} // verus!
