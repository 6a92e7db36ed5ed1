//! The parts of the Gemini wire format that the adapter reads and writes.
use crate::json::{Value, ValueView};
use crate::views::{clone_all, clone_option, option_view, seq_view};
use vstd::prelude::*;

verus! {

/// The author of a [`Content`].
#[derive(Debug, Clone, Copy, PartialEq, Eq, Structural)]
pub enum Role {
    User,
    Model,
}

/// What a [`Part`] carries.
#[derive(Debug, PartialEq, Eq)]
pub enum PartData {
    /// A piece of text.
    Text(String),
    /// A tool call issued by the model.
    FunctionCall { id: Option<String>, name: String, args: Option<Value> },
    /// The result of a tool call.
    FunctionResponse(FunctionResponse),
    /// Any other kind of part; the adapter skips these.
    Other,
}

/// The result of a tool call.
#[derive(Debug, PartialEq, Eq)]
pub struct FunctionResponse {
    pub id: Option<String>,
    pub name: String,
    /// Gemini takes an object here and nothing else.
    pub response: Value,
}

/// One piece of a [`Content`].
#[derive(Debug, PartialEq, Eq)]
pub struct Part {
    pub data: PartData,
    /// `Some(true)` marks the model's thinking.
    pub thought: Option<bool>,
    /// An opaque mark that has to come back with the part.
    pub thought_signature: Option<String>,
}

/// One turn of a conversation.
#[derive(Debug, PartialEq, Eq)]
pub struct Content {
    pub role: Option<Role>,
    pub parts: Option<Vec<Part>>,
}

/// One of the answers in a response.
#[derive(Debug, PartialEq, Eq)]
pub struct Candidate {
    pub content: Option<Content>,
}

/// The model of a [`FunctionResponse`].
#[verifier::ext_equal]
pub ghost struct FunctionResponseView {
    pub id: Option<Seq<char>>,
    pub name: Seq<char>,
    pub response: ValueView,
}

/// The model of a [`PartData`].
#[verifier::ext_equal]
pub ghost enum PartDataView {
    Text(Seq<char>),
    FunctionCall { id: Option<Seq<char>>, name: Seq<char>, args: Option<ValueView> },
    FunctionResponse(FunctionResponseView),
    Other,
}

/// The model of a [`Part`].
#[verifier::ext_equal]
pub ghost struct PartView {
    pub data: PartDataView,
    pub thought: Option<bool>,
    pub thought_signature: Option<Seq<char>>,
}

/// The model of a [`Content`].
#[verifier::ext_equal]
pub ghost struct ContentView {
    pub role: Option<Role>,
    pub parts: Option<Seq<PartView>>,
}

/// The model of a [`Candidate`].
#[verifier::ext_equal]
pub ghost struct CandidateView {
    pub content: Option<ContentView>,
}

impl View for FunctionResponse {
    type V = FunctionResponseView;

    open spec fn view(&self) -> FunctionResponseView {
        FunctionResponseView {
            id: option_view(self.id),
            name: self.name@,
            response: self.response@,
        }
    }
}

impl View for PartData {
    type V = PartDataView;

    open spec fn view(&self) -> PartDataView {
        match self {
            PartData::Text(text) => PartDataView::Text(text@),
            PartData::FunctionCall { id, name, args } => PartDataView::FunctionCall {
                id: option_view(*id),
                name: name@,
                args: option_view(*args),
            },
            PartData::FunctionResponse(response) => PartDataView::FunctionResponse(response@),
            PartData::Other => PartDataView::Other,
        }
    }
}

impl View for Part {
    type V = PartView;

    open spec fn view(&self) -> PartView {
        PartView {
            data: self.data@,
            thought: self.thought,
            thought_signature: option_view(self.thought_signature),
        }
    }
}

impl View for Content {
    type V = ContentView;

    open spec fn view(&self) -> ContentView {
        ContentView {
            role: self.role,
            parts: match self.parts {
                Some(parts) => Some(seq_view(parts@)),
                None => None,
            },
        }
    }
}

impl View for Candidate {
    type V = CandidateView;

    open spec fn view(&self) -> CandidateView {
        CandidateView { content: option_view(self.content) }
    }
}

/// Token counts as Gemini reports them.
#[derive(Debug, Clone, Copy, PartialEq, Eq, Structural)]
pub struct UsageMetadata {
    pub prompt_token_count: Option<u32>,
    pub candidates_token_count: Option<u32>,
    pub cached_content_token_count: Option<u32>,
    pub thoughts_token_count: Option<u32>,
    pub tool_use_prompt_token_count: Option<u32>,
    pub total_token_count: Option<u32>,
}

impl View for UsageMetadata {
    type V = UsageMetadata;

    open spec fn view(&self) -> UsageMetadata {
        *self
    }
}

impl Default for UsageMetadata {
    /// Nothing reported.
    fn default() -> (res: Self)
        ensures
            res == (UsageMetadata {
                prompt_token_count: None,
                candidates_token_count: None,
                cached_content_token_count: None,
                thoughts_token_count: None,
                tool_use_prompt_token_count: None,
                total_token_count: None,
            }),
    {
        UsageMetadata {
            prompt_token_count: None,
            candidates_token_count: None,
            cached_content_token_count: None,
            thoughts_token_count: None,
            tool_use_prompt_token_count: None,
            total_token_count: None,
        }
    }
}

/// A response: the whole answer, or one event of a stream of them.
#[derive(Debug, PartialEq, Eq)]
pub struct GenerateContentResponse {
    pub candidates: Vec<Candidate>,
    pub usage_metadata: Option<UsageMetadata>,
}

/// The model of a [`GenerateContentResponse`].
#[verifier::ext_equal]
pub ghost struct GenerateContentResponseView {
    pub candidates: Seq<CandidateView>,
    pub usage_metadata: Option<UsageMetadata>,
}

impl View for GenerateContentResponse {
    type V = GenerateContentResponseView;

    open spec fn view(&self) -> GenerateContentResponseView {
        GenerateContentResponseView {
            candidates: seq_view(self.candidates@),
            usage_metadata: self.usage_metadata,
        }
    }
}

/// A tool, as it is offered to the model.
#[derive(Debug, PartialEq, Eq)]
pub struct FunctionDeclaration {
    pub name: String,
    pub description: String,
    pub parameters: Option<Value>,
    pub parameters_json_schema: Option<Value>,
    pub response: Option<Value>,
    pub response_json_schema: Option<Value>,
}

/// The model of a [`FunctionDeclaration`].
#[verifier::ext_equal]
pub ghost struct FunctionDeclarationView {
    pub name: Seq<char>,
    pub description: Seq<char>,
    pub parameters: Option<ValueView>,
    pub parameters_json_schema: Option<ValueView>,
    pub response: Option<ValueView>,
    pub response_json_schema: Option<ValueView>,
}

impl View for FunctionDeclaration {
    type V = FunctionDeclarationView;

    open spec fn view(&self) -> FunctionDeclarationView {
        FunctionDeclarationView {
            name: self.name@,
            description: self.description@,
            parameters: option_view(self.parameters),
            parameters_json_schema: option_view(self.parameters_json_schema),
            response: option_view(self.response),
            response_json_schema: option_view(self.response_json_schema),
        }
    }
}

/// The tools offered with a request.
#[derive(Debug, PartialEq, Eq)]
pub struct Tools {
    pub function_declarations: Option<Vec<FunctionDeclaration>>,
}

/// The model of a [`Tools`].
#[verifier::ext_equal]
pub ghost struct ToolsView {
    pub function_declarations: Option<Seq<FunctionDeclarationView>>,
}

impl View for Tools {
    type V = ToolsView;

    open spec fn view(&self) -> ToolsView {
        ToolsView {
            function_declarations: match self.function_declarations {
                Some(declarations) => Some(seq_view(declarations@)),
                None => None,
            },
        }
    }
}

/// How hard the model thinks.
#[derive(Debug, Clone, Copy, PartialEq, Eq, Structural)]
pub enum ThinkingLevel {
    Minimal,
    Low,
    Medium,
    High,
}

/// How the model thinks.
#[derive(Debug, Clone, Copy, PartialEq, Eq, Structural)]
pub struct ThinkingConfig {
    /// Whether the thinking comes with the answer.
    pub include_thoughts: bool,
    /// How much of it there is, by name.
    pub thinking_level: Option<ThinkingLevel>,
    /// How much of it there is, in tokens.
    pub thinking_budget: Option<i32>,
}

impl View for ThinkingConfig {
    type V = ThinkingConfig;

    open spec fn view(&self) -> ThinkingConfig {
        *self
    }
}

/// Settings for generating an answer.
///
/// The sampling parameters are carried as the bits of a 32-bit IEEE 754 number
/// (`f32::to_bits`); nothing here computes with them.
#[derive(Debug, PartialEq, Eq)]
pub struct GenerationConfig {
    /// Sampling temperature, as bits.
    pub temperature_bits: Option<u32>,
    /// Nucleus sampling threshold, as bits.
    pub top_p_bits: Option<u32>,
    pub top_k: Option<i32>,
    pub max_output_tokens: Option<i32>,
    pub stop_sequences: Option<Vec<String>>,
    pub thinking_config: Option<ThinkingConfig>,
    pub response_mime_type: Option<String>,
    pub response_schema: Option<Value>,
}

/// The model of a [`GenerationConfig`].
#[verifier::ext_equal]
pub ghost struct GenerationConfigView {
    pub temperature_bits: Option<u32>,
    pub top_p_bits: Option<u32>,
    pub top_k: Option<i32>,
    pub max_output_tokens: Option<i32>,
    pub stop_sequences: Option<Seq<Seq<char>>>,
    pub thinking_config: Option<ThinkingConfig>,
    pub response_mime_type: Option<Seq<char>>,
    pub response_schema: Option<ValueView>,
}

impl View for GenerationConfig {
    type V = GenerationConfigView;

    open spec fn view(&self) -> GenerationConfigView {
        GenerationConfigView {
            temperature_bits: self.temperature_bits,
            top_p_bits: self.top_p_bits,
            top_k: self.top_k,
            max_output_tokens: self.max_output_tokens,
            stop_sequences: match self.stop_sequences {
                Some(sequences) => Some(seq_view(sequences@)),
                None => None,
            },
            thinking_config: self.thinking_config,
            response_mime_type: option_view(self.response_mime_type),
            response_schema: option_view(self.response_schema),
        }
    }
}

/// The settings that leave everything to the provider.
pub open spec fn default_config() -> GenerationConfigView {
    GenerationConfigView {
        temperature_bits: None,
        top_p_bits: None,
        top_k: None,
        max_output_tokens: None,
        stop_sequences: None,
        thinking_config: None,
        response_mime_type: None,
        response_schema: None,
    }
}

impl Default for GenerationConfig {
    fn default() -> (res: Self)
        ensures
            res@ == default_config(),
    {
        GenerationConfig {
            temperature_bits: None,
            top_p_bits: None,
            top_k: None,
            max_output_tokens: None,
            stop_sequences: None,
            thinking_config: None,
            response_mime_type: None,
            response_schema: None,
        }
    }
}

impl Clone for GenerationConfig {
    fn clone(&self) -> (res: Self)
        ensures
            res@ == self@,
    {
        GenerationConfig {
            temperature_bits: self.temperature_bits,
            top_p_bits: self.top_p_bits,
            top_k: self.top_k,
            max_output_tokens: self.max_output_tokens,
            stop_sequences: match &self.stop_sequences {
                Some(sequences) => Some(clone_all(sequences)),
                None => None,
            },
            thinking_config: self.thinking_config,
            response_mime_type: clone_option(&self.response_mime_type),
            response_schema: clone_option(&self.response_schema),
        }
    }
}

/// A request for an answer.
#[derive(Debug, PartialEq, Eq)]
pub struct GenerateContentRequest {
    pub contents: Vec<Content>,
    pub system_instruction: Option<Content>,
    pub tools: Option<Vec<Tools>>,
    pub generation_config: Option<GenerationConfig>,
}

/// The model of a [`GenerateContentRequest`].
#[verifier::ext_equal]
pub ghost struct GenerateContentRequestView {
    pub contents: Seq<ContentView>,
    pub system_instruction: Option<ContentView>,
    pub tools: Option<Seq<ToolsView>>,
    pub generation_config: Option<GenerationConfigView>,
}

impl View for GenerateContentRequest {
    type V = GenerateContentRequestView;

    open spec fn view(&self) -> GenerateContentRequestView {
        GenerateContentRequestView {
            contents: seq_view(self.contents@),
            system_instruction: option_view(self.system_instruction),
            tools: match self.tools {
                Some(tools) => Some(seq_view(tools@)),
                None => None,
            },
            generation_config: option_view(self.generation_config),
        }
    }
}

/// Settings on which nothing has been set leave everything to the model.
pub proof fn law_default_config()
    ensures
        default_config().temperature_bits is None,
        default_config().top_p_bits is None,
        default_config().top_k is None,
        default_config().max_output_tokens is None,
        default_config().stop_sequences is None,
        default_config().thinking_config is None,
        default_config().response_mime_type is None,
        default_config().response_schema is None,
{
}

} // verus!
