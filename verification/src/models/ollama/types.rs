//! The parts of the Ollama wire format that the adapter reads and writes.
use crate::json::{Value, ValueView};
use crate::views::{clone_all, option_view, seq_view};
use vstd::prelude::*;

verus! {

/// The author of a [`Message`].
#[derive(Debug, Clone, Copy, PartialEq, Eq, Structural)]
pub enum Role {
    System,
    User,
    Assistant,
    Tool,
}

/// The function that a [`ToolCall`] calls.
#[derive(Debug, PartialEq, Eq)]
pub struct ToolCallFunction {
    pub name: String,
    pub arguments: Value,
    /// The place of the call among those of its message.
    pub index: usize,
}

/// A tool call issued by the model.
#[derive(Debug, PartialEq, Eq)]
pub struct ToolCall {
    pub function: ToolCallFunction,
}

/// One message of a chat.
#[derive(Debug, PartialEq, Eq)]
pub struct Message {
    pub content: String,
    pub role: Role,
    pub thinking: Option<String>,
    pub tool_calls: Vec<ToolCall>,
}

/// The model of a [`ToolCall`].
#[verifier::ext_equal]
pub ghost struct ToolCallView {
    pub name: Seq<char>,
    pub arguments: ValueView,
    pub index: int,
}

/// The model of a [`Message`].
#[verifier::ext_equal]
pub ghost struct MessageView {
    pub content: Seq<char>,
    pub role: Role,
    pub thinking: Option<Seq<char>>,
    pub tool_calls: Seq<ToolCallView>,
}

impl View for ToolCall {
    type V = ToolCallView;

    open spec fn view(&self) -> ToolCallView {
        ToolCallView {
            name: self.function.name@,
            arguments: self.function.arguments@,
            index: self.function.index as int,
        }
    }
}

impl View for Message {
    type V = MessageView;

    open spec fn view(&self) -> MessageView {
        MessageView {
            content: self.content@,
            role: self.role,
            thinking: option_view(self.thinking),
            tool_calls: seq_view(self.tool_calls@),
        }
    }
}

/// A message with nothing but a text.
pub open spec fn plain_message(role: Role, content: Seq<char>) -> MessageView {
    MessageView { content, role, thinking: None, tool_calls: Seq::empty() }
}

impl Message {
    /// A message with nothing but a text.
    pub fn plain(role: Role, content: String) -> (res: Self)
        ensures
            res@ == plain_message(role, content@),
    {
        let res = Message { content, role, thinking: None, tool_calls: Vec::new() };
        assert(res@.tool_calls =~= Seq::empty());
        res
    }
}

/// The kind of a [`Tool`].
#[derive(Debug, Clone, Copy, PartialEq, Eq, Structural)]
pub enum ToolType {
    Function,
}

/// A tool, as it is offered to the model.
#[derive(Debug, PartialEq, Eq)]
pub struct Function {
    pub name: String,
    pub description: String,
    pub parameters: Value,
}

/// A tool, as it is offered to the model.
#[derive(Debug, PartialEq, Eq)]
pub struct Tool {
    pub tool_type: ToolType,
    pub function: Function,
}

/// The model of a [`Tool`].
#[verifier::ext_equal]
pub ghost struct ToolView {
    pub tool_type: ToolType,
    pub name: Seq<char>,
    pub description: Seq<char>,
    pub parameters: ValueView,
}

impl View for Tool {
    type V = ToolView;

    open spec fn view(&self) -> ToolView {
        ToolView {
            tool_type: self.tool_type,
            name: self.function.name@,
            description: self.function.description@,
            parameters: self.function.parameters@,
        }
    }
}

/// How hard the model thinks, by name.
#[derive(Debug, Clone, Copy, PartialEq, Eq, Structural)]
pub enum ThinkLevel {
    Low,
    Medium,
    High,
}

/// Whether, or how hard, the model thinks.
#[derive(Debug, Clone, Copy, PartialEq, Eq, Structural)]
pub enum Think {
    Bool(bool),
    Level(ThinkLevel),
}

/// Sequences that halt generation.
#[derive(Debug, PartialEq, Eq)]
pub enum Stop {
    Single(String),
    Multiple(Vec<String>),
}

/// The model of a [`Stop`].
#[verifier::ext_equal]
pub ghost enum StopView {
    Single(Seq<char>),
    Multiple(Seq<Seq<char>>),
}

impl View for Stop {
    type V = StopView;

    open spec fn view(&self) -> StopView {
        match self {
            Stop::Single(sequence) => StopView::Single(sequence@),
            Stop::Multiple(sequences) => StopView::Multiple(seq_view(sequences@)),
        }
    }
}

impl Clone for Stop {
    fn clone(&self) -> (res: Self)
        ensures
            res@ == self@,
    {
        match self {
            Stop::Single(sequence) => Stop::Single(sequence.clone()),
            Stop::Multiple(sequences) => Stop::Multiple(clone_all(sequences)),
        }
    }
}

/// Settings for generating an answer.
///
/// The sampling parameters are carried as the bits of a 32-bit IEEE 754 number
/// (`f32::to_bits`); nothing here computes with them.
#[derive(Debug, PartialEq, Eq)]
pub struct Options {
    /// Sampling temperature, as bits.
    pub temperature_bits: Option<u32>,
    /// Nucleus sampling threshold, as bits.
    pub top_p_bits: Option<u32>,
    pub seed: Option<u64>,
    pub top_k: Option<u32>,
    pub num_ctx: Option<u32>,
    pub num_predict: Option<u32>,
    pub stop: Option<Stop>,
}

/// The model of an [`Options`].
#[verifier::ext_equal]
pub ghost struct OptionsView {
    pub temperature_bits: Option<u32>,
    pub top_p_bits: Option<u32>,
    pub seed: Option<u64>,
    pub top_k: Option<u32>,
    pub num_ctx: Option<u32>,
    pub num_predict: Option<u32>,
    pub stop: Option<StopView>,
}

impl View for Options {
    type V = OptionsView;

    open spec fn view(&self) -> OptionsView {
        OptionsView {
            temperature_bits: self.temperature_bits,
            top_p_bits: self.top_p_bits,
            seed: self.seed,
            top_k: self.top_k,
            num_ctx: self.num_ctx,
            num_predict: self.num_predict,
            stop: option_view(self.stop),
        }
    }
}

/// The settings that leave everything to the server.
pub open spec fn default_options() -> OptionsView {
    OptionsView {
        temperature_bits: None,
        top_p_bits: None,
        seed: None,
        top_k: None,
        num_ctx: None,
        num_predict: None,
        stop: None,
    }
}

impl Default for Options {
    fn default() -> (res: Self)
        ensures
            res@ == default_options(),
    {
        Options {
            temperature_bits: None,
            top_p_bits: None,
            seed: None,
            top_k: None,
            num_ctx: None,
            num_predict: None,
            stop: None,
        }
    }
}

impl Clone for Options {
    fn clone(&self) -> (res: Self)
        ensures
            res@ == self@,
    {
        Options {
            temperature_bits: self.temperature_bits,
            top_p_bits: self.top_p_bits,
            seed: self.seed,
            top_k: self.top_k,
            num_ctx: self.num_ctx,
            num_predict: self.num_predict,
            stop: match &self.stop {
                Some(stop) => Some(stop.clone()),
                None => None,
            },
        }
    }
}

/// A request for an answer.
#[derive(Debug, PartialEq, Eq)]
pub struct ChatRequest {
    pub model: String,
    pub messages: Vec<Message>,
    pub options: Option<Options>,
    pub think: Option<Think>,
    /// The tools that are offered; empty when there are none.
    pub tools: Vec<Tool>,
    /// Whether the answer comes piece by piece; `None` leaves it to the server.
    pub stream: Option<bool>,
    /// The JSON Schema that the answer has to conform to.
    pub format: Option<Value>,
}

/// The model of a [`ChatRequest`].
#[verifier::ext_equal]
pub ghost struct ChatRequestView {
    pub model: Seq<char>,
    pub messages: Seq<MessageView>,
    pub options: Option<OptionsView>,
    pub think: Option<Think>,
    pub tools: Seq<ToolView>,
    pub stream: Option<bool>,
    pub format: Option<ValueView>,
}

impl View for ChatRequest {
    type V = ChatRequestView;

    open spec fn view(&self) -> ChatRequestView {
        ChatRequestView {
            model: self.model@,
            messages: seq_view(self.messages@),
            options: option_view(self.options),
            think: self.think,
            tools: seq_view(self.tools@),
            stream: self.stream,
            format: option_view(self.format),
        }
    }
}

/// An answer, or one piece of it.
#[derive(Debug, PartialEq, Eq)]
pub struct ChatResponse {
    pub message: Message,
    /// Whether this is the last piece.
    pub done: bool,
    /// The number of tokens in the prompt.
    pub prompt_eval_count: Option<u64>,
    /// The number of tokens in the answer.
    pub eval_count: Option<u64>,
}

/// The model of a [`ChatResponse`].
#[verifier::ext_equal]
pub ghost struct ChatResponseView {
    pub message: MessageView,
    pub done: bool,
    pub prompt_eval_count: Option<u64>,
    pub eval_count: Option<u64>,
}

impl View for ChatResponse {
    type V = ChatResponseView;

    open spec fn view(&self) -> ChatResponseView {
        ChatResponseView {
            message: self.message@,
            done: self.done,
            prompt_eval_count: self.prompt_eval_count,
            eval_count: self.eval_count,
        }
    }
}

/// Settings on which nothing has been set leave everything to the server.
pub proof fn law_default_options()
    ensures
        default_options().temperature_bits is None,
        default_options().top_p_bits is None,
        default_options().seed is None,
        default_options().top_k is None,
        default_options().num_ctx is None,
        default_options().num_predict is None,
        default_options().stop is None,
{
}

/// A plain message has its role and its text, and neither thinking nor calls.
pub proof fn law_plain_message(role: Role, content: Seq<char>)
    ensures
        plain_message(role, content).role == role,
        plain_message(role, content).content == content,
        plain_message(role, content).thinking is None,
        plain_message(role, content).tool_calls.len() == 0,
{
}

} // verus!
