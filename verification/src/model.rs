//! Provider-agnostic conversation primitives.
//!
//! The types that every provider adapter speaks: [`Message`] and its
//! [`MessageContent`], the [`ToolCall`] issued by the model, and the
//! [`ModelRequest`] / [`ModelResponse`] envelope.
use crate::error::{Error, ErrorView};
use crate::json::{Value, ValueView};
use crate::text::IntoText;
use crate::tools::{ToolDefinition, ToolDefinitionView};
use crate::views::{
    clone_all, clone_option, lemma_seq_view_push, option_view, result_view, results_view, seq_view,
    share_all,
};
use std::sync::Arc;
use vstd::prelude::*;
use vstd::std_specs::iter::IteratorSpec;

verus! {

/// The role of a participant in a conversation.
#[derive(Debug, Clone, Copy, PartialEq, Eq, Structural)]
pub enum Role {
    /// A message from the user.
    User,
    /// A message from the assistant/model.
    Assistant,
}

/// A tool call issued by the model.
#[derive(Debug, PartialEq, Eq)]
pub struct ToolCall {
    /// Provider-assigned call identifier. Echoed in the tool response for
    /// providers that require it (e.g. Gemini).
    pub id: String,
    /// The name of the tool to invoke.
    pub name: String,
    /// The arguments the model wants to pass, as a JSON object.
    pub args: Value,
    /// Opaque provider metadata that goes back with the tool response. Used by
    /// Gemini to carry the `thought_signature`; `None` for other providers.
    pub provider_metadata: Option<Value>,
}

/// The model of a [`ToolCall`].
#[verifier::ext_equal]
pub ghost struct ToolCallView {
    pub id: Seq<char>,
    pub name: Seq<char>,
    pub args: ValueView,
    pub provider_metadata: Option<ValueView>,
}

impl View for ToolCall {
    type V = ToolCallView;

    open spec fn view(&self) -> ToolCallView {
        ToolCallView {
            id: self.id@,
            name: self.name@,
            args: self.args@,
            provider_metadata: option_view(self.provider_metadata),
        }
    }
}

impl Clone for ToolCall {
    fn clone(&self) -> (res: Self)
        ensures
            res@ == self@,
    {
        ToolCall {
            id: self.id.clone(),
            name: self.name.clone(),
            args: self.args.clone(),
            provider_metadata: clone_option(&self.provider_metadata),
        }
    }
}

impl ToolCall {
    /// Creates a tool call without provider metadata.
    pub fn new(id: String, name: String, args: Value) -> (res: Self)
        ensures
            res@ == (ToolCallView {
                id: id@,
                name: name@,
                args: args@,
                provider_metadata: None,
            }),
    {
        ToolCall { id, name, args, provider_metadata: None }
    }
}

/// The content carried by a [`Message`].
#[derive(Debug, PartialEq, Eq)]
pub enum MessageContent {
    /// Plain text.
    Text(String),
    /// All tool calls issued by the model in one assistant turn.
    ToolCalls(Vec<Arc<ToolCall>>),
    /// The result of executing one tool (one message per result).
    ToolResult { tool_call: Arc<ToolCall>, result: Value },
}

/// The model of a [`MessageContent`].
#[verifier::ext_equal]
pub ghost enum MessageContentView {
    Text(Seq<char>),
    ToolCalls(Seq<ToolCallView>),
    ToolResult { tool_call: ToolCallView, result: ValueView },
}

impl View for MessageContent {
    type V = MessageContentView;

    open spec fn view(&self) -> MessageContentView {
        match self {
            MessageContent::Text(text) => MessageContentView::Text(text@),
            MessageContent::ToolCalls(calls) => MessageContentView::ToolCalls(seq_view(calls@)),
            MessageContent::ToolResult { tool_call, result } => MessageContentView::ToolResult {
                tool_call: tool_call@,
                result: result@,
            },
        }
    }
}

/// A single message in a conversation.
#[derive(Debug, PartialEq, Eq)]
pub struct Message {
    /// The role of the message sender.
    pub role: Role,
    /// The content of the message.
    pub content: MessageContent,
}

/// The model of a [`Message`].
#[verifier::ext_equal]
pub ghost struct MessageView {
    pub role: Role,
    pub content: MessageContentView,
}

impl View for Message {
    type V = MessageView;

    open spec fn view(&self) -> MessageView {
        MessageView { role: self.role, content: self.content@ }
    }
}

/// A user text message.
pub open spec fn user_message(text: Seq<char>) -> MessageView {
    MessageView { role: Role::User, content: MessageContentView::Text(text) }
}

/// An assistant text message.
pub open spec fn assistant_message(text: Seq<char>) -> MessageView {
    MessageView { role: Role::Assistant, content: MessageContentView::Text(text) }
}

/// The assistant message that carries all tool calls of one turn.
pub open spec fn tool_calls_message(calls: Seq<ToolCallView>) -> MessageView {
    MessageView { role: Role::Assistant, content: MessageContentView::ToolCalls(calls) }
}

/// The message that carries the result of one tool call.
pub open spec fn tool_result_message(call: ToolCallView, result: ValueView) -> MessageView {
    MessageView {
        role: Role::User,
        content: MessageContentView::ToolResult { tool_call: call, result },
    }
}

impl Message {
    /// Creates a new user text message.
    pub fn user<T: IntoText>(content: T) -> (res: Self)
        ensures
            res@ == user_message(content.text()),
    {
        Message { role: Role::User, content: MessageContent::Text(content.into_text()) }
    }

    /// Creates a new assistant text message.
    pub fn assistant<T: IntoText>(content: T) -> (res: Self)
        ensures
            res@ == assistant_message(content.text()),
    {
        Message { role: Role::Assistant, content: MessageContent::Text(content.into_text()) }
    }

    /// Creates an assistant message representing all tool calls from one model turn.
    pub fn tool_calls(calls: Vec<Arc<ToolCall>>) -> (res: Self)
        ensures
            res@ == tool_calls_message(seq_view(calls@)),
    {
        Message { role: Role::Assistant, content: MessageContent::ToolCalls(calls) }
    }

    /// Creates a message carrying the result of one tool execution.
    pub fn tool_result(tool_call: Arc<ToolCall>, result: Value) -> (res: Self)
        ensures
            res@ == tool_result_message(tool_call@, result@),
    {
        Message { role: Role::User, content: MessageContent::ToolResult { tool_call, result } }
    }
}

/// A list of messages representing a conversation thread.
///
/// Messages are shared: a copy of the list holds the same messages.
#[derive(Debug, PartialEq, Eq)]
pub struct MessageList {
    inner: Vec<Arc<Message>>,
}

impl View for MessageList {
    type V = Seq<MessageView>;

    closed spec fn view(&self) -> Seq<MessageView> {
        seq_view(self.inner@)
    }
}

impl std::ops::Deref for MessageList {
    type Target = [Arc<Message>];

    fn deref(&self) -> (res: &[Arc<Message>])
        ensures
            seq_view(res@) == self@,
    {
        self.inner.as_slice()
    }
}

/// The messages, each behind its own handle.
fn wrap_all(messages: Vec<Message>) -> (res: Vec<Arc<Message>>)
    ensures
        seq_view(res@) == seq_view(messages@),
{
    let ghost all = messages@;
    let mut inner: Vec<Arc<Message>> = Vec::new();
    for message in iter: messages
        invariant
            iter.seq() == all,
            inner@.len() == iter.index(),
            forall|j: int| 0 <= j < inner@.len() ==> (#[trigger] inner@[j])@ == all[j]@,
    {
        inner.push(Arc::new(message));
    }
    assert(seq_view(inner@) =~= seq_view(all));
    inner
}

impl MessageList {
    /// Creates a new, empty list.
    pub fn new() -> (res: Self)
        ensures
            res@ == Seq::<MessageView>::empty(),
    {
        let res = MessageList { inner: Vec::new() };
        assert(res@ =~= Seq::empty());
        res
    }

    /// Appends a message to the end of the list.
    pub fn push(&mut self, message: Message)
        ensures
            final(self)@ == old(self)@.push(message@),
    {
        self.push_arc(Arc::new(message));
    }

    /// Appends a message that is shared already.
    pub fn push_arc(&mut self, message: Arc<Message>)
        ensures
            final(self)@ == old(self)@.push(message@),
    {
        self.inner.push(message);
        assert(self@ =~= old(self)@.push(message@));
    }

    /// Removes the last message and returns it, or `None` if the list is empty.
    pub fn pop(&mut self) -> (res: Option<Arc<Message>>)
        ensures
            match res {
                Some(message) => old(self)@.len() > 0 && message@ == old(self)@.last() && final(self)@
                    == old(self)@.drop_last(),
                None => old(self)@.len() == 0 && final(self)@ == old(self)@,
            },
    {
        let res = self.inner.pop();
        proof {
            if res is Some {
                assert(self@ =~= old(self)@.drop_last());
            }
        }
        res
    }

    /// Removes all messages.
    pub fn clear(&mut self)
        ensures
            final(self)@ == Seq::<MessageView>::empty(),
    {
        self.inner.clear();
        assert(self@ =~= Seq::empty());
    }

    /// Keeps the first `len` messages and drops the rest.
    pub fn truncate(&mut self, len: usize)
        ensures
            final(self)@ == (if len < old(self)@.len() {
                old(self)@.take(len as int)
            } else {
                old(self)@
            }),
    {
        self.inner.truncate(len);
        proof {
            if len < old(self)@.len() {
                assert(self@ =~= old(self)@.take(len as int));
            } else {
                assert(self@ =~= old(self)@);
            }
        }
    }

    /// Appends messages, in order.
    pub fn extend(&mut self, messages: Vec<Message>)
        ensures
            final(self)@ == old(self)@ + seq_view(messages@),
    {
        self.extend_arcs(wrap_all(messages));
    }

    /// Appends messages that are shared already, in order.
    pub fn extend_arcs(&mut self, messages: Vec<Arc<Message>>)
        ensures
            final(self)@ == old(self)@ + seq_view(messages@),
    {
        let mut messages = messages;
        let ghost all = messages@;
        self.inner.append(&mut messages);
        assert(self@ =~= old(self)@ + seq_view(all));
    }
}

impl Clone for MessageList {
    /// A list of the same messages.
    fn clone(&self) -> (res: Self)
        ensures
            res@ == self@,
    {
        MessageList { inner: share_all(&self.inner) }
    }
}

impl Default for MessageList {
    fn default() -> (res: Self)
        ensures
            res@ == Seq::<MessageView>::empty(),
    {
        MessageList::new()
    }
}

impl From<Vec<Message>> for MessageList {
    fn from(messages: Vec<Message>) -> (res: Self)
        ensures
            res@ == seq_view(messages@),
    {
        MessageList { inner: wrap_all(messages) }
    }
}

impl vstd::std_specs::convert::FromSpecImpl<Vec<Message>> for MessageList {
    open spec fn obeys_from_spec() -> bool {
        false
    }

    open spec fn from_spec(messages: Vec<Message>) -> Self {
        arbitrary()
    }
}

impl From<Vec<Arc<Message>>> for MessageList {
    fn from(inner: Vec<Arc<Message>>) -> (res: Self)
        ensures
            res@ == seq_view(inner@),
    {
        MessageList { inner }
    }
}

impl vstd::std_specs::convert::FromSpecImpl<Vec<Arc<Message>>> for MessageList {
    open spec fn obeys_from_spec() -> bool {
        false
    }

    open spec fn from_spec(inner: Vec<Arc<Message>>) -> Self {
        arbitrary()
    }
}

impl From<MessageList> for Vec<Arc<Message>> {
    fn from(list: MessageList) -> (res: Self)
        ensures
            seq_view(res@) == list@,
    {
        list.inner
    }
}

impl vstd::std_specs::convert::FromSpecImpl<MessageList> for Vec<Arc<Message>> {
    open spec fn obeys_from_spec() -> bool {
        false
    }

    open spec fn from_spec(list: MessageList) -> Self {
        arbitrary()
    }
}

impl IntoIterator for MessageList {
    type Item = Arc<Message>;
    type IntoIter = std::vec::IntoIter<Arc<Message>>;

    fn into_iter(self) -> (res: std::vec::IntoIter<Arc<Message>>)
        ensures
            seq_view(res.remaining()) == self@,
    {
        self.inner.into_iter()
    }
}

impl<'a> IntoIterator for &'a MessageList {
    type Item = &'a Arc<Message>;
    type IntoIter = std::slice::Iter<'a, Arc<Message>>;

    fn into_iter(self) -> (res: std::slice::Iter<'a, Arc<Message>>)
        ensures
            seq_view(res.remaining()) == self@,
    {
        let res = self.inner.iter();
        assert(seq_view(res.remaining()) =~= self@);
        res
    }
}

/// A request to an LLM model.
#[derive(Debug)]
pub struct ModelRequest {
    /// The conversation history, in chronological order.
    pub messages: MessageList,
    /// Optional system-level instructions that guide the model's behaviour.
    pub system: Option<String>,
    /// Optional JSON Schema the model's response must conform to. Providers that
    /// do not support structured output ignore it.
    pub output_schema: Option<Value>,
    /// Tool definitions available to the model on this request; empty when there
    /// are none.
    pub tools: Vec<ToolDefinition>,
}

/// The model of a [`ModelRequest`].
#[verifier::ext_equal]
pub ghost struct ModelRequestView {
    pub messages: Seq<MessageView>,
    pub system: Option<Seq<char>>,
    pub output_schema: Option<ValueView>,
    pub tools: Seq<ToolDefinitionView>,
}

impl View for ModelRequest {
    type V = ModelRequestView;

    open spec fn view(&self) -> ModelRequestView {
        ModelRequestView {
            messages: self.messages@,
            system: option_view(self.system),
            output_schema: option_view(self.output_schema),
            tools: seq_view(self.tools@),
        }
    }
}

impl Clone for ModelRequest {
    fn clone(&self) -> (res: Self)
        ensures
            res@ == self@,
    {
        ModelRequest {
            messages: self.messages.clone(),
            system: clone_option(&self.system),
            output_schema: clone_option(&self.output_schema),
            tools: clone_all(&self.tools),
        }
    }
}

/// Token counts reported by a provider for one model call.
///
/// A dimension that the provider does not report is `None`, which is distinct
/// from `Some(0)`: the provider reported zero tokens.
#[derive(Debug, Clone, Copy, PartialEq, Eq, Structural)]
pub struct TokenUsage {
    /// Prompt / input tokens billed for this call.
    pub input_tokens: Option<u32>,
    /// Generated / output tokens billed for this call.
    pub output_tokens: Option<u32>,
    /// The part of `input_tokens` that was served from the provider's prompt
    /// cache.
    pub cached_input_tokens: Option<u32>,
    /// Reasoning / thinking tokens, when the provider bills them separately from
    /// `output_tokens`.
    pub thinking_tokens: Option<u32>,
    /// Tokens consumed by tool-use prompt parts, when the provider bills them
    /// separately from `input_tokens`.
    pub tool_use_prompt_tokens: Option<u32>,
}

impl View for TokenUsage {
    type V = TokenUsage;

    open spec fn view(&self) -> TokenUsage {
        *self
    }
}

impl Default for TokenUsage {
    /// Nothing reported.
    fn default() -> (res: Self)
        ensures
            res == (TokenUsage {
                input_tokens: None,
                output_tokens: None,
                cached_input_tokens: None,
                thinking_tokens: None,
                tool_use_prompt_tokens: None,
            }),
    {
        TokenUsage {
            input_tokens: None,
            output_tokens: None,
            cached_input_tokens: None,
            thinking_tokens: None,
            tool_use_prompt_tokens: None,
        }
    }
}

/// A response from an LLM model: a final response carries text, an intermediate
/// turn carries tool calls.
#[derive(Debug)]
pub struct ModelResponse {
    /// The generated text output, present only when the model produced a final
    /// text response.
    pub text: Option<String>,
    /// Tool calls the model wants to be executed. Empty on a text turn.
    pub tool_calls: Vec<ToolCall>,
    /// Reasoning/thinking text produced by the model before its final answer.
    pub thinking: Option<String>,
    /// Token counts reported by the provider for this call, if any.
    pub token_usage: Option<TokenUsage>,
}

/// The model of a [`ModelResponse`].
#[verifier::ext_equal]
pub ghost struct ModelResponseView {
    pub text: Option<Seq<char>>,
    pub tool_calls: Seq<ToolCallView>,
    pub thinking: Option<Seq<char>>,
    pub token_usage: Option<TokenUsage>,
}

impl View for ModelResponse {
    type V = ModelResponseView;

    open spec fn view(&self) -> ModelResponseView {
        ModelResponseView {
            text: option_view(self.text),
            tool_calls: seq_view(self.tool_calls@),
            thinking: option_view(self.thinking),
            token_usage: self.token_usage,
        }
    }
}

/// A chunk of a streamed model response.
#[derive(Debug)]
pub enum ModelStreamChunk {
    /// A piece of reasoning/thinking.
    Thinking(String),
    /// An incremental piece of the model's text output.
    TextDelta(String),
    /// A complete tool call. Tool calls are not streamed mid-call.
    ToolCall(ToolCall),
    /// Token counts reported by the provider for this model call.
    Usage(TokenUsage),
}

/// The model of a [`ModelStreamChunk`].
#[verifier::ext_equal]
pub ghost enum ModelStreamChunkView {
    Thinking(Seq<char>),
    TextDelta(Seq<char>),
    ToolCall(ToolCallView),
    Usage(TokenUsage),
}

impl View for ModelStreamChunk {
    type V = ModelStreamChunkView;

    open spec fn view(&self) -> ModelStreamChunkView {
        match self {
            ModelStreamChunk::Thinking(text) => ModelStreamChunkView::Thinking(text@),
            ModelStreamChunk::TextDelta(text) => ModelStreamChunkView::TextDelta(text@),
            ModelStreamChunk::ToolCall(call) => ModelStreamChunkView::ToolCall(call@),
            ModelStreamChunk::Usage(usage) => ModelStreamChunkView::Usage(*usage),
        }
    }
}

/// One chunk for each tool call.
pub open spec fn call_chunks(calls: Seq<ToolCallView>) -> Seq<ModelStreamChunkView> {
    Seq::new(calls.len(), |i: int| ModelStreamChunkView::ToolCall(calls[i]))
}

/// The chunks that stand for a whole response: its thinking, its tool calls in
/// order, its text, and its token counts, each where there is one.
pub open spec fn response_chunks(response: ModelResponseView) -> Seq<ModelStreamChunkView> {
    let thinking = match response.thinking {
        Some(text) => seq![ModelStreamChunkView::Thinking(text)],
        None => Seq::empty(),
    };
    let text = match response.text {
        Some(text) => seq![ModelStreamChunkView::TextDelta(text)],
        None => Seq::empty(),
    };
    let usage = match response.token_usage {
        Some(usage) => seq![ModelStreamChunkView::Usage(usage)],
        None => Seq::empty(),
    };
    thinking + call_chunks(response.tool_calls) + text + usage
}

/// What is yielded to whoever reads a stream.
pub type StreamItem = Result<ModelStreamChunkView, ErrorView>;

/// Chunks, as they are yielded.
pub open spec fn yielded(chunks: Seq<ModelStreamChunkView>) -> Seq<StreamItem> {
    Seq::new(chunks.len(), |i: int| Ok(chunks[i]))
}

/// The chunks that stand for a whole response.
pub fn chunks_of(response: ModelResponse) -> (res: Vec<ModelStreamChunk>)
    ensures
        seq_view(res@) == response_chunks(response@),
{
    let ghost model = response@;
    let mut chunks: Vec<ModelStreamChunk> = Vec::new();
    if let Some(thinking) = response.thinking {
        chunks.push(ModelStreamChunk::Thinking(thinking));
    }
    let ghost head = seq_view(chunks@);
    let ghost calls = response.tool_calls@;
    assert(head =~= head + call_chunks(model.tool_calls.take(0)));
    for call in iter: response.tool_calls
        invariant
            iter.seq() == calls,
            model.tool_calls == seq_view(calls),
            seq_view(chunks@) == head + call_chunks(model.tool_calls.take(iter.index())),
    {
        let ghost i = iter.index();
        let ghost before = chunks@;
        chunks.push(ModelStreamChunk::ToolCall(call));
        proof {
            lemma_seq_view_push(before, chunks@.last());
            assert(seq_view(chunks@) =~= head + call_chunks(model.tool_calls.take(i + 1)));
        }
    }
    assert(model.tool_calls.take(calls.len() as int) =~= model.tool_calls);
    broadcast use lemma_seq_view_push;

    if let Some(text) = response.text {
        chunks.push(ModelStreamChunk::TextDelta(text));
    }
    if let Some(usage) = response.token_usage {
        chunks.push(ModelStreamChunk::Usage(usage));
    }
    assert(seq_view(chunks@) =~= response_chunks(model));
    chunks
}

/// The text that a run of chunks spells out.
pub open spec fn text_in_chunks(chunks: Seq<ModelStreamChunkView>) -> Seq<char>
    decreases chunks.len(),
{
    if chunks.len() == 0 {
        Seq::empty()
    } else {
        let before = text_in_chunks(chunks.drop_last());
        match chunks.last() {
            ModelStreamChunkView::TextDelta(text) => before + text,
            _ => before,
        }
    }
}

/// The thinking that a run of chunks spells out.
pub open spec fn thinking_in_chunks(chunks: Seq<ModelStreamChunkView>) -> Seq<char>
    decreases chunks.len(),
{
    if chunks.len() == 0 {
        Seq::empty()
    } else {
        let before = thinking_in_chunks(chunks.drop_last());
        match chunks.last() {
            ModelStreamChunkView::Thinking(text) => before + text,
            _ => before,
        }
    }
}

/// The tool calls in a run of chunks.
pub open spec fn calls_in_chunks(chunks: Seq<ModelStreamChunkView>) -> Seq<ToolCallView>
    decreases chunks.len(),
{
    if chunks.len() == 0 {
        Seq::empty()
    } else {
        let before = calls_in_chunks(chunks.drop_last());
        match chunks.last() {
            ModelStreamChunkView::ToolCall(call) => before.push(call),
            _ => before,
        }
    }
}

/// What two runs of chunks hold together is what the one holds and then the other.
pub proof fn lemma_projections_append(
    left: Seq<ModelStreamChunkView>,
    right: Seq<ModelStreamChunkView>,
)
    ensures
        text_in_chunks(left + right) == text_in_chunks(left) + text_in_chunks(right),
        thinking_in_chunks(left + right) == thinking_in_chunks(left) + thinking_in_chunks(right),
        calls_in_chunks(left + right) == calls_in_chunks(left) + calls_in_chunks(right),
    decreases right.len(),
{
    if right.len() == 0 {
        assert(left + right =~= left);
        assert(text_in_chunks(left) + text_in_chunks(right) =~= text_in_chunks(left));
        assert(thinking_in_chunks(left) + thinking_in_chunks(right) =~= thinking_in_chunks(left));
        assert(calls_in_chunks(left) + calls_in_chunks(right) =~= calls_in_chunks(left));
    } else {
        lemma_projections_append(left, right.drop_last());
        assert((left + right).drop_last() =~= left + right.drop_last());
        assert((left + right).last() == right.last());
        assert(text_in_chunks(left + right) =~= text_in_chunks(left) + text_in_chunks(right));
        assert(thinking_in_chunks(left + right) =~= thinking_in_chunks(left) + thinking_in_chunks(
            right,
        ));
        assert(calls_in_chunks(left + right) =~= calls_in_chunks(left) + calls_in_chunks(right));
    }
}

/// Chunks of tool calls hold these and no text.
pub proof fn lemma_projections_of_calls(calls: Seq<ToolCallView>)
    ensures
        text_in_chunks(call_chunks(calls)) == Seq::<char>::empty(),
        thinking_in_chunks(call_chunks(calls)) == Seq::<char>::empty(),
        calls_in_chunks(call_chunks(calls)) == calls,
    decreases calls.len(),
{
    if calls.len() > 0 {
        lemma_projections_of_calls(calls.drop_last());
        assert(call_chunks(calls).drop_last() =~= call_chunks(calls.drop_last()));
        assert(calls.drop_last().push(calls.last()) =~= calls);
    } else {
        assert(calls_in_chunks(call_chunks(calls)) =~= calls);
    }
}

/// A response that is streamed whole spells out its thinking and its text and holds
/// its tool calls.
pub proof fn law_whole_stream_keeps_response(response: ModelResponseView)
    ensures
        text_in_chunks(response_chunks(response)) == (match response.text {
            Some(text) => text,
            None => Seq::empty(),
        }),
        thinking_in_chunks(response_chunks(response)) == (match response.thinking {
            Some(text) => text,
            None => Seq::empty(),
        }),
        calls_in_chunks(response_chunks(response)) == response.tool_calls,
{
    let thinking = match response.thinking {
        Some(text) => seq![ModelStreamChunkView::Thinking(text)],
        None => Seq::empty(),
    };
    let text = match response.text {
        Some(text) => seq![ModelStreamChunkView::TextDelta(text)],
        None => Seq::empty(),
    };
    let usage = match response.token_usage {
        Some(usage) => seq![ModelStreamChunkView::Usage(usage)],
        None => Seq::empty(),
    };
    let calls = call_chunks(response.tool_calls);
    lemma_projections_of_calls(response.tool_calls);
    lemma_projections_append(thinking, calls);
    lemma_projections_append(thinking + calls, text);
    lemma_projections_append(thinking + calls + text, usage);
    reveal_with_fuel(text_in_chunks, 2);
    reveal_with_fuel(thinking_in_chunks, 2);
    reveal_with_fuel(calls_in_chunks, 2);
    assert(text.len() > 0 ==> text.drop_last() =~= Seq::empty());
    assert(thinking.len() > 0 ==> thinking.drop_last() =~= Seq::empty());
    assert(usage.len() > 0 ==> usage.drop_last() =~= Seq::empty());
    assert(calls_in_chunks(response_chunks(response)) =~= response.tool_calls);
    assert(text_in_chunks(response_chunks(response)) =~= text_in_chunks(text));
    assert(thinking_in_chunks(response_chunks(response)) =~= thinking_in_chunks(thinking));
    if let Some(t) = response.text {
        assert(text_in_chunks(text) =~= t);
    }
    if let Some(t) = response.thinking {
        assert(thinking_in_chunks(thinking) =~= t);
    }
}

/// The chunks, each as something that is yielded.
pub fn yield_all(chunks: Vec<ModelStreamChunk>) -> (res: Vec<Result<ModelStreamChunk, Error>>)
    ensures
        results_view(res@) == yielded(seq_view(chunks@)),
{
    let ghost all = chunks@;
    let mut items: Vec<Result<ModelStreamChunk, Error>> = Vec::new();
    for chunk in iter: chunks
        invariant
            iter.seq() == all,
            items@.len() == iter.index(),
            forall|j: int| 0 <= j < items@.len() ==> result_view(#[trigger] items@[j]) == Ok::<
                ModelStreamChunkView,
                ErrorView,
            >(all[j]@),
    {
        items.push(Ok(chunk));
    }
    assert(results_view(items@) =~= yielded(seq_view(all)));
    items
}

/// What a model's outcome streams as: the chunks of the response, or the error.
pub open spec fn outcome_stream(outcome: Result<ModelResponseView, ErrorView>) -> Seq<StreamItem> {
    match outcome {
        Ok(response) => yielded(response_chunks(response)),
        Err(error) => seq![Err(error)],
    }
}

/// Streams an outcome that is there already: the way to stream from a provider
/// that answers only as a whole.
pub fn stream_of(outcome: Result<ModelResponse, Error>) -> (res: Vec<
    Result<ModelStreamChunk, Error>,
>)
    ensures
        results_view(res@) == outcome_stream(result_view(outcome)),
{
    match outcome {
        Ok(response) => yield_all(chunks_of(response)),
        Err(error) => {
            let mut items: Vec<Result<ModelStreamChunk, Error>> = Vec::new();
            items.push(Err(error));
            assert(results_view(items@) =~= outcome_stream(Err(error@)));
            items
        },
    }
}

/// None of the chunks reports token counts.
pub open spec fn no_usage(chunks: Seq<ModelStreamChunkView>) -> bool {
    forall|i: int| 0 <= i < chunks.len() ==> !((#[trigger] chunks[i]) is Usage)
}

/// Token counts are reported once at most, and then last.
pub open spec fn usage_only_last(chunks: Seq<ModelStreamChunkView>) -> bool {
    no_usage(chunks) || (chunks.len() > 0 && no_usage(chunks.drop_last()))
}

/// A response that is streamed whole reports token counts once at most, and last.
pub proof fn law_whole_stream_usage(response: ModelResponseView)
    ensures
        usage_only_last(response_chunks(response)),
{
    let chunks = response_chunks(response);
    if response.token_usage is None {
        assert(no_usage(chunks));
    } else {
        assert(no_usage(chunks.drop_last()));
    }
}

/// A response that is streamed whole comes in this order: its thinking, every one of its
/// calls in turn, its text, its token counts. Each comes unchanged where there is one,
/// and nothing else comes.
pub proof fn law_whole_stream_order(response: ModelResponseView)
    ensures
        ({
            let chunks = response_chunks(response);
            let t: int = if response.thinking is Some {
                1
            } else {
                0
            };
            let n = t + response.tool_calls.len();
            let x: int = if response.text is Some {
                n + 1
            } else {
                n
            };
            &&& response.thinking matches Some(text) ==> chunks[0]
                == ModelStreamChunkView::Thinking(text)
            &&& forall|i: int|
                0 <= i < response.tool_calls.len() ==> chunks[t + i]
                    == ModelStreamChunkView::ToolCall(#[trigger] response.tool_calls[i])
            &&& response.text matches Some(text) ==> chunks[n] == ModelStreamChunkView::TextDelta(
                text,
            )
            &&& response.token_usage matches Some(usage) ==> chunks.len() == x + 1 && chunks[x]
                == ModelStreamChunkView::Usage(usage)
            &&& response.token_usage is None ==> chunks.len() == x
        }),
{
}

/// The stream that stands for an outcome: each chunk of a response, in order, or nothing
/// but the error.
pub proof fn law_outcome_stream(response: ModelResponseView, error: ErrorView)
    ensures
        outcome_stream(Ok(response)).len() == response_chunks(response).len(),
        forall|i: int|
            0 <= i < response_chunks(response).len() ==> (#[trigger] outcome_stream(Ok(response))[i])
                == Ok::<ModelStreamChunkView, ErrorView>(response_chunks(response)[i]),
        outcome_stream(Err(error)).len() == 1,
        outcome_stream(Err(error))[0] == Err::<ModelStreamChunkView, ErrorView>(error),
{
}

/// Every chunk is yielded, as it is and in its place.
pub proof fn law_chunks_are_yielded(chunks: Seq<ModelStreamChunkView>)
    ensures
        yielded(chunks).len() == chunks.len(),
        forall|i: int|
            0 <= i < chunks.len() ==> (#[trigger] yielded(chunks)[i]) == Ok::<
                ModelStreamChunkView,
                ErrorView,
            >(chunks[i]),
{
}

/// A user's text is the user's, an assistant's text and its calls are the assistant's,
/// and a result is handed in by the user together with its call.
pub proof fn law_message_forms(
    text: Seq<char>,
    calls: Seq<ToolCallView>,
    call: ToolCallView,
    result: ValueView,
)
    ensures
        user_message(text).role == Role::User,
        user_message(text).content == MessageContentView::Text(text),
        assistant_message(text).role == Role::Assistant,
        assistant_message(text).content == MessageContentView::Text(text),
        tool_calls_message(calls).role == Role::Assistant,
        tool_calls_message(calls).content == MessageContentView::ToolCalls(calls),
        tool_result_message(call, result).role == Role::User,
        tool_result_message(call, result).content == (MessageContentView::ToolResult {
            tool_call: call,
            result,
        }),
{
}

/// The text of chunks is that of the text chunks, one after the other; so is their
/// thinking that of the thinking chunks; and their calls are those of the call chunks.
pub proof fn law_projections(chunks: Seq<ModelStreamChunkView>)
    ensures
        text_in_chunks(chunks) == chunks.filter(
            |chunk: ModelStreamChunkView| chunk is TextDelta,
        ).map_values(|chunk: ModelStreamChunkView| chunk->TextDelta_0).flatten(),
        thinking_in_chunks(chunks) == chunks.filter(
            |chunk: ModelStreamChunkView| chunk is Thinking,
        ).map_values(|chunk: ModelStreamChunkView| chunk->Thinking_0).flatten(),
        calls_in_chunks(chunks) == chunks.filter(
            |chunk: ModelStreamChunkView| chunk is ToolCall,
        ).map_values(|chunk: ModelStreamChunkView| chunk->ToolCall_0),
    decreases chunks.len(),
{
    reveal(Seq::filter);
    let texts = chunks.filter(|chunk: ModelStreamChunkView| chunk is TextDelta).map_values(
        |chunk: ModelStreamChunkView| chunk->TextDelta_0,
    );
    let thoughts = chunks.filter(|chunk: ModelStreamChunkView| chunk is Thinking).map_values(
        |chunk: ModelStreamChunkView| chunk->Thinking_0,
    );
    let calls = chunks.filter(|chunk: ModelStreamChunkView| chunk is ToolCall).map_values(
        |chunk: ModelStreamChunkView| chunk->ToolCall_0,
    );
    texts.lemma_flatten_and_flatten_alt_are_equivalent();
    thoughts.lemma_flatten_and_flatten_alt_are_equivalent();
    if chunks.len() == 0 {
        assert(texts =~= Seq::empty());
        assert(thoughts =~= Seq::empty());
        assert(calls =~= Seq::empty());
    } else {
        let before = chunks.drop_last();
        law_projections(before);
        let fewer_texts = before.filter(
            |chunk: ModelStreamChunkView| chunk is TextDelta,
        ).map_values(|chunk: ModelStreamChunkView| chunk->TextDelta_0);
        let fewer_thoughts = before.filter(
            |chunk: ModelStreamChunkView| chunk is Thinking,
        ).map_values(|chunk: ModelStreamChunkView| chunk->Thinking_0);
        let fewer_calls = before.filter(
            |chunk: ModelStreamChunkView| chunk is ToolCall,
        ).map_values(|chunk: ModelStreamChunkView| chunk->ToolCall_0);
        fewer_texts.lemma_flatten_and_flatten_alt_are_equivalent();
        fewer_thoughts.lemma_flatten_and_flatten_alt_are_equivalent();
        match chunks.last() {
            ModelStreamChunkView::TextDelta(text) => {
                assert(texts.drop_last() =~= fewer_texts);
            },
            ModelStreamChunkView::Thinking(text) => {
                assert(thoughts.drop_last() =~= fewer_thoughts);
            },
            ModelStreamChunkView::ToolCall(call) => {
                assert(calls =~= fewer_calls.push(call));
            },
            _ => {},
        }
    }
}

} // verus!
