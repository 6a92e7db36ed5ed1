//! Reading what Ollama answers.
use crate::error::{Error, ErrorView};
use crate::model::{
    call_chunks, yielded, ModelResponse, ModelResponseView, ModelStreamChunk, ModelStreamChunkView,
    StreamItem, TokenUsage, ToolCall, ToolCallView,
};
use crate::models::ollama::types::{
    ChatResponse, ChatResponseView, ToolCall as OllamaToolCall, ToolCallView as OllamaToolCallView,
};
use crate::views::{result_view, results_view, seq_view};
use vstd::prelude::*;

verus! {

/// A count that is too large for 32 bits is the largest that fits.
pub open spec fn saturated(v: u64) -> u32 {
    if v <= u32::MAX {
        v as u32
    } else {
        u32::MAX
    }
}

/// Narrows a count to 32 bits; larger counts become `u32::MAX`.
pub fn saturating_u64_to_u32(v: u64) -> (res: u32)
    ensures
        res == saturated(v),
{
    if v <= u32::MAX as u64 {
        v as u32
    } else {
        u32::MAX
    }
}

/// A count that may be missing, narrowed.
pub open spec fn saturated_option(v: Option<u64>) -> Option<u32> {
    match v {
        Some(v) => Some(saturated(v)),
        None => None,
    }
}

/// A count that may be missing, narrowed.
fn saturate_option(v: Option<u64>) -> (res: Option<u32>)
    ensures
        res == saturated_option(v),
{
    match v {
        Some(v) => Some(saturating_u64_to_u32(v)),
        None => None,
    }
}

/// The token counts in a response; none where it reports neither.
pub open spec fn usage_in(response: ChatResponseView) -> Option<TokenUsage> {
    if response.prompt_eval_count is None && response.eval_count is None {
        None
    } else {
        Some(
            TokenUsage {
                input_tokens: saturated_option(response.prompt_eval_count),
                output_tokens: saturated_option(response.eval_count),
                cached_input_tokens: None,
                thinking_tokens: None,
                tool_use_prompt_tokens: None,
            },
        )
    }
}

/// Extracts the token counts from the last response of an answer.
///
/// `None` when neither count is there: the server did not report usage.
pub fn to_token_usage(response: &ChatResponse) -> (res: Option<TokenUsage>)
    ensures
        res == usage_in(response@),
{
    if response.prompt_eval_count.is_none() && response.eval_count.is_none() {
        return None;
    }
    Some(
        TokenUsage {
            input_tokens: saturate_option(response.prompt_eval_count),
            output_tokens: saturate_option(response.eval_count),
            cached_input_tokens: None,
            thinking_tokens: None,
            tool_use_prompt_tokens: None,
        },
    )
}

/// A tool call in the library's terms. Ollama has no call identifiers; the name
/// takes their place.
pub open spec fn call_of(call: OllamaToolCallView) -> ToolCallView {
    ToolCallView {
        id: call.name,
        name: call.name,
        args: call.arguments,
        provider_metadata: None,
    }
}

/// Tool calls in the library's terms.
pub open spec fn calls_of(calls: Seq<OllamaToolCallView>) -> Seq<ToolCallView> {
    Seq::new(calls.len(), |i: int| call_of(calls[i]))
}

/// Converts one tool call.
pub fn to_tool_call(call: &OllamaToolCall) -> (res: ToolCall)
    ensures
        res@ == call_of(call@),
{
    ToolCall {
        id: call.function.name.clone(),
        name: call.function.name.clone(),
        args: call.function.arguments.clone(),
        provider_metadata: None,
    }
}

/// Converts tool calls, in order.
fn to_tool_calls(calls: &Vec<OllamaToolCall>) -> (res: Vec<ToolCall>)
    ensures
        seq_view(res@) == calls_of(seq_view(calls@)),
{
    let mut res: Vec<ToolCall> = Vec::new();
    let mut i: usize = 0;
    while i < calls.len()
        invariant
            i <= calls@.len(),
            res@.len() == i,
            forall|j: int| 0 <= j < i ==> (#[trigger] res@[j])@ == call_of(calls@[j]@),
        decreases calls@.len() - i,
    {
        res.push(to_tool_call(&calls[i]));
        i = i + 1;
    }
    assert(seq_view(res@) =~= calls_of(seq_view(calls@)));
    res
}

/// Something that happens on an answer that comes in pieces.
#[derive(Debug)]
pub enum ChatEvent {
    /// The next piece came in.
    Response(ChatResponse),
    /// The connection broke, for the reason given.
    Failed(String),
    /// The connection came to its end.
    Ended,
}

/// The model of a [`ChatEvent`].
#[verifier::ext_equal]
pub ghost enum ChatEventView {
    Response(ChatResponseView),
    Failed(Seq<char>),
    Ended,
}

impl View for ChatEvent {
    type V = ChatEventView;

    open spec fn view(&self) -> ChatEventView {
        match self {
            ChatEvent::Response(response) => ChatEventView::Response(response@),
            ChatEvent::Failed(reason) => ChatEventView::Failed(reason@),
            ChatEvent::Ended => ChatEventView::Ended,
        }
    }
}

/// An answer that is being put together.
#[derive(Debug)]
pub struct Collector {
    output: String,
    tool_calls: Vec<ToolCall>,
    token_usage: Option<TokenUsage>,
    open: bool,
}

/// The model of a [`Collector`].
#[verifier::ext_equal]
pub ghost struct CollectorView {
    pub output: Seq<char>,
    pub tool_calls: Seq<ToolCallView>,
    pub token_usage: Option<TokenUsage>,
    /// Whether more can come.
    pub open: bool,
}

impl View for Collector {
    type V = CollectorView;

    closed spec fn view(&self) -> CollectorView {
        CollectorView {
            output: self.output@,
            tool_calls: seq_view(self.tool_calls@),
            token_usage: self.token_usage,
            open: self.open,
        }
    }
}

/// A collector that holds nothing.
pub open spec fn empty_collector(open: bool) -> CollectorView {
    CollectorView { output: Seq::empty(), tool_calls: Seq::empty(), token_usage: None, open }
}

/// A collector after one more piece: the text grows, tool calls take the place of
/// those before, and the last piece brings the token counts.
pub open spec fn collected(state: CollectorView, response: ChatResponseView) -> CollectorView {
    CollectorView {
        output: state.output + response.message.content,
        tool_calls: if response.message.tool_calls.len() == 0 {
            state.tool_calls
        } else {
            calls_of(response.message.tool_calls)
        },
        token_usage: if response.done {
            usage_in(response)
        } else {
            state.token_usage
        },
        open: state.open,
    }
}

/// The response that was put together: tool calls, or else text.
pub open spec fn collected_response(state: CollectorView) -> ModelResponseView {
    ModelResponseView {
        text: if state.tool_calls.len() == 0 {
            Some(state.output)
        } else {
            None
        },
        tool_calls: state.tool_calls,
        thinking: None,
        token_usage: state.token_usage,
    }
}

/// One step of putting an answer together: the state after the event, and the
/// outcome where the event brings one. The answer is complete with its last piece
/// or with the end of the connection, whichever comes first.
pub open spec fn collect_step(state: CollectorView, event: ChatEventView) -> (
    CollectorView,
    Option<Result<ModelResponseView, ErrorView>>,
) {
    if !state.open {
        (state, None)
    } else {
        match event {
            ChatEventView::Response(response) => if response.done {
                (empty_collector(false), Some(Ok(collected_response(collected(state, response)))))
            } else {
                (collected(state, response), None)
            },
            ChatEventView::Failed(reason) => (
                empty_collector(false),
                Some(Err(ErrorView::Provider(reason))),
            ),
            ChatEventView::Ended => (empty_collector(false), Some(Ok(collected_response(state)))),
        }
    }
}

impl Collector {
    /// A collector into which nothing has come.
    pub fn new() -> (res: Self)
        ensures
            res@ == empty_collector(true),
    {
        let res = Collector {
            output: String::new(),
            tool_calls: Vec::new(),
            token_usage: None,
            open: true,
        };
        assert(res@.tool_calls =~= Seq::empty());
        res
    }

    /// Takes in one piece.
    fn push(&mut self, response: &ChatResponse)
        ensures
            final(self)@ == collected(old(self)@, response@),
    {
        assert(seq_view(response.message.tool_calls@).len() == response.message.tool_calls@.len());
        if response.message.tool_calls.len() > 0 {
            self.tool_calls = to_tool_calls(&response.message.tool_calls);
        }
        self.output.append(response.message.content.as_str());
        if response.done {
            self.token_usage = to_token_usage(response);
        }
    }

    /// Hands out the response that was put together, and closes.
    fn finish(&mut self) -> (res: ModelResponse)
        ensures
            res@ == collected_response(old(self)@),
            final(self)@ == empty_collector(false),
    {
        let mut output: String = String::new();
        let mut tool_calls: Vec<ToolCall> = Vec::new();
        std::mem::swap(&mut output, &mut self.output);
        std::mem::swap(&mut tool_calls, &mut self.tool_calls);
        let token_usage = self.token_usage;
        self.token_usage = None;
        self.open = false;
        assert(self@.tool_calls =~= Seq::empty());
        assert(seq_view(tool_calls@).len() == tool_calls@.len());
        let text = if tool_calls.len() == 0 {
            Some(output)
        } else {
            None
        };
        ModelResponse { text, tool_calls, thinking: None, token_usage }
    }

    /// Takes in one event; gives the outcome where the event brings one.
    pub fn step(&mut self, event: ChatEvent) -> (res: Option<Result<ModelResponse, Error>>)
        ensures
            final(self)@ == collect_step(old(self)@, event@).0,
            match res {
                Some(outcome) => collect_step(old(self)@, event@).1 == Some(result_view(outcome)),
                None => collect_step(old(self)@, event@).1 is None,
            },
    {
        if !self.open {
            return None;
        }
        match event {
            ChatEvent::Response(response) => {
                self.push(&response);
                if response.done {
                    Some(Ok(self.finish()))
                } else {
                    None
                }
            },
            ChatEvent::Failed(reason) => {
                let _ = self.finish();
                Some(Err(Error::Provider(reason)))
            },
            ChatEvent::Ended => Some(Ok(self.finish())),
        }
    }
}

/// The chunks of one piece of a streamed answer: its tool calls, its text where
/// there is any, and with the last piece the token counts where there are any.
pub open spec fn piece_chunks(response: ChatResponseView) -> Seq<ModelStreamChunkView> {
    let text = if response.message.content.len() == 0 {
        Seq::empty()
    } else {
        seq![ModelStreamChunkView::TextDelta(response.message.content)]
    };
    let usage = match usage_in(response) {
        Some(usage) => if response.done {
            seq![ModelStreamChunkView::Usage(usage)]
        } else {
            Seq::empty()
        },
        None => Seq::empty(),
    };
    call_chunks(calls_of(response.message.tool_calls)) + text + usage
}

/// One step of a streamed answer: whether it is still open after the event, and
/// what it yields.
pub open spec fn stream_step(open: bool, event: ChatEventView) -> (bool, Seq<StreamItem>) {
    if !open {
        (false, Seq::empty())
    } else {
        match event {
            ChatEventView::Response(response) => (!response.done, yielded(piece_chunks(response))),
            ChatEventView::Failed(reason) => (false, seq![Err(ErrorView::Provider(reason))]),
            ChatEventView::Ended => (false, Seq::empty()),
        }
    }
}

/// The chunks of one piece.
fn chunks_of_piece(response: &ChatResponse) -> (res: Vec<Result<ModelStreamChunk, Error>>)
    ensures
        results_view(res@) == yielded(piece_chunks(response@)),
{
    let ghost models = calls_of(seq_view(response.message.tool_calls@));
    let mut items: Vec<Result<ModelStreamChunk, Error>> = Vec::new();
    let mut i: usize = 0;
    while i < response.message.tool_calls.len()
        invariant
            models == calls_of(seq_view(response.message.tool_calls@)),
            i <= response.message.tool_calls@.len(),
            items@.len() == i,
            forall|j: int|
                0 <= j < i ==> result_view(#[trigger] items@[j]) == Ok::<
                    ModelStreamChunkView,
                    ErrorView,
                >(ModelStreamChunkView::ToolCall(models[j])),
        decreases response.message.tool_calls@.len() - i,
    {
        items.push(Ok(ModelStreamChunk::ToolCall(to_tool_call(&response.message.tool_calls[i]))));
        i = i + 1;
    }
    if !response.message.content.as_str().is_empty() {
        items.push(Ok(ModelStreamChunk::TextDelta(response.message.content.clone())));
    }
    if response.done {
        if let Some(usage) = to_token_usage(response) {
            items.push(Ok(ModelStreamChunk::Usage(usage)));
        }
    }
    assert(results_view(items@) =~= yielded(piece_chunks(response@)));
    items
}

/// A streamed answer.
#[derive(Debug, Clone, Copy)]
pub struct OllamaStream {
    /// Whether more can come.
    pub open: bool,
}

impl OllamaStream {
    /// A stream on which nothing has happened yet.
    pub fn new() -> (res: Self)
        ensures
            res.open,
    {
        OllamaStream { open: true }
    }

    /// Takes in one event and says what it yields. After an error, and after the
    /// last piece, nothing more is yielded.
    pub fn step(&mut self, event: ChatEvent) -> (res: Vec<Result<ModelStreamChunk, Error>>)
        ensures
            (final(self).open, results_view(res@)) == stream_step(old(self).open, event@),
    {
        let mut items: Vec<Result<ModelStreamChunk, Error>> = Vec::new();
        assert(results_view(items@) =~= Seq::empty());
        if !self.open {
            return items;
        }
        match event {
            ChatEvent::Response(response) => {
                self.open = !response.done;
                chunks_of_piece(&response)
            },
            ChatEvent::Failed(reason) => {
                self.open = false;
                items.push(Err(Error::Provider(reason)));
                assert(results_view(items@) =~= seq![Err(ErrorView::Provider(reason@))]);
                items
            },
            ChatEvent::Ended => {
                self.open = false;
                items
            },
        }
    }
}

} // verus!
