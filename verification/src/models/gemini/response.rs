//! Reading what Gemini answers.
use crate::error::{Error, ErrorView};
use crate::json::{Value, ValueView};
use crate::model::{
    call_chunks, yield_all, yielded, ModelResponse, ModelResponseView, ModelStreamChunk,
    ModelStreamChunkView, StreamItem, TokenUsage, ToolCall, ToolCallView,
};
use crate::models::gemini::types::{
    Candidate, CandidateView, GenerateContentResponse, GenerateContentResponseView, Part, PartData,
    PartDataView, PartView, UsageMetadata,
};
use crate::views::{lemma_seq_view_push, option_view, result_view, results_view, seq_view};
use vstd::prelude::*;

verus! {

/// The parts of a candidate; none where it has no content.
pub open spec fn parts_of(candidate: CandidateView) -> Seq<PartView> {
    match candidate.content {
        Some(content) => match content.parts {
            Some(parts) => parts,
            None => Seq::empty(),
        },
        None => Seq::empty(),
    }
}

/// The metadata that keeps a thought signature until the call goes back.
pub open spec fn signature_metadata(signature: Option<Seq<char>>) -> Option<ValueView> {
    match signature {
        Some(signature) => Some(
            ValueView::Object(map!["thought_signature"@ => ValueView::String(signature)]),
        ),
        None => None,
    }
}

/// The tool call that a part carries, if it carries one. An identifier that is
/// missing is empty; arguments that are missing are null.
pub open spec fn part_call(part: PartView) -> Option<ToolCallView> {
    match part.data {
        PartDataView::FunctionCall { id, name, args } => Some(
            ToolCallView {
                id: match id {
                    Some(id) => id,
                    None => Seq::empty(),
                },
                name,
                args: match args {
                    Some(args) => args,
                    None => ValueView::Null,
                },
                provider_metadata: signature_metadata(part.thought_signature),
            },
        ),
        _ => None,
    }
}

/// The tool calls in a list of parts, in order.
pub open spec fn calls_in(parts: Seq<PartView>) -> Seq<ToolCallView>
    decreases parts.len(),
{
    if parts.len() == 0 {
        Seq::empty()
    } else {
        let before = calls_in(parts.drop_last());
        match part_call(parts.last()) {
            Some(call) => before.push(call),
            None => before,
        }
    }
}

/// Whether a part is a piece of the model's thinking.
pub open spec fn is_thought(part: PartView) -> bool {
    part.thought == Some(true)
}

/// The text in a list of parts, put together: that of the thinking, or that of
/// the answer.
pub open spec fn text_in(parts: Seq<PartView>, thinking: bool) -> Seq<char>
    decreases parts.len(),
{
    if parts.len() == 0 {
        Seq::empty()
    } else {
        let before = text_in(parts.drop_last(), thinking);
        match parts.last().data {
            PartDataView::Text(text) => if is_thought(parts.last()) == thinking {
                before + text
            } else {
                before
            },
            _ => before,
        }
    }
}

/// A text, or nothing where it is empty.
pub open spec fn unless_empty(text: Seq<char>) -> Option<Seq<char>> {
    if text.len() == 0 {
        None
    } else {
        Some(text)
    }
}

/// The chunks for the texts in a list of parts, one for each text that is not
/// empty.
pub open spec fn text_chunks_in(parts: Seq<PartView>) -> Seq<ModelStreamChunkView>
    decreases parts.len(),
{
    if parts.len() == 0 {
        Seq::empty()
    } else {
        let before = text_chunks_in(parts.drop_last());
        match parts.last().data {
            PartDataView::Text(text) => if text.len() == 0 {
                before
            } else if is_thought(parts.last()) {
                before.push(ModelStreamChunkView::Thinking(text))
            } else {
                before.push(ModelStreamChunkView::TextDelta(text))
            },
            _ => before,
        }
    }
}

/// The chunks of a candidate: its texts, then its tool calls.
pub open spec fn candidate_chunks(candidate: CandidateView) -> Seq<ModelStreamChunkView> {
    text_chunks_in(parts_of(candidate)) + call_chunks(calls_in(parts_of(candidate)))
}

/// Gemini's token counts in the library's terms.
pub open spec fn usage_of(meta: UsageMetadata) -> TokenUsage {
    TokenUsage {
        input_tokens: meta.prompt_token_count,
        output_tokens: meta.candidates_token_count,
        cached_input_tokens: meta.cached_content_token_count,
        thinking_tokens: meta.thoughts_token_count,
        tool_use_prompt_tokens: meta.tool_use_prompt_token_count,
    }
}

impl From<&UsageMetadata> for TokenUsage {
    /// Takes over the totals; breakdowns by modality stay behind.
    fn from(meta: &UsageMetadata) -> (res: TokenUsage) {
        TokenUsage {
            input_tokens: meta.prompt_token_count,
            output_tokens: meta.candidates_token_count,
            cached_input_tokens: meta.cached_content_token_count,
            thinking_tokens: meta.thoughts_token_count,
            tool_use_prompt_tokens: meta.tool_use_prompt_token_count,
        }
    }
}

impl vstd::std_specs::convert::FromSpecImpl<&UsageMetadata> for TokenUsage {
    open spec fn obeys_from_spec() -> bool {
        true
    }

    open spec fn from_spec(meta: &UsageMetadata) -> TokenUsage {
        usage_of(*meta)
    }
}

/// What a whole response says.
///
/// Only the first candidate counts; a response without candidates is an error.
/// Where the model calls tools, its text is left out.
pub open spec fn response_of(response: GenerateContentResponseView) -> Result<
    ModelResponseView,
    ErrorView,
> {
    if response.candidates.len() == 0 {
        Err(ErrorView::Provider("empty candidates in Gemini response"@))
    } else {
        let parts = parts_of(response.candidates[0]);
        Ok(
            ModelResponseView {
                text: if calls_in(parts).len() == 0 {
                    unless_empty(text_in(parts, false))
                } else {
                    None
                },
                tool_calls: calls_in(parts),
                thinking: unless_empty(text_in(parts, true)),
                token_usage: match response.usage_metadata {
                    Some(meta) => Some(usage_of(meta)),
                    None => None,
                },
            },
        )
    }
}

/// Reads the tool call that `part` carries.
fn read_call(part: &Part) -> (res: Option<ToolCall>)
    ensures
        option_view(res) == part_call(part@),
{
    match &part.data {
        PartData::FunctionCall { id, name, args } => {
            let provider_metadata = match &part.thought_signature {
                Some(signature) => Some(
                    Value::singleton("thought_signature".to_owned(), Value::String(signature.clone())),
                ),
                None => None,
            };
            let id = match id {
                Some(id) => id.clone(),
                None => String::new(),
            };
            let args = match args {
                Some(args) => args.clone(),
                None => Value::Null,
            };
            Some(ToolCall { id, name: name.clone(), args, provider_metadata })
        },
        _ => None,
    }
}

/// The parts of `candidate`, if it has any.
fn candidate_parts(candidate: &Candidate) -> (res: Option<&Vec<Part>>)
    ensures
        match res {
            Some(parts) => parts_of(candidate@) == seq_view(parts@),
            None => parts_of(candidate@) == Seq::<PartView>::empty(),
        },
{
    match &candidate.content {
        Some(content) => match &content.parts {
            Some(parts) => Some(parts),
            None => None,
        },
        None => None,
    }
}

/// Reads the tool calls of `candidate`, in order.
pub fn tool_calls_of(candidate: &Candidate) -> (res: Vec<ToolCall>)
    ensures
        seq_view(res@) == calls_in(parts_of(candidate@)),
{
    broadcast use lemma_seq_view_push;

    let mut calls: Vec<ToolCall> = Vec::new();
    assert(seq_view(calls@) =~= Seq::empty());
    if let Some(parts) = candidate_parts(candidate) {
        let ghost all = seq_view(parts@);
        let mut i: usize = 0;
        while i < parts.len()
            invariant
                i <= parts@.len(),
                all == seq_view(parts@),
                seq_view(calls@) == calls_in(all.take(i as int)),
            decreases parts@.len() - i,
        {
            broadcast use lemma_seq_view_push;

            assert(all.take(i + 1).drop_last() =~= all.take(i as int));
            assert(all.take(i + 1).last() == parts@[i as int]@);
            if let Some(call) = read_call(&parts[i]) {
                calls.push(call);
            }
            i = i + 1;
        }
        assert(all.take(i as int) =~= all);
    }
    calls
}

/// Splits a candidate's parts into thinking text and regular text.
///
/// The texts of the parts that are marked as thought are put together, and so are
/// those of the others; a text that comes out empty is `None`.
pub fn extract_text_and_thinking(candidate: &Candidate) -> (res: (Option<String>, Option<String>))
    ensures
        option_view(res.0) == unless_empty(text_in(parts_of(candidate@), true)),
        option_view(res.1) == unless_empty(text_in(parts_of(candidate@), false)),
{
    let mut thinking: String = String::new();
    let mut text: String = String::new();
    if let Some(parts) = candidate_parts(candidate) {
        let ghost all = seq_view(parts@);
        let mut i: usize = 0;
        while i < parts.len()
            invariant
                i <= parts@.len(),
                all == seq_view(parts@),
                thinking@ == text_in(all.take(i as int), true),
                text@ == text_in(all.take(i as int), false),
            decreases parts@.len() - i,
        {
            assert(all.take(i + 1).drop_last() =~= all.take(i as int));
            assert(all.take(i + 1).last() == parts@[i as int]@);
            if let PartData::Text(piece) = &parts[i].data {
                match parts[i].thought {
                    Some(true) => thinking.append(piece.as_str()),
                    _ => text.append(piece.as_str()),
                }
            }
            i = i + 1;
        }
        assert(all.take(i as int) =~= all);
    }
    let thinking = if thinking.as_str().is_empty() {
        None
    } else {
        Some(thinking)
    };
    let text = if text.as_str().is_empty() {
        None
    } else {
        Some(text)
    };
    (thinking, text)
}

/// The chunks for the texts of `candidate`, one for each text that is not empty.
fn text_chunks_of(candidate: &Candidate) -> (res: Vec<ModelStreamChunk>)
    ensures
        seq_view(res@) == text_chunks_in(parts_of(candidate@)),
{
    broadcast use lemma_seq_view_push;

    let mut chunks: Vec<ModelStreamChunk> = Vec::new();
    assert(seq_view(chunks@) =~= Seq::empty());
    if let Some(parts) = candidate_parts(candidate) {
        let ghost all = seq_view(parts@);
        let mut i: usize = 0;
        while i < parts.len()
            invariant
                i <= parts@.len(),
                all == seq_view(parts@),
                seq_view(chunks@) == text_chunks_in(all.take(i as int)),
            decreases parts@.len() - i,
        {
            broadcast use lemma_seq_view_push;

            assert(all.take(i + 1).drop_last() =~= all.take(i as int));
            assert(all.take(i + 1).last() == parts@[i as int]@);
            if let PartData::Text(text) = &parts[i].data {
                if !text.as_str().is_empty() {
                    match parts[i].thought {
                        Some(true) => chunks.push(ModelStreamChunk::Thinking(text.clone())),
                        _ => chunks.push(ModelStreamChunk::TextDelta(text.clone())),
                    }
                }
            }
            i = i + 1;
        }
        assert(all.take(i as int) =~= all);
    }
    chunks
}

/// Converts a single streamed candidate into chunks.
///
/// There is one chunk for each part: thinking, text, or a tool call with its
/// thought signature kept in the metadata. Empty texts and other kinds of parts
/// are skipped. The texts come before the tool calls, so that whoever decides on a
/// call has read what the model says about it.
pub fn stream_chunks_from_candidate(candidate: &Candidate) -> (res: Vec<ModelStreamChunk>)
    ensures
        seq_view(res@) == candidate_chunks(candidate@),
{
    let mut chunks = text_chunks_of(candidate);
    let calls = tool_calls_of(candidate);
    let ghost head = seq_view(chunks@);
    let ghost all = calls@;
    let ghost models = seq_view(calls@);
    assert(head =~= head + call_chunks(models.take(0)));
    for call in iter: calls
        invariant
            iter.seq() == all,
            models == seq_view(all),
            seq_view(chunks@) == head + call_chunks(models.take(iter.index())),
    {
        let ghost i = iter.index();
        let ghost before = chunks@;
        chunks.push(ModelStreamChunk::ToolCall(call));
        proof {
            lemma_seq_view_push(before, chunks@.last());
            assert(seq_view(chunks@) =~= head + call_chunks(models.take(i + 1)));
        }
    }
    assert(models.take(all.len() as int) =~= models);
    chunks
}

/// Reads a whole response.
pub fn read_response(response: &GenerateContentResponse) -> (res: Result<ModelResponse, Error>)
    ensures
        result_view(res) == response_of(response@),
{
    if response.candidates.len() == 0 {
        return Err(Error::Provider("empty candidates in Gemini response".to_owned()));
    }
    let candidate = &response.candidates[0];
    let tool_calls = tool_calls_of(candidate);
    let (thinking, text) = extract_text_and_thinking(candidate);
    let token_usage = match &response.usage_metadata {
        Some(meta) => Some(TokenUsage::from(meta)),
        None => None,
    };
    assert(seq_view(tool_calls@).len() == tool_calls@.len());
    let text = if tool_calls.len() == 0 {
        text
    } else {
        None
    };
    Ok(ModelResponse { text, tool_calls, thinking, token_usage })
}

/// What a call to the API came to: what the response says, or else the reason why
/// there is none, as an error of the provider.
pub open spec fn outcome_of(outcome: Result<GenerateContentResponseView, Seq<char>>) -> Result<
    ModelResponseView,
    ErrorView,
> {
    match outcome {
        Ok(response) => response_of(response),
        Err(reason) => Err(ErrorView::Provider(reason)),
    }
}

/// Reads what a call to the API came to.
pub fn read_outcome(outcome: Result<GenerateContentResponse, String>) -> (res: Result<
    ModelResponse,
    Error,
>)
    ensures
        result_view(res) == outcome_of(result_view(outcome)),
{
    match outcome {
        Ok(response) => read_response(&response),
        Err(reason) => Err(Error::Provider(reason)),
    }
}

/// Something that happens on a streamed response.
pub enum StreamEvent {
    /// The next response came in.
    Response(GenerateContentResponse),
    /// The stream broke, for the reason given.
    Failed(String),
    /// The stream came to its end.
    Ended,
}

/// The model of a [`StreamEvent`].
#[verifier::ext_equal]
pub ghost enum StreamEventView {
    Response(GenerateContentResponseView),
    Failed(Seq<char>),
    Ended,
}

impl View for StreamEvent {
    type V = StreamEventView;

    open spec fn view(&self) -> StreamEventView {
        match self {
            StreamEvent::Response(response) => StreamEventView::Response(response@),
            StreamEvent::Failed(reason) => StreamEventView::Failed(reason@),
            StreamEvent::Ended => StreamEventView::Ended,
        }
    }
}

/// Where a streamed response stands.
///
/// Gemini reports token counts cumulatively with every event; the latest are kept
/// and handed on once, at the end.
#[derive(Debug, Clone, Copy)]
pub struct GeminiStream {
    pub latest_usage: Option<UsageMetadata>,
    /// Whether more can come.
    pub open: bool,
}

impl View for GeminiStream {
    type V = GeminiStream;

    open spec fn view(&self) -> GeminiStream {
        *self
    }
}

/// The chunks of one event: those of its first candidate.
pub open spec fn event_chunks(response: GenerateContentResponseView) -> Seq<ModelStreamChunkView> {
    if response.candidates.len() == 0 {
        Seq::empty()
    } else {
        candidate_chunks(response.candidates[0])
    }
}

/// The chunk for the token counts, where there are any.
pub open spec fn usage_chunks(usage: Option<UsageMetadata>) -> Seq<ModelStreamChunkView> {
    match usage {
        Some(meta) => seq![ModelStreamChunkView::Usage(usage_of(meta))],
        None => Seq::empty(),
    }
}

/// One step of a stream: the state after the event, and what it yields.
pub open spec fn stream_step(state: GeminiStream, event: StreamEventView) -> (
    GeminiStream,
    Seq<StreamItem>,
) {
    if !state.open {
        (state, Seq::empty())
    } else {
        match event {
            StreamEventView::Response(response) => (
                GeminiStream {
                    latest_usage: match response.usage_metadata {
                        Some(meta) => Some(meta),
                        None => state.latest_usage,
                    },
                    open: true,
                },
                yielded(event_chunks(response)),
            ),
            StreamEventView::Failed(reason) => (
                GeminiStream { open: false, ..state },
                seq![Err(ErrorView::Provider(reason))],
            ),
            StreamEventView::Ended => (
                GeminiStream { open: false, ..state },
                yielded(usage_chunks(state.latest_usage)),
            ),
        }
    }
}

impl GeminiStream {
    /// A stream on which nothing has happened yet.
    pub fn new() -> (res: Self)
        ensures
            res == (GeminiStream { latest_usage: None, open: true }),
    {
        GeminiStream { latest_usage: None, open: true }
    }

    /// Takes in one event and says what it yields.
    ///
    /// After an error, and after the end, nothing more is yielded.
    pub fn step(&mut self, event: StreamEvent) -> (res: Vec<Result<ModelStreamChunk, Error>>)
        ensures
            (*final(self), results_view(res@)) == stream_step(*old(self), event@),
    {
        if !self.open {
            let none: Vec<Result<ModelStreamChunk, Error>> = Vec::new();
            assert(results_view(none@) =~= Seq::empty());
            return none;
        }
        match event {
            StreamEvent::Response(response) => {
                if let Some(meta) = response.usage_metadata {
                    self.latest_usage = Some(meta);
                }
                if response.candidates.len() == 0 {
                    let none: Vec<Result<ModelStreamChunk, Error>> = Vec::new();
                    assert(results_view(none@) =~= yielded(Seq::empty()));
                    none
                } else {
                    yield_all(stream_chunks_from_candidate(&response.candidates[0]))
                }
            },
            StreamEvent::Failed(reason) => {
                self.open = false;
                let mut items: Vec<Result<ModelStreamChunk, Error>> = Vec::new();
                items.push(Err(Error::Provider(reason)));
                assert(results_view(items@) =~= seq![Err(ErrorView::Provider(reason@))]);
                items
            },
            StreamEvent::Ended => {
                self.open = false;
                let mut chunks: Vec<ModelStreamChunk> = Vec::new();
                if let Some(meta) = &self.latest_usage {
                    chunks.push(ModelStreamChunk::Usage(TokenUsage::from(meta)));
                }
                assert(seq_view(chunks@) =~= usage_chunks(self.latest_usage));
                yield_all(chunks)
            },
        }
    }
}

} // verus!
