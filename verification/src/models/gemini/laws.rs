//! What holds of the adapter as a whole.
use crate::error::ErrorView;
use crate::json::ValueView;
use crate::model::{
    call_chunks, calls_in_chunks, lemma_projections_append, lemma_projections_of_calls,
    no_usage, text_in_chunks, thinking_in_chunks, usage_only_last, yielded, MessageContentView,
    MessageView, ModelRequestView, ModelResponseView, ModelStreamChunkView, Role as AgentRole,
    StreamItem, TokenUsage, ToolCallView,
};
use crate::models::gemini::request::{
    call_part, gemini_request, has_finite_schema, object_response, result_part,
};
use crate::models::gemini::response::{
    calls_in, event_chunks, outcome_of, part_call, parts_of, response_of, stream_step,
    text_chunks_in, text_in,
    unless_empty, usage_chunks, GeminiStream, StreamEventView,
};
use crate::models::gemini::schema::{can_normalise, normalised};
use crate::models::gemini::types::{
    ContentView, GenerateContentResponseView, GenerationConfigView, PartDataView, PartView, Role,
    UsageMetadata,
};
use vstd::prelude::*;

verus! {

/// A tool call comes back to the model as the model issued it: with its name, with
/// its identifier and arguments where it had them, and with its thought signature,
/// both on the call that is played back and on its result.
pub proof fn law_call_round_trip(part: PartView, result: ValueView)
    requires
        part.data is FunctionCall,
    ensures
        part_call(part) matches Some(call) && {
            &&& call_part(call).thought_signature == part.thought_signature
            &&& result_part(call, result).thought_signature == part.thought_signature
            &&& call_part(call).data->FunctionCall_name == part.data->FunctionCall_name
            &&& part.data->FunctionCall_id is Some ==> call_part(call).data->FunctionCall_id
                == part.data->FunctionCall_id
            &&& part.data->FunctionCall_args is Some ==> call_part(call).data->FunctionCall_args
                == part.data->FunctionCall_args
            &&& result_part(call, result).data->FunctionResponse_0.id
                == call_part(call).data->FunctionCall_id
            &&& result_part(call, result).data->FunctionResponse_0.name
                == part.data->FunctionCall_name
        },
{
}

/// A tool result reaches Gemini as an object, and an object reaches it unchanged.
pub proof fn law_response_is_object(result: ValueView)
    ensures
        object_response(result) is Object,
        result is Object ==> object_response(result) == result,
        object_response(object_response(result)) == object_response(result),
{
}

/// A response carries text or tool calls, never both.
pub proof fn law_text_or_calls(response: GenerateContentResponseView)
    ensures
        response_of(response) matches Ok(read) ==> read.tool_calls.len() == 0 || read.text is None,
{
}

/// The texts of the chunks are the texts of the parts.
proof fn lemma_text_chunks(parts: Seq<PartView>)
    ensures
        text_in_chunks(text_chunks_in(parts)) == text_in(parts, false),
        thinking_in_chunks(text_chunks_in(parts)) == text_in(parts, true),
        calls_in_chunks(text_chunks_in(parts)).len() == 0,
    decreases parts.len(),
{
    if parts.len() > 0 {
        lemma_text_chunks(parts.drop_last());
        let before = text_chunks_in(parts.drop_last());
        let whole = text_chunks_in(parts);
        if whole != before {
            assert(whole.drop_last() =~= before);
        } else if let PartDataView::Text(text) = parts.last().data {
            if text.len() == 0 {
                assert(text_in(parts.drop_last(), false) + text =~= text_in(
                    parts.drop_last(),
                    false,
                ));
                assert(text_in(parts.drop_last(), true) + text =~= text_in(
                    parts.drop_last(),
                    true,
                ));
            } else {
                assert(whole.len() == before.len() + 1);
            }
        }
    }
}

/// Streaming an answer that comes in one event gives the same as reading it whole:
/// the thinking, the tool calls, and, where there are no tool calls, the text.
pub proof fn law_stream_agrees_with_whole(response: GenerateContentResponseView)
    requires
        response.candidates.len() > 0,
    ensures
        response_of(response) matches Ok(read) && {
            let chunks = event_chunks(response);
            &&& read.thinking == unless_empty(thinking_in_chunks(chunks))
            &&& read.tool_calls == calls_in_chunks(chunks)
            &&& read.tool_calls.len() == 0 ==> read.text == unless_empty(text_in_chunks(chunks))
        },
{
    let parts = parts_of(response.candidates[0]);
    let calls = crate::models::gemini::response::calls_in(parts);
    lemma_text_chunks(parts);
    lemma_projections_of_calls(calls);
    lemma_projections_append(text_chunks_in(parts), call_chunks(calls));
    assert(text_in(parts, false) + Seq::<char>::empty() =~= text_in(parts, false));
    assert(text_in(parts, true) + Seq::<char>::empty() =~= text_in(parts, true));
    assert(calls_in_chunks(text_chunks_in(parts)) + calls =~= calls);
}

/// What a stream yields over a run of events.
pub open spec fn stream_run(state: GeminiStream, events: Seq<StreamEventView>) -> (
    GeminiStream,
    Seq<StreamItem>,
)
    decreases events.len(),
{
    if events.len() == 0 {
        (state, Seq::empty())
    } else {
        let (before, items) = stream_run(state, events.drop_last());
        let (after, more) = stream_step(before, events.last());
        (after, items + more)
    }
}

/// The events for a list of responses.
pub open spec fn response_events(responses: Seq<GenerateContentResponseView>) -> Seq<StreamEventView> {
    Seq::new(responses.len(), |i: int| StreamEventView::Response(responses[i]))
}

/// The chunks of a list of responses, one after the other.
pub open spec fn all_chunks(responses: Seq<GenerateContentResponseView>) -> Seq<ModelStreamChunkView>
    decreases responses.len(),
{
    if responses.len() == 0 {
        Seq::empty()
    } else {
        all_chunks(responses.drop_last()) + event_chunks(responses.last())
    }
}

/// The token counts that were reported last.
pub open spec fn last_usage(responses: Seq<GenerateContentResponseView>) -> Option<UsageMetadata>
    decreases responses.len(),
{
    if responses.len() == 0 {
        None
    } else {
        match responses.last().usage_metadata {
            Some(meta) => Some(meta),
            None => last_usage(responses.drop_last()),
        }
    }
}

/// A fresh stream.
pub open spec fn fresh_stream() -> GeminiStream {
    GeminiStream { latest_usage: None, open: true }
}

/// As long as responses come in, their chunks are yielded in order.
pub proof fn law_stream_of_responses(responses: Seq<GenerateContentResponseView>)
    ensures
        stream_run(fresh_stream(), response_events(responses)) == (
            GeminiStream { latest_usage: last_usage(responses), open: true },
            yielded(all_chunks(responses)),
        ),
    decreases responses.len(),
{
    let events = response_events(responses);
    if responses.len() == 0 {
        assert(yielded(all_chunks(responses)) =~= Seq::empty());
    } else {
        law_stream_of_responses(responses.drop_last());
        assert(events.drop_last() =~= response_events(responses.drop_last()));
        assert(yielded(all_chunks(responses.drop_last())) + yielded(event_chunks(responses.last()))
            =~= yielded(all_chunks(responses)));
    }
}

/// A stream that comes to its end has yielded the chunks of all responses in
/// order and, last, the token counts that were reported last, once, if any were
/// reported.
pub proof fn law_complete_stream(responses: Seq<GenerateContentResponseView>)
    ensures
        stream_run(fresh_stream(), response_events(responses).push(StreamEventView::Ended)).1
            == yielded(all_chunks(responses) + usage_chunks(last_usage(responses))),
{
    law_stream_of_responses(responses);
    let events = response_events(responses).push(StreamEventView::Ended);
    assert(events.drop_last() =~= response_events(responses));
    assert(yielded(all_chunks(responses)) + yielded(usage_chunks(last_usage(responses)))
        =~= yielded(all_chunks(responses) + usage_chunks(last_usage(responses))));
}

/// A stream that breaks has yielded the chunks of the responses so far and, last,
/// the error: no token counts.
pub proof fn law_broken_stream(responses: Seq<GenerateContentResponseView>, reason: Seq<char>)
    ensures
        stream_run(fresh_stream(), response_events(responses).push(StreamEventView::Failed(reason))).1
            == yielded(all_chunks(responses)).push(Err(ErrorView::Provider(reason))),
{
    law_stream_of_responses(responses);
    let events = response_events(responses).push(StreamEventView::Failed(reason));
    assert(events.drop_last() =~= response_events(responses));
    assert(yielded(all_chunks(responses)) + seq![Err(ErrorView::Provider(reason))] =~= yielded(
        all_chunks(responses),
    ).push(Err(ErrorView::Provider(reason))));
}

/// Once a stream has ended or broken, nothing more comes of it.
pub proof fn law_closed_stream_is_silent(state: GeminiStream, events: Seq<StreamEventView>)
    requires
        !state.open,
    ensures
        stream_run(state, events) == (state, Seq::<StreamItem>::empty()),
    decreases events.len(),
{
    if events.len() > 0 {
        law_closed_stream_is_silent(state, events.drop_last());
        assert(Seq::<StreamItem>::empty() + Seq::<StreamItem>::empty() =~= Seq::empty());
    }
}

/// The texts of a candidate bring no token counts.
proof fn lemma_text_chunks_no_usage(parts: Seq<PartView>)
    ensures
        no_usage(text_chunks_in(parts)),
    decreases parts.len(),
{
    if parts.len() > 0 {
        lemma_text_chunks_no_usage(parts.drop_last());
    }
}

/// Responses bring no token counts among their chunks.
proof fn lemma_all_chunks_no_usage(responses: Seq<GenerateContentResponseView>)
    ensures
        no_usage(all_chunks(responses)),
    decreases responses.len(),
{
    if responses.len() > 0 {
        lemma_all_chunks_no_usage(responses.drop_last());
        let last = responses.last();
        if last.candidates.len() > 0 {
            lemma_text_chunks_no_usage(parts_of(last.candidates[0]));
        }
    }
}

/// A stream reports token counts once at most, and last.
pub proof fn law_usage_is_last(responses: Seq<GenerateContentResponseView>)
    ensures
        usage_only_last(all_chunks(responses) + usage_chunks(last_usage(responses))),
{
    lemma_all_chunks_no_usage(responses);
    let chunks = all_chunks(responses) + usage_chunks(last_usage(responses));
    if last_usage(responses) is None {
        assert(no_usage(chunks));
    } else {
        assert(no_usage(chunks.drop_last()));
    }
}

/// A request offers exactly its tools. Without any nothing is offered; otherwise there is
/// one entry with as many declarations as there are tools, and the i-th declaration has
/// the name, the description and, as JSON Schema, the parameters of the i-th tool.
pub proof fn law_every_tool_is_declared(
    config: Option<GenerationConfigView>,
    request: ModelRequestView,
)
    ensures
        gemini_request(config, request).tools is None <==> request.tools.len() == 0,
        gemini_request(config, request).tools matches Some(offered) ==> {
            &&& offered.len() == 1
            &&& offered[0].function_declarations is Some
            &&& offered[0].function_declarations->0.len() == request.tools.len()
            &&& forall|i: int|
                0 <= i < request.tools.len() ==> {
                    let tool = #[trigger] request.tools[i];
                    let declared = offered[0].function_declarations->0[i];
                    &&& declared.name == tool.name
                    &&& declared.description == tool.description
                    &&& declared.parameters_json_schema == Some(tool.parameters)
                    &&& declared.parameters is None
                    &&& declared.response is None
                    &&& declared.response_json_schema is None
                }
        },
{
}

/// `part` carries the thought signature that stands in the metadata of `call`, and none
/// if none stands there.
pub open spec fn carries_signature(part: PartView, call: ToolCallView) -> bool {
    if call.provider_metadata is Some && call.provider_metadata->0 is Object
        && call.provider_metadata->0->Object_0.dom().contains("thought_signature"@)
        && call.provider_metadata->0->Object_0["thought_signature"@] is String {
        part.thought_signature == Some(
            call.provider_metadata->0->Object_0["thought_signature"@]->String_0,
        )
    } else {
        part.thought_signature is None
    }
}

/// `content` says what `message` says: a text in the voice of whoever spoke it, every
/// call of the model by its identifier, name and arguments, and a result in the user's
/// voice under the identifier and name of its call, as the object that it is or under
/// `output`.
pub open spec fn says(content: ContentView, message: MessageView) -> bool {
    &&& content.parts is Some
    &&& match message.content {
        MessageContentView::Text(text) => {
            &&& message.role == AgentRole::User ==> content.role == Some(Role::User)
            &&& message.role == AgentRole::Assistant ==> content.role == Some(Role::Model)
            &&& content.parts->0.len() == 1
            &&& content.parts->0[0].data == PartDataView::Text(text)
            &&& content.parts->0[0].thought is None
            &&& content.parts->0[0].thought_signature is None
        },
        MessageContentView::ToolCalls(calls) => {
            &&& content.role == Some(Role::Model)
            &&& content.parts->0.len() == calls.len()
            &&& forall|i: int|
                0 <= i < calls.len() ==> {
                    let part = #[trigger] content.parts->0[i];
                    &&& part.data == PartDataView::FunctionCall {
                        id: Some(calls[i].id),
                        name: calls[i].name,
                        args: Some(calls[i].args),
                    }
                    &&& part.thought is None
                    &&& carries_signature(part, calls[i])
                }
        },
        MessageContentView::ToolResult { tool_call, result } => {
            &&& content.role == Some(Role::User)
            &&& content.parts->0.len() == 1
            &&& content.parts->0[0].data matches PartDataView::FunctionResponse(answer)
            &&& answer.id == Some(tool_call.id)
            &&& answer.name == tool_call.name
            &&& result is Object ==> answer.response == result
            &&& !(result is Object) ==> answer.response is Object
                && answer.response->Object_0.dom() == set!["output"@]
                && answer.response->Object_0["output"@] == result
            &&& content.parts->0[0].thought is None
            &&& carries_signature(content.parts->0[0], tool_call)
        },
    }
}

/// The whole conversation is written: one turn for each message, in order, that says
/// what the message says. The system instructions stand apart, as one text.
pub proof fn law_conversation_is_written(
    config: Option<GenerationConfigView>,
    request: ModelRequestView,
)
    ensures
        gemini_request(config, request).contents.len() == request.messages.len(),
        forall|i: int|
            0 <= i < request.messages.len() ==> says(
                #[trigger] gemini_request(config, request).contents[i],
                request.messages[i],
            ),
        request.system is None ==> gemini_request(config, request).system_instruction is None,
        request.system matches Some(system) ==> {
            &&& gemini_request(config, request).system_instruction matches Some(content)
            &&& content.role is None
            &&& content.parts matches Some(parts)
            &&& parts.len() == 1
            &&& parts[0].data == PartDataView::Text(system)
            &&& parts[0].thought is None
            &&& parts[0].thought_signature is None
        },
{
    assert forall|i: int| 0 <= i < request.messages.len() implies says(
        #[trigger] gemini_request(config, request).contents[i],
        request.messages[i],
    ) by {
        let message = request.messages[i];
        if let MessageContentView::ToolResult { tool_call, result } = message.content {
            assert(map!["output"@ => result].dom() =~= set!["output"@]);
        }
    }
}

/// Without a schema the model's settings are in force as they are. With one the answer
/// is JSON after the self-contained form of that schema, thinking stays as the settings
/// have it, and nothing else is set.
pub proof fn law_settings_in_force(config: Option<GenerationConfigView>, request: ModelRequestView)
    ensures
        request.output_schema is None ==> gemini_request(config, request).generation_config
            == config,
        request.output_schema matches Some(schema) ==> {
            &&& gemini_request(config, request).generation_config matches Some(settings)
            &&& settings.response_mime_type == Some("application/json"@)
            &&& settings.response_schema == Some(normalised(schema))
            &&& config matches Some(before) ==> settings.thinking_config == before.thinking_config
            &&& config is None ==> settings.thinking_config is None
            &&& settings.temperature_bits is None
            &&& settings.top_p_bits is None
            &&& settings.top_k is None
            &&& settings.max_output_tokens is None
            &&& settings.stop_sequences is None
        },
{
}

/// The parts that call a function, in order.
pub open spec fn calling_parts(parts: Seq<PartView>) -> Seq<PartView> {
    parts.filter(|part: PartView| part.data is FunctionCall)
}

/// The parts with a text that is a thought, or with one that is none, in order.
pub open spec fn speaking_parts(parts: Seq<PartView>, thinking: bool) -> Seq<PartView> {
    parts.filter(
        |part: PartView| part.data is Text && (part.thought == Some(true) <==> thinking),
    )
}

/// The parts with a text that is not empty, in order.
pub open spec fn spoken_parts(parts: Seq<PartView>) -> Seq<PartView> {
    parts.filter(|part: PartView| part.data is Text && part.data->Text_0.len() > 0)
}

/// The texts of parts, one after the other.
pub open spec fn joined(parts: Seq<PartView>) -> Seq<char> {
    parts.map_values(|part: PartView| part.data->Text_0).flatten()
}

/// One more part adds its text.
proof fn lemma_joined_push(parts: Seq<PartView>, part: PartView)
    ensures
        joined(parts.push(part)) == joined(parts) + part.data->Text_0,
{
    let texts = parts.map_values(|part: PartView| part.data->Text_0);
    let all = parts.push(part).map_values(|part: PartView| part.data->Text_0);
    texts.lemma_flatten_and_flatten_alt_are_equivalent();
    all.lemma_flatten_and_flatten_alt_are_equivalent();
    assert(all.drop_last() =~= texts);
}

/// `call` is what the function call in `part` asks for: its name, its identifier and
/// arguments, empty and null where they are missing, and its thought signature in the
/// metadata, under `thought_signature` and with nothing beside it.
pub open spec fn calls_for(part: PartView, call: ToolCallView) -> bool {
    &&& call.name == part.data->FunctionCall_name
    &&& part.data->FunctionCall_id matches Some(id) ==> call.id == id
    &&& part.data->FunctionCall_id is None ==> call.id.len() == 0
    &&& part.data->FunctionCall_args matches Some(args) ==> call.args == args
    &&& part.data->FunctionCall_args is None ==> call.args == ValueView::Null
    &&& part.thought_signature is None ==> call.provider_metadata is None
    &&& part.thought_signature matches Some(signature) ==> {
        &&& call.provider_metadata is Some
        &&& call.provider_metadata->0 is Object
        &&& call.provider_metadata->0->Object_0.dom() == set!["thought_signature"@]
        &&& call.provider_metadata->0->Object_0["thought_signature"@] == ValueView::String(signature)
    }
}

/// What is read out of parts.
proof fn lemma_parts_are_read(parts: Seq<PartView>)
    ensures
        calls_in(parts).len() == calling_parts(parts).len(),
        forall|i: int|
            0 <= i < calls_in(parts).len() ==> calls_for(
                calling_parts(parts)[i],
                #[trigger] calls_in(parts)[i],
            ),
        text_in(parts, true) == joined(speaking_parts(parts, true)),
        text_in(parts, false) == joined(speaking_parts(parts, false)),
        text_chunks_in(parts).len() == spoken_parts(parts).len(),
        forall|i: int|
            0 <= i < text_chunks_in(parts).len() ==> (#[trigger] text_chunks_in(parts)[i]) == (
            if spoken_parts(parts)[i].thought == Some(true) {
                ModelStreamChunkView::Thinking(spoken_parts(parts)[i].data->Text_0)
            } else {
                ModelStreamChunkView::TextDelta(spoken_parts(parts)[i].data->Text_0)
            }),
    decreases parts.len(),
{
    reveal(Seq::filter);
    if parts.len() == 0 {
        assert(Seq::<PartView>::empty().map_values(|part: PartView| part.data->Text_0) =~= Seq::empty());
        assert(parts =~= Seq::empty());
        assert(joined(Seq::<PartView>::empty()) =~= Seq::empty());
    } else {
        lemma_parts_are_read(parts.drop_last());
        lemma_joined_push(speaking_parts(parts.drop_last(), true), parts.last());
        lemma_joined_push(speaking_parts(parts.drop_last(), false), parts.last());
        if let PartDataView::FunctionCall { id, name, args } = parts.last().data {
            if let Some(signature) = parts.last().thought_signature {
                assert(map!["thought_signature"@ => ValueView::String(signature)].dom()
                    =~= set!["thought_signature"@]);
            }
            assert(calls_for(parts.last(), part_call(parts.last())->0));
        }
    }
}

/// The parts of the first candidate, if there are any.
pub open spec fn first_parts(response: GenerateContentResponseView) -> Seq<PartView> {
    if response.candidates.len() > 0 && response.candidates[0].content is Some
        && response.candidates[0].content->0.parts is Some {
        response.candidates[0].content->0.parts->0
    } else {
        Seq::empty()
    }
}

/// A streamed event yields a chunk for every text of its first candidate that is not
/// empty, thinking or answer as the part is marked, and then every call, in order; and
/// nothing else.
pub proof fn law_event_is_streamed_whole(response: GenerateContentResponseView)
    ensures
        ({
            let chunks = event_chunks(response);
            let spoken = spoken_parts(first_parts(response));
            let calling = calling_parts(first_parts(response));
            &&& chunks.len() == spoken.len() + calling.len()
            &&& forall|i: int|
                0 <= i < spoken.len() ==> chunks[i] == (if (#[trigger] spoken[i]).thought == Some(
                    true,
                ) {
                    ModelStreamChunkView::Thinking(spoken[i].data->Text_0)
                } else {
                    ModelStreamChunkView::TextDelta(spoken[i].data->Text_0)
                })
            &&& forall|i: int|
                0 <= i < calling.len() ==> chunks[spoken.len() + i] is ToolCall && calls_for(
                    #[trigger] calling[i],
                    chunks[spoken.len() + i]->ToolCall_0,
                )
        }),
{
    reveal(Seq::filter);
    let parts = first_parts(response);
    lemma_parts_are_read(parts);
    if response.candidates.len() > 0 {
        assert(parts_of(response.candidates[0]) =~= parts);
        let chunks = event_chunks(response);
        let spoken = spoken_parts(parts);
        assert forall|i: int| 0 <= i < spoken.len() implies chunks[i] == (if (
        #[trigger] spoken[i]).thought == Some(true) {
            ModelStreamChunkView::Thinking(spoken[i].data->Text_0)
        } else {
            ModelStreamChunkView::TextDelta(spoken[i].data->Text_0)
        }) by {
            assert(chunks[i] == text_chunks_in(parts)[i]);
        }
        assert forall|i: int| 0 <= i < calling_parts(parts).len() implies chunks[spoken.len() + i] is ToolCall
            && calls_for(
            #[trigger] calling_parts(parts)[i],
            chunks[spoken.len() + i]->ToolCall_0,
        ) by {
            assert(chunks[spoken.len() + i] == ModelStreamChunkView::ToolCall(calls_in(parts)[i]));
        }
    }
}

/// A whole response holds every call of its first candidate, in order; all its thinking;
/// all its text where it calls nothing; and the token counts. A text that is empty is
/// left out. It is an error if, and only if, there is no candidate.
pub proof fn law_response_is_read_whole(response: GenerateContentResponseView)
    ensures
        response.candidates.len() == 0 ==> response_of(response) == Err::<
            ModelResponseView,
            ErrorView,
        >(ErrorView::Provider("empty candidates in Gemini response"@)),
        response.candidates.len() > 0 ==> {
            let calling = calling_parts(first_parts(response));
            let answer = joined(speaking_parts(first_parts(response), false));
            let thoughts = joined(speaking_parts(first_parts(response), true));
            &&& response_of(response) matches Ok(read)
            &&& read.tool_calls.len() == calling.len()
            &&& forall|i: int|
                0 <= i < calling.len() ==> calls_for(calling[i], #[trigger] read.tool_calls[i])
            &&& read.text is Some <==> calling.len() == 0 && answer.len() > 0
            &&& read.text matches Some(text) ==> text == answer
            &&& read.thinking is Some <==> thoughts.len() > 0
            &&& read.thinking matches Some(text) ==> text == thoughts
            &&& read.token_usage is Some <==> response.usage_metadata is Some
            &&& read.token_usage matches Some(usage) ==> counts_match(
                usage,
                response.usage_metadata->0,
            )
        },
{
    lemma_parts_are_read(first_parts(response));
    if response.candidates.len() > 0 {
        assert(parts_of(response.candidates[0]) =~= first_parts(response));
    }
}

/// The token counts are Gemini's, each under its own heading.
pub open spec fn counts_match(usage: TokenUsage, meta: UsageMetadata) -> bool {
    &&& usage.input_tokens == meta.prompt_token_count
    &&& usage.output_tokens == meta.candidates_token_count
    &&& usage.cached_input_tokens == meta.cached_content_token_count
    &&& usage.thinking_tokens == meta.thoughts_token_count
    &&& usage.tool_use_prompt_tokens == meta.tool_use_prompt_token_count
}

/// Token counts that are known make one chunk, unknown ones none; a call to the API that
/// failed is an error of the provider with its reason, one that did not is read.
pub proof fn law_counts_and_failures(
    meta: UsageMetadata,
    response: GenerateContentResponseView,
    reason: Seq<char>,
)
    ensures
        usage_chunks(None).len() == 0,
        usage_chunks(Some(meta)).len() == 1,
        usage_chunks(Some(meta))[0] is Usage,
        counts_match(usage_chunks(Some(meta))[0]->Usage_0, meta),
        outcome_of(Ok(response)) == response_of(response),
        outcome_of(Err(reason)) == Err::<ModelResponseView, ErrorView>(ErrorView::Provider(reason)),
{
}

/// Only a schema whose references run in a circle keeps a request from being written.
pub proof fn law_request_is_refused(request: ModelRequestView)
    ensures
        !has_finite_schema(request) <==> request.output_schema is Some && !can_normalise(
            request.output_schema->0,
        ),
{
}

/// A stream stays open as long as responses come in, and is closed by a break and by its
/// end; what is closed stays as it is and yields nothing.
pub proof fn law_stream_closes(
    state: GeminiStream,
    response: GenerateContentResponseView,
    reason: Seq<char>,
    event: StreamEventView,
)
    ensures
        state.open ==> stream_step(state, StreamEventView::Response(response)).0.open,
        state.open ==> !stream_step(state, StreamEventView::Failed(reason)).0.open,
        state.open ==> !stream_step(state, StreamEventView::Ended).0.open,
        !state.open ==> stream_step(state, event) == (state, Seq::<StreamItem>::empty()),
{
}

} // verus!
