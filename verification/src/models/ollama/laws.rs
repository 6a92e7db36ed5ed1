//! What holds of the adapter as a whole.
use crate::error::ErrorView;
use crate::model::{
    call_chunks, calls_in_chunks, lemma_projections_append, lemma_projections_of_calls,
    no_usage, text_in_chunks, thinking_in_chunks, usage_only_last, yielded, MessageContentView,
    MessageView as AgentMessageView, ModelRequestView, ModelResponseView, ModelStreamChunkView,
    Role as AgentRole, StreamItem, ToolCallView,
};
use crate::models::ollama::request::{
    chat_request, fails_on_one, played_call, writes_all, writes_message,
};
use crate::models::ollama::response::{
    call_of, calls_of, collect_step, collected, collected_response, empty_collector, piece_chunks,
    stream_step, usage_in, ChatEventView, CollectorView,
};
use crate::models::ollama::types::{
    ChatResponseView, MessageView, OptionsView, Role, Think, ToolCallView as OllamaToolCallView,
    ToolType,
};
use crate::render::is_rendering;
use vstd::prelude::*;

verus! {

/// A tool call comes back to the model with the name and the arguments it was
/// issued with.
pub proof fn law_call_round_trip(call: OllamaToolCallView, index: int)
    ensures
        played_call(call_of(call), index).name == call.name,
        played_call(call_of(call), index).arguments == call.arguments,
{
}

/// An answer carries text or tool calls: exactly one of them.
pub proof fn law_text_or_calls(state: CollectorView)
    ensures
        collected_response(state).text is None <==> collected_response(state).tool_calls.len() > 0,
{
}

/// What one piece spells out and holds.
proof fn lemma_piece(response: ChatResponseView)
    ensures
        text_in_chunks(piece_chunks(response)) == response.message.content,
        thinking_in_chunks(piece_chunks(response)) == Seq::<char>::empty(),
        calls_in_chunks(piece_chunks(response)) == calls_of(response.message.tool_calls),
{
    let calls = calls_of(response.message.tool_calls);
    let text = if response.message.content.len() == 0 {
        Seq::empty()
    } else {
        seq![ModelStreamChunkView::TextDelta(response.message.content)]
    };
    let usage = match usage_in(response) {
        Some(usage) => if response.done {
            seq![ModelStreamChunkView::Usage(usage)]
        } else {
            Seq::empty()
        },
        None => Seq::empty(),
    };
    lemma_projections_of_calls(calls);
    lemma_projections_append(call_chunks(calls), text);
    lemma_projections_append(call_chunks(calls) + text, usage);
    reveal_with_fuel(text_in_chunks, 2);
    reveal_with_fuel(thinking_in_chunks, 2);
    reveal_with_fuel(calls_in_chunks, 2);
    assert(text.len() > 0 ==> text.drop_last() =~= Seq::empty());
    assert(usage.len() > 0 ==> usage.drop_last() =~= Seq::empty());
    assert(text_in_chunks(text) =~= response.message.content);
    assert(text_in_chunks(piece_chunks(response)) =~= response.message.content);
    assert(thinking_in_chunks(piece_chunks(response)) =~= Seq::empty());
    assert(calls_in_chunks(piece_chunks(response)) =~= calls);
}

/// The events for pieces that come in one after the other.
pub open spec fn piece_events(pieces: Seq<ChatResponseView>) -> Seq<ChatEventView> {
    Seq::new(pieces.len(), |i: int| ChatEventView::Response(pieces[i]))
}

/// None of the pieces is the last of an answer.
pub open spec fn none_is_last(pieces: Seq<ChatResponseView>) -> bool {
    forall|i: int| 0 <= i < pieces.len() ==> !(#[trigger] pieces[i]).done
}

/// Where collecting stands after a run of events; the outcome is that of the last
/// event.
pub open spec fn collect_run(events: Seq<ChatEventView>) -> (
    CollectorView,
    Option<Result<ModelResponseView, ErrorView>>,
)
    decreases events.len(),
{
    if events.len() == 0 {
        (empty_collector(true), None)
    } else {
        collect_step(collect_run(events.drop_last()).0, events.last())
    }
}

/// What a stream yields over a run of events, and whether it is still open.
pub open spec fn stream_run(events: Seq<ChatEventView>) -> (bool, Seq<StreamItem>)
    decreases events.len(),
{
    if events.len() == 0 {
        (true, Seq::empty())
    } else {
        let (open, items) = stream_run(events.drop_last());
        let (after, more) = stream_step(open, events.last());
        (after, items + more)
    }
}

/// The chunks of pieces, one after the other.
pub open spec fn all_chunks(pieces: Seq<ChatResponseView>) -> Seq<ModelStreamChunkView>
    decreases pieces.len(),
{
    if pieces.len() == 0 {
        Seq::empty()
    } else {
        all_chunks(pieces.drop_last()) + piece_chunks(pieces.last())
    }
}

/// The tool calls that came in last.
pub open spec fn last_calls(pieces: Seq<ChatResponseView>) -> Seq<ToolCallView>
    decreases pieces.len(),
{
    if pieces.len() == 0 {
        Seq::empty()
    } else if pieces.last().message.tool_calls.len() == 0 {
        last_calls(pieces.drop_last())
    } else {
        calls_of(pieces.last().message.tool_calls)
    }
}

/// As long as none of the pieces is the last, all their text is kept, and the tool
/// calls that came in last; and their chunks are streamed in order.
pub proof fn law_pieces(pieces: Seq<ChatResponseView>)
    requires
        none_is_last(pieces),
    ensures
        collect_run(piece_events(pieces)) == (
            CollectorView {
                output: text_in_chunks(all_chunks(pieces)),
                tool_calls: last_calls(pieces),
                token_usage: None,
                open: true,
            },
            None::<Result<ModelResponseView, ErrorView>>,
        ),
        stream_run(piece_events(pieces)) == (true, yielded(all_chunks(pieces))),
    decreases pieces.len(),
{
    if pieces.len() == 0 {
        assert(yielded(all_chunks(pieces)) =~= Seq::empty());
    } else {
        let before = pieces.drop_last();
        law_pieces(before);
        assert(piece_events(pieces).drop_last() =~= piece_events(before));
        lemma_piece(pieces.last());
        lemma_projections_append(all_chunks(before), piece_chunks(pieces.last()));
        assert(yielded(all_chunks(before)) + yielded(piece_chunks(pieces.last())) =~= yielded(
            all_chunks(pieces),
        ));
    }
}

/// An answer that comes in pieces, the last of which is marked, is the same whether
/// it is streamed or collected: the streamed text spells out the collected text, the
/// token counts are those of the last piece, and the tool calls are those that came
/// in last.
pub proof fn law_complete_answer(pieces: Seq<ChatResponseView>, last: ChatResponseView)
    requires
        none_is_last(pieces),
        last.done,
    ensures
        stream_run(piece_events(pieces.push(last))) == (false, yielded(all_chunks(pieces.push(last)))),
        collect_run(piece_events(pieces.push(last))).1 matches Some(Ok(response)) && {
            &&& response.tool_calls == last_calls(pieces.push(last))
            &&& response.token_usage == usage_in(last)
            &&& response.tool_calls.len() == 0 ==> response.text == Some(
                text_in_chunks(all_chunks(pieces.push(last))),
            )
        },
{
    let all = pieces.push(last);
    law_pieces(pieces);
    assert(all.drop_last() =~= pieces);
    assert(piece_events(all).drop_last() =~= piece_events(pieces));
    lemma_piece(last);
    lemma_projections_append(all_chunks(pieces), piece_chunks(last));
    assert(yielded(all_chunks(pieces)) + yielded(piece_chunks(last)) =~= yielded(all_chunks(all)));
}

/// Where the tool calls come in one batch, as they do when streaming is off, the
/// stream yields the same tool calls as the collected answer holds.
pub proof fn law_single_batch(last: ChatResponseView)
    ensures
        calls_in_chunks(all_chunks(seq![last])) == last_calls(seq![last]),
{
    lemma_piece(last);
    reveal_with_fuel(all_chunks, 2);
    reveal_with_fuel(last_calls, 2);
    assert(seq![last].drop_last() =~= Seq::empty());
    assert(all_chunks(seq![last]) =~= piece_chunks(last));
    assert(calls_of(last.message.tool_calls).len() == 0 ==> calls_of(last.message.tool_calls)
        =~= Seq::empty());
}

/// Pieces that are not the last bring no token counts.
proof fn lemma_pieces_no_usage(pieces: Seq<ChatResponseView>)
    requires
        none_is_last(pieces),
    ensures
        no_usage(all_chunks(pieces)),
    decreases pieces.len(),
{
    if pieces.len() > 0 {
        let before = pieces.drop_last();
        assert(none_is_last(before)) by {
            assert forall|i: int| 0 <= i < before.len() implies !(#[trigger] before[i]).done by {
                assert(before[i] == pieces[i]);
            }
        }
        lemma_pieces_no_usage(before);
        assert(!pieces[pieces.len() - 1].done);
    }
}

/// A stream reports token counts once at most, and last.
pub proof fn law_usage_is_last(pieces: Seq<ChatResponseView>, last: ChatResponseView)
    requires
        none_is_last(pieces),
    ensures
        usage_only_last(all_chunks(pieces.push(last))),
{
    lemma_pieces_no_usage(pieces);
    assert(pieces.push(last).drop_last() =~= pieces);
    let chunks = all_chunks(pieces.push(last));
    if last.done && usage_in(last) is Some {
        assert(no_usage(chunks.drop_last()));
    } else {
        assert(no_usage(chunks));
    }
}

/// A chat request asks for the answer in the request's own schema, whatever tools are
/// offered, and has the model, the options and the thinking that it was asked for. It
/// offers exactly the tools of the request, in order, and only then has streaming turned
/// off.
pub proof fn law_chat_request_is_whole(
    model: Seq<char>,
    options: Option<OptionsView>,
    think: Option<Think>,
    request: ModelRequestView,
    messages: Seq<MessageView>,
)
    ensures
        ({
            let written = chat_request(model, options, think, request, messages);
            &&& written.format == request.output_schema
            &&& written.model == model
            &&& written.options == options
            &&& written.think == think
            &&& request.tools.len() == 0 ==> written.stream is None
            &&& request.tools.len() > 0 ==> written.stream == Some(false)
            &&& written.tools.len() == request.tools.len()
            &&& forall|i: int|
                0 <= i < request.tools.len() ==> {
                    let tool = #[trigger] request.tools[i];
                    &&& written.tools[i].tool_type == ToolType::Function
                    &&& written.tools[i].name == tool.name
                    &&& written.tools[i].description == tool.description
                    &&& written.tools[i].parameters == tool.parameters
                }
        }),
{
}

/// The system instructions, where there are any, are the first message of a chat
/// request; the conversation follows as it was written, in order and with nothing left
/// out.
pub proof fn law_chat_request_holds_conversation(
    model: Seq<char>,
    options: Option<OptionsView>,
    think: Option<Think>,
    request: ModelRequestView,
    messages: Seq<MessageView>,
)
    ensures
        request.system is None ==> chat_request(model, options, think, request, messages).messages
            == messages,
        request.system matches Some(system) ==> {
            let written = chat_request(model, options, think, request, messages).messages;
            &&& written.len() == messages.len() + 1
            &&& written[0].role == Role::System
            &&& written[0].content == system
            &&& written[0].thinking is None
            &&& written[0].tool_calls.len() == 0
            &&& written.skip(1) == messages
        },
{
    let written = chat_request(model, options, think, request, messages).messages;
    if request.system is Some {
        assert(written.skip(1) =~= messages);
    } else {
        assert(written =~= messages);
    }
}

/// What comes of writing a message. A text is written as it is, in the voice of whoever
/// spoke it; calls are written all of them, by name and arguments and each with its
/// place; a result is a message of the tool that holds the result written out. Only
/// writing out a result can fail, and that is an error of the provider with its reason.
pub proof fn law_message_is_written(
    message: AgentMessageView,
    outcome: Result<MessageView, ErrorView>,
)
    requires
        writes_message(message, outcome),
    ensures
        outcome matches Ok(written) ==> written.thinking is None,
        message.content matches MessageContentView::Text(text) ==> {
            &&& outcome matches Ok(written)
            &&& written.content == text
            &&& message.role == AgentRole::User ==> written.role == Role::User
            &&& message.role == AgentRole::Assistant ==> written.role == Role::Assistant
            &&& written.tool_calls.len() == 0
        },
        message.content matches MessageContentView::ToolCalls(calls) ==> {
            &&& outcome matches Ok(written)
            &&& written.content.len() == 0
            &&& written.role == Role::Assistant
            &&& written.tool_calls.len() == calls.len()
            &&& forall|i: int|
                0 <= i < calls.len() ==> {
                    let call = #[trigger] written.tool_calls[i];
                    &&& call.name == calls[i].name
                    &&& call.arguments == calls[i].args
                    &&& call.index == i
                }
        },
        message.content matches MessageContentView::ToolResult { tool_call, result } ==> match outcome {
            Ok(written) => {
                &&& is_rendering(result, Ok(written.content))
                &&& written.role == Role::Tool
                &&& written.tool_calls.len() == 0
            },
            Err(error) => error is Provider && is_rendering(result, Err(error->Provider_0)),
        },
{
}

/// `call` is what `asked` asks for: the same name, which is the identifier too, and the
/// same arguments.
pub open spec fn calls_for(asked: OllamaToolCallView, call: ToolCallView) -> bool {
    &&& call.id == asked.name
    &&& call.name == asked.name
    &&& call.args == asked.arguments
    &&& call.provider_metadata is None
}

/// `count`, or the largest number that there is a place for.
pub open spec fn counted(count: Option<u64>, tokens: Option<u32>) -> bool {
    match count {
        None => tokens is None,
        Some(n) => tokens matches Some(m) && m as int == (if n as int <= 4294967295 {
            n as int
        } else {
            4294967295
        }),
    }
}

/// Token counts are there exactly if the server reports one of the two, and they are the
/// ones it reports.
pub proof fn law_counts(response: ChatResponseView)
    ensures
        usage_in(response) is Some <==> response.prompt_eval_count is Some
            || response.eval_count is Some,
        usage_in(response) matches Some(usage) ==> {
            &&& counted(response.prompt_eval_count, usage.input_tokens)
            &&& counted(response.eval_count, usage.output_tokens)
            &&& usage.cached_input_tokens is None
            &&& usage.thinking_tokens is None
            &&& usage.tool_use_prompt_tokens is None
        },
{
}

/// A piece is streamed whole: every call in order, then its text if there is any, then,
/// with the last piece, the token counts if there are any; and nothing else.
pub proof fn law_piece_is_streamed_whole(response: ChatResponseView)
    ensures
        ({
            let chunks = piece_chunks(response);
            let calls = response.message.tool_calls;
            let n = calls.len() as int;
            let x = if response.message.content.len() > 0 {
                n + 1
            } else {
                n
            };
            &&& forall|i: int|
                0 <= i < n ==> (#[trigger] chunks[i]) is ToolCall && calls_for(
                    calls[i],
                    chunks[i]->ToolCall_0,
                )
            &&& response.message.content.len() > 0 ==> chunks[n] == ModelStreamChunkView::TextDelta(
                response.message.content,
            )
            &&& if response.done && (response.prompt_eval_count is Some || response.eval_count is Some) {
                chunks.len() == x + 1 && chunks[x] is Usage && Some(chunks[x]->Usage_0) == usage_in(
                    response,
                )
            } else {
                chunks.len() == x
            }
        }),
{
}

/// The texts of pieces, one after the other.
pub open spec fn joined(pieces: Seq<ChatResponseView>) -> Seq<char> {
    pieces.map_values(|piece: ChatResponseView| piece.message.content).flatten()
}

/// The pieces that bring calls, in order.
pub open spec fn calling_pieces(pieces: Seq<ChatResponseView>) -> Seq<ChatResponseView> {
    pieces.filter(|piece: ChatResponseView| piece.message.tool_calls.len() > 0)
}

/// What is put together out of pieces.
proof fn lemma_pieces_are_joined(pieces: Seq<ChatResponseView>)
    ensures
        text_in_chunks(all_chunks(pieces)) == joined(pieces),
        calling_pieces(pieces).len() == 0 ==> last_calls(pieces).len() == 0,
        calling_pieces(pieces).len() > 0 ==> last_calls(pieces) == calls_of(
            calling_pieces(pieces).last().message.tool_calls,
        ),
    decreases pieces.len(),
{
    reveal(Seq::filter);
    let texts = pieces.map_values(|piece: ChatResponseView| piece.message.content);
    texts.lemma_flatten_and_flatten_alt_are_equivalent();
    if pieces.len() == 0 {
        assert(texts =~= Seq::empty());
        assert(joined(pieces) =~= Seq::empty());
    } else {
        let before = pieces.drop_last();
        lemma_pieces_are_joined(before);
        lemma_piece(pieces.last());
        lemma_projections_append(all_chunks(before), piece_chunks(pieces.last()));
        let fewer = before.map_values(|piece: ChatResponseView| piece.message.content);
        fewer.lemma_flatten_and_flatten_alt_are_equivalent();
        assert(texts.drop_last() =~= fewer);
    }
}

/// `response` is put together out of `pieces`: the calls are those of the last piece that
/// brought any; without calls the text is that of all pieces, and with calls there is
/// none.
pub open spec fn put_together(pieces: Seq<ChatResponseView>, response: ModelResponseView) -> bool {
    &&& response.thinking is None
    &&& if calling_pieces(pieces).len() == 0 {
        &&& response.tool_calls.len() == 0
        &&& response.text == Some(joined(pieces))
    } else {
        let calls = calling_pieces(pieces).last().message.tool_calls;
        &&& response.text is None
        &&& response.tool_calls.len() == calls.len()
        &&& forall|i: int|
            0 <= i < calls.len() ==> calls_for(calls[i], #[trigger] response.tool_calls[i])
    }
}

/// An answer is put together out of all its pieces, and comes once: with the last piece,
/// which brings the token counts, or with the end of the connection, and then without
/// any. A connection that breaks leaves nothing but the reason.
pub proof fn law_answer_is_put_together(
    pieces: Seq<ChatResponseView>,
    last: ChatResponseView,
    reason: Seq<char>,
)
    requires
        none_is_last(pieces),
        last.done,
    ensures
        collect_run(piece_events(pieces)).1 is None,
        collect_run(piece_events(pieces.push(last))).1 matches Some(Ok(response)) && put_together(
            pieces.push(last),
            response,
        ) && response.token_usage == usage_in(last),
        collect_run(piece_events(pieces).push(ChatEventView::Ended)).1 matches Some(Ok(response))
            && put_together(pieces, response) && response.token_usage is None,
        collect_run(piece_events(pieces).push(ChatEventView::Failed(reason))).1 == Some(
            Err::<ModelResponseView, ErrorView>(ErrorView::Provider(reason)),
        ),
{
    let all = pieces.push(last);
    law_pieces(pieces);
    law_complete_answer(pieces, last);
    lemma_pieces_are_joined(pieces);
    lemma_pieces_are_joined(all);
    assert(all.drop_last() =~= pieces);
    assert(piece_events(all).drop_last() =~= piece_events(pieces));
    assert(piece_events(pieces).push(ChatEventView::Ended).drop_last() =~= piece_events(pieces));
    assert(piece_events(pieces).push(ChatEventView::Failed(reason)).drop_last() =~= piece_events(
        pieces,
    ));
    reveal(Seq::filter);
}

/// A stream that is open hands on a break as an error of the provider and ends there; it
/// ends with the connection and with the last piece, and then yields nothing more.
pub proof fn law_stream_ends(event: ChatEventView, reason: Seq<char>, response: ChatResponseView)
    ensures
        stream_step(true, ChatEventView::Failed(reason)).1 == seq![
            Err::<ModelStreamChunkView, ErrorView>(ErrorView::Provider(reason)),
        ],
        !stream_step(true, ChatEventView::Failed(reason)).0,
        stream_step(true, ChatEventView::Ended).1.len() == 0,
        !stream_step(true, ChatEventView::Ended).0,
        stream_step(true, ChatEventView::Response(response)).0 <==> !response.done,
        stream_step(false, event).1.len() == 0,
        !stream_step(false, event).0,
{
}

/// A conversation is written message by message, with none left out. Where it is not,
/// one of its messages is a tool result that could not be written out, and the error is
/// one of the provider with that reason; a conversation without tool results is always
/// written.
pub proof fn law_conversation_is_written(
    messages: Seq<AgentMessageView>,
    written: Seq<MessageView>,
    error: ErrorView,
)
    ensures
        writes_all(messages, written) ==> written.len() == messages.len() && forall|i: int|
            0 <= i < messages.len() ==> writes_message(
                #[trigger] messages[i],
                Ok::<MessageView, ErrorView>(written[i]),
            ),
        fails_on_one(messages, error) ==> exists|i: int|
            0 <= i < messages.len() && (#[trigger] messages[i]).content is ToolResult && error is Provider
                && is_rendering(messages[i].content->result, Err(error->Provider_0)),
        (forall|i: int|
            0 <= i < messages.len() ==> !((#[trigger] messages[i]).content is ToolResult))
            ==> !fails_on_one(messages, error),
{
    if fails_on_one(messages, error) {
        let (i, before) = choose|i: int, before: Seq<MessageView>|
            0 <= i < messages.len() && #[trigger] writes_all(messages.take(i), before)
                && writes_message(#[trigger] messages[i], Err(error));
        assert(writes_message(messages[i], Err(error)));
        law_message_is_written(messages[i], Err(error));
        assert(messages[i].content is ToolResult);
    }
}

/// Once an answer has come, or its connection has broken or ended, nothing more comes,
/// whatever happens.
pub proof fn law_answer_comes_once(
    pieces: Seq<ChatResponseView>,
    last: ChatEventView,
    more: Seq<ChatEventView>,
)
    requires
        none_is_last(pieces),
        last matches ChatEventView::Response(response) ==> response.done,
        more.len() > 0,
    ensures
        !collect_run(piece_events(pieces).push(last) + more).0.open,
        collect_run(piece_events(pieces).push(last) + more).1 is None,
    decreases more.len(),
{
    let events = piece_events(pieces).push(last);
    let before = events + more.drop_last();
    assert((events + more).drop_last() =~= before);
    if more.len() == 1 {
        law_pieces(pieces);
        assert(before =~= events);
        assert(events.drop_last() =~= piece_events(pieces));
    } else {
        law_answer_comes_once(pieces, last, more.drop_last());
    }
}

} // verus!
