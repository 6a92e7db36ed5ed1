//! What holds of every run.
use crate::json::ValueView;
use crate::model::{
    calls_in_chunks, text_in_chunks, tool_calls_message, tool_result_message, MessageContentView,
    MessageView, ModelStreamChunkView, Role, ToolCallView,
};
use crate::runner::batch::{
    all_settled, batch_wf, fresh_batch, is_pending, result_messages, ToolBatchView,
};
use crate::runner::run::{
    call_events, replied, request_of, run_step, tagged, waiting_in, with_reply, PhaseView,
    RunInputView, RunView, Waiting,
};
use crate::runner::{is_terminal, AgentEventView, RunEventView};
use crate::tools::{outcome_value, CallOutcomeView, ToolCallReplyView};
use vstd::prelude::*;

verus! {

/// A run is in order: while tool calls are carried out there are some, each has a
/// place for its result, and not all have one.
pub open spec fn run_wf(run: RunView) -> bool {
    run.phase matches PhaseView::Tools(batch) ==> batch_wf(batch) && !all_settled(batch)
}

/// Where a run stands after a series of inputs, and what it has reported on the
/// way.
pub open spec fn run_trace(run: RunView, inputs: Seq<RunInputView>) -> (
    RunView,
    Seq<AgentEventView>,
)
    decreases inputs.len(),
{
    if inputs.len() == 0 {
        (run, Seq::empty())
    } else {
        let (before, events) = run_trace(run, inputs.drop_last());
        let (after, more) = run_step(before, inputs.last());
        (after, events + more)
    }
}

/// Everything that a run reports, from its start on.
pub open spec fn whole_trace(run: RunView, inputs: Seq<RunInputView>) -> Seq<RunEventView> {
    tagged(run.run_id, seq![AgentEventView::TurnStart] + run_trace(run, inputs).1)
}

/// What a run is about does not change: who it is, under which instructions and
/// schema and with which tools the model is asked.
pub open spec fn same_terms(left: RunView, right: RunView) -> bool {
    &&& left.run_id == right.run_id
    &&& left.system == right.system
    &&& left.output_schema == right.output_schema
    &&& left.tools == right.tools
}

/// A step keeps a run in order, keeps its terms, only adds to the conversation, and
/// does not start the run again.
proof fn lemma_step(run: RunView, input: RunInputView)
    requires
        run_wf(run),
    ensures
        run_wf(run_step(run, input).0),
        same_terms(run, run_step(run, input).0),
        run.thread.is_prefix_of(run_step(run, input).0.thread),
        forall|i: int|
            0 <= i < run_step(run, input).1.len() ==> !((#[trigger] run_step(run, input).1[i]) is TurnStart),
{
    let (after, events) = run_step(run, input);
    match (run.phase, input) {
        (PhaseView::Streaming { calls, reply }, RunInputView::StreamEnded) => {
            if calls.len() > 0 {
                let batch = fresh_batch(calls);
                assert(batch.results[0] is None);
                assert(!all_settled(batch));
            }
        },
        _ => {},
    }
}

/// In every state that a run can come to it is in order, its terms are those it was
/// started with, and its conversation begins with the one it was started with.
pub proof fn law_run_keeps_terms(run: RunView, inputs: Seq<RunInputView>)
    requires
        run_wf(run),
    ensures
        run_wf(run_trace(run, inputs).0),
        same_terms(run, run_trace(run, inputs).0),
        run.thread.is_prefix_of(run_trace(run, inputs).0.thread),
    decreases inputs.len(),
{
    if inputs.len() > 0 {
        let before = run_trace(run, inputs.drop_last()).0;
        law_run_keeps_terms(run, inputs.drop_last());
        lemma_step(before, inputs.last());
        let after = run_trace(run, inputs).0;
        assert(run.thread =~= after.thread.take(run.thread.len() as int));
    }
}

/// Every request to the model carries the agent's instructions and schema and the
/// runner's tools, and begins with the conversation that the run was started with.
pub proof fn law_requests(run: RunView, inputs: Seq<RunInputView>)
    requires
        run_wf(run),
    ensures
        ({
            let request = request_of(run_trace(run, inputs).0);
            &&& request.system == Some(run.system)
            &&& request.output_schema == run.output_schema
            &&& request.tools == run.tools
            &&& run.thread.is_prefix_of(request.messages)
        }),
{
    law_run_keeps_terms(run, inputs);
}

/// `TurnStart` is reported first, and only then.
pub proof fn law_turn_start_is_first(run: RunView, inputs: Seq<RunInputView>)
    requires
        run_wf(run),
    ensures
        whole_trace(run, inputs)[0].agent_event is TurnStart,
        forall|i: int|
            1 <= i < whole_trace(run, inputs).len() ==> !((#[trigger] whole_trace(run, inputs)[i]).agent_event is TurnStart),
    decreases inputs.len(),
{
    if inputs.len() > 0 {
        law_turn_start_is_first(run, inputs.drop_last());
        law_run_keeps_terms(run, inputs.drop_last());
        let (before, events) = run_trace(run, inputs.drop_last());
        lemma_step(before, inputs.last());
        let earlier = whole_trace(run, inputs.drop_last());
        let whole = whole_trace(run, inputs);
        assert forall|i: int| 1 <= i < whole.len() implies !((#[trigger] whole[i]).agent_event is TurnStart) by {
            if i < earlier.len() {
                assert(whole[i] == earlier[i]);
            } else {
                let more = run_step(before, inputs.last()).1;
                assert(whole[i].agent_event == more[i - earlier.len()]);
            }
        }
    }
}

/// Every event bears the identity of its run.
pub proof fn law_run_id(run: RunView, inputs: Seq<RunInputView>)
    ensures
        forall|i: int|
            0 <= i < whole_trace(run, inputs).len() ==> (#[trigger] whole_trace(run, inputs)[i]).run_id
                == run.run_id,
{
}

/// A step of a run that is not over reports a terminal event exactly if it ends the
/// run, and then nothing else.
proof fn lemma_step_terminal(run: RunView, input: RunInputView)
    requires
        run_wf(run),
        !(run.phase is Finished),
    ensures
        run_step(run, input).0.phase is Finished <==> run_step(run, input).1.len() == 1
            && is_terminal(run_step(run, input).1[0]),
        !(run_step(run, input).0.phase is Finished) ==> forall|i: int|
            0 <= i < run_step(run, input).1.len() ==> !is_terminal(
                #[trigger] run_step(run, input).1[i],
            ),
{
}

/// A run is over exactly if it has reported a terminal event (that it finished, was
/// cancelled or failed); it reports one at most, and nothing after it.
pub proof fn law_terminal_event_is_last(run: RunView, inputs: Seq<RunInputView>)
    requires
        run_wf(run),
        !(run.phase is Finished),
    ensures
        ({
            let (after, events) = run_trace(run, inputs);
            &&& after.phase is Finished <==> events.len() > 0 && is_terminal(events.last())
            &&& forall|i: int| 0 <= i < events.len() - 1 ==> !is_terminal(#[trigger] events[i])
        }),
    decreases inputs.len(),
{
    if inputs.len() > 0 {
        law_terminal_event_is_last(run, inputs.drop_last());
        law_run_keeps_terms(run, inputs.drop_last());
        let (before, events) = run_trace(run, inputs.drop_last());
        let (after, more) = run_step(before, inputs.last());
        if before.phase is Finished {
            assert(events + more =~= events);
        } else {
            lemma_step_terminal(before, inputs.last());
            let whole = events + more;
            assert forall|i: int| 0 <= i < whole.len() - 1 implies !is_terminal(
                #[trigger] whole[i],
            ) by {
                if i < events.len() {
                    assert(whole[i] == events[i]);
                } else {
                    assert(whole[i] == more[i - events.len()]);
                }
            }
            if more.len() > 0 {
                assert(whole.last() == more.last());
            } else {
                assert(whole =~= events);
            }
        }
    }
}

/// Once a run is over, whatever it is told changes nothing and is not reported on.
pub proof fn law_finished_run_is_silent(run: RunView, inputs: Seq<RunInputView>)
    requires
        run.phase is Finished,
    ensures
        run_trace(run, inputs) == (run, Seq::<AgentEventView>::empty()),
    decreases inputs.len(),
{
    if inputs.len() > 0 {
        law_finished_run_is_silent(run, inputs.drop_last());
        assert(Seq::<AgentEventView>::empty() + Seq::<AgentEventView>::empty() =~= Seq::empty());
    }
}

/// A run that was cancelled before it was started reports its start and that it was
/// cancelled. The model is not asked, and nothing that comes later is reported on.
pub proof fn law_cancelled_before_start(run: RunView, inputs: Seq<RunInputView>)
    requires
        run.phase is Checkpoint,
        inputs.len() > 0,
        inputs[0] == (RunInputView::Checkpoint { cancelled: true }),
    ensures
        whole_trace(run, inputs) == tagged(
            run.run_id,
            seq![AgentEventView::TurnStart, AgentEventView::Cancelled],
        ),
        run_trace(run, inputs).0 == (RunView { phase: PhaseView::Finished, ..run }),
{
    lemma_cancelled_trace(run, inputs);
    assert(seq![AgentEventView::TurnStart] + seq![AgentEventView::Cancelled] =~= seq![
        AgentEventView::TurnStart,
        AgentEventView::Cancelled,
    ]);
}

/// The events of a run that was cancelled before it was started.
proof fn lemma_cancelled_trace(run: RunView, inputs: Seq<RunInputView>)
    requires
        run.phase is Checkpoint,
        inputs.len() > 0,
        inputs[0] == (RunInputView::Checkpoint { cancelled: true }),
    ensures
        run_trace(run, inputs) == (
            RunView { phase: PhaseView::Finished, ..run },
            seq![AgentEventView::Cancelled],
        ),
    decreases inputs.len(),
{
    reveal_with_fuel(run_trace, 2);
    if inputs.len() == 1 {
        assert(inputs.drop_last() =~= Seq::empty());
        assert(run_trace(run, inputs).1 =~= seq![AgentEventView::Cancelled]);
    } else {
        lemma_cancelled_trace(run, inputs.drop_last());
        assert(seq![AgentEventView::Cancelled] + Seq::empty() =~= seq![AgentEventView::Cancelled]);
    }
}

/// What a run reports of the chunks of one model turn: all but the tool calls, one
/// by one.
pub open spec fn forwarded(chunks: Seq<ModelStreamChunkView>) -> Seq<AgentEventView>
    decreases chunks.len(),
{
    if chunks.len() == 0 {
        Seq::empty()
    } else {
        let before = forwarded(chunks.drop_last());
        match chunks.last() {
            ModelStreamChunkView::Thinking(text) => before.push(AgentEventView::ThinkingDelta(text)),
            ModelStreamChunkView::TextDelta(text) => before.push(AgentEventView::TextDelta(text)),
            ModelStreamChunkView::ToolCall(_) => before,
            ModelStreamChunkView::Usage(usage) => before.push(AgentEventView::Usage(usage)),
        }
    }
}

/// The inputs for chunks that come in one after the other.
pub open spec fn chunk_inputs(chunks: Seq<ModelStreamChunkView>) -> Seq<RunInputView> {
    Seq::new(chunks.len(), |i: int| RunInputView::Chunk(chunks[i]))
}

/// A run that has just asked the model.
pub open spec fn is_asking(run: RunView) -> bool {
    run.phase == (PhaseView::Streaming { calls: Seq::empty(), reply: Seq::empty() })
}

/// While the model streams, the run reports all but the tool calls as they come,
/// keeps the tool calls in order, and puts the reply together from the text.
pub proof fn law_streaming(run: RunView, chunks: Seq<ModelStreamChunkView>)
    requires
        is_asking(run),
    ensures
        run_trace(run, chunk_inputs(chunks)) == (
            RunView {
                phase: PhaseView::Streaming {
                    calls: calls_in_chunks(chunks),
                    reply: text_in_chunks(chunks),
                },
                ..run
            },
            forwarded(chunks),
        ),
    decreases chunks.len(),
{
    if chunks.len() > 0 {
        law_streaming(run, chunks.drop_last());
        assert(chunk_inputs(chunks).drop_last() =~= chunk_inputs(chunks.drop_last()));
        let before = forwarded(chunks.drop_last());
        let more = run_step(
            run_trace(run, chunk_inputs(chunks.drop_last())).0,
            RunInputView::Chunk(chunks.last()),
        ).1;
        assert(before + more =~= forwarded(chunks));
    }
}

/// The text that a run has reported.
pub open spec fn text_in_events(events: Seq<AgentEventView>) -> Seq<char>
    decreases events.len(),
{
    if events.len() == 0 {
        Seq::empty()
    } else {
        let before = text_in_events(events.drop_last());
        match events.last() {
            AgentEventView::TextDelta(text) => before + text,
            _ => before,
        }
    }
}

/// The text that is reported is the text of the chunks.
proof fn lemma_forwarded_text(chunks: Seq<ModelStreamChunkView>)
    ensures
        text_in_events(forwarded(chunks)) == text_in_chunks(chunks),
    decreases chunks.len(),
{
    if chunks.len() > 0 {
        lemma_forwarded_text(chunks.drop_last());
        let before = forwarded(chunks.drop_last());
        if !(chunks.last() is ToolCall) {
            assert(forwarded(chunks).drop_last() =~= before);
        }
    }
}

/// A model turn without tool calls ends the run: the text that was reported in this
/// turn, put together, is the reply, and it joins the conversation unless it is
/// empty. The conversation is handed over with the last event.
pub proof fn law_final_turn(run: RunView, chunks: Seq<ModelStreamChunkView>)
    requires
        is_asking(run),
        calls_in_chunks(chunks).len() == 0,
    ensures
        ({
            let thread = with_reply(run.thread, text_in_events(forwarded(chunks)));
            run_trace(run, chunk_inputs(chunks).push(RunInputView::StreamEnded)) == (
                RunView { thread, phase: PhaseView::Finished, ..run },
                forwarded(chunks).push(AgentEventView::TurnFinish { thread }),
            )
        }),
{
    law_streaming(run, chunks);
    lemma_forwarded_text(chunks);
    let inputs = chunk_inputs(chunks).push(RunInputView::StreamEnded);
    assert(inputs.drop_last() =~= chunk_inputs(chunks));
    let thread = with_reply(run.thread, text_in_chunks(chunks));
    assert(forwarded(chunks) + seq![AgentEventView::TurnFinish { thread }] =~= forwarded(chunks).push(
        AgentEventView::TurnFinish { thread },
    ));
}

/// A model turn with tool calls has each of them requested once, in order, after
/// everything else that the turn reports.
pub proof fn law_tool_turn(run: RunView, chunks: Seq<ModelStreamChunkView>)
    requires
        is_asking(run),
        calls_in_chunks(chunks).len() > 0,
    ensures
        ({
            let calls = calls_in_chunks(chunks);
            run_trace(run, chunk_inputs(chunks).push(RunInputView::StreamEnded)) == (
                RunView {
                    thread: run.thread.push(tool_calls_message(calls)),
                    phase: PhaseView::Tools(fresh_batch(calls)),
                    ..run
                },
                forwarded(chunks) + call_events(calls),
            )
        }),
{
    law_streaming(run, chunks);
    let inputs = chunk_inputs(chunks).push(RunInputView::StreamEnded);
    assert(inputs.drop_last() =~= chunk_inputs(chunks));
}

/// The replies to tool calls, in the order in which they come in.
pub open spec fn reply_inputs(order: Seq<int>, outcomes: Seq<CallOutcomeView>) -> Seq<RunInputView> {
    Seq::new(
        order.len(),
        |k: int|
            RunInputView::Reply(
                ToolCallReplyView { index: order[k], outcome: outcomes[order[k]] },
            ),
    )
}

/// The batch once the calls in `order` have ended.
pub open spec fn partly_settled(
    calls: Seq<ToolCallView>,
    order: Seq<int>,
    outcomes: Seq<CallOutcomeView>,
) -> ToolBatchView {
    ToolBatchView {
        calls,
        results: Seq::new(
            calls.len(),
            |i: int|
                if order.contains(i) {
                    Some(outcome_value(calls[i].name, outcomes[i]))
                } else {
                    None
                },
        ),
    }
}

/// The conversation of a run that waits for tools, once they all have ended: one
/// result for each call, in the order of the calls.
pub open spec fn with_results(
    thread: Seq<MessageView>,
    calls: Seq<ToolCallView>,
    outcomes: Seq<CallOutcomeView>,
) -> Seq<MessageView> {
    thread + Seq::new(
        calls.len(),
        |i: int| tool_result_message(calls[i], outcome_value(calls[i].name, outcomes[i])),
    )
}

/// As long as a call is left, the run waits.
proof fn lemma_partly_settled(
    run: RunView,
    calls: Seq<ToolCallView>,
    order: Seq<int>,
    outcomes: Seq<CallOutcomeView>,
    left: int,
)
    requires
        run.phase == PhaseView::Tools(fresh_batch(calls)),
        outcomes.len() == calls.len(),
        order.no_duplicates(),
        forall|k: int| 0 <= k < order.len() ==> 0 <= #[trigger] order[k] < calls.len(),
        0 <= left < calls.len(),
        !order.contains(left),
    ensures
        run_trace(run, reply_inputs(order, outcomes)) == (
            RunView { phase: PhaseView::Tools(partly_settled(calls, order, outcomes)), ..run },
            Seq::<AgentEventView>::empty(),
        ),
    decreases order.len(),
{
    if order.len() == 0 {
        assert(partly_settled(calls, order, outcomes).results =~= fresh_batch(calls).results);
    } else {
        let before = order.drop_last();
        let index = order.last();
        assert(!before.contains(left)) by {
            if before.contains(left) {
                let k = choose|k: int| 0 <= k < before.len() && before[k] == left;
                assert(order[k] == left);
            }
        }
        lemma_partly_settled(run, calls, before, outcomes, left);
        assert(reply_inputs(order, outcomes).drop_last() =~= reply_inputs(before, outcomes));
        lemma_settle_one(calls, order, outcomes);
        assert(partly_settled(calls, order, outcomes).results[left] is None);
        assert(Seq::<AgentEventView>::empty() + Seq::<AgentEventView>::empty() =~= Seq::empty());
    }
}

/// One more reply settles one more call.
proof fn lemma_settle_one(
    calls: Seq<ToolCallView>,
    order: Seq<int>,
    outcomes: Seq<CallOutcomeView>,
)
    requires
        order.no_duplicates(),
        forall|k: int| 0 <= k < order.len() ==> 0 <= #[trigger] order[k] < calls.len(),
        order.len() > 0,
    ensures
        replied(
            partly_settled(calls, order.drop_last(), outcomes),
            ToolCallReplyView { index: order.last(), outcome: outcomes[order.last()] },
        ) == partly_settled(calls, order, outcomes),
{
    let before = order.drop_last();
    let index = order.last();
    let batch = partly_settled(calls, before, outcomes);
    let reply = ToolCallReplyView { index, outcome: outcomes[index] };
    assert(!before.contains(index)) by {
        if before.contains(index) {
            let k = choose|k: int| 0 <= k < before.len() && before[k] == index;
            assert(order[k] == order[order.len() - 1]);
        }
    }
    assert(is_pending(batch, index));
    assert forall|i: int| order.contains(i) <==> before.contains(i) || i == index by {
        if order.contains(i) {
            let k = choose|k: int| 0 <= k < order.len() && order[k] == i;
            if k < before.len() {
                assert(before[k] == i);
            }
        }
        if before.contains(i) {
            let k = choose|k: int| 0 <= k < before.len() && before[k] == i;
            assert(order[k] == i);
        }
        if i == index {
            assert(order[order.len() - 1] == i);
        }
    }
    assert(replied(batch, reply).results =~= partly_settled(calls, order, outcomes).results);
}

/// Tool calls may end in any order: once each has ended, the results join the
/// conversation in the order of the calls, one for each, and the run goes on.
pub proof fn law_results_in_call_order(
    run: RunView,
    calls: Seq<ToolCallView>,
    order: Seq<int>,
    outcomes: Seq<CallOutcomeView>,
)
    requires
        run.phase == PhaseView::Tools(fresh_batch(calls)),
        calls.len() > 0,
        outcomes.len() == calls.len(),
        order.no_duplicates(),
        forall|i: int| #[trigger] order.contains(i) <==> 0 <= i < calls.len(),
    ensures
        run_trace(run, reply_inputs(order, outcomes)) == (
            RunView {
                thread: with_results(run.thread, calls, outcomes),
                phase: PhaseView::Checkpoint,
                ..run
            },
            Seq::<AgentEventView>::empty(),
        ),
{
    assert(order.contains(0));
    let before = order.drop_last();
    let last = order.last();
    assert forall|k: int| 0 <= k < order.len() implies 0 <= #[trigger] order[k] < calls.len() by {
        assert(order.contains(order[k]));
    }
    assert(!before.contains(last)) by {
        if before.contains(last) {
            let k = choose|k: int| 0 <= k < before.len() && before[k] == last;
            assert(order[k] == order[order.len() - 1]);
        }
    }
    lemma_partly_settled(run, calls, before, outcomes, last);
    assert(reply_inputs(order, outcomes).drop_last() =~= reply_inputs(before, outcomes));
    lemma_settle_one(calls, order, outcomes);
    let batch = partly_settled(calls, order, outcomes);
    assert forall|i: int| 0 <= i < batch.results.len() implies (#[trigger] batch.results[i]) is Some by {
        assert(order.contains(i));
    }
    assert(all_settled(batch));
    assert(result_messages(batch) =~= Seq::new(
        calls.len(),
        |i: int| tool_result_message(calls[i], outcome_value(calls[i].name, outcomes[i])),
    )) by {
        assert forall|i: int| 0 <= i < calls.len() implies batch.results[i]->0 == outcome_value(
            #[trigger] calls[i].name,
            outcomes[i],
        ) by {
            assert(order.contains(i));
        }
    }
    assert(Seq::<AgentEventView>::empty() + Seq::<AgentEventView>::empty() =~= Seq::empty());
}

/// One round of tool use: the message with the calls, then one result for each call,
/// in order.
pub open spec fn is_round(messages: Seq<MessageView>) -> bool {
    messages.len() > 0 && match messages[0].content {
        MessageContentView::ToolCalls(calls) => {
            &&& messages[0] == tool_calls_message(calls)
            &&& calls.len() > 0
            &&& messages.len() == calls.len() + 1
            &&& forall|i: int|
                1 <= i < messages.len() ==> is_result_of(#[trigger] messages[i], calls[i - 1])
        },
        _ => false,
    }
}

/// `message` is a result of `call`.
pub open spec fn is_result_of(message: MessageView, call: ToolCallView) -> bool {
    exists|result: ValueView| message == #[trigger] tool_result_message(call, result)
}

/// Rounds of tool use, one after the other.
pub open spec fn are_rounds(messages: Seq<MessageView>) -> bool
    decreases messages.len(),
{
    messages.len() == 0 || exists|n: int|
        0 <= n < messages.len() && #[trigger] is_round(messages.skip(n)) && are_rounds(
            messages.take(n),
        )
}

/// One round more makes for one round more.
pub proof fn lemma_add_round(messages: Seq<MessageView>, round: Seq<MessageView>)
    requires
        are_rounds(messages),
        is_round(round),
    ensures
        are_rounds(messages + round),
{
    let whole = messages + round;
    let n = messages.len() as int;
    assert(whole.take(n) =~= messages);
    assert(whole.skip(n) =~= round);
    assert(are_rounds(whole.take(n)) && is_round(whole.skip(n)));
}

/// The messages that a run has added to a conversation of `n` messages are rounds of
/// tool use; the calls of the last one may be waiting for results, and after the end
/// the reply may follow.
pub open spec fn is_paired(run: RunView, n: int) -> bool {
    let added = run.thread.skip(n);
    &&& n <= run.thread.len()
    &&& match run.phase {
        PhaseView::Tools(batch) => added.len() > 0 && added.last() == tool_calls_message(batch.calls)
            && batch.calls.len() > 0 && are_rounds(added.drop_last()),
        PhaseView::Finished => are_rounds(added) || (added.len() > 0 && are_rounds(added.drop_last())
            && added.last().role == Role::Assistant && added.last().content is Text),
        _ => are_rounds(added),
    }
}

/// A step keeps calls and results paired.
proof fn lemma_step_paired(run: RunView, input: RunInputView, n: int)
    requires
        run_wf(run),
        0 <= n,
        is_paired(run, n),
    ensures
        is_paired(run_step(run, input).0, n),
{
    let (after, events) = run_step(run, input);
    let added = run.thread.skip(n);
    match (run.phase, input) {
        (PhaseView::Streaming { calls, reply }, RunInputView::StreamEnded) => {
            if calls.len() > 0 {
                assert(after.thread.skip(n) =~= added.push(tool_calls_message(calls)));
                assert(added.push(tool_calls_message(calls)).drop_last() =~= added);
            } else if reply.len() > 0 {
                let message = crate::model::assistant_message(reply);
                assert(after.thread.skip(n) =~= added.push(message));
                assert(added.push(message).drop_last() =~= added);
            }
        },
        (PhaseView::Tools(batch), RunInputView::Reply(reply)) => {
            let now = replied(batch, reply);
            if all_settled(now) {
                let results = result_messages(now);
                let round = seq![tool_calls_message(batch.calls)] + results;
                assert forall|i: int| 1 <= i < round.len() implies is_result_of(
                    #[trigger] round[i],
                    batch.calls[i - 1],
                ) by {
                    assert(round[i] == tool_result_message(
                        batch.calls[i - 1],
                        now.results[i - 1]->0,
                    ));
                }
                assert(is_round(round));
                lemma_add_round(added.drop_last(), round);
                assert(after.thread.skip(n) =~= added.drop_last() + round);
            }
        },
        _ => {},
    }
}

/// In every state that a run can come to, what it has added to the conversation are
/// whole rounds of tool use: each message with tool calls is followed by one result
/// for each of its calls, in order. Only while tools are carried out the last round
/// lacks its results, and only after the end a reply follows.
pub proof fn law_calls_and_results_are_paired(run: RunView, inputs: Seq<RunInputView>)
    requires
        run.phase is Checkpoint,
    ensures
        is_paired(run_trace(run, inputs).0, run.thread.len() as int),
    decreases inputs.len(),
{
    let n = run.thread.len() as int;
    if inputs.len() == 0 {
        assert(run.thread.skip(n) =~= Seq::empty());
    } else {
        law_calls_and_results_are_paired(run, inputs.drop_last());
        law_run_keeps_terms(run, inputs.drop_last());
        lemma_step_paired(run_trace(run, inputs.drop_last()).0, inputs.last(), n);
    }
}

/// The requests among events, in order: of each the call and its index.
pub open spec fn requests_in(events: Seq<AgentEventView>) -> Seq<(ToolCallView, int)>
    decreases events.len(),
{
    if events.len() == 0 {
        Seq::empty()
    } else {
        let before = requests_in(events.drop_last());
        match events.last() {
            AgentEventView::ToolCall(request) => before.push((request.details, request.index)),
            _ => before,
        }
    }
}

/// Requests follow on one another.
proof fn lemma_requests_append(left: Seq<AgentEventView>, right: Seq<AgentEventView>)
    ensures
        requests_in(left + right) == requests_in(left) + requests_in(right),
    decreases right.len(),
{
    if right.len() == 0 {
        assert(left + right =~= left);
        assert(requests_in(left) + requests_in(right) =~= requests_in(left));
    } else {
        lemma_requests_append(left, right.drop_last());
        assert((left + right).drop_last() =~= left + right.drop_last());
        assert((left + right).last() == right.last());
        assert(requests_in(left + right) =~= requests_in(left) + requests_in(right));
    }
}

/// What is forwarded are no requests.
proof fn lemma_forwarded_no_requests(chunks: Seq<ModelStreamChunkView>)
    ensures
        requests_in(forwarded(chunks)) == Seq::<(ToolCallView, int)>::empty(),
    decreases chunks.len(),
{
    if chunks.len() > 0 {
        lemma_forwarded_no_requests(chunks.drop_last());
        if !(chunks.last() is ToolCall) {
            assert(forwarded(chunks).drop_last() =~= forwarded(chunks.drop_last()));
        }
    }
}

/// The requests for calls are for these calls.
proof fn lemma_call_requests(calls: Seq<ToolCallView>)
    ensures
        requests_in(call_events(calls)) == Seq::new(calls.len(), |i: int| (calls[i], i)),
    decreases calls.len(),
{
    let expected = Seq::new(calls.len(), |i: int| (calls[i], i));
    if calls.len() == 0 {
        assert(requests_in(call_events(calls)) =~= expected);
    } else {
        let before = calls.drop_last();
        lemma_call_requests(before);
        assert(call_events(calls).drop_last() =~= call_events(before));
        assert(requests_in(call_events(calls)) =~= expected);
    }
}

/// When the model has ended a turn with tool calls, the consumer has been asked for
/// exactly these calls: request number `i` is for call number `i` of the turn, as the
/// model issued it, and says so. The calls have joined the conversation as one message
/// of the assistant.
pub proof fn law_each_call_is_requested(run: RunView, chunks: Seq<ModelStreamChunkView>)
    requires
        is_asking(run),
        calls_in_chunks(chunks).len() > 0,
    ensures
        ({
            let calls = calls_in_chunks(chunks);
            let n = calls.len() as int;
            let (after, events) = run_trace(
                run,
                chunk_inputs(chunks).push(RunInputView::StreamEnded),
            );
            &&& requests_in(events).len() == n
            &&& forall|i: int|
                0 <= i < n ==> (#[trigger] requests_in(events)[i]).0 == calls[i] && requests_in(
                    events,
                )[i].1 == i
            &&& events.len() >= n
            &&& forall|i: int|
                0 <= i < n ==> ((#[trigger] events[events.len() - n + i]) matches AgentEventView::ToolCall(
                    request,
                ) && request.details == calls[i] && request.index == i)
            &&& after.thread.len() == run.thread.len() + 1
            &&& after.thread.drop_last() == run.thread
            &&& after.thread.last().role == Role::Assistant
            &&& after.thread.last().content == MessageContentView::ToolCalls(calls)
        }),
{
    law_tool_turn(run, chunks);
    let calls = calls_in_chunks(chunks);
    let (after, events) = run_trace(run, chunk_inputs(chunks).push(RunInputView::StreamEnded));
    lemma_requests_append(forwarded(chunks), call_events(calls));
    lemma_forwarded_no_requests(chunks);
    lemma_call_requests(calls);
    assert(requests_in(events) =~= Seq::new(calls.len(), |i: int| (calls[i], i)));
    assert forall|i: int| 0 <= i < calls.len() implies ((#[trigger] events[events.len() - calls.len()
        + i]) matches AgentEventView::ToolCall(request) && request.details == calls[i]
        && request.index == i) by {
        assert(events[events.len() - calls.len() + i] == call_events(calls)[i]);
    }
    assert(after.thread.drop_last() =~= run.thread);
}

/// Once all calls of a turn have ended, in whatever order, the conversation has grown by
/// one message of the user for each call, in the order of the calls, with the call and
/// what the model is to read: the value that the consumer gave, or that the call failed
/// or was cancelled.
pub proof fn law_each_result_joins(
    run: RunView,
    calls: Seq<ToolCallView>,
    order: Seq<int>,
    outcomes: Seq<CallOutcomeView>,
)
    requires
        run.phase == PhaseView::Tools(fresh_batch(calls)),
        calls.len() > 0,
        outcomes.len() == calls.len(),
        order.no_duplicates(),
        forall|i: int| #[trigger] order.contains(i) <==> 0 <= i < calls.len(),
    ensures
        ({
            let (after, events) = run_trace(run, reply_inputs(order, outcomes));
            let n = run.thread.len() as int;
            &&& events.len() == 0
            &&& after.phase is Checkpoint
            &&& after.thread.len() == n + calls.len()
            &&& after.thread.take(n) == run.thread
            &&& forall|i: int|
                0 <= i < calls.len() ==> {
                    let message = #[trigger] after.thread[n + i];
                    &&& message.role == Role::User
                    &&& message.content matches MessageContentView::ToolResult { tool_call, result }
                    &&& tool_call == calls[i]
                    &&& match outcomes[i] {
                        CallOutcomeView::Resolved(value) => result == value,
                        CallOutcomeView::Dropped => result == ValueView::String(
                            "Tool call "@ + calls[i].name + " failed"@,
                        ),
                        CallOutcomeView::Cancelled => result == ValueView::String("Cancelled"@),
                    }
                }
        }),
{
    law_results_in_call_order(run, calls, order, outcomes);
    let after = run_trace(run, reply_inputs(order, outcomes)).0;
    let n = run.thread.len() as int;
    assert(after.thread.take(n) =~= run.thread);
    assert forall|i: int| 0 <= i < calls.len() implies (#[trigger] after.thread[n + i])
        == tool_result_message(calls[i], outcome_value(calls[i].name, outcomes[i])) by {}
}

/// A turn without tool calls ends the run, and the last event hands over the
/// conversation: what it was, and then the text of the turn as a message of the
/// assistant, unless there is none.
pub proof fn law_reply_joins(run: RunView, chunks: Seq<ModelStreamChunkView>)
    requires
        is_asking(run),
        calls_in_chunks(chunks).len() == 0,
    ensures
        ({
            let (after, events) = run_trace(
                run,
                chunk_inputs(chunks).push(RunInputView::StreamEnded),
            );
            let text = text_in_chunks(chunks);
            &&& after.phase is Finished
            &&& events.len() > 0
            &&& events.last() matches AgentEventView::TurnFinish { thread }
            &&& thread == after.thread
            &&& text_in_events(events) == text
            &&& text.len() == 0 ==> thread == run.thread
            &&& text.len() > 0 ==> {
                &&& thread.len() == run.thread.len() + 1
                &&& thread.drop_last() == run.thread
                &&& thread.last().role == Role::Assistant
                &&& thread.last().content == MessageContentView::Text(text)
            }
        }),
{
    law_final_turn(run, chunks);
    lemma_forwarded_text(chunks);
    let (after, events) = run_trace(run, chunk_inputs(chunks).push(RunInputView::StreamEnded));
    assert(events.drop_last() =~= forwarded(chunks));
    if text_in_chunks(chunks).len() > 0 {
        assert(after.thread.drop_last() =~= run.thread);
    }
}

/// A run that is not cancelled asks the model; one that is cancelled, or whose model
/// fails, says so and is over. None of this touches the conversation.
pub proof fn law_run_ends(run: RunView, error: crate::error::ErrorView)
    ensures
        run.phase is Checkpoint ==> {
            let (on, events) = run_step(run, RunInputView::Checkpoint { cancelled: false });
            let (over, last) = run_step(run, RunInputView::Checkpoint { cancelled: true });
            &&& is_asking(on)
            &&& on.thread == run.thread
            &&& events.len() == 0
            &&& over.phase is Finished
            &&& over.thread == run.thread
            &&& last == seq![AgentEventView::Cancelled]
        },
        run.phase is Streaming ==> {
            let (failed, failure) = run_step(run, RunInputView::ModelFailed(error));
            let (over, last) = run_step(run, RunInputView::Cancel);
            &&& failed.phase is Finished
            &&& failed.thread == run.thread
            &&& failure == seq![AgentEventView::Error(error)]
            &&& over.phase is Finished
            &&& over.thread == run.thread
            &&& last == seq![AgentEventView::Cancelled]
        },
{
}

/// A run asks the model with the whole conversation as it stands.
pub proof fn law_request_is_whole(run: RunView)
    ensures
        request_of(run).messages == run.thread,
        request_of(run).system == Some(run.system),
        request_of(run).output_schema == run.output_schema,
        request_of(run).tools == run.tools,
{
}

/// A run starts with what it is given, reports its start, and asks for nothing before it
/// knows whether it has been cancelled.
pub proof fn law_start(
    run_id: usize,
    system: Seq<char>,
    output_schema: Option<ValueView>,
    tools: Seq<crate::tools::ToolDefinitionView>,
    thread: Seq<MessageView>,
)
    ensures
        ({
            let run = crate::runner::run::started_run(run_id, system, output_schema, tools, thread);
            let request = request_of(run);
            &&& run.run_id == run_id
            &&& run.phase is Checkpoint
            &&& request.messages == thread
            &&& request.system == Some(system)
            &&& request.output_schema == output_schema
            &&& request.tools == tools
        }),
{
}

/// Tagging events changes neither the events nor their order.
pub proof fn law_tagging(run_id: usize, events: Seq<AgentEventView>)
    ensures
        tagged(run_id, events).len() == events.len(),
        forall|i: int|
            0 <= i < events.len() ==> (#[trigger] tagged(run_id, events)[i]).agent_event == events[i]
                && tagged(run_id, events)[i].run_id == run_id,
{
}

/// The chunks that are reported at once.
pub open spec fn heard(chunks: Seq<ModelStreamChunkView>) -> Seq<ModelStreamChunkView> {
    chunks.filter(|chunk: ModelStreamChunkView| !(chunk is ToolCall))
}

/// What is forwarded is every chunk but the calls, as it is and in order.
proof fn lemma_forwarded_is_heard(chunks: Seq<ModelStreamChunkView>)
    ensures
        forwarded(chunks).len() == heard(chunks).len(),
        forall|i: int|
            0 <= i < heard(chunks).len() ==> (#[trigger] forwarded(chunks)[i]) == match heard(
                chunks,
            )[i] {
                ModelStreamChunkView::Thinking(text) => AgentEventView::ThinkingDelta(text),
                ModelStreamChunkView::TextDelta(text) => AgentEventView::TextDelta(text),
                other => AgentEventView::Usage(other->Usage_0),
            },
    decreases chunks.len(),
{
    reveal(Seq::filter);
    if chunks.len() > 0 {
        lemma_forwarded_is_heard(chunks.drop_last());
    }
}

/// While the model streams, every piece of thinking and of text and all token counts are
/// reported as they are, in order, and nothing else is; the conversation stays as it is.
pub proof fn law_every_chunk_is_heard(run: RunView, chunks: Seq<ModelStreamChunkView>)
    requires
        is_asking(run),
    ensures
        ({
            let (after, events) = run_trace(run, chunk_inputs(chunks));
            &&& after.thread == run.thread
            &&& after.phase is Streaming
            &&& events.len() == heard(chunks).len()
            &&& forall|i: int|
                0 <= i < events.len() ==> (#[trigger] events[i]) == match heard(chunks)[i] {
                    ModelStreamChunkView::Thinking(text) => AgentEventView::ThinkingDelta(text),
                    ModelStreamChunkView::TextDelta(text) => AgentEventView::TextDelta(text),
                    other => AgentEventView::Usage(other->Usage_0),
                }
        }),
{
    law_streaming(run, chunks);
    lemma_forwarded_is_heard(chunks);
}

/// A call that has no result yet comes to one when its reply is in: the value that the
/// consumer gave, or that the call failed or was cancelled. It is kept, and the results
/// of the other calls stay; or, if it was the last one missing, all of them join the
/// conversation, each with its call, and the run goes on. Nothing is reported.
pub proof fn law_reply_is_kept(run: RunView, batch: ToolBatchView, reply: ToolCallReplyView)
    requires
        run.phase == PhaseView::Tools(batch),
        batch.results.len() == batch.calls.len(),
        0 <= reply.index < batch.calls.len(),
        batch.results[reply.index] is None,
    ensures
        ({
            let (after, events) = run_step(run, RunInputView::Reply(reply));
            let n = run.thread.len() as int;
            let name = batch.calls[reply.index].name;
            let value = match reply.outcome {
                CallOutcomeView::Resolved(value) => value,
                CallOutcomeView::Dropped => ValueView::String("Tool call "@ + name + " failed"@),
                CallOutcomeView::Cancelled => ValueView::String("Cancelled"@),
            };
            &&& events.len() == 0
            &&& after.phase is Tools <==> exists|i: int|
                0 <= i < batch.calls.len() && i != reply.index && (#[trigger] batch.results[i]) is None
            &&& match after.phase {
                PhaseView::Tools(now) => {
                    &&& after.thread == run.thread
                    &&& now.calls == batch.calls
                    &&& now.results == batch.results.update(reply.index, Some(value))
                },
                _ => {
                    &&& after.phase is Checkpoint
                    &&& after.thread.len() == n + batch.calls.len()
                    &&& after.thread.take(n) == run.thread
                    &&& forall|i: int|
                        0 <= i < batch.calls.len() ==> {
                            let message = #[trigger] after.thread[n + i];
                            &&& message.role == Role::User
                            &&& message.content == (MessageContentView::ToolResult {
                                tool_call: batch.calls[i],
                                result: batch.results.update(reply.index, Some(value))[i]->0,
                            })
                            &&& i != reply.index ==> batch.results[i] is Some
                        }
                },
            }
        }),
{
    let (after, events) = run_step(run, RunInputView::Reply(reply));
    let now = replied(batch, reply);
    if !all_settled(now) {
        let missing = choose|i: int|
            0 <= i < now.results.len() && (#[trigger] now.results[i]) is None;
        assert(batch.results[missing] is None);
    }
    if all_settled(now) {
        assert forall|i: int| 0 <= i < batch.calls.len() && i != reply.index implies (
        #[trigger] batch.results[i]) is Some by {
            assert(now.results[i] is Some);
        }
        let n = run.thread.len() as int;
        assert(after.thread.take(n) =~= run.thread);
        assert forall|i: int| 0 <= i < batch.calls.len() implies #[trigger] after.thread[n + i]
            == result_messages(now)[i] && now.results[i] is Some by {
            assert(now.results[i] is Some);
        }
    }
}

/// What does not fit changes nothing: word from the model or a cancellation while calls
/// are carried out, replies while the model is asked, and anything but a checkpoint
/// before the model is asked.
pub proof fn law_what_does_not_fit_changes_nothing(run: RunView, input: RunInputView)
    requires
        match run.phase {
            PhaseView::Checkpoint => !(input is Checkpoint),
            PhaseView::Streaming { .. } => input is Checkpoint || input is Reply,
            PhaseView::Tools(_) => !(input is Reply),
            PhaseView::Finished => true,
        },
    ensures
        run_step(run, input) == (run, Seq::<AgentEventView>::empty()),
{
}

/// What a run waits for goes by where it stands.
pub proof fn law_waiting(calls: Seq<ToolCallView>, reply: Seq<char>, batch: ToolBatchView)
    ensures
        waiting_in(PhaseView::Checkpoint) == Waiting::ForCheckpoint,
        waiting_in(PhaseView::Streaming { calls, reply }) == Waiting::ForModel,
        waiting_in(PhaseView::Tools(batch)) == Waiting::ForTools,
        waiting_in(PhaseView::Finished) == Waiting::ForNothing,
{
}

/// The text that a run has reported is that of its text events, one after the other.
pub proof fn law_reported_text(events: Seq<AgentEventView>)
    ensures
        text_in_events(events) == events.filter(
            |event: AgentEventView| event is TextDelta,
        ).map_values(|event: AgentEventView| event->TextDelta_0).flatten(),
    decreases events.len(),
{
    reveal(Seq::filter);
    let texts = events.filter(|event: AgentEventView| event is TextDelta).map_values(
        |event: AgentEventView| event->TextDelta_0,
    );
    texts.lemma_flatten_and_flatten_alt_are_equivalent();
    if events.len() == 0 {
        assert(texts =~= Seq::empty());
    } else {
        law_reported_text(events.drop_last());
        let fewer = events.drop_last().filter(
            |event: AgentEventView| event is TextDelta,
        ).map_values(|event: AgentEventView| event->TextDelta_0);
        fewer.lemma_flatten_and_flatten_alt_are_equivalent();
        if events.last() is TextDelta {
            assert(texts.drop_last() =~= fewer);
        }
    }
}

/// A call comes to a result once: a second reply to it changes nothing, and neither does
/// a reply to a call that is not there.
pub proof fn law_second_reply_changes_nothing(
    run: RunView,
    batch: ToolBatchView,
    reply: ToolCallReplyView,
)
    requires
        run_wf(run),
        run.phase == PhaseView::Tools(batch),
        !(0 <= reply.index < batch.results.len()) || batch.results[reply.index] is Some,
    ensures
        run_step(run, RunInputView::Reply(reply)) == (run, Seq::<AgentEventView>::empty()),
{
}

} // verus!
