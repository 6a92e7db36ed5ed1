//! What holds of every run of the loop.
use crate::auth::AuthManager;
use crate::error::ErrorView;
use crate::json::{Value, ValueView};
use crate::model::{
    calls_in_chunks, tool_calls_message, tool_result_message, MessageContentView, MessageView,
    ModelStreamChunkView, Role, ToolCallView,
};
use crate::runner::batch::{all_settled, batch_wf, result_messages, settled, ToolBatchView};
use crate::runner::laws::{are_rounds, is_result_of, is_round, lemma_add_round};
use crate::tool_loop::{
    all_reported, first_batch, first_events, first_stages, gate_at, gate_fits, gates_fit, loop_end_step,
    loop_request, loop_step, may_answer, stands_at, started, streamed_calls, with_calls, Gate,
    LoopEventView, LoopInputView, LoopPhaseView, LoopView, Report, Stage, Wording,
};
use crate::tools::Tool;
use vstd::prelude::*;

verus! {

/// Where a loop stands after a series of inputs, and what it has reported on the
/// way.
pub open spec fn loop_trace<W: Wording>(run: LoopView, inputs: Seq<LoopInputView>) -> (
    LoopView,
    Seq<LoopEventView>,
)
    decreases inputs.len(),
{
    if inputs.len() == 0 {
        (run, Seq::empty())
    } else {
        let (before, events) = loop_trace::<W>(run, inputs.drop_last());
        let (after, more) = loop_step::<W>(before, inputs.last());
        (after, events + more)
    }
}

/// Calls are in order: each has a place for its answer and stands somewhere, those
/// that are over have their answer and the others have none.
pub open spec fn calls_wf(batch: ToolBatchView, stages: Seq<Stage>) -> bool {
    &&& batch_wf(batch)
    &&& stages.len() == batch.calls.len()
    &&& forall|i: int|
        0 <= i < stages.len() ==> ((#[trigger] stages[i]) == Stage::Over <==> batch.results[i] is Some)
}

/// A loop is in order: while it carries out calls these are, and not all are over.
pub open spec fn loop_wf(run: LoopView) -> bool {
    run.phase matches LoopPhaseView::Tools { batch, stages } ==> calls_wf(batch, stages)
        && !all_settled(batch) && batch.calls.len() > 0
}

/// What a loop is about does not change.
pub open spec fn same_terms(left: LoopView, right: LoopView) -> bool {
    &&& left.system == right.system
    &&& left.output_schema == right.output_schema
    &&& left.tools == right.tools
}

/// A step keeps a loop in order, keeps its terms, and only adds to the conversation.
proof fn lemma_step<W: Wording>(run: LoopView, input: LoopInputView)
    requires
        loop_wf(run),
    ensures
        loop_wf(loop_step::<W>(run, input).0),
        same_terms(run, loop_step::<W>(run, input).0),
        run.thread.is_prefix_of(loop_step::<W>(run, input).0.thread),
{
    match (run.phase, input) {
        (LoopPhaseView::Streaming { calls }, LoopInputView::StreamEnded { gates }) => {
            if calls.len() > 0 {
                let batch = first_batch::<W>(calls, gates);
                let stages = first_stages(calls, gates);
                assert(calls_wf(batch, stages));
                let begun = run.thread.push(tool_calls_message(calls));
                assert(run.thread =~= begun.take(run.thread.len() as int));
                let after = loop_step::<W>(run, input).0.thread;
                assert(run.thread =~= after.take(run.thread.len() as int));
            }
        },
        _ => {},
    }
}

/// In every state that a loop can come to it is in order, its terms are those it was
/// started with, and its conversation begins with the one it was started with.
pub proof fn law_loop_keeps_terms<W: Wording>(run: LoopView, inputs: Seq<LoopInputView>)
    requires
        loop_wf(run),
    ensures
        loop_wf(loop_trace::<W>(run, inputs).0),
        same_terms(run, loop_trace::<W>(run, inputs).0),
        run.thread.is_prefix_of(loop_trace::<W>(run, inputs).0.thread),
    decreases inputs.len(),
{
    if inputs.len() > 0 {
        let before = loop_trace::<W>(run, inputs.drop_last()).0;
        law_loop_keeps_terms::<W>(run, inputs.drop_last());
        lemma_step::<W>(before, inputs.last());
        let after = loop_trace::<W>(run, inputs).0;
        assert(run.thread =~= after.thread.take(run.thread.len() as int));
    }
}

/// Every request to the model carries the agent's instructions and schema and the
/// registered tools, and begins with the conversation that the loop was started with.
pub proof fn law_loop_requests<W: Wording>(run: LoopView, inputs: Seq<LoopInputView>)
    requires
        loop_wf(run),
    ensures
        ({
            let request = loop_request(loop_trace::<W>(run, inputs).0);
            &&& request.system == Some(run.system)
            &&& request.output_schema == run.output_schema
            &&& request.tools == run.tools
            &&& run.thread.is_prefix_of(request.messages)
        }),
{
    law_loop_keeps_terms::<W>(run, inputs);
}

/// Once a loop is over, whatever it is told changes nothing and is not reported on.
pub proof fn law_finished_loop_is_silent<W: Wording>(run: LoopView, inputs: Seq<LoopInputView>)
    requires
        run.phase is Finished,
    ensures
        loop_trace::<W>(run, inputs) == (run, Seq::<LoopEventView>::empty()),
    decreases inputs.len(),
{
    if inputs.len() > 0 {
        law_finished_loop_is_silent::<W>(run, inputs.drop_last());
        assert(Seq::<LoopEventView>::empty() + Seq::<LoopEventView>::empty() =~= Seq::empty());
    }
}

/// The messages that a loop has added to a conversation of `n` messages are rounds of
/// tool use; the calls of the last one may be waiting for results.
pub open spec fn is_loop_paired(run: LoopView, n: int) -> bool {
    let added = run.thread.skip(n);
    &&& n <= run.thread.len()
    &&& match run.phase {
        LoopPhaseView::Tools { batch, stages } => added.len() > 0 && added.last()
            == tool_calls_message(batch.calls) && are_rounds(added.drop_last()),
        _ => are_rounds(added),
    }
}

/// Calls with all their answers make a round.
proof fn lemma_settled_round(batch: ToolBatchView)
    requires
        batch_wf(batch),
        batch.calls.len() > 0,
    ensures
        is_round(seq![tool_calls_message(batch.calls)] + result_messages(batch)),
{
    let round = seq![tool_calls_message(batch.calls)] + result_messages(batch);
    assert forall|i: int| 1 <= i < round.len() implies is_result_of(
        #[trigger] round[i],
        batch.calls[i - 1],
    ) by {
        assert(round[i] == tool_result_message(batch.calls[i - 1], batch.results[i - 1]->0));
    }
}

/// Going on with calls keeps calls and results paired.
proof fn lemma_with_calls_paired(run: LoopView, batch: ToolBatchView, stages: Seq<Stage>, n: int)
    requires
        0 <= n < run.thread.len(),
        batch_wf(batch),
        batch.calls.len() > 0,
        run.thread.last() == tool_calls_message(batch.calls),
        are_rounds(run.thread.skip(n).drop_last()),
    ensures
        is_loop_paired(with_calls(run, batch, stages), n),
{
    let added = run.thread.skip(n);
    if all_settled(batch) {
        let round = seq![tool_calls_message(batch.calls)] + result_messages(batch);
        lemma_settled_round(batch);
        lemma_add_round(added.drop_last(), round);
        assert(with_calls(run, batch, stages).thread.skip(n) =~= added.drop_last() + round);
    }
}

/// A step keeps calls and results paired.
proof fn lemma_step_paired<W: Wording>(run: LoopView, input: LoopInputView, n: int)
    requires
        loop_wf(run),
        0 <= n,
        is_loop_paired(run, n),
    ensures
        is_loop_paired(loop_step::<W>(run, input).0, n),
{
    let added = run.thread.skip(n);
    match (run.phase, input) {
        (LoopPhaseView::Streaming { calls }, LoopInputView::StreamEnded { gates }) => {
            if calls.len() > 0 {
                let begun = LoopView { thread: run.thread.push(tool_calls_message(calls)), ..run };
                assert(begun.thread.skip(n).drop_last() =~= added);
                lemma_with_calls_paired(
                    begun,
                    first_batch::<W>(calls, gates),
                    first_stages(calls, gates),
                    n,
                );
            }
        },
        (
            LoopPhaseView::Tools { batch, stages },
            LoopInputView::Verdict { index, denied: Some(reason) },
        ) => {
            if stands_at(batch, stages, index, Stage::Guarded) {
                lemma_with_calls_paired(
                    run,
                    settled(batch, index, W::denied_value(reason)),
                    stages.update(index, Stage::Over),
                    n,
                );
            }
        },
        (LoopPhaseView::Tools { batch, stages }, LoopInputView::ToolEnded { index, outcome }) => {
            if stands_at(batch, stages, index, Stage::Running) {
                let value = match outcome {
                    Ok(result) => result,
                    Err(error) => W::failed_value(error),
                };
                lemma_with_calls_paired(
                    run,
                    settled(batch, index, value),
                    stages.update(index, Stage::Over),
                    n,
                );
            }
        },
        _ => {},
    }
}

/// In every state that a loop can come to, what it has added to the conversation are
/// whole rounds of tool use: each message with tool calls is followed by one result
/// for each of its calls, in order, whether the tool ran, failed, was denied or is
/// unknown. Only while calls are carried out the last round lacks its results.
pub proof fn law_calls_and_results_are_paired<W: Wording>(run: LoopView, inputs: Seq<LoopInputView>)
    requires
        run.phase is Streaming,
    ensures
        is_loop_paired(loop_trace::<W>(run, inputs).0, run.thread.len() as int),
    decreases inputs.len(),
{
    let n = run.thread.len() as int;
    if inputs.len() == 0 {
        assert(run.thread.skip(n) =~= Seq::empty());
    } else {
        law_calls_and_results_are_paired::<W>(run, inputs.drop_last());
        law_loop_keeps_terms::<W>(run, inputs.drop_last());
        lemma_step_paired::<W>(loop_trace::<W>(run, inputs.drop_last()).0, inputs.last(), n);
    }
}

/// A mark in the history of a call.
pub ghost enum Mark {
    Started,
    Denied,
    Ended,
}

/// The history of call `index` in what has been reported.
pub open spec fn history(events: Seq<LoopEventView>, index: int) -> Seq<Mark>
    decreases events.len(),
{
    if events.len() == 0 {
        Seq::empty()
    } else {
        let before = history(events.drop_last(), index);
        match events.last() {
            LoopEventView::Started { index: i, .. } => if i == index {
                before.push(Mark::Started)
            } else {
                before
            },
            LoopEventView::Denied { index: i, .. } => if i == index {
                before.push(Mark::Denied)
            } else {
                before
            },
            LoopEventView::Done { index: i, .. } => if i == index {
                before.push(Mark::Ended)
            } else {
                before
            },
            LoopEventView::Failed { index: i, .. } => if i == index {
                before.push(Mark::Ended)
            } else {
                before
            },
            _ => before,
        }
    }
}

/// Histories follow on one another.
proof fn lemma_history_append(left: Seq<LoopEventView>, right: Seq<LoopEventView>, index: int)
    ensures
        history(left + right, index) == history(left, index) + history(right, index),
    decreases right.len(),
{
    if right.len() == 0 {
        assert(left + right =~= left);
        assert(history(left, index) + history(right, index) =~= history(left, index));
    } else {
        lemma_history_append(left, right.drop_last(), index);
        assert((left + right).drop_last() =~= left + right.drop_last());
        assert((left + right).last() == right.last());
        assert(history(left + right, index) =~= history(left, index) + history(right, index));
    }
}

/// When the calls of a turn begin, those that nothing stands in the way of are
/// reported as started, and no others.
pub proof fn law_first_events(calls: Seq<ToolCallView>, gates: Seq<Gate>, n: int, index: int)
    requires
        0 <= n <= calls.len(),
        0 <= index,
    ensures
        history(first_events(calls, gates, n), index) == (if index < n && gate_at(gates, index)
            == Gate::Open {
            seq![Mark::Started]
        } else {
            Seq::empty()
        }),
    decreases n,
{
    if n > 0 {
        law_first_events(calls, gates, n - 1, index);
        let before = first_events(calls, gates, n - 1);
        let whole = first_events(calls, gates, n);
        if gate_at(gates, n - 1) == Gate::Open {
            assert(whole.drop_last() =~= before);
            assert(Seq::<Mark>::empty().push(Mark::Started) =~= seq![Mark::Started]);
        }
    }
}

/// What may have been reported of a call between two stages: approval or denial comes
/// before anything else, a call that is denied does not start, and one that has
/// started ends once.
pub open spec fn fits(from: Stage, marks: Seq<Mark>, to: Stage) -> bool {
    match (from, to) {
        (Stage::Guarded, Stage::Guarded) => marks == Seq::<Mark>::empty(),
        (Stage::Guarded, Stage::Running) => marks == seq![Mark::Started],
        (Stage::Guarded, Stage::Over) => marks == seq![Mark::Denied] || marks == seq![
            Mark::Started,
            Mark::Ended,
        ],
        (Stage::Running, Stage::Running) => marks == Seq::<Mark>::empty(),
        (Stage::Running, Stage::Over) => marks == seq![Mark::Ended],
        (Stage::Over, Stage::Over) => marks == Seq::<Mark>::empty(),
        _ => false,
    }
}

/// Where call `index` stands; once the loop has gone on, all calls are over.
pub open spec fn stage_now(run: LoopView, index: int) -> Stage {
    match run.phase {
        LoopPhaseView::Tools { batch, stages } => stages[index],
        _ => Stage::Over,
    }
}

/// The model does not come to the end of another turn.
pub open spec fn within_turn(inputs: Seq<LoopInputView>) -> bool {
    forall|i: int| 0 <= i < inputs.len() ==> !((#[trigger] inputs[i]) is StreamEnded)
}

/// One step of a call's history.
proof fn lemma_step_history<W: Wording>(
    run: LoopView,
    input: LoopInputView,
    from: Stage,
    marks: Seq<Mark>,
    index: int,
)
    requires
        loop_wf(run),
        !(input is StreamEnded),
        run.phase matches LoopPhaseView::Tools { batch, .. } ==> 0 <= index < batch.calls.len(),
        fits(from, marks, stage_now(run, index)),
    ensures
        fits(
            from,
            marks + history(loop_step::<W>(run, input).1, index),
            stage_now(loop_step::<W>(run, input).0, index),
        ),
{
    reveal_with_fuel(history, 2);
    let (after, events) = loop_step::<W>(run, input);
    let more = history(events, index);
    assert(events.len() <= 1);
    if events.len() == 1 {
        assert(events.drop_last() =~= Seq::empty());
    }
    if more.len() == 0 {
        assert(more =~= Seq::empty());
        assert(marks + more =~= marks);
    }
    match run.phase {
        LoopPhaseView::Tools { batch, stages } => {
            match input {
                LoopInputView::Verdict { index: i, denied } => {
                    if stands_at(batch, stages, i, Stage::Guarded) {
                        if i == index {
                            assert(marks =~= Seq::empty());
                            assert(marks + more =~= more);
                            if denied is None {
                                assert(more =~= seq![Mark::Started]);
                            } else {
                                assert(more =~= seq![Mark::Denied]);
                            }
                        } else {
                            lemma_other_call::<W>(run, batch, stages, input, i, index);
                        }
                    }
                },
                LoopInputView::ToolEnded { index: i, outcome } => {
                    if stands_at(batch, stages, i, Stage::Running) {
                        if i == index {
                            assert(more =~= seq![Mark::Ended]);
                            if from == Stage::Guarded {
                                assert(marks + more =~= seq![Mark::Started, Mark::Ended]);
                            } else {
                                assert(marks + more =~= seq![Mark::Ended]);
                            }
                        } else {
                            lemma_other_call::<W>(run, batch, stages, input, i, index);
                        }
                    }
                },
                _ => {},
            }
        },
        _ => {},
    }
}

/// What happens to one call leaves another where it stands: if the loop goes on, the
/// other was over.
proof fn lemma_other_call<W: Wording>(
    run: LoopView,
    batch: ToolBatchView,
    stages: Seq<Stage>,
    input: LoopInputView,
    i: int,
    index: int,
)
    requires
        loop_wf(run),
        run.phase == (LoopPhaseView::Tools { batch, stages }),
        0 <= index < batch.calls.len(),
        i != index,
        match input {
            LoopInputView::Verdict { index: at, .. } => at == i,
            LoopInputView::ToolEnded { index: at, .. } => at == i,
            _ => false,
        },
    ensures
        stage_now(loop_step::<W>(run, input).0, index) == stages[index],
{
    let after = loop_step::<W>(run, input).0;
    if !(after.phase is Tools) {
        match input {
            LoopInputView::Verdict { denied, .. } => {
                let now = settled(batch, i, W::denied_value(denied->0));
                assert(all_settled(now));
                assert(now.results[index] == batch.results[index]);
                assert(now.results[index] is Some);
            },
            LoopInputView::ToolEnded { outcome, .. } => {
                let value = match outcome {
                    Ok(result) => result,
                    Err(error) => W::failed_value(error),
                };
                let now = settled(batch, i, value);
                assert(all_settled(now));
                assert(now.results[index] == batch.results[index]);
                assert(now.results[index] is Some);
            },
            _ => {},
        }
        assert(stages[index] == Stage::Over);
    }
}

/// Within a turn, what is reported of a call fits the stages it goes through.
pub proof fn law_call_history<W: Wording>(
    run: LoopView,
    batch: ToolBatchView,
    stages: Seq<Stage>,
    inputs: Seq<LoopInputView>,
    index: int,
)
    requires
        loop_wf(run),
        run.phase == (LoopPhaseView::Tools { batch, stages }),
        within_turn(inputs),
        0 <= index < batch.calls.len(),
    ensures
        fits(
            stages[index],
            history(loop_trace::<W>(run, inputs).1, index),
            stage_now(loop_trace::<W>(run, inputs).0, index),
        ),
        loop_trace::<W>(run, inputs).0.phase matches LoopPhaseView::Tools { batch: now, .. }
            ==> now.calls == batch.calls,
    decreases inputs.len(),
{
    if inputs.len() > 0 {
        let before_inputs = inputs.drop_last();
        assert(within_turn(before_inputs)) by {
            assert forall|i: int| 0 <= i < before_inputs.len() implies !((#[trigger] before_inputs[i]) is StreamEnded) by {
                assert(before_inputs[i] == inputs[i]);
            }
        }
        law_call_history::<W>(run, batch, stages, before_inputs, index);
        law_loop_keeps_terms::<W>(run, before_inputs);
        let (before, events) = loop_trace::<W>(run, before_inputs);
        assert(!(inputs[inputs.len() - 1] is StreamEnded));
        lemma_step_history::<W>(
            before,
            inputs.last(),
            stages[index],
            history(events, index),
            index,
        );
        lemma_history_append(events, loop_step::<W>(before, inputs.last()).1, index);
    }
}

/// The whole history of a call, from the end of the model's turn until the model is
/// asked again: nothing is reported of a call to an unknown tool; a call that needs
/// no approval starts and ends; one that needs approval is denied, or else starts and
/// ends.
pub proof fn law_whole_history<W: Wording>(
    run: LoopView,
    calls: Seq<ToolCallView>,
    gates: Seq<Gate>,
    inputs: Seq<LoopInputView>,
    index: int,
)
    requires
        run.phase == (LoopPhaseView::Streaming { calls }),
        within_turn(inputs),
        0 <= index < calls.len(),
        !(loop_trace::<W>(loop_end_step::<W>(run, calls, gates).0, inputs).0.phase is Tools),
    ensures
        ({
            let (begun, first) = loop_end_step::<W>(run, calls, gates);
            let marks = history(first + loop_trace::<W>(begun, inputs).1, index);
            match gate_at(gates, index) {
                Gate::Unknown => marks == Seq::<Mark>::empty(),
                Gate::Open => marks == seq![Mark::Started, Mark::Ended],
                Gate::Guarded => marks == seq![Mark::Denied] || marks == seq![
                    Mark::Started,
                    Mark::Ended,
                ],
            }
        }),
{
    let (begun, first) = loop_end_step::<W>(run, calls, gates);
    let more = loop_trace::<W>(begun, inputs).1;
    lemma_step::<W>(run, LoopInputView::StreamEnded { gates });
    law_first_events(calls, gates, calls.len() as int, index);
    lemma_history_append(first, more, index);
    let batch = first_batch::<W>(calls, gates);
    let stages = first_stages(calls, gates);
    if all_settled(batch) {
        assert(batch.results[index] is Some);
        lemma_no_calls_no_history::<W>(begun, inputs, index);
        assert(history(first, index) + history(more, index) =~= Seq::empty());
    } else {
        law_call_history::<W>(begun, batch, stages, inputs, index);
        let tail = history(more, index);
        match gate_at(gates, index) {
            Gate::Unknown => {
                assert(history(first, index) + tail =~= Seq::empty());
            },
            Gate::Open => {
                assert(history(first, index) + tail =~= seq![Mark::Started, Mark::Ended]);
            },
            Gate::Guarded => {
                assert(history(first, index) + tail =~= tail);
            },
        }
    }
}

/// While the model is asked, nothing is reported of calls.
proof fn lemma_no_calls_no_history<W: Wording>(run: LoopView, inputs: Seq<LoopInputView>, index: int)
    requires
        !(run.phase is Tools),
        within_turn(inputs),
    ensures
        !(loop_trace::<W>(run, inputs).0.phase is Tools),
        history(loop_trace::<W>(run, inputs).1, index) == Seq::<Mark>::empty(),
    decreases inputs.len(),
{
    if inputs.len() > 0 {
        let before_inputs = inputs.drop_last();
        assert(within_turn(before_inputs)) by {
            assert forall|i: int| 0 <= i < before_inputs.len() implies !((#[trigger] before_inputs[i]) is StreamEnded) by {
                assert(before_inputs[i] == inputs[i]);
            }
        }
        lemma_no_calls_no_history::<W>(run, before_inputs, index);
        let (before, events) = loop_trace::<W>(run, before_inputs);
        assert(!(inputs[inputs.len() - 1] is StreamEnded));
        let more = loop_step::<W>(before, inputs.last()).1;
        reveal_with_fuel(history, 2);
        if more.len() == 1 {
            assert(more.drop_last() =~= Seq::empty());
        }
        lemma_history_append(events, more, index);
        assert(history(events, index) + history(more, index) =~= Seq::empty());
    }
}

/// The answer to call `index` that events tell of: the result of a tool that returned,
/// or what the model reads for one that failed or was denied.
pub open spec fn answer_in<W: Wording>(events: Seq<LoopEventView>, index: int) -> Option<ValueView>
    decreases events.len(),
{
    if events.len() == 0 {
        None
    } else {
        let before = answer_in::<W>(events.drop_last(), index);
        match events.last() {
            LoopEventView::Done { index: i, result, .. } => if i == index {
                Some(result)
            } else {
                before
            },
            LoopEventView::Failed { index: i, error, .. } => if i == index {
                Some(W::failed_value(error))
            } else {
                before
            },
            LoopEventView::Denied { index: i, reason, .. } => if i == index {
                Some(W::denied_value(reason))
            } else {
                before
            },
            _ => before,
        }
    }
}

/// One more event at most: the answer is that of the event, or else the one before.
proof fn lemma_answer_append<W: Wording>(
    events: Seq<LoopEventView>,
    more: Seq<LoopEventView>,
    index: int,
)
    requires
        more.len() <= 1,
    ensures
        more.len() == 0 ==> answer_in::<W>(events + more, index) == answer_in::<W>(events, index),
        more.len() == 1 ==> answer_in::<W>(events + more, index) == answer_in::<W>(
            events.push(more[0]),
            index,
        ),
{
    if more.len() == 0 {
        assert(events + more =~= events);
    } else {
        assert(events + more =~= events.push(more[0]));
    }
}

/// Calls that only start have no answers yet.
proof fn lemma_first_events_answer<W: Wording>(
    calls: Seq<ToolCallView>,
    gates: Seq<Gate>,
    n: int,
    index: int,
)
    ensures
        answer_in::<W>(first_events(calls, gates, n), index) is None,
    decreases n,
{
    if n > 0 {
        lemma_first_events_answer::<W>(calls, gates, n - 1, index);
        if gate_at(gates, n - 1) == Gate::Open {
            assert(first_events(calls, gates, n).drop_last() =~= first_events(calls, gates, n - 1));
        }
    }
}

/// The answer to call `index` by now, where there is one.
pub open spec fn answer_by<W: Wording>(
    calls: Seq<ToolCallView>,
    gates: Seq<Gate>,
    events: Seq<LoopEventView>,
    index: int,
) -> Option<ValueView> {
    if index >= gates.len() || gates[index] == Gate::Unknown {
        Some(W::unknown_value(calls[index].name))
    } else {
        answer_in::<W>(events, index)
    }
}

/// `message` tells the model the answer to `call`.
pub open spec fn tells(message: MessageView, call: ToolCallView, answer: ValueView) -> bool {
    &&& message.role == Role::User
    &&& message.content == (MessageContentView::ToolResult { tool_call: call, result: answer })
}

/// There is an answer to `call`, and `message` tells the model of it.
spec fn told(message: MessageView, call: ToolCallView, answer: Option<ValueView>) -> bool {
    answer is Some && tells(message, call, answer->0)
}

/// A loop after the end of the model's turn: while calls are carried out it holds the
/// answers that the events tell of, and once it has gone on they stand in the
/// conversation.
spec fn holds_answers<W: Wording>(
    thread: Seq<MessageView>,
    calls: Seq<ToolCallView>,
    gates: Seq<Gate>,
    now: LoopView,
    events: Seq<LoopEventView>,
) -> bool {
    match now.phase {
        LoopPhaseView::Tools { batch, stages } => {
            &&& now.thread == thread
            &&& batch.calls == calls
            &&& batch.results.len() == calls.len()
            &&& forall|i: int|
                0 <= i < calls.len() ==> (#[trigger] batch.results[i]) == answer_by::<W>(
                    calls,
                    gates,
                    events,
                    i,
                )
        },
        _ => {
            &&& now.thread.len() == thread.len() + calls.len()
            &&& now.thread.take(thread.len() as int) == thread
            &&& forall|i: int|
                0 <= i < calls.len() ==> told(
                    #[trigger] now.thread[thread.len() + i],
                    calls[i],
                    answer_by::<W>(calls, gates, events, i),
                )
        },
    }
}

/// Going on with calls keeps the answers.
proof fn lemma_with_calls_holds<W: Wording>(
    run: LoopView,
    batch: ToolBatchView,
    stages: Seq<Stage>,
    calls: Seq<ToolCallView>,
    gates: Seq<Gate>,
    events: Seq<LoopEventView>,
)
    requires
        batch.calls == calls,
        batch.results.len() == calls.len(),
        forall|i: int|
            0 <= i < calls.len() ==> (#[trigger] batch.results[i]) == answer_by::<W>(
                calls,
                gates,
                events,
                i,
            ),
    ensures
        holds_answers::<W>(run.thread, calls, gates, with_calls(run, batch, stages), events),
{
    if all_settled(batch) {
        let now = with_calls(run, batch, stages);
        let n = run.thread.len() as int;
        assert(now.thread.take(n) =~= run.thread);
        assert forall|i: int| 0 <= i < calls.len() implies told(
            #[trigger] now.thread[run.thread.len() + i],
            calls[i],
            answer_by::<W>(calls, gates, events, i),
        ) by {
            assert(batch.results[i] is Some);
            assert(now.thread[n + i] == result_messages(batch)[i]);
        }
    }
}

/// A step within a turn keeps the answers.
proof fn lemma_step_holds<W: Wording>(
    thread: Seq<MessageView>,
    calls: Seq<ToolCallView>,
    gates: Seq<Gate>,
    now: LoopView,
    events: Seq<LoopEventView>,
    input: LoopInputView,
)
    requires
        loop_wf(now),
        !(input is StreamEnded),
        holds_answers::<W>(thread, calls, gates, now, events),
        now.phase matches LoopPhaseView::Tools { batch, stages } ==> forall|i: int|
            0 <= i < stages.len() && (#[trigger] stages[i]) != Stage::Over ==> i < gates.len()
                && gates[i] != Gate::Unknown,
    ensures
        holds_answers::<W>(
            thread,
            calls,
            gates,
            loop_step::<W>(now, input).0,
            events + loop_step::<W>(now, input).1,
        ),
{
    let (after, more) = loop_step::<W>(now, input);
    assert(more.len() <= 1);
    assert forall|i: int|
        more.len() == 0 implies #[trigger] answer_in::<W>(events + more, i) == answer_in::<W>(
        events,
        i,
    ) by {
        lemma_answer_append::<W>(events, more, i);
    }
    assert forall|i: int| more.len() == 1 implies #[trigger] answer_in::<W>(events + more, i)
        == answer_in::<W>(events.push(more[0]), i) by {
        lemma_answer_append::<W>(events, more, i);
    }
    if more.len() == 1 {
        assert(events.push(more[0]).drop_last() =~= events);
    }
    match now.phase {
        LoopPhaseView::Tools { batch, stages } => {
            match input {
                LoopInputView::Verdict { index, denied: Some(reason) } => {
                    if stands_at(batch, stages, index, Stage::Guarded) {
                        assert(stages[index] != Stage::Over);
                        let settled_batch = settled(batch, index, W::denied_value(reason));
                        assert(batch.results[index] is None);
                        assert forall|i: int| 0 <= i < calls.len() implies (
                        #[trigger] settled_batch.results[i]) == answer_by::<W>(
                            calls,
                            gates,
                            events + more,
                            i,
                        ) by {
                            assert(batch.results[i] == answer_by::<W>(calls, gates, events, i));
                        }
                        lemma_with_calls_holds::<W>(
                            now,
                            settled_batch,
                            stages.update(index, Stage::Over),
                            calls,
                            gates,
                            events + more,
                        );
                    }
                },
                LoopInputView::ToolEnded { index, outcome } => {
                    if stands_at(batch, stages, index, Stage::Running) {
                        assert(stages[index] != Stage::Over);
                        let value = match outcome {
                            Ok(result) => result,
                            Err(error) => W::failed_value(error),
                        };
                        let settled_batch = settled(batch, index, value);
                        assert(batch.results[index] is None);
                        assert forall|i: int| 0 <= i < calls.len() implies (
                        #[trigger] settled_batch.results[i]) == answer_by::<W>(
                            calls,
                            gates,
                            events + more,
                            i,
                        ) by {
                            assert(batch.results[i] == answer_by::<W>(calls, gates, events, i));
                        }
                        lemma_with_calls_holds::<W>(
                            now,
                            settled_batch,
                            stages.update(index, Stage::Over),
                            calls,
                            gates,
                            events + more,
                        );
                    }
                },
                _ => {},
            }
        },
        _ => {},
    }
}

/// A call to an unknown tool is over from the start.
spec fn unknown_is_over(now: LoopView, gates: Seq<Gate>) -> bool {
    now.phase matches LoopPhaseView::Tools { batch, stages } ==> forall|i: int|
        0 <= i < stages.len() && (#[trigger] stages[i]) != Stage::Over ==> i < gates.len()
            && gates[i] != Gate::Unknown
}

/// The answers along a turn.
proof fn lemma_answers<W: Wording>(
    run: LoopView,
    calls: Seq<ToolCallView>,
    gates: Seq<Gate>,
    inputs: Seq<LoopInputView>,
)
    requires
        run.phase == (LoopPhaseView::Streaming { calls }),
        calls.len() > 0,
        within_turn(inputs),
    ensures
        ({
            let (begun, first) = loop_step::<W>(run, LoopInputView::StreamEnded { gates });
            let (now, more) = loop_trace::<W>(begun, inputs);
            &&& holds_answers::<W>(
                run.thread.push(tool_calls_message(calls)),
                calls,
                gates,
                now,
                first + more,
            )
            &&& unknown_is_over(now, gates)
            &&& loop_wf(now)
        }),
    decreases inputs.len(),
{
    let thread = run.thread.push(tool_calls_message(calls));
    let (begun, first) = loop_step::<W>(run, LoopInputView::StreamEnded { gates });
    lemma_step::<W>(run, LoopInputView::StreamEnded { gates });
    if inputs.len() == 0 {
        let batch = first_batch::<W>(calls, gates);
        assert forall|i: int| 0 <= i < calls.len() implies (#[trigger] batch.results[i])
            == answer_by::<W>(calls, gates, first, i) by {
            lemma_first_events_answer::<W>(calls, gates, calls.len() as int, i);
        }
        let start = LoopView { thread, ..run };
        lemma_with_calls_holds::<W>(start, batch, first_stages(calls, gates), calls, gates, first);
        assert(first + Seq::<LoopEventView>::empty() =~= first);
    } else {
        let before_inputs = inputs.drop_last();
        assert(within_turn(before_inputs)) by {
            assert forall|i: int| 0 <= i < before_inputs.len() implies !((#[trigger] before_inputs[i]) is StreamEnded) by {
                assert(before_inputs[i] == inputs[i]);
            }
        }
        lemma_answers::<W>(run, calls, gates, before_inputs);
        let (before, events) = loop_trace::<W>(begun, before_inputs);
        assert(!(inputs[inputs.len() - 1] is StreamEnded));
        lemma_step::<W>(before, inputs.last());
        lemma_step_holds::<W>(thread, calls, gates, before, first + events, inputs.last());
        let more = loop_step::<W>(before, inputs.last()).1;
        assert((first + events) + more =~= first + (events + more));
    }
}

/// What the model gets to read is what came of the calls. From the end of the model's
/// turn until it is asked again the conversation grows by the message with the calls and
/// by one message for each call, in order: for a tool that returned with exactly the
/// result that was reported, for one that failed or was denied with the wording for the
/// error or the reason that was reported, and for an unknown tool with the wording for
/// its name.
pub proof fn law_answers_reach_model<W: Wording>(
    run: LoopView,
    calls: Seq<ToolCallView>,
    gates: Seq<Gate>,
    inputs: Seq<LoopInputView>,
)
    requires
        run.phase == (LoopPhaseView::Streaming { calls }),
        calls.len() > 0,
        within_turn(inputs),
        !(loop_trace::<W>(
            loop_step::<W>(run, LoopInputView::StreamEnded { gates }).0,
            inputs,
        ).0.phase is Tools),
    ensures
        ({
            let (begun, first) = loop_step::<W>(run, LoopInputView::StreamEnded { gates });
            let (now, more) = loop_trace::<W>(begun, inputs);
            let events = first + more;
            let n = run.thread.len() as int;
            &&& loop_request(now).messages == now.thread
            &&& now.thread.len() == n + 1 + calls.len()
            &&& now.thread.take(n) == run.thread
            &&& now.thread[n].role == Role::Assistant
            &&& now.thread[n].content == MessageContentView::ToolCalls(calls)
            &&& forall|i: int|
                0 <= i < calls.len() ==> {
                    let message = #[trigger] now.thread[n + 1 + i];
                    &&& message.role == Role::User
                    &&& message.content matches MessageContentView::ToolResult { tool_call, result }
                    &&& tool_call == calls[i]
                    &&& if i >= gates.len() || gates[i] == Gate::Unknown {
                        result == W::unknown_value(calls[i].name)
                    } else {
                        answer_in::<W>(events, i) == Some(result)
                    }
                }
        }),
{
    lemma_answers::<W>(run, calls, gates, inputs);
    let (begun, first) = loop_step::<W>(run, LoopInputView::StreamEnded { gates });
    let (now, more) = loop_trace::<W>(begun, inputs);
    let thread = run.thread.push(tool_calls_message(calls));
    let n = run.thread.len() as int;
    assert(now.thread.take(n + 1) == thread);
    assert(now.thread[n] == now.thread.take(n + 1)[n]);
    assert(now.thread.take(n) =~= now.thread.take(n + 1).take(n));
    assert(thread.take(n) =~= run.thread);
    assert forall|i: int| 0 <= i < calls.len() implies told(
        #[trigger] now.thread[n + 1 + i],
        calls[i],
        answer_by::<W>(calls, gates, first + more, i),
    ) by {
        assert(now.thread[thread.len() + i] == now.thread[n + 1 + i]);
    }
}

/// A call that runs and ends with a value, or with an error, is reported so, and that
/// value, or the wording for that error, is the answer that is kept for it, or that
/// joins the conversation if all the others have theirs: then the model is asked again.
/// The other answers stay.
pub proof fn law_tool_result_is_kept<W: Wording>(
    run: LoopView,
    batch: ToolBatchView,
    stages: Seq<Stage>,
    index: int,
    outcome: Result<ValueView, ErrorView>,
)
    requires
        loop_wf(run),
        run.phase == (LoopPhaseView::Tools { batch, stages }),
        0 <= index < batch.calls.len(),
        stages[index] == Stage::Running,
    ensures
        ({
            let (after, events) = loop_step::<W>(
                run,
                LoopInputView::ToolEnded { index, outcome },
            );
            let n = run.thread.len() as int;
            let name = batch.calls[index].name;
            &&& match outcome {
                Ok(result) => events == seq![LoopEventView::Done { index, name, result }],
                Err(error) => events == seq![LoopEventView::Failed { index, name, error }],
            }
            &&& after.phase is Tools <==> exists|i: int|
                0 <= i < batch.calls.len() && i != index && (#[trigger] batch.results[i]) is None
            &&& match after.phase {
                LoopPhaseView::Tools { batch: now, stages: places } => {
                    &&& now.calls == batch.calls
                    &&& places == stages.update(index, Stage::Over)
                    &&& after.thread == run.thread
                    &&& forall|i: int|
                        0 <= i < batch.calls.len() ==> (#[trigger] now.results[i]) == (if i == index {
                            match outcome {
                                Ok(result) => Some(result),
                                Err(error) => Some(W::failed_value(error)),
                            }
                        } else {
                            batch.results[i]
                        })
                },
                _ => {
                    &&& after.phase == (LoopPhaseView::Streaming { calls: Seq::empty() })
                    &&& after.thread.len() == n + batch.calls.len()
                    &&& after.thread.take(n) == run.thread
                    &&& forall|i: int|
                        0 <= i < batch.calls.len() ==> tells(
                            #[trigger] after.thread[n + i],
                            batch.calls[i],
                            if i == index {
                                match outcome {
                                    Ok(result) => result,
                                    Err(error) => W::failed_value(error),
                                }
                            } else {
                                batch.results[i]->0
                            },
                        )
                },
            }
        }),
{
    let (after, events) = loop_step::<W>(run, LoopInputView::ToolEnded { index, outcome });
    let value = match outcome {
        Ok(result) => result,
        Err(error) => W::failed_value(error),
    };
    let now = settled(batch, index, value);
    assert(batch.results[index] is None);
    if !all_settled(now) {
        let missing = choose|i: int|
            0 <= i < now.results.len() && (#[trigger] now.results[i]) is None;
        assert(batch.results[missing] is None);
    }
    if all_settled(now) {
        assert forall|i: int| 0 <= i < batch.calls.len() && i != index implies (
        #[trigger] batch.results[i]) is Some by {
            assert(now.results[i] is Some);
        }
        assert(after.thread.take(run.thread.len() as int) =~= run.thread);
        assert forall|i: int| 0 <= i < batch.calls.len() implies #[trigger] after.thread[
            run.thread.len() + i
        ] == result_messages(now)[i] && now.results[i] is Some by {
            assert(now.results[i] is Some);
        }
    }
}

/// The places of the calls that nothing stands in the way of, in order.
pub open spec fn open_places(calls: Seq<ToolCallView>, gates: Seq<Gate>) -> Seq<int> {
    Seq::new(calls.len(), |i: int| i).filter(|i: int| i < gates.len() && gates[i] == Gate::Open)
}

/// The calls that begin are those that nothing stands in the way of.
proof fn lemma_first_events_are_open(calls: Seq<ToolCallView>, gates: Seq<Gate>, n: int)
    requires
        0 <= n <= calls.len(),
    ensures
        ({
            let open = open_places(calls.take(n), gates);
            let events = first_events(calls, gates, n);
            &&& events.len() == open.len()
            &&& forall|k: int|
                0 <= k < open.len() ==> 0 <= (#[trigger] open[k]) < n && events[k]
                    == (LoopEventView::Started {
                    index: open[k],
                    name: calls[open[k]].name,
                    args: calls[open[k]].args,
                })
        }),
    decreases n,
{
    reveal(Seq::filter);
    let places = Seq::new(calls.take(n).len(), |i: int| i);
    if n > 0 {
        lemma_first_events_are_open(calls, gates, n - 1);
        assert(places.drop_last() =~= Seq::new(calls.take(n - 1).len(), |i: int| i));
    }
}

/// The end of a turn with calls begins them: the message with the calls joins the
/// conversation, every call that nothing stands in the way of starts with its own name
/// and arguments, in order, and no other does. One that needs a verdict waits for it.
pub proof fn law_calls_begin<W: Wording>(run: LoopView, calls: Seq<ToolCallView>, gates: Seq<Gate>)
    requires
        run.phase == (LoopPhaseView::Streaming { calls }),
        calls.len() > 0,
    ensures
        ({
            let (after, events) = loop_step::<W>(run, LoopInputView::StreamEnded { gates });
            let open = open_places(calls, gates);
            &&& events.len() == open.len()
            &&& forall|k: int|
                0 <= k < open.len() ==> 0 <= (#[trigger] open[k]) < calls.len() && events[k]
                    == (LoopEventView::Started {
                    index: open[k],
                    name: calls[open[k]].name,
                    args: calls[open[k]].args,
                })
            &&& after.phase is Tools <==> exists|i: int|
                0 <= i < calls.len() && i < gates.len() && (#[trigger] gates[i]) != Gate::Unknown
            &&& !(after.phase is Tools) ==> after.phase == (LoopPhaseView::Streaming {
                calls: Seq::empty(),
            })
            &&& after.phase matches LoopPhaseView::Tools { batch, stages } ==> {
                &&& after.thread.len() == run.thread.len() + 1
                &&& after.thread.take(run.thread.len() as int) == run.thread
                &&& after.thread.last().role == Role::Assistant
                &&& after.thread.last().content == MessageContentView::ToolCalls(calls)
                &&& batch.calls == calls
                &&& stages.len() == calls.len()
                &&& forall|i: int|
                    0 <= i < calls.len() ==> {
                        let stage = #[trigger] stages[i];
                        &&& i < gates.len() && gates[i] == Gate::Open ==> stage == Stage::Running
                        &&& i < gates.len() && gates[i] == Gate::Guarded ==> stage == Stage::Guarded
                        &&& i >= gates.len() || gates[i] == Gate::Unknown ==> stage == Stage::Over
                    }
                &&& forall|i: int|
                    0 <= i < calls.len() ==> (#[trigger] batch.results[i]) == (if i >= gates.len()
                        || gates[i] == Gate::Unknown {
                        Some(W::unknown_value(calls[i].name))
                    } else {
                        None
                    })
            }
        }),
{
    lemma_first_events_are_open(calls, gates, calls.len() as int);
    assert(calls.take(calls.len() as int) =~= calls);
    let (after, events) = loop_step::<W>(run, LoopInputView::StreamEnded { gates });
    let batch = first_batch::<W>(calls, gates);
    if after.phase is Tools {
        assert(after.thread.take(run.thread.len() as int) =~= run.thread);
        let missing = choose|i: int|
            0 <= i < batch.results.len() && (#[trigger] batch.results[i]) is None;
        assert(gates[missing] != Gate::Unknown);
    } else {
        assert forall|i: int| 0 <= i < calls.len() && i < gates.len() implies (#[trigger] gates[i])
            == Gate::Unknown by {
            assert(batch.results[i] is Some);
        }
    }
}

/// A call that waits for a verdict starts, with its own name and arguments, once it is
/// allowed, and nothing else changes. Once it is denied the denial is reported with its
/// reason, and the wording for that reason is the answer that is kept for it, or that
/// joins the conversation if all the others have theirs: then the model is asked again.
/// The other answers stay.
pub proof fn law_verdict_is_followed<W: Wording>(
    run: LoopView,
    batch: ToolBatchView,
    stages: Seq<Stage>,
    index: int,
    reason: Seq<char>,
)
    requires
        loop_wf(run),
        run.phase == (LoopPhaseView::Tools { batch, stages }),
        0 <= index < batch.calls.len(),
        stages[index] == Stage::Guarded,
    ensures
        loop_step::<W>(run, LoopInputView::Verdict { index, denied: None }) == (
            LoopView {
                phase: LoopPhaseView::Tools { batch, stages: stages.update(index, Stage::Running) },
                ..run
            },
            seq![
                LoopEventView::Started {
                    index,
                    name: batch.calls[index].name,
                    args: batch.calls[index].args,
                },
            ],
        ),
        ({
            let (after, events) = loop_step::<W>(
                run,
                LoopInputView::Verdict { index, denied: Some(reason) },
            );
            let n = run.thread.len() as int;
            &&& events == seq![
                LoopEventView::Denied { index, name: batch.calls[index].name, reason },
            ]
            &&& after.phase is Tools <==> exists|i: int|
                0 <= i < batch.calls.len() && i != index && (#[trigger] batch.results[i]) is None
            &&& match after.phase {
                LoopPhaseView::Tools { batch: now, stages: places } => {
                    &&& now.calls == batch.calls
                    &&& places == stages.update(index, Stage::Over)
                    &&& after.thread == run.thread
                    &&& forall|i: int|
                        0 <= i < batch.calls.len() ==> (#[trigger] now.results[i]) == (if i
                            == index {
                            Some(W::denied_value(reason))
                        } else {
                            batch.results[i]
                        })
                },
                _ => {
                    &&& after.phase == (LoopPhaseView::Streaming { calls: Seq::empty() })
                    &&& after.thread.len() == n + batch.calls.len()
                    &&& after.thread.take(n) == run.thread
                    &&& forall|i: int|
                        0 <= i < batch.calls.len() ==> tells(
                            #[trigger] after.thread[n + i],
                            batch.calls[i],
                            if i == index {
                                W::denied_value(reason)
                            } else {
                                batch.results[i]->0
                            },
                        )
                },
            }
        }),
{
    let (after, events) = loop_step::<W>(
        run,
        LoopInputView::Verdict { index, denied: Some(reason) },
    );
    let now = settled(batch, index, W::denied_value(reason));
    assert(batch.results[index] is None);
    if !all_settled(now) {
        let missing = choose|i: int|
            0 <= i < now.results.len() && (#[trigger] now.results[i]) is None;
        assert(batch.results[missing] is None);
    }
    if all_settled(now) {
        assert forall|i: int| 0 <= i < batch.calls.len() && i != index implies (
        #[trigger] batch.results[i]) is Some by {
            assert(now.results[i] is Some);
        }
        assert(after.thread.take(run.thread.len() as int) =~= run.thread);
        assert forall|i: int| 0 <= i < batch.calls.len() implies #[trigger] after.thread[
            run.thread.len() + i
        ] == result_messages(now)[i] && now.results[i] is Some by {
            assert(now.results[i] is Some);
        }
    }
}

/// What does not fit changes nothing: a verdict on a call that waits for none, the end
/// of a call that does not run, and word from the model while calls are carried out.
pub proof fn law_what_does_not_fit_changes_nothing<W: Wording>(
    run: LoopView,
    batch: ToolBatchView,
    stages: Seq<Stage>,
    index: int,
    input: LoopInputView,
)
    requires
        run.phase == (LoopPhaseView::Tools { batch, stages }),
        stages.len() == batch.calls.len(),
        match input {
            LoopInputView::Verdict { index: i, .. } => i == index && !(0 <= index
                < batch.calls.len() && stages[index] == Stage::Guarded),
            LoopInputView::ToolEnded { index: i, .. } => i == index && !(0 <= index
                < batch.calls.len() && stages[index] == Stage::Running),
            _ => true,
        },
    ensures
        loop_step::<W>(run, input) == (run, Seq::<LoopEventView>::empty()),
{
}

/// The chunks that are reported at once.
pub open spec fn heard(chunks: Seq<ModelStreamChunkView>) -> Seq<ModelStreamChunkView> {
    chunks.filter(|chunk: ModelStreamChunkView| chunk is Thinking || chunk is TextDelta)
}

/// Chunks as a loop is told of them.
pub open spec fn chunks_told(chunks: Seq<ModelStreamChunkView>) -> Seq<LoopInputView> {
    Seq::new(chunks.len(), |i: int| LoopInputView::Chunk(chunks[i]))
}

/// While the model streams, every piece of thinking and of text is reported as it is, in
/// order, and nothing else; every call is kept, in order; and nothing else changes.
pub proof fn law_loop_streams<W: Wording>(
    run: LoopView,
    calls: Seq<ToolCallView>,
    chunks: Seq<ModelStreamChunkView>,
)
    requires
        run.phase == (LoopPhaseView::Streaming { calls }),
    ensures
        ({
            let (after, events) = loop_trace::<W>(run, chunks_told(chunks));
            &&& after == LoopView {
                phase: LoopPhaseView::Streaming { calls: calls + calls_in_chunks(chunks) },
                ..run
            }
            &&& streamed_calls(after) == calls + calls_in_chunks(chunks)
            &&& events.len() == heard(chunks).len()
            &&& forall|i: int|
                0 <= i < events.len() ==> (#[trigger] events[i]) == match heard(chunks)[i] {
                    ModelStreamChunkView::Thinking(text) => LoopEventView::Thinking(text),
                    other => LoopEventView::Text(other->TextDelta_0),
                }
        }),
    decreases chunks.len(),
{
    reveal(Seq::filter);
    if chunks.len() == 0 {
        assert(calls + calls_in_chunks(chunks) =~= calls);
    } else {
        law_loop_streams::<W>(run, calls, chunks.drop_last());
        assert(chunks_told(chunks).drop_last() =~= chunks_told(chunks.drop_last()));
        if let ModelStreamChunkView::ToolCall(call) = chunks.last() {
            assert((calls + calls_in_chunks(chunks.drop_last())).push(call) =~= calls
                + calls_in_chunks(chunks));
        }
    }
}

/// A turn without calls ends the loop and leaves the conversation alone; so does an
/// error of the model, and that is reported.
pub proof fn law_loop_ends<W: Wording>(
    run: LoopView,
    calls: Seq<ToolCallView>,
    gates: Seq<Gate>,
    error: ErrorView,
)
    requires
        run.phase == (LoopPhaseView::Streaming { calls }),
    ensures
        calls.len() == 0 ==> loop_step::<W>(run, LoopInputView::StreamEnded { gates }) == (
            LoopView { phase: LoopPhaseView::Finished, ..run },
            Seq::<LoopEventView>::empty(),
        ),
        loop_step::<W>(run, LoopInputView::ModelFailed(error)) == (
            LoopView { phase: LoopPhaseView::Finished, ..run },
            seq![LoopEventView::ModelFailed(error)],
        ),
{
}

/// The model is asked with the whole conversation, the instructions, the schema and the
/// tools of the loop.
pub proof fn law_loop_request_is_whole(run: LoopView)
    ensures
        loop_request(run).messages == run.thread,
        loop_request(run).system == Some(run.system),
        loop_request(run).output_schema == run.output_schema,
        loop_request(run).tools == run.tools,
{
}

/// What stands in the way of a call: exactly the calls to tools that are not registered
/// go nowhere; a registered tool runs at once without a policy; and with one it waits
/// only where the policy asks for that, and runs at once only where it does not.
pub proof fn law_gates<T: Tool, A: AuthManager>(
    tools: Map<Seq<char>, T>,
    policy: Option<A>,
    calls: Seq<ToolCallView>,
    gates: Seq<Gate>,
)
    requires
        gates_fit(tools, policy, calls, gates),
    ensures
        gates.len() == calls.len(),
        forall|i: int|
            0 <= i < calls.len() ==> {
                let gate = #[trigger] gates[i];
                &&& gate == Gate::Unknown <==> !tools.dom().contains(calls[i].name)
                &&& policy is None && tools.dom().contains(calls[i].name) ==> gate == Gate::Open
                &&& policy is Some && gate == Gate::Open ==> may_answer(policy->0, calls[i], false)
                &&& gate == Gate::Guarded ==> policy is Some && may_answer(
                    policy->0,
                    calls[i],
                    true,
                )
            },
{
}

/// Every event of a loop is reported, in its place.
pub proof fn law_every_event_is_reported<E: Report>(events: Seq<LoopEventView>)
    ensures
        all_reported::<E>(events).len() == events.len(),
        forall|i: int|
            0 <= i < events.len() ==> (#[trigger] all_reported::<E>(events)[i]) == E::reported(
                events[i],
            ),
{
}

/// The policy is asked about the call itself: where it answers every question about a
/// tool of that name and these arguments alike, that answer decides whether a call to a
/// registered tool waits or runs at once.
pub proof fn law_policy_decides<T: Tool, A: AuthManager>(
    tools: Map<Seq<char>, T>,
    policy: A,
    call: ToolCallView,
    gate: Gate,
    asks: bool,
)
    requires
        tools.dom().contains(call.name),
        gate_fits(tools, Some(policy), call, gate),
        forall|name: &str, args: &Value, answer: bool|
            name@ == call.name && args@ == call.args && #[trigger] call_ensures(
                A::requires_authorization,
                (&policy, name, args),
                answer,
            ) ==> answer == asks,
    ensures
        asks ==> gate == Gate::Guarded,
        !asks ==> gate == Gate::Open,
{
}

} // verus!
