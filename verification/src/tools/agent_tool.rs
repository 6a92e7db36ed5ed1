use crate::agent::Agent;
use crate::conversation::{outcome_in, turn_outcome};
use crate::error::{error_text, Error, ErrorView};
use crate::json::{Value, ValueView};
use crate::model::{
    user_message, Message, MessageContentView, MessageList, MessageView, Role,
};
use crate::render::{is_rendering, render};
use crate::runner::ids::{id_after, RunIds};
use crate::runner::laws::text_in_events;
use crate::runner::run::{started_run, tagged, Run};
use crate::runner::{AgentEvent, AgentEventView, AgentRunner, RunEvent};
use crate::text::prefixed;
use crate::tools::{Tool, ToolDefinition, ToolDefinitionView, ToolResult, ToolResultView};
use crate::views::{result_view, seq_view};
use vstd::prelude::*;

verus! {

/// Wraps a child [`Agent`], and the runner that runs it, so that a parent agent can
/// invoke it as a tool.
///
/// The JSON arguments are written out and become the only user message of the
/// child's run. The text that the child's run reports, put together, is the result
/// of the tool call; if the child's run fails, the error is. The child's events are
/// not passed on to the parent.
pub struct AgentTool {
    definition: ToolDefinition,
    agent: Agent,
    runner: AgentRunner,
}

/// The thread of a child's run.
pub open spec fn child_thread(input: Seq<char>) -> Seq<MessageView> {
    seq![user_message(input)]
}

/// What comes of arguments that were written out: the thread of the child's run, or
/// the error as the result of the call.
pub open spec fn child_input(rendered: Result<Seq<char>, Seq<char>>) -> Result<
    Seq<MessageView>,
    ToolResultView,
> {
    match rendered {
        Ok(text) => Ok(child_thread(text)),
        Err(reason) => Err(ToolResultView::Failure(ValueView::String(reason))),
    }
}

/// Makes the thread of a child's run from arguments that were written out.
pub fn input_from(rendered: Result<String, String>) -> (res: Result<MessageList, ToolResult>)
    ensures
        result_view(res) == child_input(result_view(rendered)),
{
    match rendered {
        Ok(text) => {
            let mut thread = MessageList::new();
            thread.push(Message::user(text));
            assert(thread@ =~= child_thread(text@));
            Ok(thread)
        },
        Err(reason) => Err(ToolResult::Failure(Value::String(reason))),
    }
}

impl AgentTool {
    /// The child agent.
    pub closed spec fn spec_agent(&self) -> crate::agent::AgentView {
        self.agent@
    }

    /// The tools that the child is offered.
    pub closed spec fn spec_tools(&self) -> Seq<ToolDefinitionView> {
        self.runner@
    }

    /// Builds an `AgentTool` from the public tool definition, the child agent, and
    /// the runner that will run it.
    pub fn new(definition: ToolDefinition, agent: Agent, runner: AgentRunner) -> (res: Self)
        ensures
            res.spec_definition() == definition@,
            res.spec_agent() == agent@,
            res.spec_tools() == runner@,
    {
        AgentTool { definition, agent, runner }
    }

    /// The child agent's display name.
    pub fn name(&self) -> (res: &str)
        ensures
            res@ == self.spec_agent().name,
    {
        self.agent.name()
    }

    /// Writes out the arguments and makes the thread of the child's run.
    pub fn input(&self, proposal: &Value) -> (res: Result<MessageList, ToolResult>)
        ensures
            exists|rendered: Result<Seq<char>, Seq<char>>| #[trigger]
                is_rendering(proposal@, rendered) && result_view(res) == child_input(rendered),
    {
        input_from(render(proposal))
    }

    /// Starts the child's run.
    pub fn start(&self, run_ids: &mut RunIds, thread: MessageList) -> (res: (Run, Vec<RunEvent>))
        ensures
            final(run_ids)@ == id_after(old(run_ids)@),
            res.0@ == started_run(
                old(run_ids)@,
                self.spec_agent().instructions,
                self.spec_agent().output_schema,
                self.spec_tools(),
                thread@,
            ),
            seq_view(res.1@) == tagged(old(run_ids)@, seq![AgentEventView::TurnStart]),
    {
        self.runner.run(run_ids, &self.agent, thread)
    }
}

impl Tool for AgentTool {
    closed spec fn spec_definition(&self) -> ToolDefinitionView {
        self.definition@
    }

    fn definition(&self) -> (res: &ToolDefinition) {
        &self.definition
    }
}

/// What a child's run has come to so far.
#[derive(Debug)]
pub struct ChildRun {
    text: String,
    failure: Option<Error>,
}

/// The model of a [`ChildRun`].
#[verifier::ext_equal]
pub ghost struct ChildRunView {
    pub text: Seq<char>,
    pub failure: Option<ErrorView>,
}

impl View for ChildRun {
    type V = ChildRunView;

    closed spec fn view(&self) -> ChildRunView {
        ChildRunView {
            text: self.text@,
            failure: crate::views::option_view(self.failure),
        }
    }
}

/// A child's run after one more event. After an error nothing counts any more.
pub open spec fn child_step(run: ChildRunView, event: AgentEventView) -> ChildRunView {
    if run.failure is Some {
        run
    } else {
        match event {
            AgentEventView::TextDelta(text) => ChildRunView { text: run.text + text, ..run },
            AgentEventView::Error(error) => ChildRunView { failure: Some(error), ..run },
            _ => run,
        }
    }
}

/// The result of the tool call: the text, or the error.
pub open spec fn child_result(run: ChildRunView) -> ToolResultView {
    match run.failure {
        Some(error) => ToolResultView::Failure(ValueView::String(error_text(error))),
        None => ToolResultView::Success(ValueView::String(run.text)),
    }
}

impl ChildRun {
    /// Nothing has been reported yet.
    pub fn new() -> (res: Self)
        ensures
            res@ == (ChildRunView { text: Seq::empty(), failure: None }),
    {
        ChildRun { text: String::new(), failure: None }
    }

    /// Takes in the next event. `true` says that the run has failed and nothing more
    /// is needed.
    pub fn observe(&mut self, event: &AgentEvent) -> (res: bool)
        ensures
            final(self)@ == child_step(old(self)@, event@),
            res == (final(self)@.failure is Some),
    {
        if self.failure.is_some() {
            return true;
        }
        match event {
            AgentEvent::TextDelta(text) => {
                self.text.append(text.as_str());
                false
            },
            AgentEvent::Error(error) => {
                self.failure = Some(error.clone());
                true
            },
            _ => false,
        }
    }

    /// The result of the tool call.
    pub fn finish(self) -> (res: ToolResult)
        ensures
            res@ == child_result(self@),
    {
        match self.failure {
            Some(error) => ToolResult::Failure(Value::String(error.to_string())),
            None => ToolResult::Success(Value::String(self.text)),
        }
    }
}

/// A child's run after a series of events.
pub open spec fn child_trace(events: Seq<AgentEventView>) -> ChildRunView
    decreases events.len(),
{
    if events.len() == 0 {
        ChildRunView { text: Seq::empty(), failure: None }
    } else {
        child_step(child_trace(events.drop_last()), events.last())
    }
}

/// None of the events is an error.
pub open spec fn no_error(events: Seq<AgentEventView>) -> bool {
    forall|i: int| 0 <= i < events.len() ==> !((#[trigger] events[i]) is Error)
}

/// Without an error, the result of the tool call is the text that the child's run
/// reported, put together.
pub proof fn law_child_text(events: Seq<AgentEventView>)
    requires
        no_error(events),
    ensures
        child_trace(events) == (ChildRunView { text: text_in_events(events), failure: None }),
        child_result(child_trace(events)) == ToolResultView::Success(
            ValueView::String(text_in_events(events)),
        ),
    decreases events.len(),
{
    if events.len() > 0 {
        let before = events.drop_last();
        assert forall|i: int| 0 <= i < before.len() implies !((#[trigger] before[i]) is Error) by {
            assert(before[i] == events[i]);
        }
        law_child_text(before);
        assert(!(events[events.len() - 1] is Error));
    }
}

/// With an error, the result of the tool call is the first one, whatever came before
/// or after it.
pub proof fn law_child_error(
    before: Seq<AgentEventView>,
    error: ErrorView,
    after: Seq<AgentEventView>,
)
    requires
        no_error(before),
    ensures
        child_result(child_trace(before.push(AgentEventView::Error(error)) + after))
            == ToolResultView::Failure(ValueView::String(error_text(error))),
    decreases after.len(),
{
    let failed = before.push(AgentEventView::Error(error));
    if after.len() == 0 {
        law_child_text(before);
        assert(failed + after =~= failed);
        assert(failed.drop_last() =~= before);
    } else {
        law_child_error(before, error, after.drop_last());
        assert((failed + after).drop_last() =~= failed + after.drop_last());
    }
}

/// The input of a child that is called with arguments, or the error where these
/// could not be written out.
pub open spec fn call_input(rendered: Result<Seq<char>, Seq<char>>) -> Result<Seq<char>, ErrorView> {
    match rendered {
        Ok(text) => Ok(text),
        Err(reason) => Err(ErrorView::Agent("failed to serialize args: "@ + reason)),
    }
}

/// Makes the input of a child from arguments that were written out.
pub fn call_input_from(rendered: Result<String, String>) -> (res: Result<String, Error>)
    ensures
        result_view(res) == call_input(result_view(rendered)),
{
    match rendered {
        Ok(text) => Ok(text),
        Err(reason) => Err(Error::Agent(prefixed("failed to serialize args: ", reason.as_str()))),
    }
}

/// The output of a child that was called, under `output`; its error passes.
pub open spec fn wrapped_output(outcome: Result<Seq<char>, ErrorView>) -> Result<
    ValueView,
    ErrorView,
> {
    match outcome {
        Ok(text) => Ok(ValueView::Object(map!["output"@ => ValueView::String(text)])),
        Err(error) => Err(error),
    }
}

/// Puts the output of a child that was called under `output`; its error passes.
pub fn wrap_output(outcome: Result<String, Error>) -> (res: Result<Value, Error>)
    ensures
        result_view(res) == wrapped_output(result_view(outcome)),
{
    match outcome {
        Ok(text) => Ok(Value::singleton("output".to_owned(), Value::String(text))),
        Err(error) => Err(error),
    }
}

/// The outcome of a call, where an event of the child's run brings one.
pub open spec fn call_outcome(event: AgentEventView) -> Option<Result<ValueView, ErrorView>> {
    match turn_outcome(event) {
        Some(outcome) => Some(wrapped_output(outcome)),
        None => None,
    }
}

/// Reads the outcome of a call from an event of the child's run: the child's final
/// text under `output`, or its error; `None` where the run goes on.
pub fn call_outcome_in(event: &AgentEvent) -> (res: Option<Result<Value, Error>>)
    ensures
        match res {
            Some(outcome) => call_outcome(event@) == Some(result_view(outcome)),
            None => call_outcome(event@) is None,
        },
{
    match outcome_in(event) {
        Some(Ok(result)) => Some(wrap_output(Ok(result.output))),
        Some(Err(error)) => Some(wrap_output(Err(error))),
        None => None,
    }
}

impl AgentTool {
    /// Writes out the arguments of a call as the child's input.
    pub fn call_input(&self, args: &Value) -> (res: Result<String, Error>)
        ensures
            exists|rendered: Result<Seq<char>, Seq<char>>| #[trigger]
                is_rendering(args@, rendered) && result_view(res) == call_input(rendered),
    {
        call_input_from(render(args))
    }
}

/// A child is asked with one message of the user: the arguments as they were written
/// out. Arguments that cannot be written out are a failure, with the reason.
pub proof fn law_child_is_asked(text: Seq<char>, reason: Seq<char>)
    ensures
        child_input(Ok(text)) matches Ok(thread) && {
            &&& thread.len() == 1
            &&& thread[0].role == Role::User
            &&& thread[0].content == MessageContentView::Text(text)
        },
        child_input(Err(reason)) == Err::<Seq<MessageView>, ToolResultView>(
            ToolResultView::Failure(ValueView::String(reason)),
        ),
        call_input(Ok(text)) == Ok::<Seq<char>, ErrorView>(text),
        call_input(Err(reason)) == Err::<Seq<char>, ErrorView>(
            ErrorView::Agent("failed to serialize args: "@ + reason),
        ),
{
}

/// What a child comes to: its text under `output` and with nothing beside it, or its
/// error as it is.
pub proof fn law_child_output(text: Seq<char>, error: ErrorView)
    ensures
        wrapped_output(Ok(text)) matches Ok(value) && {
            &&& value is Object
            &&& value->Object_0.dom() == set!["output"@]
            &&& value->Object_0["output"@] == ValueView::String(text)
        },
        wrapped_output(Err(error)) == Err::<ValueView, ErrorView>(error),
{
    assert(map!["output"@ => ValueView::String(text)].dom() =~= set!["output"@]);
}

/// A call to a child is over when its run is: with the text that the run ends with, or
/// with the error.
pub proof fn law_call_is_over(
    thread: Seq<MessageView>,
    text: Seq<char>,
    error: ErrorView,
    event: AgentEventView,
)
    ensures
        call_outcome(
            AgentEventView::TurnFinish {
                thread: thread.push(
                    MessageView { role: Role::Assistant, content: MessageContentView::Text(text) },
                ),
            },
        ) matches Some(Ok(value)) && value is Object && value->Object_0.dom() == set!["output"@]
            && value->Object_0["output"@] == ValueView::String(text),
        call_outcome(AgentEventView::Error(error)) == Some(Err::<ValueView, ErrorView>(error)),
        !(event is TurnFinish) && !(event is Error) && !(event is Cancelled) ==> call_outcome(
            event,
        ) is None,
{
    law_child_output(text, error);
}

} // verus!
