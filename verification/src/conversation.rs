//! Conversations of several turns.
use crate::error::{Error, ErrorView};
use crate::model::{
    assistant_message, user_message, Message, MessageContent, MessageContentView, MessageList,
    MessageView, Role,
};
use crate::runner::laws::text_in_events;
use crate::runner::run::with_reply;
use crate::runner::{AgentEvent, AgentEventView};
use crate::views::result_view;
use std::sync::Arc;
use vstd::prelude::*;

verus! {

/// A multi-turn conversation between a user and an agent.
///
/// It keeps the messages across turns: after each completed turn the user's message
/// and the assistant's reply join the history, so that the next turn sees them. The
/// history can be inspected and changed at any time.
#[derive(Debug)]
pub struct Conversation {
    history: MessageList,
}

impl View for Conversation {
    type V = Seq<MessageView>;

    closed spec fn view(&self) -> Seq<MessageView> {
        self.history@
    }
}

/// The reply of an agent to one turn.
#[derive(Debug)]
pub struct AgentResult {
    /// The text of the reply.
    pub output: String,
}

impl View for AgentResult {
    type V = Seq<char>;

    open spec fn view(&self) -> Seq<char> {
        self.output@
    }
}

/// The history after a completed turn.
pub open spec fn after_turn(
    history: Seq<MessageView>,
    input: Seq<char>,
    reply: Seq<char>,
) -> Seq<MessageView> {
    history.push(user_message(input)).push(assistant_message(reply))
}

impl Conversation {
    /// A conversation in which nothing has been said.
    pub fn new() -> (res: Self)
        ensures
            res@ == Seq::<MessageView>::empty(),
    {
        Conversation { history: MessageList::new() }
    }

    /// The messages so far.
    pub fn history(&self) -> (res: &MessageList)
        ensures
            res@ == self@,
    {
        &self.history
    }

    /// The messages so far, to be changed: to compress or trim them, or to put in
    /// turns that did not happen.
    pub fn history_mut(&mut self) -> (res: &mut MessageList)
        ensures
            res@ == old(self)@,
            final(self)@ == final(res)@,
    {
        &mut self.history
    }

    /// The thread that a turn is run on: the history, then what the user says.
    pub fn thread(&self, input: &str) -> (res: MessageList)
        ensures
            res@ == self@.push(user_message(input@)),
    {
        let mut thread = self.history.clone();
        thread.push(Message::user(input));
        thread
    }

    /// Completes a turn with its outcome: a reply joins the history together with
    /// what the user said; an error leaves the history as it was.
    pub fn run(&mut self, input: &str, outcome: Result<AgentResult, Error>) -> (res: Result<
        AgentResult,
        Error,
    >)
        ensures
            res == outcome,
            final(self)@ == (match outcome {
                Ok(result) => after_turn(old(self)@, input@, result@),
                Err(_) => old(self)@,
            }),
    {
        if let Ok(result) = &outcome {
            self.history.push(Message::user(input));
            self.history.push(Message::assistant(&result.output));
        }
        outcome
    }

    /// Starts a streamed turn.
    pub fn run_stream(&self, input: &str) -> (res: ConversationStream)
        ensures
            res@ == fresh_stream(input@),
    {
        ConversationStream { input: input.to_owned(), reply: String::new(), done: false }
    }
}

/// The text of the reply that a thread ends with, if it ends with one.
pub open spec fn final_text(thread: Seq<MessageView>) -> Option<Seq<char>> {
    if thread.len() > 0 && thread.last().role == Role::Assistant {
        match thread.last().content {
            MessageContentView::Text(text) => Some(text),
            _ => None,
        }
    } else {
        None
    }
}

/// The outcome of a turn, where the event brings one: a run that ends without a reply
/// in text is an error, and so is one that fails or is cancelled.
pub open spec fn turn_outcome(event: AgentEventView) -> Option<Result<Seq<char>, ErrorView>> {
    match event {
        AgentEventView::TurnFinish { thread } => Some(
            match final_text(thread) {
                Some(text) => Ok(text),
                None => Err(ErrorView::Agent("model returned neither text nor tool calls"@)),
            },
        ),
        AgentEventView::Error(error) => Some(Err(error)),
        AgentEventView::Cancelled => Some(Err(ErrorView::Agent("the run was cancelled"@))),
        _ => None,
    }
}

/// Reads the outcome of a turn from an event of its run; `None` where the run goes on.
pub fn outcome_in(event: &AgentEvent) -> (res: Option<Result<AgentResult, Error>>)
    ensures
        match res {
            Some(outcome) => turn_outcome(event@) == Some(result_view(outcome)),
            None => turn_outcome(event@) is None,
        },
{
    match event {
        AgentEvent::TurnFinish { thread } => {
            let messages: &[Arc<Message>] = thread;
            assert(thread@.len() == messages@.len());
            if messages.len() > 0 {
                let last: &Message = &messages[messages.len() - 1];
                assert(thread@.last() == last@);
                if let (Role::Assistant, MessageContent::Text(text)) = (last.role, &last.content) {
                    return Some(Ok(AgentResult { output: text.clone() }));
                }
            }
            Some(Err(Error::Agent("model returned neither text nor tool calls".to_owned())))
        },
        AgentEvent::Error(error) => Some(Err(error.clone())),
        AgentEvent::Cancelled => Some(Err(Error::Agent("the run was cancelled".to_owned()))),
        _ => None,
    }
}

/// The outcome of a turn that finishes is the model's reply; without one it is an
/// error, whatever was said before.
pub proof fn law_turn_outcome(history: Seq<MessageView>, input: Seq<char>, reply: Seq<char>)
    ensures
        turn_outcome(
            AgentEventView::TurnFinish {
                thread: with_reply(history.push(user_message(input)), reply),
            },
        ) == Some(
            if reply.len() > 0 {
                Ok::<Seq<char>, ErrorView>(reply)
            } else {
                Err(ErrorView::Agent("model returned neither text nor tool calls"@))
            },
        ),
{
}

/// A streamed turn.
///
/// It passes on what the run reports. When the run comes to its end, what the user
/// said and the reply join the history; if it breaks, or is abandoned, the history
/// stays as it was.
#[derive(Debug)]
pub struct ConversationStream {
    input: String,
    reply: String,
    done: bool,
}

/// The model of a [`ConversationStream`].
#[verifier::ext_equal]
pub ghost struct ConversationStreamView {
    pub input: Seq<char>,
    pub reply: Seq<char>,
    pub done: bool,
}

impl View for ConversationStream {
    type V = ConversationStreamView;

    closed spec fn view(&self) -> ConversationStreamView {
        ConversationStreamView { input: self.input@, reply: self.reply@, done: self.done }
    }
}

/// A streamed turn that has just been started.
pub open spec fn fresh_stream(input: Seq<char>) -> ConversationStreamView {
    ConversationStreamView { input, reply: Seq::empty(), done: false }
}

/// What a run has come up with.
#[derive(Debug)]
pub enum Polled {
    /// The next event.
    Event(AgentEvent),
    /// An error.
    Failed(Error),
    /// Its end.
    Ended,
    /// Nothing yet.
    Pending,
}

/// The model of a [`Polled`].
#[verifier::ext_equal]
pub ghost enum PolledView {
    Event(AgentEventView),
    Failed(ErrorView),
    Ended,
    Pending,
}

impl View for Polled {
    type V = PolledView;

    open spec fn view(&self) -> PolledView {
        match self {
            Polled::Event(event) => PolledView::Event(event@),
            Polled::Failed(error) => PolledView::Failed(error@),
            Polled::Ended => PolledView::Ended,
            Polled::Pending => PolledView::Pending,
        }
    }
}

/// What a streamed turn is told of an event: the event itself, or the error where it
/// brings one.
pub open spec fn polled_event(event: AgentEventView) -> PolledView {
    match turn_outcome(event) {
        Some(Err(error)) => PolledView::Failed(error),
        _ => PolledView::Event(event),
    }
}

impl Polled {
    /// What a streamed turn is told of an event of its run. A run that fails, is
    /// cancelled or ends without a reply in text breaks the turn.
    pub fn from_event(event: AgentEvent) -> (res: Polled)
        ensures
            res@ == polled_event(event@),
    {
        match outcome_in(&event) {
            Some(Err(error)) => Polled::Failed(error),
            _ => Polled::Event(event),
        }
    }
}

/// One step of a streamed turn: where it stands, the history, and what is passed on.
pub open spec fn poll_step(
    stream: ConversationStreamView,
    history: Seq<MessageView>,
    polled: PolledView,
) -> (ConversationStreamView, Seq<MessageView>, PolledView) {
    if stream.done {
        (stream, history, PolledView::Ended)
    } else {
        match polled {
            PolledView::Event(event) => (
                match event {
                    AgentEventView::TextDelta(text) => ConversationStreamView {
                        reply: stream.reply + text,
                        ..stream
                    },
                    _ => stream,
                },
                history,
                polled,
            ),
            PolledView::Failed(_) => (
                ConversationStreamView { done: true, ..stream },
                history,
                polled,
            ),
            PolledView::Ended => (
                ConversationStreamView {
                    input: Seq::empty(),
                    reply: Seq::empty(),
                    done: true,
                },
                after_turn(history, stream.input, stream.reply),
                polled,
            ),
            PolledView::Pending => (stream, history, polled),
        }
    }
}

impl ConversationStream {
    /// Whether the turn is over. The run need not be asked any more.
    pub fn is_done(&self) -> (res: bool)
        ensures
            res == self@.done,
    {
        self.done
    }

    /// Takes in what the run has come up with, and says what to pass on.
    pub fn poll_next(&mut self, conversation: &mut Conversation, polled: Polled) -> (res: Polled)
        ensures
            (final(self)@, final(conversation)@, res@) == poll_step(
                old(self)@,
                old(conversation)@,
                polled@,
            ),
    {
        if self.done {
            return Polled::Ended;
        }
        match polled {
            Polled::Event(event) => {
                if let AgentEvent::TextDelta(text) = &event {
                    self.reply.append(text.as_str());
                }
                Polled::Event(event)
            },
            Polled::Failed(error) => {
                self.done = true;
                Polled::Failed(error)
            },
            Polled::Ended => {
                self.done = true;
                let mut input: String = String::new();
                let mut reply: String = String::new();
                std::mem::swap(&mut input, &mut self.input);
                std::mem::swap(&mut reply, &mut self.reply);
                conversation.history.push(Message::user(input));
                conversation.history.push(Message::assistant(reply));
                Polled::Ended
            },
            Polled::Pending => Polled::Pending,
        }
    }
}

/// Where a streamed turn stands after a series of polls, and the history.
pub open spec fn poll_trace(
    stream: ConversationStreamView,
    history: Seq<MessageView>,
    polls: Seq<PolledView>,
) -> (ConversationStreamView, Seq<MessageView>)
    decreases polls.len(),
{
    if polls.len() == 0 {
        (stream, history)
    } else {
        let (before, kept) = poll_trace(stream, history, polls.drop_last());
        let (after, now, _) = poll_step(before, kept, polls.last());
        (after, now)
    }
}

/// The polls that come up with events.
pub open spec fn event_polls(events: Seq<AgentEventView>) -> Seq<PolledView> {
    Seq::new(events.len(), |i: int| PolledView::Event(events[i]))
}

/// As long as events come in, the reply is put together from their text and the
/// history stays as it was: a turn that is abandoned leaves no trace.
pub proof fn law_abandoned_turn(
    input: Seq<char>,
    history: Seq<MessageView>,
    events: Seq<AgentEventView>,
)
    ensures
        poll_trace(fresh_stream(input), history, event_polls(events)) == (
            ConversationStreamView { input, reply: text_in_events(events), done: false },
            history,
        ),
    decreases events.len(),
{
    if events.len() > 0 {
        law_abandoned_turn(input, history, events.drop_last());
        assert(event_polls(events).drop_last() =~= event_polls(events.drop_last()));
    }
}

/// A turn that is followed to its end adds what the user said and the text that was
/// reported, put together.
pub proof fn law_completed_turn(
    input: Seq<char>,
    history: Seq<MessageView>,
    events: Seq<AgentEventView>,
)
    ensures
        poll_trace(fresh_stream(input), history, event_polls(events).push(PolledView::Ended)).1
            == after_turn(history, input, text_in_events(events)),
{
    law_abandoned_turn(input, history, events);
    assert(event_polls(events).push(PolledView::Ended).drop_last() =~= event_polls(events));
}

/// A turn that breaks leaves the history as it was, whatever comes after.
pub proof fn law_broken_turn(
    input: Seq<char>,
    history: Seq<MessageView>,
    events: Seq<AgentEventView>,
    error: ErrorView,
    more: Seq<PolledView>,
)
    ensures
        poll_trace(
            fresh_stream(input),
            history,
            event_polls(events).push(PolledView::Failed(error)) + more,
        ).1 == history,
        poll_trace(
            fresh_stream(input),
            history,
            event_polls(events).push(PolledView::Failed(error)) + more,
        ).0.done,
    decreases more.len(),
{
    let broken = event_polls(events).push(PolledView::Failed(error));
    if more.len() == 0 {
        law_abandoned_turn(input, history, events);
        assert(broken + more =~= broken);
        assert(broken.drop_last() =~= event_polls(events));
    } else {
        law_broken_turn(input, history, events, error, more.drop_last());
        assert((broken + more).drop_last() =~= broken + more.drop_last());
    }
}

/// A streamed turn whose run ends without a reply in text passes on an error, and
/// leaves the history as it was, whatever comes after.
pub proof fn law_silent_turn(
    input: Seq<char>,
    history: Seq<MessageView>,
    events: Seq<AgentEventView>,
    thread: Seq<MessageView>,
    more: Seq<PolledView>,
)
    requires
        final_text(thread) is None,
    ensures
        ({
            let before = poll_trace(fresh_stream(input), history, event_polls(events));
            let finish = polled_event(AgentEventView::TurnFinish { thread });
            let polls = event_polls(events).push(finish) + more;
            &&& poll_step(before.0, before.1, finish).2 == PolledView::Failed(
                ErrorView::Agent("model returned neither text nor tool calls"@),
            )
            &&& poll_trace(fresh_stream(input), history, polls).1 == history
        }),
{
    law_abandoned_turn(input, history, events);
    law_broken_turn(
        input,
        history,
        events,
        ErrorView::Agent("model returned neither text nor tool calls"@),
        more,
    );
}

/// A completed turn adds two messages to the history and changes none: what the user
/// said, and what the assistant replied.
pub proof fn law_turn_adds_two(history: Seq<MessageView>, input: Seq<char>, reply: Seq<char>)
    ensures
        ({
            let after = after_turn(history, input, reply);
            let n = history.len() as int;
            &&& after.len() == n + 2
            &&& after.take(n) == history
            &&& after[n].role == Role::User
            &&& after[n].content == MessageContentView::Text(input)
            &&& after[n + 1].role == Role::Assistant
            &&& after[n + 1].content == MessageContentView::Text(reply)
        }),
{
    assert(after_turn(history, input, reply).take(history.len() as int) =~= history);
}

/// A run that ends with a text of the assistant comes to that text; one that ends with
/// anything else, fails or is cancelled comes to an error; and until then it comes to
/// nothing.
pub proof fn law_turn_comes_to(
    thread: Seq<MessageView>,
    text: Seq<char>,
    error: ErrorView,
    event: AgentEventView,
)
    ensures
        turn_outcome(
            AgentEventView::TurnFinish {
                thread: thread.push(
                    MessageView { role: Role::Assistant, content: MessageContentView::Text(text) },
                ),
            },
        ) == Some(Ok::<Seq<char>, ErrorView>(text)),
        thread.len() == 0 || thread.last().role != Role::Assistant || !(
        thread.last().content is Text) ==> turn_outcome(AgentEventView::TurnFinish { thread })
            == Some(
            Err::<Seq<char>, ErrorView>(
                ErrorView::Agent("model returned neither text nor tool calls"@),
            ),
        ),
        turn_outcome(AgentEventView::Error(error)) == Some(Err::<Seq<char>, ErrorView>(error)),
        turn_outcome(AgentEventView::Cancelled) == Some(
            Err::<Seq<char>, ErrorView>(ErrorView::Agent("the run was cancelled"@)),
        ),
        !(event is TurnFinish) && !(event is Error) && !(event is Cancelled) ==> turn_outcome(event) is None,
        turn_outcome(event) is None ==> polled_event(event) == PolledView::Event(event),
        turn_outcome(event) matches Some(Ok(_)) ==> polled_event(event) == PolledView::Event(event),
        turn_outcome(event) matches Some(Err(why)) ==> polled_event(event) == PolledView::Failed(
            why,
        ),
{
}

/// A streamed turn passes on whatever its run comes up with until the turn is over, and
/// then only that it has ended. It is over once the run has failed or ended.
pub proof fn law_polls_pass(
    stream: ConversationStreamView,
    history: Seq<MessageView>,
    polled: PolledView,
)
    ensures
        ({
            let (after, now, passed) = poll_step(stream, history, polled);
            &&& !stream.done ==> passed == polled
            &&& !stream.done ==> (after.done <==> polled is Failed || polled is Ended)
            &&& stream.done ==> passed == PolledView::Ended && after == stream && now == history
            &&& !(polled is Ended) ==> now == history
            &&& !stream.done && polled is Ended ==> {
                &&& now.len() == history.len() + 2
                &&& now.take(history.len() as int) == history
                &&& now[history.len() as int].content == MessageContentView::Text(stream.input)
                &&& now[history.len() as int + 1].content == MessageContentView::Text(stream.reply)
            }
        }),
{
    law_turn_adds_two(history, stream.input, stream.reply);
}

} // verus!
