use agent_rig::conversation::{outcome_in, AgentResult, Conversation, Polled};
use agent_rig::error::Error;
use agent_rig::model::{Message, MessageList};
use agent_rig::runner::AgentEvent;

/// The reply of a model that counts the messages it is sent.
fn count(thread: &MessageList) -> String {
    thread.len().to_string()
}

fn run(conv: &mut Conversation, input: &str) -> AgentResult {
    let output = count(&conv.thread(input));
    conv.run(input, Ok(AgentResult { output })).unwrap()
}

#[test]
fn run_accumulates_history() {
    let mut conv = Conversation::new();

    // Turn 1: 1 message sent (the user input), reply = "1"
    let r1 = run(&mut conv, "turn1");
    assert_eq!(r1.output, "1");

    // Turn 2: 2 history messages + 1 new = 3, reply = "3"
    let r2 = run(&mut conv, "turn2");
    assert_eq!(r2.output, "3");

    assert_eq!(*conv.history()[2], Message::user("turn2"));
    assert_eq!(*conv.history()[3], Message::assistant("3"));
}

#[test]
fn history_mut_allows_trimming() {
    let mut conv = Conversation::new();

    run(&mut conv, "turn1"); // history: [user, assistant]
    conv.history_mut().clear(); // wipe it

    // Turn 2 sees only the new user message → "1"
    let r2 = run(&mut conv, "turn2");
    assert_eq!(r2.output, "1");
}

#[test]
fn run_stream_accumulates_history() {
    let mut conv = Conversation::new();

    // Consume the stream for turn 1.
    let mut stream = conv.run_stream("turn1");
    for text in ["1", "!"] {
        let polled = Polled::Event(AgentEvent::TextDelta(text.to_string()));
        assert!(matches!(stream.poll_next(&mut conv, polled), Polled::Event(_)));
    }
    assert!(matches!(stream.poll_next(&mut conv, Polled::Pending), Polled::Pending));
    assert!(conv.history().is_empty());
    assert!(matches!(stream.poll_next(&mut conv, Polled::Ended), Polled::Ended));
    assert_eq!(*conv.history()[0], Message::user("turn1"));
    assert_eq!(*conv.history()[1], Message::assistant("1!"));
    // The end is taken in once.
    assert!(matches!(stream.poll_next(&mut conv, Polled::Ended), Polled::Ended));

    // Turn 2 should see 2 history messages + new input = 3.
    let r2 = run(&mut conv, "turn2");
    assert_eq!(r2.output, "3");
}

#[test]
fn run_stream_dropped_early_does_not_update_history() {
    let mut conv = Conversation::new();

    // Drop the stream before consuming it.
    drop(conv.run_stream("turn1"));

    // Turn 2 should see only 1 message (no history from turn 1).
    let r2 = run(&mut conv, "turn2");
    assert_eq!(r2.output, "1");
}

#[test]
fn broken_turn_leaves_the_history_alone() {
    let mut conv = Conversation::new();
    let error = || Error::Provider("boom".to_string());
    assert_eq!(conv.run("turn1", Err(error())).unwrap_err(), error());
    assert!(conv.history().is_empty());

    let mut stream = conv.run_stream("turn1");
    let polled = stream.poll_next(&mut conv, Polled::Failed(error()));
    assert!(matches!(polled, Polled::Failed(Error::Provider(t)) if t == "boom"));
    assert!(matches!(stream.poll_next(&mut conv, Polled::Ended), Polled::Ended));
    assert!(conv.history().is_empty());
}

#[test]
fn outcome_is_read_from_the_last_event() {
    let finish = |messages: Vec<Message>| AgentEvent::TurnFinish {
        thread: MessageList::from(messages),
    };
    let silent = "model returned neither text nor tool calls".to_string();
    let answered = finish(vec![Message::user("q"), Message::assistant("a")]);
    assert_eq!(outcome_in(&answered).unwrap().unwrap().output, "a");
    let unanswered = finish(vec![Message::user("q")]);
    assert_eq!(outcome_in(&unanswered).unwrap().unwrap_err(), Error::Agent(silent.clone()));
    assert_eq!(outcome_in(&finish(vec![])).unwrap().unwrap_err(), Error::Agent(silent));
    let failed = AgentEvent::Error(Error::Provider("boom".to_string()));
    assert_eq!(outcome_in(&failed).unwrap().unwrap_err(), Error::Provider("boom".to_string()));
    assert_eq!(
        outcome_in(&AgentEvent::Cancelled).unwrap().unwrap_err(),
        Error::Agent("the run was cancelled".to_string())
    );
    assert!(outcome_in(&AgentEvent::TurnStart).is_none());
    assert!(outcome_in(&AgentEvent::TextDelta("a".to_string())).is_none());
}

#[test]
fn silent_streamed_turn_is_an_agent_error() {
    let mut conv = Conversation::new();
    let mut stream = conv.run_stream("turn1");
    let text = AgentEvent::TextDelta("a".to_string());
    assert!(matches!(Polled::from_event(text), Polled::Event(_)));
    let answered = AgentEvent::TurnFinish {
        thread: MessageList::from(vec![Message::user("q"), Message::assistant("a")]),
    };
    assert!(matches!(Polled::from_event(answered), Polled::Event(_)));

    let silent = AgentEvent::TurnFinish { thread: conv.thread("turn1") };
    assert!(!stream.is_done());
    let polled = stream.poll_next(&mut conv, Polled::from_event(silent));
    assert!(matches!(
        polled,
        Polled::Failed(Error::Agent(t)) if t == "model returned neither text nor tool calls"
    ));
    assert!(stream.is_done());
    assert!(matches!(stream.poll_next(&mut conv, Polled::Ended), Polled::Ended));
    assert!(conv.history().is_empty());
}
