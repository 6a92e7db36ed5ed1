use agent_rig::error::Error;
use agent_rig::json::{IntoValue, Object, Value};
use agent_rig::model::{
    stream_of, Message, MessageContent, MessageList, ModelRequest, ModelResponse, ModelStreamChunk,
    Role, TokenUsage, ToolCall,
};
use agent_rig::runner::batch::ToolBatch;
use agent_rig::runner::ids::RunIds;
use agent_rig::runner::run::{Run, RunInput, Waiting};
use agent_rig::runner::{AgentEvent, AgentRunner, RunEvent, ToolCallResult};
use agent_rig::tools::{CallOutcome, ToolCallReply, ToolCallRequest, ToolDefinition};
use agent_rig::Agent;
use std::collections::VecDeque;
use std::sync::Arc;

fn text(s: &str) -> Result<ModelResponse, Error> {
    Ok(ModelResponse {
        text: Some(s.to_string()),
        tool_calls: vec![],
        thinking: None,
        token_usage: None,
    })
}

fn call(id: &str, name: &str, args: Value) -> ToolCall {
    ToolCall::new(id.to_string(), name.to_string(), args)
}

fn tool_calls(calls: Vec<ToolCall>) -> Result<ModelResponse, Error> {
    Ok(ModelResponse {
        text: None,
        tool_calls: calls,
        thinking: None,
        token_usage: None,
    })
}

fn tool_call(id: &str, name: &str, args: Value) -> Result<ModelResponse, Error> {
    tool_calls(vec![call(id, name, args)])
}

fn agent() -> Agent {
    Agent::builder().name("Test").instructions("noop").build()
}

fn thread(message: &str) -> MessageList {
    MessageList::from(vec![Message::user(message)])
}

fn number(n: u64) -> Value {
    Value::Number(serde_json::Number::from(n))
}

fn entry(key: &str, value: Value) -> Value {
    Value::singleton(key.to_string(), value)
}

/// What a run reported, and what it asked the model.
struct Outcome {
    events: Vec<RunEvent>,
    requests: Vec<ModelRequest>,
}

impl Outcome {
    fn texts(&self) -> Vec<&str> {
        self.events
            .iter()
            .filter_map(|e| match &e.agent_event {
                AgentEvent::TextDelta(t) => Some(t.as_str()),
                _ => None,
            })
            .collect()
    }
}

/// Drives a run with scripted responses, answering each tool call with `answer`.
fn drive(
    runner: AgentRunner,
    thread: MessageList,
    responses: Vec<Result<ModelResponse, Error>>,
    mut answer: impl FnMut(ToolCallRequest) -> ToolCallReply,
) -> Outcome {
    let mut responses: VecDeque<_> = responses.into();
    let (mut run, mut events) = runner.run(&mut RunIds::new(), &agent(), thread);
    let mut requests = vec![];
    loop {
        match run.waiting() {
            Waiting::ForNothing => break,
            Waiting::ForCheckpoint => events.extend(run.step(RunInput::Checkpoint { cancelled: false })),
            Waiting::ForModel => {
                requests.push(run.request());
                let response = responses.pop_front().expect("a response is left");
                for item in stream_of(response) {
                    let input = match item {
                        Ok(chunk) => RunInput::Chunk(chunk),
                        Err(error) => RunInput::ModelFailed(error),
                    };
                    events.extend(run.step(input));
                }
                events.extend(run.step(RunInput::StreamEnded));
            }
            Waiting::ForTools => {
                let mut kept = vec![];
                let mut replies = vec![];
                for event in events {
                    match event.agent_event {
                        AgentEvent::ToolCall(request) => replies.push(answer(request)),
                        agent_event => kept.push(RunEvent { run_id: event.run_id, agent_event }),
                    }
                }
                events = kept;
                for reply in replies {
                    events.extend(run.step(RunInput::Reply(reply)));
                }
            }
        }
    }
    Outcome { events, requests }
}

fn unexpected(request: ToolCallRequest) -> ToolCallReply {
    panic!("no tool call was expected, got {request:?}")
}

#[test]
fn text_only_emits_start_delta_finish() {
    let outcome = drive(AgentRunner::new(), thread("hi"), vec![text("hello")], unexpected);
    let events = &outcome.events;

    assert!(matches!(events[0].agent_event, AgentEvent::TurnStart));
    assert!(matches!(&events[1].agent_event, AgentEvent::TextDelta(t) if t == "hello"));
    assert!(matches!(events[2].agent_event, AgentEvent::TurnFinish { .. }));
    assert_eq!(events.len(), 3);
}

#[test]
fn thinking_delta_is_forwarded() {
    let response = Ok(ModelResponse {
        text: Some("answer".to_string()),
        tool_calls: vec![],
        thinking: Some("reasoning".to_string()),
        token_usage: None,
    });
    let outcome = drive(AgentRunner::new(), thread("hi"), vec![response], unexpected);

    assert!(
        matches!(&outcome.events[1].agent_event, AgentEvent::ThinkingDelta(t) if t == "reasoning")
    );
    assert!(matches!(&outcome.events[2].agent_event, AgentEvent::TextDelta(t) if t == "answer"));
}

#[test]
fn usage_event_is_forwarded() {
    let response = Ok(ModelResponse {
        text: Some("hi".to_string()),
        tool_calls: vec![],
        thinking: None,
        token_usage: Some(TokenUsage {
            input_tokens: Some(10),
            output_tokens: Some(5),
            ..Default::default()
        }),
    });
    let outcome = drive(AgentRunner::new(), thread("hi"), vec![response], unexpected);

    let usage = outcome.events.iter().find_map(|e| {
        if let AgentEvent::Usage(u) = &e.agent_event {
            Some(u)
        } else {
            None
        }
    });
    assert!(usage.is_some());
    let u = usage.unwrap();
    assert_eq!(u.input_tokens, Some(10));
    assert_eq!(u.output_tokens, Some(5));
}

#[test]
fn model_error_emits_error_event_and_closes_stream() {
    let failure = Err(Error::Provider("boom".to_string()));
    let outcome = drive(AgentRunner::new(), thread("hi"), vec![failure], unexpected);
    let events = &outcome.events;

    assert!(matches!(events[0].agent_event, AgentEvent::TurnStart));
    assert!(
        matches!(&events[1].agent_event, AgentEvent::Error(Error::Provider(s)) if s == "boom")
    );
    assert_eq!(events.len(), 2);
}

#[test]
fn tool_call_resolved_triggers_second_turn() {
    let mut args = Object::new();
    args.insert("a".to_string(), number(1));
    args.insert("b".to_string(), number(2));
    let outcome = drive(
        AgentRunner::new(),
        thread("what is 1+2?"),
        vec![tool_call("c1", "add", Value::Object(args)), text("result is 3")],
        |request| request.resolve(entry("sum", number(3))),
    );

    assert_eq!(outcome.texts(), vec!["result is 3"]);
    assert_eq!(outcome.requests.len(), 2);
}

#[test]
fn turn_finish_thread_contains_full_history() {
    let outcome = drive(
        AgentRunner::new(),
        thread("hello"),
        vec![tool_call("c1", "greet", entry("name", Value::text("Alice"))), text("done")],
        |request| request.resolve(entry("greeting", Value::text("Hello, Alice!"))),
    );

    let thread = outcome
        .events
        .iter()
        .find_map(|e| match &e.agent_event {
            AgentEvent::TurnFinish { thread } => Some(thread),
            _ => None,
        })
        .unwrap();
    // user → tool_calls → tool_result → assistant
    assert_eq!(thread.len(), 4);
    assert!(matches!(&thread[0].content, MessageContent::Text(t) if t == "hello"));
    assert!(matches!(&thread[1].content, MessageContent::ToolCalls(_)));
    assert!(
        matches!(&thread[2].content, MessageContent::ToolResult { tool_call, .. } if tool_call.name == "greet")
    );
    assert!(matches!(&thread[3].content, MessageContent::Text(t) if t == "done"));
}

#[test]
fn multiple_tool_calls_all_resolved_in_one_turn() {
    let mut tool_calls_seen = 0usize;
    let outcome = drive(
        AgentRunner::new(),
        thread("do both"),
        vec![
            tool_calls(vec![
                call("c1", "a", Value::empty_object()),
                call("c2", "b", Value::empty_object()),
            ]),
            text("all done"),
        ],
        |request| {
            tool_calls_seen += 1;
            request.resolve(entry("ok", Value::Bool(true)))
        },
    );

    assert_eq!(tool_calls_seen, 2);
    assert_eq!(outcome.requests.len(), 2);
}

#[test]
fn dropped_tool_call_sends_error_string_to_model() {
    let outcome = drive(
        AgentRunner::new(),
        thread("hi"),
        vec![tool_call("c1", "noop", Value::empty_object()), text("done")],
        |request| request.dismiss(),
    );

    assert_eq!(outcome.requests.len(), 2);
    let tool_result = outcome.requests[1]
        .messages
        .iter()
        .find(|m| matches!(&m.content, MessageContent::ToolResult { .. }));
    assert!(tool_result.is_some());
    if let MessageContent::ToolResult { result, .. } = &tool_result.unwrap().content {
        assert!(result.as_str().unwrap_or("").contains("failed"));
        assert_eq!(result.as_str(), Some("Tool call noop failed"));
    }
}

#[test]
fn runner_tools_forwarded_to_model_request() {
    let tool_def = ToolDefinition {
        name: "my_tool".to_string(),
        description: "desc".to_string(),
        parameters: entry("type", Value::text("object")),
    };
    let runner = AgentRunner::with_tools(vec![tool_def]);
    let outcome = drive(runner, thread("hi"), vec![text("hi")], unexpected);

    assert_eq!(outcome.requests[0].tools.len(), 1);
    assert_eq!(outcome.requests[0].tools[0].name, "my_tool");
    assert_eq!(outcome.requests[0].system.as_deref(), Some("noop"));
}

#[test]
fn pre_cancelled_token_emits_cancelled_without_calling_model() {
    let (mut run, mut events) = AgentRunner::new().run(&mut RunIds::new(), &agent(), thread("hi"));
    events.extend(run.step(RunInput::Checkpoint { cancelled: true }));

    assert!(matches!(events[0].agent_event, AgentEvent::TurnStart));
    assert!(matches!(events[1].agent_event, AgentEvent::Cancelled));
    assert_eq!(events.len(), 2);
    assert_eq!(run.waiting(), Waiting::ForNothing);
}

#[test]
fn run_id_is_consistent_across_all_events_in_a_run() {
    let outcome = drive(AgentRunner::new(), thread("hi"), vec![text("hello")], unexpected);
    let run_ids: Vec<usize> = outcome.events.iter().map(|e| e.run_id).collect();

    assert!(!run_ids.is_empty());
    let first = run_ids[0];
    assert!(run_ids.iter().all(|id| *id == first));
}

#[test]
fn no_two_runs_share_an_id() {
    let mut ids = RunIds::new();
    let one = AgentRunner::new();
    let other = AgentRunner::with_tools(vec![]);
    let (_, first) = one.run(&mut ids, &agent(), thread("hi"));
    let (_, second) = other.run(&mut ids, &agent(), thread("hi"));
    let (_, third) = one.run(&mut ids, &agent(), thread("hi"));
    let found: Vec<usize> = [first, second, third].iter().map(|e| e[0].run_id).collect();
    assert_eq!(found, vec![0, 1, 2]);
    assert_eq!(ids.next_run_id(), 3);
}

#[test]
fn declared_tools_must_be_offered() {
    let definition = |name: &str| ToolDefinition {
        name: name.to_string(),
        description: String::new(),
        parameters: Value::empty_object(),
    };
    let runner = AgentRunner::with_tools(vec![definition("a"), definition("b")]);
    let declaring = |names: &[&str]| {
        names
            .iter()
            .fold(Agent::builder().name("x").instructions("y"), |b, n| b.tool(*n))
            .build()
    };
    assert_eq!(runner.check_tools(&declaring(&[])), Ok(()));
    assert_eq!(runner.check_tools(&declaring(&["b", "a"])), Ok(()));
    assert_eq!(
        runner.check_tools(&declaring(&["a", "c", "d"])),
        Err(Error::Agent("no registered implementation for tool: c".to_string()))
    );
}

#[test]
fn empty_reply_adds_no_message() {
    let silent = Ok(ModelResponse {
        text: None,
        tool_calls: vec![],
        thinking: None,
        token_usage: None,
    });
    let outcome = drive(AgentRunner::new(), thread("hi"), vec![silent], unexpected);
    assert!(matches!(
        &outcome.events.last().unwrap().agent_event,
        AgentEvent::TurnFinish { thread } if thread.len() == 1
    ));
}

#[test]
fn text_of_a_tool_turn_is_reported_but_not_kept() {
    let both = Ok(ModelResponse {
        text: Some("let me see".to_string()),
        tool_calls: vec![call("c1", "look", Value::Null)],
        thinking: None,
        token_usage: None,
    });
    let outcome = drive(
        AgentRunner::new(),
        thread("hi"),
        vec![both, text("seen")],
        |request| request.resolve("x"),
    );
    assert_eq!(outcome.texts(), vec!["let me see", "seen"]);
    assert!(matches!(
        &outcome.events.last().unwrap().agent_event,
        AgentEvent::TurnFinish { thread }
            if thread.len() == 4
                && matches!(&thread[3].content, MessageContent::Text(t) if t == "seen")
    ));
}

#[test]
fn cancellation_while_streaming_ends_the_run() {
    let (mut run, _) = AgentRunner::new().run(&mut RunIds::new(), &agent(), thread("hi"));
    run.step(RunInput::Checkpoint { cancelled: false });
    run.step(RunInput::Chunk(ModelStreamChunk::TextDelta("par".to_string())));
    let events = run.step(RunInput::Cancel);
    assert_eq!(events.len(), 1);
    assert!(matches!(events[0].agent_event, AgentEvent::Cancelled));
    assert!(run.step(RunInput::StreamEnded).is_empty());
    assert_eq!(run.waiting(), Waiting::ForNothing);
}

fn run_with_calls(calls: Vec<ToolCall>) -> (Run, Vec<RunEvent>) {
    let (mut run, _) = AgentRunner::new().run(&mut RunIds::new(), &agent(), thread("go"));
    run.step(RunInput::Checkpoint { cancelled: false });
    for call in calls {
        assert!(run.step(RunInput::Chunk(ModelStreamChunk::ToolCall(call))).is_empty());
    }
    let events = run.step(RunInput::StreamEnded);
    (run, events)
}

#[test]
fn cancellation_while_tools_run_ends_the_run_after_them() {
    let (mut run, events) = run_with_calls(vec![call("1", "a", Value::Null), call("2", "b", Value::Null)]);
    assert_eq!(events.len(), 2);
    run.step(RunInput::Reply(ToolCallReply { index: 1, outcome: CallOutcome::Cancelled }));
    assert_eq!(run.waiting(), Waiting::ForTools);
    run.step(RunInput::Reply(ToolCallReply { index: 0, outcome: CallOutcome::Cancelled }));
    assert_eq!(run.waiting(), Waiting::ForCheckpoint);
    let messages = run.request().messages;
    assert!(matches!(
        &messages[2].content,
        MessageContent::ToolResult { result, .. } if result.as_str() == Some("Cancelled")
    ));
    let events = run.step(RunInput::Checkpoint { cancelled: true });
    assert!(matches!(events[0].agent_event, AgentEvent::Cancelled));
}

#[test]
fn results_join_the_thread_in_the_order_of_the_calls() {
    let (mut run, _) = run_with_calls(vec![
        call("1", "a", Value::Null),
        call("2", "b", Value::Null),
        call("3", "c", Value::Null),
    ]);
    for index in [2usize, 0, 1] {
        run.step(RunInput::Reply(ToolCallReply {
            index,
            outcome: CallOutcome::Resolved(number(index as u64)),
        }));
    }
    let messages = run.request().messages;
    let found: Vec<(String, Value)> = messages
        .iter()
        .filter_map(|m| match &m.content {
            MessageContent::ToolResult { tool_call, result } => {
                assert_eq!(m.role, Role::User);
                Some((tool_call.id.clone(), result.clone()))
            }
            _ => None,
        })
        .collect();
    assert_eq!(
        found,
        vec![
            ("1".to_string(), number(0)),
            ("2".to_string(), number(1)),
            ("3".to_string(), number(2))
        ]
    );
}

#[test]
fn a_call_is_answered_once() {
    let (mut run, _) = run_with_calls(vec![call("1", "a", Value::Null), call("2", "b", Value::Null)]);
    for (index, text) in [(0usize, "first"), (0, "second"), (9, "nobody"), (1, "other")] {
        let outcome = CallOutcome::Resolved(Value::text(text));
        assert!(run.step(RunInput::Reply(ToolCallReply { index, outcome })).is_empty());
    }
    let messages = run.request().messages;
    assert!(matches!(
        &messages[2].content,
        MessageContent::ToolResult { result, .. } if result.as_str() == Some("first")
    ));
}

#[test]
fn finished_run_reports_nothing_more() {
    let (mut run, _) = AgentRunner::new().run(&mut RunIds::new(), &agent(), thread("hi"));
    run.step(RunInput::Checkpoint { cancelled: true });
    assert!(run.step(RunInput::Checkpoint { cancelled: true }).is_empty());
    assert!(run.step(RunInput::Cancel).is_empty());
    assert!(run
        .step(RunInput::Chunk(ModelStreamChunk::TextDelta("late".to_string())))
        .is_empty());
}

#[test]
fn call_results_read_as_values() {
    assert_eq!(Value::from(ToolCallResult::Done(number(1))), number(1));
    assert_eq!(Value::from(ToolCallResult::Denied), Value::text("Tool call denied"));
    assert_eq!(Value::from(ToolCallResult::Unknown), Value::text("Unknown tool"));
    let failed = ToolCallResult::from(Err(Error::Agent("kaboom".to_string())));
    assert_eq!(failed.clone().into_value(), Value::text("Tool call error: Agent error: kaboom"));
    assert!(matches!(failed, ToolCallResult::Failed(_)));
    assert!(matches!(ToolCallResult::from(Ok(Value::Null)), ToolCallResult::Done(Value::Null)));
}

#[test]
fn batch_keeps_results_by_call() {
    let mut batch = ToolBatch::new(vec![
        Arc::new(call("1", "a", Value::Null)),
        Arc::new(call("2", "b", Value::Null)),
    ]);
    assert_eq!(batch.len(), 2);
    assert_eq!(batch.call(1).name, "b");
    assert!(batch.is_pending(1));
    assert!(!batch.is_pending(2));
    batch.settle(1, number(5));
    assert!(!batch.is_pending(1));
    assert!(!batch.is_settled());
    batch.settle(0, number(4));
    assert!(batch.is_settled());
    let mut list = MessageList::new();
    batch.append_to(&mut list);
    assert_eq!(list.len(), 2);
    assert!(matches!(
        &list[1].content,
        MessageContent::ToolResult { tool_call, result } if tool_call.id == "2" && *result == number(5)
    ));
}
