use agent_rig::auth::AuthManager;
use agent_rig::error::Error;
use agent_rig::json::Value;
use agent_rig::model::{
    stream_of, Message, MessageContent, MessageList, ModelRequest, ModelResponse, Role, TokenUsage,
    ToolCall,
};
use agent_rig::mpsc_runner;
use agent_rig::registry_runner;
use agent_rig::runner::ToolCallResult;
use agent_rig::tool_loop::{gate_of, Gate, LoopInput, Stage};
use agent_rig::tools::{Tool, ToolDefinition, ToolRegistry};
use agent_rig::Agent;
use std::cell::RefCell;
use std::collections::VecDeque;
use std::sync::Arc;

/// A tool that returns a fixed outcome and notes what it was called with.
struct EchoTool {
    definition: ToolDefinition,
    outcome: Result<Value, Error>,
    calls: RefCell<Vec<Value>>,
}

impl EchoTool {
    fn ok(name: &str) -> Self {
        EchoTool::with(name, Ok(Value::singleton("ok".to_string(), Value::Bool(true))))
    }

    fn failing(name: &str, msg: &str) -> Self {
        EchoTool::with(name, Err(Error::Agent(msg.to_string())))
    }

    fn with(name: &str, outcome: Result<Value, Error>) -> Self {
        EchoTool {
            definition: ToolDefinition {
                name: name.to_string(),
                description: "echo".to_string(),
                parameters: Value::singleton("type".to_string(), Value::text("object")),
            },
            outcome,
            calls: RefCell::new(vec![]),
        }
    }
}

impl Tool for EchoTool {
    fn definition(&self) -> &ToolDefinition {
        &self.definition
    }
}

/// A policy that always or never asks, with its verdicts.
struct ScriptedAuth {
    required: bool,
    decisions: RefCell<VecDeque<bool>>,
    calls: RefCell<Vec<String>>,
}

impl ScriptedAuth {
    fn new(required: bool, decisions: Vec<bool>) -> Arc<Self> {
        Arc::new(ScriptedAuth {
            required,
            decisions: RefCell::new(decisions.into()),
            calls: RefCell::new(vec![]),
        })
    }

    fn authorize(&self, name: &str) -> bool {
        self.calls.borrow_mut().push(name.to_string());
        self.decisions.borrow_mut().pop_front().expect("a decision is left")
    }
}

impl AuthManager for ScriptedAuth {
    fn requires_authorization(&self, _name: &str, _args: &Value) -> bool {
        self.required
    }
}

fn final_response(text: &str) -> Result<ModelResponse, Error> {
    Ok(ModelResponse {
        text: Some(text.to_string()),
        tool_calls: vec![],
        thinking: None,
        token_usage: None,
    })
}

fn call(id: &str, name: &str, args: Value) -> ToolCall {
    ToolCall::new(id.to_string(), name.to_string(), args)
}

fn calls_response(tool_calls: Vec<ToolCall>) -> Result<ModelResponse, Error> {
    Ok(ModelResponse { text: None, tool_calls, thinking: None, token_usage: None })
}

fn tool_call_response(id: &str, name: &str, args: Value) -> Result<ModelResponse, Error> {
    calls_response(vec![call(id, name, args)])
}

fn agent(name: &str) -> Agent {
    Agent::builder().name(name).instructions("test instructions").build()
}

fn number(n: u64) -> Value {
    Value::Number(serde_json::Number::from(n))
}

fn registry(tools: Vec<EchoTool>) -> Arc<ToolRegistry<EchoTool>> {
    Arc::new(tools.into_iter().fold(ToolRegistry::new(), |r, t| r.register(t)))
}

type RegistryRunner = registry_runner::AgentRunner<EchoTool, ScriptedAuth>;

/// Drives a run to its end: what it reported, and what it asked the model. The calls
/// of a turn are carried out last first.
fn collect(
    runner: &RegistryRunner,
    tools: &ToolRegistry<EchoTool>,
    auth: Option<&ScriptedAuth>,
    agent: Agent,
    prompt: &str,
    responses: Vec<Result<ModelResponse, Error>>,
) -> (Vec<registry_runner::AgentEvent>, Vec<ModelRequest>) {
    let mut responses: VecDeque<_> = responses.into();
    let mut run = runner.run(&agent, MessageList::from(vec![Message::user(prompt)]));
    let mut events = vec![];
    let mut requests = vec![];
    while !run.is_finished() {
        if run.is_streaming() {
            requests.push(run.request());
            for item in stream_of(responses.pop_front().expect("a response is left")) {
                events.extend(registry_runner::tell(
                    &mut run,
                    match item {
                        Ok(chunk) => LoopInput::Chunk(chunk),
                        Err(error) => LoopInput::ModelFailed(error),
                    },
                ));
            }
            events.extend(runner.end_stream(&mut run));
            continue;
        }
        let mut index = 0;
        while run.call(index).is_some() {
            index += 1;
        }
        while index > 0 {
            index -= 1;
            let Some((call, stage)) = run.call(index) else { break };
            match stage {
                Stage::Guarded => {
                    let allowed = auth.expect("a policy").authorize(&call.name);
                    let input = registry_runner::verdict(index, allowed);
                    events.extend(registry_runner::tell(&mut run, input));
                }
                Stage::Running => {
                    let tool = tools.get(&call.name).expect("a registered tool");
                    tool.calls.borrow_mut().push(call.args.clone());
                    let outcome = tool.outcome.clone();
                    events.extend(registry_runner::tell(
                        &mut run,
                        LoopInput::ToolEnded { index, outcome },
                    ));
                }
                Stage::Over => {}
            }
        }
    }
    (events, requests)
}

fn kinds(events: &[registry_runner::AgentEvent]) -> Vec<&'static str> {
    events
        .iter()
        .map(|e| match e {
            registry_runner::AgentEvent::ThinkingDelta(_) => "thinking",
            registry_runner::AgentEvent::TextDelta(_) => "text",
            registry_runner::AgentEvent::ToolCallStarted { .. } => "started",
            registry_runner::AgentEvent::ToolCallFinished { .. } => "finished",
            registry_runner::AgentEvent::Error(_) => "error",
        })
        .collect()
}

#[test]
fn text_only_response_emits_text_delta_and_stops() {
    let tools = registry(vec![]);
    let runner = RegistryRunner::new();
    let responses = vec![final_response("hi there")];
    let (events, requests) = collect(&runner, &tools, None, agent("Greeter"), "hello", responses);

    let text: String = events
        .iter()
        .filter_map(|e| match e {
            registry_runner::AgentEvent::TextDelta(t) => Some(t.as_str()),
            _ => None,
        })
        .collect();
    assert_eq!(text, "hi there");
    // Single turn — the runner stops once no tool calls are returned.
    assert_eq!(requests.len(), 1);
}

#[test]
fn tool_call_then_text_completes_the_loop() {
    let tools = registry(vec![EchoTool::ok("echo")]);
    let runner = RegistryRunner::with_registry(tools.clone());
    let responses = vec![
        tool_call_response("c1", "echo", Value::singleton("x".to_string(), number(1))),
        final_response("done"),
    ];
    let (events, requests) = collect(&runner, &tools, None, agent("Looper"), "go", responses);

    // Started + Finished + TextDelta
    assert!(matches!(
        &events[0],
        registry_runner::AgentEvent::ToolCallStarted { name, .. } if name == "echo"
    ));
    assert!(matches!(
        &events[1],
        registry_runner::AgentEvent::ToolCallFinished {
            name,
            result: ToolCallResult::Done(_),
        } if name == "echo"
    ));
    assert!(matches!(&events[2], registry_runner::AgentEvent::TextDelta(t) if t == "done"));

    assert_eq!(tools.get("echo").unwrap().calls.borrow().len(), 1);
    let last_msg = requests[1].messages.last().unwrap();
    assert!(matches!(
        &last_msg.content,
        MessageContent::ToolResult { tool_call, .. } if tool_call.name == "echo"
    ));
}

#[test]
fn unknown_tool_produces_synthetic_result_with_no_events() {
    let tools = registry(vec![]);
    let runner = RegistryRunner::new();
    let responses = vec![
        tool_call_response("c1", "nope", Value::empty_object()),
        final_response("ok"),
    ];
    let (events, requests) = collect(&runner, &tools, None, agent("a"), "go", responses);

    assert_eq!(kinds(&events), vec!["text"]);
    let last_msg = requests[1].messages.last().unwrap();
    assert!(matches!(
        &last_msg.content,
        MessageContent::ToolResult { tool_call, result }
            if tool_call.name == "nope" && result.as_str() == Some("Unknown tool")
    ));
}

#[test]
fn tool_error_is_reported_via_finished_event() {
    let tools = registry(vec![EchoTool::failing("boom", "kaboom")]);
    let runner = RegistryRunner::with_registry(tools.clone());
    let responses = vec![
        tool_call_response("c1", "boom", Value::empty_object()),
        final_response("ok"),
    ];
    let (events, requests) = collect(&runner, &tools, None, agent("a"), "go", responses);

    let finished = events
        .iter()
        .find(|e| matches!(e, registry_runner::AgentEvent::ToolCallFinished { .. }))
        .unwrap();
    assert!(matches!(
        finished,
        registry_runner::AgentEvent::ToolCallFinished {
            result: ToolCallResult::Failed(_),
            ..
        }
    ));
    assert!(matches!(
        &requests[1].messages.last().unwrap().content,
        MessageContent::ToolResult { result, .. }
            if result.as_str() == Some("Tool call error: Agent error: kaboom")
    ));
}

#[test]
fn auth_denial_skips_tool_execution() {
    let tools = registry(vec![EchoTool::ok("echo")]);
    let auth = ScriptedAuth::new(true, vec![false]);
    let runner = RegistryRunner::with_registry(tools.clone()).with_auth_manager(auth.clone());
    let responses = vec![
        tool_call_response("c1", "echo", Value::empty_object()),
        final_response("ok"),
    ];
    let (events, requests) =
        collect(&runner, &tools, Some(&auth), agent("a"), "go", responses);

    // Denial skips Started and the underlying tool, but still emits Finished so the
    // consumer sees the outcome.
    assert!(!kinds(&events).contains(&"started"));
    let finished = events
        .iter()
        .find(|e| matches!(e, registry_runner::AgentEvent::ToolCallFinished { .. }))
        .unwrap();
    assert!(matches!(
        finished,
        registry_runner::AgentEvent::ToolCallFinished {
            result: ToolCallResult::Denied,
            ..
        }
    ));
    assert!(tools.get("echo").unwrap().calls.borrow().is_empty());
    assert_eq!(auth.calls.borrow().as_slice(), &["echo".to_string()]);
    assert!(matches!(
        &requests[1].messages.last().unwrap().content,
        MessageContent::ToolResult { result, .. } if result.as_str() == Some("Tool call denied")
    ));
}

#[test]
fn auth_approval_starts_the_tool() {
    let tools = registry(vec![EchoTool::ok("echo")]);
    let auth = ScriptedAuth::new(true, vec![true]);
    let runner = RegistryRunner::with_registry(tools.clone()).with_auth_manager(auth.clone());
    let mut run = runner.run(&agent("a"), MessageList::from(vec![Message::user("go")]));
    for item in stream_of(tool_call_response("c1", "echo", Value::Null)) {
        registry_runner::tell(&mut run, LoopInput::Chunk(item.unwrap()));
    }
    assert!(runner.end_stream(&mut run).is_empty());
    assert!(matches!(run.call(0), Some((_, Stage::Guarded))));
    // A tool cannot end before it is allowed to run.
    let early = LoopInput::ToolEnded { index: 0, outcome: Ok(Value::Null) };
    assert!(registry_runner::tell(&mut run, early).is_empty());
    let events = registry_runner::tell(&mut run, registry_runner::verdict(0, true));
    assert_eq!(kinds(&events), vec!["started"]);
    // The verdict is given once.
    assert!(registry_runner::tell(&mut run, registry_runner::verdict(0, false)).is_empty());
    assert!(matches!(run.call(0), Some((_, Stage::Running))));
}

#[test]
fn auth_fast_path_skips_authorize() {
    let tools = registry(vec![EchoTool::ok("echo")]);
    // requires_authorization returns false — authorize must never run.
    let auth = ScriptedAuth::new(false, vec![]);
    let runner = RegistryRunner::with_registry(tools.clone()).with_auth_manager(auth.clone());
    let responses = vec![
        tool_call_response("c1", "echo", Value::empty_object()),
        final_response("ok"),
    ];
    let _ = collect(&runner, &tools, Some(&auth), agent("a"), "go", responses);

    assert!(auth.calls.borrow().is_empty());
    assert_eq!(tools.get("echo").unwrap().calls.borrow().len(), 1);
}

#[test]
fn thinking_chunks_are_forwarded() {
    let tools = registry(vec![]);
    let runner = RegistryRunner::new();
    let responses = vec![Ok(ModelResponse {
        text: Some("answer".to_string()),
        tool_calls: vec![],
        thinking: Some("reasoning".to_string()),
        token_usage: Some(TokenUsage::default()),
    })];
    let (events, _) = collect(&runner, &tools, None, agent("a"), "q", responses);
    // Thinking comes before text.
    assert_eq!(kinds(&events), vec!["thinking", "text"]);
}

#[test]
fn model_error_is_emitted_and_stops_the_loop() {
    let tools = registry(vec![]);
    let runner = RegistryRunner::new();
    let responses = vec![Err(Error::Provider("boom".to_string()))];
    let (events, requests) = collect(&runner, &tools, None, agent("a"), "q", responses);
    assert!(matches!(events.last(), Some(registry_runner::AgentEvent::Error(_))));
    // The runner must not keep calling the model after an error.
    assert_eq!(requests.len(), 1);
}

#[test]
fn parallel_tool_results_are_paired_in_request_order() {
    let tools = registry(vec![EchoTool::ok("echo")]);
    let runner = RegistryRunner::with_registry(tools.clone());
    let argument = |i: u64| Value::singleton("i".to_string(), number(i));
    let responses = vec![
        calls_response(vec![
            call("c1", "echo", argument(1)),
            call("c2", "echo", argument(2)),
            call("c3", "echo", argument(3)),
        ]),
        final_response("done"),
    ];
    let (events, requests) = collect(&runner, &tools, None, agent("a"), "go", responses);

    let ids: Vec<&str> = requests[1]
        .messages
        .iter()
        .filter_map(|m| match &m.content {
            MessageContent::ToolResult { tool_call, .. } => Some(tool_call.id.as_str()),
            _ => None,
        })
        .collect();
    assert_eq!(ids, vec!["c1", "c2", "c3"]);
    assert_eq!(
        kinds(&events),
        vec!["started", "started", "started", "finished", "finished", "finished", "text"]
    );
    // The last call was carried out first.
    assert_eq!(tools.get("echo").unwrap().calls.borrow()[0], argument(3));
}

#[test]
fn user_message_is_first_in_initial_request() {
    let tools = registry(vec![]);
    let runner = RegistryRunner::new();
    let responses = vec![final_response("hi")];
    let (_, requests) = collect(&runner, &tools, None, agent("a"), "hello there", responses);

    let first = &requests[0];
    let first_msg = &first.messages[0];
    assert_eq!(first_msg.role, Role::User);
    assert!(matches!(
        &first_msg.content,
        MessageContent::Text(t) if t == "hello there"
    ));
    assert_eq!(first.system.as_deref(), Some("test instructions"));
}

#[test]
fn registered_tools_are_offered_to_the_model() {
    let tools = registry(vec![EchoTool::ok("a"), EchoTool::ok("b")]);
    let runner = RegistryRunner::with_registry(tools.clone());
    let responses = vec![final_response("hi")];
    let (_, requests) = collect(&runner, &tools, None, agent("x"), "hello", responses);
    let mut names: Vec<&str> = requests[0].tools.iter().map(|t| t.name.as_str()).collect();
    names.sort();
    assert_eq!(names, vec!["a", "b"]);
}

#[test]
fn child_reply_collects_the_text() {
    let mut child = registry_runner::ChildReply::new();
    child.observe(&registry_runner::AgentEvent::TextDelta("a".to_string()));
    child.observe(&registry_runner::AgentEvent::ThinkingDelta("hm".to_string()));
    child.observe(&registry_runner::AgentEvent::TextDelta("b".to_string()));
    assert!(matches!(
        child.finish(),
        ToolCallResult::Done(v) if v.as_str() == Some("ab")
    ));
}

#[test]
fn gates_follow_registry_and_policy() {
    assert_eq!(gate_of(false, None), Gate::Unknown);
    assert_eq!(gate_of(false, Some(true)), Gate::Unknown);
    assert_eq!(gate_of(true, None), Gate::Open);
    assert_eq!(gate_of(true, Some(false)), Gate::Open);
    assert_eq!(gate_of(true, Some(true)), Gate::Guarded);
}

#[test]
fn mpsc_runner_says_what_happened_to_each_call() {
    let tools = registry(vec![EchoTool::ok("good"), EchoTool::failing("bad", "kaboom")]);
    let auth = ScriptedAuth::new(true, vec![]);
    let runner: mpsc_runner::MpscRunner<EchoTool, ScriptedAuth> =
        mpsc_runner::MpscRunner::with_registry(tools).with_auth_manager(auth);
    let mut run = runner.run(&agent("a"), MessageList::from(vec![Message::user("go")]));
    let turn = calls_response(vec![
        call("1", "good", number(1)),
        call("2", "bad", number(2)),
        call("3", "good", number(3)),
        call("4", "nope", number(4)),
    ]);
    for item in stream_of(turn) {
        assert!(mpsc_runner::tell(&mut run, LoopInput::Chunk(item.unwrap())).is_empty());
    }
    assert!(runner.end_stream(&mut run).is_empty());
    let allow = |index: usize| LoopInput::Verdict { index, denied: None };
    let events = mpsc_runner::tell(&mut run, allow(0));
    assert!(matches!(
        &events[0],
        mpsc_runner::AgentEvent::ToolCallStarted { name, args } if name == "good" && *args == number(1)
    ));
    mpsc_runner::tell(&mut run, allow(1));
    let denied = LoopInput::Verdict { index: 2, denied: Some("not today".to_string()) };
    let events = mpsc_runner::tell(&mut run, denied);
    assert!(matches!(
        &events[0],
        mpsc_runner::AgentEvent::ToolCallDenied { name, reason } if name == "good" && reason == "not today"
    ));
    let failed = LoopInput::ToolEnded { index: 1, outcome: Err(Error::Agent("kaboom".to_string())) };
    let events = mpsc_runner::tell(&mut run, failed);
    assert!(matches!(
        &events[0],
        mpsc_runner::AgentEvent::ToolCallError { name, error: Error::Agent(e) } if name == "bad" && e == "kaboom"
    ));
    let done = LoopInput::ToolEnded { index: 0, outcome: Ok(number(7)) };
    let events = mpsc_runner::tell(&mut run, done);
    assert!(matches!(
        &events[0],
        mpsc_runner::AgentEvent::ToolCallFinished { name, result } if name == "good" && *result == number(7)
    ));
    assert!(run.is_streaming());
    let results: Vec<Value> = run
        .request()
        .messages
        .iter()
        .filter_map(|m| match &m.content {
            MessageContent::ToolResult { result, .. } => Some(result.clone()),
            _ => None,
        })
        .collect();
    assert_eq!(
        results,
        vec![
            number(7),
            Value::text("Error: Agent error: kaboom"),
            Value::text("authorization denied: not today"),
            Value::text("unknown tool: nope"),
        ]
    );
}

#[test]
fn mpsc_runner_without_tools_answers_and_stops() {
    let runner: mpsc_runner::MpscRunner<EchoTool, ScriptedAuth> = mpsc_runner::MpscRunner::new();
    let mut run = runner.run(&agent("a"), MessageList::from(vec![Message::user("go")]));
    assert!(run.request().tools.is_empty());
    for item in stream_of(final_response("hi")) {
        let events = mpsc_runner::tell(&mut run, LoopInput::Chunk(item.unwrap()));
        assert!(matches!(&events[0], mpsc_runner::AgentEvent::TextDelta(t) if t == "hi"));
    }
    assert!(runner.end_stream(&mut run).is_empty());
    assert!(run.is_finished());
    let failure = LoopInput::ModelFailed(Error::Provider("late".to_string()));
    assert!(mpsc_runner::tell(&mut run, failure).is_empty());
}
