use agent_rig::auth::{AlwaysAsk, AuthManager};
use agent_rig::error::Error;
use agent_rig::json::{IntoValue, Object, Value};
use agent_rig::model::{
    stream_of, Message, MessageContent, MessageList, ModelResponse, ToolCall,
};
use agent_rig::render::to_serde;
use agent_rig::runner::ids::RunIds;
use agent_rig::runner::run::{RunInput, Waiting};
use agent_rig::runner::{AgentEvent, AgentRunner, RunEvent};
use agent_rig::tools::agent_tool::{
    call_input_from, call_outcome_in, input_from, wrap_output, ChildRun,
};
use agent_rig::tools::{
    AgentTool, ApprovalRequest, CallOutcome, Tool, ToolCallRequest, ToolDefinition, ToolRegistry,
    ToolResult,
};
use agent_rig::Agent;
use std::sync::Arc;

fn object_schema() -> Value {
    Value::singleton("type".to_string(), Value::text("object"))
}

struct StubTool {
    definition: ToolDefinition,
}

impl Tool for StubTool {
    fn definition(&self) -> &ToolDefinition {
        &self.definition
    }
}

fn stub(name: &str) -> StubTool {
    described(name, "stub")
}

fn described(name: &str, description: &str) -> StubTool {
    StubTool {
        definition: ToolDefinition {
            name: name.to_string(),
            description: description.to_string(),
            parameters: object_schema(),
        },
    }
}

#[test]
fn new_registry_is_empty() {
    let reg: ToolRegistry<StubTool> = ToolRegistry::new();
    assert!(reg.definitions().is_empty());
    assert!(reg.get("anything").is_none());
    assert!(!reg.contains("anything"));
    let reg: ToolRegistry<StubTool> = ToolRegistry::default();
    assert!(reg.definitions().is_empty());
    assert!(ToolRegistry::<StubTool>::empty().definitions().is_empty());
}

#[test]
fn register_keys_by_definition_name() {
    let reg = ToolRegistry::new().register(stub("alpha"));
    assert!(reg.get("alpha").is_some());
    assert!(reg.contains("alpha"));
    assert!(reg.get("beta").is_none());
}

#[test]
fn definitions_lists_every_registered_tool() {
    let reg = ToolRegistry::new().register(stub("alpha")).register(stub("beta"));
    let mut names: Vec<String> = reg.definitions().into_iter().map(|d| d.name).collect();
    names.sort();
    assert_eq!(names, vec!["alpha".to_string(), "beta".to_string()]);
}

#[test]
fn last_registration_wins_on_name_collision() {
    let reg = ToolRegistry::new()
        .register(described("alpha", "first"))
        .register(stub("beta"))
        .register(described("alpha", "second"));
    assert_eq!(reg.definitions().len(), 2);
    assert_eq!(reg.get("alpha").unwrap().definition().description, "second");
    let reg = ToolRegistry::new().register(stub("alpha")).register(stub("alpha"));
    assert_eq!(reg.definitions().len(), 1);
}

#[test]
fn register_accepts_an_agent_tool() {
    let agent = Agent::builder().name("Child").instructions("noop").build();
    let tool = AgentTool::new(
        ToolDefinition {
            name: "delegate".to_string(),
            description: "delegate to child".to_string(),
            parameters: object_schema(),
        },
        agent,
        AgentRunner::new(),
    );

    let reg = ToolRegistry::new().register(tool);
    assert!(reg.get("delegate").is_some());
    assert_eq!(reg.definitions().len(), 1);
}

#[test]
fn declared_tools_must_be_registered() {
    let reg = ToolRegistry::new().register(stub("alpha")).register(stub("beta"));
    let agent = Agent::builder().name("x").instructions("y").tool("beta").tool("alpha").build();
    assert_eq!(reg.check_tools(&agent), Ok(()));
    let agent = Agent::builder().name("x").instructions("y").tool("gamma").tool("delta").build();
    assert_eq!(
        reg.check_tools(&agent),
        Err(Error::Agent("no registered implementation for tool: gamma".to_string()))
    );
}

#[test]
fn title_is_the_name_by_default() {
    assert_eq!(stub("alpha").title(&Value::Null), "alpha");
}

#[test]
fn tool_results_go_into_envelopes() {
    let success = ToolResult::ok("done");
    assert_eq!(success.key(), "success");
    assert_eq!(success.to_string(), "{\"success\":\"done\"}");
    assert_eq!(
        success.into_value(),
        Value::singleton("success".to_string(), Value::text("done"))
    );
    assert_eq!(ToolResult::ok(1).to_string(), "{\"success\":1}");
    assert_eq!(
        ToolResult::ok(1).to_string(),
        serde_json::to_string(&to_serde(&Value::from(ToolResult::ok(1)))).unwrap()
    );
    let failure = ToolResult::error(object_schema());
    assert_eq!(failure.key(), "error");
    assert_eq!(failure.to_string(), "{\"error\":{\"type\":\"object\"}}");
    assert_eq!(
        Value::from(failure),
        Value::singleton("error".to_string(), object_schema())
    );
}

#[test]
fn requests_are_answered_or_let_go() {
    let call = Arc::new(ToolCall::new("1".to_string(), "n".to_string(), Value::Null));
    let reply = ToolCallRequest::new(call.clone(), 3).resolve("x");
    assert_eq!(reply.index, 3);
    assert!(matches!(reply.outcome, CallOutcome::Resolved(v) if v.as_str() == Some("x")));
    let reply = ToolCallRequest::new(call.clone(), 3).resolve(ToolResult::ok(true));
    assert!(matches!(
        reply.outcome,
        CallOutcome::Resolved(v) if v.get("success") == Some(&Value::Bool(true))
    ));
    let reply = ToolCallRequest::new(call, 4).dismiss();
    assert_eq!(reply.index, 4);
    assert!(matches!(reply.outcome, CallOutcome::Dropped));
}

#[test]
fn approval_is_answered_or_denied() {
    let request = || {
        ApprovalRequest::new("id".to_string(), "n".to_string(), Value::Null, Value::Bool(true))
    };
    assert_eq!(request().proposal, Value::Bool(true));
    assert!(request().respond(true).allowed);
    assert!(!request().respond(false).allowed);
    let answer = request().dismiss();
    assert!(!answer.allowed);
    assert_eq!(answer.tool_call_id, "id");
}

#[test]
fn policy_asks_always_by_default() {
    assert!(AlwaysAsk.requires_authorization("anything", &Value::Null));
}

fn make_tool() -> AgentTool {
    AgentTool::new(
        ToolDefinition {
            name: "child".to_string(),
            description: "A child agent.".to_string(),
            parameters: object_schema(),
        },
        Agent::builder()
            .name("Child")
            .instructions("Process the input.")
            .build(),
        AgentRunner::new(),
    )
}

#[test]
fn definition_returns_supplied_definition() {
    let tool = make_tool();
    let def = tool.definition();
    assert_eq!(def.name, "child");
    assert_eq!(def.description, "A child agent.");
    assert_eq!(tool.name(), "Child");
}

/// Runs the child on a thread, with `respond` for a model: what the run reported, and
/// each of the last messages that the model was asked with.
fn run_child(
    tool: &AgentTool,
    thread: MessageList,
    respond: impl Fn(&str) -> Result<ModelResponse, Error>,
) -> (Vec<RunEvent>, Vec<String>) {
    let (mut run, mut events) = tool.start(&mut RunIds::new(), thread);
    let mut asked = vec![];
    while run.waiting() != Waiting::ForNothing {
        if run.waiting() == Waiting::ForCheckpoint {
            events.extend(run.step(RunInput::Checkpoint { cancelled: false }));
            continue;
        }
        let request = run.request();
        assert_eq!(request.system, Some("Process the input.".to_string()));
        let raw = match &request.messages.last().unwrap().content {
            MessageContent::Text(t) => t.clone(),
            other => panic!("expected text content, got {other:?}"),
        };
        let response = respond(&raw);
        asked.push(raw);
        for item in stream_of(response) {
            events.extend(run.step(match item {
                Ok(chunk) => RunInput::Chunk(chunk),
                Err(error) => RunInput::ModelFailed(error),
            }));
        }
        events.extend(run.step(RunInput::StreamEnded));
    }
    (events, asked)
}

/// Applies the child to the arguments: the result, and what the model was asked with.
fn apply(
    tool: &AgentTool,
    args: &Value,
    respond: impl Fn(&str) -> Result<ModelResponse, Error>,
) -> (ToolResult, Vec<String>) {
    let thread = tool.input(args).expect("the arguments can be written out");
    let (events, asked) = run_child(tool, thread, respond);
    let mut child = ChildRun::new();
    for event in &events {
        if child.observe(&event.agent_event) {
            break;
        }
    }
    (child.finish(), asked)
}

/// Calls the child with the arguments.
fn call(
    args: &Value,
    respond: impl Fn(&str) -> Result<ModelResponse, Error>,
) -> Result<Value, Error> {
    let tool = make_tool();
    let input = tool.call_input(args)?;
    let thread = MessageList::from(vec![Message::user(input)]);
    let (events, _) = run_child(&tool, thread, respond);
    events
        .iter()
        .find_map(|event| call_outcome_in(&event.agent_event))
        .expect("the run comes to an end")
}

fn say(text: &str) -> Result<ModelResponse, Error> {
    Ok(ModelResponse {
        text: Some(text.to_string()),
        tool_calls: vec![],
        thinking: None,
        token_usage: None,
    })
}

#[test]
fn call_returns_accumulated_text_as_success() {
    let args = Value::singleton("text".to_string(), Value::text("anything"));
    let (result, _) = apply(&make_tool(), &args, |_| say("hello world"));
    let ToolResult::Success(output) = result else {
        panic!("expected Success, got {result:?}");
    };
    assert_eq!(output, Value::text("hello world"));
}

#[test]
fn call_passes_args_as_serialized_json_user_message() {
    let mut args = Object::new();
    args.insert("text".to_string(), Value::text("hello"));
    args.insert("n".to_string(), Value::Number(serde_json::Number::from(42u64)));
    let (_, asked) = apply(&make_tool(), &Value::Object(args), |_| say("ok"));

    assert_eq!(asked.len(), 1);
    let parsed: serde_json::Value = serde_json::from_str(&asked[0]).unwrap();
    assert_eq!(parsed.get("text").and_then(|v| v.as_str()), Some("hello"));
    assert_eq!(parsed.get("n").and_then(|v| v.as_u64()), Some(42));
    assert_eq!(parsed.as_object().map(|o| o.len()), Some(2));
}

#[test]
fn child_failure_is_the_result_of_the_call() {
    let (result, _) = apply(&make_tool(), &Value::Null, |_| {
        Err(Error::Provider("provider failure".to_string()))
    });
    assert_eq!(
        result,
        ToolResult::Failure(Value::text("LLM provider error: provider failure"))
    );
}

#[test]
fn only_the_first_error_of_a_child_counts() {
    let mut child = ChildRun::new();
    assert!(!child.observe(&AgentEvent::TextDelta("a".to_string())));
    assert!(child.observe(&AgentEvent::Error(Error::Agent("first".to_string()))));
    assert!(child.observe(&AgentEvent::Error(Error::Agent("second".to_string()))));
    assert!(child.observe(&AgentEvent::TextDelta("b".to_string())));
    assert_eq!(child.finish(), ToolResult::Failure(Value::text("Agent error: first")));
}

#[test]
fn input_from_makes_one_user_message() {
    let thread = input_from(Ok("{}".to_string())).unwrap();
    assert_eq!(thread.len(), 1);
    assert_eq!(*thread[0], Message::user("{}"));
    let failure = input_from(Err("bad".to_string())).unwrap_err();
    assert_eq!(failure, ToolResult::Failure(Value::text("bad")));
}

#[test]
fn call_passes_serialized_args_as_input() {
    // The model echoes the input back.
    let args = Value::singleton("text".to_string(), Value::text("hello"));
    let result = call(&args, say).unwrap();
    assert_eq!(
        result,
        Value::singleton("output".to_string(), Value::text("{\"text\":\"hello\"}"))
    );
}

#[test]
fn call_wraps_output_in_output_field() {
    let result = call(&Value::singleton("x".to_string(), 1.into_value()), say).unwrap();
    assert!(result.get("output").is_some());
}

#[test]
fn call_propagates_child_error() {
    let err = call(&Value::empty_object(), |_| {
        Err(Error::Provider("provider failure".to_string()))
    })
    .unwrap_err();
    assert!(matches!(err, Error::Provider(_)));
}

#[test]
fn call_of_a_silent_child_is_an_agent_error() {
    let err = call(&Value::Null, |_| say("")).unwrap_err();
    assert_eq!(err, Error::Agent("model returned neither text nor tool calls".to_string()));
    assert_eq!(wrap_output(Err(err.clone())).unwrap_err(), err);
}

#[test]
fn arguments_that_cannot_be_written_are_an_agent_error() {
    assert_eq!(
        call_input_from(Err("why".to_string())).unwrap_err(),
        Error::Agent("failed to serialize args: why".to_string())
    );
}
