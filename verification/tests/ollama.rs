use agent_rig::error::Error;
use agent_rig::json::Value;
use agent_rig::model::{
    Message, MessageList, ModelRequest, ModelStreamChunk, ToolCall,
};
use agent_rig::models::ollama::request::{build_chat_request, response_from, to_ollama_tool};
use agent_rig::models::ollama::response::{
    saturating_u64_to_u32, to_token_usage, to_tool_call, ChatEvent, Collector, OllamaStream,
};
use agent_rig::models::ollama::types::{
    ChatResponse, Message as OllamaMessage, Role as OllamaRole, Stop, Think, ThinkLevel,
    ToolCall as OllamaToolCall, ToolCallFunction, ToolType,
};
use agent_rig::models::ollama::OllamaModel;
use agent_rig::tools::ToolDefinition;
use std::sync::Arc;

fn chat_response(prompt: Option<u64>, eval: Option<u64>) -> ChatResponse {
    ChatResponse {
        message: OllamaMessage {
            content: String::new(),
            role: OllamaRole::Assistant,
            thinking: None,
            tool_calls: vec![],
        },
        done: true,
        prompt_eval_count: prompt,
        eval_count: eval,
    }
}

fn empty_request() -> ModelRequest {
    ModelRequest {
        messages: MessageList::new(),
        system: None,
        output_schema: None,
        tools: vec![],
    }
}

#[test]
fn ollama_to_token_usage_maps_prompt_and_eval_counts() {
    let response = chat_response(Some(123), Some(45));
    let usage = to_token_usage(&response).expect("usage present");
    assert_eq!(usage.input_tokens, Some(123));
    assert_eq!(usage.output_tokens, Some(45));
    assert_eq!(usage.cached_input_tokens, None);
    assert_eq!(usage.thinking_tokens, None);
    assert_eq!(usage.tool_use_prompt_tokens, None);
}

#[test]
fn ollama_to_token_usage_returns_none_when_both_counts_absent() {
    let response = chat_response(None, None);
    assert!(to_token_usage(&response).is_none());
}

#[test]
fn ollama_to_token_usage_returns_some_when_only_one_count_present() {
    let response = chat_response(Some(10), None);
    let usage = to_token_usage(&response).expect("usage present");
    assert_eq!(usage.input_tokens, Some(10));
    assert_eq!(usage.output_tokens, None);
}

#[test]
fn ollama_saturating_u64_to_u32_caps_at_max() {
    assert_eq!(saturating_u64_to_u32(0), 0);
    assert_eq!(saturating_u64_to_u32(42), 42);
    assert_eq!(saturating_u64_to_u32(u32::MAX as u64), u32::MAX);
    assert_eq!(saturating_u64_to_u32(u32::MAX as u64 + 1), u32::MAX);
    assert_eq!(saturating_u64_to_u32(u64::MAX), u32::MAX);
}

#[test]
fn ollama_build_chat_request_propagates_think_config() {
    let req = build_chat_request(
        "test-model",
        None,
        Some(Think::Level(ThinkLevel::High)),
        empty_request(),
    )
    .unwrap();
    assert!(matches!(req.think, Some(Think::Level(ThinkLevel::High))));
}

#[test]
fn ollama_build_chat_request_leaves_think_none_when_unset() {
    let req = build_chat_request("test-model", None, None, empty_request()).unwrap();
    assert!(req.think.is_none());
}

#[test]
fn tests_to_token_usage_maps_prompt_and_eval_counts() {
    let response = chat_response(Some(123), Some(45));
    let usage = to_token_usage(&response).expect("usage present");
    assert_eq!(usage.input_tokens, Some(123));
    assert_eq!(usage.output_tokens, Some(45));
    assert_eq!(usage.cached_input_tokens, None);
    assert_eq!(usage.thinking_tokens, None);
    assert_eq!(usage.tool_use_prompt_tokens, None);
}

#[test]
fn tests_to_token_usage_returns_none_when_both_counts_absent() {
    let response = chat_response(None, None);
    assert!(to_token_usage(&response).is_none());
}

#[test]
fn tests_to_token_usage_returns_some_when_only_one_count_present() {
    let response = chat_response(Some(10), None);
    let usage = to_token_usage(&response).expect("usage present");
    assert_eq!(usage.input_tokens, Some(10));
    assert_eq!(usage.output_tokens, None);
}

#[test]
fn tests_saturating_u64_to_u32_caps_at_max() {
    assert_eq!(saturating_u64_to_u32(0), 0);
    assert_eq!(saturating_u64_to_u32(42), 42);
    assert_eq!(saturating_u64_to_u32(u32::MAX as u64), u32::MAX);
    assert_eq!(saturating_u64_to_u32(u32::MAX as u64 + 1), u32::MAX);
    assert_eq!(saturating_u64_to_u32(u64::MAX), u32::MAX);
}

#[test]
fn tests_build_chat_request_propagates_think_config() {
    let req = build_chat_request(
        "test-model",
        None,
        Some(Think::Level(ThinkLevel::High)),
        empty_request(),
    )
    .unwrap();
    assert!(matches!(req.think, Some(Think::Level(ThinkLevel::High))));
}

#[test]
fn tests_build_chat_request_leaves_think_none_when_unset() {
    let req = build_chat_request("test-model", None, None, empty_request()).unwrap();
    assert!(req.think.is_none());
}

#[test]
fn chat_request_writes_the_conversation() {
    let call = Arc::new(ToolCall::new("1".to_string(), "add".to_string(), Value::Bool(true)));
    let other = Arc::new(ToolCall::new("2".to_string(), "sub".to_string(), Value::Null));
    let request = ModelRequest {
        messages: MessageList::from(vec![
            Message::user("hi"),
            Message::assistant("hello"),
            Message::tool_calls(vec![call.clone(), other]),
            Message::tool_result(call, Value::singleton("sum".to_string(), Value::text("3"))),
        ]),
        system: Some("be brief".to_string()),
        output_schema: None,
        tools: vec![],
    };
    let written = build_chat_request("m", None, None, request).unwrap();
    assert_eq!(written.model, "m");
    assert_eq!(written.stream, None);
    assert_eq!(written.messages.len(), 5);
    assert_eq!(written.messages[0].role, OllamaRole::System);
    assert_eq!(written.messages[0].content, "be brief");
    assert_eq!(written.messages[1].role, OllamaRole::User);
    assert_eq!(written.messages[1].content, "hi");
    assert_eq!(written.messages[2].role, OllamaRole::Assistant);
    assert_eq!(written.messages[2].content, "hello");
    assert_eq!(written.messages[3].content, "");
    assert_eq!(written.messages[3].tool_calls.len(), 2);
    assert_eq!(written.messages[3].tool_calls[1].function.index, 1);
    assert_eq!(written.messages[3].tool_calls[1].function.name, "sub");
    assert_eq!(written.messages[3].tool_calls[0].function.arguments, Value::Bool(true));
    assert_eq!(written.messages[4].role, OllamaRole::Tool);
    assert_eq!(written.messages[4].content, "{\"sum\":\"3\"}");
}

#[test]
fn result_that_cannot_be_written_is_a_provider_error() {
    let error = response_from(Err("no text".to_string())).unwrap_err();
    assert_eq!(error, Error::Provider("no text".to_string()));
}

#[test]
fn chat_request_with_tools_does_not_stream() {
    let definition = ToolDefinition {
        name: "t".to_string(),
        description: "d".to_string(),
        parameters: Value::empty_object(),
    };
    let tool = to_ollama_tool(&definition);
    assert_eq!(tool.tool_type, ToolType::Function);
    assert_eq!(tool.function.parameters, Value::empty_object());
    let mut request = empty_request();
    request.tools = vec![definition];
    request.output_schema = Some(Value::Bool(true));
    let written = build_chat_request("m", None, None, request).unwrap();
    assert_eq!(written.stream, Some(false));
    assert_eq!(written.tools, vec![tool]);
    assert_eq!(written.format, Some(Value::Bool(true)));
}

#[test]
fn model_settings_reach_the_request() {
    let model = OllamaModel::builder("http://localhost:11434", "llama3")
        .temperature_bits(0.5f32.to_bits())
        .top_p_bits(0.25f32.to_bits())
        .seed(7)
        .top_k(3)
        .num_ctx(2048)
        .num_predict(512)
        .stop(Stop::Multiple(vec!["END".to_string()]))
        .think(Think::Bool(true))
        .build();
    assert_eq!(model.server_address(), "http://localhost:11434");
    assert_eq!(model.model(), "llama3");
    let written = model.build_request(empty_request()).unwrap();
    let options = written.options.unwrap();
    assert_eq!(options.temperature_bits, Some(0.5f32.to_bits()));
    assert_eq!(options.top_p_bits, Some(0.25f32.to_bits()));
    assert_eq!(options.seed, Some(7));
    assert_eq!(options.top_k, Some(3));
    assert_eq!(options.num_ctx, Some(2048));
    assert_eq!(options.num_predict, Some(512));
    assert_eq!(options.stop, Some(Stop::Multiple(vec!["END".to_string()])));
    assert_eq!(written.think, Some(Think::Bool(true)));
    let plain = OllamaModel::new("http://localhost:11434", "llama3");
    let written = plain.build_request(empty_request()).unwrap();
    assert_eq!(written.options, None);
    assert_eq!(written.think, None);
}

fn piece(text: &str, calls: Vec<&str>, done: bool) -> ChatResponse {
    ChatResponse {
        message: OllamaMessage {
            content: text.to_string(),
            role: OllamaRole::Assistant,
            thinking: None,
            tool_calls: calls
                .into_iter()
                .enumerate()
                .map(|(index, name)| OllamaToolCall {
                    function: ToolCallFunction {
                        name: name.to_string(),
                        arguments: Value::Null,
                        index,
                    },
                })
                .collect(),
        },
        done,
        prompt_eval_count: Some(5),
        eval_count: None,
    }
}

#[test]
fn tool_call_takes_its_name_as_identifier() {
    let call = to_tool_call(&piece("", vec!["add"], true).message.tool_calls[0]);
    assert_eq!(call.id, "add");
    assert_eq!(call.name, "add");
    assert_eq!(call.args, Value::Null);
    assert!(call.provider_metadata.is_none());
}

#[test]
fn collector_puts_the_text_together() {
    let mut collector = Collector::new();
    assert!(collector.step(ChatEvent::Response(piece("Hello ", vec![], false))).is_none());
    let outcome = collector.step(ChatEvent::Response(piece("world", vec![], true)));
    let response = outcome.expect("complete").expect("no error");
    assert_eq!(response.text.as_deref(), Some("Hello world"));
    assert!(response.tool_calls.is_empty());
    assert!(response.thinking.is_none());
    assert_eq!(response.token_usage.unwrap().input_tokens, Some(5));
    assert!(collector.step(ChatEvent::Ended).is_none());
}

#[test]
fn collector_keeps_the_last_tool_calls() {
    let mut collector = Collector::new();
    collector.step(ChatEvent::Response(piece("x", vec!["a"], false)));
    collector.step(ChatEvent::Response(piece("y", vec!["b", "c"], false)));
    let outcome = collector.step(ChatEvent::Response(piece("z", vec![], true)));
    let response = outcome.expect("complete").expect("no error");
    assert_eq!(response.text, None);
    assert_eq!(response.tool_calls.len(), 2);
    assert_eq!(response.tool_calls[0].name, "b");
}

#[test]
fn collector_ends_with_the_connection() {
    let mut collector = Collector::new();
    let response = collector.step(ChatEvent::Ended).expect("complete").expect("no error");
    assert_eq!(response.text.as_deref(), Some(""));
    assert!(response.token_usage.is_none());
}

#[test]
fn collector_reports_a_broken_connection() {
    let mut collector = Collector::new();
    collector.step(ChatEvent::Response(piece("x", vec![], false)));
    let outcome = collector.step(ChatEvent::Failed("reset".to_string())).expect("complete");
    assert_eq!(outcome.unwrap_err(), Error::Provider("reset".to_string()));
}

#[test]
fn stream_yields_calls_text_and_usage() {
    let mut stream = OllamaStream::new();
    let items = stream.step(ChatEvent::Response(piece("", vec![], false)));
    assert!(items.is_empty());
    let items = stream.step(ChatEvent::Response(piece("hi", vec!["a"], true)));
    assert_eq!(items.len(), 3);
    assert!(matches!(&items[0], Ok(ModelStreamChunk::ToolCall(c)) if c.name == "a"));
    assert!(matches!(&items[1], Ok(ModelStreamChunk::TextDelta(t)) if t == "hi"));
    assert!(matches!(&items[2], Ok(ModelStreamChunk::Usage(u)) if u.input_tokens == Some(5)));
    assert!(stream.step(ChatEvent::Response(piece("late", vec![], false))).is_empty());
}

#[test]
fn stream_yields_an_error_once() {
    let mut stream = OllamaStream::new();
    let items = stream.step(ChatEvent::Failed("reset".to_string()));
    assert_eq!(items.len(), 1);
    assert!(matches!(&items[0], Err(Error::Provider(t)) if t == "reset"));
    assert!(stream.step(ChatEvent::Ended).is_empty());
}
