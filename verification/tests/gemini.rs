use agent_rig::json::{Object, Value};
use agent_rig::model::{
    Message, MessageList, ModelRequest, ModelStreamChunk, TokenUsage, ToolCall,
};
use agent_rig::error::Error;
use agent_rig::models::gemini::request::ensure_object_response;
use agent_rig::models::gemini::response::{
    extract_text_and_thinking, read_outcome, read_response, stream_chunks_from_candidate,
    GeminiStream, StreamEvent,
};
use agent_rig::models::gemini::schema::{normalise_for_gemini, resolve_refs, try_normalise};
use agent_rig::models::gemini::types::{
    Candidate, Content, GenerateContentResponse, Part, PartData, Role, ThinkingConfig, ThinkingLevel,
    UsageMetadata,
};
use agent_rig::models::gemini::GeminiModel;
use agent_rig::tools::ToolDefinition;
use std::sync::Arc;

fn make_candidate(parts: Vec<Part>) -> Candidate {
    Candidate {
        content: Some(Content {
            role: Some(Role::Model),
            parts: Some(parts),
        }),
    }
}

fn text_part(text: &str) -> Part {
    Part {
        data: PartData::Text(text.to_string()),
        thought: None,
        thought_signature: None,
    }
}

fn thought_part(text: &str) -> Part {
    Part {
        data: PartData::Text(text.to_string()),
        thought: Some(true),
        thought_signature: None,
    }
}

fn function_call_part(id: &str, name: &str, args: Value) -> Part {
    Part {
        data: PartData::FunctionCall {
            id: Some(id.to_string()),
            name: name.to_string(),
            args: Some(args),
        },
        thought: None,
        thought_signature: None,
    }
}

fn object(entries: Vec<(&str, Value)>) -> Value {
    let mut object = Object::new();
    for (key, value) in entries {
        object.insert(key.to_string(), value);
    }
    Value::Object(object)
}

#[test]
fn gemini_extract_separates_thought_and_text_parts() {
    let candidate = make_candidate(vec![thought_part("hmm..."), text_part("The answer is 42.")]);
    let (thinking, text) = extract_text_and_thinking(&candidate);
    assert_eq!(thinking.as_deref(), Some("hmm..."));
    assert_eq!(text.as_deref(), Some("The answer is 42."));
}

#[test]
fn gemini_extract_concatenates_multiple_parts() {
    let candidate = make_candidate(vec![
        thought_part("step 1 "),
        thought_part("step 2"),
        text_part("part a "),
        text_part("part b"),
    ]);
    let (thinking, text) = extract_text_and_thinking(&candidate);
    assert_eq!(thinking.as_deref(), Some("step 1 step 2"));
    assert_eq!(text.as_deref(), Some("part a part b"));
}

#[test]
fn gemini_extract_returns_none_when_no_thinking() {
    let candidate = make_candidate(vec![text_part("hello")]);
    let (thinking, text) = extract_text_and_thinking(&candidate);
    assert!(thinking.is_none());
    assert_eq!(text.as_deref(), Some("hello"));
}

#[test]
fn gemini_token_usage_from_usage_metadata_maps_all_fields() {
    let meta = UsageMetadata {
        prompt_token_count: Some(123),
        candidates_token_count: Some(45),
        cached_content_token_count: Some(60),
        thoughts_token_count: Some(15),
        tool_use_prompt_token_count: Some(7),
        total_token_count: Some(190),
    };
    let usage = TokenUsage::from(&meta);
    assert_eq!(usage.input_tokens, Some(123));
    assert_eq!(usage.output_tokens, Some(45));
    assert_eq!(usage.cached_input_tokens, Some(60));
    assert_eq!(usage.thinking_tokens, Some(15));
    assert_eq!(usage.tool_use_prompt_tokens, Some(7));
}

#[test]
fn gemini_token_usage_from_usage_metadata_passes_through_none() {
    let meta = UsageMetadata::default();
    let usage = TokenUsage::from(&meta);
    assert_eq!(usage.input_tokens, None);
    assert_eq!(usage.output_tokens, None);
    assert_eq!(usage.cached_input_tokens, None);
    assert_eq!(usage.thinking_tokens, None);
    assert_eq!(usage.tool_use_prompt_tokens, None);
}

#[test]
fn gemini_extract_returns_none_for_empty_content() {
    let candidate = Candidate { content: None };
    let (thinking, text) = extract_text_and_thinking(&candidate);
    assert!(thinking.is_none());
    assert!(text.is_none());
}

#[test]
fn tests_extract_separates_thought_and_text_parts() {
    let candidate = make_candidate(vec![thought_part("hmm..."), text_part("The answer is 42.")]);
    let (thinking, text) = extract_text_and_thinking(&candidate);
    assert_eq!(thinking.as_deref(), Some("hmm..."));
    assert_eq!(text.as_deref(), Some("The answer is 42."));
}

#[test]
fn tests_extract_concatenates_multiple_parts() {
    let candidate = make_candidate(vec![
        thought_part("step 1 "),
        thought_part("step 2"),
        text_part("part a "),
        text_part("part b"),
    ]);
    let (thinking, text) = extract_text_and_thinking(&candidate);
    assert_eq!(thinking.as_deref(), Some("step 1 step 2"));
    assert_eq!(text.as_deref(), Some("part a part b"));
}

#[test]
fn tests_extract_returns_none_when_no_thinking() {
    let candidate = make_candidate(vec![text_part("hello")]);
    let (thinking, text) = extract_text_and_thinking(&candidate);
    assert!(thinking.is_none());
    assert_eq!(text.as_deref(), Some("hello"));
}

#[test]
fn tests_token_usage_from_usage_metadata_maps_all_fields() {
    let meta = UsageMetadata {
        prompt_token_count: Some(123),
        candidates_token_count: Some(45),
        cached_content_token_count: Some(60),
        thoughts_token_count: Some(15),
        tool_use_prompt_token_count: Some(7),
        total_token_count: Some(190),
    };
    let usage = TokenUsage::from(&meta);
    assert_eq!(usage.input_tokens, Some(123));
    assert_eq!(usage.output_tokens, Some(45));
    assert_eq!(usage.cached_input_tokens, Some(60));
    assert_eq!(usage.thinking_tokens, Some(15));
    assert_eq!(usage.tool_use_prompt_tokens, Some(7));
}

#[test]
fn tests_token_usage_from_usage_metadata_passes_through_none() {
    let meta = UsageMetadata::default();
    let usage = TokenUsage::from(&meta);
    assert_eq!(usage.input_tokens, None);
    assert_eq!(usage.output_tokens, None);
    assert_eq!(usage.cached_input_tokens, None);
    assert_eq!(usage.thinking_tokens, None);
    assert_eq!(usage.tool_use_prompt_tokens, None);
}

#[test]
fn tests_extract_returns_none_for_empty_content() {
    let candidate = Candidate { content: None };
    let (thinking, text) = extract_text_and_thinking(&candidate);
    assert!(thinking.is_none());
    assert!(text.is_none());
}

#[test]
fn stream_chunks_emits_thinking_then_text_in_part_order() {
    let candidate = make_candidate(vec![
        thought_part("reasoning..."),
        text_part("answer"),
    ]);
    let chunks = stream_chunks_from_candidate(&candidate);
    assert_eq!(chunks.len(), 2);
    assert!(matches!(&chunks[0], ModelStreamChunk::Thinking(t) if t == "reasoning..."));
    assert!(matches!(&chunks[1], ModelStreamChunk::TextDelta(t) if t == "answer"));
}

#[test]
fn stream_chunks_emits_one_chunk_per_part() {
    let candidate = make_candidate(vec![
        text_part("hello "),
        text_part("world"),
    ]);
    let chunks = stream_chunks_from_candidate(&candidate);
    assert_eq!(chunks.len(), 2);
    assert!(matches!(&chunks[0], ModelStreamChunk::TextDelta(t) if t == "hello "));
    assert!(matches!(&chunks[1], ModelStreamChunk::TextDelta(t) if t == "world"));
}

#[test]
fn stream_chunks_skips_empty_text_parts() {
    let candidate = make_candidate(vec![text_part(""), text_part("hi")]);
    let chunks = stream_chunks_from_candidate(&candidate);
    assert_eq!(chunks.len(), 1);
    assert!(matches!(&chunks[0], ModelStreamChunk::TextDelta(t) if t == "hi"));
}

#[test]
fn stream_chunks_emits_function_calls() {
    let candidate = make_candidate(vec![function_call_part(
        "call-1",
        "lookup",
        object(vec![("q", Value::text("rust"))]),
    )]);
    let chunks = stream_chunks_from_candidate(&candidate);
    assert_eq!(chunks.len(), 1);
    match &chunks[0] {
        ModelStreamChunk::ToolCall(tc) => {
            assert_eq!(tc.id, "call-1");
            assert_eq!(tc.name, "lookup");
            assert_eq!(tc.args, object(vec![("q", Value::text("rust"))]));
            assert!(tc.provider_metadata.is_none());
        }
        other => panic!("expected ToolCall, got {other:?}"),
    }
}

#[test]
fn stream_chunks_preserves_thought_signature_on_tool_calls() {
    let mut part = function_call_part("call-1", "lookup", object(vec![]));
    part.thought_signature = Some("sig-abc".to_string());
    let candidate = make_candidate(vec![part]);
    let chunks = stream_chunks_from_candidate(&candidate);
    match &chunks[0] {
        ModelStreamChunk::ToolCall(tc) => {
            let meta = tc.provider_metadata.as_ref().expect("provider_metadata");
            assert_eq!(meta.get("thought_signature").and_then(Value::as_str), Some("sig-abc"));
        }
        other => panic!("expected ToolCall, got {other:?}"),
    }
}

#[test]
fn stream_chunks_returns_empty_for_candidate_without_content() {
    let candidate = Candidate { content: None };
    assert!(stream_chunks_from_candidate(&candidate).is_empty());
}

#[test]
fn stream_chunks_interleaves_thinking_text_and_tool_calls() {
    let candidate = make_candidate(vec![
        thought_part("planning"),
        text_part("Calling tool now"),
        function_call_part("c1", "fetch", object(vec![("url", Value::text("x"))])),
    ]);
    let chunks = stream_chunks_from_candidate(&candidate);
    assert_eq!(chunks.len(), 3);
    assert!(matches!(&chunks[0], ModelStreamChunk::Thinking(_)));
    assert!(matches!(&chunks[1], ModelStreamChunk::TextDelta(_)));
    assert!(matches!(&chunks[2], ModelStreamChunk::ToolCall(_)));
}

#[test]
fn stream_chunks_puts_texts_before_tool_calls() {
    let candidate = make_candidate(vec![
        function_call_part("c1", "fetch", Value::Null),
        Part { data: PartData::Other, thought: None, thought_signature: None },
        text_part("after"),
    ]);
    let chunks = stream_chunks_from_candidate(&candidate);
    assert_eq!(chunks.len(), 2);
    assert!(matches!(&chunks[0], ModelStreamChunk::TextDelta(t) if t == "after"));
    assert!(matches!(&chunks[1], ModelStreamChunk::ToolCall(c) if c.id == "c1"));
}

#[test]
fn response_without_candidates_is_an_error() {
    let response = GenerateContentResponse { candidates: vec![], usage_metadata: None };
    assert_eq!(
        read_response(&response).unwrap_err(),
        Error::Provider("empty candidates in Gemini response".to_string())
    );
}

#[test]
fn failed_call_is_a_provider_error() {
    assert_eq!(
        read_outcome(Err("503".to_string())).unwrap_err(),
        Error::Provider("503".to_string())
    );
}

#[test]
fn response_with_tool_calls_has_no_text() {
    let mut call = function_call_part("c1", "fetch", object(vec![]));
    call.thought_signature = Some("sig".to_string());
    let bare = Part {
        data: PartData::FunctionCall { id: None, name: "bare".to_string(), args: None },
        thought: None,
        thought_signature: None,
    };
    let response = GenerateContentResponse {
        candidates: vec![make_candidate(vec![thought_part("hm"), text_part("text"), call, bare])],
        usage_metadata: Some(UsageMetadata { prompt_token_count: Some(3), ..UsageMetadata::default() }),
    };
    let read = read_outcome(Ok(response)).unwrap();
    assert_eq!(read.text, None);
    assert_eq!(read.thinking.as_deref(), Some("hm"));
    assert_eq!(read.tool_calls.len(), 2);
    assert_eq!(read.tool_calls[0].id, "c1");
    assert_eq!(read.tool_calls[1].id, "");
    assert_eq!(read.tool_calls[1].args, Value::Null);
    assert_eq!(read.token_usage.unwrap().input_tokens, Some(3));
}

#[test]
fn response_with_text_only() {
    let response = GenerateContentResponse {
        candidates: vec![make_candidate(vec![text_part("a"), text_part("b")])],
        usage_metadata: None,
    };
    let read = read_response(&response).unwrap();
    assert_eq!(read.text.as_deref(), Some("ab"));
    assert!(read.thinking.is_none());
    assert!(read.tool_calls.is_empty());
    assert!(read.token_usage.is_none());
}

fn streamed(text: &str, count: Option<u32>) -> StreamEvent {
    StreamEvent::Response(GenerateContentResponse {
        candidates: vec![make_candidate(vec![text_part(text)])],
        usage_metadata: count.map(|n| UsageMetadata {
            prompt_token_count: Some(n),
            ..UsageMetadata::default()
        }),
    })
}

#[test]
fn stream_reports_the_latest_usage_once_at_the_end() {
    let mut stream = GeminiStream::new();
    let mut items = stream.step(streamed("a", Some(1)));
    items.extend(stream.step(streamed("b", Some(2))));
    items.extend(stream.step(streamed("c", None)));
    items.extend(stream.step(StreamEvent::Ended));
    items.extend(stream.step(streamed("late", Some(9))));
    items.extend(stream.step(StreamEvent::Ended));
    assert_eq!(items.len(), 4);
    assert!(matches!(&items[0], Ok(ModelStreamChunk::TextDelta(t)) if t == "a"));
    assert!(matches!(&items[2], Ok(ModelStreamChunk::TextDelta(t)) if t == "c"));
    assert!(matches!(&items[3], Ok(ModelStreamChunk::Usage(u)) if u.input_tokens == Some(2)));
}

#[test]
fn stream_without_usage_ends_silently() {
    let mut stream = GeminiStream::new();
    assert_eq!(stream.step(streamed("a", None)).len(), 1);
    assert!(stream.step(StreamEvent::Ended).is_empty());
}

#[test]
fn broken_stream_reports_the_error_and_nothing_more() {
    let mut stream = GeminiStream::new();
    stream.step(streamed("a", Some(1)));
    let items = stream.step(StreamEvent::Failed("reset".to_string()));
    assert_eq!(items.len(), 1);
    assert!(matches!(&items[0], Err(Error::Provider(t)) if t == "reset"));
    assert!(stream.step(StreamEvent::Ended).is_empty());
}

#[test]
fn event_without_candidates_yields_nothing() {
    let mut stream = GeminiStream::new();
    let event = GenerateContentResponse { candidates: vec![], usage_metadata: None };
    assert!(stream.step(StreamEvent::Response(event)).is_empty());
}

#[test]
fn tool_results_become_objects() {
    let object_result = object(vec![("sum", Value::Bool(true))]);
    assert_eq!(ensure_object_response(object_result.clone()), object_result);
    assert_eq!(
        ensure_object_response(Value::text("Cancelled")),
        object(vec![("output", Value::text("Cancelled"))])
    );
    assert_eq!(
        ensure_object_response(Value::Null),
        object(vec![("output", Value::Null)])
    );
}

fn request(messages: Vec<Message>) -> ModelRequest {
    ModelRequest {
        messages: MessageList::from(messages),
        system: None,
        output_schema: None,
        tools: vec![],
    }
}

#[test]
fn request_maps_roles_and_texts() {
    let model = GeminiModel::new("KEY", "gemini");
    assert_eq!(model.api_key(), "KEY");
    assert_eq!(model.model(), "gemini");
    let written = model.build_gemini_request(request(vec![
        Message::user("hello"),
        Message::assistant("hi"),
    ]));
    assert_eq!(written.contents.len(), 2);
    assert_eq!(written.contents[0].role, Some(Role::User));
    assert_eq!(written.contents[0].parts, Some(vec![text_part("hello")]));
    assert_eq!(written.contents[1].role, Some(Role::Model));
    assert!(written.system_instruction.is_none());
    assert!(written.tools.is_none());
    assert!(written.generation_config.is_none());
}

#[test]
fn request_plays_back_calls_and_results_with_their_signature() {
    let mut part = function_call_part("c1", "fetch", object(vec![("u", Value::text("x"))]));
    part.thought_signature = Some("sig".to_string());
    let response = GenerateContentResponse {
        candidates: vec![make_candidate(vec![part])],
        usage_metadata: None,
    };
    let call = Arc::new(read_response(&response).unwrap().tool_calls.remove(0));
    let written = GeminiModel::new("KEY", "gemini").build_gemini_request(request(vec![
        Message::tool_calls(vec![call.clone()]),
        Message::tool_result(call, Value::text("page")),
    ]));
    let played = &written.contents[0].parts.as_ref().unwrap()[0];
    assert_eq!(written.contents[0].role, Some(Role::Model));
    assert_eq!(played.thought_signature.as_deref(), Some("sig"));
    assert!(matches!(
        &played.data,
        PartData::FunctionCall { id, name, args }
            if id.as_deref() == Some("c1") && name == "fetch"
                && *args == Some(object(vec![("u", Value::text("x"))]))
    ));
    let answered = &written.contents[1].parts.as_ref().unwrap()[0];
    assert_eq!(written.contents[1].role, Some(Role::User));
    assert_eq!(answered.thought_signature.as_deref(), Some("sig"));
    assert!(matches!(
        &answered.data,
        PartData::FunctionResponse(r)
            if r.id.as_deref() == Some("c1") && r.name == "fetch"
                && r.response == object(vec![("output", Value::text("page"))])
    ));
}

#[test]
fn request_without_metadata_has_no_signature() {
    let mut call = ToolCall::new("1".to_string(), "n".to_string(), Value::Null);
    call.provider_metadata = Some(Value::text("thought_signature"));
    let written = GeminiModel::new("KEY", "gemini")
        .build_gemini_request(request(vec![Message::tool_calls(vec![Arc::new(call)])]));
    assert_eq!(written.contents[0].parts.as_ref().unwrap()[0].thought_signature, None);
}

#[test]
fn request_offers_tools_and_instructions() {
    let mut wanted = request(vec![]);
    wanted.system = Some("be brief".to_string());
    wanted.tools = vec![ToolDefinition {
        name: "t".to_string(),
        description: "d".to_string(),
        parameters: object(vec![("type", Value::text("object"))]),
    }];
    let written = GeminiModel::new("KEY", "gemini").build_gemini_request(wanted);
    let system = written.system_instruction.unwrap();
    assert_eq!(system.role, None);
    assert_eq!(system.parts, Some(vec![text_part("be brief")]));
    let tools = written.tools.unwrap();
    assert_eq!(tools.len(), 1);
    let declarations = tools[0].function_declarations.as_ref().unwrap();
    assert_eq!(declarations[0].name, "t");
    assert_eq!(declarations[0].description, "d");
    assert_eq!(declarations[0].parameters, None);
    assert_eq!(
        declarations[0].parameters_json_schema,
        Some(object(vec![("type", Value::text("object"))]))
    );
}

#[test]
fn request_schema_replaces_settings_but_keeps_thinking() {
    let thinking = ThinkingConfig {
        include_thoughts: true,
        thinking_level: Some(ThinkingLevel::High),
        thinking_budget: None,
    };
    let model = GeminiModel::builder("KEY", "gemini")
        .temperature_bits(0.5f32.to_bits())
        .top_p_bits(0.25f32.to_bits())
        .top_k(3)
        .max_output_tokens(10)
        .stop_sequences(vec!["END".to_string()])
        .thinking_config(thinking)
        .build();
    let plain = model.build_gemini_request(request(vec![])).generation_config.unwrap();
    assert_eq!(plain.temperature_bits, Some(0.5f32.to_bits()));
    assert_eq!(plain.top_p_bits, Some(0.25f32.to_bits()));
    assert_eq!(plain.top_k, Some(3));
    assert_eq!(plain.max_output_tokens, Some(10));
    assert_eq!(plain.stop_sequences, Some(vec!["END".to_string()]));
    assert_eq!(plain.thinking_config, Some(thinking));
    assert_eq!(plain.response_mime_type, None);

    let mut wanted = request(vec![]);
    wanted.output_schema = Some(object(vec![
        ("$schema", Value::text("draft")),
        ("type", Value::text("object")),
    ]));
    let config = model.build_gemini_request(wanted).generation_config.unwrap();
    assert_eq!(config.response_mime_type.as_deref(), Some("application/json"));
    assert_eq!(config.response_schema, Some(object(vec![("type", Value::text("object"))])));
    assert_eq!(config.thinking_config, Some(thinking));
    assert_eq!(config.temperature_bits, None);
    assert_eq!(config.max_output_tokens, None);
}

#[test]
fn schema_is_made_self_contained() {
    let person = object(vec![
        ("title", Value::text("Person")),
        ("type", Value::text("object")),
        ("properties", object(vec![
            ("title", object(vec![("type", Value::text("string"))])),
            ("home", object(vec![("$ref", Value::text("#/definitions/Place"))])),
        ])),
    ]);
    let place = object(vec![("$schema", Value::text("draft")), ("type", Value::text("string"))]);
    let root = object(vec![
        ("$schema", Value::text("draft")),
        ("title", Value::text("Root")),
        ("definitions", object(vec![("Person", person), ("Place", place)])),
        ("anyOf", Value::Array(vec![
            object(vec![("$ref", Value::text("#/$defs/Person"))]),
            object(vec![("$ref", Value::text("#/definitions/Nobody"))]),
            Value::Bool(true),
        ])),
    ]);
    let expected = object(vec![("anyOf", Value::Array(vec![
        object(vec![
            ("type", Value::text("object")),
            ("properties", object(vec![
                ("title", object(vec![("type", Value::text("string"))])),
                ("home", object(vec![("type", Value::text("string"))])),
            ])),
        ]),
        object(vec![("$ref", Value::text("#/definitions/Nobody"))]),
        Value::Bool(true),
    ]))]);
    let normalised = normalise_for_gemini(root);
    assert_eq!(normalised, expected);
    assert_eq!(normalise_for_gemini(normalised), expected);
}

#[test]
fn schema_definitions_go_at_every_depth() {
    let table = || object(vec![("A", object(vec![("type", Value::text("null"))]))]);
    let inner = || {
        object(vec![
            ("definitions", table()),
            ("$defs", table()),
            ("items", object(vec![("$ref", Value::text("#/definitions/B"))])),
        ])
    };
    let root = object(vec![
        ("definitions", object(vec![("B", inner())])),
        ("anyOf", Value::Array(vec![object(vec![("$defs", table())])])),
        ("properties", object(vec![
            ("definitions", object(vec![("$defs", table()), ("type", Value::text("array"))])),
        ])),
        ("default", object(vec![("definitions", Value::text("kept"))])),
    ]);
    let expected = object(vec![
        ("anyOf", Value::Array(vec![object(vec![])])),
        ("properties", object(vec![
            ("definitions", object(vec![("type", Value::text("array"))])),
        ])),
        ("default", object(vec![("definitions", Value::text("kept"))])),
    ]);
    assert_eq!(normalise_for_gemini(root), expected);

    // What is dropped is not followed: a circle there does not matter.
    let root = object(vec![
        ("$defs", object(vec![("C", object(vec![
            ("definitions", object(vec![("x", object(vec![("$ref", Value::text("#/$defs/C"))]))])),
            ("type", Value::text("null")),
        ]))])),
        ("$ref", Value::text("#/$defs/C")),
    ]);
    assert_eq!(normalise_for_gemini(root), object(vec![("type", Value::text("null"))]));
}

#[test]
fn schema_reference_in_data_is_replaced() {
    let shown = object(vec![("title", Value::text("T"))]);
    let root = object(vec![
        ("$defs", object(vec![("A", shown.clone())])),
        ("default", object(vec![("$ref", Value::text("#/$defs/A"))])),
    ]);
    assert_eq!(normalise_for_gemini(root), object(vec![("default", shown)]));
}

#[test]
fn schema_titles_in_data_and_names_of_properties_stay() {
    let titled = || object(vec![("title", Value::text("Mr"))]);
    let data = object(vec![
        ("default", titled()),
        ("const", titled()),
        ("enum", Value::Array(vec![titled(), object(vec![("default", titled())])])),
        ("examples", Value::Array(vec![titled()])),
    ]);
    assert_eq!(normalise_for_gemini(data.clone()), data);

    let named = |schema: Value| {
        object(vec![
            ("properties", object(vec![
                ("title", schema.clone()),
                ("default", schema.clone()),
                ("enum", schema),
            ])),
        ])
    };
    let schema = object(vec![("title", Value::text("T")), ("type", Value::text("string"))]);
    let plain = object(vec![("type", Value::text("string"))]);
    assert_eq!(normalise_for_gemini(named(schema)), named(plain));
}

#[test]
fn schema_definitions_under_defs_are_found() {
    let root = object(vec![
        ("$defs", object(vec![("A", object(vec![("type", Value::text("null"))]))])),
        ("$ref", Value::text("#/$defs/A")),
    ]);
    assert_eq!(normalise_for_gemini(root), object(vec![("type", Value::text("null"))]));
}

#[test]
fn schema_that_refers_to_itself_is_recognised() {
    let root = object(vec![
        ("$defs", object(vec![
            ("A", object(vec![("items", object(vec![("$ref", Value::text("#/$defs/B"))]))])),
            ("B", object(vec![("items", object(vec![("$ref", Value::text("#/$defs/A"))]))])),
        ])),
        ("$ref", Value::text("#/$defs/A")),
    ]);
    assert!(try_normalise(root.clone()).is_none());
    let mut wanted = request(vec![]);
    wanted.output_schema = Some(root);
    assert!(GeminiModel::new("KEY", "gemini").try_build_gemini_request(wanted).is_none());
}

#[test]
fn schema_chain_as_long_as_the_definitions_is_followed() {
    let root = object(vec![
        ("$defs", object(vec![
            ("A", object(vec![("items", object(vec![("$ref", Value::text("#/$defs/B"))]))])),
            ("B", object(vec![("items", object(vec![("$ref", Value::text("#/$defs/C"))]))])),
            ("C", object(vec![("type", Value::text("null"))])),
        ])),
        ("$ref", Value::text("#/$defs/A")),
    ]);
    assert_eq!(
        normalise_for_gemini(root),
        object(vec![("items", object(vec![("items", object(vec![("type", Value::text("null"))]))]))])
    );
}

#[test]
fn resolve_refs_leaves_other_values_alone() {
    let mut value = Value::Array(vec![Value::text("#/definitions/A"), Value::Null]);
    let before = value.clone();
    resolve_refs(&mut value, &object(vec![("A", Value::Bool(true))]));
    assert_eq!(value, before);
    let mut value = object(vec![("$ref", Value::text("#/definitions/A"))]);
    resolve_refs(&mut value, &Value::Null);
    assert_eq!(value, object(vec![("$ref", Value::text("#/definitions/A"))]));
    resolve_refs(&mut value, &object(vec![("A", Value::Bool(true))]));
    assert_eq!(value, Value::Bool(true));
}
