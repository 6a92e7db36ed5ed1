use agent_rig::error::Error;
use agent_rig::json::Value;
use agent_rig::model::{
    chunks_of, stream_of, Message, MessageContent, MessageList, ModelResponse, ModelStreamChunk, Role,
    TokenUsage, ToolCall,
};
use std::sync::Arc;

#[test]
fn message_user_sets_correct_role() {
    let msg = Message::user("hello");
    assert_eq!(msg.role, Role::User);
    assert!(matches!(msg.content, MessageContent::Text(t) if t == "hello"));
}

#[test]
fn message_assistant_sets_correct_role() {
    let msg = Message::assistant("hi");
    assert_eq!(msg.role, Role::Assistant);
    assert!(matches!(msg.content, MessageContent::Text(t) if t == "hi"));
}

#[test]
fn message_list_ergonomics_and_behavior() {
    let mut list = MessageList::new();
    assert!(list.is_empty());

    // Push wraps in Arc automatically
    list.push(Message::user("hello"));
    list.push(Message::assistant("hi"));
    assert_eq!(list.len(), 2);

    // Deref interface
    assert_eq!(list[0].role, Role::User);
    assert_eq!(list[1].role, Role::Assistant);

    // Conversions
    let single_list: MessageList = vec![Message::user("one")].into();
    assert_eq!(single_list.len(), 1);

    let vec_list: MessageList = vec![Message::user("a"), Message::user("b")].into();
    assert_eq!(vec_list.len(), 2);

    // A copy holds the same messages.
    assert_eq!(list.clone(), list);
}

#[test]
fn message_list_editing() {
    let mut list = MessageList::default();
    assert!(list.pop().is_none());
    list.extend(vec![Message::user("a"), Message::user("b"), Message::user("c")]);
    list.push_arc(Arc::new(Message::assistant("d")));
    assert_eq!(list.len(), 4);
    assert_eq!(list.pop().map(|m| m.role), Some(Role::Assistant));
    list.truncate(5);
    assert_eq!(list.len(), 3);
    list.truncate(2);
    assert_eq!(list.len(), 2);
    assert!(matches!(&list[1].content, MessageContent::Text(t) if t == "b"));
    let arcs: Vec<Arc<Message>> = list.clone().into();
    assert_eq!(arcs.len(), 2);
    let again = MessageList::from(arcs);
    assert_eq!(again, list);
    let mut roles = vec![];
    for message in &again {
        roles.push(message.role);
    }
    assert_eq!(roles, vec![Role::User, Role::User]);
    assert_eq!(again.into_iter().count(), 2);
    list.extend_arcs(vec![Arc::new(Message::user("e"))]);
    assert_eq!(list.len(), 3);
    list.clear();
    assert!(list.is_empty());
}

#[test]
fn tool_messages_have_their_roles() {
    let call = Arc::new(ToolCall::new("1".to_string(), "n".to_string(), Value::Null));
    assert!(call.provider_metadata.is_none());
    let calls = Message::tool_calls(vec![call.clone()]);
    assert_eq!(calls.role, Role::Assistant);
    assert!(matches!(&calls.content, MessageContent::ToolCalls(c) if c.len() == 1));
    let result = Message::tool_result(call, Value::Bool(true));
    assert_eq!(result.role, Role::User);
    assert!(matches!(
        &result.content,
        MessageContent::ToolResult { tool_call, result } if tool_call.name == "n" && *result == Value::Bool(true)
    ));
}

fn full_response() -> ModelResponse {
    ModelResponse {
        text: Some("answer".to_string()),
        tool_calls: vec![
            ToolCall::new("1".to_string(), "a".to_string(), Value::Null),
            ToolCall::new("2".to_string(), "b".to_string(), Value::Null),
        ],
        thinking: Some("hm".to_string()),
        token_usage: Some(TokenUsage { input_tokens: Some(1), ..TokenUsage::default() }),
    }
}

#[test]
fn whole_response_streams_in_order() {
    let chunks = chunks_of(full_response());
    assert_eq!(chunks.len(), 5);
    assert!(matches!(&chunks[0], ModelStreamChunk::Thinking(t) if t == "hm"));
    assert!(matches!(&chunks[1], ModelStreamChunk::ToolCall(c) if c.name == "a"));
    assert!(matches!(&chunks[2], ModelStreamChunk::ToolCall(c) if c.name == "b"));
    assert!(matches!(&chunks[3], ModelStreamChunk::TextDelta(t) if t == "answer"));
    assert!(matches!(&chunks[4], ModelStreamChunk::Usage(u) if u.input_tokens == Some(1)));
}

#[test]
fn outcome_streams_as_chunks_or_error() {
    let items = stream_of(Ok(full_response()));
    assert_eq!(items.len(), 5);
    assert!(items.iter().all(|item| item.is_ok()));
    let items = stream_of(Err(Error::Provider("boom".to_string())));
    assert_eq!(items.len(), 1);
    assert!(matches!(&items[0], Err(Error::Provider(t)) if t == "boom"));
    let empty = ModelResponse { text: None, tool_calls: vec![], thinking: None, token_usage: None };
    assert!(stream_of(Ok(empty)).is_empty());
}

#[test]
fn errors_read_as_text() {
    assert_eq!(Error::Provider("boom".to_string()).to_string(), "LLM provider error: boom");
    assert_eq!(Error::Agent("oops".to_string()).to_string(), "Agent error: oops");
    assert_eq!(Error::Agent("oops".to_string()).clone(), Error::Agent("oops".to_string()));
}
