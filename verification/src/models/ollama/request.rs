//! Writing Ollama requests.
use crate::error::{Error, ErrorView};
use crate::json::Value;
use crate::model::{
    Message, MessageContent, MessageContentView, MessageView, ModelRequest, ModelRequestView, Role,
    ToolCall, ToolCallView,
};
use crate::models::ollama::types::{
    plain_message, ChatRequest, ChatRequestView, Function, Message as OllamaMessage,
    MessageView as OllamaMessageView, Options, OptionsView, Role as OllamaRole, Think,
    Tool as OllamaTool, ToolCall as OllamaToolCall, ToolCallFunction,
    ToolCallView as OllamaToolCallView, ToolType, ToolView as OllamaToolView,
};
use crate::render::{is_rendering, render};
use crate::tools::{ToolDefinition, ToolDefinitionView};
use crate::views::{option_view, result_view, seq_view};
use std::sync::Arc;
use vstd::prelude::*;

verus! {

/// Whose turn a text is, in Ollama's terms.
pub open spec fn ollama_role(role: Role) -> OllamaRole {
    match role {
        Role::User => OllamaRole::User,
        Role::Assistant => OllamaRole::Assistant,
    }
}

/// A tool call, as it is played back to the model.
pub open spec fn played_call(call: ToolCallView, index: int) -> OllamaToolCallView {
    OllamaToolCallView { name: call.name, arguments: call.args, index }
}

/// The message for the tool calls of one turn, each with its place.
pub open spec fn calls_message(calls: Seq<ToolCallView>) -> OllamaMessageView {
    OllamaMessageView {
        content: Seq::empty(),
        role: OllamaRole::Assistant,
        thinking: None,
        tool_calls: Seq::new(calls.len(), |i: int| played_call(calls[i], i)),
    }
}

/// The message for a tool result that was written out, or the error where it was
/// not.
pub open spec fn response_message(rendered: Result<Seq<char>, Seq<char>>) -> Result<
    OllamaMessageView,
    ErrorView,
> {
    match rendered {
        Ok(text) => Ok(plain_message(OllamaRole::Tool, text)),
        Err(reason) => Err(ErrorView::Provider(reason)),
    }
}

/// `outcome` is what comes of writing `message`. Only a tool result can fail to be
/// written.
pub open spec fn writes_message(
    message: MessageView,
    outcome: Result<OllamaMessageView, ErrorView>,
) -> bool {
    match message.content {
        MessageContentView::Text(text) => outcome == Ok::<OllamaMessageView, ErrorView>(
            plain_message(ollama_role(message.role), text),
        ),
        MessageContentView::ToolCalls(calls) => outcome == Ok::<OllamaMessageView, ErrorView>(
            calls_message(calls),
        ),
        MessageContentView::ToolResult { tool_call, result } => exists|
            rendered: Result<Seq<char>, Seq<char>>,
        | #[trigger]
            is_rendering(result, rendered) && outcome == response_message(rendered),
    }
}

/// A tool as it is offered to the model.
pub open spec fn offered_tool(definition: ToolDefinitionView) -> OllamaToolView {
    OllamaToolView {
        tool_type: ToolType::Function,
        name: definition.name,
        description: definition.description,
        parameters: definition.parameters,
    }
}

/// The message for the system instructions, where there are any.
pub open spec fn system_messages(system: Option<Seq<char>>) -> Seq<OllamaMessageView> {
    match system {
        Some(text) => seq![plain_message(OllamaRole::System, text)],
        None => Seq::empty(),
    }
}

/// The chat request around messages that are written already. Streaming is off
/// where tools are offered: Ollama requires it.
pub open spec fn chat_request(
    model: Seq<char>,
    options: Option<OptionsView>,
    think: Option<Think>,
    request: ModelRequestView,
    messages: Seq<OllamaMessageView>,
) -> ChatRequestView {
    ChatRequestView {
        model,
        messages: system_messages(request.system) + messages,
        options,
        think,
        tools: Seq::new(request.tools.len(), |i: int| offered_tool(request.tools[i])),
        stream: if request.tools.len() == 0 {
            None
        } else {
            Some(false)
        },
        format: request.output_schema,
    }
}

/// `written` is `messages`, message by message.
pub open spec fn writes_all(messages: Seq<MessageView>, written: Seq<OllamaMessageView>) -> bool {
    &&& written.len() == messages.len()
    &&& forall|i: int|
        0 <= i < messages.len() ==> writes_message(#[trigger] messages[i], Ok(written[i]))
}

/// `error` is why one of `messages` could not be written, those before it having
/// been.
pub open spec fn fails_on_one(messages: Seq<MessageView>, error: ErrorView) -> bool {
    exists|i: int, written: Seq<OllamaMessageView>|
        0 <= i < messages.len() && #[trigger] writes_all(messages.take(i), written)
            && writes_message(#[trigger] messages[i], Err(error))
}

/// Makes the message for a tool result that was written out.
pub fn response_from(rendered: Result<String, String>) -> (res: Result<OllamaMessage, Error>)
    ensures
        result_view(res) == response_message(result_view(rendered)),
{
    match rendered {
        Ok(text) => Ok(OllamaMessage::plain(OllamaRole::Tool, text)),
        Err(reason) => Err(Error::Provider(reason)),
    }
}

/// Writes out a tool result as compact JSON and makes the message for it.
pub fn tool_response(result: &Value) -> (res: Result<OllamaMessage, Error>)
    ensures
        exists|rendered: Result<Seq<char>, Seq<char>>| #[trigger]
            is_rendering(result@, rendered) && result_view(res) == response_message(rendered),
{
    response_from(render(result))
}

/// Offers a tool to the model.
pub fn to_ollama_tool(definition: &ToolDefinition) -> (res: OllamaTool)
    ensures
        res@ == offered_tool(definition@),
{
    OllamaTool {
        tool_type: ToolType::Function,
        function: Function {
            name: definition.name.clone(),
            description: definition.description.clone(),
            parameters: definition.parameters.clone(),
        },
    }
}

/// Writes one message.
fn write_message(message: &Message) -> (res: Result<OllamaMessage, Error>)
    ensures
        writes_message(message@, result_view(res)),
{
    match &message.content {
        MessageContent::Text(text) => {
            let role = match message.role {
                Role::User => OllamaRole::User,
                Role::Assistant => OllamaRole::Assistant,
            };
            Ok(OllamaMessage::plain(role, text.clone()))
        },
        MessageContent::ToolCalls(calls) => {
            let mut tool_calls: Vec<OllamaToolCall> = Vec::new();
            let mut i: usize = 0;
            while i < calls.len()
                invariant
                    i <= calls@.len(),
                    tool_calls@.len() == i,
                    forall|j: int|
                        0 <= j < i ==> (#[trigger] tool_calls@[j])@ == played_call(calls@[j]@, j),
                decreases calls@.len() - i,
            {
                let call: &ToolCall = &calls[i];
                tool_calls.push(
                    OllamaToolCall {
                        function: ToolCallFunction {
                            name: call.name.clone(),
                            arguments: call.args.clone(),
                            index: i,
                        },
                    },
                );
                i = i + 1;
            }
            let written = OllamaMessage {
                content: String::new(),
                role: OllamaRole::Assistant,
                thinking: None,
                tool_calls,
            };
            assert(written@.tool_calls =~= calls_message(seq_view(calls@)).tool_calls);
            Ok(written)
        },
        MessageContent::ToolResult { tool_call, result } => tool_response(result),
    }
}

/// Builds a chat request.
///
/// The system instructions come first, then the conversation. The first tool result
/// that cannot be written out makes for an error of the provider.
#[verifier::loop_isolation(false)]
pub fn build_chat_request(
    model: &str,
    options: Option<Options>,
    think: Option<Think>,
    request: ModelRequest,
) -> (res: Result<ChatRequest, Error>)
    ensures
        match res {
            Ok(written) => exists|messages: Seq<OllamaMessageView>| #[trigger]
                writes_all(request@.messages, messages) && written@ == chat_request(
                    model@,
                    option_view(options),
                    think,
                    request@,
                    messages,
                ),
            Err(error) => fails_on_one(request@.messages, error@),
        },
        res matches Ok(written) ==> {
            &&& written@.format == request@.output_schema
            &&& written@.model == model@
            &&& written@.options == option_view(options)
            &&& written@.think == think
        },
{
    let ghost model_request = request@;
    let mut messages: Vec<OllamaMessage> = Vec::new();
    if let Some(system) = request.system {
        messages.push(OllamaMessage::plain(OllamaRole::System, system));
    }
    let ghost head = seq_view(messages@);
    assert(head =~= system_messages(model_request.system));
    let thread: &[Arc<Message>] = &request.messages;
    let ghost all = model_request.messages;
    let ghost mut written: Seq<OllamaMessageView> = Seq::empty();
    let mut i: usize = 0;
    assert(head =~= head + written);
    while i < thread.len()
        invariant
            i <= thread@.len(),
            all == seq_view(thread@),
            written.len() == i,
            seq_view(messages@) == head + written,
            forall|j: int| 0 <= j < i ==> writes_message(#[trigger] all[j], Ok(written[j])),
        decreases thread@.len() - i,
    {
        let message: &Message = &thread[i];
        assert(all[i as int] == message@);
        match write_message(message) {
            Ok(one) => {
                let ghost before = messages@;
                messages.push(one);
                proof {
                    written = written.push(one@);
                    crate::views::lemma_seq_view_push(before, one);
                    assert(seq_view(messages@) =~= head + written);
                }
            },
            Err(error) => {
                assert(writes_all(all.take(i as int), written));
                return Err(error);
            },
        }
        i = i + 1;
    }
    let mut tools: Vec<OllamaTool> = Vec::new();
    let mut k: usize = 0;
    while k < request.tools.len()
        invariant
            k <= request.tools@.len(),
            tools@.len() == k,
            forall|j: int|
                0 <= j < k ==> (#[trigger] tools@[j])@ == offered_tool(request.tools@[j]@),
        decreases request.tools@.len() - k,
    {
        tools.push(to_ollama_tool(&request.tools[k]));
        k = k + 1;
    }
    let stream = if request.tools.len() == 0 {
        None
    } else {
        Some(false)
    };
    let res = ChatRequest {
        model: model.to_owned(),
        messages,
        options,
        think,
        tools,
        stream,
        format: request.output_schema,
    };
    proof {
        let expected = chat_request(model@, option_view(options), think, model_request, written);
        assert(writes_all(model_request.messages, written));
        assert(res@.tools =~= expected.tools);
        assert(res@.messages =~= expected.messages);
        assert(res@ == expected);
    }
    Ok(res)
}

} // verus!
