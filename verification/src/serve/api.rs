//! Requests and responses of the OpenAI-compatible interface, and how they turn into chat
//! messages and back.

use vstd::prelude::*;
use vstd::string::*;

use crate::json;
use crate::json::JsonView;
use crate::text::{decimal_of, join};
use crate::tokenizer::calls;
use crate::tokenizer::calls::{CallView, ChatToolCall};
use crate::tokenizer::template;
use crate::tokenizer::template::{copy_text, ChatMessage, MessageView};

verus! {

// ---------------------------------------------------------------------------
// Requests
// ---------------------------------------------------------------------------

/// A chat completion request.
pub struct ChatCompletionRequest {
    pub model: String,
    pub messages: Vec<OpenAiMessage>,
    pub stream: bool,
    pub max_tokens: Option<usize>,
    pub max_completion_tokens: Option<usize>,
    pub enable_thinking: Option<bool>,
    pub reasoning_effort: Option<String>,
    pub tools: Option<Vec<ToolDef>>,
}

/// A message as a client sends it: its content is a text, or an array of parts.
pub struct OpenAiMessage {
    pub role: String,
    pub content: serde_json::Value,
    pub tool_calls: Option<Vec<ClientToolCall>>,
    pub reasoning_content: Option<String>,
}

/// A tool call as a client repeats it.
pub struct ClientToolCall {
    pub function: FunctionCall,
}

/// The function of a tool call; the arguments are JSON text.
pub struct FunctionCall {
    pub name: String,
    pub arguments: String,
}

/// A tool that the model may call.
pub struct ToolDef {
    pub kind: Option<String>,
    pub function: FunctionDef,
}

/// The function that a tool consists in.
pub struct FunctionDef {
    pub name: String,
    pub description: Option<String>,
    pub parameters: serde_json::Value,
}

/// A legacy text completion request.
pub struct CompletionRequest {
    pub model: String,
    pub prompt: serde_json::Value,
    pub stream: bool,
    pub max_tokens: Option<usize>,
    pub max_completion_tokens: Option<usize>,
}

// ---------------------------------------------------------------------------
// Responses
// ---------------------------------------------------------------------------

/// The list of the models served.
pub struct ModelList {
    pub object: &'static str,
    pub data: Vec<ModelInfo>,
}

/// A model served.
pub struct ModelInfo {
    pub id: String,
    pub object: &'static str,
    pub created: u64,
    pub owned_by: String,
}

/// A whole chat completion.
pub struct ChatCompletionResponse {
    pub id: String,
    pub object: &'static str,
    pub created: u64,
    pub model: String,
    pub choices: Vec<Choice>,
    pub usage: Usage,
}

/// One completion of a response.
pub struct Choice {
    pub index: usize,
    pub message: ResponseMessage,
    pub finish_reason: String,
}

/// The message that was generated.
pub struct ResponseMessage {
    pub role: &'static str,
    pub content: String,
    pub reasoning_content: Option<String>,
    pub tool_calls: Option<Vec<ResponseToolCall>>,
}

/// A tool call that was generated.
pub struct ResponseToolCall {
    pub id: String,
    pub kind: &'static str,
    pub function: FunctionCallOut,
}

/// The function of a generated tool call; the arguments are JSON text.
pub struct FunctionCallOut {
    pub name: String,
    pub arguments: String,
}

/// The token counts of a completion.
pub struct Usage {
    pub prompt_tokens: usize,
    pub completion_tokens: usize,
    pub total_tokens: usize,
}

/// A piece of a streamed chat completion.
pub struct ChatCompletionChunk {
    pub id: String,
    pub object: &'static str,
    pub created: u64,
    pub model: String,
    pub choices: Vec<ChunkChoice>,
}

/// One completion's piece.
pub struct ChunkChoice {
    pub index: usize,
    pub delta: ChunkDelta,
    pub finish_reason: Option<String>,
}

/// What a piece adds.
pub struct ChunkDelta {
    pub role: Option<&'static str>,
    pub content: Option<String>,
    pub reasoning_content: Option<String>,
    pub tool_calls: Option<Vec<ResponseToolCall>>,
}

impl Default for ChunkDelta {
    /// A piece that adds nothing.
    fn default() -> (delta: Self)
        ensures
            delta.role is None,
            delta.content is None,
            delta.reasoning_content is None,
            delta.tool_calls is None,
    {
        ChunkDelta { role: None, content: None, reasoning_content: None, tool_calls: None }
    }
}

// ---------------------------------------------------------------------------
// From requests to chat messages
// ---------------------------------------------------------------------------

/// The texts of the parts that have one, one after the other.
pub open spec fn parts_text(parts: Seq<JsonView>) -> Seq<char>
    decreases parts.len(),
{
    if parts.len() == 0 {
        Seq::empty()
    } else {
        parts_text(parts.drop_last()) + (match json::json_member(parts.last(), "text"@) {
            Some(JsonView::Text(text)) => text,
            _ => Seq::empty(),
        })
    }
}

/// The text of a message's content.
pub open spec fn content_text(content: JsonView) -> Seq<char> {
    match content {
        JsonView::Text(text) => text,
        JsonView::Array(parts) => parts_text(parts),
        _ => Seq::empty(),
    }
}

/// The text of a message's content: the content itself, or the texts of its parts.
pub fn content_to_text(content: &serde_json::Value) -> (text: String)
    ensures
        text@ == content_text(json::json_view(*content)),
{
    if let Some(text) = json::as_text(content) {
        return text.to_owned();
    }
    let parts = match json::as_array(content) {
        Some(parts) => parts,
        None => {
            return String::new();
        },
    };
    let ghost all = json::json_views(parts@);
    let mut text = String::new();
    let mut i: usize = 0;
    assert(text@ =~= parts_text(all.take(0)));
    while i < parts.len()
        invariant
            i <= parts@.len(),
            all == json::json_views(parts@),
            text@ == parts_text(all.take(i as int)),
        decreases parts@.len() - i,
    {
        assert(all.take(i + 1).drop_last() =~= all.take(i as int));
        if let Some(part) = json::member(&parts[i], "text") {
            if let Some(part) = json::as_text(part) {
                text.append(part);
            }
        }
        i += 1;
        assert(text@ =~= parts_text(all.take(i as int)));
    }
    assert(all.take(i as int) =~= all);
    text
}

/// The value of a client's arguments: the JSON that they are, or else their text.
pub open spec fn arguments_value(arguments: Seq<char>) -> JsonView {
    match json::json_parse(arguments) {
        Some(value) => value,
        None => JsonView::Text(arguments),
    }
}

/// The client sends arguments as JSON text: their value, or the text where it is no JSON.
pub fn coerce_arguments(arguments: &str) -> (value: serde_json::Value)
    ensures
        json::json_view(value) == arguments_value(arguments@),
{
    match json::parse_text(arguments) {
        Some(value) => value,
        None => json::string(arguments.to_owned()),
    }
}

/// The tool calls that a client repeats.
pub open spec fn client_calls(calls: Option<Vec<ClientToolCall>>) -> Seq<CallView> {
    match calls {
        Some(calls) => Seq::new(
            calls@.len(),
            |i: int|
                CallView {
                    name: calls@[i].function.name@,
                    arguments: arguments_value(calls@[i].function.arguments@),
                },
        ),
        None => Seq::empty(),
    }
}

/// The chat message that a client's message stands for.
pub open spec fn chat_message(message: OpenAiMessage) -> MessageView {
    MessageView {
        role: message.role@,
        content: content_text(json::json_view(message.content)),
        reasoning_content: template::text_view(message.reasoning_content),
        tool_calls: client_calls(message.tool_calls),
        name: None,
    }
}

/// The tool calls that a client repeats.
fn to_chat_calls(client: &Option<Vec<ClientToolCall>>) -> (out: Vec<ChatToolCall>)
    ensures
        calls::call_views(out@) == client_calls(*client),
{
    let mut out: Vec<ChatToolCall> = Vec::new();
    if let Some(client_calls) = client {
        let mut i: usize = 0;
        while i < client_calls.len()
            invariant
                i <= client_calls@.len(),
                out@.len() == i,
                forall|k: int|
                    0 <= k < i ==> (#[trigger] out@[k])@ == (CallView {
                        name: client_calls@[k].function.name@,
                        arguments: arguments_value(client_calls@[k].function.arguments@),
                    }),
            decreases client_calls@.len() - i,
        {
            let function = &client_calls[i].function;
            out.push(
                ChatToolCall {
                    name: function.name.clone(),
                    arguments: coerce_arguments(function.arguments.as_str()),
                },
            );
            i += 1;
        }
    }
    assert(calls::call_views(out@) =~= client_calls(*client));
    out
}

/// The chat messages that a client's messages stand for.
pub fn to_chat_messages(messages: &[OpenAiMessage]) -> (out: Vec<ChatMessage>)
    ensures
        template::message_views(out@) == Seq::new(
            messages@.len(),
            |i: int| chat_message(messages@[i]),
        ),
{
    let mut out: Vec<ChatMessage> = Vec::new();
    let mut i: usize = 0;
    while i < messages.len()
        invariant
            i <= messages@.len(),
            out@.len() == i,
            forall|k: int| 0 <= k < i ==> (#[trigger] out@[k])@ == chat_message(messages@[k]),
        decreases messages@.len() - i,
    {
        let message = &messages[i];
        out.push(
            ChatMessage {
                role: message.role.clone(),
                content: content_to_text(&message.content),
                reasoning_content: copy_text(&message.reasoning_content),
                tool_calls: to_chat_calls(&message.tool_calls),
                name: None,
            },
        );
        i += 1;
    }
    assert(template::message_views(out@) =~= Seq::new(
        messages@.len(),
        |i: int| chat_message(messages@[i]),
    ));
    out
}

/// The chat completion that a legacy text completion amounts to: one user message, no
/// tools and no thinking.
pub fn completion_as_chat(request: CompletionRequest) -> (chat: ChatCompletionRequest)
    ensures
        chat.model@ == request.model@,
        chat.messages@.len() == 1,
        chat_message(chat.messages@[0]) == (MessageView {
            role: "user"@,
            content: content_text(json::json_view(request.prompt)),
            reasoning_content: None,
            tool_calls: Seq::empty(),
            name: None,
        }),
        chat.stream == request.stream,
        chat.max_tokens == request.max_tokens,
        chat.max_completion_tokens == request.max_completion_tokens,
        chat.enable_thinking == Some(false),
        chat.reasoning_effort is None,
        chat.tools is None,
{
    let message = OpenAiMessage {
        role: "user".to_owned(),
        content: request.prompt,
        tool_calls: None,
        reasoning_content: None,
    };
    let mut messages: Vec<OpenAiMessage> = Vec::new();
    messages.push(message);
    ChatCompletionRequest {
        model: request.model,
        messages,
        stream: request.stream,
        max_tokens: request.max_tokens,
        max_completion_tokens: request.max_completion_tokens,
        enable_thinking: Some(false),
        reasoning_effort: None,
        tools: None,
    }
}

// ---------------------------------------------------------------------------
// From tool calls to responses
// ---------------------------------------------------------------------------

/// `out` is the response entry for the `i`-th of the calls.
pub open spec fn is_response_call(out: ResponseToolCall, call: CallView, i: int) -> bool {
    &&& out.id@ == "call_"@ + crate::text::decimal((i + 1) as nat)
    &&& out.kind@ == "function"@
    &&& out.function.name@ == call.name
    &&& out.function.arguments@ == json::json_text(call.arguments)
}

/// `out` are the response entries for the calls, in order.
pub open spec fn are_response_calls(out: Seq<ResponseToolCall>, calls: Seq<CallView>) -> bool {
    &&& out.len() == calls.len()
    &&& forall|i: int| 0 <= i < out.len() ==> is_response_call(#[trigger] out[i], calls[i], i)
}

/// The response entries for the model's structured calls.
pub fn tool_calls_to_response(calls: &[ChatToolCall]) -> (out: Vec<ResponseToolCall>)
    ensures
        are_response_calls(out@, calls::call_views(calls@)),
{
    let mut out: Vec<ResponseToolCall> = Vec::new();
    let mut i: usize = 0;
    while i < calls.len()
        invariant
            i <= calls@.len(),
            out@.len() == i,
            forall|k: int|
                0 <= k < i ==> is_response_call(#[trigger] out@[k], calls@[k]@, k),
        decreases calls@.len() - i,
    {
        let call = &calls[i];
        out.push(
            ResponseToolCall {
                id: join("call_", decimal_of((i + 1) as u64).as_str()),
                kind: "function",
                function: FunctionCallOut {
                    name: call.name.clone(),
                    arguments: json::text_of(&call.arguments),
                },
            },
        );
        i += 1;
    }
    out
}

/// The list of models: the one that is served.
pub fn list_models(model_id: &str, now: u64) -> (list: ModelList)
    ensures
        list.object@ == "list"@,
        list.data@.len() == 1,
        list.data@[0].id@ == model_id@,
        list.data@[0].object@ == "model"@,
        list.data@[0].created == now,
        list.data@[0].owned_by@ == "lisa-rs"@,
{
    let mut data: Vec<ModelInfo> = Vec::new();
    data.push(
        ModelInfo {
            id: model_id.to_owned(),
            object: "model",
            created: now,
            owned_by: "lisa-rs".to_owned(),
        },
    );
    ModelList { object: "list", data }
}

/// The id of a request that came at `now`, in seconds since the epoch.
pub fn request_id(now: u64) -> (id: String)
    ensures
        id@ == "chatcmpl-"@ + crate::text::decimal(now as nat),
{
    join("chatcmpl-", decimal_of(now).as_str())
}

} // verus!
