//! The chat template: how a conversation becomes a prompt.

use vstd::prelude::*;
use vstd::string::*;

use crate::json;
use crate::json::JsonView;
use crate::text;
use crate::text::{join, quoted, same_text, trimmed};
use crate::tokenizer::calls;
use crate::tokenizer::calls::{CallView, ChatToolCall};

verus! {

/// A chat message. Assistant messages may carry tool calls and reasoning; the answer of a
/// tool has the role `tool`.
#[derive(Debug)]
pub struct ChatMessage {
    pub role: String,
    pub content: String,
    pub reasoning_content: Option<String>,
    pub tool_calls: Vec<ChatToolCall>,
    pub name: Option<String>,
}

/// A chat message as a value.
pub struct MessageView {
    pub role: Seq<char>,
    pub content: Seq<char>,
    pub reasoning_content: Option<Seq<char>>,
    pub tool_calls: Seq<CallView>,
    pub name: Option<Seq<char>>,
}

/// An optional string as a value.
pub open spec fn text_view(text: Option<String>) -> Option<Seq<char>> {
    match text {
        Some(text) => Some(text@),
        None => None,
    }
}

impl View for ChatMessage {
    type V = MessageView;

    open spec fn view(&self) -> MessageView {
        MessageView {
            role: self.role@,
            content: self.content@,
            reasoning_content: text_view(self.reasoning_content),
            tool_calls: calls::call_views(self.tool_calls@),
            name: text_view(self.name),
        }
    }
}

/// Several messages as values.
pub open spec fn message_views(messages: Seq<ChatMessage>) -> Seq<MessageView> {
    Seq::new(messages.len(), |i: int| messages[i]@)
}

impl Clone for ChatMessage {
    fn clone(&self) -> (copy: Self)
        ensures
            copy@ == self@,
    {
        ChatMessage {
            role: self.role.clone(),
            content: self.content.clone(),
            reasoning_content: copy_text(&self.reasoning_content),
            tool_calls: copy_calls(&self.tool_calls),
            name: copy_text(&self.name),
        }
    }
}

/// A copy of an optional string.
pub(crate) fn copy_text(text: &Option<String>) -> (copy: Option<String>)
    ensures
        text_view(copy) == text_view(*text),
{
    match text {
        Some(text) => Some(text.clone()),
        None => None,
    }
}

/// Copies of tool calls.
fn copy_calls(all: &[ChatToolCall]) -> (copies: Vec<ChatToolCall>)
    ensures
        calls::call_views(copies@) == calls::call_views(all@),
{
    let mut copies: Vec<ChatToolCall> = Vec::new();
    let len: usize = all.len();
    let mut i: usize = 0;
    while i < len
        invariant
            i <= len,
            len == all@.len(),
            i == copies@.len(),
            forall|j: int| 0 <= j < i ==> (#[trigger] copies@[j])@ == all@[j]@,
        decreases len - i,
    {
        copies.push(all[i].clone());
        i += 1;
    }
    assert(calls::call_views(copies@) =~= calls::call_views(all@));
    copies
}

impl ChatMessage {
    /// A message with nothing but its text.
    pub fn new(role: &str, content: &str) -> (message: Self)
        ensures
            message@ == (MessageView {
                role: role@,
                content: content@,
                reasoning_content: None,
                tool_calls: Seq::empty(),
                name: None,
            }),
    {
        let message = ChatMessage {
            role: role.to_owned(),
            content: content.to_owned(),
            reasoning_content: None,
            tool_calls: Vec::new(),
            name: None,
        };
        assert(calls::call_views(message.tool_calls@) =~= Seq::empty());
        message
    }

    /// An assistant message that issued tool calls; the content is the text before them.
    pub fn assistant_with_tool_calls(content: &str, tool_calls: Vec<ChatToolCall>) -> (message: Self)
        ensures
            message@ == (MessageView {
                role: "assistant"@,
                content: content@,
                reasoning_content: None,
                tool_calls: calls::call_views(tool_calls@),
                name: None,
            }),
    {
        ChatMessage {
            role: "assistant".to_owned(),
            content: content.to_owned(),
            reasoning_content: None,
            tool_calls,
            name: None,
        }
    }
}

// ---------------------------------------------------------------------------
// The fixed texts
// ---------------------------------------------------------------------------

/// The instructions for the reasoning effort `xhigh`.
pub const XHIGH: &'static str = "Reasoning effort is set to xhigh. Please think carefully through the task, validate key assumptions, consider plausible alternatives, and prioritize correctness, consistency, and clarity in the final answer.";

/// The instructions for the reasoning effort `low`.
pub const LOW: &'static str = "Reasoning effort is set to low. Keep your thinking brief and focused, moving directly to the conclusion without unnecessary elaboration.";

/// What comes before the tool definitions.
pub const TOOLS_HEAD: &'static str = "# Tools\n\nYou have access to the following functions:\n\n<tools>";

/// What comes behind the tool definitions.
pub const TOOLS_FOOT: &'static str = "\n</tools>\n\nIf you choose to call a function ONLY reply in the following \
format with NO suffix:\n\n<tool_call>\n<function=example_function_name>\n\
<parameter=example_parameter_1>\nvalue_1\n</parameter>\n\
<parameter=example_parameter_2>\nThis is the value for the second parameter\n\
that can span\nmultiple lines\n</parameter>\n</function>\n</tool_call>\n\n\
<IMPORTANT>\nReminder:\n- Function calls MUST follow the specified format: \
an inner <function=...></function> block must be nested within \
<tool_call></tool_call> XML tags\n- Required parameters MUST be specified\n\
- You may provide optional reasoning for your function call in natural \
language BEFORE the function call, but NOT after\n- If there is no function \
call available, answer the question like normal with your current knowledge \
and do not tell the user about function calls\n</IMPORTANT>";

// ---------------------------------------------------------------------------
// What a prompt is
// ---------------------------------------------------------------------------

/// The reasoning effort that is meant: `xhigh`, where none is given.
pub open spec fn effort_or_default(effort: Option<&str>) -> Seq<char> {
    match effort {
        Some(effort) => effort@,
        None => "xhigh"@,
    }
}

/// The instructions for a reasoning effort, where it has some.
pub open spec fn instructions(effort: Seq<char>) -> Option<Seq<char>> {
    if effort == "xhigh"@ {
        Some(XHIGH@)
    } else if effort == "low"@ {
        Some(LOW@)
    } else {
        None
    }
}

/// Whether there is such a reasoning effort.
pub open spec fn is_effort(effort: Seq<char>) -> bool {
    effort == "xhigh"@ || effort == "low"@ || effort == "medium"@
}

/// The instructions, set off from what follows.
pub open spec fn preamble(instructions: Option<Seq<char>>) -> Seq<char> {
    match instructions {
        Some(instructions) => instructions + "\n\n"@,
        None => Seq::empty(),
    }
}

/// The tool definitions, one on a line.
pub open spec fn tool_lines(tools: Seq<Seq<char>>) -> Seq<char>
    decreases tools.len(),
{
    if tools.len() == 0 {
        Seq::empty()
    } else {
        tool_lines(tools.drop_last()) + "\n"@ + tools.last()
    }
}

/// The content of the system message that opens a conversation, trimmed; empty where
/// there is none.
pub open spec fn system_content(messages: Seq<MessageView>) -> Seq<char> {
    if messages[0].role == "system"@ {
        text::trim(messages[0].content)
    } else {
        Seq::empty()
    }
}

/// The system turn. With tools it carries their definitions and the instructions; without
/// them it carries the instructions when thinking is enabled. A turn with nothing in it
/// is left out.
pub open spec fn system_turn(
    messages: Seq<MessageView>,
    enable_thinking: bool,
    instructions: Option<Seq<char>>,
    tools: Seq<Seq<char>>,
) -> Seq<char> {
    let content = system_content(messages);
    if tools.len() > 0 {
        "<|im_start|>system\n"@ + preamble(instructions) + TOOLS_HEAD@ + tool_lines(tools)
            + TOOLS_FOOT@ + (if content.len() > 0 {
            "\n\n"@ + content
        } else {
            Seq::empty()
        }) + "<|im_end|>\n"@
    } else {
        let told = if enable_thinking {
            instructions
        } else {
            None
        };
        if content.len() > 0 {
            "<|im_start|>system\n"@ + preamble(told) + content + "<|im_end|>\n"@
        } else {
            match told {
                Some(told) => "<|im_start|>system\n"@ + told + "<|im_end|>\n"@,
                None => Seq::empty(),
            }
        }
    }
}

/// An argument as it is written in a call: a text as it is, anything else as JSON.
pub open spec fn argument_text(value: JsonView) -> Seq<char> {
    match value {
        JsonView::Text(text) => text,
        _ => json::json_text(value),
    }
}

/// What is written for the scalars among a call's arguments is read as those.
pub open spec fn is_read_back(call: CallView) -> bool {
    match call.arguments {
        JsonView::Object(entries) => are_read_back(entries),
        _ => true,
    }
}

/// What is written for the scalars among some arguments is read as those.
pub open spec fn are_read_back(entries: Seq<(Seq<char>, JsonView)>) -> bool {
    forall|i: int| 0 <= i < entries.len() ==> json::is_read_back((#[trigger] entries[i]).1)
}

/// What is written for the scalars in a message's calls is read as those.
pub open spec fn is_message_read_back(message: MessageView) -> bool {
    message.role == "assistant"@ ==> forall|i: int|
        0 <= i < message.tool_calls.len() ==> is_read_back(#[trigger] message.tool_calls[i])
}

/// What is written for the scalars in the calls of a conversation is read as those.
pub open spec fn are_messages_read_back(messages: Seq<MessageView>) -> bool {
    forall|i: int| 0 <= i < messages.len() ==> is_message_read_back(#[trigger] messages[i])
}

/// The parameters of a call.
pub open spec fn parameter_blocks(entries: Seq<(Seq<char>, JsonView)>) -> Seq<char>
    decreases entries.len(),
{
    if entries.len() == 0 {
        Seq::empty()
    } else {
        let (key, value) = entries.last();
        parameter_blocks(entries.drop_last()) + "<parameter="@ + key + ">\n"@ + argument_text(value)
            + "\n</parameter>\n"@
    }
}

/// A call, from its name on.
pub open spec fn call_text(call: CallView) -> Seq<char> {
    call.name + ">\n"@ + (match call.arguments {
        JsonView::Object(entries) => parameter_blocks(entries),
        _ => Seq::empty(),
    }) + "</function>\n</tool_call>"@
}

/// The calls of an assistant turn whose text is `content`.
pub open spec fn call_blocks(content: Seq<char>, calls: Seq<CallView>) -> Seq<char>
    decreases calls.len(),
{
    if calls.len() == 0 {
        Seq::empty()
    } else {
        call_blocks(content, calls.drop_last()) + (if calls.len() > 1 {
            "\n<tool_call>\n<function="@
        } else if content.len() > 0 {
            "\n\n<tool_call>\n<function="@
        } else {
            "<tool_call>\n<function="@
        }) + call_text(calls.last())
    }
}

/// The reasoning part of an assistant turn.
pub open spec fn reasoning_part(message: MessageView) -> Seq<char> {
    match message.reasoning_content {
        Some(reasoning) => if text::trim(reasoning).len() > 0 {
            " thinking\n"@ + text::trim(reasoning) + "\n response\n\n"@
        } else {
            Seq::empty()
        },
        None => if text::trim(message.content).len() > 0 || message.tool_calls.len() > 0 {
            " thinking\n\n response\n\n"@
        } else {
            Seq::empty()
        },
    }
}

/// Whether the message at `i` is the answer of a tool.
pub open spec fn is_tool_answer(messages: Seq<MessageView>, i: int) -> bool {
    0 <= i < messages.len() && messages[i].role == "tool"@
}

/// The turn of the message at `i`; `None` where its role is not known. The system message
/// has no turn of its own here, and answers of tools that follow one another share one
/// user turn.
pub open spec fn turn(messages: Seq<MessageView>, i: int) -> Option<Seq<char>> {
    let message = messages[i];
    let content = text::trim(message.content);
    if message.role == "system"@ {
        Some(Seq::empty())
    } else if message.role == "user"@ {
        Some("<|im_start|>user\n"@ + content + "<|im_end|>\n"@)
    } else if message.role == "assistant"@ {
        Some(
            "<|im_start|>assistant\n"@ + reasoning_part(message) + content + call_blocks(
                content,
                message.tool_calls,
            ) + "<|im_end|>\n"@,
        )
    } else if message.role == "tool"@ {
        Some(
            (if is_tool_answer(messages, i - 1) {
                Seq::empty()
            } else {
                "<|im_start|>user"@
            }) + "\n<tool_response>\n"@ + content + "\n</tool_response>"@ + (if is_tool_answer(
                messages,
                i + 1,
            ) {
                Seq::empty()
            } else {
                "<|im_end|>\n"@
            }),
        )
    } else {
        None
    }
}

/// The turns of the first `n` messages; `None` where one of their roles is not known.
pub open spec fn turns(messages: Seq<MessageView>, n: int) -> Option<Seq<char>>
    decreases n,
{
    if n <= 0 {
        Some(Seq::empty())
    } else {
        match (turns(messages, n - 1), turn(messages, n - 1)) {
            (Some(earlier), Some(last)) => Some(earlier + last),
            _ => None,
        }
    }
}

/// What opens the turn that is to be generated.
pub open spec fn generation_prompt(enable_thinking: bool) -> Seq<char> {
    "<|im_start|>assistant\n"@ + (if enable_thinking {
        " thinking\n"@
    } else {
        " thinking\n\n response\n\n"@
    })
}

/// The prompt of a conversation without the generation prompt.
pub open spec fn conversation(
    messages: Seq<MessageView>,
    enable_thinking: bool,
    effort: Seq<char>,
    tools: Seq<Seq<char>>,
) -> Option<Seq<char>> {
    match turns(messages, messages.len() as int) {
        Some(turns) => Some(
            system_turn(messages, enable_thinking, instructions(effort), tools) + turns,
        ),
        None => None,
    }
}

/// The first of the messages `from..` whose role is not known.
pub open spec fn first_unknown(messages: Seq<MessageView>, from: int) -> Option<int>
    decreases messages.len() - from,
{
    if from >= messages.len() {
        None
    } else if turn(messages, from) is None {
        Some(from)
    } else {
        first_unknown(messages, from + 1)
    }
}

/// The prompt of a conversation, or why there is none.
pub open spec fn prompt(
    messages: Seq<MessageView>,
    enable_thinking: bool,
    effort: Seq<char>,
    tools: Seq<Seq<char>>,
    add_generation_prompt: bool,
) -> Result<Seq<char>, Seq<char>> {
    if messages.len() == 0 {
        Err("no messages provided"@)
    } else if !is_effort(effort) {
        Err("unsupported reasoning effort "@ + text::debug_text(effort))
    } else {
        match first_unknown(messages, 0) {
            Some(i) => Err("unexpected message role "@ + text::debug_text(messages[i].role)),
            None => Ok(
                conversation(messages, enable_thinking, effort, tools)->0 + (
                if add_generation_prompt {
                    generation_prompt(enable_thinking)
                } else {
                    Seq::empty()
                }),
            ),
        }
    }
}

// ---------------------------------------------------------------------------
// Rendering
// ---------------------------------------------------------------------------

/// Whether a message has this role.
fn has_role(message: &ChatMessage, role: &str) -> (answer: bool)
    ensures
        answer == (message@.role == role@),
{
    same_text(message.role.as_str(), role)
}

/// Whether the message at `i` is the answer of a tool.
fn tool_answer(messages: &[ChatMessage], i: usize) -> (answer: bool)
    ensures
        answer == is_tool_answer(message_views(messages@), i as int),
{
    i < messages.len() && has_role(&messages[i], "tool")
}

/// The instructions, where there are some.
spec fn told_view(told: Option<&str>) -> Option<Seq<char>> {
    match told {
        Some(told) => Some(told@),
        None => None,
    }
}

/// Appends the instructions, set off from what follows.
fn push_preamble(prompt: &mut String, told: Option<&str>)
    ensures
        final(prompt)@ == old(prompt)@ + preamble(told_view(told)),
{
    if let Some(told) = told {
        prompt.append(told);
        prompt.append("\n\n");
    }
    assert(prompt@ =~= old(prompt)@ + preamble(told_view(told)));
}

/// Appends the system turn of a conversation with tools.
fn push_tools_turn(prompt: &mut String, content: &str, told: Option<&str>, tools: &[String])
    ensures
        final(prompt)@ == old(prompt)@ + ("<|im_start|>system\n"@ + preamble(told_view(told))
            + TOOLS_HEAD@ + tool_lines(text::texts(tools@)) + TOOLS_FOOT@ + (if content@.len() > 0 {
            "\n\n"@ + content@
        } else {
            Seq::empty()
        }) + "<|im_end|>\n"@),
{
    prompt.append("<|im_start|>system\n");
    push_preamble(prompt, told);
    prompt.append(TOOLS_HEAD);
    push_tool_lines(prompt, tools);
    prompt.append(TOOLS_FOOT);
    let ghost head = "<|im_start|>system\n"@ + preamble(told_view(told)) + TOOLS_HEAD@
        + tool_lines(text::texts(tools@)) + TOOLS_FOOT@;
    assert(prompt@ =~= old(prompt)@ + head);
    if !content.is_empty() {
        prompt.append("\n\n");
        prompt.append(content);
    }
    prompt.append("<|im_end|>\n");
    assert(prompt@ =~= old(prompt)@ + (head + (if content@.len() > 0 {
        "\n\n"@ + content@
    } else {
        Seq::empty()
    }) + "<|im_end|>\n"@));
}

/// Appends the system turn.
fn push_system_turn(
    prompt: &mut String,
    messages: &[ChatMessage],
    enable_thinking: bool,
    told: Option<&str>,
    tools: &[String],
)
    requires
        messages@.len() > 0,
    ensures
        final(prompt)@ == old(prompt)@ + system_turn(
            message_views(messages@),
            enable_thinking,
            told_view(told),
            text::texts(tools@),
        ),
{
    let content = if has_role(&messages[0], "system") {
        trimmed(messages[0].content.as_str())
    } else {
        String::new()
    };
    assert(content@ == system_content(message_views(messages@)));
    if tools.len() > 0 {
        push_tools_turn(prompt, content.as_str(), told, tools);
        return ;
    }
    let told: Option<&str> = if enable_thinking {
        told
    } else {
        None
    };
    if !content.as_str().is_empty() {
        prompt.append("<|im_start|>system\n");
        push_preamble(prompt, told);
        prompt.append(content.as_str());
        prompt.append("<|im_end|>\n");
        assert(prompt@ =~= old(prompt)@ + ("<|im_start|>system\n"@ + preamble(told_view(told))
            + content@ + "<|im_end|>\n"@));
        return ;
    }
    match told {
        Some(told) => {
            prompt.append("<|im_start|>system\n");
            prompt.append(told);
            prompt.append("<|im_end|>\n");
            assert(prompt@ =~= old(prompt)@ + ("<|im_start|>system\n"@ + told@
                + "<|im_end|>\n"@));
        },
        None => {
            assert(prompt@ =~= old(prompt)@ + Seq::<char>::empty());
        },
    }
}

/// Appends the tool definitions.
fn push_tool_lines(prompt: &mut String, tools: &[String])
    ensures
        final(prompt)@ == old(prompt)@ + tool_lines(text::texts(tools@)),
{
    let ghost all = text::texts(tools@);
    let mut i: usize = 0;
    assert(prompt@ =~= old(prompt)@ + tool_lines(all.take(0)));
    while i < tools.len()
        invariant
            i <= tools@.len(),
            all == text::texts(tools@),
            prompt@ == old(prompt)@ + tool_lines(all.take(i as int)),
        decreases tools@.len() - i,
    {
        assert(all.take(i + 1).drop_last() =~= all.take(i as int));
        prompt.append("\n");
        prompt.append(tools[i].as_str());
        i += 1;
        assert(prompt@ =~= old(prompt)@ + tool_lines(all.take(i as int)));
    }
    assert(all.take(i as int) =~= all);
}

/// Appends the parameters of a call.
fn push_parameters(prompt: &mut String, arguments: &serde_json::Value)
    ensures
        final(prompt)@ == old(prompt)@ + (match json::json_view(*arguments) {
            JsonView::Object(entries) => parameter_blocks(entries),
            _ => Seq::empty(),
        }),
        match json::json_view(*arguments) {
            JsonView::Object(entries) => are_read_back(entries),
            _ => true,
        },
{
    let map = match json::as_object(arguments) {
        Some(map) => map,
        None => {
            assert(prompt@ =~= old(prompt)@ + Seq::<char>::empty());
            return ;
        },
    };
    let entries = json::entries(map);
    let ghost all = json::json_entries(*map);
    let mut i: usize = 0;
    assert(prompt@ =~= old(prompt)@ + parameter_blocks(all.take(0)));
    while i < entries.len()
        invariant
            i <= entries@.len(),
            entries@.len() == all.len(),
            forall|k: int|
                0 <= k < entries@.len() ==> (#[trigger] entries@[k]).0@ == all[k].0
                    && json::json_view(*entries@[k].1) == all[k].1,
            forall|k: int| 0 <= k < i ==> json::is_read_back((#[trigger] all[k]).1),
            prompt@ == old(prompt)@ + parameter_blocks(all.take(i as int)),
        decreases entries@.len() - i,
    {
        assert(all.take(i + 1).drop_last() =~= all.take(i as int));
        let (key, value): (&String, &serde_json::Value) = entries[i];
        assert(all.take(i + 1).last() == (key@, json::json_view(*value)));
        prompt.append("<parameter=");
        prompt.append(key.as_str());
        prompt.append(">\n");
        match json::as_text(value) {
            Some(text) => prompt.append(text),
            None => {
                let text = json::text_of(value);
                prompt.append(text.as_str());
            },
        }
        prompt.append("\n</parameter>\n");
        i += 1;
        assert(prompt@ =~= old(prompt)@ + parameter_blocks(all.take(i as int)));
    }
    assert(all.take(i as int) =~= all);
}

/// Appends the calls of an assistant turn.
fn push_calls(prompt: &mut String, content: &str, tool_calls: &[ChatToolCall])
    ensures
        final(prompt)@ == old(prompt)@ + call_blocks(content@, calls::call_views(tool_calls@)),
        forall|k: int|
            0 <= k < tool_calls@.len() ==> is_read_back(
                #[trigger] calls::call_views(tool_calls@)[k],
            ),
{
    let ghost all = calls::call_views(tool_calls@);
    let mut i: usize = 0;
    assert(prompt@ =~= old(prompt)@ + call_blocks(content@, all.take(0)));
    while i < tool_calls.len()
        invariant
            i <= tool_calls@.len(),
            all == calls::call_views(tool_calls@),
            forall|k: int| 0 <= k < i ==> is_read_back(#[trigger] all[k]),
            prompt@ == old(prompt)@ + call_blocks(content@, all.take(i as int)),
        decreases tool_calls@.len() - i,
    {
        assert(all.take(i + 1).drop_last() =~= all.take(i as int));
        let call = &tool_calls[i];
        if i > 0 {
            prompt.append("\n<tool_call>\n<function=");
        } else if !content.is_empty() {
            prompt.append("\n\n<tool_call>\n<function=");
        } else {
            prompt.append("<tool_call>\n<function=");
        }
        prompt.append(call.name.as_str());
        prompt.append(">\n");
        push_parameters(prompt, &call.arguments);
        prompt.append("</function>\n</tool_call>");
        i += 1;
        assert(prompt@ =~= old(prompt)@ + call_blocks(content@, all.take(i as int)));
    }
    assert(all.take(i as int) =~= all);
}

/// Appends an assistant turn.
fn push_assistant(prompt: &mut String, message: &ChatMessage)
    ensures
        final(prompt)@ == old(prompt)@ + ("<|im_start|>assistant\n"@ + reasoning_part(message@)
            + text::trim(message@.content) + call_blocks(
            text::trim(message@.content),
            message@.tool_calls,
        ) + "<|im_end|>\n"@),
        is_message_read_back(message@),
{
    let content = trimmed(message.content.as_str());
    prompt.append("<|im_start|>assistant\n");
    match &message.reasoning_content {
        Some(reasoning) => {
            let reasoning = trimmed(reasoning.as_str());
            if !reasoning.as_str().is_empty() {
                prompt.append(" thinking\n");
                prompt.append(reasoning.as_str());
                prompt.append("\n response\n\n");
            }
        },
        None => {
            if !content.as_str().is_empty() || message.tool_calls.len() > 0 {
                prompt.append(" thinking\n\n response\n\n");
            }
        },
    }
    assert(prompt@ =~= old(prompt)@ + "<|im_start|>assistant\n"@ + reasoning_part(message@));
    prompt.append(content.as_str());
    push_calls(prompt, content.as_str(), &message.tool_calls);
    prompt.append("<|im_end|>\n");
    assert(prompt@ =~= old(prompt)@ + ("<|im_start|>assistant\n"@ + reasoning_part(message@)
        + text::trim(message@.content) + call_blocks(
        text::trim(message@.content),
        message@.tool_calls,
    ) + "<|im_end|>\n"@));
}

/// No other role is that of the assistant.
pub(crate) proof fn roles_differ()
    ensures
        "system"@ != "assistant"@,
        "user"@ != "assistant"@,
        "tool"@ != "assistant"@,
{
    reveal_strlit("system");
    reveal_strlit("user");
    reveal_strlit("tool");
    reveal_strlit("assistant");
    assert("system"@.len() < "assistant"@.len());
    assert("user"@.len() < "assistant"@.len());
    assert("tool"@.len() < "assistant"@.len());
}

/// Appends the turn of the message at `i`, where its role is known; says whether it is.
fn push_turn(prompt: &mut String, messages: &[ChatMessage], i: usize) -> (known: bool)
    requires
        i < messages@.len(),
    ensures
        known == (turn(message_views(messages@), i as int) is Some),
        known ==> final(prompt)@ == old(prompt)@ + turn(message_views(messages@), i as int)->0,
        known ==> is_message_read_back(message_views(messages@)[i as int]),
{
    let message = &messages[i];
    let ghost views = message_views(messages@);
    assert(views[i as int] == message@);
    proof {
        roles_differ();
    }
    if has_role(message, "system") {
        assert(prompt@ =~= old(prompt)@ + turn(views, i as int)->0);
        return true;
    }
    if has_role(message, "user") {
        prompt.append("<|im_start|>user\n");
        prompt.append(trimmed(message.content.as_str()).as_str());
        prompt.append("<|im_end|>\n");
        assert(prompt@ =~= old(prompt)@ + turn(views, i as int)->0);
        return true;
    }
    if has_role(message, "assistant") {
        push_assistant(prompt, message);
        return true;
    }
    if has_role(message, "tool") {
        if !(i > 0 && tool_answer(messages, i - 1)) {
            prompt.append("<|im_start|>user");
        }
        prompt.append("\n<tool_response>\n");
        prompt.append(trimmed(message.content.as_str()).as_str());
        prompt.append("\n</tool_response>");
        if i == messages.len() - 1 || !tool_answer(messages, i + 1) {
            prompt.append("<|im_end|>\n");
        }
        assert(prompt@ =~= old(prompt)@ + turn(views, i as int)->0);
        return true;
    }
    false
}

/// Renders a conversation as a prompt. `enable_thinking` and `reasoning_effort` (one of
/// `xhigh`, `medium` and `low`; `xhigh` where none is given) decide on the instructions
/// and on the generation prompt, which is left out where only the conversation's prefix
/// is wanted. What is written for a scalar argument of a call is read as that scalar.
pub fn apply_chat_template(
    messages: &[ChatMessage],
    enable_thinking: bool,
    reasoning_effort: Option<&str>,
    tools: &[String],
    add_generation_prompt: bool,
) -> (rendered: Result<String, String>)
    ensures
        match (
            rendered,
            prompt(
                message_views(messages@),
                enable_thinking,
                effort_or_default(reasoning_effort),
                text::texts(tools@),
                add_generation_prompt,
            ),
        ) {
            (Ok(rendered), Ok(prompt)) => rendered@ == prompt,
            (Err(message), Err(reason)) => message@ == reason,
            _ => false,
        },
        rendered is Ok ==> are_messages_read_back(message_views(messages@)),
{
    let ghost views = message_views(messages@);
    if messages.len() == 0 {
        return Err("no messages provided".to_owned());
    }
    let effort: &str = match reasoning_effort {
        Some(effort) => effort,
        None => "xhigh",
    };
    let told: Option<&str> = if same_text(effort, "xhigh") {
        Some(XHIGH)
    } else if same_text(effort, "low") {
        Some(LOW)
    } else if same_text(effort, "medium") {
        None
    } else {
        return Err(join("unsupported reasoning effort ", quoted(effort).as_str()));
    };
    let mut prompt = String::new();
    push_system_turn(&mut prompt, messages, enable_thinking, told, tools);
    let ghost head = system_turn(
        views,
        enable_thinking,
        instructions(effort@),
        text::texts(tools@),
    );
    assert(prompt@ =~= head + turns(views, 0)->0);
    let mut i: usize = 0;
    while i < messages.len()
        invariant
            i <= messages@.len(),
            views == message_views(messages@),
            effort@ == effort_or_default(reasoning_effort),
            is_effort(effort@),
            turns(views, i as int) is Some,
            prompt@ == head + turns(views, i as int)->0,
            first_unknown(views, 0) == first_unknown(views, i as int),
            forall|k: int| 0 <= k < i ==> is_message_read_back(#[trigger] views[k]),
        decreases messages@.len() - i,
    {
        if !push_turn(&mut prompt, messages, i) {
            return Err(
                join("unexpected message role ", quoted(messages[i].role.as_str()).as_str()),
            );
        }
        i += 1;
        assert(prompt@ =~= head + turns(views, i as int)->0);
    }
    if add_generation_prompt {
        prompt.append("<|im_start|>assistant\n");
        if enable_thinking {
            prompt.append(" thinking\n");
        } else {
            prompt.append(" thinking\n\n response\n\n");
        }
        assert(prompt@ =~= head + turns(views, i as int)->0 + generation_prompt(enable_thinking));
    } else {
        assert(prompt@ =~= head + turns(views, i as int)->0 + Seq::<char>::empty());
    }
    Ok(prompt)
}

// ---------------------------------------------------------------------------
// Laws
// ---------------------------------------------------------------------------

/// Where no role is unknown, there are turns.
proof fn known_roles_have_turns(messages: Seq<MessageView>, n: int)
    requires
        0 <= n <= messages.len(),
        forall|i: int| 0 <= i < n ==> turn(messages, i) is Some,
    ensures
        turns(messages, n) is Some,
    decreases n,
{
    if n > 0 {
        known_roles_have_turns(messages, n - 1);
    }
}

/// Where there is a prompt, there are turns.
pub(crate) proof fn known_conversations_have_turns(messages: Seq<MessageView>)
    requires
        first_unknown(messages, 0) is None,
    ensures
        turns(messages, messages.len() as int) is Some,
{
    first_unknown_is_first(messages, 0);
    known_roles_have_turns(messages, messages.len() as int);
}

/// The first unknown role comes behind known ones only.
pub proof fn first_unknown_is_first(messages: Seq<MessageView>, from: int)
    requires
        0 <= from,
    ensures
        match first_unknown(messages, from) {
            Some(at) => from <= at < messages.len() && turn(messages, at) is None
                && forall|i: int| from <= i < at ==> turn(messages, i) is Some,
            None => forall|i: int| from <= i < messages.len() ==> turn(messages, i) is Some,
        },
    decreases messages.len() - from,
{
    if from < messages.len() && turn(messages, from) is Some {
        first_unknown_is_first(messages, from + 1);
    }
}

/// The prompt of the messages alone is a prefix of the full prompt: the generation prompt
/// is only ever appended, at the very end. Both fail alike.
pub proof fn generation_prompt_is_a_suffix(
    messages: Seq<MessageView>,
    enable_thinking: bool,
    effort: Seq<char>,
    tools: Seq<Seq<char>>,
)
    ensures
        match (
            prompt(messages, enable_thinking, effort, tools, false),
            prompt(messages, enable_thinking, effort, tools, true),
        ) {
            (Ok(alone), Ok(full)) => full == alone + generation_prompt(enable_thinking),
            (Err(reason), Err(other)) => reason == other,
            _ => false,
        },
{
    if let Ok(alone) = prompt(messages, enable_thinking, effort, tools, false) {
        let rendered = conversation(messages, enable_thinking, effort, tools)->0;
        assert(rendered + Seq::<char>::empty() =~= rendered);
    }
}

/// A message's turn does not depend on what follows, except that the answer of a tool is
/// joined with one that comes right behind it.
proof fn turn_of_a_longer_conversation(messages: Seq<MessageView>, more: Seq<MessageView>, i: int)
    requires
        0 <= i < messages.len(),
        i + 1 < messages.len() || !(is_tool_answer(messages, i) && is_tool_answer(more, 0)),
    ensures
        turn(messages + more, i) == turn(messages, i),
{
    let all = messages + more;
    assert(all[i] == messages[i]);
    assert(is_tool_answer(all, i - 1) == is_tool_answer(messages, i - 1));
    if i + 1 < messages.len() {
        assert(is_tool_answer(all, i + 1) == is_tool_answer(messages, i + 1));
    } else if is_tool_answer(messages, i) {
        assert(!is_tool_answer(messages, i + 1));
        if more.len() > 0 {
            assert(all[i + 1] == more[0]);
        }
        assert(!is_tool_answer(all, i + 1));
    }
}

/// The turns of a conversation stay as they are when it goes on.
pub proof fn turns_of_a_longer_conversation(
    messages: Seq<MessageView>,
    more: Seq<MessageView>,
    n: int,
)
    requires
        0 <= n <= messages.len(),
        !(is_tool_answer(messages, messages.len() - 1) && is_tool_answer(more, 0)),
    ensures
        turns(messages + more, n) == turns(messages, n),
    decreases n,
{
    if n > 0 {
        turns_of_a_longer_conversation(messages, more, n - 1);
        turn_of_a_longer_conversation(messages, more, n - 1);
    }
}

/// More turns only add to the text.
proof fn turns_grow(messages: Seq<MessageView>, n: int, m: int)
    requires
        0 <= n <= m,
        turns(messages, m) is Some,
    ensures
        turns(messages, n) is Some,
        (turns(messages, n)->0).is_prefix_of(turns(messages, m)->0),
    decreases m,
{
    if n < m {
        turns_grow(messages, n, m - 1);
        assert((turns(messages, m - 1)->0).is_prefix_of(turns(messages, m)->0));
    }
}

/// A conversation that goes on only adds to its prompt, which is why the state of the
/// models at the end of the messages can be used again: with the same settings, the
/// prompt of the earlier messages is a prefix of the prompt of all of them. The exception
/// is a tool's answer right behind another one, which joins the turn already closed.
pub proof fn longer_conversation_extends_the_prompt(
    messages: Seq<MessageView>,
    more: Seq<MessageView>,
    enable_thinking: bool,
    effort: Seq<char>,
    tools: Seq<Seq<char>>,
)
    requires
        messages.len() > 0,
        !(is_tool_answer(messages, messages.len() - 1) && is_tool_answer(more, 0)),
        prompt(messages + more, enable_thinking, effort, tools, false) is Ok,
    ensures
        prompt(messages, enable_thinking, effort, tools, false) is Ok,
        (prompt(messages, enable_thinking, effort, tools, false)->Ok_0).is_prefix_of(
            prompt(messages + more, enable_thinking, effort, tools, false)->Ok_0,
        ),
{
    let all = messages + more;
    first_unknown_is_first(all, 0);
    first_unknown_is_first(messages, 0);
    assert forall|i: int| 0 <= i < messages.len() implies turn(messages, i) is Some by {
        turn_of_a_longer_conversation(messages, more, i);
        assert(turn(all, i) is Some);
    }
    assert(first_unknown(messages, 0) is None);
    known_roles_have_turns(all, all.len() as int);
    known_roles_have_turns(messages, messages.len() as int);
    turns_of_a_longer_conversation(messages, more, messages.len() as int);
    turns_grow(all, messages.len() as int, all.len() as int);
    assert(all[0] == messages[0]);
    let head = system_turn(messages, enable_thinking, instructions(effort), tools);
    assert(system_turn(all, enable_thinking, instructions(effort), tools) == head);
    let some = turns(messages, messages.len() as int)->0;
    let every = turns(all, all.len() as int)->0;
    assert(head + some + Seq::<char>::empty() =~= head + some);
    assert(head + every + Seq::<char>::empty() =~= head + every);
    assert((head + some).is_prefix_of(head + every));
}

} // verus!
