//! That nothing that was said is lost on the way into a prompt.

use vstd::prelude::*;

use crate::json;
use crate::json::JsonView;
use crate::text;
use crate::tokenizer::calls::CallView;
use crate::tokenizer::template;
use crate::tokenizer::template::MessageView;

verus! {

/// `part` stands in `whole`, in one piece.
pub open spec fn is_part(part: Seq<char>, whole: Seq<char>) -> bool {
    exists|before: Seq<char>, after: Seq<char>| whole == #[trigger] (before + part + after)
}

/// A part is found where it stands.
pub proof fn part_of(before: Seq<char>, part: Seq<char>, after: Seq<char>)
    ensures
        is_part(part, before + part + after),
{
}

/// A part of a part is a part.
pub proof fn part_of_part(part: Seq<char>, middle: Seq<char>, whole: Seq<char>)
    requires
        is_part(part, middle),
        is_part(middle, whole),
    ensures
        is_part(part, whole),
{
    let (a, b) = choose|a: Seq<char>, b: Seq<char>| middle == #[trigger] (a + part + b);
    let (c, d) = choose|c: Seq<char>, d: Seq<char>| whole == #[trigger] (c + middle + d);
    assert(whole =~= (c + a) + part + (b + d));
}

// ---------------------------------------------------------------------------
// The system turn
// ---------------------------------------------------------------------------

/// What a prompt is besides its system turn and the generation prompt.
pub open spec fn opens_with_system(
    prompt: Seq<char>,
    head: Seq<char>,
    content: Seq<char>,
    rest: Seq<char>,
) -> bool {
    prompt == "<|im_start|>system\n"@ + head + content + "<|im_end|>\n"@ + rest
}

/// Whatever the tools, the effort and the thinking: a prompt opens with a system turn that
/// ends with the trimmed content of the opening system message, where that is not empty.
/// What the turn begins with goes by the tools, the effort and the thinking alone, and what
/// comes behind it by the turns of the messages and the generation prompt alone.
#[verifier::rlimit(40)]
pub proof fn system_content_is_kept(
    messages: Seq<MessageView>,
    other: Seq<MessageView>,
    enable_thinking: bool,
    effort: Seq<char>,
    tools: Seq<Seq<char>>,
    add_generation_prompt: bool,
)
    requires
        template::prompt(messages, enable_thinking, effort, tools, add_generation_prompt) is Ok,
        template::prompt(other, enable_thinking, effort, tools, add_generation_prompt) is Ok,
        messages[0].role == "system"@,
        other[0].role == "system"@,
        text::trim(messages[0].content).len() > 0,
        text::trim(other[0].content).len() > 0,
    ensures
        exists|head: Seq<char>, rest: Seq<char>, other_rest: Seq<char>|
            {
                &&& #[trigger] opens_with_system(
                    template::prompt(
                        messages,
                        enable_thinking,
                        effort,
                        tools,
                        add_generation_prompt,
                    )->Ok_0,
                    head,
                    text::trim(messages[0].content),
                    rest,
                )
                &&& #[trigger] opens_with_system(
                    template::prompt(
                        other,
                        enable_thinking,
                        effort,
                        tools,
                        add_generation_prompt,
                    )->Ok_0,
                    head,
                    text::trim(other[0].content),
                    other_rest,
                )
                &&& messages.skip(1) == other.skip(1) ==> rest == other_rest
                &&& forall|i: int|
                    0 <= i < tools.len() ==> is_part("\n"@ + #[trigger] tools[i], head)
            },
{
    let told = template::instructions(effort);
    let head = system_head(enable_thinking, told, tools);
    let tail = if add_generation_prompt {
        template::generation_prompt(enable_thinking)
    } else {
        Seq::empty()
    };
    all_turns(messages, messages.len() as int);
    all_turns(other, other.len() as int);
    let rest = template::turns(messages, messages.len() as int)->0 + tail;
    let other_rest = template::turns(other, other.len() as int)->0 + tail;
    let prompt = template::prompt(messages, enable_thinking, effort, tools, add_generation_prompt);
    let other_prompt = template::prompt(
        other,
        enable_thinking,
        effort,
        tools,
        add_generation_prompt,
    );
    assert(prompt->Ok_0 =~= "<|im_start|>system\n"@ + head + text::trim(messages[0].content)
        + "<|im_end|>\n"@ + rest);
    assert(other_prompt->Ok_0 =~= "<|im_start|>system\n"@ + head + text::trim(other[0].content)
        + "<|im_end|>\n"@ + other_rest);
    if messages.skip(1) == other.skip(1) {
        assert(messages.len() - 1 == messages.skip(1).len());
        assert(other.len() - 1 == other.skip(1).len());
        assert forall|i: int| 1 <= i < messages.len() implies #[trigger] messages[i]
            == other[i] by {
            assert(messages.skip(1)[i - 1] == messages[i]);
            assert(other.skip(1)[i - 1] == other[i]);
        }
        same_turns(messages, other, messages.len() as int);
    }
    assert forall|i: int| 0 <= i < tools.len() implies is_part(
        "\n"@ + #[trigger] tools[i],
        head,
    ) by {
        tool_is_in_its_line(tools, i);
        part_of(
            template::preamble(told) + template::TOOLS_HEAD@,
            template::tool_lines(tools),
            template::TOOLS_FOOT@ + "\n\n"@,
        );
        assert(head =~= template::preamble(told) + template::TOOLS_HEAD@ + template::tool_lines(
            tools,
        ) + (template::TOOLS_FOOT@ + "\n\n"@));
        part_of_part("\n"@ + tools[i], template::tool_lines(tools), head);
    }
    assert(opens_with_system(prompt->Ok_0, head, text::trim(messages[0].content), rest));
    assert(opens_with_system(other_prompt->Ok_0, head, text::trim(other[0].content), other_rest));
}

/// What a system turn with a content begins with.
spec fn system_head(
    enable_thinking: bool,
    told: Option<Seq<char>>,
    tools: Seq<Seq<char>>,
) -> Seq<char> {
    if tools.len() > 0 {
        template::preamble(told) + template::TOOLS_HEAD@ + template::tool_lines(tools)
            + template::TOOLS_FOOT@ + "\n\n"@
    } else if enable_thinking {
        template::preamble(told)
    } else {
        template::preamble(None)
    }
}

/// The definition of each tool stands on a line of its own.
proof fn tool_is_in_its_line(tools: Seq<Seq<char>>, i: int)
    requires
        0 <= i < tools.len(),
    ensures
        is_part("\n"@ + tools[i], template::tool_lines(tools)),
    decreases tools.len(),
{
    let front = template::tool_lines(tools.drop_last());
    let part = "\n"@ + tools[i];
    if i == tools.len() - 1 {
        assert(template::tool_lines(tools) =~= front + part + Seq::empty());
    } else {
        tool_is_in_its_line(tools.drop_last(), i);
        part_of(Seq::empty(), front, "\n"@ + tools.last());
        assert(template::tool_lines(tools) =~= Seq::empty() + front + ("\n"@ + tools.last()));
        part_of_part(part, front, template::tool_lines(tools));
    }
}

/// With tools, the definition of each is in the prompt, on a line of its own, whatever the
/// messages are.
pub proof fn tools_are_kept(
    messages: Seq<MessageView>,
    enable_thinking: bool,
    effort: Seq<char>,
    tools: Seq<Seq<char>>,
    add_generation_prompt: bool,
    i: int,
)
    requires
        template::prompt(messages, enable_thinking, effort, tools, add_generation_prompt) is Ok,
        0 <= i < tools.len(),
    ensures
        is_part(
            "\n"@ + tools[i],
            template::prompt(
                messages,
                enable_thinking,
                effort,
                tools,
                add_generation_prompt,
            )->Ok_0,
        ),
{
    let told = template::instructions(effort);
    let prompt = template::prompt(
        messages,
        enable_thinking,
        effort,
        tools,
        add_generation_prompt,
    )->Ok_0;
    let lines = template::tool_lines(tools);
    all_turns(messages, messages.len() as int);
    tool_is_in_its_line(tools, i);
    let head = "<|im_start|>system\n"@ + template::preamble(told) + template::TOOLS_HEAD@;
    let after = prompt.skip((head + lines).len() as int);
    assert(prompt =~= head + lines + after);
    part_of_part("\n"@ + tools[i], lines, prompt);
}

// ---------------------------------------------------------------------------
// The turns of the messages
// ---------------------------------------------------------------------------

/// Where every role is known, every message has its turn.
proof fn all_turns(messages: Seq<MessageView>, n: int)
    requires
        template::first_unknown(messages, 0) is None,
        0 <= n <= messages.len(),
    ensures
        template::turns(messages, n) is Some,
        forall|i: int| 0 <= i < n ==> #[trigger] template::turn(messages, i) is Some,
    decreases n,
{
    if n > 0 {
        all_turns(messages, n - 1);
        known_from(messages, 0, n - 1);
    }
}

/// Where no role from `from` on is unknown, that of a later message is known.
proof fn known_from(messages: Seq<MessageView>, from: int, i: int)
    requires
        template::first_unknown(messages, from) is None,
        0 <= from <= i < messages.len(),
    ensures
        template::turn(messages, i) is Some,
    decreases i - from,
{
    if from < i {
        known_from(messages, from + 1, i);
    }
}

/// Two conversations that differ in the content of their system message have the same turns.
proof fn same_turns(messages: Seq<MessageView>, other: Seq<MessageView>, n: int)
    requires
        messages.len() == other.len(),
        0 <= n <= messages.len(),
        messages.len() > 0,
        messages[0].role == "system"@,
        other[0].role == "system"@,
        forall|i: int| 1 <= i < messages.len() ==> #[trigger] messages[i] == other[i],
    ensures
        template::turns(messages, n) == template::turns(other, n),
    decreases n,
{
    if n > 0 {
        same_turns(messages, other, n - 1);
        let i = n - 1;
        assert(messages[i].role == other[i].role);
        assert(template::is_tool_answer(messages, i - 1) == template::is_tool_answer(
            other,
            i - 1,
        ));
        assert(template::is_tool_answer(messages, i + 1) == template::is_tool_answer(
            other,
            i + 1,
        ));
    }
}

/// A text is what is written for a call: its name, and each of its arguments, a text as it
/// is and anything else as JSON.
pub open spec fn tells_call(call: CallView, said: Seq<char>) -> bool {
    exists|inner: Seq<char>|
        {
            &&& said == "<tool_call>\n<function="@ + call.name + ">\n"@ + inner
                + "</function>\n</tool_call>"@
            &&& #[trigger] tells_arguments(call.arguments, inner)
        }
}

/// Each of the arguments is in a text, under its name.
pub open spec fn tells_arguments(arguments: JsonView, said: Seq<char>) -> bool {
    match arguments {
        JsonView::Object(entries) => forall|i: int|
            0 <= i < entries.len() ==> is_part(
                #[trigger] argument_block(entries[i].0, entries[i].1),
                said,
            ),
        _ => said.len() == 0,
    }
}

/// What is written for an argument: a text as it is, anything else as JSON.
pub open spec fn argument_block(key: Seq<char>, value: JsonView) -> Seq<char> {
    "<parameter="@ + key + ">\n"@ + (match value {
        JsonView::Text(text) => text,
        _ => json::json_text(value),
    }) + "\n</parameter>\n"@
}

/// Each of some calls is in a text, one behind the other.
pub open spec fn tells_calls(calls: Seq<CallView>, said: Seq<char>) -> bool
    decreases calls.len(),
{
    if calls.len() == 0 {
        said.len() == 0
    } else {
        exists|front: Seq<char>, gap: Seq<char>, last: Seq<char>|
            {
                &&& said == #[trigger] (front + gap + last)
                &&& tells_calls(calls.drop_last(), front)
                &&& is_gap(gap)
                &&& tells_call(calls.last(), last)
            }
    }
}

/// Calls are set off by line ends, and by nothing else.
pub open spec fn is_gap(gap: Seq<char>) -> bool {
    gap.len() <= 2 && forall|i: int| 0 <= i < gap.len() ==> #[trigger] gap[i] == '\n'
}

/// A text is the turn of a user, of an assistant or of a tool with what its message says:
/// its trimmed content, and of an assistant also its trimmed reasoning, before the content,
/// and its calls, behind it.
pub open spec fn tells(message: MessageView, said: Seq<char>) -> bool {
    let content = text::trim(message.content);
    if message.role == "user"@ {
        said == "<|im_start|>user\n"@ + content + "<|im_end|>\n"@
    } else if message.role == "assistant"@ {
        exists|thought: Seq<char>, called: Seq<char>|
            {
                &&& said == "<|im_start|>assistant\n"@ + thought + content + called
                    + "<|im_end|>\n"@
                &&& #[trigger] tells_reasoning(message.reasoning_content, thought)
                &&& #[trigger] tells_calls(message.tool_calls, called)
            }
    } else {
        &&& message.role == "tool"@
        &&& is_part("\n<tool_response>\n"@ + content + "\n</tool_response>"@, said)
    }
}

/// A text holds some reasoning, trimmed, between the tags of thinking; where there is none,
/// nothing is between them.
pub open spec fn tells_reasoning(reasoning: Option<Seq<char>>, said: Seq<char>) -> bool {
    let thought = match reasoning {
        Some(reasoning) => text::trim(reasoning),
        None => Seq::empty(),
    };
    if thought.len() > 0 {
        said == " thinking\n"@ + thought + "\n response\n\n"@
    } else {
        said.len() == 0 || said == " thinking\n\n response\n\n"@
    }
}

/// What every message says is in its turn, and the turns are in the prompt, in the order of
/// the messages: behind those of the messages before it, and before those of the ones behind
/// it.
#[verifier::rlimit(40)]
pub proof fn every_message_is_in_the_prompt(
    messages: Seq<MessageView>,
    enable_thinking: bool,
    effort: Seq<char>,
    tools: Seq<Seq<char>>,
    add_generation_prompt: bool,
)
    requires
        template::prompt(messages, enable_thinking, effort, tools, add_generation_prompt) is Ok,
    ensures
        exists|opening: Seq<char>, said: Seq<Seq<char>>, closing: Seq<char>|
            {
                &&& template::prompt(
                    messages,
                    enable_thinking,
                    effort,
                    tools,
                    add_generation_prompt,
                )->Ok_0 == #[trigger] (opening + joined(said) + closing)
                &&& said.len() == messages.len()
                &&& forall|i: int|
                    0 <= i < messages.len() && messages[i].role != "system"@ ==> tells(
                        messages[i],
                        #[trigger] said[i],
                    )
                &&& !add_generation_prompt ==> closing.len() == 0
            },
{
    let n = messages.len() as int;
    let told = template::instructions(effort);
    let opening = template::system_turn(messages, enable_thinking, told, tools);
    let closing = if add_generation_prompt {
        template::generation_prompt(enable_thinking)
    } else {
        Seq::empty()
    };
    let said = Seq::new(messages.len(), |i: int| template::turn(messages, i)->0);
    all_turns(messages, n);
    turns_are_joined(messages, said, n);
    assert(said.take(n) =~= said);
    assert forall|i: int| 0 <= i < messages.len() && messages[i].role != "system"@ implies tells(
        messages[i],
        #[trigger] said[i],
    ) by {
        turn_tells(messages, i);
    }
    assert(template::prompt(
        messages,
        enable_thinking,
        effort,
        tools,
        add_generation_prompt,
    )->Ok_0 == opening + joined(said) + closing);
}

/// Texts, one behind the other.
pub open spec fn joined(texts: Seq<Seq<char>>) -> Seq<char>
    decreases texts.len(),
{
    if texts.len() == 0 {
        Seq::empty()
    } else {
        joined(texts.drop_last()) + texts.last()
    }
}

/// The turns of the first messages are theirs, one behind the other.
proof fn turns_are_joined(messages: Seq<MessageView>, said: Seq<Seq<char>>, n: int)
    requires
        0 <= n <= messages.len(),
        said.len() == messages.len(),
        forall|i: int| 0 <= i < n ==> #[trigger] template::turn(messages, i) == Some(said[i]),
    ensures
        template::turns(messages, n) == Some(joined(said.take(n))),
    decreases n,
{
    if n > 0 {
        turns_are_joined(messages, said, n - 1);
        assert(said.take(n).drop_last() =~= said.take(n - 1));
        assert(template::turn(messages, n - 1) == Some(said[n - 1]));
    } else {
        assert(said.take(0) =~= Seq::empty());
    }
}

/// A turn is of what its message says.
proof fn turn_tells(messages: Seq<MessageView>, i: int)
    requires
        0 <= i < messages.len(),
        template::turn(messages, i) is Some,
        messages[i].role != "system"@,
    ensures
        tells(messages[i], template::turn(messages, i)->0),
{
    let message = messages[i];
    let content = text::trim(message.content);
    let said = template::turn(messages, i)->0;
    if message.role == "user"@ {
    } else if message.role == "assistant"@ {
        let thought = template::reasoning_part(message);
        let called = template::call_blocks(content, message.tool_calls);
        calls_are_told(content, message.tool_calls);
        assert(tells_reasoning(message.reasoning_content, thought));
        assert(tells_calls(message.tool_calls, called));
    } else {
        let part = "\n<tool_response>\n"@ + content + "\n</tool_response>"@;
        let before = if template::is_tool_answer(messages, i - 1) {
            Seq::empty()
        } else {
            "<|im_start|>user"@
        };
        let after = if template::is_tool_answer(messages, i + 1) {
            Seq::empty()
        } else {
            "<|im_end|>\n"@
        };
        assert(said =~= before + part + after);
    }
}

/// The calls of a turn are told.
#[verifier::rlimit(40)]
proof fn calls_are_told(content: Seq<char>, calls: Seq<CallView>)
    ensures
        tells_calls(calls, template::call_blocks(content, calls)),
    decreases calls.len(),
{
    if calls.len() > 0 {
        let front = template::call_blocks(content, calls.drop_last());
        let call = calls.last();
        calls_are_told(content, calls.drop_last());
        let opening = "<tool_call>\n<function="@;
        let gap = if calls.len() > 1 {
            seq!['\n']
        } else if content.len() > 0 {
            seq!['\n', '\n']
        } else {
            Seq::empty()
        };
        reveal_strlit("<tool_call>\n<function=");
        reveal_strlit("\n<tool_call>\n<function=");
        reveal_strlit("\n\n<tool_call>\n<function=");
        assert("\n<tool_call>\n<function="@ =~= seq!['\n'] + opening);
        assert("\n\n<tool_call>\n<function="@ =~= seq!['\n', '\n'] + opening);
        let inner = match call.arguments {
            JsonView::Object(entries) => template::parameter_blocks(entries),
            _ => Seq::empty(),
        };
        let last = opening + call.name + ">\n"@ + inner + "</function>\n</tool_call>"@;
        assert(last =~= opening + template::call_text(call));
        match call.arguments {
            JsonView::Object(entries) => {
                assert forall|i: int| 0 <= i < entries.len() implies is_part(
                    #[trigger] argument_block(entries[i].0, entries[i].1),
                    inner,
                ) by {
                    argument_is_told(entries, i);
                }
            },
            _ => {},
        }
        assert(tells_arguments(call.arguments, inner));
        assert(tells_call(call, last));
        assert(is_gap(gap));
        assert(template::call_blocks(content, calls) =~= front + gap + last);
    }
}

/// An argument is told.
proof fn argument_is_told(entries: Seq<(Seq<char>, JsonView)>, i: int)
    requires
        0 <= i < entries.len(),
    ensures
        is_part(
            argument_block(entries[i].0, entries[i].1),
            template::parameter_blocks(entries),
        ),
    decreases entries.len(),
{
    let front = template::parameter_blocks(entries.drop_last());
    let whole = template::parameter_blocks(entries);
    let last = argument_block(entries.last().0, entries.last().1);
    assert(whole =~= front + last + Seq::empty());
    if i < entries.len() - 1 {
        argument_is_told(entries.drop_last(), i);
        assert(whole =~= Seq::empty() + front + last);
        part_of_part(argument_block(entries[i].0, entries[i].1), front, whole);
    }
}

// ---------------------------------------------------------------------------
// Replies
// ---------------------------------------------------------------------------

/// Where an assistant's message is added to a conversation, its prompt goes on by the turn
/// of that message.
#[verifier::rlimit(40)]
proof fn reply_is_added(
    messages: Seq<MessageView>,
    reply: MessageView,
    enable_thinking: bool,
    effort: Seq<char>,
    tools: Seq<Seq<char>>,
)
    requires
        reply.role == "assistant"@,
        template::prompt(messages, enable_thinking, effort, tools, true) is Ok,
    ensures
        ({
            let all = messages.push(reply);
            let longer = template::prompt(all, enable_thinking, effort, tools, false);
            let alone = template::conversation(messages, enable_thinking, effort, tools);
            &&& longer is Ok
            &&& longer->Ok_0 == alone->0 + template::turn(all, messages.len() as int)->0
        }),
{
    let n = messages.len() as int;
    let all = messages.push(reply);
    let more = seq![reply];
    assert(all =~= messages + more);
    roles_differ();
    assert(!template::is_tool_answer(more, 0));
    all_turns(messages, n);
    template::turns_of_a_longer_conversation(messages, more, n);
    template::first_unknown_is_first(all, 0);
    assert forall|i: int| 0 <= i < all.len() implies template::turn(all, i) is Some by {
        if i < n {
            assert(template::turn(messages, i) is Some);
            same_role_known(messages, all, i);
        } else {
            assert(all[n] == reply);
        }
    }
    all_turns(all, n + 1);
    assert(all[0] == messages[0]);
    let told = template::instructions(effort);
    let head = template::system_turn(messages, enable_thinking, told, tools);
    assert(template::system_turn(all, enable_thinking, told, tools) == head);
    let before = template::turns(messages, n)->0;
    let last = template::turn(all, n)->0;
    assert(template::turns(all, n + 1)->0 == before + last);
    assert(head + (before + last) + Seq::<char>::empty() =~= head + before + last);
}

/// Whether a role is known does not depend on the messages around.
proof fn same_role_known(messages: Seq<MessageView>, all: Seq<MessageView>, i: int)
    requires
        0 <= i < messages.len() <= all.len(),
        all[i] == messages[i],
        template::turn(messages, i) is Some,
    ensures
        template::turn(all, i) is Some,
{
}

/// What the model generates, behind the prompt that asks for it, is how the reply stands in
/// the prompt of the conversation that goes on: with thinking, the reasoning, the line that
/// closes it, the content and the calls; without it, the content and the calls.
#[verifier::rlimit(40)]
pub proof fn replies_continue_the_prompt(
    messages: Seq<MessageView>,
    reply: MessageView,
    enable_thinking: bool,
    effort: Seq<char>,
    tools: Seq<Seq<char>>,
)
    requires
        reply.role == "assistant"@,
        template::prompt(messages, enable_thinking, effort, tools, true) is Ok,
        match reply.reasoning_content {
            Some(reasoning) => enable_thinking && text::trim(reasoning).len() > 0,
            None => !enable_thinking && (text::trim(reply.content).len() > 0
                || reply.tool_calls.len() > 0),
        },
    ensures
        template::prompt(messages.push(reply), enable_thinking, effort, tools, false) is Ok,
        exists|called: Seq<char>|
            {
                &&& #[trigger] tells_calls(reply.tool_calls, called)
                &&& template::prompt(
                    messages.push(reply),
                    enable_thinking,
                    effort,
                    tools,
                    false,
                )->Ok_0 == template::prompt(messages, enable_thinking, effort, tools, true)->Ok_0
                    + (match reply.reasoning_content {
                    Some(reasoning) => text::trim(reasoning) + "\n response\n\n"@,
                    None => Seq::empty(),
                }) + text::trim(reply.content) + called + "<|im_end|>\n"@
            },
{
    reply_is_added(messages, reply, enable_thinking, effort, tools);
    let n = messages.len() as int;
    let all = messages.push(reply);
    let content = text::trim(reply.content);
    let called = template::call_blocks(content, reply.tool_calls);
    calls_are_told(content, reply.tool_calls);
    assert(all[n] == reply);
    roles_differ();
    let alone = template::conversation(messages, enable_thinking, effort, tools)->0;
    let asked = template::prompt(messages, enable_thinking, effort, tools, true)->Ok_0;
    let longer = template::prompt(all, enable_thinking, effort, tools, false)->Ok_0;
    match reply.reasoning_content {
        Some(reasoning) => {
            assert(longer =~= asked + (text::trim(reasoning) + "\n response\n\n"@) + content + called
                + "<|im_end|>\n"@);
        },
        None => {
            assert(longer =~= asked + Seq::<char>::empty() + content + called + "<|im_end|>\n"@);
        },
    }
}

// ---------------------------------------------------------------------------
// Answers of tools
// ---------------------------------------------------------------------------

/// What is written for the answer of a tool.
pub open spec fn answer_block(content: Seq<char>) -> Seq<char> {
    "\n<tool_response>\n"@ + text::trim(content) + "\n</tool_response>"@
}

/// The answers of tools that follow one another are one user turn, which they share, in
/// order.
pub proof fn tool_answers_share_a_turn(messages: Seq<MessageView>, from: int, to: int)
    requires
        0 <= from < to <= messages.len(),
        forall|i: int| from <= i < to ==> (#[trigger] messages[i]).role == "tool"@,
        from > 0 ==> messages[from - 1].role != "tool"@,
        to < messages.len() ==> messages[to].role != "tool"@,
        template::turns(messages, from) is Some,
    ensures
        template::turns(messages, to) == Some(
            template::turns(messages, from)->0 + "<|im_start|>user"@ + joined(
                Seq::new(
                    (to - from) as nat,
                    |i: int| answer_block(messages[from + i].content),
                ),
            ) + "<|im_end|>\n"@,
        ),
{
    let answers = Seq::new(
        (to - from) as nat,
        |i: int| answer_block(messages[from + i].content),
    );
    let earlier = template::turns(messages, from)->0;
    answers_so_far(messages, from, to, to, answers);
    assert(answers.take(to - from) =~= answers);
}

/// The answers up to `n`, whose turn is closed behind the last.
#[verifier::rlimit(40)]
proof fn answers_so_far(
    messages: Seq<MessageView>,
    from: int,
    to: int,
    n: int,
    answers: Seq<Seq<char>>,
)
    requires
        0 <= from < n <= to <= messages.len(),
        forall|i: int| from <= i < to ==> (#[trigger] messages[i]).role == "tool"@,
        from > 0 ==> messages[from - 1].role != "tool"@,
        to < messages.len() ==> messages[to].role != "tool"@,
        template::turns(messages, from) is Some,
        answers == Seq::new(
            (to - from) as nat,
            |i: int| answer_block(messages[from + i].content),
        ),
    ensures
        template::turns(messages, n) == Some(
            template::turns(messages, from)->0 + "<|im_start|>user"@ + joined(
                answers.take(n - from),
            ) + (if n == to {
                "<|im_end|>\n"@
            } else {
                Seq::empty()
            }),
        ),
    decreases n,
{
    let i = n - 1;
    assert(messages[i].role == "tool"@);
    let earlier = template::turns(messages, from)->0;
    let front = joined(answers.take(i - from));
    let block = answer_block(messages[i].content);
    let user = "<|im_start|>user"@;
    assert(answers.take(n - from).drop_last() =~= answers.take(i - from));
    assert(answers.take(n - from).last() == block);
    assert(joined(answers.take(n - from)) == front + block);
    assert(template::is_tool_answer(messages, i + 1) == (n < to));
    assert(template::is_tool_answer(messages, i - 1) == (from < i)) by {
        if from < i {
            assert(messages[i - 1].role == "tool"@);
        }
    }
    turn_of_an_answer(messages, i);
    let tail = if n == to {
        "<|im_end|>\n"@
    } else {
        Seq::empty()
    };
    if i > from {
        answers_so_far(messages, from, to, i, answers);
        assert(earlier + user + front + Seq::<char>::empty() + (Seq::<char>::empty() + block + tail)
            =~= earlier + user + (front + block) + tail);
    } else {
        assert(answers.take(0) =~= Seq::empty());
        assert(front =~= Seq::empty());
        assert(earlier + (user + block + tail) =~= earlier + user + (front + block) + tail);
    }
}

/// The turn of a tool's answer.
proof fn turn_of_an_answer(messages: Seq<MessageView>, i: int)
    requires
        0 <= i < messages.len(),
        messages[i].role == "tool"@,
    ensures
        template::turn(messages, i) == Some(
            (if template::is_tool_answer(messages, i - 1) {
                Seq::empty()
            } else {
                "<|im_start|>user"@
            }) + answer_block(messages[i].content) + (if template::is_tool_answer(
                messages,
                i + 1,
            ) {
                Seq::empty()
            } else {
                "<|im_end|>\n"@
            }),
        ),
{
    roles_differ();
    let open = if template::is_tool_answer(messages, i - 1) {
        Seq::empty()
    } else {
        "<|im_start|>user"@
    };
    let close = if template::is_tool_answer(messages, i + 1) {
        Seq::empty()
    } else {
        "<|im_end|>\n"@
    };
    let content = text::trim(messages[i].content);
    assert(open + "\n<tool_response>\n"@ + content + "\n</tool_response>"@ + close =~= open + (
    "\n<tool_response>\n"@ + content + "\n</tool_response>"@) + close);
}

/// No two roles are the same.
proof fn roles_differ()
    ensures
        "assistant"@ != "system"@,
        "assistant"@ != "user"@,
        "assistant"@ != "tool"@,
        "tool"@ != "system"@,
        "tool"@ != "user"@,
{
    reveal_strlit("assistant");
    reveal_strlit("system");
    reveal_strlit("user");
    reveal_strlit("tool");
    assert("assistant"@[0] == 'a' && "system"@[0] == 's' && "user"@[0] == 'u' && "tool"@[0]
        == 't');
}

// ---------------------------------------------------------------------------
// Instructions
// ---------------------------------------------------------------------------

/// With thinking or with tools, a prompt opens with the instructions for its reasoning
/// effort, where that has some, whatever the messages are.
pub proof fn instructions_open_the_prompt(
    messages: Seq<MessageView>,
    enable_thinking: bool,
    effort: Seq<char>,
    tools: Seq<Seq<char>>,
    add_generation_prompt: bool,
    told: Seq<char>,
)
    requires
        template::prompt(messages, enable_thinking, effort, tools, add_generation_prompt) is Ok,
        enable_thinking || tools.len() > 0,
        template::instructions(effort) == Some(told),
    ensures
        ("<|im_start|>system\n"@ + told).is_prefix_of(
            template::prompt(
                messages,
                enable_thinking,
                effort,
                tools,
                add_generation_prompt,
            )->Ok_0,
        ),
{
    all_turns(messages, messages.len() as int);
    let head = "<|im_start|>system\n"@ + told;
    let turn = template::system_turn(messages, enable_thinking, Some(told), tools);
    assert(head.is_prefix_of(turn)) by {
        assert(turn.take(head.len() as int) =~= head);
    }
    let prompt = template::prompt(
        messages,
        enable_thinking,
        effort,
        tools,
        add_generation_prompt,
    )->Ok_0;
    assert(prompt.take(head.len() as int) =~= turn.take(head.len() as int));
    assert(prompt.take(head.len() as int) =~= head);
}

/// Without thinking and without tools the reasoning effort has no say in a prompt.
pub proof fn effort_has_no_say_without_thinking(
    messages: Seq<MessageView>,
    effort: Seq<char>,
    other: Seq<char>,
    add_generation_prompt: bool,
)
    requires
        template::is_effort(effort),
        template::is_effort(other),
    ensures
        template::prompt(messages, false, effort, Seq::empty(), add_generation_prompt)
            == template::prompt(messages, false, other, Seq::empty(), add_generation_prompt),
{
}

/// With tools, thinking has no say in the part of a prompt that the messages make up.
pub proof fn thinking_has_no_say_with_tools(
    messages: Seq<MessageView>,
    effort: Seq<char>,
    tools: Seq<Seq<char>>,
)
    requires
        tools.len() > 0,
    ensures
        template::prompt(messages, true, effort, tools, false) == template::prompt(
            messages,
            false,
            effort,
            tools,
            false,
        ),
{
}

/// An effort that has no instructions is `medium`.
pub proof fn only_one_effort_is_not_told(effort: Seq<char>)
    requires
        template::is_effort(effort),
    ensures
        template::instructions(effort) is None <==> effort == "medium"@,
{
    reveal_strlit("medium");
    reveal_strlit("low");
    reveal_strlit("xhigh");
    assert("medium"@[0] == 'm' && "low"@[0] == 'l' && "xhigh"@[0] == 'x');
}

} // verus!
