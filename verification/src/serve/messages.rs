//! What becomes of what is said: nothing of a client's message is lost, and a response that
//! comes back as history is the message that was generated.

use vstd::prelude::*;

use crate::json;
use crate::json::JsonView;
use crate::serve::api;
use crate::serve::api::{
    ChatCompletionResponse, ChunkDelta, ClientToolCall, OpenAiMessage, ResponseMessage,
    ResponseToolCall,
};
use crate::serve::chat;
use crate::serve::chat::CompletionFacts;
use crate::serve::stream;
use crate::text;
use crate::tokenizer;
use crate::tokenizer::calls;
use crate::tokenizer::calls::CallView;
use crate::tokenizer::laws;
use crate::tokenizer::said;
use crate::tokenizer::template;
use crate::tokenizer::template::MessageView;

verus! {

/// Where a client's content is a text, the message's content is that text, whatever else is
/// in the message.
pub proof fn text_is_kept(message: OpenAiMessage, text: Seq<char>)
    requires
        json::json_view(message.content) == JsonView::Text(text),
    ensures
        api::chat_message(message).content == text,
{
}

/// Where a client's content is an array, the message's content is the texts of its parts, in
/// order: the content of an array of one part is the part's text, and the content of two
/// arrays put together is the content of the first followed by that of the second, whatever
/// else is in the messages.
pub proof fn parts_are_kept(
    message: OpenAiMessage,
    front: OpenAiMessage,
    back: OpenAiMessage,
    a: Seq<JsonView>,
    b: Seq<JsonView>,
)
    requires
        json::json_view(front.content) == JsonView::Array(a),
        json::json_view(back.content) == JsonView::Array(b),
        json::json_view(message.content) == JsonView::Array(a + b),
    ensures
        api::chat_message(message).content == api::chat_message(front).content
            + api::chat_message(back).content,
{
    parts_of_both(a, b);
}

/// The content of an array of one part is the text under `text`, or nothing where the part
/// has none.
pub proof fn one_part_is_kept(message: OpenAiMessage, part: JsonView)
    requires
        json::json_view(message.content) == JsonView::Array(seq![part]),
    ensures
        match part {
            JsonView::Object(entries) => match json::json_lookup(entries, "text"@) {
                Some(JsonView::Text(text)) => api::chat_message(message).content == text,
                _ => api::chat_message(message).content.len() == 0,
            },
            _ => api::chat_message(message).content.len() == 0,
        },
{
    reveal_with_fuel(api::parts_text, 2);
    assert(seq![part].drop_last() =~= Seq::empty());
    if let JsonView::Object(entries) = part {
        if let Some(JsonView::Text(text)) = json::json_lookup(entries, "text"@) {
            assert(Seq::<char>::empty() + text =~= text);
        }
    }
}

/// An array of no parts has no content, and neither has anything that is no text and no
/// array.
pub proof fn no_text_is_no_content(message: OpenAiMessage)
    requires
        match json::json_view(message.content) {
            JsonView::Text(_) => false,
            JsonView::Array(parts) => parts.len() == 0,
            _ => true,
        },
    ensures
        api::chat_message(message).content.len() == 0,
{
}

/// The texts of two lists of parts put together.
proof fn parts_of_both(a: Seq<JsonView>, b: Seq<JsonView>)
    ensures
        api::parts_text(a + b) == api::parts_text(a) + api::parts_text(b),
    decreases b.len(),
{
    if b.len() == 0 {
        assert(a + b =~= a);
        assert(api::parts_text(a) + api::parts_text(b) =~= api::parts_text(a));
    } else {
        parts_of_both(a, b.drop_last());
        assert((a + b).drop_last() =~= a + b.drop_last());
        assert(api::parts_text(a + b) =~= api::parts_text(a) + api::parts_text(b));
    }
}

/// The content of a message goes by what the client sent as its content and by nothing else:
/// not by its role, its tool calls or its reasoning. Neither do its role, its calls or its
/// reasoning go by the other fields.
pub proof fn fields_are_kept_apart(a: OpenAiMessage, b: OpenAiMessage)
    ensures
        json::json_view(a.content) == json::json_view(b.content) ==> api::chat_message(a).content
            == api::chat_message(b).content,
        a.role@ == b.role@ <==> api::chat_message(a).role == api::chat_message(b).role,
        template::text_view(a.reasoning_content) == template::text_view(b.reasoning_content)
            <==> api::chat_message(a).reasoning_content == api::chat_message(b).reasoning_content,
        a.tool_calls == b.tool_calls ==> api::chat_message(a).tool_calls == api::chat_message(
            b,
        ).tool_calls,
{
}

/// The role and the reasoning are what the client sent, and there is one call for each that
/// it sent, of the same name: its arguments are the value that their text is JSON for, and
/// else the text.
pub proof fn calls_are_kept(message: OpenAiMessage, i: int)
    requires
        message.tool_calls is Some,
        0 <= i < message.tool_calls->0@.len(),
    ensures
        ({
            let sent = message.tool_calls->0@[i].function;
            let said = api::chat_message(message);
            &&& said.role == message.role@
            &&& said.reasoning_content == template::text_view(message.reasoning_content)
            &&& said.tool_calls.len() == message.tool_calls->0@.len()
            &&& said.tool_calls[i].name == sent.name@
            &&& forall|value: JsonView| #[trigger]
                json::json_parse(sent.arguments@) == Some(value) ==> said.tool_calls[i].arguments
                    == value
            &&& json::json_parse(sent.arguments@) is None ==> said.tool_calls[i].arguments
                == JsonView::Text(sent.arguments@)
        }),
{
}

// ---------------------------------------------------------------------------
// Responses as history
// ---------------------------------------------------------------------------

/// A client repeats the calls of a response.
pub open spec fn repeats_calls(sent: Seq<ClientToolCall>, got: Seq<ResponseToolCall>) -> bool {
    &&& sent.len() == got.len()
    &&& forall|i: int|
        0 <= i < sent.len() ==> {
            &&& (#[trigger] sent[i]).function.name@ == got[i].function.name@
            &&& sent[i].function.arguments@ == got[i].function.arguments@
        }
}

/// A client sends the message of a response back, as it got it.
pub open spec fn repeats(sent: OpenAiMessage, got: ResponseMessage) -> bool {
    &&& sent.role@ == got.role@
    &&& json::json_view(sent.content) == JsonView::Text(got.content@)
    &&& template::text_view(sent.reasoning_content) == template::text_view(got.reasoning_content)
    &&& match (sent.tool_calls, got.tool_calls) {
        (Some(sent), Some(got)) => repeats_calls(sent@, got@),
        (None, None) => true,
        _ => false,
    }
}

/// The JSON text of the arguments of some calls is read as those arguments.
pub open spec fn arguments_are_read(called: Seq<CallView>) -> bool {
    forall|i: int|
        0 <= i < called.len() ==> json::json_parse(
            json::json_text((#[trigger] called[i]).arguments),
        ) == Some(called[i].arguments)
}

/// A response that is sent back as history is the message that was generated: its content,
/// its reasoning and its calls, in order.
pub proof fn responses_come_back(
    response: ChatCompletionResponse,
    facts: CompletionFacts,
    text: Seq<char>,
    sent: OpenAiMessage,
)
    requires
        chat::is_response(response, facts, text),
        repeats(sent, response.choices@[0].message),
        arguments_are_read(calls::calls_in(tokenizer::answer_of(text, facts.enable_thinking))),
    ensures
        ({
            let reasoning = tokenizer::reasoning_of(text, facts.enable_thinking);
            let answer = tokenizer::answer_of(text, facts.enable_thinking);
            let said = api::chat_message(sent);
            &&& said.role == "assistant"@
            &&& said.content == calls::content_of(answer)
            &&& said.reasoning_content == (if reasoning.len() > 0 {
                Some(reasoning)
            } else {
                None
            })
            &&& said.tool_calls == calls::calls_in(answer)
        }),
{
    let answer = tokenizer::answer_of(text, facts.enable_thinking);
    let called = calls::calls_in(answer);
    let said = api::chat_message(sent);
    let message = response.choices@[0].message;
    match (sent.tool_calls, message.tool_calls) {
        (Some(sent), Some(got)) => {
            assert forall|i: int| 0 <= i < called.len() implies said.tool_calls[i]
                == #[trigger] called[i] by {
                assert(api::is_response_call(got@[i], called[i], i));
                assert(sent@[i].function.arguments@ == got@[i].function.arguments@);
            }
            assert(said.tool_calls =~= called);
        },
        _ => {
            assert(said.tool_calls =~= called);
        },
    }
}

/// Without thinking, what was generated comes back as it is where it holds no call; with
/// calls, the calls come back, and the text before them.
pub proof fn plain_responses_come_back(
    response: ChatCompletionResponse,
    facts: CompletionFacts,
    text: Seq<char>,
    sent: OpenAiMessage,
)
    requires
        chat::is_response(response, facts, text),
        repeats(sent, response.choices@[0].message),
        !facts.enable_thinking,
        calls::calls_in(text).len() == 0,
    ensures
        api::chat_message(sent) == (MessageView {
            role: "assistant"@,
            content: text,
            reasoning_content: None,
            tool_calls: Seq::empty(),
            name: None,
        }),
{
    responses_come_back(response, facts, text, sent);
    assert(calls::calls_in(text) =~= Seq::empty());
}

/// A stream ends as the whole response to the same text does: with the same calls, under
/// the same ids, and for the same reason.
pub proof fn streams_end_as_responses_do(
    last: (ChunkDelta, &'static str),
    response: ChatCompletionResponse,
    facts: CompletionFacts,
    text: Seq<char>,
)
    requires
        chat::is_response(response, facts, text),
        stream::is_last(
            last,
            text,
            facts.enable_thinking,
            facts.completion_tokens as nat,
            facts.max_tokens as nat,
        ),
    ensures
        last.1@ == response.choices@[0].finish_reason@,
        last.0.role is None,
        last.0.content is None,
        last.0.reasoning_content is None,
        match (last.0.tool_calls, response.choices@[0].message.tool_calls) {
            (Some(sent), Some(whole)) => same_calls(sent@, whole@),
            (None, None) => true,
            _ => false,
        },
{
    match (last.0.tool_calls, response.choices@[0].message.tool_calls) {
        (Some(sent), Some(whole)) => {
            let called = calls::calls_in(tokenizer::answer_of(text, facts.enable_thinking));
            assert forall|i: int| 0 <= i < sent@.len() implies is_same_call(
                #[trigger] sent@[i],
                whole@[i],
            ) by {
                assert(api::is_response_call(sent@[i], called[i], i));
                assert(api::is_response_call(whole@[i], called[i], i));
            }
        },
        _ => {},
    }
}

/// Two entries for calls say the same.
pub open spec fn is_same_call(a: ResponseToolCall, b: ResponseToolCall) -> bool {
    &&& a.id@ == b.id@
    &&& a.kind@ == b.kind@
    &&& a.function.name@ == b.function.name@
    &&& a.function.arguments@ == b.function.arguments@
}

/// Two lists of entries for calls say the same.
pub open spec fn same_calls(a: Seq<ResponseToolCall>, b: Seq<ResponseToolCall>) -> bool {
    a.len() == b.len() && forall|i: int| 0 <= i < a.len() ==> is_same_call(#[trigger] a[i], b[i])
}

/// Where a response has calls, it ended for them; and only then.
pub proof fn responses_with_calls_end_for_them(
    response: ChatCompletionResponse,
    facts: CompletionFacts,
    text: Seq<char>,
)
    requires
        chat::is_response(response, facts, text),
    ensures
        response.choices@[0].message.tool_calls is Some <==> response.choices@[0].finish_reason@
            == "tool_calls"@,
        response.choices@[0].finish_reason@ == "length"@ ==> facts.completion_tokens
            >= facts.max_tokens,
        response.choices@[0].finish_reason@ == "stop"@ ==> facts.completion_tokens
            < facts.max_tokens,
{
    reveal_strlit("tool_calls");
    reveal_strlit("length");
    reveal_strlit("stop");
    assert("tool_calls"@[0] == 't' && "length"@[0] == 'l' && "stop"@[0] == 's');
}

/// Without thinking, what was generated behind a prompt stands behind it in the prompt of
/// the conversation that goes on, and its turn is closed there: the state of the models can
/// be used again. The text is trimmed, not empty, and holds no call.
#[verifier::rlimit(40)]
pub proof fn plain_replies_continue_the_prompt(
    messages: Seq<MessageView>,
    effort: Seq<char>,
    tools: Seq<Seq<char>>,
    response: ChatCompletionResponse,
    facts: CompletionFacts,
    text: Seq<char>,
    sent: OpenAiMessage,
)
    requires
        template::prompt(messages, false, effort, tools, true) is Ok,
        chat::is_response(response, facts, text),
        repeats(sent, response.choices@[0].message),
        !facts.enable_thinking,
        calls::calls_in(text).len() == 0,
        text::trim(text) == text,
        text.len() > 0,
    ensures
        template::prompt(
            messages.push(api::chat_message(sent)),
            false,
            effort,
            tools,
            false,
        ) == Ok::<Seq<char>, Seq<char>>(
            template::prompt(messages, false, effort, tools, true)->Ok_0 + text + "<|im_end|>\n"@,
        ),
{
    plain_responses_come_back(response, facts, text, sent);
    let reply = api::chat_message(sent);
    let asked = template::prompt(messages, false, effort, tools, true)->Ok_0;
    said::replies_continue_the_prompt(messages, reply, false, effort, tools);
    let longer = template::prompt(messages.push(reply), false, effort, tools, false)->Ok_0;
    let called = choose|called: Seq<char>|
        #[trigger] said::tells_calls(reply.tool_calls, called) && longer == asked + Seq::<
            char,
        >::empty() + text + called + "<|im_end|>\n"@;
    assert(longer =~= asked + text + "<|im_end|>\n"@);
}

/// With thinking the same holds of a text that is reasoning, the line that closes it, and an
/// answer: both are trimmed and neither is empty, no line in the reasoning closes it, the
/// other closing tag is in neither, and there is no call in the answer.
#[verifier::rlimit(40)]
pub proof fn thoughtful_replies_continue_the_prompt(
    messages: Seq<MessageView>,
    effort: Seq<char>,
    tools: Seq<Seq<char>>,
    response: ChatCompletionResponse,
    facts: CompletionFacts,
    reasoning: Seq<char>,
    answer: Seq<char>,
    sent: OpenAiMessage,
)
    requires
        template::prompt(messages, true, effort, tools, true) is Ok,
        chat::is_response(response, facts, reasoning + "\n response\n\n"@ + answer),
        repeats(sent, response.choices@[0].message),
        facts.enable_thinking,
        text::trim(reasoning) == reasoning,
        text::trim(answer) == answer,
        reasoning.len() > 0,
        answer.len() > 0,
        text::find_line(reasoning, " response"@) is None,
        laws::is_free_of(reasoning + "\n response\n\n"@ + answer, "</think>"@),
        calls::calls_in(answer).len() == 0,
    ensures
        template::prompt(
            messages.push(api::chat_message(sent)),
            true,
            effort,
            tools,
            false,
        ) == Ok::<Seq<char>, Seq<char>>(
            template::prompt(messages, true, effort, tools, true)->Ok_0 + (reasoning
                + "\n response\n\n"@ + answer) + "<|im_end|>\n"@,
        ),
{
    let whole = reasoning + "\n response\n\n"@ + answer;
    text::trimming_cuts_white_space(answer);
    assert(answer[0] != '\n') by {
        assert(text::is_white('\n'));
    }
    laws::thinking_is_split(reasoning, answer);
    responses_come_back(response, facts, whole, sent);
    let reply = api::chat_message(sent);
    assert(reply.tool_calls =~= Seq::empty());
    let asked = template::prompt(messages, true, effort, tools, true)->Ok_0;
    said::replies_continue_the_prompt(messages, reply, true, effort, tools);
    let longer = template::prompt(messages.push(reply), true, effort, tools, false)->Ok_0;
    let called = choose|called: Seq<char>|
        #[trigger] said::tells_calls(reply.tool_calls, called) && longer == asked + (reasoning
            + "\n response\n\n"@) + answer + called + "<|im_end|>\n"@;
    assert(longer =~= asked + whole + "<|im_end|>\n"@);
}

} // verus!
