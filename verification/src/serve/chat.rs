//! A chat completion request: its settings, its prompt and its response.

use vstd::prelude::*;
use vstd::string::*;
use vstd::utf8::*;

use crate::json;
use crate::json::JsonView;
use crate::serve::api;
use crate::serve::api::{
    tool_calls_to_response, ChatCompletionResponse, Choice, ResponseMessage, Usage,
};
use crate::text;
use crate::text::{chars_of, hex_of, string_of, trim_range};
use crate::tokenizer;
use crate::tokenizer::calls;
use crate::tokenizer::calls::split_tool_calls;
use crate::tokenizer::template;
use crate::tokenizer::template::{ChatMessage, MessageView};
use crate::tokenizer::{split_thinking, ChatTokenizer};

verus! {

/// How many tokens are generated where a request does not say.
pub const DEFAULT_MAX_TOKENS: usize = 4096;

/// How many tokens are generated at most.
pub const MAX_TOKENS: usize = 8192;

/// How many tokens a request asks for.
pub open spec fn limit(max_tokens: Option<usize>, max_completion_tokens: Option<usize>) -> usize {
    let asked = match (max_tokens, max_completion_tokens) {
        (Some(asked), _) => asked,
        (None, Some(asked)) => asked,
        (None, None) => DEFAULT_MAX_TOKENS,
    };
    if asked <= MAX_TOKENS {
        asked
    } else {
        MAX_TOKENS
    }
}

/// How many tokens a request asks for, under either name, within what is served.
pub fn token_limit(max_tokens: Option<usize>, max_completion_tokens: Option<usize>) -> (count:
    usize)
    ensures
        count == limit(max_tokens, max_completion_tokens),
{
    let asked: usize = match max_tokens {
        Some(asked) => asked,
        None => match max_completion_tokens {
            Some(asked) => asked,
            None => DEFAULT_MAX_TOKENS,
        },
    };
    if asked <= MAX_TOKENS {
        asked
    } else {
        MAX_TOKENS
    }
}

/// Whether the model is to think: as the request says, and else where it has no tools.
pub fn thinking_enabled(asked: Option<bool>, tools: &[String]) -> (enabled: bool)
    ensures
        enabled == (match asked {
            Some(asked) => asked,
            None => tools@.len() == 0,
        }),
{
    match asked {
        Some(asked) => asked,
        None => tools.len() == 0,
    }
}

/// A request's prompt, and its messages alone, as tokens.
pub struct PromptIds {
    pub full_ids: Vec<u32>,
    pub msg_ids: Vec<u32>,
}

/// The prompt of a request, with or without the generation prompt.
pub open spec fn request_prompt(
    messages: Seq<ChatMessage>,
    enable_thinking: bool,
    effort: Option<&str>,
    tools: Seq<String>,
    whole: bool,
) -> Result<Seq<char>, Seq<char>> {
    template::prompt(
        template::message_views(messages),
        enable_thinking,
        template::effort_or_default(effort),
        text::texts(tools),
        whole,
    )
}

/// A text has tokens.
pub open spec fn encodes(tokenizer: tokenizers::Tokenizer, text: Seq<char>) -> bool {
    exists|ids: Seq<u32>| #[trigger] tokenizer::encodes_as(tokenizer, text, Ok(ids))
}

/// A text has no tokens, for the reason that a message gives.
pub open spec fn fails_to_encode(
    tokenizer: tokenizers::Tokenizer,
    text: Seq<char>,
    message: Seq<char>,
) -> bool {
    exists|reason: Seq<char>| #[trigger]
        tokenizer::encodes_as(tokenizer, text, Err(reason)) && message == "tokenize failed: "@
            + reason
}

/// Tokenizes a request's prompt: the whole of it, and the messages alone, which are the
/// part of it that the next request can use again.
pub fn tokenize_request(
    tokenizer: &ChatTokenizer,
    messages: &[ChatMessage],
    enable_thinking: bool,
    reasoning_effort: Option<&str>,
    tools: &[String],
) -> (ids: Result<PromptIds, String>)
    ensures
        match (
            ids,
            request_prompt(messages@, enable_thinking, reasoning_effort, tools@, true),
            request_prompt(messages@, enable_thinking, reasoning_effort, tools@, false),
        ) {
            (Ok(ids), Ok(full), Ok(alone)) => {
                &&& tokenizer::encodes_as(tokenizer.tokenizer(), full, Ok(ids.full_ids@))
                &&& tokenizer::encodes_as(tokenizer.tokenizer(), alone, Ok(ids.msg_ids@))
                &&& full == alone + template::generation_prompt(enable_thinking)
            },
            (Err(message), Ok(full), Ok(alone)) => {
                ||| fails_to_encode(tokenizer.tokenizer(), full, message@)
                ||| encodes(tokenizer.tokenizer(), full) && fails_to_encode(
                    tokenizer.tokenizer(),
                    alone,
                    message@,
                )
            },
            (Err(message), Err(reason), Err(_)) => message@ == reason,
            _ => false,
        },
{
    proof {
        template::generation_prompt_is_a_suffix(
            template::message_views(messages@),
            enable_thinking,
            template::effort_or_default(reasoning_effort),
            text::texts(tools@),
        );
    }
    let full = match tokenizer.apply_chat_template(
        messages,
        enable_thinking,
        reasoning_effort,
        tools,
        true,
    ) {
        Ok(full) => full,
        Err(message) => {
            return Err(message);
        },
    };
    let alone = match tokenizer.apply_chat_template(
        messages,
        enable_thinking,
        reasoning_effort,
        tools,
        false,
    ) {
        Ok(alone) => alone,
        Err(message) => {
            return Err(message);
        },
    };
    let full_ids = match tokenizer.encode(full.as_str()) {
        Ok(ids) => ids,
        Err(message) => {
            return Err(message);
        },
    };
    let msg_ids = match tokenizer.encode(alone.as_str()) {
        Ok(ids) => ids,
        Err(message) => {
            return Err(message);
        },
    };
    Ok(PromptIds { full_ids, msg_ids })
}

/// Why a generation of `generated` tokens, of at most `max_tokens`, ended.
pub open spec fn reason_to_finish(calls: nat, generated: nat, max_tokens: nat) -> Seq<char> {
    if calls > 0 {
        "tool_calls"@
    } else if generated < max_tokens {
        "stop"@
    } else {
        "length"@
    }
}

/// Why a generation ended: it called tools, it stopped by itself, or it was cut off.
pub fn finish_reason(calls: usize, generated: usize, max_tokens: usize) -> (reason: &'static str)
    ensures
        reason@ == reason_to_finish(calls as nat, generated as nat, max_tokens as nat),
{
    if calls > 0 {
        "tool_calls"
    } else if generated < max_tokens {
        "stop"
    } else {
        "length"
    }
}

/// What a completion is made of, besides the generated text.
pub struct CompletionFacts {
    pub id: String,
    pub created: u64,
    pub model: String,
    pub prompt_tokens: usize,
    pub completion_tokens: usize,
    pub max_tokens: usize,
    pub enable_thinking: bool,
}

/// `response` says what was generated as `text`.
pub open spec fn is_response(
    response: ChatCompletionResponse,
    facts: CompletionFacts,
    text: Seq<char>,
) -> bool {
    let reasoning = tokenizer::reasoning_of(text, facts.enable_thinking);
    let answer = tokenizer::answer_of(text, facts.enable_thinking);
    let called = calls::calls_in(answer);
    let choice = response.choices@[0];
    &&& response.id@ == facts.id@
    &&& response.object@ == "chat.completion"@
    &&& response.created == facts.created
    &&& response.model@ == facts.model@
    &&& response.choices@.len() == 1
    &&& choice.index == 0
    &&& choice.message.role@ == "assistant"@
    &&& choice.message.content@ == calls::content_of(answer)
    &&& template::text_view(choice.message.reasoning_content) == (if reasoning.len() > 0 {
        Some(reasoning)
    } else {
        None
    })
    &&& match choice.message.tool_calls {
        Some(out) => called.len() > 0 && api::are_response_calls(out@, called),
        None => called.len() == 0,
    }
    &&& choice.finish_reason@ == reason_to_finish(
        called.len(),
        facts.completion_tokens as nat,
        facts.max_tokens as nat,
    )
    &&& response.usage.prompt_tokens == facts.prompt_tokens
    &&& response.usage.completion_tokens == facts.completion_tokens
    &&& response.usage.total_tokens == facts.prompt_tokens + facts.completion_tokens
}

/// The response to a request for which `text` was generated.
pub fn chat_response(facts: CompletionFacts, text: &str) -> (response: ChatCompletionResponse)
    requires
        facts.prompt_tokens + facts.completion_tokens <= usize::MAX,
    ensures
        is_response(response, facts, text@),
{
    let (reasoning, answer): (String, String) = split_thinking(text, facts.enable_thinking);
    let split = split_tool_calls(reasoning, answer);
    let reasoning = split.0;
    let content = split.1;
    let called = split.2;
    assert(calls::call_views(called@).len() == called@.len());
    let reason = finish_reason(called.len(), facts.completion_tokens, facts.max_tokens);
    let message = ResponseMessage {
        role: "assistant",
        content,
        reasoning_content: if reasoning.as_str().is_empty() {
            None
        } else {
            Some(reasoning)
        },
        tool_calls: if called.len() == 0 {
            None
        } else {
            Some(tool_calls_to_response(&called))
        },
    };
    let mut choices: Vec<Choice> = Vec::new();
    choices.push(Choice { index: 0, message, finish_reason: reason.to_owned() });
    ChatCompletionResponse {
        id: facts.id,
        object: "chat.completion",
        created: facts.created,
        model: facts.model,
        choices,
        usage: Usage {
            prompt_tokens: facts.prompt_tokens,
            completion_tokens: facts.completion_tokens,
            total_tokens: facts.prompt_tokens + facts.completion_tokens,
        },
    }
}

/// The response to a request for which `tokens` were generated; a failure to turn them
/// into text fails the request.
pub fn chat_completion(tokenizer: &ChatTokenizer, facts: CompletionFacts, tokens: &[u32]) -> (
    response: Result<ChatCompletionResponse, String>)
    requires
        facts.prompt_tokens + facts.completion_tokens <= usize::MAX,
    ensures
        match (response, tokenizer::decoded(tokenizer.tokenizer(), tokens@)) {
            (Ok(response), Ok(text)) => is_response(response, facts, text),
            (Err(message), Err(reason)) => message@ == "detokenize failed: "@ + reason,
            _ => false,
        },
{
    match tokenizer.decode(tokens) {
        Ok(text) => Ok(chat_response(facts, text.as_str())),
        Err(message) => Err(message),
    }
}

/// An object with one entry.
pub open spec fn singleton(key: Seq<char>, value: JsonView) -> JsonView {
    JsonView::Object(seq![(key, value)])
}

/// An object with one entry.
fn object_with(key: &str, value: serde_json::Value) -> (object: serde_json::Value)
    ensures
        json::json_view(object) == singleton(key@, json::json_view(value)),
{
    let mut map = json::new_map();
    json::insert(&mut map, key.to_owned(), value);
    json::object(map)
}

/// The body of the response to a request that failed.
pub fn error_body(message: &str) -> (body: serde_json::Value)
    ensures
        json::json_view(body) == singleton(
            "error"@,
            JsonView::Object(
                json::json_insert(
                    seq![("message"@, JsonView::Text(message@))],
                    "type"@,
                    JsonView::Text("server_error"@),
                ),
            ),
        ),
{
    let mut map = json::new_map();
    json::insert(&mut map, "message".to_owned(), json::string(message.to_owned()));
    json::insert(&mut map, "type".to_owned(), json::string("server_error".to_owned()));
    object_with("error", json::object(map))
}

/// What is sent down a stream whose generation failed.
pub fn stream_error(message: &str) -> (data: String)
    ensures
        data@ == json::json_text(
            singleton("error"@, singleton("message"@, JsonView::Text(message@))),
        ),
{
    let reason = json::string(message.to_owned());
    let body = object_with("error", object_with("message", reason));
    json::text_of(&body)
}

// ---------------------------------------------------------------------------
// Telemetry
// ---------------------------------------------------------------------------

/// Where the line ends that goes on at `i`.
pub open spec fn line_end(text: Seq<char>, i: int) -> int
    decreases text.len() - i,
{
    if i >= text.len() || text[i] == '\n' {
        i
    } else {
        line_end(text, i + 1)
    }
}

/// The first line of a text that has anything on it, without the space around it.
pub open spec fn content_line(text: Seq<char>) -> Seq<char> {
    let content = text::trim(text);
    text::trim(content.take(line_end(content, 0)))
}

/// The first content line of a text, with a mark where it was cut.
pub open spec fn preview_of(text: Seq<char>, max_len: nat) -> Seq<char> {
    let line = content_line(text);
    if line.len() > max_len {
        line.take(max_len as int) + "\u{2026}"@
    } else {
        line
    }
}

/// Previews a text for display: its first content line, cut to `max_len` characters.
pub fn preview(text: &str, max_len: usize) -> (line: String)
    ensures
        line@ == preview_of(text@, max_len as nat),
{
    let chars = chars_of(text);
    let content: (usize, usize) = trim_range(&chars, 0, chars.len());
    assert(chars@.subrange(0, chars@.len() as int) =~= chars@);
    let ghost seen = text::trim(text@);
    let mut end: usize = content.0;
    while end < content.1 && chars[end] != '\n'
        invariant
            content.0 <= end <= content.1 <= chars@.len(),
            seen == chars@.subrange(content.0 as int, content.1 as int),
            line_end(seen, end - content.0) == line_end(seen, 0),
        decreases content.1 - end,
    {
        assert(seen[end - content.0] == chars@[end as int]);
        end += 1;
    }
    proof {
        if end < content.1 {
            assert(seen[end - content.0] == chars@[end as int]);
        }
        assert(chars@.subrange(content.0 as int, end as int) =~= seen.take(line_end(seen, 0)));
    }
    let range: (usize, usize) = trim_range(&chars, content.0, end);
    let ghost whole = content_line(text@);
    if range.1 - range.0 > max_len {
        let mut line = string_of(&chars, range.0, range.0 + max_len);
        assert(line@ =~= whole.take(max_len as int));
        line.append("\u{2026}");
        line
    } else {
        string_of(&chars, range.0, range.1)
    }
}

/// The FNV-1a hash of some bytes, from a given start.
pub open spec fn fnv(start: u64, bytes: Seq<u8>) -> u64
    decreases bytes.len(),
{
    if bytes.len() == 0 {
        start
    } else {
        let mixed = fnv(start, bytes.drop_last()) ^ (bytes.last() as u64);
        ((mixed * 0x100_0000_01b3) % 0x1_0000_0000_0000_0000) as u64
    }
}

/// The bytes of the roles and contents of some messages.
pub open spec fn history_bytes(messages: Seq<MessageView>) -> Seq<u8>
    decreases messages.len(),
{
    if messages.len() == 0 {
        Seq::empty()
    } else {
        history_bytes(messages.drop_last()) + encode_utf8(messages.last().role) + encode_utf8(
            messages.last().content,
        )
    }
}

/// The fingerprint of a conversation: a hash of the model and of the messages before the
/// last one, or of the only message there is.
pub open spec fn fingerprint(messages: Seq<MessageView>, model_id: Seq<char>) -> Seq<char> {
    let history = if messages.len() <= 1 {
        messages
    } else {
        messages.drop_last()
    };
    text::hex(fnv(0xcbf2_9ce4_8422_2325, encode_utf8(model_id) + history_bytes(history)) as nat, 6)
}

/// Hashes a string onto a hash.
fn hash_text(start: u64, s: &str) -> (hash: u64)
    ensures
        hash == fnv(start, encode_utf8(s@)),
{
    let bytes = s.as_bytes();
    let mut hash: u64 = start;
    let mut i: usize = 0;
    while i < bytes.len()
        invariant
            i <= bytes@.len(),
            hash == fnv(start, bytes@.take(i as int)),
        decreases bytes@.len() - i,
    {
        assert(bytes@.take(i + 1).drop_last() =~= bytes@.take(i as int));
        hash = (hash ^ (bytes[i] as u64)).wrapping_mul(0x100_0000_01b3);
        i += 1;
    }
    assert(bytes@.take(i as int) =~= bytes@);
    hash
}

/// Hashing goes on where it stopped.
proof fn fnv_concat(start: u64, a: Seq<u8>, b: Seq<u8>)
    ensures
        fnv(start, a + b) == fnv(fnv(start, a), b),
    decreases b.len(),
{
    if b.len() == 0 {
        assert(a + b =~= a);
    } else {
        fnv_concat(start, a, b.drop_last());
        assert((a + b).drop_last() =~= a + b.drop_last());
    }
}

/// A stable fingerprint of a conversation, which groups its requests: two requests of one
/// chat share the messages before the last one. A message that stands alone is hashed
/// itself.
pub fn session_fingerprint(messages: &[ChatMessage], model_id: &str) -> (print: String)
    ensures
        print@ == fingerprint(template::message_views(messages@), model_id@),
{
    let ghost views = template::message_views(messages@);
    let mut hash: u64 = hash_text(0xcbf2_9ce4_8422_2325, model_id);
    let count: usize = if messages.len() <= 1 {
        messages.len()
    } else {
        messages.len() - 1
    };
    let mut i: usize = 0;
    assert(encode_utf8(model_id@) + history_bytes(views.take(0)) =~= encode_utf8(model_id@));
    while i < count
        invariant
            i <= count <= messages@.len(),
            views == template::message_views(messages@),
            hash == fnv(
                0xcbf2_9ce4_8422_2325,
                encode_utf8(model_id@) + history_bytes(views.take(i as int)),
            ),
        decreases count - i,
    {
        let ghost before = encode_utf8(model_id@) + history_bytes(views.take(i as int));
        let role = messages[i].role.as_str();
        let content = messages[i].content.as_str();
        hash = hash_text(hash, role);
        hash = hash_text(hash, content);
        proof {
            fnv_concat(0xcbf2_9ce4_8422_2325, before, encode_utf8(role@));
            fnv_concat(
                0xcbf2_9ce4_8422_2325,
                before + encode_utf8(role@),
                encode_utf8(content@),
            );
            assert(views.take(i + 1).drop_last() =~= views.take(i as int));
            assert(before + encode_utf8(role@) + encode_utf8(content@) =~= encode_utf8(model_id@)
                + history_bytes(views.take(i + 1)));
        }
        i += 1;
    }
    assert(messages@.len() > 1 ==> views.take(i as int) =~= views.drop_last());
    assert(messages@.len() <= 1 ==> views.take(i as int) =~= views);
    hex_of(hash, 6)
}

/// The requests of one chat have one fingerprint: from the second message on it depends
/// on the model and on the messages before the last one, and on nothing else.
pub proof fn same_history_same_fingerprint(
    history: Seq<MessageView>,
    one: MessageView,
    other: MessageView,
    model_id: Seq<char>,
)
    requires
        history.len() > 0,
    ensures
        fingerprint(history.push(one), model_id) == fingerprint(history.push(other), model_id),
{
    assert(history.push(one).drop_last() =~= history);
    assert(history.push(other).drop_last() =~= history);
}

/// The line that is found ends before the first line end.
proof fn lines_have_no_ends(text: Seq<char>, i: int)
    requires
        0 <= i <= text.len(),
    ensures
        i <= line_end(text, i) <= text.len(),
        forall|j: int| i <= j < line_end(text, i) ==> #[trigger] text[j] != '\n',
        line_end(text, i) < text.len() ==> text[line_end(text, i)] == '\n',
    decreases text.len() - i,
{
    if i < text.len() && text[i] != '\n' {
        lines_have_no_ends(text, i + 1);
    }
}

/// A preview is one line, of at most `max_len` characters and a mark; and a line that is no
/// longer is shown whole.
pub proof fn previews_are_short_lines(text: Seq<char>, max_len: nat)
    ensures
        preview_of(text, max_len).len() <= max_len + 1,
        forall|i: int|
            0 <= i < preview_of(text, max_len).len() ==> #[trigger] preview_of(text, max_len)[i]
                != '\n',
        content_line(text).len() <= max_len ==> preview_of(text, max_len) == content_line(text),
        content_line(text).len() > max_len ==> preview_of(text, max_len).take(max_len as int)
            == content_line(text).take(max_len as int),
{
    reveal_strlit("\u{2026}");
    let content = text::trim(text);
    let first = content.take(line_end(content, 0));
    lines_have_no_ends(content, 0);
    text::trimming_cuts_white_space(first);
    let line = content_line(text);
    let (before, after) = choose|before: Seq<char>, after: Seq<char>|
        first == #[trigger] (before + line + after) && text::all_white(before) && text::all_white(
            after,
        );
    assert forall|i: int| 0 <= i < line.len() implies #[trigger] line[i] != '\n' by {
        assert(first[before.len() + i] == line[i]);
        assert(content[before.len() + i] != '\n');
    }
    if line.len() > max_len {
        assert(preview_of(text, max_len).take(max_len as int) =~= line.take(max_len as int));
    }
}

/// Bytes stand in others, in one piece.
pub open spec fn is_byte_part(part: Seq<u8>, whole: Seq<u8>) -> bool {
    exists|before: Seq<u8>, after: Seq<u8>| whole == #[trigger] (before + part + after)
}

/// What is hashed of a history holds the role of each of its messages with its content
/// behind it, in order: those of two histories put together are those of the first followed
/// by those of the second.
pub proof fn histories_are_hashed_whole(a: Seq<MessageView>, b: Seq<MessageView>, i: int)
    ensures
        history_bytes(a + b) == history_bytes(a) + history_bytes(b),
        0 <= i < a.len() ==> is_byte_part(
            encode_utf8(a[i].role) + encode_utf8(a[i].content),
            history_bytes(a),
        ),
    decreases a.len() + b.len(),
{
    if b.len() > 0 {
        histories_are_hashed_whole(a, b.drop_last(), i);
        assert((a + b).drop_last() =~= a + b.drop_last());
        assert(history_bytes(a + b) =~= history_bytes(a) + history_bytes(b));
    } else {
        assert(a + b =~= a);
        assert(history_bytes(a) + history_bytes(b) =~= history_bytes(a));
    }
    if 0 <= i < a.len() {
        let part = encode_utf8(a[i].role) + encode_utf8(a[i].content);
        let front = history_bytes(a.drop_last());
        let role = encode_utf8(a.last().role);
        let content = encode_utf8(a.last().content);
        if i == a.len() - 1 {
            assert(history_bytes(a) =~= front + part + Seq::empty());
        } else {
            histories_are_hashed_whole(a.drop_last(), Seq::empty(), i);
            let (before, after) = choose|before: Seq<u8>, after: Seq<u8>|
                front == #[trigger] (before + part + after);
            assert(history_bytes(a) =~= before + part + (after + role + content));
        }
    }
}

} // verus!
