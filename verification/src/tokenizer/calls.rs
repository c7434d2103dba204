//! Tool calls in generated text.
//!
//! A call is written `<tool_call>\n<function=NAME>\n<parameter=K>\nVALUE\n</parameter>\n
//! ...</function>\n</tool_call>`.

use vstd::prelude::*;
use vstd::string::*;

use crate::json;
use crate::json::JsonView;
use crate::text;
use crate::text::{chars_of, find_in, string_of, trim_range, trimmed};

verus! {

/// One tool call; `arguments` is a JSON object.
#[derive(Debug)]
pub struct ChatToolCall {
    pub name: String,
    pub arguments: serde_json::Value,
}

impl Clone for ChatToolCall {
    fn clone(&self) -> (copy: Self)
        ensures
            copy@ == self@,
    {
        ChatToolCall { name: self.name.clone(), arguments: self.arguments.clone() }
    }
}

/// A tool call as a value.
pub struct CallView {
    pub name: Seq<char>,
    pub arguments: JsonView,
}

impl View for ChatToolCall {
    type V = CallView;

    open spec fn view(&self) -> CallView {
        CallView { name: self.name@, arguments: json::json_view(self.arguments) }
    }
}

/// Several tool calls as values.
pub open spec fn call_views(calls: Seq<ChatToolCall>) -> Seq<CallView> {
    Seq::new(calls.len(), |i: int| calls[i]@)
}

/// The bodies between each `open` and the `close` that follows it, from the front on.
pub open spec fn bodies(s: Seq<char>, open: Seq<char>, close: Seq<char>) -> Seq<Seq<char>>
    decreases s.len(),
{
    match text::find(s, open) {
        None => Seq::empty(),
        Some(at) => {
            let rest = s.skip(at + open.len());
            match text::find(rest, close) {
                None => Seq::empty(),
                Some(end) => if open.len() + close.len() == 0 {
                    Seq::empty()
                } else {
                    proof {
                        text::find_is_first(s, open, 0);
                        text::find_is_first(rest, close, 0);
                    }
                    seq![rest.take(end)] + bodies(rest.skip(end + close.len()), open, close)
                },
            }
        },
    }
}

/// The body between the first `open` and the first `close` behind it.
pub open spec fn body(s: Seq<char>, open: Seq<char>, close: Seq<char>) -> Option<Seq<char>> {
    match text::find(s, open) {
        None => None,
        Some(at) => {
            let rest = s.skip(at + open.len());
            match text::find(rest, close) {
                None => None,
                Some(end) => Some(rest.take(end)),
            }
        },
    }
}

/// Splits a text on a pair of tags: the bodies between them.
pub fn between_all(text: &str, open: &str, close: &str) -> (out: Vec<String>)
    requires
        open@.len() + close@.len() > 0,
    ensures
        text::texts(out@) == bodies(text@, open@, close@),
{
    let chars = chars_of(text);
    let opening = chars_of(open);
    let closing = chars_of(close);
    let mut out: Vec<String> = Vec::new();
    let mut at: usize = 0;
    let end: usize = chars.len();
    assert(chars@.skip(0) =~= chars@);
    assert(chars@.take(end as int) =~= chars@);
    assert(text::texts(out@) + bodies(chars@, opening@, closing@) =~= bodies(
        chars@,
        opening@,
        closing@,
    ));
    loop
        invariant
            at <= end,
            end == chars@.len(),
            chars@.take(end as int) == chars@,
            opening@.len() + closing@.len() > 0,
            text::texts(out@) + bodies(chars@.skip(at as int), opening@, closing@) == bodies(
                chars@,
                opening@,
                closing@,
            ),
        ensures
            text::texts(out@) == bodies(chars@, opening@, closing@),
        decreases end - at,
    {
        let ghost tail = chars@.skip(at as int);
        proof {
            text::find_in_tail(chars@, opening@, 0, at as int);
        }
        match find_in(&chars, &opening, at, end) {
            None => {
                assert(bodies(tail, opening@, closing@) =~= Seq::empty());
                assert(text::texts(out@) =~= bodies(chars@, opening@, closing@));
                break;
            },
            Some(opened) => {
                let from: usize = opened + opening.len();
                let ghost rest = tail.skip((opened - at) + opening@.len());
                assert(rest =~= chars@.skip(from as int));
                proof {
                    text::find_in_tail(chars@, closing@, 0, from as int);
                }
                match find_in(&chars, &closing, from, end) {
                    None => {
                        assert(bodies(tail, opening@, closing@) =~= Seq::empty());
                        assert(text::texts(out@) =~= bodies(chars@, opening@, closing@));
                        break;
                    },
                    Some(closed) => {
                        let piece = string_of(&chars, from, closed);
                        assert(piece@ =~= rest.take(closed - from));
                        let ghost before = text::texts(out@);
                        out.push(piece);
                        assert(text::texts(out@) =~= before.push(piece@));
                        at = closed + closing.len();
                        assert(rest.skip((closed - from) + closing@.len()) =~= chars@.skip(
                            at as int,
                        ));
                        let ghost more = bodies(chars@.skip(at as int), opening@, closing@);
                        assert(bodies(tail, opening@, closing@) == seq![piece@] + more);
                        assert(before + (seq![piece@] + more) =~= text::texts(out@) + more);
                    },
                }
            },
        }
    }
    out
}

/// The body between the first opening tag and the first closing tag behind it.
pub fn between(text: &str, open: &str, close: &str) -> (found: Option<String>)
    ensures
        match found {
            Some(found) => body(text@, open@, close@) == Some(found@),
            None => body(text@, open@, close@) is None,
        },
{
    let chars = chars_of(text);
    let opening = chars_of(open);
    let closing = chars_of(close);
    let end: usize = chars.len();
    assert(chars@.take(end as int) =~= chars@);
    let opened: usize = match find_in(&chars, &opening, 0, end) {
        Some(opened) => opened,
        None => {
            return None;
        },
    };
    let from: usize = opened + opening.len();
    proof {
        text::find_in_tail(chars@, closing@, 0, from as int);
    }
    match find_in(&chars, &closing, from, end) {
        Some(closed) => {
            let piece = string_of(&chars, from, closed);
            assert(piece@ =~= chars@.skip(from as int).take(closed - from));
            Some(piece)
        },
        None => None,
    }
}

/// What stands before the first `>`: the name that opens a block.
pub open spec fn block_name(block: Seq<char>) -> Seq<char> {
    text::trim(text::before(block, ">"@))
}

/// The value that a rendered argument stands for: JSON where it is JSON, else its text.
pub open spec fn argument(value: Seq<char>) -> JsonView {
    match json::json_parse(text::trim(value)) {
        Some(value) => value,
        None => JsonView::Text(text::trim(value)),
    }
}

/// The parameters in the given blocks, as trimmed keys and values; a block without a key
/// is none.
pub open spec fn parameters(blocks: Seq<Seq<char>>) -> Seq<(Seq<char>, Seq<char>)>
    decreases blocks.len(),
{
    if blocks.len() == 0 {
        Seq::empty()
    } else {
        let earlier = parameters(blocks.drop_last());
        let key = block_name(blocks.last());
        if key.len() == 0 {
            earlier
        } else {
            earlier.push((key, text::trim(text::behind(blocks.last(), ">"@))))
        }
    }
}

/// The object that parameters amount to: the last value of each key.
pub open spec fn arguments(parameters: Seq<(Seq<char>, Seq<char>)>) -> Seq<(Seq<char>, JsonView)>
    decreases parameters.len(),
{
    if parameters.len() == 0 {
        Seq::empty()
    } else {
        let (key, value) = parameters.last();
        json::json_insert(arguments(parameters.drop_last()), key, argument(value))
    }
}

/// The call in the body of a function block.
pub open spec fn call(function: Seq<char>) -> CallView {
    CallView {
        name: block_name(function),
        arguments: JsonView::Object(
            arguments(
                parameters(
                    bodies(text::behind(function, ">"@), "<parameter="@, "</parameter>"@),
                ),
            ),
        ),
    }
}

/// The calls in the given blocks; a block without a function is none.
pub open spec fn calls(blocks: Seq<Seq<char>>) -> Seq<CallView>
    decreases blocks.len(),
{
    if blocks.len() == 0 {
        Seq::empty()
    } else {
        let earlier = calls(blocks.drop_last());
        match body(blocks.last(), "<function="@, "</function>"@) {
            Some(function) => earlier.push(call(function)),
            None => earlier,
        }
    }
}

/// The tool calls in a text.
pub open spec fn calls_in(s: Seq<char>) -> Seq<CallView> {
    calls(bodies(s, "<tool_call>"@, "</tool_call>"@))
}

/// The trimmed name that opens a block, and what stands behind its first `>`.
fn split_block(block: &str) -> (parts: (String, String))
    ensures
        parts.0@ == block_name(block@),
        parts.1@ == text::behind(block@, ">"@),
{
    let chars = chars_of(block);
    let mark = chars_of(">");
    let end: usize = chars.len();
    assert(chars@.take(end as int) =~= chars@);
    match find_in(&chars, &mark, 0, end) {
        Some(at) => {
            let range: (usize, usize) = trim_range(&chars, 0, at);
            let name = string_of(&chars, range.0, range.1);
            let rest = string_of(&chars, at + mark.len(), end);
            assert(chars@.subrange(0, at as int) =~= chars@.take(at as int));
            assert(rest@ =~= chars@.skip(at + mark@.len()));
            (name, rest)
        },
        None => (trimmed(block), String::new()),
    }
}

/// The value that a rendered argument stands for: JSON where it is JSON; a bare scalar
/// that is not JSON is its text.
pub fn coerce_arg(value: &str) -> (coerced: serde_json::Value)
    ensures
        json::json_view(coerced) == argument(value@),
{
    let bare = trimmed(value);
    match json::parse_text(bare.as_str()) {
        Some(value) => value,
        None => json::string(bare),
    }
}

/// The `<parameter=K>` blocks of a function block, as trimmed keys and values.
pub fn extract_parameters(body: &str) -> (out: Vec<(String, String)>)
    ensures
        parameter_views(out@) == parameters(bodies(body@, "<parameter="@, "</parameter>"@)),
{
    proof {
        reveal_strlit("<parameter=");
    }
    let blocks = between_all(body, "<parameter=", "</parameter>");
    let ghost all = text::texts(blocks@);
    let mut out: Vec<(String, String)> = Vec::new();
    let mut i: usize = 0;
    assert(parameter_views(out@) =~= parameters(all.take(0)));
    while i < blocks.len()
        invariant
            i <= blocks@.len(),
            all == text::texts(blocks@),
            parameter_views(out@) == parameters(all.take(i as int)),
        decreases blocks@.len() - i,
    {
        let (key, rest): (String, String) = split_block(blocks[i].as_str());
        assert(all.take(i + 1).drop_last() =~= all.take(i as int));
        assert(all.take(i + 1).last() == blocks@[i as int]@);
        let ghost before = parameter_views(out@);
        if !key.as_str().is_empty() {
            let value = trimmed(rest.as_str());
            out.push((key, value));
            assert(parameter_views(out@) =~= before.push((key@, value@)));
        }
        i += 1;
    }
    assert(all.take(i as int) =~= all);
    out
}

/// Pairs of strings as pairs of texts.
pub open spec fn parameter_views(pairs: Seq<(String, String)>) -> Seq<(Seq<char>, Seq<char>)> {
    Seq::new(pairs.len(), |i: int| (pairs[i].0@, pairs[i].1@))
}

/// The call in the body of a function block.
fn parse_call(function: &str) -> (parsed: ChatToolCall)
    ensures
        parsed@ == call(function@),
{
    let (name, rest): (String, String) = split_block(function);
    let parameters = extract_parameters(rest.as_str());
    let ghost all = parameter_views(parameters@);
    let mut map = json::new_map();
    let mut i: usize = 0;
    assert(json::json_entries(map) =~= arguments(all.take(0)));
    while i < parameters.len()
        invariant
            i <= parameters@.len(),
            all == parameter_views(parameters@),
            json::json_entries(map) == arguments(all.take(i as int)),
        decreases parameters@.len() - i,
    {
        assert(all.take(i + 1).drop_last() =~= all.take(i as int));
        let key = parameters[i].0.clone();
        let value = coerce_arg(parameters[i].1.as_str());
        json::insert(&mut map, key, value);
        i += 1;
    }
    assert(all.take(i as int) =~= all);
    ChatToolCall { name, arguments: json::object(map) }
}

/// Parses the `<tool_call>` blocks that the model emits into structured tool calls.
pub fn parse_tool_calls(text: &str) -> (out: Vec<ChatToolCall>)
    ensures
        call_views(out@) == calls_in(text@),
{
    proof {
        reveal_strlit("<tool_call>");
    }
    let blocks = between_all(text, "<tool_call>", "</tool_call>");
    let ghost all = text::texts(blocks@);
    let mut out: Vec<ChatToolCall> = Vec::new();
    let mut i: usize = 0;
    assert(call_views(out@) =~= calls(all.take(0)));
    while i < blocks.len()
        invariant
            i <= blocks@.len(),
            all == text::texts(blocks@),
            call_views(out@) == calls(all.take(i as int)),
        decreases blocks@.len() - i,
    {
        assert(all.take(i + 1).drop_last() =~= all.take(i as int));
        assert(all.take(i + 1).last() == blocks@[i as int]@);
        let ghost before = call_views(out@);
        if let Some(function) = between(blocks[i].as_str(), "<function=", "</function>") {
            let parsed = parse_call(function.as_str());
            out.push(parsed);
            assert(call_views(out@) =~= before.push(parsed@));
        }
        i += 1;
    }
    assert(all.take(i as int) =~= all);
    out
}

/// What is left of an answer as its content: all of it where it holds no tool call, and
/// else the trimmed text before the first `<tool_call>`.
pub open spec fn content_of(answer: Seq<char>) -> Seq<char> {
    if calls_in(answer).len() == 0 {
        answer
    } else {
        match text::find(answer, "<tool_call>"@) {
            Some(at) => text::trim(answer.take(at)),
            None => Seq::empty(),
        }
    }
}

/// Splits generated text into `(reasoning, answer, tool_calls)`: the tool calls of the
/// answer come out structured, and its text without them.
pub fn split_tool_calls(reasoning: String, answer: String) -> (split: (
    String,
    String,
    Vec<ChatToolCall>,
))
    ensures
        split.0@ == reasoning@,
        split.1@ == content_of(answer@),
        call_views(split.2@) == calls_in(answer@),
{
    let found = parse_tool_calls(answer.as_str());
    assert(call_views(found@).len() == found@.len());
    if found.len() == 0 {
        return (reasoning, answer, found);
    }
    let chars = chars_of(answer.as_str());
    let mark = chars_of("<tool_call>");
    let end: usize = chars.len();
    assert(chars@.take(end as int) =~= chars@);
    match find_in(&chars, &mark, 0, end) {
        Some(at) => {
            let range: (usize, usize) = trim_range(&chars, 0, at);
            let content = string_of(&chars, range.0, range.1);
            assert(chars@.subrange(0, at as int) =~= chars@.take(at as int));
            (reasoning, content, found)
        },
        None => (reasoning, String::new(), found),
    }
}

} // verus!
