//! A streamed chat completion: what each new token adds to what the client has.
//!
//! After each token the text generated so far is looked at afresh: what its reasoning and
//! its answer have beyond what was sent is sent. Lengths are in bytes.

use vstd::prelude::*;
use vstd::string::*;
use vstd::utf8::*;

use crate::serve::api;
use crate::serve::api::{
    tool_calls_to_response, ChatCompletionChunk, ChunkChoice, ChunkDelta,
};
use crate::serve::chat;
use crate::serve::chat::finish_reason;
use crate::text;
use crate::text::{byte_count, chars_of, cut, find_in, string_of};
use crate::tokenizer;
use crate::tokenizer::calls;
use crate::tokenizer::calls::split_tool_calls;
use crate::tokenizer::template;
use crate::tokenizer::{split_thinking, ChatTokenizer};

verus! {

/// A stream under way.
pub struct StreamState {
    ids: Vec<u32>,
    enable_thinking: bool,
    last_reasoning_len: usize,
    last_answer_len: usize,
    sent_role: bool,
    tool_boundary: Option<usize>,
}

/// A stream as a value.
pub struct StreamView {
    /// The tokens so far.
    pub ids: Seq<u32>,
    pub enable_thinking: bool,
    /// How much of the reasoning was sent.
    pub last_reasoning_len: int,
    /// How much of the answer was sent.
    pub last_answer_len: int,
    /// Whether the role was sent.
    pub sent_role: bool,
    /// Where the first tool call began, once one has: from there on nothing is sent.
    pub tool_boundary: Option<int>,
}

/// A piece of a stream as a value.
pub struct DeltaView {
    pub role: Option<Seq<char>>,
    pub content: Option<Seq<char>>,
    pub reasoning_content: Option<Seq<char>>,
}

impl View for StreamState {
    type V = StreamView;

    closed spec fn view(&self) -> StreamView {
        StreamView {
            ids: self.ids@,
            enable_thinking: self.enable_thinking,
            last_reasoning_len: self.last_reasoning_len as int,
            last_answer_len: self.last_answer_len as int,
            sent_role: self.sent_role,
            tool_boundary: match self.tool_boundary {
                Some(at) => Some(at as int),
                None => None,
            },
        }
    }
}

impl View for ChunkDelta {
    type V = DeltaView;

    open spec fn view(&self) -> DeltaView {
        DeltaView {
            role: match self.role {
                Some(role) => Some(role@),
                None => None,
            },
            content: template::text_view(self.content),
            reasoning_content: template::text_view(self.reasoning_content),
        }
    }
}

/// Several pieces as values.
pub open spec fn delta_views(deltas: Seq<ChunkDelta>) -> Seq<DeltaView> {
    Seq::new(deltas.len(), |i: int| deltas[i]@)
}

/// Where the first tool call of an answer begins, in bytes.
pub open spec fn boundary_in(answer: Seq<char>) -> Option<int> {
    match text::find(answer, "<tool_call"@) {
        Some(at) => Some(text::byte_len(answer.take(at)) as int),
        None => None,
    }
}

impl StreamView {
    /// Where the first tool call begins, now that the answer is `answer`.
    pub open spec fn boundary(self, answer: Seq<char>) -> Option<int> {
        match self.tool_boundary {
            Some(at) => Some(at),
            None => boundary_in(answer),
        }
    }

    /// How much of an answer can be sent.
    pub open spec fn sendable(self, answer: Seq<char>) -> int {
        let len = text::byte_len(answer) as int;
        match self.boundary(answer) {
            Some(at) => if at < len {
                at
            } else {
                len
            },
            None => len,
        }
    }

    /// Whether the reasoning has grown.
    pub open spec fn more_reasoning(self, reasoning: Seq<char>) -> bool {
        text::byte_len(reasoning) > self.last_reasoning_len
    }

    /// Whether there is more of the answer to send.
    pub open spec fn more_answer(self, answer: Seq<char>) -> bool {
        text::byte_len(answer) > self.last_answer_len && self.sendable(answer)
            > self.last_answer_len
    }

    /// Whether what is to be sent of `text` begins and ends between characters.
    pub open spec fn fits(self, text: Seq<char>) -> bool {
        let reasoning = tokenizer::reasoning_of(text, self.enable_thinking);
        let answer = tokenizer::answer_of(text, self.enable_thinking);
        &&& self.more_reasoning(reasoning) ==> text::can_cut(reasoning, self.last_reasoning_len)
        &&& self.more_answer(answer) ==> text::can_cut(answer, self.last_answer_len)
            && text::can_cut(answer, self.sendable(answer))
    }

    /// The stream once what `text` adds was sent.
    pub open spec fn advanced(self, text: Seq<char>) -> StreamView {
        let reasoning = tokenizer::reasoning_of(text, self.enable_thinking);
        let answer = tokenizer::answer_of(text, self.enable_thinking);
        StreamView {
            last_reasoning_len: if self.more_reasoning(reasoning) {
                text::byte_len(reasoning) as int
            } else {
                self.last_reasoning_len
            },
            last_answer_len: if self.more_answer(answer) {
                self.sendable(answer)
            } else {
                self.last_answer_len
            },
            sent_role: self.sent_role || self.more_answer(answer),
            tool_boundary: self.boundary(answer),
            ..self
        }
    }

    /// What `text` adds to what was sent: reasoning, and then answer.
    pub open spec fn deltas(self, text: Seq<char>) -> Seq<DeltaView> {
        let reasoning = tokenizer::reasoning_of(text, self.enable_thinking);
        let answer = tokenizer::answer_of(text, self.enable_thinking);
        let first = if self.more_reasoning(reasoning) {
            seq![
                DeltaView {
                    role: None,
                    content: None,
                    reasoning_content: Some(
                        text::byte_range(
                            reasoning,
                            self.last_reasoning_len,
                            text::byte_len(reasoning) as int,
                        ),
                    ),
                },
            ]
        } else {
            Seq::empty()
        };
        let second = if self.more_answer(answer) {
            seq![
                DeltaView {
                    role: if self.sent_role {
                        None
                    } else {
                        Some("assistant"@)
                    },
                    content: Some(
                        text::byte_range(answer, self.last_answer_len, self.sendable(answer)),
                    ),
                    reasoning_content: None,
                },
            ]
        } else {
            Seq::empty()
        };
        first + second
    }
}

/// Where the first tool call of an answer begins, in bytes.
fn tool_call_start(answer: &str) -> (start: Option<usize>)
    ensures
        match (start, boundary_in(answer@)) {
            (Some(start), Some(at)) => start == at,
            (None, None) => true,
            _ => false,
        },
{
    let chars = chars_of(answer);
    let mark = chars_of("<tool_call");
    let end: usize = chars.len();
    assert(chars@.take(end as int) =~= chars@);
    match find_in(&chars, &mark, 0, end) {
        Some(at) => {
            let head = string_of(&chars, 0, at);
            assert(head@ =~= answer@.take(at as int));
            Some(byte_count(head.as_str()))
        },
        None => None,
    }
}

impl StreamState {
    /// A stream of which nothing was sent.
    pub fn new(enable_thinking: bool) -> (stream: Self)
        ensures
            stream@ == (StreamView {
                ids: Seq::empty(),
                enable_thinking,
                last_reasoning_len: 0,
                last_answer_len: 0,
                sent_role: false,
                tool_boundary: None,
            }),
    {
        StreamState {
            ids: Vec::new(),
            enable_thinking,
            last_reasoning_len: 0,
            last_answer_len: 0,
            sent_role: false,
            tool_boundary: None,
        }
    }

    /// How much of an answer can be sent, in bytes.
    fn sendable(&self, answer: &str) -> (count: usize)
        ensures
            count == self@.sendable(answer@),
    {
        let len: usize = byte_count(answer);
        let boundary: Option<usize> = match self.tool_boundary {
            Some(at) => Some(at),
            None => tool_call_start(answer),
        };
        match boundary {
            Some(at) => if at < len {
                at
            } else {
                len
            },
            None => len,
        }
    }

    /// Whether what is to be sent of `text` begins and ends between characters.
    pub fn fits(&self, text: &str) -> (fits: bool)
        ensures
            fits == self@.fits(text@),
    {
        let (reasoning, answer): (String, String) = split_thinking(text, self.enable_thinking);
        proof {
            encode_utf8_valid_utf8(reasoning@);
            encode_utf8_valid_utf8(answer@);
        }
        if byte_count(reasoning.as_str()) > self.last_reasoning_len
            && !reasoning.as_str().is_char_boundary(self.last_reasoning_len) {
            return false;
        }
        let sendable: usize = self.sendable(answer.as_str());
        if byte_count(answer.as_str()) > self.last_answer_len && sendable > self.last_answer_len {
            if !answer.as_str().is_char_boundary(self.last_answer_len)
                || !answer.as_str().is_char_boundary(sendable) {
                return false;
            }
        }
        true
    }

    /// Looks at the text generated so far, and says what is to be sent of it.
    pub fn advance(&mut self, text: &str) -> (deltas: Vec<ChunkDelta>)
        requires
            old(self)@.fits(text@),
        ensures
            final(self)@ == old(self)@.advanced(text@),
            delta_views(deltas@) == old(self)@.deltas(text@),
            forall|i: int| 0 <= i < deltas@.len() ==> (#[trigger] deltas@[i]).tool_calls is None,
    {
        let (reasoning, answer): (String, String) = split_thinking(text, self.enable_thinking);
        let mut deltas: Vec<ChunkDelta> = Vec::new();
        let reasoning_len: usize = byte_count(reasoning.as_str());
        proof {
            encode_utf8_valid_utf8(reasoning@);
            encode_utf8_valid_utf8(answer@);
            is_char_boundary_start_end_of_seq(encode_utf8(reasoning@));
        }
        if reasoning_len > self.last_reasoning_len {
            let delta = cut(reasoning.as_str(), self.last_reasoning_len, reasoning_len);
            self.last_reasoning_len = reasoning_len;
            deltas.push(
                ChunkDelta {
                    role: None,
                    content: None,
                    reasoning_content: Some(delta),
                    tool_calls: None,
                },
            );
        }
        let ghost first = delta_views(deltas@);
        let sendable: usize = self.sendable(answer.as_str());
        assert(sendable == old(self)@.sendable(answer@));
        if self.tool_boundary.is_none() {
            self.tool_boundary = tool_call_start(answer.as_str());
        }
        if byte_count(answer.as_str()) > self.last_answer_len && sendable > self.last_answer_len {
            let delta = cut(answer.as_str(), self.last_answer_len, sendable);
            self.last_answer_len = sendable;
            let role: Option<&'static str> = if self.sent_role {
                None
            } else {
                Some("assistant")
            };
            self.sent_role = true;
            let second = ChunkDelta {
                role,
                content: Some(delta),
                reasoning_content: None,
                tool_calls: None,
            };
            deltas.push(second);
            assert(delta_views(deltas@) =~= first + seq![second@]);
        }
        assert(delta_views(deltas@) =~= old(self)@.deltas(text@));
        deltas
    }

    /// Takes the next token, and says what is to be sent. `None` is a text whose bytes do
    /// not continue what was sent: the stream cannot go on.
    pub fn push_token(&mut self, tokenizer: &ChatTokenizer, token: u32) -> (deltas: Option<
        Vec<ChunkDelta>,
    >)
        ensures
            ({
                let ids = old(self)@.ids.push(token);
                let taken = StreamView { ids, ..old(self)@ };
                let text = text_so_far(tokenizer::decoded(tokenizer.tokenizer(), ids));
                match deltas {
                    Some(deltas) => {
                        &&& taken.fits(text)
                        &&& final(self)@ == taken.advanced(text)
                        &&& delta_views(deltas@) == taken.deltas(text)
                        &&& forall|i: int|
                            0 <= i < deltas@.len() ==> (#[trigger] deltas@[i]).tool_calls is None
                    },
                    None => !taken.fits(text) && final(self)@ == taken,
                }
            }),
    {
        self.ids.push(token);
        let text = match tokenizer.decode(&self.ids) {
            Ok(text) => text,
            Err(_) => String::new(),
        };
        if self.fits(text.as_str()) {
            Some(self.advance(text.as_str()))
        } else {
            None
        }
    }

    /// The last piece of the stream, with the tool calls of the whole text, and why the
    /// generation ended.
    pub fn finish(&self, tokenizer: &ChatTokenizer, max_tokens: usize) -> (last: (
        ChunkDelta,
        &'static str,
    ))
        ensures
            is_last(
                last,
                text_so_far(tokenizer::decoded(tokenizer.tokenizer(), self@.ids)),
                self@.enable_thinking,
                self@.ids.len(),
                max_tokens as nat,
            ),
    {
        let text = match tokenizer.decode(&self.ids) {
            Ok(text) => text,
            Err(_) => String::new(),
        };
        last_delta(text.as_str(), self.enable_thinking, self.ids.len(), max_tokens)
    }
}

/// The text of the tokens so far; none, where they cannot be turned into one.
pub open spec fn text_so_far(decoded: Result<Seq<char>, Seq<char>>) -> Seq<char> {
    match decoded {
        Ok(text) => text,
        Err(_) => Seq::empty(),
    }
}

/// `last` is the last piece of a stream that generated `text`.
pub open spec fn is_last(
    last: (ChunkDelta, &'static str),
    text: Seq<char>,
    enable_thinking: bool,
    generated: nat,
    max_tokens: nat,
) -> bool {
    let called = calls::calls_in(tokenizer::answer_of(text, enable_thinking));
    &&& last.0@ == (DeltaView { role: None, content: None, reasoning_content: None })
    &&& match last.0.tool_calls {
        Some(out) => called.len() > 0 && api::are_response_calls(out@, called),
        None => called.len() == 0,
    }
    &&& last.1@ == chat::reason_to_finish(called.len(), generated, max_tokens)
}

/// The last piece of a stream that generated `text` in `generated` tokens, and why it
/// ended.
pub fn last_delta(text: &str, enable_thinking: bool, generated: usize, max_tokens: usize) -> (last:
    (ChunkDelta, &'static str))
    ensures
        is_last(last, text@, enable_thinking, generated as nat, max_tokens as nat),
{
    let (reasoning, answer): (String, String) = split_thinking(text, enable_thinking);
    let called = split_tool_calls(reasoning, answer).2;
    assert(calls::call_views(called@).len() == called@.len());
    let reason = finish_reason(called.len(), generated, max_tokens);
    let mut delta = ChunkDelta::default();
    if called.len() > 0 {
        delta.tool_calls = Some(tool_calls_to_response(&called));
    }
    (delta, reason)
}

/// A piece of a stream, addressed.
pub fn chunk(id: &str, created: u64, model: &str, delta: ChunkDelta, reason: Option<&str>) -> (
    chunk: ChatCompletionChunk)
    ensures
        chunk.id@ == id@,
        chunk.object@ == "chat.completion.chunk"@,
        chunk.created == created,
        chunk.model@ == model@,
        chunk.choices@.len() == 1,
        chunk.choices@[0].index == 0,
        chunk.choices@[0].delta == delta,
        template::text_view(chunk.choices@[0].finish_reason) == (match reason {
            Some(reason) => Some(reason@),
            None => None,
        }),
{
    let mut choices: Vec<ChunkChoice> = Vec::new();
    choices.push(
        ChunkChoice {
            index: 0,
            delta,
            finish_reason: match reason {
                Some(reason) => Some(reason.to_owned()),
                None => None,
            },
        },
    );
    ChatCompletionChunk {
        id: id.to_owned(),
        object: "chat.completion.chunk",
        created,
        model: model.to_owned(),
        choices,
    }
}

// ---------------------------------------------------------------------------
// Laws
// ---------------------------------------------------------------------------

/// What has been sent of an answer, once what it adds to `sent` was: all of it, but for
/// what comes from the first tool call on.
pub open spec fn sent_of(sent: Seq<char>, answer: Seq<char>) -> Seq<char> {
    match text::find(answer, "<tool_call"@) {
        None => answer,
        Some(at) => if sent.len() < at {
            answer.take(at)
        } else {
            sent
        },
    }
}

/// The reasoning in some pieces, put together.
pub open spec fn reasoning_in(deltas: Seq<DeltaView>) -> Seq<char>
    decreases deltas.len(),
{
    if deltas.len() == 0 {
        Seq::empty()
    } else {
        reasoning_in(deltas.drop_last()) + (match deltas.last().reasoning_content {
            Some(text) => text,
            None => Seq::empty(),
        })
    }
}

/// The answer in some pieces, put together.
pub open spec fn content_in(deltas: Seq<DeltaView>) -> Seq<char>
    decreases deltas.len(),
{
    if deltas.len() == 0 {
        Seq::empty()
    } else {
        content_in(deltas.drop_last()) + (match deltas.last().content {
            Some(text) => text,
            None => Seq::empty(),
        })
    }
}

/// What is sent of an answer continues what was sent of it.
proof fn answer_adds_up(stream: StreamView, answer: Seq<char>, answer_sent: Seq<char>)
    requires
        stream.last_answer_len == text::byte_len(answer_sent),
        answer_sent.is_prefix_of(answer),
        stream.tool_boundary is Some ==> stream.tool_boundary == boundary_in(answer),
    ensures
        ({
            let sent = sent_of(answer_sent, answer);
            let more = sent.skip(answer_sent.len() as int);
            &&& answer_sent + more == sent
            &&& stream.boundary(answer) == boundary_in(answer)
            &&& stream.more_answer(answer) <==> more.len() > 0
            &&& more.len() == 0 ==> sent == answer_sent
            &&& more.len() > 0 ==> {
                &&& stream.sendable(answer) == text::byte_len(sent)
                &&& text::can_cut(answer, stream.last_answer_len)
                &&& text::can_cut(answer, stream.sendable(answer))
                &&& text::byte_range(answer, stream.last_answer_len, stream.sendable(answer))
                    == more
            }
        }),
{
    let sent = sent_of(answer_sent, answer);
    text::find_is_first(answer, "<tool_call"@, 0);
    let more_answer = sent.skip(answer_sent.len() as int);
    assert(answer_sent + more_answer =~= sent);
    text::cut_behind_prefix(answer_sent, more_answer);
    text::bytes_at_least_chars(more_answer);
    let rest = answer.skip(sent.len() as int);
    assert(sent + rest =~= answer);
    text::cut_behind_prefix(sent, rest);
    text::cut_behind_prefix(answer_sent, more_answer + rest);
    assert(answer_sent + (more_answer + rest) =~= answer);
    if let Some(at) = text::find(answer, "<tool_call"@) {
        let head = answer.take(at);
        let tail = answer.skip(at);
        assert(head + tail =~= answer);
        text::cut_behind_prefix(head, tail);
        if answer_sent.len() >= at {
            let over = answer_sent.skip(at);
            assert(head + over =~= answer_sent);
            text::cut_behind_prefix(head, over);
        }
    }
    assert(stream.more_answer(answer) <==> more_answer.len() > 0);
    if more_answer.len() > 0 {
        range_in_prefix(sent, rest, text::byte_len(answer_sent) as int);
    } else {
        assert(sent =~= answer_sent);
    }
}

/// What is sent of a reasoning continues what was sent of it.
proof fn reasoning_adds_up(stream: StreamView, reasoning: Seq<char>, reasoning_sent: Seq<char>)
    requires
        stream.last_reasoning_len == text::byte_len(reasoning_sent),
        reasoning_sent.is_prefix_of(reasoning),
    ensures
        ({
            let more = reasoning.skip(reasoning_sent.len() as int);
            &&& reasoning_sent + more == reasoning
            &&& stream.more_reasoning(reasoning) <==> more.len() > 0
            &&& more.len() == 0 ==> reasoning == reasoning_sent
            &&& more.len() > 0 ==> {
                &&& text::can_cut(reasoning, stream.last_reasoning_len)
                &&& text::byte_range(
                    reasoning,
                    stream.last_reasoning_len,
                    text::byte_len(reasoning) as int,
                ) == more
            }
        }),
{
    let more = reasoning.skip(reasoning_sent.len() as int);
    assert(reasoning_sent + more =~= reasoning);
    text::cut_behind_prefix(reasoning_sent, more);
    text::bytes_at_least_chars(more);
    if more.len() == 0 {
        assert(reasoning =~= reasoning_sent);
    }
}

/// The pieces add up. Where the text generated so far continues the reasoning and the
/// answer of which `reasoning_sent` and `answer_sent` were sent, it can be sent, and what
/// was sent before and what is sent now make up its whole reasoning, and its answer up to
/// the first tool call.
pub proof fn pieces_add_up(
    stream: StreamView,
    text: Seq<char>,
    reasoning_sent: Seq<char>,
    answer_sent: Seq<char>,
)
    requires
        stream.last_reasoning_len == text::byte_len(reasoning_sent),
        stream.last_answer_len == text::byte_len(answer_sent),
        reasoning_sent.is_prefix_of(tokenizer::reasoning_of(text, stream.enable_thinking)),
        answer_sent.is_prefix_of(tokenizer::answer_of(text, stream.enable_thinking)),
        stream.tool_boundary is Some ==> stream.tool_boundary == boundary_in(
            tokenizer::answer_of(text, stream.enable_thinking),
        ),
    ensures
        stream.fits(text),
        ({
            let reasoning = tokenizer::reasoning_of(text, stream.enable_thinking);
            let answer = tokenizer::answer_of(text, stream.enable_thinking);
            let after = stream.advanced(text);
            let deltas = stream.deltas(text);
            &&& reasoning_sent + reasoning_in(deltas) == reasoning
            &&& answer_sent + content_in(deltas) == sent_of(answer_sent, answer)
            &&& after.last_reasoning_len == text::byte_len(reasoning)
            &&& after.last_answer_len == text::byte_len(sent_of(answer_sent, answer))
            &&& after.tool_boundary == boundary_in(answer)
        }),
{
    let reasoning = tokenizer::reasoning_of(text, stream.enable_thinking);
    let answer = tokenizer::answer_of(text, stream.enable_thinking);
    let deltas = stream.deltas(text);
    reasoning_adds_up(stream, reasoning, reasoning_sent);
    answer_adds_up(stream, answer, answer_sent);
    assert(stream.fits(text));
    assert(deltas.len() <= 2);
    let more_reasoning = reasoning.skip(reasoning_sent.len() as int);
    let more_answer = sent_of(answer_sent, answer).skip(answer_sent.len() as int);
    assert(reasoning_in(deltas) =~= more_reasoning && content_in(deltas) =~= more_answer) by {
        reveal_with_fuel(reasoning_in, 3);
        reveal_with_fuel(content_in, 3);
        if deltas.len() == 2 {
            assert(deltas.drop_last().drop_last() =~= Seq::empty());
        }
    }
}

/// A range that ends within a prefix is a range of the prefix.
proof fn range_in_prefix(head: Seq<char>, tail: Seq<char>, from: int)
    requires
        0 <= from <= text::byte_len(head),
    ensures
        text::byte_range(head + tail, from, text::byte_len(head) as int) == text::byte_range(
            head,
            from,
            text::byte_len(head) as int,
        ),
{
    text::encode_concat(head, tail);
    let len = text::byte_len(head) as int;
    assert(encode_utf8(head + tail).subrange(from, len) =~= encode_utf8(head).subrange(from, len));
}

} // verus!
