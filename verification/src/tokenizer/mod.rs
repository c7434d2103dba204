//! Chat text: the prompt template, the tokenizer, and what generated text holds.

use vstd::prelude::*;
use vstd::string::*;

use tokenizers::Tokenizer as HfTokenizer;

use crate::json;
use crate::text;
use crate::text::{
    byte_count, chars_of, find_in, join, join3, line_in, quoted, string_of, trim_range,
};
use crate::tokenizer::vetted::{vetted_file, FILE_LIMIT};

pub mod calls;
pub mod laws;
pub mod said;
pub mod template;
pub mod vetted;

pub use crate::tokenizer::calls::{parse_tool_calls, split_tool_calls, ChatToolCall};
pub use crate::tokenizer::template::ChatMessage;

verus! {

/// `tokenizers::Tokenizer`.
#[verifier::external_type_specification]
#[verifier::external_body]
pub struct ExTokenizer(tokenizers::Tokenizer);

/// `outcome` can come of reading the tokenizer file with the text `json`: the tokenizer, or
/// why there is none.
pub uninterp spec fn loads_as(
    json: Seq<char>,
    outcome: Result<tokenizers::Tokenizer, Seq<char>>,
) -> bool;

/// The id of a token that the tokenizer knows.
pub uninterp spec fn token_id(tokenizer: tokenizers::Tokenizer, token: Seq<char>) -> Option<u32>;

/// `outcome` can come of tokenizing `text`, special tokens in the text being taken as such
/// and none being added: the ids of the tokens, or why there are none.
pub uninterp spec fn encodes_as(
    tokenizer: tokenizers::Tokenizer,
    text: Seq<char>,
    outcome: Result<Seq<u32>, Seq<char>>,
) -> bool;

/// The text of the tokens, without the special ones, or why there is none.
pub uninterp spec fn decoded(tokenizer: tokenizers::Tokenizer, ids: Seq<u32>) -> Result<
    Seq<char>,
    Seq<char>,
>;

/// A tokenizer that comes of reading a vetted file.
pub open spec fn is_vetted(tokenizer: tokenizers::Tokenizer) -> bool {
    exists|json: Seq<char>| #[trigger]
        loads_as(json, Ok(tokenizer)) && vetted::is_vetted_text(json)
}

/// `Tokenizer::from_str`: reads the text of a tokenizer file. What comes of it is only
/// said to be one of the outcomes that there are for this text: two tokens with one id may
/// be read in more than one way. A file that is not vetted may be one that cannot be read
/// at all: a decoder that is cut off, for one, or a normalizer with a broken table.
#[verifier::external_body]
fn read_tokenizer(json: &str) -> (read: Result<HfTokenizer, String>)
    requires
        vetted::is_vetted_text(json@),
    ensures
        match read {
            Ok(tokenizer) => loads_as(json@, Ok(tokenizer)),
            Err(reason) => loads_as(json@, Err(reason@)),
        },
{
    json.parse::<HfTokenizer>().map_err(|e| e.to_string())
}

/// `Tokenizer::token_to_id`: the id of a token.
#[verifier::external_body]
fn token_to_id(tokenizer: &HfTokenizer, token: &str) -> (id: Option<u32>)
    ensures
        id == token_id(*tokenizer, token@),
{
    tokenizer.token_to_id(token)
}

/// `Tokenizer::encode`, adding no special tokens, and the ids of what it gives. The
/// outcome is only said to be one of those that there are for this text: a model with
/// dropout tokenizes by chance. A tokenizer whose file is not vetted may have no outcome for
/// a text: with a stride that is no less than the length at which texts are cut off, for one.
#[verifier::external_body]
fn encode_ids(tokenizer: &HfTokenizer, text: &str) -> (ids: Result<Vec<u32>, String>)
    requires
        is_vetted(*tokenizer),
    ensures
        match ids {
            Ok(ids) => encodes_as(*tokenizer, text@, Ok(ids@)),
            Err(reason) => encodes_as(*tokenizer, text@, Err(reason@)),
        },
{
    match tokenizer.encode(text, false) {
        Ok(encoding) => Ok(encoding.get_ids().to_vec()),
        Err(e) => Err(e.to_string()),
    }
}

/// `Tokenizer::decode`, leaving out the special tokens: the text of the tokens. A tokenizer
/// whose file is not vetted may have none: with a decoder that takes characters off the end
/// of an empty token, for one.
#[verifier::external_body]
fn decode_ids(tokenizer: &HfTokenizer, ids: &[u32]) -> (text: Result<String, String>)
    requires
        is_vetted(*tokenizer),
    ensures
        match text {
            Ok(text) => decoded(*tokenizer, ids@) == Ok::<Seq<char>, Seq<char>>(text@),
            Err(reason) => decoded(*tokenizer, ids@) == Err::<Seq<char>, Seq<char>>(reason@),
        },
{
    tokenizer.decode(ids, true).map_err(|e| e.to_string())
}

/// `Tokenizer::clone`: a tokenizer that comes of the same files, knows the same tokens, and
/// has the same outcomes.
pub assume_specification[ <tokenizers::Tokenizer as Clone>::clone ](
    held: &tokenizers::Tokenizer,
) -> (twin: tokenizers::Tokenizer)
    ensures
        forall|json: Seq<char>|
            loads_as(json, Ok(*held)) ==> #[trigger] loads_as(json, Ok(twin)),
        forall|token: Seq<char>| #[trigger] token_id(twin, token) == token_id(*held, token),
        forall|text: Seq<char>, outcome: Result<Seq<u32>, Seq<char>>| #[trigger]
            encodes_as(twin, text, outcome) == encodes_as(*held, text, outcome),
        forall|ids: Seq<u32>| #[trigger] decoded(twin, ids) == decoded(*held, ids),
;

/// A tokenizer with the ids of its chat tokens.
pub struct ChatTokenizer {
    inner: HfTokenizer,
    eos: u32,
    im_start: u32,
    im_end: u32,
}

impl Clone for ChatTokenizer {
    fn clone(&self) -> (copy: Self)
        ensures
            forall|token: Seq<char>| #[trigger]
                token_id(copy.tokenizer(), token) == token_id(self.tokenizer(), token),
            forall|text: Seq<char>, outcome: Result<Seq<u32>, Seq<char>>| #[trigger]
                encodes_as(copy.tokenizer(), text, outcome) == encodes_as(
                    self.tokenizer(),
                    text,
                    outcome,
                ),
            forall|ids: Seq<u32>| #[trigger]
                decoded(copy.tokenizer(), ids) == decoded(self.tokenizer(), ids),
    {
        proof {
            use_type_invariant(self);
        }
        let inner = self.inner.clone();
        proof {
            let json = choose|json: Seq<char>| #[trigger]
                loads_as(json, Ok(self.inner)) && vetted::is_vetted_text(json);
            assert(loads_as(json, Ok(inner)));
        }
        ChatTokenizer { inner, eos: self.eos, im_start: self.im_start, im_end: self.im_end }
    }
}

/// The id of a special token that the tokenizer must know.
fn id_of(tokenizer: &HfTokenizer, token: &str) -> (id: Result<u32, String>)
    ensures
        match id {
            Ok(id) => token_id(*tokenizer, token@) == Some(id),
            Err(message) => token_id(*tokenizer, token@) is None && message@ == missing(token@),
        },
{
    match token_to_id(tokenizer, token) {
        Some(id) => Ok(id),
        None => Err(join("tokenizer missing special token ", quoted(token).as_str())),
    }
}

/// What is said of a special token that the tokenizer does not know.
pub open spec fn missing(token: Seq<char>) -> Seq<char> {
    "tokenizer missing special token "@ + text::debug_text(token)
}

/// What is said of a tokenizer file that cannot be loaded.
pub open spec fn unloadable(path: Seq<char>, reason: Seq<char>) -> Seq<char> {
    "failed to load tokenizer "@ + path + ": "@ + reason
}

/// The text of a tokenizer file that is read: the compact form of the file; or why it is not
/// read.
pub open spec fn file_text(json: Seq<char>) -> Result<Seq<char>, Seq<char>> {
    match json::json_parse(json) {
        None => Err("it is no JSON text"@),
        Some(file) => if !vetted::is_vetted_file(file) {
            Err("it asks for a part that is not supported"@)
        } else if text::byte_len(json::json_text(file)) > FILE_LIMIT {
            Err("it is too long"@)
        } else {
            Ok(json::json_text(file))
        },
    }
}

/// What is said where no tokenizer comes of reading the text of a file: why it cannot be
/// read, or which of the chat tokens it does not know.
pub open spec fn fails_with(path: Seq<char>, text: Seq<char>, message: Seq<char>) -> bool {
    ||| exists|reason: Seq<char>| #[trigger]
        loads_as(text, Err(reason)) && message == unloadable(path, reason)
    ||| exists|tokenizer: tokenizers::Tokenizer|
        {
            &&& #[trigger] loads_as(text, Ok(tokenizer))
            &&& token_id(tokenizer, "<|im_end|>"@) is None
            &&& message == missing("<|im_end|>"@)
        }
    ||| exists|tokenizer: tokenizers::Tokenizer|
        {
            &&& #[trigger] loads_as(text, Ok(tokenizer))
            &&& token_id(tokenizer, "<|im_end|>"@) is Some
            &&& token_id(tokenizer, "<|im_start|>"@) is None
            &&& message == missing("<|im_start|>"@)
        }
}

fn unloadable_message(path: &str, reason: &str) -> (message: String)
    ensures
        message@ == unloadable(path@, reason@),
{
    let mut message = join3("failed to load tokenizer ", path, ": ");
    message.append(reason);
    message
}

impl ChatTokenizer {
    /// The tokenizer itself.
    pub closed spec fn tokenizer(&self) -> tokenizers::Tokenizer {
        self.inner
    }

    /// The stop token and the tokens that frame a turn are the ones of the tokenizer, whose
    /// file is vetted.
    #[verifier::type_invariant]
    closed spec fn well_formed(&self) -> bool {
        &&& is_vetted(self.inner)
        &&& token_id(self.inner, "<|im_end|>"@) == Some(self.eos)
        &&& token_id(self.inner, "<|im_start|>"@) == Some(self.im_start)
        &&& token_id(self.inner, "<|im_end|>"@) == Some(self.im_end)
    }

    /// Makes a tokenizer of the text of a tokenizer file, which was read from `path`. Only a
    /// file whose parts always give an answer is taken; see [`vetted`].
    pub fn load(path: &str, json: &str) -> (loaded: Result<Self, String>)
        ensures
            match file_text(json@) {
                Err(reason) => loaded matches Err(message) && message@ == unloadable(path@, reason),
                Ok(text) => match loaded {
                    Ok(loaded) => {
                        &&& loads_as(text, Ok(loaded.tokenizer()))
                        &&& token_id(loaded.tokenizer(), "<|im_end|>"@) is Some
                        &&& token_id(loaded.tokenizer(), "<|im_start|>"@) is Some
                    },
                    Err(message) => fails_with(path@, text, message@),
                },
            },
    {
        let file = match json::parse_text(json) {
            Some(file) => file,
            None => {
                return Err(unloadable_message(path, "it is no JSON text"));
            },
        };
        if !vetted_file(&file) {
            return Err(unloadable_message(path, "it asks for a part that is not supported"));
        }
        let text = json::text_of(&file);
        if byte_count(text.as_str()) > FILE_LIMIT {
            return Err(unloadable_message(path, "it is too long"));
        }
        assert(vetted::is_vetted_text(text@));
        let inner = match read_tokenizer(text.as_str()) {
            Ok(inner) => inner,
            Err(reason) => {
                assert(loads_as(text@, Err(reason@)));
                return Err(unloadable_message(path, reason.as_str()));
            },
        };
        assert(loads_as(text@, Ok(inner)));
        Self::with_ids(inner)
    }

    /// Looks the chat tokens up in a tokenizer that has been read.
    pub fn with_ids(inner: HfTokenizer) -> (made: Result<Self, String>)
        requires
            is_vetted(inner),
        ensures
            match made {
                Ok(made) => {
                    &&& made.tokenizer() == inner
                    &&& token_id(inner, "<|im_end|>"@) is Some
                    &&& token_id(inner, "<|im_start|>"@) is Some
                },
                Err(message) => if token_id(inner, "<|im_end|>"@) is None {
                    message@ == missing("<|im_end|>"@)
                } else {
                    &&& token_id(inner, "<|im_start|>"@) is None
                    &&& message@ == missing("<|im_start|>"@)
                },
            },
    {
        let eos = match id_of(&inner, "<|im_end|>") {
            Ok(id) => id,
            Err(message) => {
                return Err(message);
            },
        };
        let im_start = match id_of(&inner, "<|im_start|>") {
            Ok(id) => id,
            Err(message) => {
                return Err(message);
            },
        };
        let im_end = match id_of(&inner, "<|im_end|>") {
            Ok(id) => id,
            Err(message) => {
                return Err(message);
            },
        };
        Ok(ChatTokenizer { inner, eos, im_start, im_end })
    }

    /// The stop token: the one that closes a turn.
    pub fn eos(&self) -> (id: u32)
        ensures
            token_id(self.tokenizer(), "<|im_end|>"@) == Some(id),
    {
        proof {
            use_type_invariant(self);
        }
        self.eos
    }

    /// The token that opens a turn.
    pub fn im_start(&self) -> (id: u32)
        ensures
            token_id(self.tokenizer(), "<|im_start|>"@) == Some(id),
    {
        proof {
            use_type_invariant(self);
        }
        self.im_start
    }

    /// The token that closes a turn.
    pub fn im_end(&self) -> (id: u32)
        ensures
            token_id(self.tokenizer(), "<|im_end|>"@) == Some(id),
    {
        proof {
            use_type_invariant(self);
        }
        self.im_end
    }

    /// Tokenizes a text (special tokens in the text are recognized as such).
    pub fn encode(&self, text: &str) -> (ids: Result<Vec<u32>, String>)
        ensures
            match ids {
                Ok(ids) => encodes_as(self.tokenizer(), text@, Ok(ids@)),
                Err(message) => exists|reason: Seq<char>| #[trigger]
                    encodes_as(self.tokenizer(), text@, Err(reason)) && message@
                        == "tokenize failed: "@ + reason,
            },
    {
        proof {
            use_type_invariant(self);
        }
        match encode_ids(&self.inner, text) {
            Ok(ids) => Ok(ids),
            Err(reason) => {
                assert(encodes_as(self.tokenizer(), text@, Err(reason@)));
                Err(join("tokenize failed: ", reason.as_str()))
            },
        }
    }

    /// The text of a token sequence (special tokens skipped).
    pub fn decode(&self, ids: &[u32]) -> (text: Result<String, String>)
        ensures
            match (text, decoded(self.tokenizer(), ids@)) {
                (Ok(text), Ok(whole)) => text@ == whole,
                (Err(message), Err(reason)) => message@ == "detokenize failed: "@ + reason,
                _ => false,
            },
    {
        proof {
            use_type_invariant(self);
        }
        match decode_ids(&self.inner, ids) {
            Ok(text) => Ok(text),
            Err(reason) => Err(join("detokenize failed: ", reason.as_str())),
        }
    }

    /// Renders a conversation as a prompt; see [`template::apply_chat_template`].
    pub fn apply_chat_template(
        &self,
        messages: &[ChatMessage],
        enable_thinking: bool,
        reasoning_effort: Option<&str>,
        tools: &[String],
        add_generation_prompt: bool,
    ) -> (rendered: Result<String, String>)
        ensures
            match (
                rendered,
                template::prompt(
                    template::message_views(messages@),
                    enable_thinking,
                    template::effort_or_default(reasoning_effort),
                    text::texts(tools@),
                    add_generation_prompt,
                ),
            ) {
                (Ok(rendered), Ok(prompt)) => rendered@ == prompt,
                (Err(message), Err(reason)) => message@ == reason,
                _ => false,
            },
            rendered is Ok ==> template::are_messages_read_back(
                template::message_views(messages@),
            ),
    {
        template::apply_chat_template(
            messages,
            enable_thinking,
            reasoning_effort,
            tools,
            add_generation_prompt,
        )
    }

    /// Splits a generated turn into `(reasoning, answer)`. The generation prompt has
    /// already opened the reasoning when thinking is enabled, so the text up to the tag that
    /// closes it is the reasoning: `</think>`, or else a line ` response`. Without thinking
    /// the whole text is the answer.
    pub fn split_thinking(&self, text: &str, enable_thinking: bool) -> (split: (String, String))
        ensures
            split.0@ == reasoning_of(text@, enable_thinking),
            split.1@ == answer_of(text@, enable_thinking),
    {
        split_thinking(text, enable_thinking)
    }
}

/// Splits a generated turn into `(reasoning, answer)`; see
/// [`ChatTokenizer::split_thinking`].
pub fn split_thinking(text: &str, enable_thinking: bool) -> (split: (String, String))
    ensures
        split.0@ == reasoning_of(text@, enable_thinking),
        split.1@ == answer_of(text@, enable_thinking),
{
    if !enable_thinking {
        return (String::new(), text.to_owned());
    }
    let chars = chars_of(text);
    let end: usize = chars.len();
    match closing_tag(&chars) {
        Some((at, behind)) => {
            let range: (usize, usize) = trim_range(&chars, 0, at);
            assert(chars@.subrange(0, at as int) =~= chars@.take(at as int));
            let reasoning = string_of(&chars, range.0, range.1);
            let mut from: usize = behind;
            while from < end && chars[from] == '\n'
                invariant
                    behind <= from <= end,
                    end == chars@.len(),
                    after_newlines(chars@.skip(from as int)) == after_newlines(
                        chars@.skip(behind as int),
                    ),
                decreases end - from,
            {
                assert(chars@.skip(from as int).skip(1) =~= chars@.skip(from + 1));
                from += 1;
            }
            assert(chars@.subrange(from as int, end as int) =~= chars@.skip(from as int));
            (reasoning, string_of(&chars, from, end))
        },
        None => {
            let range: (usize, usize) = trim_range(&chars, 0, end);
            assert(chars@.subrange(0, end as int) =~= chars@);
            (string_of(&chars, range.0, range.1), String::new())
        },
    }
}

/// The tag that closes the reasoning: where it begins, and where it ends.
fn closing_tag(chars: &[char]) -> (tag: Option<(usize, usize)>)
    ensures
        match (tag, closing(chars@)) {
            (Some((at, behind)), Some((start, end))) => at == start && behind == end && at <= behind
                <= chars@.len(),
            (None, None) => true,
            _ => false,
        },
{
    let mark = chars_of("</think>");
    let end: usize = chars.len();
    assert(chars@.take(end as int) =~= chars@);
    if let Some(at) = find_in(chars, &mark, 0, end) {
        return Some((at, at + mark.len()));
    }
    let line = chars_of(" response");
    match line_in(chars, &line) {
        Some(at) => Some((at, at + line.len())),
        None => None,
    }
}

/// A text without the line breaks that it starts with.
pub open spec fn after_newlines(s: Seq<char>) -> Seq<char>
    decreases s.len(),
{
    if s.len() > 0 && s[0] == '\n' {
        after_newlines(s.skip(1))
    } else {
        s
    }
}

/// The tag that closes the reasoning of a generated turn, where it begins and where it ends:
/// the first `</think>`; without one, the first line that is ` response`.
pub open spec fn closing(text: Seq<char>) -> Option<(int, int)> {
    match text::find(text, "</think>"@) {
        Some(at) => Some((at, at + "</think>"@.len())),
        None => match text::find_line(text, " response"@) {
            Some(at) => Some((at, at + " response"@.len())),
            None => None,
        },
    }
}

/// The reasoning in a generated turn.
pub open spec fn reasoning_of(text: Seq<char>, enable_thinking: bool) -> Seq<char> {
    if enable_thinking {
        match closing(text) {
            Some((at, _)) => text::trim(text.take(at)),
            None => text::trim(text),
        }
    } else {
        Seq::empty()
    }
}

/// The answer in a generated turn: nothing, as long as the reasoning goes on.
pub open spec fn answer_of(text: Seq<char>, enable_thinking: bool) -> Seq<char> {
    if enable_thinking {
        match closing(text) {
            Some((_, behind)) => after_newlines(text.skip(behind)),
            None => Seq::empty(),
        }
    } else {
        text
    }
}

} // verus!
