//! Tokenizer files whose parts always give an answer.
//!
//! A tokenizer file can ask for things that the `tokenizers` crate has no answer to: it then
//! stops the program, when the file is read or later, on some text. A file is vetted before
//! it is read, part by part:
//!
//! - The texts are cut off at a length that is more than the stride, or not at all, and they
//!   are not filled up to a fixed length.
//! - No space is looked for both before a token and behind one: the two can claim one space.
//! - Normalizers leave something of every text. A token that is left empty is found inside of
//!   characters.
//! - Nothing is split into pieces of a fixed length, which can be zero.
//! - Regular expressions are of the kind that splits words, without counts and without
//!   marks for where a match begins.
//! - Templates hold the text once, and no second text, which there is not.
//! - Decoders take no token for granted, nor any character of one.
//! - The model is one with a vocabulary whose ids leave room for more, and it takes no prefix
//!   off the tokens that it merges.

use vstd::prelude::*;
use vstd::string::*;

use serde_json::Value;

use crate::json;
use crate::json::{as_array, as_bool, as_integer, as_object, as_text, entries, is_null, JsonView};
use crate::text;
use crate::text::{chars_of, same_text};

verus! {

/// How long the text of a tokenizer file can be, in bytes.
pub const FILE_LIMIT: usize = 0x4000_0000;

/// How deep the parts of a file can be nested: JSON texts are not read beyond that.
pub const DEPTH_LIMIT: usize = 128;

/// The largest id in a vocabulary.
pub const ID_LIMIT: i64 = 0x7fff_ffff;

/// A part of a tokenizer.
#[derive(Debug, Clone, Copy, PartialEq, Eq, Structural)]
pub enum Part {
    Normalizer,
    PreTokenizer,
    PostProcessor,
    Decoder,
}

// ---------------------------------------------------------------------------
// Regular expressions
// ---------------------------------------------------------------------------

/// A letter that stands for a kind of characters, or for one, behind a backslash.
pub open spec fn is_kind_letter(c: char) -> bool {
    ||| c == 'r' || c == 'n' || c == 't'
    ||| c == 's' || c == 'S' || c == 'd' || c == 'D' || c == 'w' || c == 'W'
    ||| c == 'p' || c == 'P'
}

/// A mark that stands for itself behind a backslash.
pub open spec fn is_mark(c: char) -> bool {
    ||| '!' <= c <= '/'
    ||| ':' <= c <= ';' || c == '=' || '?' <= c <= '@'
    ||| '[' <= c <= '`'
    ||| '{' <= c <= '~'
}

/// What stands at `i` in a regular expression is plain: a backslash is followed by a letter
/// for a kind of characters, or by a mark; a brace opens the name of such a kind, or a count from one to
/// three; a group has no number or name of its own, or looks ahead.
pub open spec fn is_plain_at(s: Seq<char>, i: int) -> bool {
    &&& s[i] == '\\' ==> i + 1 < s.len() && (is_kind_letter(s[i + 1]) || is_mark(s[i + 1]))
    &&& s[i] == '{' ==> {
        ||| i >= 2 && s[i - 2] == '\\' && (s[i - 1] == 'p' || s[i - 1] == 'P')
        ||| i + 4 < s.len() && s[i + 1] == '1' && s[i + 2] == ',' && s[i + 3] == '3' && s[i + 4]
            == '}'
    }
    &&& s[i] == '(' && i + 1 < s.len() && s[i + 1] == '?' ==> i + 2 < s.len() && {
        ||| s[i + 2] == ':' || s[i + 2] == '!' || s[i + 2] == '='
        ||| s[i + 2] == 'i' && i + 3 < s.len() && s[i + 3] == ':'
    }
}

/// A regular expression without anything out of the plain.
pub open spec fn is_plain_pattern(s: Seq<char>) -> bool {
    forall|i: int| 0 <= i < s.len() ==> #[trigger] is_plain_at(s, i)
}

fn kind_letter(c: char) -> (answer: bool)
    ensures
        answer == is_kind_letter(c),
{
    c == 'r' || c == 'n' || c == 't' || c == 's' || c == 'S' || c == 'd' || c == 'D' || c == 'w'
        || c == 'W' || c == 'p' || c == 'P'
}

fn mark(c: char) -> (answer: bool)
    ensures
        answer == is_mark(c),
{
    ('!' <= c && c <= '/') || (':' <= c && c <= ';') || c == '=' || ('?' <= c && c <= '@') || (
    '[' <= c && c <= '`') || ('{' <= c && c <= '~')
}

fn plain_at(s: &[char], i: usize) -> (answer: bool)
    requires
        i < s@.len(),
    ensures
        answer == is_plain_at(s@, i as int),
{
    let len: usize = s.len();
    let left: usize = len - i;
    if s[i] == '\\' {
        left > 1 && (kind_letter(s[i + 1]) || mark(s[i + 1]))
    } else if s[i] == '{' {
        (i >= 2 && s[i - 2] == '\\' && (s[i - 1] == 'p' || s[i - 1] == 'P')) || (left > 4 && s[i
            + 1] == '1' && s[i + 2] == ',' && s[i + 3] == '3' && s[i + 4] == '}')
    } else if s[i] == '(' && left > 1 && s[i + 1] == '?' {
        left > 2 && (s[i + 2] == ':' || s[i + 2] == '!' || s[i + 2] == '=' || (s[i + 2] == 'i'
            && left > 3 && s[i + 3] == ':'))
    } else {
        true
    }
}

/// Whether a regular expression has nothing out of the plain.
pub fn plain_pattern(pattern: &str) -> (answer: bool)
    ensures
        answer == is_plain_pattern(pattern@),
{
    let chars = chars_of(pattern);
    let len: usize = chars.len();
    let mut i: usize = 0;
    while i < len
        invariant
            i <= len,
            len == chars@.len(),
            chars@ == pattern@,
            forall|j: int| 0 <= j < i ==> #[trigger] is_plain_at(chars@, j),
        decreases len - i,
    {
        if !plain_at(&chars, i) {
            assert(!is_plain_at(pattern@, i as int));
            return false;
        }
        i += 1;
    }
    true
}

// ---------------------------------------------------------------------------
// Parts
// ---------------------------------------------------------------------------

/// A member that is absent, or null.
pub open spec fn is_absent(member: Option<JsonView>) -> bool {
    match member {
        None => true,
        Some(value) => value is Null,
    }
}

/// The text of a member, where it is one.
pub open spec fn text_in(value: JsonView, key: Seq<char>) -> Option<Seq<char>> {
    match json::json_member(value, key) {
        Some(JsonView::Text(text)) => Some(text),
        _ => None,
    }
}

/// The number of a member, where it is one.
pub open spec fn integer_in(value: JsonView, key: Seq<char>) -> Option<i64> {
    match json::json_member(value, key) {
        Some(JsonView::Number(number, _)) => number,
        _ => None,
    }
}

/// A pattern that is looked for: a text as it is, or a plain regular expression.
pub open spec fn has_plain_pattern(value: JsonView) -> bool {
    match json::json_member(value, "pattern"@) {
        Some(pattern) => match json::json_member(pattern, "Regex"@) {
            Some(JsonView::Text(regex)) => is_plain_pattern(regex),
            Some(_) => false,
            None => true,
        },
        None => true,
    }
}

/// A piece of a template that stands for a text.
pub open spec fn is_text_piece(piece: JsonView) -> bool {
    json::json_member(piece, "Sequence"@) is Some
}

/// A piece of a template that stands for no text but the first.
pub open spec fn is_plain_piece(piece: JsonView) -> bool {
    match json::json_member(piece, "Sequence"@) {
        Some(sequence) => text_in(sequence, "id"@) == Some("A"@),
        None => true,
    }
}

/// How many pieces of a template stand for texts.
pub open spec fn text_pieces(pieces: Seq<JsonView>) -> nat
    decreases pieces.len(),
{
    if pieces.len() == 0 {
        0
    } else {
        text_pieces(pieces.drop_last()) + if is_text_piece(pieces.last()) {
            1nat
        } else {
            0
        }
    }
}

/// Pieces of a template that hold the first text once, and no other.
pub open spec fn are_plain_pieces(pieces: Seq<JsonView>) -> bool {
    &&& text_pieces(pieces) == 1
    &&& forall|i: int| 0 <= i < pieces.len() ==> is_plain_piece(#[trigger] pieces[i])
}

/// A template for one text, where there is one, holds it once, and no other.
pub open spec fn has_plain_template(value: JsonView) -> bool {
    match json::json_member(value, "single"@) {
        None => true,
        Some(JsonView::Array(pieces)) => are_plain_pieces(pieces),
        Some(_) => false,
    }
}

/// A part of this kind, which is no sequence of others, always gives an answer.
pub open spec fn is_single(part: Part, kind: Seq<char>, value: JsonView) -> bool {
    match part {
        Part::Normalizer => {
            ||| kind == "NFC"@ || kind == "NFD"@ || kind == "NFKC"@ || kind == "NFKD"@
            ||| kind == "Lowercase"@ || kind == "ByteLevel"@
        },
        Part::PreTokenizer => {
            ||| kind == "ByteLevel"@ || kind == "Metaspace"@ || kind == "Whitespace"@
            ||| kind == "WhitespaceSplit"@ || kind == "Punctuation"@ || kind == "Digits"@
            ||| kind == "BertPreTokenizer"@ || kind == "UnicodeScripts"@
            ||| kind == "Split"@ && has_plain_pattern(value)
        },
        Part::PostProcessor => {
            ||| kind == "ByteLevel"@ || kind == "RobertaProcessing"@ || kind == "BertProcessing"@
            ||| kind == "TemplateProcessing"@
        },
        Part::Decoder => {
            ||| kind == "ByteLevel"@ || kind == "Metaspace"@ || kind == "WordPiece"@
            ||| kind == "CTC"@ || kind == "Fuse"@ || kind == "ByteFallback"@
            ||| kind == "Replace"@ && has_plain_pattern(value)
            ||| kind == "Strip"@ && integer_in(value, "stop"@) == Some(0i64)
        },
    }
}

/// Under which key a sequence has its parts.
pub open spec fn list_key(part: Part) -> Seq<char> {
    match part {
        Part::Normalizer => "normalizers"@,
        Part::PreTokenizer => "pretokenizers"@,
        Part::PostProcessor => "processors"@,
        Part::Decoder => "decoders"@,
    }
}

/// Each of the parts of a sequence always gives an answer.
pub open spec fn are_vetted_parts(part: Part, values: Seq<JsonView>, depth: nat) -> bool
    decreases depth, 1nat,
{
    forall|i: int| 0 <= i < values.len() ==> is_vetted_part(part, #[trigger] values[i], depth)
}

/// A part always gives an answer: each of its parts does, where it is a sequence.
pub open spec fn is_vetted_part(part: Part, value: JsonView, depth: nat) -> bool
    decreases depth, 0nat,
{
    &&& part is PostProcessor ==> has_plain_template(value)
    &&& match text_in(value, "type"@) {
        None => false,
        Some(kind) => if kind == "Sequence"@ {
            &&& depth > 0
            &&& match json::json_member(value, list_key(part)) {
                Some(JsonView::Array(parts)) => are_vetted_parts(part, parts, (depth - 1) as nat),
                _ => false,
            }
        } else {
            is_single(part, kind, value)
        },
    }
}

fn absent(member: Option<&Value>) -> (answer: bool)
    ensures
        answer == is_absent(match member {
            Some(value) => Some(json::json_view(*value)),
            None => None,
        }),
{
    match member {
        None => true,
        Some(value) => is_null(value),
    }
}

fn member_text<'a>(value: &'a Value, key: &str) -> (found: Option<&'a str>)
    ensures
        match (found, text_in(json::json_view(*value), key@)) {
            (Some(found), Some(text)) => found@ == text,
            (None, None) => true,
            _ => false,
        },
{
    match json::member(value, key) {
        Some(found) => as_text(found),
        None => None,
    }
}

fn member_integer(value: &Value, key: &str) -> (found: Option<i64>)
    ensures
        found == integer_in(json::json_view(*value), key@),
{
    match json::member(value, key) {
        Some(found) => as_integer(found),
        None => None,
    }
}

fn plain_pattern_in(value: &Value) -> (answer: bool)
    ensures
        answer == has_plain_pattern(json::json_view(*value)),
{
    match json::member(value, "pattern") {
        Some(pattern) => match json::member(pattern, "Regex") {
            Some(regex) => match as_text(regex) {
                Some(regex) => plain_pattern(regex),
                None => false,
            },
            None => true,
        },
        None => true,
    }
}

fn plain_template_in(value: &Value) -> (answer: bool)
    ensures
        answer == has_plain_template(json::json_view(*value)),
{
    let pieces = match json::member(value, "single") {
        Some(single) => match as_array(single) {
            Some(pieces) => pieces,
            None => {
                return false;
            },
        },
        None => {
            return true;
        },
    };
    let ghost views = json::json_views(pieces@);
    let len: usize = pieces.len();
    let mut texts: usize = 0;
    let mut i: usize = 0;
    assert(views.take(0) =~= Seq::empty());
    while i < len
        invariant
            i <= len,
            len == pieces@.len(),
            views == json::json_views(pieces@),
            json::json_member(json::json_view(*value), "single"@) == Some(JsonView::Array(views)),
            texts == text_pieces(views.take(i as int)),
            texts <= i,
            forall|j: int| 0 <= j < i ==> is_plain_piece(#[trigger] views[j]),
        decreases len - i,
    {
        assert(views.take(i + 1).drop_last() =~= views.take(i as int));
        assert(views.take(i + 1).last() == views[i as int]);
        if let Some(sequence) = json::member(&pieces[i], "Sequence") {
            let first = match member_text(sequence, "id") {
                Some(id) => same_text(id, "A"),
                None => false,
            };
            if !first {
                assert(!is_plain_piece(views[i as int]));
                return false;
            }
            texts += 1;
        }
        i += 1;
    }
    assert(views.take(i as int) =~= views);
    texts == 1
}

fn single(part: Part, kind: &str, value: &Value) -> (answer: bool)
    ensures
        answer == is_single(part, kind@, json::json_view(*value)),
{
    match part {
        Part::Normalizer => same_text(kind, "NFC") || same_text(kind, "NFD") || same_text(
            kind,
            "NFKC",
        ) || same_text(kind, "NFKD") || same_text(kind, "Lowercase") || same_text(
            kind,
            "ByteLevel",
        ),
        Part::PreTokenizer => same_text(kind, "ByteLevel") || same_text(kind, "Metaspace")
            || same_text(kind, "Whitespace") || same_text(kind, "WhitespaceSplit") || same_text(
            kind,
            "Punctuation",
        ) || same_text(kind, "Digits") || same_text(kind, "BertPreTokenizer") || same_text(
            kind,
            "UnicodeScripts",
        ) || (same_text(kind, "Split") && plain_pattern_in(value)),
        Part::PostProcessor => same_text(kind, "ByteLevel") || same_text(kind, "RobertaProcessing")
            || same_text(kind, "BertProcessing") || same_text(kind, "TemplateProcessing"),
        Part::Decoder => same_text(kind, "ByteLevel") || same_text(kind, "Metaspace") || same_text(
            kind,
            "WordPiece",
        ) || same_text(kind, "CTC") || same_text(kind, "Fuse") || same_text(kind, "ByteFallback")
            || (same_text(kind, "Replace") && plain_pattern_in(value)) || (same_text(kind, "Strip")
            && match member_integer(value, "stop") {
            Some(stop) => stop == 0,
            None => false,
        }),
    }
}

fn key_of_list(part: Part) -> (key: &'static str)
    ensures
        key@ == list_key(part),
{
    match part {
        Part::Normalizer => "normalizers",
        Part::PreTokenizer => "pretokenizers",
        Part::PostProcessor => "processors",
        Part::Decoder => "decoders",
    }
}

/// Whether a part always gives an answer.
fn vetted_part(part: Part, value: &Value, depth: usize) -> (answer: bool)
    ensures
        answer == is_vetted_part(part, json::json_view(*value), depth as nat),
    decreases depth,
{
    let ghost view = json::json_view(*value);
    match part {
        Part::PostProcessor => {
            if !plain_template_in(value) {
                return false;
            }
        },
        _ => {},
    }
    let kind = match member_text(value, "type") {
        Some(kind) => kind,
        None => {
            return false;
        },
    };
    if !same_text(kind, "Sequence") {
        return single(part, kind, value);
    }
    if depth == 0 {
        return false;
    }
    let parts = match json::member(value, key_of_list(part)) {
        Some(list) => match as_array(list) {
            Some(parts) => parts,
            None => {
                return false;
            },
        },
        None => {
            return false;
        },
    };
    let ghost views = json::json_views(parts@);
    assert(json::json_member(view, list_key(part)) == Some(JsonView::Array(views)));
    let len: usize = parts.len();
    let mut i: usize = 0;
    while i < len
        invariant
            i <= len,
            len == parts@.len(),
            views == json::json_views(parts@),
            view == json::json_view(*value),
            text_in(view, "type"@) == Some("Sequence"@),
            json::json_member(view, list_key(part)) == Some(JsonView::Array(views)),
            depth > 0,
            forall|j: int|
                0 <= j < i ==> is_vetted_part(part, #[trigger] views[j], (depth - 1) as nat),
        decreases len - i,
    {
        if !vetted_part(part, &parts[i], depth - 1) {
            assert(!is_vetted_part(part, views[i as int], (depth - 1) as nat));
            assert(!are_vetted_parts(part, views, (depth - 1) as nat));
            return false;
        }
        i += 1;
    }
    assert(are_vetted_parts(part, views, (depth - 1) as nat));
    true
}

// ---------------------------------------------------------------------------
// Files
// ---------------------------------------------------------------------------

/// A part that a file may have always gives an answer.
pub open spec fn has_vetted_part(file: JsonView, key: Seq<char>, part: Part) -> bool {
    match json::json_member(file, key) {
        None => true,
        Some(value) => value is Null || is_vetted_part(part, value, DEPTH_LIMIT as nat),
    }
}

/// Texts are cut off, if at all, at a length that is more than the stride.
pub open spec fn has_vetted_truncation(file: JsonView) -> bool {
    match json::json_member(file, "truncation"@) {
        None => true,
        Some(value) => value is Null || match (
            integer_in(value, "max_length"@),
            integer_in(value, "stride"@),
        ) {
            (Some(max), Some(stride)) => max == 0 || stride < max,
            _ => false,
        },
    }
}

/// Texts are filled up, if at all, to the length of the longest.
pub open spec fn has_vetted_padding(file: JsonView) -> bool {
    match json::json_member(file, "padding"@) {
        None => true,
        Some(value) => value is Null || {
            &&& text_in(value, "strategy"@) == Some("BatchLongest"@)
            &&& is_absent(json::json_member(value, "pad_to_multiple_of"@))
        },
    }
}

/// A token takes the space on one side of it.
pub open spec fn takes_space(token: JsonView, side: Seq<char>) -> bool {
    json::json_member(token, side) == Some(JsonView::Bool(true))
}

/// Some token takes the space on one side of it.
pub open spec fn any_takes_space(tokens: Seq<JsonView>, side: Seq<char>) -> bool {
    exists|i: int| 0 <= i < tokens.len() && #[trigger] takes_space(tokens[i], side)
}

/// Tokens do not take the spaces on both sides.
pub open spec fn has_vetted_tokens(file: JsonView) -> bool {
    match json::json_member(file, "added_tokens"@) {
        None => true,
        Some(JsonView::Array(tokens)) => !(any_takes_space(tokens, "lstrip"@) && any_takes_space(
            tokens,
            "rstrip"@,
        )),
        Some(_) => false,
    }
}

/// An id that leaves room for more.
pub open spec fn is_small_id(id: JsonView) -> bool {
    match id {
        JsonView::Number(Some(id), _) => id <= ID_LIMIT,
        _ => false,
    }
}

/// Ids that leave room for more.
pub open spec fn are_small_ids(ids: Seq<(Seq<char>, JsonView)>) -> bool {
    forall|i: int| 0 <= i < ids.len() ==> is_small_id((#[trigger] ids[i]).1)
}

/// The model has a vocabulary with small ids, and takes no prefix off what it merges.
pub open spec fn has_vetted_model(file: JsonView) -> bool {
    match json::json_member(file, "model"@) {
        None => false,
        Some(model) => {
            &&& match text_in(model, "type"@) {
                None => false,
                Some(kind) => {
                    ||| kind == "WordLevel"@ || kind == "WordPiece"@
                    ||| kind == "BPE"@ && (is_absent(
                        json::json_member(model, "continuing_subword_prefix"@),
                    ) || text_in(model, "continuing_subword_prefix"@) == Some(Seq::<char>::empty()))
                },
            }
            &&& match json::json_member(model, "vocab"@) {
                Some(JsonView::Object(ids)) => are_small_ids(ids),
                _ => false,
            }
        },
    }
}

/// A tokenizer file whose parts always give an answer.
pub open spec fn is_vetted_file(file: JsonView) -> bool {
    &&& has_vetted_truncation(file)
    &&& has_vetted_padding(file)
    &&& has_vetted_tokens(file)
    &&& has_vetted_part(file, "normalizer"@, Part::Normalizer)
    &&& has_vetted_part(file, "pre_tokenizer"@, Part::PreTokenizer)
    &&& has_vetted_part(file, "post_processor"@, Part::PostProcessor)
    &&& has_vetted_part(file, "decoder"@, Part::Decoder)
    &&& has_vetted_model(file)
}

/// The text of such a file, in the compact form, which has every key once.
pub open spec fn is_vetted_text(text: Seq<char>) -> bool {
    &&& text::byte_len(text) <= FILE_LIMIT
    &&& exists|file: JsonView| text == #[trigger] json::json_text(file) && is_vetted_file(file)
}

fn part_is_vetted(file: &Value, key: &str, part: Part) -> (answer: bool)
    ensures
        answer == has_vetted_part(json::json_view(*file), key@, part),
{
    match json::member(file, key) {
        None => true,
        Some(value) => is_null(value) || vetted_part(part, value, DEPTH_LIMIT),
    }
}

fn truncation_is_vetted(file: &Value) -> (answer: bool)
    ensures
        answer == has_vetted_truncation(json::json_view(*file)),
{
    match json::member(file, "truncation") {
        None => true,
        Some(value) => is_null(value) || match (
            member_integer(value, "max_length"),
            member_integer(value, "stride"),
        ) {
            (Some(max), Some(stride)) => max == 0 || stride < max,
            _ => false,
        },
    }
}

fn padding_is_vetted(file: &Value) -> (answer: bool)
    ensures
        answer == has_vetted_padding(json::json_view(*file)),
{
    match json::member(file, "padding") {
        None => true,
        Some(value) => is_null(value) || (match member_text(value, "strategy") {
            Some(strategy) => same_text(strategy, "BatchLongest"),
            None => false,
        } && absent(json::member(value, "pad_to_multiple_of"))),
    }
}

fn space_is_taken(tokens: &[Value], side: &str) -> (answer: bool)
    ensures
        answer == any_takes_space(json::json_views(tokens@), side@),
{
    let ghost views = json::json_views(tokens@);
    let len: usize = tokens.len();
    let mut i: usize = 0;
    while i < len
        invariant
            i <= len,
            len == tokens@.len(),
            views == json::json_views(tokens@),
            forall|j: int| 0 <= j < i ==> !#[trigger] takes_space(views[j], side@),
        decreases len - i,
    {
        let taken = match json::member(&tokens[i], side) {
            Some(flag) => match as_bool(flag) {
                Some(flag) => flag,
                None => false,
            },
            None => false,
        };
        assert(taken == takes_space(views[i as int], side@));
        if taken {
            return true;
        }
        i += 1;
    }
    false
}

fn tokens_are_vetted(file: &Value) -> (answer: bool)
    ensures
        answer == has_vetted_tokens(json::json_view(*file)),
{
    match json::member(file, "added_tokens") {
        None => true,
        Some(value) => match as_array(value) {
            Some(tokens) => !(space_is_taken(tokens, "lstrip") && space_is_taken(tokens, "rstrip")),
            None => false,
        },
    }
}

fn ids_are_small(vocab: &Value) -> (answer: bool)
    ensures
        answer == (match json::json_view(*vocab) {
            JsonView::Object(ids) => are_small_ids(ids),
            _ => false,
        }),
{
    let map = match as_object(vocab) {
        Some(map) => map,
        None => {
            return false;
        },
    };
    let ids = entries(map);
    let ghost views = json::json_entries(*map);
    let len: usize = ids.len();
    let mut i: usize = 0;
    while i < len
        invariant
            i <= len,
            len == ids@.len(),
            len == views.len(),
            json::json_view(*vocab) == JsonView::Object(views),
            forall|j: int|
                0 <= j < len ==> json::json_view(*(#[trigger] ids@[j]).1) == views[j].1,
            forall|j: int| 0 <= j < i ==> is_small_id((#[trigger] views[j]).1),
        decreases len - i,
    {
        let small = match as_integer(ids[i].1) {
            Some(id) => id <= ID_LIMIT,
            None => false,
        };
        assert(small == is_small_id(views[i as int].1));
        if !small {
            assert(!are_small_ids(views));
            return false;
        }
        i += 1;
    }
    true
}

fn model_is_vetted(file: &Value) -> (answer: bool)
    ensures
        answer == has_vetted_model(json::json_view(*file)),
{
    let model = match json::member(file, "model") {
        Some(model) => model,
        None => {
            return false;
        },
    };
    let kind = match member_text(model, "type") {
        Some(kind) => kind,
        None => {
            return false;
        },
    };
    if !same_text(kind, "WordLevel") && !same_text(kind, "WordPiece") {
        if !same_text(kind, "BPE") {
            return false;
        }
        let empty = match member_text(model, "continuing_subword_prefix") {
            Some(prefix) => {
                proof {
                    reveal_strlit("");
                    assert(""@ =~= Seq::empty());
                }
                same_text(prefix, "")
            },
            None => false,
        };
        if !empty && !absent(json::member(model, "continuing_subword_prefix")) {
            return false;
        }
    }
    match json::member(model, "vocab") {
        Some(vocab) => ids_are_small(vocab),
        None => false,
    }
}

/// Whether the parts of a tokenizer file always give an answer.
pub fn vetted_file(file: &Value) -> (answer: bool)
    ensures
        answer == is_vetted_file(json::json_view(*file)),
{
    truncation_is_vetted(file) && padding_is_vetted(file) && tokens_are_vetted(file)
        && part_is_vetted(file, "normalizer", Part::Normalizer) && part_is_vetted(
        file,
        "pre_tokenizer",
        Part::PreTokenizer,
    ) && part_is_vetted(file, "post_processor", Part::PostProcessor) && part_is_vetted(
        file,
        "decoder",
        Part::Decoder,
    ) && model_is_vetted(file)
}

} // verus!
