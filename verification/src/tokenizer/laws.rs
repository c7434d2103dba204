//! What a conversation says of tool calls is what is read from it.

use vstd::prelude::*;
use vstd::string::*;

use crate::json;
use crate::json::JsonView;
use crate::text;
use crate::tokenizer;
use crate::tokenizer::calls;
use crate::tokenizer::calls::CallView;
use crate::tokenizer::template;
use crate::tokenizer::template::MessageView;

verus! {

// ---------------------------------------------------------------------------
// Searching in a text with tags
// ---------------------------------------------------------------------------

/// No tag begins in a text.
spec fn is_plain(s: Seq<char>) -> bool {
    forall|i: int| 0 <= i < s.len() ==> #[trigger] s[i] != '<'
}

/// A tag does not stand in a text.
pub open spec fn is_free_of(s: Seq<char>, tag: Seq<char>) -> bool {
    text::find(s, tag) is None
}

/// A tag is on one line.
spec fn is_on_a_line(tag: Seq<char>) -> bool {
    &&& tag.len() > 0
    &&& forall|i: int| 0 <= i < tag.len() ==> #[trigger] tag[i] != '\n'
}

/// A search can begin behind where nothing is found.
proof fn search_from_behind(s: Seq<char>, pattern: Seq<char>, from: int, to: int)
    requires
        0 <= from <= to,
        forall|i: int| from <= i < to ==> !#[trigger] text::occurs(s, pattern, i),
    ensures
        text::find_from(s, pattern, from) == text::find_from(s, pattern, to),
    decreases to - from,
{
    if from < to {
        assert(!text::occurs(s, pattern, from));
        search_from_behind(s, pattern, from + 1, to);
    }
}

/// `at`, moved on by `by`.
pub open spec fn moved(at: Option<int>, by: int) -> Option<int> {
    match at {
        Some(at) => Some(at + by),
        None => None,
    }
}

/// What is found behind a text in which nothing begins.
proof fn find_behind(a: Seq<char>, s: Seq<char>, pattern: Seq<char>)
    requires
        forall|i: int| 0 <= i < a.len() ==> !#[trigger] text::occurs(a + s, pattern, i),
    ensures
        text::find(a + s, pattern) == moved(text::find(s, pattern), a.len() as int),
{
    search_from_behind(a + s, pattern, 0, a.len() as int);
    text::find_in_tail(a + s, pattern, 0, a.len() as int);
    assert((a + s).skip(a.len() as int) =~= s);
}

/// A tag is not found in a text where no tag begins.
proof fn skip_plain(a: Seq<char>, s: Seq<char>, pattern: Seq<char>)
    requires
        is_plain(a),
        pattern.len() > 0,
        pattern[0] == '<',
    ensures
        text::find(a + s, pattern) == moved(text::find(s, pattern), a.len() as int),
{
    assert forall|i: int| 0 <= i < a.len() implies !#[trigger] text::occurs(a + s, pattern, i) by {
        if text::occurs(a + s, pattern, i) {
            assert((a + s).subrange(i, i + pattern.len())[0] == a[i]);
        }
    }
    find_behind(a, s, pattern);
}

/// A tag is not found in a line that it does not stand in, nor across its end.
proof fn skip_line(a: Seq<char>, s: Seq<char>, pattern: Seq<char>)
    requires
        is_free_of(a, pattern),
        is_on_a_line(pattern),
    ensures
        text::find(a + seq!['\n'] + s, pattern) == moved(
            text::find(s, pattern),
            (a.len() + 1) as int,
        ),
{
    let line = a + seq!['\n'];
    text::find_is_first(a, pattern, 0);
    assert forall|i: int| 0 <= i < line.len() implies !#[trigger] text::occurs(
        line + s,
        pattern,
        i,
    ) by {
        if text::occurs(line + s, pattern, i) {
            let found = (line + s).subrange(i, i + pattern.len());
            if i + pattern.len() <= a.len() {
                assert(found =~= a.subrange(i, i + pattern.len()));
                assert(text::occurs(a, pattern, i));
            } else {
                assert(found[a.len() - i] == '\n');
            }
        }
    }
    find_behind(line, s, pattern);
}

/// Whether two tags differ at a place.
pub open spec fn differ(tag: Seq<char>, pattern: Seq<char>, at: int) -> bool {
    &&& 0 <= at < tag.len()
    &&& at < pattern.len()
    &&& tag[at] != pattern[at]
}

/// A tag is not found in another one.
proof fn skip_tag(tag: Seq<char>, s: Seq<char>, pattern: Seq<char>, at: int)
    requires
        differ(tag, pattern, at),
        pattern[0] == '<',
        forall|i: int| 1 <= i < tag.len() ==> #[trigger] tag[i] != '<',
    ensures
        text::find(tag + s, pattern) == moved(text::find(s, pattern), tag.len() as int),
{
    assert forall|i: int| 0 <= i < tag.len() implies !#[trigger] text::occurs(
        tag + s,
        pattern,
        i,
    ) by {
        if text::occurs(tag + s, pattern, i) {
            let found = (tag + s).subrange(i, i + pattern.len());
            if i == 0 {
                assert(found[at] == tag[at]);
            } else {
                assert(found[0] == tag[i]);
            }
        }
    }
    find_behind(tag, s, pattern);
}

/// A tag is found where it stands at the front.
proof fn find_at_front(s: Seq<char>, pattern: Seq<char>)
    ensures
        text::find(pattern + s, pattern) == Some(0int),
{
    assert((pattern + s).subrange(0, pattern.len() as int) =~= pattern);
}

/// What the tags are.
proof fn tags()
    ensures
        "<tool_call>"@.len() == 11 && "<tool_call>"@[0] == '<' && "<tool_call>"@[1] == 't',
        "</tool_call>"@.len() == 12 && "</tool_call>"@[0] == '<' && "</tool_call>"@[1] == '/'
            && "</tool_call>"@[2] == 't',
        "<function="@.len() == 10 && "<function="@[0] == '<' && "<function="@[1] == 'f',
        "</function>"@.len() == 11 && "</function>"@[0] == '<' && "</function>"@[1] == '/'
            && "</function>"@[2] == 'f',
        "<parameter="@.len() == 11 && "<parameter="@[0] == '<' && "<parameter="@[1] == 'p',
        "</parameter>"@.len() == 12 && "</parameter>"@[0] == '<' && "</parameter>"@[1] == '/'
            && "</parameter>"@[2] == 'p',
        forall|i: int| 1 <= i < 11 ==> #[trigger] "<tool_call>"@[i] != '<',
        forall|i: int| 1 <= i < 12 ==> #[trigger] "</tool_call>"@[i] != '<',
        forall|i: int| 1 <= i < 10 ==> #[trigger] "<function="@[i] != '<',
        forall|i: int| 1 <= i < 11 ==> #[trigger] "</function>"@[i] != '<',
        forall|i: int| 1 <= i < 11 ==> #[trigger] "<parameter="@[i] != '<',
        forall|i: int| 1 <= i < 12 ==> #[trigger] "</parameter>"@[i] != '<',
        is_on_a_line("<tool_call>"@),
        is_on_a_line("</tool_call>"@),
        is_on_a_line("</function>"@),
        is_on_a_line("</parameter>"@),
{
    reveal_strlit("<tool_call>");
    reveal_strlit("</tool_call>");
    reveal_strlit("<function=");
    reveal_strlit("</function>");
    reveal_strlit("<parameter=");
    reveal_strlit("</parameter>");
}

// ---------------------------------------------------------------------------
// White space around a text
// ---------------------------------------------------------------------------

/// A line end behind a text goes with its white space.
proof fn trim_start_before_newline(s: Seq<char>)
    ensures
        text::trim_start(s).len() == 0 ==> text::trim_start(s.push('\n')).len() == 0,
        text::trim_start(s).len() > 0 ==> text::trim_start(s.push('\n')) == text::trim_start(
            s,
        ).push('\n'),
    decreases s.len(),
{
    let line = s.push('\n');
    if s.len() == 0 {
        assert(line.skip(1) =~= Seq::empty());
        assert(text::trim_start(line.skip(1)) =~= Seq::empty());
    } else if text::is_white(s[0]) {
        trim_start_before_newline(s.skip(1));
        assert(line.skip(1) =~= s.skip(1).push('\n'));
    }
}

/// A line end behind a text is trimmed.
proof fn trim_newline_behind(s: Seq<char>)
    ensures
        text::trim(s.push('\n')) == text::trim(s),
{
    trim_start_before_newline(s);
    let start = text::trim_start(s);
    if start.len() > 0 {
        assert(start.push('\n').drop_last() =~= start);
    } else {
        assert(start =~= Seq::empty());
        assert(text::trim_start(s.push('\n')) =~= Seq::empty());
    }
}

/// A line end before a text is trimmed.
proof fn trim_newline_before(s: Seq<char>)
    ensures
        text::trim(seq!['\n'] + s) == text::trim(s),
{
    assert((seq!['\n'] + s).skip(1) =~= s);
}

/// What is left has no white space at its front.
proof fn trim_start_is_trimmed(s: Seq<char>)
    ensures
        text::trim_start(s).len() > 0 ==> !text::is_white(text::trim_start(s)[0]),
    decreases s.len(),
{
    if s.len() > 0 && text::is_white(s[0]) {
        trim_start_is_trimmed(s.skip(1));
    }
}

/// What is left has no white space at its end, and the same front.
proof fn trim_end_is_trimmed(s: Seq<char>)
    ensures
        text::trim_end(s).len() > 0 ==> !text::is_white(text::trim_end(s).last()),
        text::trim_end(s).len() > 0 ==> text::trim_end(s)[0] == s[0],
    decreases s.len(),
{
    if s.len() > 0 && text::is_white(s.last()) {
        trim_end_is_trimmed(s.drop_last());
    }
}

/// A text is trimmed once.
proof fn trimming_twice(s: Seq<char>)
    ensures
        text::trim(text::trim(s)) == text::trim(s),
{
    trim_start_is_trimmed(s);
    trim_end_is_trimmed(text::trim_start(s));
}

// ---------------------------------------------------------------------------
// Calls that can be read
// ---------------------------------------------------------------------------

/// A name that stands in its tag as it is: the tag does not end in it, and there is no white
/// space around it.
pub open spec fn is_clean(name: Seq<char>) -> bool {
    &&& forall|i: int| 0 <= i < name.len() ==> #[trigger] name[i] != '>'
    &&& text::trim(name) == name
}

/// None of the tags that end a call, a function or a parameter stands in a text.
pub open spec fn ends_nothing(s: Seq<char>) -> bool {
    &&& is_free_of(s, "</parameter>"@)
    &&& is_free_of(s, "</function>"@)
    &&& is_free_of(s, "</tool_call>"@)
}

/// The name of an argument that is read as what it was written for.
pub open spec fn is_readable_key(key: Seq<char>) -> bool {
    &&& key.len() > 0
    &&& is_clean(key)
    &&& ends_nothing(key + ">"@)
}

/// An argument that is read as what it was written for.
pub open spec fn is_readable(value: JsonView) -> bool {
    &&& ends_nothing(template::argument_text(value))
    &&& calls::argument(template::argument_text(value)) == value
}

/// Arguments that can be read, in the order of their names.
pub open spec fn are_readable(entries: Seq<(Seq<char>, JsonView)>) -> bool {
    &&& forall|i: int|
        #![trigger entries[i]]
        0 <= i < entries.len() ==> is_readable_key(entries[i].0) && is_readable(entries[i].1)
    &&& forall|i: int, j: int|
        0 <= i < j < entries.len() ==> text::text_before(
            (#[trigger] entries[i]).0,
            (#[trigger] entries[j]).0,
        )
}

/// A call that can be read.
pub open spec fn is_readable_call(call: CallView) -> bool {
    &&& is_clean(call.name)
    &&& is_free_of(call.name + ">"@, "</function>"@)
    &&& is_free_of(call.name + ">"@, "</tool_call>"@)
    &&& call.arguments is Object
    &&& are_readable(call.arguments->Object_0)
}

/// What stands between the tags of a parameter.
pub open spec fn parameter_body(entry: (Seq<char>, JsonView)) -> Seq<char> {
    entry.0 + ">\n"@ + template::argument_text(entry.1) + "\n"@
}

/// What stands between the tags of each parameter.
pub open spec fn parameter_bodies(entries: Seq<(Seq<char>, JsonView)>) -> Seq<Seq<char>> {
    Seq::new(entries.len(), |i: int| parameter_body(entries[i]))
}

/// The parameters that are read.
pub open spec fn parameter_pairs(entries: Seq<(Seq<char>, JsonView)>) -> Seq<
    (Seq<char>, Seq<char>),
> {
    Seq::new(
        entries.len(),
        |i: int| (entries[i].0, text::trim(template::argument_text(entries[i].1))),
    )
}

/// What the short texts are.
proof fn short_texts()
    ensures
        ">\n"@ =~= seq!['>', '\n'],
        ">"@ =~= seq!['>'],
        "\n"@ =~= seq!['\n'],
        "\n\n"@ =~= seq!['\n', '\n'],
        "\n</parameter>\n"@ =~= seq!['\n'] + "</parameter>"@ + seq!['\n'],
        "</function>\n</tool_call>"@ =~= "</function>"@ + seq!['\n'] + "</tool_call>"@,
        "<tool_call>\n<function="@ =~= "<tool_call>"@ + seq!['\n'] + "<function="@,
        "\n<tool_call>\n<function="@ =~= seq!['\n'] + "<tool_call>"@ + seq!['\n']
            + "<function="@,
        "\n\n<tool_call>\n<function="@ =~= seq!['\n', '\n'] + "<tool_call>"@ + seq!['\n']
            + "<function="@,
{
    reveal_strlit(">\n");
    reveal_strlit(">");
    reveal_strlit("\n");
    reveal_strlit("\n\n");
    reveal_strlit("\n</parameter>\n");
    reveal_strlit("</parameter>");
    reveal_strlit("</function>\n</tool_call>");
    reveal_strlit("</function>");
    reveal_strlit("</tool_call>");
    reveal_strlit("<tool_call>\n<function=");
    reveal_strlit("\n<tool_call>\n<function=");
    reveal_strlit("\n\n<tool_call>\n<function=");
    reveal_strlit("<tool_call>");
    reveal_strlit("<function=");
}

// ---------------------------------------------------------------------------
// Parameters
// ---------------------------------------------------------------------------

/// The name and the rest of a block, where the name is clean.
proof fn block_is_split(name: Seq<char>, rest: Seq<char>)
    requires
        is_clean(name),
    ensures
        calls::block_name(name + ">"@ + rest) == name,
        text::behind(name + ">"@ + rest, ">"@) == rest,
{
    short_texts();
    let mark = ">"@;
    let block = name + mark + rest;
    assert(block =~= name + (mark + rest));
    assert forall|i: int| 0 <= i < name.len() implies !#[trigger] text::occurs(block, mark, i) by {
        if text::occurs(block, mark, i) {
            assert(block.subrange(i, i + 1)[0] == name[i]);
        }
    }
    find_behind(name, mark + rest, mark);
    find_at_front(rest, mark);
    assert(block.take(name.len() as int) =~= name);
    assert(block.skip((name.len() + 1) as int) =~= rest);
}

/// Blocks are looked for behind a text in which none begins.
proof fn bodies_behind(a: Seq<char>, s: Seq<char>, open: Seq<char>, close: Seq<char>)
    requires
        text::find(a + s, open) == moved(text::find(s, open), a.len() as int),
    ensures
        calls::bodies(a + s, open, close) == calls::bodies(s, open, close),
{
    match text::find(s, open) {
        None => {},
        Some(at) => {
            text::find_is_first(s, open, 0);
            assert((a + s).skip(a.len() + at + open.len()) =~= s.skip(at + open.len()));
        },
    }
}

/// Blocks are looked for behind a text where no tag begins.
proof fn bodies_behind_plain(a: Seq<char>, s: Seq<char>, open: Seq<char>, close: Seq<char>)
    requires
        is_plain(a),
        open.len() > 0,
        open[0] == '<',
    ensures
        calls::bodies(a + s, open, close) == calls::bodies(s, open, close),
{
    skip_plain(a, s, open);
    bodies_behind(a, s, open, close);
}

/// The first block is that at the front.
proof fn bodies_from_the_front(
    body: Seq<char>,
    s: Seq<char>,
    open: Seq<char>,
    close: Seq<char>,
)
    requires
        open.len() > 0,
        text::find(body + (close + s), close) == Some(body.len() as int),
    ensures
        calls::bodies(open + body + close + s, open, close) == seq![body] + calls::bodies(
            s,
            open,
            close,
        ),
{
    let whole = open + body + close + s;
    let rest = body + (close + s);
    assert(whole =~= open + rest);
    find_at_front(rest, open);
    assert(whole.skip(open.len() as int) =~= rest);
    assert(rest.take(body.len() as int) =~= body);
    assert(rest.skip((body.len() + close.len()) as int) =~= s);
}

/// A tag that ends something is not found in what stands between the tags of a parameter.
proof fn skip_parameter_body(entry: (Seq<char>, JsonView), s: Seq<char>, pattern: Seq<char>)
    requires
        is_readable_key(entry.0),
        is_readable(entry.1),
        pattern == "</parameter>"@ || pattern == "</function>"@ || pattern == "</tool_call>"@,
    ensures
        text::find(parameter_body(entry) + s, pattern) == moved(
            text::find(s, pattern),
            parameter_body(entry).len() as int,
        ),
{
    tags();
    short_texts();
    let head = entry.0 + ">"@;
    let written = template::argument_text(entry.1);
    let rest = written + seq!['\n'] + s;
    skip_line(written, s, pattern);
    skip_line(head, rest, pattern);
    assert(parameter_body(entry) + s =~= head + seq!['\n'] + rest);
}

/// All arguments but the last can be read.
proof fn fewer_are_readable(entries: Seq<(Seq<char>, JsonView)>)
    requires
        are_readable(entries),
        entries.len() > 0,
    ensures
        are_readable(entries.drop_last()),
{
    let first = entries.drop_last();
    assert forall|i: int| #![trigger first[i]] 0 <= i < first.len() implies is_readable_key(
        first[i].0,
    ) && is_readable(first[i].1) by {
        assert(first[i] == entries[i]);
    }
    assert forall|i: int, j: int| 0 <= i < j < first.len() implies text::text_before(
        (#[trigger] first[i]).0,
        (#[trigger] first[j]).0,
    ) by {
        assert(first[i] == entries[i] && first[j] == entries[j]);
    }
}

/// The parameters are found, each between its tags.
proof fn parameters_are_found(entries: Seq<(Seq<char>, JsonView)>, s: Seq<char>)
    requires
        are_readable(entries),
    ensures
        calls::bodies(
            template::parameter_blocks(entries) + s,
            "<parameter="@,
            "</parameter>"@,
        ) == parameter_bodies(entries) + calls::bodies(s, "<parameter="@, "</parameter>"@),
    decreases entries.len(),
{
    let open = "<parameter="@;
    let close = "</parameter>"@;
    let more = calls::bodies(s, open, close);
    if entries.len() == 0 {
        assert(template::parameter_blocks(entries) + s =~= s);
        assert(parameter_bodies(entries) + more =~= more);
    } else {
        tags();
        short_texts();
        let first = entries.drop_last();
        let entry = entries.last();
        let body = parameter_body(entry);
        let line = seq!['\n'] + s;
        let block = open + body + close + line;
        assert(is_readable_key(entries[entries.len() - 1].0));
        skip_parameter_body(entry, close + line, close);
        find_at_front(line, close);
        bodies_from_the_front(body, line, open, close);
        bodies_behind_plain(seq!['\n'], s, open, close);
        fewer_are_readable(entries);
        parameters_are_found(first, block);
        assert(template::parameter_blocks(entries) + s =~= template::parameter_blocks(first)
            + block);
        assert(parameter_bodies(entries) =~= parameter_bodies(first).push(body));
        assert(parameter_bodies(first) + (seq![body] + more) =~= parameter_bodies(entries) + more);
    }
}

/// A closing tag of something else is not found among parameters.
proof fn skip_parameters(entries: Seq<(Seq<char>, JsonView)>, s: Seq<char>, pattern: Seq<char>)
    requires
        are_readable(entries),
        pattern == "</function>"@ || pattern == "</tool_call>"@,
    ensures
        text::find(template::parameter_blocks(entries) + s, pattern) == moved(
            text::find(s, pattern),
            template::parameter_blocks(entries).len() as int,
        ),
    decreases entries.len(),
{
    if entries.len() == 0 {
        assert(template::parameter_blocks(entries) + s =~= s);
    } else {
        tags();
        short_texts();
        let first = entries.drop_last();
        let entry = entries.last();
        let body = parameter_body(entry);
        let open = "<parameter="@;
        let close = "</parameter>"@;
        let line = seq!['\n'] + s;
        assert(is_readable_key(entries[entries.len() - 1].0));
        skip_plain(seq!['\n'], s, pattern);
        assert(differ(close, pattern, 2));
        skip_tag(close, line, pattern, 2);
        skip_parameter_body(entry, close + line, pattern);
        assert(differ(open, pattern, 1));
        skip_tag(open, body + (close + line), pattern, 1);
        let block = open + (body + (close + line));
        fewer_are_readable(entries);
        skip_parameters(first, block, pattern);
        assert(template::parameter_blocks(entries) + s =~= template::parameter_blocks(first)
            + block);
    }
}

/// The parameters are read: each key, and the text of its value.
proof fn parameters_are_read(entries: Seq<(Seq<char>, JsonView)>, n: int)
    requires
        are_readable(entries),
        0 <= n <= entries.len(),
    ensures
        calls::parameters(parameter_bodies(entries).take(n)) == parameter_pairs(entries).take(n),
    decreases n,
{
    let all = parameter_bodies(entries);
    let pairs = parameter_pairs(entries);
    if n > 0 {
        parameters_are_read(entries, n - 1);
        short_texts();
        let some = all.take(n);
        let (key, value) = entries[n - 1];
        let written = template::argument_text(value);
        assert(some.drop_last() =~= all.take(n - 1));
        let rest = seq!['\n'] + (written.push('\n'));
        assert(some.last() =~= key + ">"@ + rest);
        block_is_split(key, rest);
        trim_newline_before(written.push('\n'));
        trim_newline_behind(written);
        assert(pairs.take(n) =~= pairs.take(n - 1).push(pairs[n - 1]));
    } else {
        assert(all.take(0) =~= Seq::empty());
        assert(pairs.take(0) =~= Seq::empty());
    }
}

/// A key behind all others goes to the end.
proof fn insert_at_the_end(
    entries: Seq<(Seq<char>, JsonView)>,
    key: Seq<char>,
    value: JsonView,
)
    requires
        forall|i: int|
            0 <= i < entries.len() ==> text::text_before((#[trigger] entries[i]).0, key),
    ensures
        json::json_insert(entries, key, value) == entries.push((key, value)),
    decreases entries.len(),
{
    if entries.len() > 0 {
        let rest = entries.skip(1);
        text::before_is_asymmetric(entries[0].0, key);
        assert forall|i: int| 0 <= i < rest.len() implies text::text_before(
            (#[trigger] rest[i]).0,
            key,
        ) by {
            assert(rest[i] == entries[i + 1]);
        }
        insert_at_the_end(rest, key, value);
        assert(seq![entries[0]] + rest.push((key, value)) =~= entries.push((key, value)));
    }
}

/// The arguments are read.
proof fn arguments_are_read(entries: Seq<(Seq<char>, JsonView)>, n: int)
    requires
        are_readable(entries),
        0 <= n <= entries.len(),
    ensures
        calls::arguments(parameter_pairs(entries).take(n)) == entries.take(n),
    decreases n,
{
    let pairs = parameter_pairs(entries);
    if n > 0 {
        arguments_are_read(entries, n - 1);
        assert(pairs.take(n).drop_last() =~= pairs.take(n - 1));
        let (key, value) = entries[n - 1];
        let written = template::argument_text(value);
        trimming_twice(written);
        assert(calls::argument(text::trim(written)) == value);
        let before = entries.take(n - 1);
        assert forall|i: int| 0 <= i < before.len() implies text::text_before(
            (#[trigger] before[i]).0,
            key,
        ) by {
            assert(before[i] == entries[i]);
        }
        insert_at_the_end(before, key, value);
        assert(entries.take(n) =~= before.push((key, value)));
    } else {
        assert(pairs.take(0) =~= Seq::empty());
        assert(entries.take(0) =~= Seq::empty());
    }
}

// ---------------------------------------------------------------------------
// Calls
// ---------------------------------------------------------------------------

/// What stands between the tags of a function.
pub open spec fn function_body(call: CallView) -> Seq<char> {
    call.name + ">\n"@ + template::parameter_blocks(call.arguments->Object_0)
}

/// What stands between the tags of a call.
pub open spec fn call_body(call: CallView) -> Seq<char> {
    "\n"@ + "<function="@ + function_body(call) + "</function>"@ + "\n"@
}

/// What stands between the tags of each call.
pub open spec fn call_bodies(calls: Seq<CallView>) -> Seq<Seq<char>> {
    Seq::new(calls.len(), |i: int| call_body(calls[i]))
}

/// A closing tag is not found in what stands between the tags of a function.
proof fn skip_function(call: CallView, s: Seq<char>, pattern: Seq<char>)
    requires
        is_readable_call(call),
        pattern == "</function>"@ || pattern == "</tool_call>"@,
    ensures
        text::find(function_body(call) + s, pattern) == moved(
            text::find(s, pattern),
            function_body(call).len() as int,
        ),
{
    tags();
    short_texts();
    let entries = call.arguments->Object_0;
    let blocks = template::parameter_blocks(entries);
    let head = call.name + ">"@;
    skip_parameters(entries, s, pattern);
    skip_line(head, blocks + s, pattern);
    assert(function_body(call) + s =~= head + seq!['\n'] + (blocks + s));
}

/// The end of a call is found behind it.
proof fn call_ends(call: CallView, s: Seq<char>)
    requires
        is_readable_call(call),
    ensures
        text::find(call_body(call) + ("</tool_call>"@ + s), "</tool_call>"@) == Some(
            call_body(call).len() as int,
        ),
{
    tags();
    short_texts();
    let pattern = "</tool_call>"@;
    let newline = "\n"@;
    let open = "<function="@;
    let close = "</function>"@;
    let function = function_body(call);
    let end = pattern + s;
    find_at_front(s, pattern);
    skip_plain(newline, end, pattern);
    assert(differ(close, pattern, 2));
    skip_tag(close, newline + end, pattern, 2);
    skip_function(call, close + (newline + end), pattern);
    assert(differ(open, pattern, 1));
    skip_tag(open, function + (close + (newline + end)), pattern, 1);
    skip_plain(newline, open + (function + (close + (newline + end))), pattern);
    assert(call_body(call) + end =~= newline + (open + (function + (close + (newline + end)))));
}

/// A call is read from what stands between its tags.
proof fn call_is_read(call: CallView)
    requires
        is_readable_call(call),
    ensures
        calls::body(call_body(call), "<function="@, "</function>"@) == Some(function_body(call)),
        calls::call(function_body(call)) == call,
{
    tags();
    short_texts();
    let newline = "\n"@;
    let open = "<function="@;
    let close = "</function>"@;
    let function = function_body(call);
    let entries = call.arguments->Object_0;
    let blocks = template::parameter_blocks(entries);
    let body = call_body(call);
    let rest = function + (close + newline);
    assert(body =~= newline + (open + rest));
    skip_plain(newline, open + rest, open);
    find_at_front(rest, open);
    assert(body.skip((1 + open.len()) as int) =~= rest);
    skip_function(call, close + newline, close);
    find_at_front(newline, close);
    assert(rest.take(function.len() as int) =~= function);
    assert(function =~= call.name + ">"@ + (newline + blocks));
    block_is_split(call.name, newline + blocks);
    let parameter = "<parameter="@;
    let parameter_end = "</parameter>"@;
    bodies_behind_plain(newline, blocks, parameter, parameter_end);
    parameters_are_found(entries, Seq::empty());
    assert(blocks + Seq::empty() =~= blocks);
    no_bodies(parameter, parameter_end);
    assert(parameter_bodies(entries) + Seq::empty() =~= parameter_bodies(entries));
    parameters_are_read(entries, entries.len() as int);
    arguments_are_read(entries, entries.len() as int);
    assert(parameter_bodies(entries).take(entries.len() as int) =~= parameter_bodies(entries));
    assert(parameter_pairs(entries).take(entries.len() as int) =~= parameter_pairs(entries));
    assert(entries.take(entries.len() as int) =~= entries);
}

/// There are no blocks in an empty text.
proof fn no_bodies(open: Seq<char>, close: Seq<char>)
    requires
        open.len() > 0,
    ensures
        calls::bodies(Seq::empty(), open, close) == Seq::<Seq<char>>::empty(),
{
    assert(text::find(Seq::empty(), open) is None);
}

/// What separates a call from the text before it.
pub open spec fn separator(content: Seq<char>, n: int) -> Seq<char> {
    if n > 1 {
        "\n"@
    } else if content.len() > 0 {
        "\n\n"@
    } else {
        Seq::empty()
    }
}

/// The calls of a turn, one more.
proof fn one_more_call(content: Seq<char>, calls: Seq<CallView>, s: Seq<char>)
    requires
        calls.len() > 0,
        is_readable_call(calls.last()),
    ensures
        template::call_blocks(content, calls) + s == template::call_blocks(
            content,
            calls.drop_last(),
        ) + (separator(content, calls.len() as int) + ("<tool_call>"@ + call_body(calls.last())
            + "</tool_call>"@ + s)),
{
    short_texts();
    assert(template::call_blocks(content, calls) + s =~= template::call_blocks(
        content,
        calls.drop_last(),
    ) + (separator(content, calls.len() as int) + ("<tool_call>"@ + call_body(calls.last())
        + "</tool_call>"@ + s)));
}

/// The calls of a turn are found, each between its tags.
proof fn calls_are_found(content: Seq<char>, calls: Seq<CallView>, s: Seq<char>)
    requires
        forall|i: int| 0 <= i < calls.len() ==> is_readable_call(#[trigger] calls[i]),
    ensures
        calls::bodies(
            template::call_blocks(content, calls) + s,
            "<tool_call>"@,
            "</tool_call>"@,
        ) == call_bodies(calls) + calls::bodies(s, "<tool_call>"@, "</tool_call>"@),
    decreases calls.len(),
{
    let open = "<tool_call>"@;
    let close = "</tool_call>"@;
    let more = calls::bodies(s, open, close);
    if calls.len() == 0 {
        assert(template::call_blocks(content, calls) + s =~= s);
        assert(call_bodies(calls) + more =~= more);
    } else {
        tags();
        short_texts();
        let first = calls.drop_last();
        let call = calls[calls.len() - 1];
        let body = call_body(call);
        let between = separator(content, calls.len() as int);
        let block = open + body + close + s;
        call_ends(call, s);
        bodies_from_the_front(body, s, open, close);
        assert(is_plain(between));
        bodies_behind_plain(between, block, open, close);
        assert forall|i: int| 0 <= i < first.len() implies is_readable_call(#[trigger] first[i]) by {
            assert(first[i] == calls[i]);
        }
        calls_are_found(content, first, between + block);
        one_more_call(content, calls, s);
        assert(call_bodies(calls) =~= call_bodies(first).push(body));
        assert(call_bodies(first) + (seq![body] + more) =~= call_bodies(calls) + more);
    }
}

/// The calls are read from what stands between their tags.
proof fn calls_are_read(all: Seq<CallView>, n: int)
    requires
        forall|i: int| 0 <= i < all.len() ==> is_readable_call(#[trigger] all[i]),
        0 <= n <= all.len(),
    ensures
        calls::calls(call_bodies(all).take(n)) == all.take(n),
    decreases n,
{
    let bodies = call_bodies(all);
    if n > 0 {
        calls_are_read(all, n - 1);
        assert(bodies.take(n).drop_last() =~= bodies.take(n - 1));
        call_is_read(all[n - 1]);
        assert(all.take(n) =~= all.take(n - 1).push(all[n - 1]));
    } else {
        assert(bodies.take(0) =~= Seq::empty());
        assert(all.take(0) =~= Seq::empty());
    }
}

/// The first call of a turn, behind what separates it from the text.
proof fn first_call(content: Seq<char>, calls: Seq<CallView>) -> (rest: Seq<char>)
    requires
        calls.len() > 0,
        forall|i: int| 0 <= i < calls.len() ==> is_readable_call(#[trigger] calls[i]),
    ensures
        template::call_blocks(content, calls) == separator(content, 1) + ("<tool_call>"@ + rest),
    decreases calls.len(),
{
    let last = calls[calls.len() - 1];
    one_more_call(content, calls, Seq::empty());
    let blocks = template::call_blocks(content, calls);
    assert(blocks + Seq::empty() =~= blocks);
    let own = "<tool_call>"@ + call_body(last) + "</tool_call>"@ + Seq::<char>::empty();
    let between = separator(content, calls.len() as int);
    if calls.len() == 1 {
        let rest = call_body(last) + "</tool_call>"@;
        assert(template::call_blocks(content, calls.drop_last()) =~= Seq::empty());
        assert(blocks =~= separator(content, 1) + ("<tool_call>"@ + rest));
        rest
    } else {
        let first = calls.drop_last();
        assert forall|i: int| 0 <= i < first.len() implies is_readable_call(#[trigger] first[i]) by {
            assert(first[i] == calls[i]);
        }
        let before = first_call(content, first);
        let rest = before + (between + own);
        assert(blocks =~= separator(content, 1) + ("<tool_call>"@ + rest));
        rest
    }
}

/// An assistant turn is read as what it was written for: its text, and its tool calls. No
/// call begins in the text, which is trimmed where calls follow it; each call can be read.
pub proof fn turns_are_read_back(content: Seq<char>, tool_calls: Seq<CallView>)
    requires
        is_free_of(content, "<tool_call>"@),
        tool_calls.len() > 0 ==> text::trim(content) == content,
        forall|i: int| 0 <= i < tool_calls.len() ==> is_readable_call(#[trigger] tool_calls[i]),
    ensures
        calls::calls_in(content + template::call_blocks(content, tool_calls)) == tool_calls,
        calls::content_of(content + template::call_blocks(content, tool_calls)) == content,
{
    tags();
    short_texts();
    let open = "<tool_call>"@;
    let close = "</tool_call>"@;
    let blocks = template::call_blocks(content, tool_calls);
    let whole = content + blocks;
    if tool_calls.len() == 0 {
        assert(whole =~= content);
        assert(calls::bodies(whole, open, close) =~= Seq::empty());
        assert(calls::calls_in(whole) =~= tool_calls);
    } else {
        calls_are_found(content, tool_calls, Seq::empty());
        assert(blocks + Seq::empty() =~= blocks);
        no_bodies(open, close);
        assert(call_bodies(tool_calls) + Seq::empty() =~= call_bodies(tool_calls));
        calls_are_read(tool_calls, tool_calls.len() as int);
        assert(call_bodies(tool_calls).take(tool_calls.len() as int) =~= call_bodies(tool_calls));
        assert(tool_calls.take(tool_calls.len() as int) =~= tool_calls);
        let rest = first_call(content, tool_calls);
        let between = separator(content, 1);
        find_at_front(rest, open);
        assert(is_plain(between));
        skip_plain(between, open + rest, open);
        if content.len() > 0 {
            let line = seq!['\n'] + (open + rest);
            skip_plain(seq!['\n'], open + rest, open);
            skip_line(content, line, open);
            assert(whole =~= content + seq!['\n'] + line);
            trim_newline_behind(content.push('\n'));
            trim_newline_behind(content);
            assert(content + between =~= content.push('\n').push('\n'));
        } else {
            assert(whole =~= blocks);
            assert(content + between =~= content);
        }
        let at = (content.len() + between.len()) as int;
        assert(text::find(whole, open) == Some(at));
        assert(whole.take(at) =~= content + between);
        assert(text::find(blocks, open) == Some(between.len() as int));
        assert(whole.skip(at + open.len()) =~= blocks.skip((between.len() + open.len()) as int));
        assert(calls::bodies(whole, open, close) == calls::bodies(blocks, open, close));
    }
}

/// A text that ends nothing is a readable argument where it is trimmed and no JSON: it
/// stands for itself.
pub proof fn plain_text_is_readable(value: Seq<char>)
    requires
        ends_nothing(value),
        text::trim(value) == value,
        json::json_parse(value) is None,
    ensures
        is_readable(JsonView::Text(value)),
{
}

/// No call begins in a text without a `<`.
pub proof fn plain_text_holds_no_call(s: Seq<char>)
    requires
        forall|i: int| 0 <= i < s.len() ==> #[trigger] s[i] != '<',
    ensures
        is_free_of(s, "<tool_call>"@),
{
    tags();
    let none = Seq::<char>::empty();
    assert(s + none =~= s);
    skip_plain(s, none, "<tool_call>"@);
}

/// A scalar is a readable argument where what is written for it is read back.
proof fn scalar_is_readable(value: JsonView)
    requires
        json::is_scalar(value),
        json::is_read_back(value),
    ensures
        is_readable(value),
{
    tags();
    let written = json::json_text(value);
    assert(template::argument_text(value) == written);
    plain_ends_nothing(written);
    assert(text::trim(written) == written) by {
        if written.len() > 0 {
            assert(!text::is_white(written[0]));
            assert(!text::is_white(written[written.len() - 1]));
        }
    }
}

/// A text where no tag begins ends nothing.
proof fn plain_ends_nothing(s: Seq<char>)
    requires
        is_plain(s),
    ensures
        ends_nothing(s),
{
    tags();
    let none = Seq::<char>::empty();
    assert(s + none =~= s);
    skip_plain(s, none, "</parameter>"@);
    skip_plain(s, none, "</function>"@);
    skip_plain(s, none, "</tool_call>"@);
}

/// A name that stands in its tag as it is, and in which no tag begins.
pub open spec fn is_plain_name(name: Seq<char>) -> bool {
    &&& is_clean(name)
    &&& forall|i: int| 0 <= i < name.len() ==> #[trigger] name[i] != '<'
}

/// A scalar, or a trimmed text in which no tag begins and which is no JSON.
pub open spec fn is_plain_value(value: JsonView) -> bool {
    match value {
        JsonView::Text(text) => {
            &&& text::trim(text) == text
            &&& json::json_parse(text) is None
            &&& forall|i: int| 0 <= i < text.len() ==> #[trigger] text[i] != '<'
        },
        _ => json::is_scalar(value),
    }
}

/// A call with plain names and values, its arguments in the order of their names.
pub open spec fn is_plain_call(call: CallView) -> bool {
    &&& is_plain_name(call.name)
    &&& call.arguments is Object
    &&& are_plain(call.arguments->Object_0)
}

/// Arguments with plain names and values, in the order of their names.
pub open spec fn are_plain(entries: Seq<(Seq<char>, JsonView)>) -> bool {
    &&& forall|i: int|
        #![trigger entries[i]]
        0 <= i < entries.len() ==> entries[i].0.len() > 0 && is_plain_name(entries[i].0)
            && is_plain_value(entries[i].1)
    &&& forall|i: int, j: int|
        0 <= i < j < entries.len() ==> text::text_before(
            (#[trigger] entries[i]).0,
            (#[trigger] entries[j]).0,
        )
}

/// A plain call can be read, where what is written for its scalars is read back. (Of a call
/// that is in a prompt, it is.)
pub proof fn plain_calls_are_readable(call: CallView)
    requires
        is_plain_call(call),
        template::is_read_back(call),
    ensures
        is_readable_call(call),
{
    short_texts();
    plain_ends_nothing(call.name + ">"@);
    let entries = call.arguments->Object_0;
    assert forall|i: int| #![trigger entries[i]] 0 <= i < entries.len() implies is_readable_key(
        entries[i].0,
    ) && is_readable(entries[i].1) by {
        let (key, value) = entries[i];
        plain_ends_nothing(key + ">"@);
        assert(json::is_read_back(entries[i].1));
        match value {
            JsonView::Text(text) => {
                plain_ends_nothing(text);
                plain_text_is_readable(text);
            },
            _ => {
                scalar_is_readable(value);
            },
        }
    }
}

/// Where there is a tool call, none of it is left in the content.
pub proof fn content_holds_no_call(answer: Seq<char>)
    requires
        calls::calls_in(answer).len() > 0,
    ensures
        text::find(calls::content_of(answer), "<tool_call>"@) is None,
{
    tags();
    let open = "<tool_call>"@;
    let blocks = calls::bodies(answer, open, "</tool_call>"@);
    if text::find(answer, open) is None {
        assert(blocks =~= Seq::empty());
        assert(calls::calls(blocks).len() == 0);
    } else {
        text::find_is_first(answer, open, 0);
        let at = text::find(answer, open)->0;
        let before = answer.take(at);
        let content = text::trim(before);
        trim_is_a_part(before);
        let from = choose|from: int|
            0 <= from && from + content.len() <= before.len() && content == #[trigger] before
                .subrange(from, from + content.len());
        text::find_is_first(content, open, 0);
        if text::find(content, open) is Some {
            let i = text::find(content, open)->0;
            assert(content.subrange(i, i + open.len()) =~= answer.subrange(
                from + i,
                from + i + open.len(),
            ));
            assert(text::occurs(answer, open, from + i));
        }
    }
}

/// A trimmed text is a part of the text.
proof fn trim_is_a_part(s: Seq<char>)
    ensures
        exists|from: int|
            0 <= from && from + text::trim(s).len() <= s.len() && text::trim(s)
                == #[trigger] s.subrange(from, from + text::trim(s).len()),
{
    let from = trim_start_is_a_suffix(s);
    let start = text::trim_start(s);
    trim_end_is_a_prefix(start);
    assert(text::trim(s) =~= s.subrange(from, from + text::trim(s).len()));
}

/// What is left is the text from a place on.
proof fn trim_start_is_a_suffix(s: Seq<char>) -> (from: int)
    ensures
        0 <= from <= s.len(),
        text::trim_start(s) == s.skip(from),
    decreases s.len(),
{
    if s.len() > 0 && text::is_white(s[0]) {
        let from = trim_start_is_a_suffix(s.skip(1));
        assert(s.skip(1).skip(from) =~= s.skip(from + 1));
        from + 1
    } else {
        assert(s.skip(0) =~= s);
        0
    }
}

/// What is left is the text up to a place.
proof fn trim_end_is_a_prefix(s: Seq<char>)
    ensures
        text::trim_end(s).len() <= s.len(),
        text::trim_end(s) == s.take(text::trim_end(s).len() as int),
    decreases s.len(),
{
    if s.len() > 0 && text::is_white(s.last()) {
        trim_end_is_a_prefix(s.drop_last());
        assert(text::trim_end(s) =~= s.take(text::trim_end(s).len() as int));
    } else {
        assert(s.take(s.len() as int) =~= s);
    }
}

/// A value that is put under a key is found there, and the others stay.
proof fn inserted_is_found(
    entries: Seq<(Seq<char>, JsonView)>,
    key: Seq<char>,
    value: JsonView,
    other: Seq<char>,
)
    ensures
        json::json_lookup(json::json_insert(entries, key, value), key) == Some(value),
        other != key ==> json::json_lookup(json::json_insert(entries, key, value), other)
            == json::json_lookup(entries, other),
    decreases entries.len(),
{
    let after = json::json_insert(entries, key, value);
    if entries.len() == 0 {
        assert(after.skip(1) =~= Seq::empty());
        assert(json::json_lookup(after.skip(1), other) is None);
    } else if entries[0].0 == key {
        assert(after.skip(1) =~= entries.skip(1));
    } else if text::text_before(key, entries[0].0) {
        assert(after.skip(1) =~= entries);
    } else {
        inserted_is_found(entries.skip(1), key, value, other);
        assert(after.skip(1) =~= json::json_insert(entries.skip(1), key, value));
    }
}

/// Where a parameter is given more than once, the last value counts; one under another name
/// does not change it.
pub proof fn last_value_counts(
    parameters: Seq<(Seq<char>, Seq<char>)>,
    key: Seq<char>,
    value: Seq<char>,
    other: Seq<char>,
)
    ensures
        json::json_lookup(calls::arguments(parameters.push((key, value))), key) == Some(
            calls::argument(value),
        ),
        other != key ==> json::json_lookup(
            calls::arguments(parameters.push((key, value))),
            other,
        ) == json::json_lookup(calls::arguments(parameters), other),
{
    assert(parameters.push((key, value)).drop_last() =~= parameters);
    inserted_is_found(calls::arguments(parameters), key, calls::argument(value), other);
}

// ---------------------------------------------------------------------------
// Prompts
// ---------------------------------------------------------------------------

/// A message that is read as what it was written for: no call begins in its texts, and the
/// calls of an assistant can be read.
pub open spec fn is_readable_message(message: MessageView) -> bool {
    &&& is_free_of(message.content, "<tool_call>"@)
    &&& message.reasoning_content matches Some(reasoning) ==> is_free_of(
        reasoning,
        "<tool_call>"@,
    )
    &&& message.role == "assistant"@ ==> forall|i: int|
        0 <= i < message.tool_calls.len() ==> is_readable_call(#[trigger] message.tool_calls[i])
}

/// The calls that a message stands for: those of an assistant.
pub open spec fn calls_of(message: MessageView) -> Seq<CallView> {
    if message.role == "assistant"@ {
        message.tool_calls
    } else {
        Seq::empty()
    }
}

/// The calls that the first `n` messages stand for, in order.
pub open spec fn calls_of_first(messages: Seq<MessageView>, n: int) -> Seq<CallView>
    decreases n,
{
    if n <= 0 {
        Seq::empty()
    } else {
        calls_of_first(messages, n - 1) + calls_of(messages[n - 1])
    }
}

/// The bodies of the calls in a text.
spec fn bodies_in(s: Seq<char>) -> Seq<Seq<char>> {
    calls::bodies(s, "<tool_call>"@, "</tool_call>"@)
}

/// A text that no call begins in, before a tag or a line end, holds none.
proof fn behind_free(a: Seq<char>, s: Seq<char>)
    requires
        is_free_of(a, "<tool_call>"@),
        s.len() > 0,
        s[0] == '<' || s[0] == '\n',
    ensures
        bodies_in(a + s) == bodies_in(s),
{
    tags();
    let open = "<tool_call>"@;
    text::find_is_first(a, open, 0);
    assert forall|i: int| 0 <= i < a.len() implies !#[trigger] text::occurs(a + s, open, i) by {
        if text::occurs(a + s, open, i) {
            let found = (a + s).subrange(i, i + open.len());
            if i + open.len() <= a.len() {
                assert(found =~= a.subrange(i, i + open.len()));
                assert(text::occurs(a, open, i));
            } else {
                assert(found[a.len() - i] == s[0]);
            }
        }
    }
    find_behind(a, s, open);
    bodies_behind(a, s, open, "</tool_call>"@);
}

/// A text where no tag begins holds no call.
proof fn behind_plain(a: Seq<char>, s: Seq<char>)
    requires
        is_plain(a),
    ensures
        bodies_in(a + s) == bodies_in(s),
{
    tags();
    bodies_behind_plain(a, s, "<tool_call>"@, "</tool_call>"@);
}

/// Another tag is no call.
proof fn behind_tag(tag: Seq<char>, s: Seq<char>, at: int)
    requires
        differ(tag, "<tool_call>"@, at),
        forall|i: int| 1 <= i < tag.len() ==> #[trigger] tag[i] != '<',
    ensures
        bodies_in(tag + s) == bodies_in(s),
{
    tags();
    skip_tag(tag, s, "<tool_call>"@, at);
    bodies_behind(tag, s, "<tool_call>"@, "</tool_call>"@);
}

/// None of the marks of a turn is a call.
proof fn behind_marks(s: Seq<char>)
    ensures
        bodies_in("<|im_start|>system\n"@ + s) == bodies_in(s),
        bodies_in("<|im_start|>user\n"@ + s) == bodies_in(s),
        bodies_in("<|im_start|>user"@ + s) == bodies_in(s),
        bodies_in("<|im_start|>assistant\n"@ + s) == bodies_in(s),
        bodies_in("<|im_end|>\n"@ + s) == bodies_in(s),
{
    reveal_strlit("<tool_call>");
    reveal_strlit("<|im_start|>system\n");
    reveal_strlit("<|im_start|>user\n");
    reveal_strlit("<|im_start|>user");
    reveal_strlit("<|im_start|>assistant\n");
    reveal_strlit("<|im_end|>\n");
    behind_tag("<|im_start|>system\n"@, s, 1);
    behind_tag("<|im_start|>user\n"@, s, 1);
    behind_tag("<|im_start|>user"@, s, 1);
    behind_tag("<|im_start|>assistant\n"@, s, 1);
    behind_tag("<|im_end|>\n"@, s, 1);
}

/// None of the marks of a tool's answer is a call.
proof fn behind_answer_marks(s: Seq<char>)
    ensures
        bodies_in("\n<tool_response>\n"@ + s) == bodies_in(s),
        bodies_in("\n</tool_response>"@ + s) == bodies_in(s),
        "\n</tool_response>"@.len() > 0,
        "\n</tool_response>"@[0] == '\n',
{
    reveal_strlit("<tool_call>");
    reveal_strlit("\n<tool_response>\n");
    reveal_strlit("<tool_response>\n");
    reveal_strlit("\n</tool_response>");
    reveal_strlit("</tool_response>");
    let line = seq!['\n'];
    assert("\n<tool_response>\n"@ + s =~= line + ("<tool_response>\n"@ + s));
    behind_plain(line, "<tool_response>\n"@ + s);
    behind_tag("<tool_response>\n"@, s, 6);
    assert("\n</tool_response>"@ + s =~= line + ("</tool_response>"@ + s));
    behind_plain(line, "</tool_response>"@ + s);
    behind_tag("</tool_response>"@, s, 1);
}

/// A turn ends with a tag.
proof fn turn_ends_with_a_tag()
    ensures
        "<|im_end|>\n"@.len() > 0,
        "<|im_end|>\n"@[0] == '<',
{
    reveal_strlit("<|im_end|>\n");
}

/// No call begins in a trimmed text where none begins in the text.
proof fn trimmed_is_free(s: Seq<char>)
    requires
        is_free_of(s, "<tool_call>"@),
    ensures
        is_free_of(text::trim(s), "<tool_call>"@),
{
    tags();
    let open = "<tool_call>"@;
    let part = text::trim(s);
    trim_is_a_part(s);
    let from = choose|from: int|
        0 <= from && from + part.len() <= s.len() && part == #[trigger] s.subrange(
            from,
            from + part.len(),
        );
    text::find_is_first(s, open, 0);
    text::find_is_first(part, open, 0);
    if text::find(part, open) is Some {
        let i = text::find(part, open)->0;
        assert(part.subrange(i, i + open.len()) =~= s.subrange(from + i, from + i + open.len()));
        assert(text::occurs(s, open, from + i));
    }
}

/// The reasoning of a turn holds no call.
proof fn behind_reasoning(message: MessageView, s: Seq<char>)
    requires
        is_readable_message(message),
    ensures
        bodies_in(template::reasoning_part(message) + s) == bodies_in(s),
{
    reveal_strlit(" thinking\n");
    reveal_strlit("\n response\n\n");
    reveal_strlit(" thinking\n\n response\n\n");
    let part = template::reasoning_part(message);
    match message.reasoning_content {
        Some(reasoning) => if text::trim(reasoning).len() > 0 {
            let rest = "\n response\n\n"@ + s;
            trimmed_is_free(reasoning);
            behind_plain("\n response\n\n"@, s);
            behind_free(text::trim(reasoning), rest);
            behind_plain(" thinking\n"@, text::trim(reasoning) + rest);
            assert(part + s =~= " thinking\n"@ + (text::trim(reasoning) + rest));
        } else {
            assert(part + s =~= s);
        },
        None => if part.len() > 0 {
            behind_plain(part, s);
        } else {
            assert(part + s =~= s);
        },
    }
}

/// The text and the calls of an assistant's turn hold its calls.
proof fn behind_calls(message: MessageView, s: Seq<char>)
    requires
        is_readable_message(message),
        message.role == "assistant"@,
        s.len() > 0,
        s[0] == '<',
    ensures
        ({
            let content = text::trim(message.content);
            bodies_in(content + (template::call_blocks(content, message.tool_calls) + s))
                == call_bodies(message.tool_calls) + bodies_in(s)
        }),
{
    tags();
    short_texts();
    let content = text::trim(message.content);
    let calls = message.tool_calls;
    let blocks = template::call_blocks(content, calls);
    trimmed_is_free(message.content);
    calls_are_found(content, calls, s);
    if calls.len() == 0 {
        assert(blocks + s =~= s);
    } else {
        let rest = first_call(content, calls);
        assert((blocks + s)[0] == (if content.len() > 0 {
            '\n'
        } else {
            '<'
        }));
    }
    behind_free(content, blocks + s);
}

/// What a turn holds: the calls that its message stands for.
proof fn turn_is_read(messages: Seq<MessageView>, i: int, s: Seq<char>)
    requires
        0 <= i < messages.len(),
        template::turn(messages, i) is Some,
        is_readable_message(messages[i]),
    ensures
        bodies_in(template::turn(messages, i)->0 + s) == call_bodies(calls_of(messages[i]))
            + bodies_in(s),
{
    template::roles_differ();
    turn_ends_with_a_tag();
    let message = messages[i];
    let content = text::trim(message.content);
    let whole = template::turn(messages, i)->0 + s;
    let end = "<|im_end|>\n"@;
    let more = bodies_in(s);
    trimmed_is_free(message.content);
    behind_marks(s);
    if message.role == "assistant"@ {
        let blocks = template::call_blocks(content, message.tool_calls);
        let told = content + (blocks + (end + s));
        behind_calls(message, end + s);
        behind_reasoning(message, told);
        behind_marks(template::reasoning_part(message) + told);
        assert(whole =~= "<|im_start|>assistant\n"@ + (template::reasoning_part(message) + told));
    } else {
        assert(call_bodies(calls_of(message)) + more =~= more);
        if message.role == "system"@ {
            assert(whole =~= s);
        } else if message.role == "user"@ {
            behind_free(content, end + s);
            behind_marks(content + (end + s));
            assert(whole =~= "<|im_start|>user\n"@ + (content + (end + s)));
        } else {
            let last = if template::is_tool_answer(messages, i + 1) {
                s
            } else {
                end + s
            };
            let answer = content + ("\n</tool_response>"@ + last);
            behind_answer_marks(last);
            behind_free(content, "\n</tool_response>"@ + last);
            behind_answer_marks(answer);
            let marked = "\n<tool_response>\n"@ + answer;
            behind_marks(marked);
            if template::is_tool_answer(messages, i - 1) {
                assert(whole =~= marked);
            } else {
                assert(whole =~= "<|im_start|>user"@ + marked);
            }
        }
    }
}

/// What some turns hold: the calls that their messages stand for.
proof fn turns_are_read(messages: Seq<MessageView>, n: int, s: Seq<char>)
    requires
        0 <= n <= messages.len(),
        template::turns(messages, n) is Some,
        forall|i: int| 0 <= i < messages.len() ==> is_readable_message(#[trigger] messages[i]),
    ensures
        bodies_in(template::turns(messages, n)->0 + s) == call_bodies(
            calls_of_first(messages, n),
        ) + bodies_in(s),
    decreases n,
{
    let more = bodies_in(s);
    if n <= 0 {
        assert(template::turns(messages, n)->0 + s =~= s);
        assert(call_bodies(calls_of_first(messages, n)) + more =~= more);
    } else {
        let last = template::turn(messages, n - 1)->0;
        turn_is_read(messages, n - 1, s);
        turns_are_read(messages, n - 1, last + s);
        let earlier = calls_of_first(messages, n - 1);
        let own = calls_of(messages[n - 1]);
        assert(template::turns(messages, n)->0 + s =~= template::turns(messages, n - 1)->0 + (last
            + s));
        assert(call_bodies(earlier + own) =~= call_bodies(earlier) + call_bodies(own));
        assert(call_bodies(earlier) + (call_bodies(own) + more) =~= call_bodies(
            calls_of_first(messages, n),
        ) + more);
    }
}

/// The system turn holds no call where there are no tools.
proof fn system_turn_is_read(
    messages: Seq<MessageView>,
    enable_thinking: bool,
    effort: Seq<char>,
    s: Seq<char>,
)
    requires
        messages.len() > 0,
        is_readable_message(messages[0]),
    ensures
        bodies_in(
            template::system_turn(
                messages,
                enable_thinking,
                template::instructions(effort),
                Seq::empty(),
            ) + s,
        ) == bodies_in(s),
{
    short_texts();
    turn_ends_with_a_tag();
    instructions_are_plain(effort);
    let content = template::system_content(messages);
    let told = if enable_thinking {
        template::instructions(effort)
    } else {
        None
    };
    let end = "<|im_end|>\n"@;
    let whole = template::system_turn(
        messages,
        enable_thinking,
        template::instructions(effort),
        Seq::empty(),
    ) + s;
    behind_marks(s);
    if content.len() > 0 {
        let head = template::preamble(told);
        trimmed_is_free(messages[0].content);
        behind_free(content, end + s);
        behind_plain(head, content + (end + s));
        behind_marks(head + (content + (end + s)));
        assert(whole =~= "<|im_start|>system\n"@ + (head + (content + (end + s))));
    } else {
        match told {
            Some(told) => {
                behind_plain(told, end + s);
                behind_marks(told + (end + s));
                assert(whole =~= "<|im_start|>system\n"@ + (told + (end + s)));
            },
            None => {
                assert(whole =~= s);
            },
        }
    }
}

/// No tag begins in the instructions.
#[verifier::rlimit(40)]
proof fn instructions_are_plain(effort: Seq<char>)
    ensures
        template::instructions(effort) matches Some(told) ==> is_plain(told),
{
    reveal_strlit("Reasoning effort is set to xhigh. Please think carefully through the task, validate key assumptions, consider plausible alternatives, and prioritize correctness, consistency, and clarity in the final answer.");
    reveal_strlit("Reasoning effort is set to low. Keep your thinking brief and focused, moving directly to the conclusion without unnecessary elaboration.");
}

/// Every call of readable messages can be read.
proof fn calls_of_messages_are_readable(messages: Seq<MessageView>, n: int)
    requires
        0 <= n <= messages.len(),
        forall|i: int| 0 <= i < messages.len() ==> is_readable_message(#[trigger] messages[i]),
    ensures
        forall|i: int|
            0 <= i < calls_of_first(messages, n).len() ==> is_readable_call(
                #[trigger] calls_of_first(messages, n)[i],
            ),
    decreases n,
{
    if n > 0 {
        calls_of_messages_are_readable(messages, n - 1);
        let earlier = calls_of_first(messages, n - 1);
        let own = calls_of(messages[n - 1]);
        let all = calls_of_first(messages, n);
        assert forall|i: int| 0 <= i < all.len() implies is_readable_call(#[trigger] all[i]) by {
            if i < earlier.len() {
                assert(all[i] == earlier[i]);
            } else {
                assert(all[i] == own[i - earlier.len()]);
            }
        }
    }
}

/// From the whole prompt of a conversation without tool definitions, the calls of its
/// assistant turns are read back, in order. (The definitions of tools come with an example
/// of a call.) No call begins in the texts of the messages, and each call can be read.
pub proof fn prompts_are_read_back(
    messages: Seq<MessageView>,
    enable_thinking: bool,
    effort: Seq<char>,
    add_generation_prompt: bool,
)
    requires
        forall|i: int| 0 <= i < messages.len() ==> is_readable_message(#[trigger] messages[i]),
    ensures
        template::prompt(
            messages,
            enable_thinking,
            effort,
            Seq::empty(),
            add_generation_prompt,
        ) matches Ok(prompt) ==> calls::calls_in(prompt) == calls_of_first(
            messages,
            messages.len() as int,
        ),
{
    let rendered = template::prompt(
        messages,
        enable_thinking,
        effort,
        Seq::empty(),
        add_generation_prompt,
    );
    if let Ok(prompt) = rendered {
        let n = messages.len() as int;
        let end = if add_generation_prompt {
            template::generation_prompt(enable_thinking)
        } else {
            Seq::empty()
        };
        template::known_conversations_have_turns(messages);
        let turns = template::turns(messages, n)->0;
        let system = template::system_turn(
            messages,
            enable_thinking,
            template::instructions(effort),
            Seq::empty(),
        );
        assert(prompt =~= system + (turns + end));
        assert(is_readable_message(messages[0]));
        system_turn_is_read(messages, enable_thinking, effort, turns + end);
        turns_are_read(messages, n, end);
        generation_prompt_is_read(enable_thinking);
        let all = calls_of_first(messages, n);
        tags();
        no_bodies("<tool_call>"@, "</tool_call>"@);
        assert(call_bodies(all) + bodies_in(end) =~= call_bodies(all));
        calls_of_messages_are_readable(messages, n);
        calls_are_read(all, all.len() as int);
        assert(call_bodies(all).take(all.len() as int) =~= call_bodies(all));
        assert(all.take(all.len() as int) =~= all);
    }
}

/// The generation prompt holds no call.
proof fn generation_prompt_is_read(enable_thinking: bool)
    ensures
        bodies_in(template::generation_prompt(enable_thinking)) == Seq::<Seq<char>>::empty(),
{
    reveal_strlit(" thinking\n");
    reveal_strlit(" thinking\n\n response\n\n");
    tags();
    let none = Seq::<char>::empty();
    let opened = if enable_thinking {
        " thinking\n"@
    } else {
        " thinking\n\n response\n\n"@
    };
    assert(opened + none =~= opened);
    behind_plain(opened, none);
    behind_marks(opened);
    no_bodies("<tool_call>"@, "</tool_call>"@);
}

/// From the prompt of one assistant message in whose texts no call begins, and whose calls
/// are plain, its calls are read back.
pub proof fn assistant_prompts_are_read_back(
    message: MessageView,
    enable_thinking: bool,
    effort: Seq<char>,
    add_generation_prompt: bool,
)
    requires
        message.role == "assistant"@,
        is_free_of(message.content, "<tool_call>"@),
        message.reasoning_content matches Some(reasoning) ==> is_free_of(
            reasoning,
            "<tool_call>"@,
        ),
        forall|i: int|
            0 <= i < message.tool_calls.len() ==> is_plain_call(#[trigger] message.tool_calls[i]),
        template::is_message_read_back(message),
    ensures
        template::prompt(
            seq![message],
            enable_thinking,
            effort,
            Seq::empty(),
            add_generation_prompt,
        ) matches Ok(prompt) ==> calls::calls_in(prompt) == message.tool_calls,
{
    let calls = message.tool_calls;
    assert forall|i: int| 0 <= i < calls.len() implies is_readable_call(#[trigger] calls[i]) by {
        plain_calls_are_readable(calls[i]);
    }
    let messages = seq![message];
    assert(is_readable_message(messages[0]));
    prompts_are_read_back(messages, enable_thinking, effort, add_generation_prompt);
    assert(calls_of_first(messages, 0) =~= Seq::empty());
    assert(calls_of_first(messages, 1) =~= calls);
}

// ---------------------------------------------------------------------------
// Reasoning
// ---------------------------------------------------------------------------

/// A turn that is generated as the template writes it is split into its reasoning and its
/// answer. The reasoning is trimmed, and no line in it closes it; the answer does not begin
/// with a line end; and the other closing tag is in neither.
pub proof fn thinking_is_split(reasoning: Seq<char>, answer: Seq<char>)
    requires
        text::trim(reasoning) == reasoning,
        text::find_line(reasoning, " response"@) is None,
        answer.len() > 0 ==> answer[0] != '\n',
        is_free_of(reasoning + "\n response\n\n"@ + answer, "</think>"@),
    ensures
        tokenizer::reasoning_of(reasoning + "\n response\n\n"@ + answer, true) == reasoning,
        tokenizer::answer_of(reasoning + "\n response\n\n"@ + answer, true) == answer,
{
    reveal_strlit(" response");
    reveal_strlit("\n response\n\n");
    let line = " response"@;
    let between = "\n response\n\n"@;
    let whole = reasoning + between + answer;
    let at = (reasoning.len() + 1) as int;
    text::no_line(reasoning, line, 0);
    assert forall|i: int| 0 <= i < at implies !#[trigger] text::is_line(whole, line, i) by {
        if text::is_line(whole, line, i) {
            let found = whole.subrange(i, i + line.len());
            if i + line.len() <= reasoning.len() {
                assert(found =~= reasoning.subrange(i, i + line.len()));
                assert(text::is_line(reasoning, line, i));
            } else {
                assert(found[reasoning.len() - i] == '\n');
                assert(line[reasoning.len() - i] != '\n');
            }
        }
    }
    assert(whole.subrange(at, at + line.len()) =~= line);
    text::first_line(whole, line, 0, at);
    assert(whole.take(at) =~= reasoning.push('\n'));
    trim_newline_behind(reasoning);
    let rest = whole.skip(at + line.len());
    assert(rest =~= seq!['\n', '\n'] + answer);
    assert(rest.skip(1) =~= seq!['\n'] + answer);
    assert(rest.skip(1).skip(1) =~= answer);
    reveal_with_fuel(tokenizer::after_newlines, 3);
}

/// A turn whose reasoning ends with the other closing tag is split there.
pub proof fn tagged_thinking_is_split(reasoning: Seq<char>, answer: Seq<char>)
    requires
        text::trim(reasoning) == reasoning,
        is_free_of(reasoning, "</think>"@),
        answer.len() > 0 ==> answer[0] != '\n',
    ensures
        tokenizer::reasoning_of(reasoning + "\n</think>\n\n"@ + answer, true) == reasoning,
        tokenizer::answer_of(reasoning + "\n</think>\n\n"@ + answer, true) == answer,
{
    reveal_strlit("</think>");
    reveal_strlit("\n</think>\n\n");
    let mark = "</think>"@;
    let whole = reasoning + "\n</think>\n\n"@ + answer;
    let rest = seq!['\n', '\n'] + answer;
    assert(whole =~= reasoning + seq!['\n'] + (mark + rest));
    skip_line(reasoning, mark + rest, mark);
    find_at_front(rest, mark);
    let at = (reasoning.len() + 1) as int;
    assert(whole.take(at) =~= reasoning.push('\n'));
    trim_newline_behind(reasoning);
    assert(whole.skip(at + mark.len()) =~= rest);
    assert(rest.skip(1) =~= seq!['\n'] + answer);
    assert(rest.skip(1).skip(1) =~= answer);
    reveal_with_fuel(tokenizer::after_newlines, 3);
}

} // verus!
