//! Text as a sequence of characters: the searches, cuts and renderings that the
//! rest of the crate states its contracts with.

use vstd::prelude::*;
use vstd::string::*;
use vstd::utf8::*;

verus! {

broadcast use vstd::string::group_string_axioms;

/// `String::push` appends one character.
pub assume_specification[ String::push ](s: &mut String, c: char)
    ensures
        final(s)@ == old(s)@.push(c),
;

/// The notation that `{:?}` gives a text: in quotes, with escapes.
pub uninterp spec fn debug_text(text: Seq<char>) -> Seq<char>;

/// `format!("{:?}", text)`: the text in quotes, with escapes.
#[verifier::external_body]
pub(crate) fn quoted(text: &str) -> (s: String)
    ensures
        s@ == debug_text(text@),
{
    format!("{text:?}")
}

// ---------------------------------------------------------------------------
// Characters and strings
// ---------------------------------------------------------------------------

/// The characters of a string slice.
pub fn chars_of(s: &str) -> (chars: Vec<char>)
    ensures
        chars@ == s@,
{
    let mut chars: Vec<char> = Vec::new();
    for c in it: s.chars()
        invariant
            chars@ == it.seq().take(it.index() as int),
            it.seq() == s@,
    {
        chars.push(c);
    }
    chars
}

/// The string that holds the characters `from..to` of `chars`.
pub fn string_of(chars: &[char], from: usize, to: usize) -> (s: String)
    requires
        from <= to <= chars@.len(),
    ensures
        s@ == chars@.subrange(from as int, to as int),
{
    let mut s = String::new();
    let mut i: usize = from;
    while i < to
        invariant
            from <= i <= to <= chars@.len(),
            s@ == chars@.subrange(from as int, i as int),
        decreases to - i,
    {
        s.push(chars[i]);
        i += 1;
        assert(chars@.subrange(from as int, i as int) =~= chars@.subrange(
            from as int,
            i - 1,
        ).push(chars@[i - 1]));
    }
    s
}

/// Whether two strings hold the same text.
pub fn same_text(a: &str, b: &str) -> (same: bool)
    ensures
        same == (a@ == b@),
{
    let x = a.as_bytes();
    let y = b.as_bytes();
    proof {
        encode_utf8_decode_utf8(a@);
        encode_utf8_decode_utf8(b@);
    }
    if x.len() != y.len() {
        return false;
    }
    let mut i: usize = 0;
    while i < x.len()
        invariant
            x@.len() == y@.len(),
            i <= x@.len(),
            x@ == a.spec_bytes(),
            y@ == b.spec_bytes(),
            forall|j: int| 0 <= j < i ==> x@[j] == y@[j],
        decreases x@.len() - i,
    {
        if x[i] != y[i] {
            return false;
        }
        i += 1;
    }
    assert(x@ =~= y@);
    true
}

/// The text of `a`, then that of `b`.
pub fn join(a: &str, b: &str) -> (s: String)
    ensures
        s@ == a@ + b@,
{
    let mut s = a.to_owned();
    s.append(b);
    s
}

/// The text of `a`, `b` and `c`.
pub fn join3(a: &str, b: &str, c: &str) -> (s: String)
    ensures
        s@ == a@ + b@ + c@,
{
    let mut s = a.to_owned();
    s.append(b);
    s.append(c);
    s
}

/// The texts of several strings.
pub open spec fn texts(strings: Seq<String>) -> Seq<Seq<char>> {
    Seq::new(strings.len(), |i: int| strings[i]@)
}

/// A text that may be there, as a value.
pub open spec fn seen(text: Option<String>) -> Option<Seq<char>> {
    match text {
        Some(text) => Some(text@),
        None => None,
    }
}

// ---------------------------------------------------------------------------
// Bytes
// ---------------------------------------------------------------------------

/// The length of a text in bytes.
pub open spec fn byte_len(s: Seq<char>) -> nat {
    encode_utf8(s).len()
}

/// Whether a text can be cut at a byte offset: a character begins there, or the text ends.
pub open spec fn can_cut(s: Seq<char>, at: int) -> bool {
    is_char_boundary(encode_utf8(s), at)
}

/// The text between two byte offsets.
pub open spec fn byte_range(s: Seq<char>, from: int, to: int) -> Seq<char> {
    decode_utf8(encode_utf8(s).subrange(from, to))
}

/// The length of a string in bytes.
pub fn byte_count(s: &str) -> (count: usize)
    ensures
        count == byte_len(s@),
{
    s.as_bytes().len()
}

/// The string between two byte offsets.
pub fn cut(s: &str, from: usize, to: usize) -> (piece: String)
    requires
        from <= to <= byte_len(s@),
        can_cut(s@, from as int),
        can_cut(s@, to as int),
    ensures
        piece@ == byte_range(s@, from as int, to as int),
{
    let ghost bytes = encode_utf8(s@);
    let head = s.split_at(to).0;
    proof {
        encode_utf8_valid_utf8(s@);
        valid_utf8_split(bytes, to as int);
        let front = bytes.subrange(0, to as int);
        is_char_boundary_start_end_of_seq(front);
        if from < to {
            is_char_boundary_iff_not_is_continuation_byte(bytes, from as int);
            is_char_boundary_iff_not_is_continuation_byte(front, from as int);
        }
    }
    let piece = head.split_at(from).1;
    proof {
        assert(encode_utf8(piece@) =~= bytes.subrange(from as int, to as int));
        encode_utf8_decode_utf8(piece@);
    }
    piece.to_owned()
}

/// The bytes of two texts are those of the one, then those of the other.
pub proof fn encode_concat(a: Seq<char>, b: Seq<char>)
    ensures
        encode_utf8(a + b) == encode_utf8(a) + encode_utf8(b),
    decreases a.len(),
{
    if a.len() == 0 {
        assert(a + b =~= b);
        assert(encode_utf8(a) =~= Seq::empty());
        assert(encode_utf8(a) + encode_utf8(b) =~= encode_utf8(b));
    } else {
        encode_concat(a.drop_first(), b);
        assert((a + b).drop_first() =~= a.drop_first() + b);
        assert(encode_utf8(a + b) =~= encode_utf8(a) + encode_utf8(b));
    }
}

/// A text can be cut behind each of its prefixes, and what comes behind is the rest.
pub proof fn cut_behind_prefix(a: Seq<char>, b: Seq<char>)
    ensures
        can_cut(a + b, byte_len(a) as int),
        byte_len(a + b) == byte_len(a) + byte_len(b),
        byte_range(a + b, byte_len(a) as int, byte_len(a + b) as int) == b,
        byte_range(a + b, 0, byte_len(a) as int) == a,
{
    encode_concat(a, b);
    encode_utf8_valid_utf8(a + b);
    encode_utf8_valid_utf8(a);
    encode_utf8_valid_utf8(b);
    let bytes = encode_utf8(a + b);
    let at = byte_len(a) as int;
    assert(bytes.subrange(at, bytes.len() as int) =~= encode_utf8(b));
    assert(bytes.subrange(0, at) =~= encode_utf8(a));
    encode_utf8_decode_utf8(a);
    encode_utf8_decode_utf8(b);
    boundary_between(encode_utf8(a), encode_utf8(b));
}

/// A text has at least as many bytes as characters.
pub proof fn bytes_at_least_chars(s: Seq<char>)
    ensures
        byte_len(s) >= s.len(),
    decreases s.len(),
{
    if s.len() > 0 {
        bytes_at_least_chars(s.drop_first());
    }
}

/// Where two valid byte sequences meet is a character boundary.
proof fn boundary_between(a: Seq<u8>, b: Seq<u8>)
    requires
        valid_utf8(a),
        valid_utf8(b),
    ensures
        valid_utf8(a + b),
        is_char_boundary(a + b, a.len() as int),
{
    valid_utf8_concat(a, b);
    if b.len() == 0 {
        assert(a + b =~= a);
        is_char_boundary_start_end_of_seq(a);
    } else {
        is_char_boundary_start_end_of_seq(b);
        is_char_boundary_iff_not_is_continuation_byte(b, 0);
        is_char_boundary_iff_not_is_continuation_byte(a + b, a.len() as int);
        assert((a + b)[a.len() as int] == b[0]);
    }
}

// ---------------------------------------------------------------------------
// White space
// ---------------------------------------------------------------------------

/// The characters with the Unicode property White_Space.
pub open spec fn is_white(c: char) -> bool {
    let n = c as u32;
    ||| 0x9 <= n <= 0xd
    ||| n == 0x20
    ||| n == 0x85
    ||| n == 0xa0
    ||| n == 0x1680
    ||| 0x2000 <= n <= 0x200a
    ||| n == 0x2028
    ||| n == 0x2029
    ||| n == 0x202f
    ||| n == 0x205f
    ||| n == 0x3000
}

/// Whether `c` is white space.
pub fn white(c: char) -> (answer: bool)
    ensures
        answer == is_white(c),
{
    let n: u32 = c as u32;
    (0x9 <= n && n <= 0xd) || n == 0x20 || n == 0x85 || n == 0xa0 || n == 0x1680 || (0x2000 <= n
        && n <= 0x200a) || n == 0x2028 || n == 0x2029 || n == 0x202f || n == 0x205f || n == 0x3000
}

/// A text without its leading white space.
pub open spec fn trim_start(s: Seq<char>) -> Seq<char>
    decreases s.len(),
{
    if s.len() > 0 && is_white(s[0]) {
        trim_start(s.skip(1))
    } else {
        s
    }
}

/// A text without its trailing white space.
pub open spec fn trim_end(s: Seq<char>) -> Seq<char>
    decreases s.len(),
{
    if s.len() > 0 && is_white(s.last()) {
        trim_end(s.drop_last())
    } else {
        s
    }
}

/// A text without the white space around it.
pub open spec fn trim(s: Seq<char>) -> Seq<char> {
    trim_end(trim_start(s))
}

/// Where the text in `chars[from..to]`, without the white space around it, begins and
/// ends.
pub fn trim_range(chars: &[char], from: usize, to: usize) -> (range: (usize, usize))
    requires
        from <= to <= chars@.len(),
    ensures
        from <= range.0 <= range.1 <= to,
        chars@.subrange(range.0 as int, range.1 as int) == trim(
            chars@.subrange(from as int, to as int),
        ),
{
    let mut start: usize = from;
    let ghost whole = chars@.subrange(from as int, to as int);
    while start < to && white(chars[start])
        invariant
            from <= start <= to <= chars@.len(),
            trim_start(chars@.subrange(start as int, to as int)) == trim_start(whole),
        decreases to - start,
    {
        assert(chars@.subrange(start as int, to as int).skip(1) =~= chars@.subrange(
            start + 1,
            to as int,
        ));
        start += 1;
    }
    let mut end: usize = to;
    while end > start && white(chars[end - 1])
        invariant
            from <= start <= end <= to <= chars@.len(),
            trim_end(chars@.subrange(start as int, end as int)) == trim(whole),
        decreases end - start,
    {
        assert(chars@.subrange(start as int, end as int).drop_last() =~= chars@.subrange(
            start as int,
            end - 1,
        ));
        end -= 1;
    }
    (start, end)
}

/// A string without the white space around it.
pub fn trimmed(s: &str) -> (t: String)
    ensures
        t@ == trim(s@),
{
    let chars = chars_of(s);
    let range: (usize, usize) = trim_range(&chars, 0, chars.len());
    assert(chars@.subrange(0, chars@.len() as int) =~= chars@);
    string_of(&chars, range.0, range.1)
}

// ---------------------------------------------------------------------------
// Search
// ---------------------------------------------------------------------------

/// `pattern` stands in `s` at index `at`.
pub open spec fn occurs(s: Seq<char>, pattern: Seq<char>, at: int) -> bool {
    0 <= at && at + pattern.len() <= s.len() && s.subrange(at, at + pattern.len()) == pattern
}

/// The first index from `from` on at which `pattern` stands in `s`.
pub open spec fn find_from(s: Seq<char>, pattern: Seq<char>, from: int) -> Option<int>
    decreases s.len() - from + 1,
{
    if from + pattern.len() > s.len() {
        None
    } else if occurs(s, pattern, from) {
        Some(from)
    } else {
        find_from(s, pattern, from + 1)
    }
}

/// The first index at which `pattern` stands in `s`.
pub open spec fn find(s: Seq<char>, pattern: Seq<char>) -> Option<int> {
    find_from(s, pattern, 0)
}

/// Whether `pattern` stands in `chars[..to]` at `at`.
fn stands_at(chars: &[char], pattern: &[char], at: usize, to: usize) -> (answer: bool)
    requires
        at + pattern@.len() <= to <= chars@.len(),
    ensures
        answer == occurs(chars@.take(to as int), pattern@, at as int),
{
    let mut i: usize = 0;
    while i < pattern.len()
        invariant
            i <= pattern@.len(),
            at + pattern@.len() <= to <= chars@.len(),
            forall|k: int| 0 <= k < i ==> chars@[at + k] == pattern@[k],
        decreases pattern@.len() - i,
    {
        if chars[at + i] != pattern[i] {
            assert(chars@.take(to as int).subrange(at as int, at + pattern@.len())[i as int]
                != pattern@[i as int]);
            return false;
        }
        i += 1;
    }
    assert(chars@.take(to as int).subrange(at as int, at + pattern@.len()) =~= pattern@);
    true
}

/// The first index in `from..to` at which `pattern` stands whole before `to`.
pub fn find_in(chars: &[char], pattern: &[char], from: usize, to: usize) -> (found: Option<usize>)
    requires
        from <= to <= chars@.len(),
    ensures
        match (found, find_from(chars@.take(to as int), pattern@, from as int)) {
            (Some(at), Some(first)) => at == first && from <= at && at + pattern@.len() <= to,
            (None, None) => true,
            _ => false,
        },
{
    let mut at: usize = from;
    while to - at >= pattern.len()
        invariant
            from <= at <= to <= chars@.len(),
            find_from(chars@.take(to as int), pattern@, at as int) == find_from(
                chars@.take(to as int),
                pattern@,
                from as int,
            ),
        decreases to - at,
    {
        if stands_at(chars, pattern, at, to) {
            return Some(at);
        }
        if at == to {
            assert(pattern@.len() == 0);
            assert(chars@.take(to as int).subrange(at as int, at as int) =~= pattern@);
            return Some(at);
        }
        at += 1;
    }
    None
}

/// `line` is a whole line of `s`, which begins at index `at`.
pub open spec fn is_line(s: Seq<char>, line: Seq<char>, at: int) -> bool {
    &&& occurs(s, line, at)
    &&& at == 0 || s[at - 1] == '\n'
    &&& at + line.len() == s.len() || s[at + line.len()] == '\n'
}

/// Where the first line from `from` on begins that is `line`.
pub open spec fn find_line_from(s: Seq<char>, line: Seq<char>, from: int) -> Option<int>
    decreases s.len() - from + 1,
{
    if from + line.len() > s.len() {
        None
    } else if is_line(s, line, from) {
        Some(from)
    } else {
        find_line_from(s, line, from + 1)
    }
}

/// Where the first line begins that is `line`.
pub open spec fn find_line(s: Seq<char>, line: Seq<char>) -> Option<int> {
    find_line_from(s, line, 0)
}

/// Where the first line begins that is `line`.
pub fn line_in(chars: &[char], line: &[char]) -> (found: Option<usize>)
    ensures
        match (found, find_line(chars@, line@)) {
            (Some(at), Some(first)) => at == first && at + line@.len() <= chars@.len(),
            (None, None) => true,
            _ => false,
        },
{
    let end: usize = chars.len();
    let mut at: usize = 0;
    assert(chars@.take(end as int) =~= chars@);
    while end - at >= line.len()
        invariant
            at <= end,
            end == chars@.len(),
            chars@.take(end as int) == chars@,
            find_line_from(chars@, line@, at as int) == find_line(chars@, line@),
        decreases end - at,
    {
        if stands_at(chars, line, at, end) && (at == 0 || chars[at - 1] == '\n') && (end - at
            == line.len() || chars[at + line.len()] == '\n') {
            return Some(at);
        }
        if at == end {
            assert(find_line_from(chars@, line@, at + 1) is None);
            return None;
        }
        at += 1;
    }
    None
}

/// A search can begin behind where no line is found, and ends at the first that is.
pub proof fn first_line(s: Seq<char>, line: Seq<char>, from: int, to: int)
    requires
        0 <= from <= to,
        forall|i: int| from <= i < to ==> !#[trigger] is_line(s, line, i),
        is_line(s, line, to),
    ensures
        find_line_from(s, line, from) == Some(to),
    decreases to - from,
{
    if from < to {
        assert(!is_line(s, line, from));
        first_line(s, line, from + 1, to);
    }
}

/// Where no line is found, there is none.
pub proof fn no_line(s: Seq<char>, line: Seq<char>, from: int)
    requires
        0 <= from,
        find_line_from(s, line, from) is None,
    ensures
        forall|i: int| from <= i ==> !#[trigger] is_line(s, line, i),
    decreases s.len() - from + 1,
{
    if from + line.len() <= s.len() {
        no_line(s, line, from + 1);
    }
}

/// Searching a tail finds what searching the whole from there on finds.
pub proof fn find_in_tail(s: Seq<char>, pattern: Seq<char>, from: int, shift: int)
    requires
        0 <= shift <= s.len(),
        0 <= from,
    ensures
        find_from(s.skip(shift), pattern, from) == (match find_from(s, pattern, shift + from) {
            Some(at) => Some(at - shift),
            None => None,
        }),
    decreases s.len() - from + 1,
{
    let tail = s.skip(shift);
    if from + pattern.len() <= tail.len() {
        assert(tail.subrange(from, from + pattern.len()) =~= s.subrange(
            shift + from,
            shift + from + pattern.len(),
        ));
        if !occurs(tail, pattern, from) {
            find_in_tail(s, pattern, from + 1, shift);
        }
    }
}

/// Whether a string starts with another.
pub fn starts_with(s: &str, prefix: &str) -> (answer: bool)
    ensures
        answer == prefix@.is_prefix_of(s@),
{
    let chars = chars_of(s);
    let start = chars_of(prefix);
    if start.len() > chars.len() {
        return false;
    }
    assert(chars@.take(chars@.len() as int) =~= chars@);
    stands_at(&chars, &start, 0, chars.len())
}

/// What comes before the first `mark`; everything, where there is none.
pub open spec fn before(s: Seq<char>, mark: Seq<char>) -> Seq<char> {
    match find(s, mark) {
        Some(at) => s.take(at),
        None => s,
    }
}

/// What comes behind the first `mark`; nothing, where there is none.
pub open spec fn behind(s: Seq<char>, mark: Seq<char>) -> Seq<char> {
    match find(s, mark) {
        Some(at) => s.skip(at + mark.len()),
        None => Seq::empty(),
    }
}

/// The first occurrence lies in the text, and none comes earlier.
pub proof fn find_is_first(s: Seq<char>, pattern: Seq<char>, from: int)
    requires
        0 <= from,
    ensures
        match find_from(s, pattern, from) {
            Some(at) => {
                &&& from <= at
                &&& occurs(s, pattern, at)
                &&& forall|i: int| from <= i < at ==> !#[trigger] occurs(s, pattern, i)
            },
            None => forall|i: int| from <= i ==> !#[trigger] occurs(s, pattern, i),
        },
    decreases s.len() - from + 1,
{
    if from + pattern.len() <= s.len() && !occurs(s, pattern, from) {
        find_is_first(s, pattern, from + 1);
    }
}

// ---------------------------------------------------------------------------
// Numbers
// ---------------------------------------------------------------------------

/// A digit as a character.
pub open spec fn digit(d: int) -> char
    recommends
        0 <= d < 10,
{
    ('0' as u32 + d) as char
}

/// A number in decimal notation.
pub open spec fn decimal(n: nat) -> Seq<char>
    decreases n,
{
    if n < 10 {
        seq![digit(n as int)]
    } else {
        decimal(n / 10).push(digit((n % 10) as int))
    }
}

/// A digit as a character.
fn digit_char(d: u64) -> (c: char)
    requires
        d < 10,
    ensures
        c == digit(d as int),
{
    let byte: u8 = 48 + d as u8;
    byte as char
}

/// A number in decimal notation.
pub fn decimal_of(n: u64) -> (s: String)
    ensures
        s@ == decimal(n as nat),
    decreases n,
{
    if n < 10 {
        let mut s = String::new();
        s.push(digit_char(n));
        assert(s@ =~= seq![digit(n as int)]);
        s
    } else {
        let mut s = decimal_of(n / 10);
        s.push(digit_char(n % 10));
        s
    }
}

/// A hexadecimal digit as a character.
pub open spec fn hex_digit(d: int) -> char
    recommends
        0 <= d < 16,
{
    if d < 10 {
        digit(d)
    } else {
        ('a' as u32 + d - 10) as char
    }
}

/// A number in hexadecimal notation, with zeros in front up to `width` digits.
pub open spec fn hex(n: nat, width: nat) -> Seq<char>
    decreases n, width,
{
    if n < 16 && width <= 1 {
        seq![hex_digit(n as int)]
    } else {
        hex(
            n / 16,
            if width == 0 {
                0
            } else {
                (width - 1) as nat
            },
        ).push(hex_digit((n % 16) as int))
    }
}

/// A number in hexadecimal notation, with zeros in front up to `width` digits.
pub fn hex_of(n: u64, width: usize) -> (s: String)
    ensures
        s@ == hex(n as nat, width as nat),
    decreases n, width,
{
    let low: u64 = n % 16;
    let byte: u8 = if low < 10 {
        48 + low as u8
    } else {
        87 + low as u8
    };
    if n < 16 && width <= 1 {
        let mut s = String::new();
        s.push(byte as char);
        assert(s@ =~= seq![hex_digit(n as int)]);
        s
    } else {
        let mut s = hex_of(
            n / 16,
            if width == 0 {
                0
            } else {
                width - 1
            },
        );
        s.push(byte as char);
        s
    }
}

// ---------------------------------------------------------------------------
// Order
// ---------------------------------------------------------------------------

/// `a` comes before `b` in the order of code points.
pub open spec fn text_before(a: Seq<char>, b: Seq<char>) -> bool
    decreases a.len(),
{
    if b.len() == 0 {
        false
    } else if a.len() == 0 {
        true
    } else if a[0] == b[0] {
        text_before(a.skip(1), b.skip(1))
    } else {
        a[0] < b[0]
    }
}

/// Whether `a` comes before `b` in the order of code points, which is that of their bytes.
pub fn comes_before(a: &str, b: &str) -> (answer: bool)
    ensures
        answer == text_before(a@, b@),
{
    let x = chars_of(a);
    let y = chars_of(b);
    let mut i: usize = 0;
    assert(a@.skip(0) =~= a@);
    assert(b@.skip(0) =~= b@);
    while i < x.len() && i < y.len()
        invariant
            i <= x@.len(),
            i <= y@.len(),
            x@ == a@,
            y@ == b@,
            text_before(a@.skip(i as int), b@.skip(i as int)) == text_before(a@, b@),
        decreases x@.len() - i,
    {
        assert(a@.skip(i as int).skip(1) =~= a@.skip(i + 1));
        assert(b@.skip(i as int).skip(1) =~= b@.skip(i + 1));
        if x[i] != y[i] {
            return x[i] < y[i];
        }
        i += 1;
    }
    x.len() < y.len()
}

/// Of two texts, one at most comes before the other.
pub proof fn before_is_asymmetric(a: Seq<char>, b: Seq<char>)
    ensures
        text_before(a, b) ==> !text_before(b, a),
    decreases a.len(),
{
    if a.len() > 0 && b.len() > 0 && a[0] == b[0] {
        before_is_asymmetric(a.skip(1), b.skip(1));
    }
}

/// What comes before a text that comes before another comes before that one.
pub proof fn before_is_transitive(a: Seq<char>, b: Seq<char>, c: Seq<char>)
    requires
        text_before(a, b),
        text_before(b, c),
    ensures
        text_before(a, c),
    decreases a.len(),
{
    if a.len() > 0 && a[0] == b[0] && b[0] == c[0] {
        before_is_transitive(a.skip(1), b.skip(1), c.skip(1));
    }
}

/// Two different texts come one before the other.
pub proof fn before_is_total(a: Seq<char>, b: Seq<char>)
    requires
        a != b,
    ensures
        text_before(a, b) || text_before(b, a),
    decreases a.len(),
{
    if a.len() > 0 && b.len() > 0 && a[0] == b[0] {
        if a.skip(1) == b.skip(1) {
            assert(a =~= seq![a[0]] + a.skip(1));
            assert(b =~= seq![b[0]] + b.skip(1));
        }
        before_is_total(a.skip(1), b.skip(1));
    } else if a.len() == 0 && b.len() == 0 {
        assert(a =~= b);
    }
}

// ---------------------------------------------------------------------------
// What trimming keeps
// ---------------------------------------------------------------------------

/// A text is all white space.
pub open spec fn all_white(s: Seq<char>) -> bool {
    forall|i: int| 0 <= i < s.len() ==> is_white(#[trigger] s[i])
}

/// What is cut off at the front is white space, and goes up to where none is.
proof fn trim_start_cuts(s: Seq<char>) -> (cut: int)
    ensures
        0 <= cut <= s.len(),
        trim_start(s) == s.skip(cut),
        all_white(s.take(cut)),
        cut < s.len() ==> !is_white(s[cut]),
    decreases s.len(),
{
    if s.len() > 0 && is_white(s[0]) {
        let rest: int = trim_start_cuts(s.skip(1));
        assert(s.skip(1).skip(rest) =~= s.skip(rest + 1));
        assert forall|i: int| 0 <= i < rest + 1 implies is_white(
            #[trigger] s.take(rest + 1)[i],
        ) by {
            if i > 0 {
                assert(s.skip(1).take(rest)[i - 1] == s[i]);
            }
        }
        rest + 1
    } else {
        assert(s.skip(0) =~= s);
        0
    }
}

/// What is cut off at the end is white space, and begins where none is.
proof fn trim_end_cuts(s: Seq<char>) -> (left: int)
    ensures
        0 <= left <= s.len(),
        trim_end(s) == s.take(left),
        all_white(s.skip(left)),
        0 < left ==> !is_white(s[left - 1]),
    decreases s.len(),
{
    if s.len() > 0 && is_white(s.last()) {
        let left: int = trim_end_cuts(s.drop_last());
        assert(s.drop_last().take(left) =~= s.take(left));
        assert forall|i: int| 0 <= i < s.len() - left implies is_white(
            #[trigger] s.skip(left)[i],
        ) by {
            if i < s.len() - left - 1 {
                assert(s.drop_last().skip(left)[i] == s[left + i]);
            }
        }
        left
    } else {
        assert(s.take(s.len() as int) =~= s);
        s.len() as int
    }
}

/// Trimming cuts off white space at both ends and nothing else, and leaves none there.
pub proof fn trimming_cuts_white_space(s: Seq<char>)
    ensures
        exists|before: Seq<char>, after: Seq<char>|
            s == #[trigger] (before + trim(s) + after) && all_white(before) && all_white(after),
        trim(s).len() > 0 ==> !is_white(trim(s)[0]) && !is_white(trim(s).last()),
{
    let cut: int = trim_start_cuts(s);
    let middle = trim_start(s);
    let left: int = trim_end_cuts(middle);
    let before = s.take(cut);
    let after = middle.skip(left);
    assert(s =~= before + trim(s) + after);
    if left > 0 {
        assert(trim(s)[0] == s[cut]);
        assert(trim(s).last() == middle[left - 1]);
    }
}

} // verus!
