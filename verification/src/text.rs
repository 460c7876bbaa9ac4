//! Text as sequences of characters: scanning, trimming, splitting and joining.
use vstd::prelude::*;
use vstd::string::*;
use vstd::utf8::{char_is_scalar, char_u32_cast, encode_scalar, encode_utf8};

verus! {

/// The characters of a string, in order.
pub fn chars_of(text: &str) -> (chars: Vec<char>)
    ensures
        chars@ == text@,
{
    let mut chars: Vec<char> = Vec::new();
    for c in it: text.chars()
        invariant
            chars@ == it.seq().take(it.index()),
            it.seq() == text@,
    {
        chars.push(c);
    }
    chars
}

/// The string made of the characters from `from` up to but not including `to`.
pub fn text_between(chars: &[char], from: usize, to: usize) -> (text: String)
    requires
        from <= to <= chars@.len(),
    ensures
        text@ == chars@.subrange(from as int, to as int),
{
    let mut text = String::new();
    let mut i: usize = from;
    while i < to
        invariant
            from <= i <= to <= chars@.len(),
            text@ == chars@.subrange(from as int, i as int),
        decreases to - i,
    {
        text.push(chars[i]);
        i = i + 1;
    }
    text
}

/// The two texts one after the other.
pub fn followed_by(first: &str, second: &str) -> (text: String)
    ensures
        text@ == first@ + second@,
{
    let mut text = first.to_owned();
    text.append(second);
    text
}

/// Whether two texts hold the same characters.
pub fn same_text(first: &str, second: &str) -> (same: bool)
    ensures
        same == (first@ == second@),
{
    first.to_owned() == second.to_owned()
}

/// The Unicode `White_Space` property.
pub open spec fn white_space(c: char) -> bool {
    ||| '\u{9}' <= c <= '\u{d}'
    ||| c == ' '
    ||| c == '\u{85}'
    ||| c == '\u{a0}'
    ||| c == '\u{1680}'
    ||| '\u{2000}' <= c <= '\u{200a}'
    ||| c == '\u{2028}'
    ||| c == '\u{2029}'
    ||| c == '\u{202f}'
    ||| c == '\u{205f}'
    ||| c == '\u{3000}'
}

/// Whether a character is white space.
pub fn is_white_space(c: char) -> (white: bool)
    ensures
        white == white_space(c),
{
    ('\u{9}' <= c && c <= '\u{d}') || c == ' ' || c == '\u{85}' || c == '\u{a0}' || c == '\u{1680}'
        || ('\u{2000}' <= c && c <= '\u{200a}') || c == '\u{2028}' || c == '\u{2029}'
        || c == '\u{202f}' || c == '\u{205f}' || c == '\u{3000}'
}

/// Whether a text has no white space in it.
pub open spec fn is_unbroken(text: Seq<char>) -> bool {
    forall|i: int| 0 <= i < text.len() ==> !white_space(#[trigger] text[i])
}

/// Whether a text begins like a web address.
pub open spec fn looks_like_url(text: Seq<char>) -> bool {
    "http://"@.is_prefix_of(text) || "https://"@.is_prefix_of(text)
}

/// The decimal digit of a number below ten.
pub open spec fn digit(d: nat) -> char {
    (48 + d) as char
}

/// The decimal representation of a number, without leading zeros.
pub open spec fn decimal(n: nat) -> Seq<char>
    decreases n,
{
    if n < 10 {
        seq![digit(n)]
    } else {
        decimal(n / 10).push(digit(n % 10))
    }
}

/// Writes a number in decimal.
pub fn decimal_text(n: u64) -> (text: String)
    ensures
        text@ == decimal(n as nat),
    decreases n,
{
    let d = (48 + (n % 10) as u8) as char;
    if n < 10 {
        let mut text = String::new();
        text.push(d);
        assert(text@ =~= seq![digit(n as nat)]);
        text
    } else {
        let mut text = decimal_text(n / 10);
        text.push(d);
        text
    }
}

/// The texts of strings.
pub open spec fn texts(strings: Seq<String>) -> Seq<Seq<char>> {
    strings.map_values(|s: String| s@)
}

/// The texts of name and value pairs.
pub open spec fn pair_texts(pairs: Seq<(String, String)>) -> Seq<(Seq<char>, Seq<char>)> {
    pairs.map_values(|pair: (String, String)| (pair.0@, pair.1@))
}

/// The text of a string that may be absent.
pub open spec fn option_text(text: Option<String>) -> Option<Seq<char>> {
    match text {
        Some(s) => Some(s@),
        None => None,
    }
}

/// The position of the first `c`, or the length where there is none.
pub open spec fn first_index<T>(text: Seq<T>, c: T) -> int
    decreases text.len(),
{
    if text.len() == 0 || text[0] == c {
        0
    } else {
        1 + first_index(text.drop_first(), c)
    }
}

/// What the position of the first `c` is, said without recursion.
pub proof fn lemma_first_index<T>(text: Seq<T>, c: T)
    ensures
        0 <= first_index(text, c) <= text.len(),
        forall|i: int| 0 <= i < first_index(text, c) ==> text[i] != c,
        first_index(text, c) < text.len() ==> text[first_index(text, c)] == c,
    decreases text.len(),
{
    if text.len() > 0 && text[0] != c {
        let rest = text.drop_first();
        lemma_first_index(rest, c);
        assert forall|i: int| 0 <= i < first_index(text, c) implies text[i] != c by {
            if i > 0 {
                assert(rest[i - 1] == text[i]);
            }
        }
    }
}

/// A position before which there is no `c`, and at which there is one unless it is the length,
/// is that of the first `c`.
pub proof fn lemma_first_index_is<T>(text: Seq<T>, c: T, at: int)
    requires
        0 <= at <= text.len(),
        forall|i: int| 0 <= i < at ==> text[i] != c,
        at < text.len() ==> text[at] == c,
    ensures
        first_index(text, c) == at,
{
    lemma_first_index(text, c);
}

/// Finds the first `c` at or after `from`; gives the length where there is none.
fn find(chars: &[char], from: usize, c: char) -> (at: usize)
    requires
        from <= chars@.len(),
    ensures
        from <= at <= chars@.len(),
        at - from == first_index(chars@.skip(from as int), c),
{
    let mut at: usize = from;
    while at < chars.len() && chars[at] != c
        invariant
            from <= at <= chars@.len(),
            forall|i: int| from <= i < at ==> chars@[i] != c,
        decreases chars@.len() - at,
    {
        at = at + 1;
    }
    proof {
        lemma_first_index_is(chars@.skip(from as int), c, at - from);
    }
    at
}

/// Splits a text at the first `c`, which belongs to neither part.
pub fn split_once(text: &str, c: char) -> (parts: Option<(String, String)>)
    ensures
        match parts {
            None => first_index(text@, c) == text@.len(),
            Some((before, after)) => {
                &&& first_index(text@, c) < text@.len()
                &&& before@ == text@.take(first_index(text@, c))
                &&& after@ == text@.skip(first_index(text@, c) + 1)
            },
        },
{
    let chars = chars_of(text);
    let at = find(chars.as_slice(), 0, c);
    assert(chars@.skip(0) == text@);
    if at == chars.len() {
        None
    } else {
        let before = text_between(chars.as_slice(), 0, at);
        let after = text_between(chars.as_slice(), at + 1, chars.len());
        Some((before, after))
    }
}

/// Whether a text begins with a prefix.
pub fn starts_with(text: &str, prefix: &str) -> (does: bool)
    ensures
        does == prefix@.is_prefix_of(text@),
{
    let chars = chars_of(text);
    let wanted = chars_of(prefix);
    matches_at(chars.as_slice(), 0, wanted.as_slice())
}

/// Whether the characters from `at` on begin with those of `wanted`.
fn matches_at(chars: &[char], at: usize, wanted: &[char]) -> (does: bool)
    requires
        at <= chars@.len(),
    ensures
        does == wanted@.is_prefix_of(chars@.skip(at as int)),
{
    if wanted.len() > chars.len() - at {
        return false;
    }
    let mut i: usize = 0;
    assert(chars@.len() == chars.len());
    while i < wanted.len()
        invariant
            i <= wanted@.len(),
            wanted@.len() + at <= chars@.len() <= usize::MAX,
            forall|j: int| 0 <= j < i ==> wanted@[j] == chars@[at + j],
        decreases wanted@.len() - i,
    {
        if chars[at + i] != wanted[i] {
            assert(chars@.skip(at as int)[i as int] == chars@[at + i]);
            return false;
        }
        i = i + 1;
    }
    assert(wanted@ =~= chars@.skip(at as int).take(wanted@.len() as int));
    true
}

/// A text without the white space at its beginning.
pub open spec fn trim_start(text: Seq<char>) -> Seq<char>
    decreases text.len(),
{
    if text.len() > 0 && white_space(text[0]) {
        trim_start(text.drop_first())
    } else {
        text
    }
}

/// A text without the white space at its end.
pub open spec fn trim_end(text: Seq<char>) -> Seq<char>
    decreases text.len(),
{
    if text.len() > 0 && white_space(text.last()) {
        trim_end(text.drop_last())
    } else {
        text
    }
}

/// A text without the white space at both ends.
pub open spec fn trimmed(text: Seq<char>) -> Seq<char> {
    trim_end(trim_start(text))
}

/// Removes the white space at both ends of a text.
pub fn trim(text: &str) -> (inner: String)
    ensures
        inner@ == trimmed(text@),
{
    let chars = chars_of(text);
    let mut from: usize = 0;
    assert(chars@.skip(0) == text@);
    while from < chars.len() && is_white_space(chars[from])
        invariant
            from <= chars@.len(),
            trim_start(chars@.skip(from as int)) == trim_start(text@),
        decreases chars@.len() - from,
    {
        assert(chars@.skip(from as int).drop_first() == chars@.skip(from + 1));
        from = from + 1;
    }
    let mut to: usize = chars.len();
    assert(chars@.subrange(from as int, to as int) == chars@.skip(from as int));
    assert(trim_start(text@) == chars@.skip(from as int));
    while from < to && is_white_space(chars[to - 1])
        invariant
            from <= to <= chars@.len(),
            trim_end(chars@.subrange(from as int, to as int)) == trimmed(text@),
        decreases to,
    {
        assert(chars@.subrange(from as int, to as int).drop_last() == chars@.subrange(
            from as int,
            to - 1,
        ));
        to = to - 1;
    }
    text_between(chars.as_slice(), from, to)
}

/// A sequence without `c` at its end.
pub open spec fn without_last<T>(items: Seq<T>, c: T) -> Seq<T> {
    if items.len() > 0 && items.last() == c {
        items.drop_last()
    } else {
        items
    }
}

/// A line without the carriage return at its end.
pub open spec fn without_return(line: Seq<char>) -> Seq<char> {
    without_last(line, '\r')
}

/// The lines that a sequence is made of. Each ends at a newline, which may have a carriage return
/// before it; the last one may also end with the sequence.
pub open spec fn split_lines<T>(items: Seq<T>, newline: T, carriage_return: T) -> Seq<Seq<T>>
    decreases items.len(),
{
    let end = first_index(items, newline);
    if items.len() == 0 {
        seq![]
    } else if end < 0 || end >= items.len() {
        seq![items]
    } else {
        seq![without_last(items.take(end), carriage_return)] + split_lines(
            items.skip(end + 1),
            newline,
            carriage_return,
        )
    }
}

/// The lines of a text.
pub open spec fn lines_of(text: Seq<char>) -> Seq<Seq<char>> {
    split_lines(text, '\n', '\r')
}

/// The lines of a text in UTF-8, or in any other encoding in which a byte that looks like a
/// newline or a carriage return is one.
pub open spec fn byte_lines(bytes: Seq<u8>) -> Seq<Seq<u8>> {
    split_lines(bytes, 0x0a, 0x0d)
}

/// The lines of a sequence are those up to a newline and those behind it.
pub proof fn lemma_split_concat<T>(
    first: Seq<T>,
    second: Seq<T>,
    newline: T,
    carriage_return: T,
)
    ensures
        split_lines(first.push(newline) + second, newline, carriage_return) == split_lines(
            first.push(newline),
            newline,
            carriage_return,
        ) + split_lines(second, newline, carriage_return),
    decreases first.len(),
{
    let ended = first.push(newline);
    let all = ended + second;
    lemma_first_index(ended, newline);
    let end = first_index(ended, newline);
    assert(ended[first.len() as int] == newline);
    assert forall|i: int| 0 <= i < end implies all[i] != newline by {
        assert(all[i] == ended[i]);
    }
    assert(all[end] == ended[end]);
    lemma_first_index_is(all, newline, end);
    assert(all.take(end) =~= ended.take(end));
    if end == first.len() {
        assert(all.skip(end + 1) =~= second);
        assert(ended.skip(end + 1) =~= seq![]);
        assert(split_lines(ended.skip(end + 1), newline, carriage_return) =~= seq![]);
    } else {
        let rest = first.skip(end + 1);
        assert(ended.skip(end + 1) =~= rest.push(newline));
        assert(all.skip(end + 1) =~= rest.push(newline) + second);
        lemma_split_concat(rest, second, newline, carriage_return);
    }
    assert(split_lines(all, newline, carriage_return) =~= split_lines(
        ended,
        newline,
        carriage_return,
    ) + split_lines(second, newline, carriage_return));
}

/// A sequence without a newline, with one behind it, is one line.
pub proof fn lemma_split_one<T>(line: Seq<T>, newline: T, carriage_return: T)
    requires
        forall|i: int| 0 <= i < line.len() ==> line[i] != newline,
    ensures
        split_lines(line.push(newline), newline, carriage_return) == seq![
            without_last(line, carriage_return),
        ],
{
    let all = line.push(newline);
    let rest = all.skip((line.len() + 1) as int);
    lemma_first_index_is(all, newline, line.len() as int);
    assert(all.take(line.len() as int) =~= line);
    assert(rest =~= seq![]);
    assert(split_lines(rest, newline, carriage_return) =~= seq![]);
    assert(split_lines(all, newline, carriage_return) =~= seq![
        without_last(line, carriage_return),
    ]);
}

proof fn lemma_scalars_differ(first: char, second: char)
    requires
        first != second,
    ensures
        first as u32 != second as u32,
{
    char_u32_cast(first, first as u32);
    char_u32_cast(second, second as u32);
}

/// The UTF-8 of a character holds an ASCII byte if it is that character, and no other ASCII byte.
proof fn lemma_ascii_byte(c: char, byte: u8)
    requires
        byte < 0x80,
    ensures
        encode_scalar(c as u32).len() > 0,
        c as u32 == byte as u32 ==> encode_scalar(c as u32) == seq![byte],
        c as u32 != byte as u32 ==> forall|i: int|
            0 <= i < encode_scalar(c as u32).len() ==> #[trigger] encode_scalar(c as u32)[i]
                != byte,
{
    char_is_scalar(c);
    let v = c as u32;
    assert(v <= 0x7f ==> (v & 0x7f) as u8 == v) by (bit_vector);
    assert(0x80 | (v & 0x3f) as u8 >= 0x80) by (bit_vector);
    assert(0x80 | ((v >> 6) & 0x3f) as u8 >= 0x80) by (bit_vector);
    assert(0x80 | ((v >> 12) & 0x3f) as u8 >= 0x80) by (bit_vector);
    assert(0xc0 | ((v >> 6) & 0x1f) as u8 >= 0x80) by (bit_vector);
    assert(0xe0 | ((v >> 12) & 0x0f) as u8 >= 0x80) by (bit_vector);
    assert(0xf0 | ((v >> 18) & 0x7) as u8 >= 0x80) by (bit_vector);
    if c as u32 == byte as u32 {
        assert(encode_scalar(v) =~= seq![byte]);
    }
}

/// The UTF-8 of a text has no ASCII byte in it whose character the text has not.
proof fn lemma_no_ascii_byte(text: Seq<char>, byte: u8)
    requires
        byte < 0x80,
        forall|i: int| 0 <= i < text.len() ==> (#[trigger] text[i]) as u32 != byte as u32,
    ensures
        forall|i: int|
            0 <= i < encode_utf8(text).len() ==> #[trigger] encode_utf8(text)[i] != byte,
    decreases text.len(),
{
    if text.len() > 0 {
        let rest = text.drop_first();
        assert forall|i: int| 0 <= i < rest.len() implies (#[trigger] rest[i]) as u32
            != byte as u32 by {
            assert(rest[i] == text[i + 1]);
        }
        lemma_no_ascii_byte(rest, byte);
        lemma_ascii_byte(text[0], byte);
        let head = encode_scalar(text[0] as u32);
        assert(encode_utf8(text) == head + encode_utf8(rest));
        assert forall|i: int| 0 <= i < encode_utf8(text).len() implies #[trigger] encode_utf8(
            text,
        )[i] != byte by {
            if i < head.len() {
                assert(encode_utf8(text)[i] == head[i]);
            } else {
                assert(encode_utf8(text)[i] == encode_utf8(rest)[i - head.len()]);
            }
        }
    }
}

proof fn lemma_encode_one(c: char)
    ensures
        encode_utf8(seq![c]) == encode_scalar(c as u32),
{
    assert(seq![c].drop_first() =~= seq![]);
    assert(encode_utf8(seq![c].drop_first()) =~= seq![]);
    assert(encode_utf8(seq![c]) =~= encode_scalar(c as u32));
}

proof fn lemma_encode_without_return(line: Seq<char>)
    ensures
        encode_utf8(without_return(line)) == without_last(encode_utf8(line), 0x0d),
{
    if line.len() > 0 {
        let front = line.drop_last();
        let last = line.last();
        assert(line =~= front + seq![last]);
        lemma_encode_concat(front, seq![last]);
        lemma_encode_one(last);
        lemma_ascii_byte(last, 0x0d);
        let tail = encode_scalar(last as u32);
        assert(encode_utf8(line).last() == tail[tail.len() - 1]);
        if last == '\r' {
            assert(encode_utf8(line).drop_last() =~= encode_utf8(front));
        } else {
            lemma_scalars_differ(last, '\r');
        }
    }
}

/// The lines of the UTF-8 of a text are the UTF-8 of its lines.
pub proof fn lemma_byte_lines(text: Seq<char>)
    ensures
        byte_lines(encode_utf8(text)) == lines_of(text).map_values(
            |line: Seq<char>| encode_utf8(line),
        ),
    decreases text.len(),
{
    let bytes = encode_utf8(text);
    let encoded = |line: Seq<char>| encode_utf8(line);
    lemma_first_index(text, '\n');
    let end = first_index(text, '\n');
    let line = text.take(end);
    assert forall|i: int| 0 <= i < line.len() implies (#[trigger] line[i]) as u32
        != 0x0au8 as u32 by {
        lemma_scalars_differ(text[i], '\n');
    }
    lemma_no_ascii_byte(line, 0x0a);
    let at = encode_utf8(line).len() as int;
    if text.len() == 0 {
        assert(byte_lines(bytes) =~= lines_of(text).map_values(encoded));
    } else if end == text.len() {
        assert(line =~= text);
        lemma_first_index_is(bytes, 0x0a, at);
        lemma_ascii_byte(text[0], 0x0a);
        assert(byte_lines(bytes) =~= seq![bytes]);
        assert(lines_of(text).map_values(encoded) =~= seq![bytes]);
    } else {
        let rest = text.skip(end + 1);
        assert(text =~= line + (seq!['\n'] + rest));
        lemma_encode_concat(line, seq!['\n'] + rest);
        lemma_encode_concat(seq!['\n'], rest);
        lemma_encode_one('\n');
        lemma_ascii_byte('\n', 0x0a);
        assert(bytes =~= encode_utf8(line) + (seq![0x0au8] + encode_utf8(rest)));
        assert forall|i: int| 0 <= i < at implies bytes[i] != 0x0a by {
            assert(bytes[i] == encode_utf8(line)[i]);
        }
        lemma_first_index_is(bytes, 0x0a, at);
        assert(bytes.take(at) =~= encode_utf8(line));
        assert(bytes.skip(at + 1) =~= encode_utf8(rest));
        lemma_encode_without_return(line);
        lemma_byte_lines(rest);
        assert(byte_lines(bytes) =~= seq![encode_utf8(without_return(line))] + byte_lines(
            encode_utf8(rest),
        ));
        assert(lines_of(text) =~= seq![without_return(line)] + lines_of(rest));
        assert(lines_of(text).map_values(encoded) =~= seq![encode_utf8(without_return(line))]
            + lines_of(rest).map_values(encoded));
    }
}

/// Lines joined with a newline between each two.
pub open spec fn joined(parts: Seq<Seq<char>>) -> Seq<char>
    decreases parts.len(),
{
    if parts.len() == 0 {
        seq![]
    } else if parts.len() == 1 {
        parts[0]
    } else {
        joined(parts.drop_last()).push('\n') + parts.last()
    }
}

/// Joins lines with a newline between each two.
pub fn join_lines(parts: &Vec<String>) -> (text: String)
    ensures
        text@ == joined(texts(parts@)),
{
    let mut text = String::new();
    let mut i: usize = 0;
    while i < parts.len()
        invariant
            i <= parts@.len(),
            text@ == joined(texts(parts@).take(i as int)),
        decreases parts@.len() - i,
    {
        if i > 0 {
            text.push('\n');
        }
        text.append(parts[i].as_str());
        assert(texts(parts@).take(i + 1).drop_last() == texts(parts@).take(i as int));
        i = i + 1;
    }
    assert(texts(parts@).take(i as int) == texts(parts@));
    text
}

/// A text in which each occurrence of `pattern`, found from the left and without overlaps, is
/// replaced.
pub open spec fn replaced(text: Seq<char>, pattern: Seq<char>, by: Seq<char>) -> Seq<char>
    decreases text.len(),
{
    if pattern.len() == 0 || text.len() == 0 {
        text
    } else if pattern.is_prefix_of(text) {
        by + replaced(text.skip(pattern.len() as int), pattern, by)
    } else {
        seq![text[0]] + replaced(text.drop_first(), pattern, by)
    }
}

/// Replaces each occurrence of `pattern`.
pub fn replace(text: &str, pattern: &str, by: &str) -> (result: String)
    requires
        pattern@.len() > 0,
    ensures
        result@ == replaced(text@, pattern@, by@),
{
    let chars = chars_of(text);
    let wanted = chars_of(pattern);
    let mut result = String::new();
    let mut at: usize = 0;
    assert(chars@.skip(0) == text@);
    while at < chars.len()
        invariant
            at <= chars@.len(),
            wanted@ == pattern@,
            pattern@.len() > 0,
            result@ + replaced(chars@.skip(at as int), pattern@, by@) == replaced(
                text@,
                pattern@,
                by@,
            ),
        decreases chars@.len() - at,
    {
        let ghost rest = chars@.skip(at as int);
        let ghost before = result@;
        if matches_at(chars.as_slice(), at, wanted.as_slice()) {
            result.append(by);
            at = at + wanted.len();
            assert(chars@.skip(at as int) == rest.skip(pattern@.len() as int));
        } else {
            result.push(chars[at]);
            at = at + 1;
            assert(chars@.skip(at as int) == rest.drop_first());
        }
        assert(result@ + replaced(chars@.skip(at as int), pattern@, by@) == before + replaced(
            rest,
            pattern@,
            by@,
        ));
    }
    result
}

/// The encoding of a text is made of those of its parts.
pub proof fn lemma_encode_concat(first: Seq<char>, second: Seq<char>)
    ensures
        encode_utf8(first + second) == encode_utf8(first) + encode_utf8(second),
    decreases first.len(),
{
    if first.len() == 0 {
        assert(first + second =~= second);
        assert(encode_utf8(first) + encode_utf8(second) =~= encode_utf8(second));
    } else {
        assert((first + second).drop_first() =~= first.drop_first() + second);
        lemma_encode_concat(first.drop_first(), second);
        assert(encode_utf8(first + second) =~= encode_utf8(first) + encode_utf8(second));
    }
}

/// The number that a row of decimal digits stands for.
pub open spec fn written_number(digits: Seq<char>) -> int
    decreases digits.len(),
{
    if digits.len() == 0 {
        0
    } else {
        10 * written_number(digits.drop_last()) + (digits.last() as int - '0' as int)
    }
}

/// A number is written in digits that stand for it, with no zero before them.
pub proof fn law_decimal_stands_for_the_number(n: nat)
    ensures
        written_number(decimal(n)) == n,
        decimal(n).len() > 0,
        forall|i: int| 0 <= i < decimal(n).len() ==> '0' <= #[trigger] decimal(n)[i] <= '9',
        decimal(n)[0] == '0' ==> n == 0,
    decreases n,
{
    if n < 10 {
        assert(decimal(n).drop_last() =~= seq![]);
        reveal_with_fuel(written_number, 2);
    } else {
        law_decimal_stands_for_the_number(n / 10);
        assert(decimal(n).drop_last() =~= decimal(n / 10));
        assert(decimal(n)[0] == decimal(n / 10)[0]);
    }
}

/// Trimming takes away the white space at both ends, all of it and nothing else.
pub proof fn law_trimming_leaves_what_is_inside(
    front: Seq<char>,
    inner: Seq<char>,
    back: Seq<char>,
)
    requires
        forall|i: int| 0 <= i < front.len() ==> white_space(#[trigger] front[i]),
        forall|i: int| 0 <= i < back.len() ==> white_space(#[trigger] back[i]),
        inner.len() > 0 ==> !white_space(inner[0]) && !white_space(inner.last()),
    ensures
        trimmed(front + inner + back) == inner,
    decreases front.len() + back.len(),
{
    let text = front + inner + back;
    if front.len() > 0 {
        let rest = front.drop_first();
        assert forall|i: int| 0 <= i < rest.len() implies white_space(#[trigger] rest[i]) by {
            assert(rest[i] == front[i + 1]);
        }
        law_trimming_leaves_what_is_inside(rest, inner, back);
        assert(text[0] == front[0]);
        assert(text.drop_first() =~= rest + inner + back);
    } else if inner.len() == 0 && back.len() > 0 {
        let rest = back.drop_first();
        assert forall|i: int| 0 <= i < rest.len() implies white_space(#[trigger] rest[i]) by {
            assert(rest[i] == back[i + 1]);
        }
        law_trimming_leaves_what_is_inside(front, inner, rest);
        assert(text[0] == back[0]);
        assert(text.drop_first() =~= front + inner + rest);
    } else {
        assert(text =~= inner + back);
        if inner.len() > 0 {
            assert(text[0] == inner[0]);
        }
        assert(trim_start(text) =~= text);
        lemma_trim_end(inner, back);
    }
}

proof fn lemma_trim_end(inner: Seq<char>, back: Seq<char>)
    requires
        forall|i: int| 0 <= i < back.len() ==> white_space(#[trigger] back[i]),
        inner.len() > 0 ==> !white_space(inner.last()),
    ensures
        trim_end(inner + back) == inner,
    decreases back.len(),
{
    if back.len() > 0 {
        let rest = back.drop_last();
        assert forall|i: int| 0 <= i < rest.len() implies white_space(#[trigger] rest[i]) by {
            assert(rest[i] == back[i]);
        }
        lemma_trim_end(inner, rest);
        assert((inner + back).last() == back[back.len() - 1]);
        assert((inner + back).drop_last() =~= inner + rest);
    } else {
        assert(inner + back =~= inner);
    }
}

/// Nothing is left of a text after trimming if there is nothing but white space in it, and only
/// then.
pub proof fn law_blank_texts_are_trimmed_away(text: Seq<char>)
    ensures
        (trimmed(text).len() == 0) == (forall|i: int|
            0 <= i < text.len() ==> white_space(#[trigger] text[i])),
{
    if forall|i: int| 0 <= i < text.len() ==> white_space(#[trigger] text[i]) {
        law_trimming_leaves_what_is_inside(text, seq![], seq![]);
        assert(text + seq![] + seq![] =~= text);
    } else {
        lemma_trim_start_keeps(text);
        lemma_trim_end_keeps(trim_start(text));
    }
}

proof fn lemma_trim_start_keeps(text: Seq<char>)
    requires
        exists|i: int| 0 <= i < text.len() && !white_space(#[trigger] text[i]),
    ensures
        exists|i: int|
            0 <= i < trim_start(text).len() && !white_space(#[trigger] trim_start(text)[i]),
    decreases text.len(),
{
    let i = choose|i: int| 0 <= i < text.len() && !white_space(#[trigger] text[i]);
    if white_space(text[0]) {
        assert(text.drop_first()[i - 1] == text[i]);
        let rest = text.drop_first();
        lemma_trim_start_keeps(rest);
        let j = choose|j: int|
            0 <= j < trim_start(rest).len() && !white_space(#[trigger] trim_start(rest)[j]);
        assert(!white_space(trim_start(text)[j]));
    } else {
        assert(!white_space(trim_start(text)[i]));
    }
}

proof fn lemma_trim_end_keeps(text: Seq<char>)
    requires
        exists|i: int| 0 <= i < text.len() && !white_space(#[trigger] text[i]),
    ensures
        trim_end(text).len() > 0,
    decreases text.len(),
{
    let i = choose|i: int| 0 <= i < text.len() && !white_space(#[trigger] text[i]);
    if white_space(text.last()) {
        assert(text.last() == text[text.len() - 1]);
        assert(text.drop_last()[i] == text[i]);
        lemma_trim_end_keeps(text.drop_last());
    }
}

/// The first line ends at the first newline, which may have a carriage return before it, and the
/// other lines are those of the rest. Without a newline there is one line, or none in nothing.
pub proof fn law_lines_end_at_newlines(line: Seq<char>, rest: Seq<char>)
    requires
        forall|i: int| 0 <= i < line.len() ==> line[i] != '\n',
    ensures
        lines_of(line + seq!['\r', '\n'] + rest) == seq![line] + lines_of(rest),
        line.len() == 0 || line.last() != '\r' ==> lines_of(line + seq!['\n'] + rest) == seq![line]
            + lines_of(rest),
        line.len() > 0 ==> lines_of(line) == seq![line],
        lines_of(seq![]) == Seq::<Seq<char>>::empty(),
{
    lemma_split_first(line, rest, '\n', '\r');
}

/// The first line of bytes ends at the first newline, which may have a carriage return before it,
/// and the other lines are those of the rest. Without a newline there is one line, or none in
/// nothing.
pub proof fn law_byte_lines_end_at_newlines(line: Seq<u8>, rest: Seq<u8>)
    requires
        forall|i: int| 0 <= i < line.len() ==> line[i] != 0x0a,
    ensures
        byte_lines(line + seq![0x0du8, 0x0au8] + rest) == seq![line] + byte_lines(rest),
        line.len() == 0 || line.last() != 0x0d ==> byte_lines(line + seq![0x0au8] + rest) == seq![
            line,
        ] + byte_lines(rest),
        line.len() > 0 ==> byte_lines(line) == seq![line],
        byte_lines(seq![]) == Seq::<Seq<u8>>::empty(),
{
    lemma_split_first(line, rest, 0x0au8, 0x0du8);
}

proof fn lemma_split_first<T>(line: Seq<T>, rest: Seq<T>, newline: T, carriage_return: T)
    requires
        forall|i: int| 0 <= i < line.len() ==> line[i] != newline,
        newline != carriage_return,
    ensures
        split_lines(
            line + seq![carriage_return, newline] + rest,
            newline,
            carriage_return,
        ) == seq![line] + split_lines(rest, newline, carriage_return),
        line.len() == 0 || line.last() != carriage_return ==> split_lines(
            line + seq![newline] + rest,
            newline,
            carriage_return,
        ) == seq![line] + split_lines(rest, newline, carriage_return),
        line.len() > 0 ==> split_lines(line, newline, carriage_return) == seq![line],
        split_lines(seq![], newline, carriage_return) == Seq::<Seq<T>>::empty(),
{
    let returned = line.push(carriage_return);
    assert(line + seq![carriage_return, newline] + rest =~= returned.push(newline) + rest);
    assert(line + seq![newline] + rest =~= line.push(newline) + rest);
    assert forall|i: int| 0 <= i < returned.len() implies returned[i] != newline by {
        if i < line.len() {
            assert(returned[i] == line[i]);
        }
    }
    lemma_split_concat(returned, rest, newline, carriage_return);
    lemma_split_one(returned, newline, carriage_return);
    assert(returned.drop_last() =~= line);
    lemma_split_concat(line, rest, newline, carriage_return);
    lemma_split_one(line, newline, carriage_return);
    lemma_first_index_is(line, newline, line.len() as int);
}

/// Lines are joined with one newline between each two, and none before or behind them.
pub proof fn law_joining_puts_newlines_between(
    line: Seq<char>,
    first: Seq<Seq<char>>,
    second: Seq<Seq<char>>,
)
    requires
        first.len() > 0,
        second.len() > 0,
    ensures
        joined(first + second) == joined(first) + seq!['\n'] + joined(second),
        joined(seq![line]) == line,
        joined(seq![]) == Seq::<char>::empty(),
    decreases second.len(),
{
    assert((first + second).drop_last() =~= first + second.drop_last());
    assert((first + second).last() == second.last());
    if second.len() > 1 {
        law_joining_puts_newlines_between(line, first, second.drop_last());
        assert(joined(first + second) =~= joined(first) + seq!['\n'] + joined(second));
    } else {
        assert(second.drop_last() =~= seq![]);
        assert(first + second.drop_last() =~= first);
        assert(joined(first + second) =~= joined(first) + seq!['\n'] + joined(second));
    }
}

/// The first occurrence of a pattern is replaced and what stands before it is kept; behind it the
/// same is done.
pub proof fn law_replacing_replaces_occurrences(
    before: Seq<char>,
    pattern: Seq<char>,
    after: Seq<char>,
    by: Seq<char>,
)
    requires
        pattern.len() > 0,
        forall|i: int|
            0 <= i < before.len() ==> !pattern.is_prefix_of(
                #[trigger] (before + pattern + after).skip(i),
            ),
    ensures
        replaced(before + pattern + after, pattern, by) == before + by + replaced(
            after,
            pattern,
            by,
        ),
    decreases before.len(),
{
    let text = before + pattern + after;
    if before.len() == 0 {
        assert(text.subrange(0, pattern.len() as int) =~= pattern);
        assert(text.skip(pattern.len() as int) =~= after);
        assert(before + by =~= by);
    } else {
        let rest = before.drop_first();
        assert(text.skip(0) =~= text);
        assert(text.drop_first() =~= rest + pattern + after);
        assert forall|i: int| 0 <= i < rest.len() implies !pattern.is_prefix_of(
            #[trigger] (rest + pattern + after).skip(i),
        ) by {
            assert((rest + pattern + after).skip(i) =~= text.skip(i + 1));
        }
        law_replacing_replaces_occurrences(rest, pattern, after, by);
        assert(replaced(text, pattern, by) =~= before + by + replaced(after, pattern, by));
    }
}

/// A text without a pattern stays as it is.
pub proof fn law_replacing_keeps_the_rest(text: Seq<char>, pattern: Seq<char>, by: Seq<char>)
    requires
        forall|i: int|
            0 <= i < text.len() ==> !pattern.is_prefix_of(#[trigger] text.skip(i)),
    ensures
        replaced(text, pattern, by) == text,
    decreases text.len(),
{
    if text.len() > 0 {
        let rest = text.drop_first();
        assert(text.skip(0) =~= text);
        assert forall|i: int| 0 <= i < rest.len() implies !pattern.is_prefix_of(
            #[trigger] rest.skip(i),
        ) by {
            assert(rest.skip(i) =~= text.skip(i + 1));
        }
        law_replacing_keeps_the_rest(rest, pattern, by);
        assert(replaced(text, pattern, by) =~= text);
    }
}

/// What begins with `http://` or `https://` looks like a URL, and nothing else does.
pub proof fn law_urls_begin_with_their_scheme(text: Seq<char>, rest: Seq<char>)
    ensures
        looks_like_url("http://"@ + rest),
        looks_like_url("https://"@ + rest),
        looks_like_url(text) ==> text.take(7) == "http://"@ || text.take(8) == "https://"@,
{
    reveal_strlit("http://");
    reveal_strlit("https://");
    assert(("http://"@ + rest).subrange(0, 7) =~= "http://"@);
    assert(("https://"@ + rest).subrange(0, 8) =~= "https://"@);
    if "http://"@.is_prefix_of(text) {
        assert(text.take(7) =~= "http://"@);
    }
    if "https://"@.is_prefix_of(text) {
        assert(text.take(8) =~= "https://"@);
    }
}

} // verus!
