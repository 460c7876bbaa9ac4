//! What the library believes of the crates it calls and of the parts of `std` it uses.
use crate::text::{first_index, is_unbroken, looks_like_url, pair_texts};
use rand::RngCore;
use vstd::prelude::*;
use vstd::utf8::{decode_utf8, encode_utf8, is_ascii_chars, valid_utf8};

verus! {

/// A file system path, carried as it is.
#[verifier::external_type_specification]
#[verifier::external_body]
pub struct ExPathBuf(std::path::PathBuf);

/// An I/O error, carried as it is.
#[verifier::external_type_specification]
#[verifier::external_body]
pub struct ExIoError(std::io::Error);

/// A JSON value, carried as it is.
#[verifier::external_type_specification]
#[verifier::external_body]
pub struct ExValue(serde_json::Value);

/// The reason why a value could not be written as JSON.
#[verifier::external_type_specification]
#[verifier::external_body]
pub struct ExJsonError(serde_json::Error);

/// A parsed URL; see [`url_parts`].
#[verifier::external_type_specification]
#[verifier::external_body]
pub struct ExUrl(url::Url);

/// The reason why a text is not a URL.
#[verifier::external_type_specification]
#[verifier::external_body]
pub struct ExParseError(url::ParseError);

/// `String::push` appends one character to the end of the string.
pub assume_specification[ String::push ](text: &mut String, c: char)
    ensures
        final(text)@ == old(text)@.push(c),
;

/// `PathBuf::clone` gives back an equal path.
pub assume_specification[ <std::path::PathBuf as Clone>::clone ](
    path: &std::path::PathBuf,
) -> (copy: std::path::PathBuf)
    ensures
        copy == *path,
;

/// The path that `PathBuf::from` makes of a text.
pub uninterp spec fn path_of(text: Seq<char>) -> std::path::PathBuf;

/// `PathBuf::from` on a `String`: which path results depends on the text alone.
#[verifier::external_body]
pub(crate) fn path_from(text: String) -> (path: std::path::PathBuf)
    ensures
        path == path_of(text@),
{
    std::path::PathBuf::from(text)
}

/// The text that `Debug` writes for a path.
pub uninterp spec fn path_debug(path: std::path::PathBuf) -> Seq<char>;

/// `Debug` of a `PathBuf`: the text depends on the path alone.
#[verifier::external_body]
pub(crate) fn path_debug_text(path: &std::path::PathBuf) -> (text: String)
    ensures
        text@ == path_debug(*path),
{
    format!("{path:?}")
}

/// The JSON text that `serde_json::to_string` writes for a value.
pub uninterp spec fn json_text(value: serde_json::Value) -> Seq<char>;

/// The value that `serde_json::from_str` reads from a text; `None` where it refuses the text.
pub uninterp spec fn json_value(text: Seq<char>) -> Option<serde_json::Value>;

/// `serde_json::to_string` on a `Value` succeeds: it writes to memory, and every key of a `Value`
/// is a string. The text depends on the value alone. What is read from the text is the value
/// again, floating point numbers included, which the feature `float_roundtrip` sees to. Only a
/// text that is nested too deeply is not read at all. What the text looks like is left unsaid.
#[verifier::external_body]
pub(crate) fn json_to_string(value: &serde_json::Value) -> (written: Result<
    String,
    serde_json::Error,
>)
    ensures
        written is Ok,
        written->Ok_0@ == json_text(*value),
        json_value(written->Ok_0@) matches Some(read) ==> read == *value,
{
    serde_json::to_string(value)
}

/// `serde_json::from_str`: whether a text is read, and the value read from it, depend on the text
/// alone. Which texts are refused is left unsaid.
#[verifier::external_body]
pub(crate) fn json_from_str(text: &str) -> (read: Result<serde_json::Value, serde_json::Error>)
    ensures
        json_value(text@) == match read {
            Ok(value) => Some(value),
            Err(_) => None,
        },
{
    serde_json::from_str(text)
}

/// The text that replaces one character in HTML text content.
pub open spec fn escaped_char(c: char) -> Seq<char> {
    if c == '&' {
        "&amp;"@
    } else if c == '<' {
        "&lt;"@
    } else if c == '>' {
        "&gt;"@
    } else {
        seq![c]
    }
}

/// A text with `&`, `<` and `>` replaced by their entities.
pub open spec fn escaped_text(text: Seq<char>) -> Seq<char>
    decreases text.len(),
{
    if text.len() == 0 {
        seq![]
    } else {
        escaped_text(text.drop_last()) + escaped_char(text.last())
    }
}

/// `html_escape::encode_text` replaces `&`, `<` and `>` by `&amp;`, `&lt;` and `&gt;` and keeps
/// every other character.
#[verifier::external_body]
pub(crate) fn encode_text(text: &str) -> (escaped: String)
    ensures
        escaped@ == escaped_text(text@),
{
    html_escape::encode_text(text).to_string()
}

/// `ThreadRng::fill_bytes` from `rand::thread_rng()`: nothing is said of the bytes, which are
/// random.
#[verifier::external_body]
pub(crate) fn random_bytes() -> (bytes: [u8; 32])
{
    let mut bytes = [0u8; 32];
    rand::thread_rng().fill_bytes(&mut bytes);
    bytes
}

/// The lower case hexadecimal digit of a number below sixteen.
pub open spec fn hex_digit(n: int) -> char {
    if n < 10 {
        (48 + n) as char
    } else {
        (87 + n) as char
    }
}

/// Two lower case hexadecimal digits for each byte, the high half first.
pub open spec fn hex_text(bytes: Seq<u8>) -> Seq<char>
    decreases bytes.len(),
{
    if bytes.len() == 0 {
        seq![]
    } else {
        hex_text(bytes.drop_last()) + seq![
            hex_digit(bytes.last() as int / 16),
            hex_digit(bytes.last() as int % 16),
        ]
    }
}

/// `hex::encode` writes each byte as two lower case hexadecimal digits.
#[verifier::external_body]
pub(crate) fn hex_encode(bytes: &[u8]) -> (text: String)
    ensures
        text@ == hex_text(bytes@),
{
    hex::encode(bytes)
}

/// The text that `String::from_utf8_lossy` gives for bytes that are not UTF-8.
pub uninterp spec fn utf8_lossy(bytes: Seq<u8>) -> Seq<char>;

/// The text of bytes that should be UTF-8.
pub open spec fn lossy_text(bytes: Seq<u8>) -> Seq<char> {
    if valid_utf8(bytes) {
        decode_utf8(bytes)
    } else {
        utf8_lossy(bytes)
    }
}

/// `String::from_utf8_lossy` decodes valid UTF-8. What it gives for other bytes depends on them
/// alone and is otherwise left unsaid.
#[verifier::external_body]
pub(crate) fn from_utf8_lossy(bytes: &[u8]) -> (text: String)
    ensures
        text@ == if valid_utf8(bytes@) {
            decode_utf8(bytes@)
        } else {
            utf8_lossy(bytes@)
        },
{
    String::from_utf8_lossy(bytes).into_owned()
}

/// `tiny_http::Header::from_bytes` accepts a header if its field and its value are both ASCII,
/// and no other header.
#[verifier::external_body]
pub(crate) fn header_accepted(field: &str, value: &str) -> (accepted: bool)
    ensures
        accepted == (is_ascii_chars(field@) && is_ascii_chars(value@)),
{
    tiny_http::Header::from_bytes(field.as_bytes(), value.as_bytes()).is_ok()
}

/// Bytes with a space in place of each `+`.
pub open spec fn spaces_for_plus(bytes: Seq<u8>) -> Seq<u8> {
    bytes.map_values(
        |byte: u8|
            if byte == 0x2b {
                0x20u8
            } else {
                byte
            },
    )
}

/// The value of a hexadecimal digit; `None` for any other byte.
pub open spec fn hex_value(byte: u8) -> Option<int> {
    if 0x30 <= byte <= 0x39 {
        Some(byte - 0x30)
    } else if 0x41 <= byte <= 0x46 {
        Some(byte - 0x41 + 10)
    } else if 0x61 <= byte <= 0x66 {
        Some(byte - 0x61 + 10)
    } else {
        None
    }
}

/// Bytes in which each `%` with two hexadecimal digits behind it stands for one byte.
pub open spec fn percent_decoded(bytes: Seq<u8>) -> Seq<u8>
    decreases bytes.len(),
{
    if bytes.len() == 0 {
        seq![]
    } else if bytes[0] == 0x25 && bytes.len() >= 3 && hex_value(bytes[1]) is Some && hex_value(
        bytes[2],
    ) is Some {
        seq![(16 * hex_value(bytes[1])->0 + hex_value(bytes[2])->0) as u8] + percent_decoded(
            bytes.skip(3),
        )
    } else {
        seq![bytes[0]] + percent_decoded(bytes.drop_first())
    }
}

/// The text that a name or a value of a form stands for.
pub open spec fn form_component(component: Seq<char>) -> Seq<char> {
    lossy_text(percent_decoded(spaces_for_plus(encode_utf8(component))))
}

/// The part of a segment before its first `=`.
pub open spec fn name_part(segment: Seq<char>) -> Seq<char> {
    segment.take(first_index(segment, '='))
}

/// The part of a segment after its first `=`; empty where there is none.
pub open spec fn value_part(segment: Seq<char>) -> Seq<char> {
    let cut = first_index(segment, '=');
    if cut < segment.len() {
        segment.skip(cut + 1)
    } else {
        seq![]
    }
}

/// The parts of a query between its `&` characters, without the empty ones.
pub open spec fn form_segments(query: Seq<char>) -> Seq<Seq<char>>
    decreases query.len(),
{
    let cut = first_index(query, '&');
    if query.len() == 0 {
        seq![]
    } else if cut < 0 || cut >= query.len() {
        seq![query]
    } else if cut == 0 {
        form_segments(query.skip(1))
    } else {
        seq![query.take(cut)] + form_segments(query.skip(cut + 1))
    }
}

/// The decoded name and value pairs of a query.
pub open spec fn form_pairs(query: Seq<char>) -> Seq<(Seq<char>, Seq<char>)> {
    form_segments(query).map_values(
        |segment: Seq<char>|
            (form_component(name_part(segment)), form_component(value_part(segment))),
    )
}

/// `form_urlencoded::parse` gives one pair for each segment. In its name and its value each `+`
/// stands for a space, `%` and two hexadecimal digits for a byte, and bytes that are not UTF-8
/// are decoded as `String::from_utf8_lossy` does.
#[verifier::external_body]
pub(crate) fn parse_form(query: &str) -> (pairs: Vec<(String, String)>)
    ensures
        pair_texts(pairs@) == form_pairs(query@),
{
    url::form_urlencoded::parse(query.as_bytes()).into_owned().collect()
}

/// The parts of a URL around its query.
#[verifier::ext_equal]
pub struct UrlParts {
    /// All that stands before the query.
    pub base: Seq<char>,
    /// The query, without the `?` before it.
    pub query: Option<Seq<char>>,
    /// The fragment, without the `#` before it.
    pub fragment: Option<Seq<char>>,
}

impl UrlParts {
    /// All that stands before the fragment.
    pub open spec fn head(self) -> Seq<char> {
        match self.query {
            Some(query) => self.base + seq!['?'] + query,
            None => self.base,
        }
    }

    /// The whole URL.
    pub open spec fn text(self) -> Seq<char> {
        match self.fragment {
            Some(fragment) => self.head() + seq!['#'] + fragment,
            None => self.head(),
        }
    }
}

/// The parts of a parsed URL.
pub uninterp spec fn url_parts(url: url::Url) -> UrlParts;

/// What `Url::parse` makes of a text: the parts of a URL, or an error.
pub uninterp spec fn url_parse(text: Seq<char>) -> Result<UrlParts, url::ParseError>;

/// `Url::parse`: which URL or which error results depends on the text alone. A web address
/// remains one. Where the URL is one, there is no white space in it: what a host may not hold is
/// refused, and all else is percent-encoded. What else the normalization does to a text is left
/// unsaid.
#[verifier::external_body]
pub(crate) fn parse_url(text: &str) -> (parsed: Result<url::Url, url::ParseError>)
    ensures
        url_parse(text@) == match parsed {
            Ok(url) => Ok(url_parts(url)),
            Err(error) => Err(error),
        },
        match parsed {
            Ok(url) => {
                &&& "http://"@.is_prefix_of(text@) ==> "http://"@.is_prefix_of(url_parts(url).base)
                &&& "https://"@.is_prefix_of(text@) ==> "https://"@.is_prefix_of(
                    url_parts(url).base,
                )
                &&& looks_like_url(url_parts(url).base) ==> is_unbroken(url_parts(url).text())
            },
            Err(_) => true,
        },
{
    url::Url::parse(text)
}

/// `Url::as_str` gives the whole URL, which is made of its parts.
#[verifier::external_body]
pub(crate) fn url_str(url: &url::Url) -> (text: &str)
    ensures
        text@ == url_parts(*url).text(),
{
    url.as_str()
}

/// Slicing a `Url` up to `Position::AfterQuery` gives all that stands before the fragment.
#[verifier::external_body]
pub(crate) fn url_head_str(url: &url::Url) -> (text: &str)
    ensures
        text@ == url_parts(*url).head(),
{
    &url[..url::Position::AfterQuery]
}

/// Slicing a `Url` up to `Position::AfterPath` gives all that stands before the query.
#[verifier::external_body]
pub(crate) fn url_base_str(url: &url::Url) -> (text: &str)
    ensures
        text@ == url_parts(*url).base,
{
    &url[..url::Position::AfterPath]
}

/// Whether the form encoding keeps a byte as it is.
pub open spec fn form_keeps(byte: u8) -> bool {
    ||| byte == 0x2a || byte == 0x2d || byte == 0x2e || byte == 0x5f
    ||| 0x30 <= byte <= 0x39
    ||| 0x41 <= byte <= 0x5a
    ||| 0x61 <= byte <= 0x7a
}

/// The upper case hexadecimal digit of a number below sixteen.
pub open spec fn upper_hex_digit(n: int) -> char {
    if n < 10 {
        (48 + n) as char
    } else {
        (55 + n) as char
    }
}

/// The form encoding of one byte: itself, `+` for a space, else `%` and two digits.
pub open spec fn form_byte(byte: u8) -> Seq<char> {
    if form_keeps(byte) {
        seq![byte as char]
    } else if byte == 0x20 {
        seq!['+']
    } else {
        seq!['%', upper_hex_digit(byte as int / 16), upper_hex_digit(byte as int % 16)]
    }
}

/// The form encoding of bytes, one after the other.
pub open spec fn form_bytes(bytes: Seq<u8>) -> Seq<char>
    decreases bytes.len(),
{
    if bytes.len() == 0 {
        seq![]
    } else {
        form_byte(bytes[0]) + form_bytes(bytes.drop_first())
    }
}

/// A pair in form encoding.
pub open spec fn encoded_pair(name: Seq<char>, value: Seq<char>) -> Seq<char> {
    form_bytes(encode_utf8(name)) + seq!['='] + form_bytes(encode_utf8(value))
}

/// A query with a pair added at its end.
pub open spec fn query_with_pair(
    query: Option<Seq<char>>,
    name: Seq<char>,
    value: Seq<char>,
) -> Seq<char> {
    match query {
        Some(before) if before.len() > 0 => before + seq!['&'] + encoded_pair(name, value),
        _ => encoded_pair(name, value),
    }
}

/// A URL with a pair added at the end of its query.
pub open spec fn with_pair(url: UrlParts, name: Seq<char>, value: Seq<char>) -> UrlParts {
    UrlParts { query: Some(query_with_pair(url.query, name, value)), ..url }
}

/// Whether the `url` crate, which counts in 32 bits where a query and a fragment begin, can add
/// a pair to a URL.
pub open spec fn pair_fits(url: UrlParts, name: Seq<char>, value: Seq<char>) -> bool {
    &&& url.query is None ==> encode_utf8(url.base).len() <= u32::MAX
    &&& url.fragment is Some ==> encode_utf8(with_pair(url, name, value).head()).len() <= u32::MAX
}

/// `Url::query_pairs_mut` and `append_pair` on it: the pair is added in form encoding at the end
/// of the query, which is begun where there is none. It panics where the beginning of the query
/// or of the fragment cannot be counted.
#[verifier::external_body]
pub(crate) fn append_pair(url: &mut url::Url, name: &str, value: &str)
    requires
        pair_fits(url_parts(*old(url)), name@, value@),
    ensures
        url_parts(*final(url)) == with_pair(url_parts(*old(url)), name@, value@),
{
    url.query_pairs_mut().append_pair(name, value);
}

} // verus!
