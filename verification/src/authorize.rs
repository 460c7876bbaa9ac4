//! The URL that a browser is sent to in order to begin a login.
use crate::external::{
    append_pair, encoded_pair, form_byte, form_bytes, form_keeps, hex_encode, hex_text, pair_fits,
    random_bytes, url_base_str, url_head_str, url_parse, url_parts, url_str, with_pair, UrlParts,
};
use crate::server::redirect_uri;
use crate::text::{lemma_encode_concat, pair_texts};
use vstd::prelude::*;
use vstd::string::*;
use vstd::utf8::{encode_utf8, is_ascii_chars, is_ascii_chars_encode_utf8};

verus! {

/// The state of a login: thirty-two random bytes in hexadecimal.
pub fn generate_state() -> (state: String)
    ensures
        exists|bytes: Seq<u8>| bytes.len() == 32 && state@ == hex_text(bytes),
{
    let bytes = random_bytes();
    let state = state_of(bytes.as_slice());
    assert(bytes@.len() == 32 && state@ == hex_text(bytes@));
    state
}

/// The state of a login for which these bytes were drawn.
pub fn state_of(bytes: &[u8]) -> (state: String)
    ensures
        state@ == hex_text(bytes@),
{
    hex_encode(bytes)
}

/// The query of the authorization URL.
pub open spec fn authorize_pairs(
    client_id: Seq<char>,
    port: u16,
    code_challenge: Seq<char>,
    state: Seq<char>,
) -> Seq<(Seq<char>, Seq<char>)> {
    seq![
        ("response_type"@, "code"@),
        ("client_id"@, client_id),
        ("redirect_uri"@, redirect_uri(port)),
        ("scope"@, "openid profile email offline_access"@),
        ("code_challenge"@, code_challenge),
        ("code_challenge_method"@, "S256"@),
        ("id_token_add_organizations"@, "true"@),
        ("codex_cli_simplified_flow"@, "true"@),
        ("state"@, state),
    ]
}

/// A URL after pairs were added to its query, in order; `None` where the `url` crate cannot add
/// one of them.
pub open spec fn with_pairs(url: UrlParts, pairs: Seq<(Seq<char>, Seq<char>)>) -> Option<UrlParts>
    decreases pairs.len(),
{
    if pairs.len() == 0 {
        Some(url)
    } else {
        match with_pairs(url, pairs.drop_last()) {
            Some(before) if pair_fits(before, pairs.last().0, pairs.last().1) => Some(
                with_pair(before, pairs.last().0, pairs.last().1),
            ),
            _ => None,
        }
    }
}

proof fn lemma_refusal_stays(url: UrlParts, pairs: Seq<(Seq<char>, Seq<char>)>, count: int)
    requires
        0 <= count <= pairs.len(),
        with_pairs(url, pairs.take(count)) is None,
    ensures
        with_pairs(url, pairs) is None,
    decreases pairs.len() - count,
{
    if count < pairs.len() {
        assert(pairs.take(count + 1).drop_last() == pairs.take(count));
        lemma_refusal_stays(url, pairs, count + 1);
    } else {
        assert(pairs.take(count) == pairs);
    }
}

/// The form encoding is ASCII.
pub proof fn lemma_form_is_ascii(bytes: Seq<u8>)
    ensures
        is_ascii_chars(form_bytes(bytes)),
    decreases bytes.len(),
{
    if bytes.len() > 0 {
        lemma_form_is_ascii(bytes.drop_first());
        let byte = bytes[0];
        let head = form_byte(byte);
        let tail = form_bytes(bytes.drop_first());
        assert(0 <= byte as int / 16 < 16 && 0 <= byte as int % 16 < 16);
        assert(is_ascii_chars(head));
        assert forall|i: int| 0 <= i < (head + tail).len() implies '\0'
            <= #[trigger] (head + tail)[i] <= '\u{7f}' by {
            if i < head.len() {
                assert((head + tail)[i] == head[i]);
            } else {
                assert((head + tail)[i] == tail[i - head.len()]);
            }
        }
    }
}

/// The length of the form encoding of a text.
fn encoded_len(text: &str) -> (total: u128)
    ensures
        total == form_bytes(encode_utf8(text@)).len(),
        total <= 3 * usize::MAX,
{
    let bytes = text.as_bytes();
    let mut total: u128 = 0;
    let mut i: usize = 0;
    assert(bytes@.skip(0) == bytes@);
    assert(bytes@.len() == bytes.len());
    while i < bytes.len()
        invariant
            i <= bytes@.len() <= usize::MAX,
            total <= 3 * i,
            total + form_bytes(bytes@.skip(i as int)).len() == form_bytes(bytes@).len(),
        decreases bytes@.len() - i,
    {
        let byte = bytes[i];
        let kept = byte == 0x2a || byte == 0x2d || byte == 0x2e || byte == 0x5f || (0x30 <= byte
            && byte <= 0x39) || (0x41 <= byte && byte <= 0x5a) || (0x61 <= byte && byte <= 0x7a);
        assert(kept == form_keeps(byte));
        assert(bytes@.skip(i as int).drop_first() == bytes@.skip(i + 1));
        total = total + if kept || byte == 0x20 {
            1
        } else {
            3
        };
        i = i + 1;
    }
    total
}

/// Whether the `url` crate can add a pair to a URL.
fn fits(url: &url::Url, name: &str, value: &str) -> (does: bool)
    ensures
        does == pair_fits(url_parts(*url), name@, value@),
{
    let base = url_base_str(url).as_bytes().len() as u128;
    let head = url_head_str(url).as_bytes().len() as u128;
    let whole = url_str(url).as_bytes().len() as u128;
    let limit = u32::MAX as u128;
    let ghost parts = url_parts(*url);
    let ghost pair = encoded_pair(name@, value@);
    proof {
        lemma_encode_len(seq!['?']);
        lemma_encode_len(seq!['#']);
        lemma_encode_len(seq!['&']);
        if let Some(query) = parts.query {
            lemma_encode_concat(parts.base, seq!['?']);
            lemma_encode_concat(parts.base + seq!['?'], query);
            if query.len() > 0 {
                lemma_encode_not_empty(query);
            } else {
                assert(encode_utf8(query).len() == 0);
            }
        }
        if let Some(fragment) = parts.fragment {
            lemma_encode_concat(parts.head(), seq!['#']);
            lemma_encode_concat(parts.head() + seq!['#'], fragment);
        }
    }
    let has_query = base != head;
    let has_fragment = head != whole;
    assert(has_query == (parts.query is Some));
    assert(has_fragment == (parts.fragment is Some));
    if !has_query && base > limit {
        return false;
    }
    if !has_fragment {
        return true;
    }
    let separator: u128 = if has_query && head == base + 1 {
        0
    } else {
        1
    };
    let added = separator + encoded_len(name) + 1 + encoded_len(value);
    proof {
        lemma_encoded_pair_len(name@, value@);
        let longer = with_pair(parts, name@, value@).head();
        let between = match parts.query {
            None => seq!['?'],
            Some(query) => if query.len() > 0 {
                seq!['&']
            } else {
                seq![]
            },
        };
        assert(longer =~= parts.head() + between + pair);
        lemma_encode_concat(parts.head(), between);
        lemma_encode_concat(parts.head() + between, pair);
        assert(encode_utf8(between).len() == separator);
        assert(encode_utf8(longer).len() == head + added);
    }
    head + added <= limit
}

proof fn lemma_encode_len(text: Seq<char>)
    requires
        is_ascii_chars(text),
    ensures
        encode_utf8(text).len() == text.len(),
{
    is_ascii_chars_encode_utf8(text);
}

proof fn lemma_encode_not_empty(text: Seq<char>)
    requires
        text.len() > 0,
    ensures
        encode_utf8(text).len() > 0,
{
    assert(text =~= seq![text[0]] + text.drop_first());
}

/// The form encoding takes at most three characters for each byte.
proof fn lemma_form_len(bytes: Seq<u8>)
    ensures
        form_bytes(bytes).len() <= 3 * bytes.len(),
    decreases bytes.len(),
{
    if bytes.len() > 0 {
        lemma_form_len(bytes.drop_first());
    }
}

/// The room that a pair can take in a query, with what separates it from others.
pub open spec fn pair_room(pair: (Seq<char>, Seq<char>)) -> nat {
    2 + 3 * encode_utf8(pair.0).len() + 3 * encode_utf8(pair.1).len()
}

/// The room that pairs can take in a query.
pub open spec fn pairs_room(pairs: Seq<(Seq<char>, Seq<char>)>) -> nat
    decreases pairs.len(),
{
    if pairs.len() == 0 {
        0
    } else {
        pairs_room(pairs.drop_last()) + pair_room(pairs.last())
    }
}

/// A URL grows by no more than the room of a pair when that pair is added.
proof fn lemma_pair_takes_room(url: UrlParts, name: Seq<char>, value: Seq<char>)
    ensures
        encode_utf8(with_pair(url, name, value).head()).len() <= encode_utf8(url.head()).len()
            + pair_room((name, value)),
        encode_utf8(url.base).len() <= encode_utf8(url.head()).len(),
{
    let pair = encoded_pair(name, value);
    let longer = with_pair(url, name, value).head();
    lemma_encode_len(seq!['?']);
    lemma_encode_len(seq!['&']);
    lemma_encoded_pair_len(name, value);
    lemma_form_len(encode_utf8(name));
    lemma_form_len(encode_utf8(value));
    let between = match url.query {
        None => seq!['?'],
        Some(query) => if query.len() > 0 {
            seq!['&']
        } else {
            seq![]
        },
    };
    assert(longer =~= url.head() + between + pair);
    lemma_encode_concat(url.head(), between);
    lemma_encode_concat(url.head() + between, pair);
    if let Some(query) = url.query {
        lemma_encode_concat(url.base, seq!['?']);
        lemma_encode_concat(url.base + seq!['?'], query);
    }
}

/// Pairs can be added to a URL if it does not grow beyond what can be counted in 32 bits.
pub proof fn lemma_pairs_fit(url: UrlParts, pairs: Seq<(Seq<char>, Seq<char>)>)
    requires
        encode_utf8(url.head()).len() + pairs_room(pairs) <= u32::MAX,
    ensures
        with_pairs(url, pairs) matches Some(longer) && encode_utf8(longer.head()).len()
            <= encode_utf8(url.head()).len() + pairs_room(pairs),
    decreases pairs.len(),
{
    if pairs.len() > 0 {
        lemma_pairs_fit(url, pairs.drop_last());
        let before = with_pairs(url, pairs.drop_last())->0;
        lemma_pair_takes_room(before, pairs.last().0, pairs.last().1);
    }
}

proof fn lemma_encoded_pair_len(name: Seq<char>, value: Seq<char>)
    ensures
        encode_utf8(encoded_pair(name, value)).len() == form_bytes(encode_utf8(name)).len() + 1
            + form_bytes(encode_utf8(value)).len(),
{
    let front = form_bytes(encode_utf8(name));
    let back = form_bytes(encode_utf8(value));
    lemma_form_is_ascii(encode_utf8(name));
    lemma_form_is_ascii(encode_utf8(value));
    lemma_encode_len(front);
    lemma_encode_len(back);
    lemma_encode_len(seq!['=']);
    lemma_encode_concat(front, seq!['=']);
    lemma_encode_concat(front + seq!['='], back);
}

/// Adds pairs to the query of a URL, unless the `url` crate cannot.
pub(crate) fn append_pairs(url: &mut url::Url, pairs: &Vec<(String, String)>) -> (done: bool)
    ensures
        match with_pairs(url_parts(*old(url)), pair_texts(pairs@)) {
            Some(parts) => done && url_parts(*final(url)) == parts,
            None => !done,
        },
{
    let ghost wanted = pair_texts(pairs@);
    let mut i: usize = 0;
    while i < pairs.len()
        invariant
            i <= pairs@.len(),
            wanted == pair_texts(pairs@),
            with_pairs(url_parts(*old(url)), wanted.take(i as int)) == Some(url_parts(*url)),
        decreases pairs@.len() - i,
    {
        assert(wanted.take(i + 1).drop_last() == wanted.take(i as int));
        assert(wanted.take(i + 1).last() == wanted[i as int]);
        let name = pairs[i].0.as_str();
        let value = pairs[i].1.as_str();
        if !fits(url, name, value) {
            proof {
                lemma_refusal_stays(url_parts(*old(url)), wanted, i + 1);
            }
            return false;
        }
        append_pair(url, name, value);
        i = i + 1;
    }
    assert(wanted.take(i as int) == wanted);
    true
}

/// The authorization URL, where the issuer makes one and the pairs can be added to it.
pub open spec fn authorize_url(
    issuer: Seq<char>,
    pairs: Seq<(Seq<char>, Seq<char>)>,
) -> Option<UrlParts> {
    match url_parse(issuer + "/oauth/authorize"@) {
        Ok(url) => with_pairs(url, pairs),
        Err(_) => None,
    }
}

} // verus!
