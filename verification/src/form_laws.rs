//! What holds of texts that travel in forms and URLs.
use crate::authorize::{lemma_form_is_ascii, with_pairs};
use crate::external::{
    encoded_pair, form_byte, form_bytes, form_component, form_pairs, form_segments, hex_digit,
    hex_text, hex_value, name_part, percent_decoded, spaces_for_plus, upper_hex_digit, value_part,
    with_pair, UrlParts,
};
use crate::text::{
    first_index, is_unbroken, lemma_first_index, lemma_first_index_is, looks_like_url, white_space,
};
use vstd::prelude::*;
use vstd::utf8::{
    encode_utf8, encode_utf8_decode_utf8, encode_utf8_valid_utf8, is_ascii_chars,
    is_ascii_chars_encode_utf8,
};

verus! {

/// The form encoding has no white space in it, and none of the characters that separate the
/// parts of a URL or of a form.
proof fn lemma_form_bytes(bytes: Seq<u8>)
    ensures
        is_unbroken(form_bytes(bytes)),
        forall|i: int|
            #![trigger form_bytes(bytes)[i]]
            0 <= i < form_bytes(bytes).len() ==> form_bytes(bytes)[i] != '#' && form_bytes(bytes)[i]
                != '&' && form_bytes(bytes)[i] != '=' && form_bytes(bytes)[i] != '?',
    decreases bytes.len(),
{
    if bytes.len() > 0 {
        lemma_form_bytes(bytes.drop_first());
        let byte = bytes[0];
        let head = form_byte(byte);
        let tail = form_bytes(bytes.drop_first());
        let high = byte as int / 16;
        let low = byte as int % 16;
        assert(0 <= high < 16 && 0 <= low < 16);
        assert forall|i: int|
            #![trigger head[i]]
            0 <= i < head.len() implies !white_space(head[i]) && head[i] != '#' && head[i] != '&'
            && head[i] != '=' && head[i] != '?' by {
            assert(forall|n: int|
                0 <= n < 16 ==> ('0' <= #[trigger] upper_hex_digit(n) <= '9' || 'A'
                    <= upper_hex_digit(n) <= 'F'));
        }
        let all = head + tail;
        assert forall|i: int|
            #![trigger all[i]]
            0 <= i < all.len() implies !white_space(all[i]) && all[i] != '#' && all[i] != '&'
            && all[i] != '=' && all[i] != '?' by {
            if i < head.len() {
                assert(all[i] == head[i]);
            } else {
                assert(all[i] == tail[i - head.len()]);
            }
        }
    }
}

/// The bytes of the form encoding stand for the bytes that were encoded.
proof fn lemma_form_bytes_read_back(bytes: Seq<u8>)
    ensures
        percent_decoded(
            spaces_for_plus(
                Seq::new(form_bytes(bytes).len(), |i: int| form_bytes(bytes)[i] as u8),
            ),
        ) == bytes,
    decreases bytes.len(),
{
    let text = form_bytes(bytes);
    let raw = Seq::new(text.len(), |i: int| text[i] as u8);
    let given = spaces_for_plus(raw);
    if bytes.len() > 0 {
        lemma_form_bytes_read_back(bytes.drop_first());
        let byte = bytes[0];
        let head = form_byte(byte);
        let tail = form_bytes(bytes.drop_first());
        let rest = spaces_for_plus(Seq::new(tail.len(), |i: int| tail[i] as u8));
        assert(given.skip(head.len() as int) =~= rest) by {
            assert forall|i: int| 0 <= i < rest.len() implies given.skip(head.len() as int)[i]
                == rest[i] by {
                assert(text[head.len() + i] == tail[i]);
            }
        }
        if head.len() == 1 {
            assert(text[0] == head[0]);
            assert(given[0] == byte);
            assert(given.drop_first() =~= rest);
            assert(given[0] != 0x25);
        } else {
            assert(text[0] == '%' && text[1] == head[1] && text[2] == head[2]);
            let high = byte as int / 16;
            let low = byte as int % 16;
            assert(0 <= high < 16 && 0 <= low < 16 && byte == 16 * high + low);
            assert(given[0] == 0x25);
            assert(hex_value(given[1]) == Some(high));
            assert(hex_value(given[2]) == Some(low));
        }
        assert(bytes =~= seq![byte] + bytes.drop_first());
    } else {
        assert(given =~= seq![]);
        assert(bytes =~= seq![]);
    }
}

/// What was put into a form is what is read from it.
pub proof fn law_form_encoding_is_read_back(text: Seq<char>)
    ensures
        form_component(form_bytes(encode_utf8(text))) == text,
{
    let bytes = encode_utf8(text);
    let encoded = form_bytes(bytes);
    lemma_form_bytes_read_back(bytes);
    lemma_form_is_ascii(bytes);
    is_ascii_chars_encode_utf8(encoded);
    assert(encode_utf8(encoded) =~= Seq::new(encoded.len(), |i: int| encoded[i] as u8));
    encode_utf8_valid_utf8(text);
    encode_utf8_decode_utf8(text);
}

/// The form encoding keeps digits and lower case letters as they are.
pub proof fn lemma_form_keeps(text: Seq<char>)
    requires
        forall|i: int|
            0 <= i < text.len() ==> ('0' <= #[trigger] text[i] <= '9' || 'a' <= text[i] <= 'z'),
    ensures
        form_bytes(encode_utf8(text)) == text,
{
    is_ascii_chars_encode_utf8(text);
    let bytes = encode_utf8(text);
    assert(is_ascii_chars(text));
    assert(bytes =~= Seq::new(text.len(), |i: int| text[i] as u8));
    lemma_form_keeps_bytes(text, bytes);
}

proof fn lemma_form_keeps_bytes(text: Seq<char>, bytes: Seq<u8>)
    requires
        bytes.len() == text.len(),
        forall|i: int|
            0 <= i < text.len() ==> ('0' <= #[trigger] text[i] <= '9' || 'a' <= text[i] <= 'z')
                && bytes[i] == text[i] as u8,
    ensures
        form_bytes(bytes) == text,
    decreases text.len(),
{
    if text.len() > 0 {
        let rest = text.drop_first();
        assert forall|i: int| 0 <= i < rest.len() implies ('0' <= #[trigger] rest[i] <= '9' || 'a'
            <= rest[i] <= 'z') && bytes.drop_first()[i] == rest[i] as u8 by {
            assert(rest[i] == text[i + 1]);
        }
        lemma_form_keeps_bytes(rest, bytes.drop_first());
        let c = text[0];
        assert('0' <= c <= '9' || 'a' <= c <= 'z');
        assert(form_byte(bytes[0]) =~= seq![c]);
        assert(text =~= seq![c] + rest);
    } else {
        assert(text =~= seq![]);
    }
}

/// Every hexadecimal digit is one of the digits and of the letters up to `f`.
pub proof fn lemma_hex_chars(bytes: Seq<u8>)
    ensures
        hex_text(bytes).len() == 2 * bytes.len(),
        forall|i: int|
            0 <= i < hex_text(bytes).len() ==> ('0' <= #[trigger] hex_text(bytes)[i] <= '9' || 'a'
                <= hex_text(bytes)[i] <= 'f'),
    decreases bytes.len(),
{
    if bytes.len() > 0 {
        lemma_hex_chars(bytes.drop_last());
        let high = bytes.last() as int / 16;
        let low = bytes.last() as int % 16;
        assert(0 <= high < 16 && 0 <= low < 16);
        assert('0' <= hex_digit(high) <= '9' || 'a' <= hex_digit(high) <= 'f');
        assert('0' <= hex_digit(low) <= '9' || 'a' <= hex_digit(low) <= 'f');
    }
}

/// Two logins have the same state only if the same bytes were drawn.
pub proof fn law_states_differ(first: Seq<u8>, second: Seq<u8>)
    requires
        hex_text(first) == hex_text(second),
    ensures
        first == second,
    decreases first.len(),
{
    lemma_hex_chars(first);
    lemma_hex_chars(second);
    if first.len() > 0 {
        let text = hex_text(first);
        let head = text.take(text.len() - 2);
        assert(head =~= hex_text(first.drop_last()));
        assert(head =~= hex_text(second.drop_last()));
        law_states_differ(first.drop_last(), second.drop_last());
        let a = first.last() as int;
        let b = second.last() as int;
        assert(hex_digit(a / 16) == text[text.len() - 2] == hex_digit(b / 16));
        assert(hex_digit(a % 16) == text[text.len() - 1] == hex_digit(b % 16));
        assert(a / 16 == b / 16);
        assert(a % 16 == b % 16);
        assert(first =~= first.drop_last().push(first.last()));
        assert(second =~= second.drop_last().push(second.last()));
    } else {
        assert(first =~= second);
    }
}

/// A generated state stands for itself in a form.
pub proof fn law_state_stands_for_itself(bytes: Seq<u8>)
    ensures
        form_component(hex_text(bytes)) == hex_text(bytes),
        forall|i: int| 0 <= i < hex_text(bytes).len() ==> hex_text(bytes)[i] != '&',
{
    lemma_hex_chars(bytes);
    lemma_form_keeps(hex_text(bytes));
    law_form_encoding_is_read_back(hex_text(bytes));
}

/// A segment that is added behind `&` is the last one.
proof fn lemma_segment_added(query: Seq<char>, segment: Seq<char>)
    requires
        segment.len() > 0,
        forall|i: int| 0 <= i < segment.len() ==> segment[i] != '&',
    ensures
        form_segments(query + seq!['&'] + segment) == form_segments(query).push(segment),
    decreases query.len(),
{
    let all = query + seq!['&'] + segment;
    lemma_first_index(query, '&');
    let cut = first_index(query, '&');
    assert forall|i: int| 0 <= i < cut implies all[i] != '&' by {
        assert(all[i] == query[i]);
    }
    lemma_first_index_is(segment, '&', segment.len() as int);
    assert(form_segments(segment) =~= seq![segment]);
    if cut == query.len() {
        assert(all[cut] == '&');
        lemma_first_index_is(all, '&', cut);
        assert(all.skip(cut + 1) =~= segment);
        assert(all.take(cut) =~= query);
    } else {
        assert(all[cut] == query[cut]);
        lemma_first_index_is(all, '&', cut);
        assert(all.take(cut) =~= query.take(cut));
        assert(all.skip(cut + 1) =~= query.skip(cut + 1) + seq!['&'] + segment);
        lemma_segment_added(query.skip(cut + 1), segment);
    }
    assert(form_segments(all) =~= form_segments(query).push(segment));
}

/// An encoded pair is one segment, and the pair is read from it.
proof fn lemma_encoded_pair(name: Seq<char>, value: Seq<char>)
    ensures
        encoded_pair(name, value).len() > 0,
        is_unbroken(encoded_pair(name, value)),
        forall|i: int|
            0 <= i < encoded_pair(name, value).len() ==> encoded_pair(name, value)[i] != '&',
        form_component(name_part(encoded_pair(name, value))) == name,
        form_component(value_part(encoded_pair(name, value))) == value,
{
    let front = form_bytes(encode_utf8(name));
    let back = form_bytes(encode_utf8(value));
    let pair = encoded_pair(name, value);
    lemma_form_bytes(encode_utf8(name));
    lemma_form_bytes(encode_utf8(value));
    assert forall|i: int|
        #![trigger pair[i]]
        0 <= i < pair.len() implies !white_space(pair[i]) && pair[i] != '&' by {
        if i < front.len() {
            assert(pair[i] == front[i]);
        } else if i > front.len() {
            assert(pair[i] == back[i - front.len() - 1]);
        }
    }
    assert forall|i: int| 0 <= i < front.len() implies pair[i] != '=' by {
        assert(pair[i] == front[i]);
    }
    lemma_first_index_is(pair, '=', front.len() as int);
    assert(name_part(pair) =~= front);
    assert(value_part(pair) =~= back);
    law_form_encoding_is_read_back(name);
    law_form_encoding_is_read_back(value);
}

/// The pairs of a query; none where there is no query.
pub open spec fn query_pairs(url: UrlParts) -> Seq<(Seq<char>, Seq<char>)> {
    match url.query {
        Some(query) => form_pairs(query),
        None => seq![],
    }
}

proof fn lemma_unbroken_concat(first: Seq<char>, second: Seq<char>)
    ensures
        is_unbroken(first + second) == (is_unbroken(first) && is_unbroken(second)),
{
    let all = first + second;
    if is_unbroken(all) {
        assert forall|i: int| 0 <= i < first.len() implies !white_space(#[trigger] first[i]) by {
            assert(all[i] == first[i]);
        }
        assert forall|i: int| 0 <= i < second.len() implies !white_space(#[trigger] second[i]) by {
            assert(all[first.len() + i] == second[i]);
        }
    }
    if is_unbroken(first) && is_unbroken(second) {
        assert forall|i: int| 0 <= i < all.len() implies !white_space(#[trigger] all[i]) by {
            if i < first.len() {
                assert(all[i] == first[i]);
            } else {
                assert(all[i] == second[i - first.len()]);
            }
        }
    }
}

/// A URL has no white space in it if its parts have none.
proof fn lemma_unbroken_url(url: UrlParts)
    ensures
        is_unbroken(url.text()) == (is_unbroken(url.base) && (url.query matches Some(query)
            ==> is_unbroken(query)) && (url.fragment matches Some(fragment) ==> is_unbroken(
            fragment,
        ))),
{
    assert(is_unbroken(seq!['?']));
    assert(is_unbroken(seq!['#']));
    if let Some(query) = url.query {
        lemma_unbroken_concat(url.base, seq!['?']);
        lemma_unbroken_concat(url.base + seq!['?'], query);
    }
    if let Some(fragment) = url.fragment {
        lemma_unbroken_concat(url.head(), seq!['#']);
        lemma_unbroken_concat(url.head() + seq!['#'], fragment);
    }
}

proof fn lemma_pair_is_read_back(url: UrlParts, name: Seq<char>, value: Seq<char>)
    ensures
        query_pairs(with_pair(url, name, value)) == query_pairs(url).push((name, value)),
        is_unbroken(url.text()) ==> is_unbroken(with_pair(url, name, value).text()),
{
    let pair = encoded_pair(name, value);
    let longer = with_pair(url, name, value);
    let all = longer.query->0;
    lemma_encoded_pair(name, value);
    lemma_first_index_is(pair, '&', pair.len() as int);
    assert(form_segments(pair) =~= seq![pair]);
    let before = match url.query {
        Some(query) => query,
        None => seq![],
    };
    assert(form_segments(before) =~= seq![] || before.len() > 0);
    if before.len() > 0 {
        lemma_segment_added(before, pair);
        assert(is_unbroken(seq!['&']));
        lemma_unbroken_concat(before, seq!['&']);
        lemma_unbroken_concat(before + seq!['&'], pair);
    }
    assert(form_segments(all) =~= form_segments(before).push(pair));
    assert(query_pairs(url) =~= form_pairs(before));
    assert(query_pairs(longer) =~= query_pairs(url).push((name, value)));
    lemma_unbroken_url(url);
    lemma_unbroken_url(longer);
}

/// The pairs that were added to a URL are read from its query, behind those that were there, and
/// the rest of the URL stays as it was. No white space comes in.
pub proof fn law_added_pairs_are_read_back(
    url: UrlParts,
    pairs: Seq<(Seq<char>, Seq<char>)>,
    longer: UrlParts,
)
    requires
        with_pairs(url, pairs) == Some(longer),
    ensures
        longer.base == url.base,
        longer.fragment == url.fragment,
        query_pairs(longer) == query_pairs(url) + pairs,
        is_unbroken(url.text()) ==> is_unbroken(longer.text()),
    decreases pairs.len(),
{
    if pairs.len() == 0 {
        assert(query_pairs(longer) =~= query_pairs(url) + pairs);
    } else {
        let before = with_pairs(url, pairs.drop_last())->0;
        law_added_pairs_are_read_back(url, pairs.drop_last(), before);
        lemma_pair_is_read_back(before, pairs.last().0, pairs.last().1);
        assert(query_pairs(longer) =~= query_pairs(url) + pairs);
    }
}

/// What begins a text begins each longer text, and nothing else of that length does.
proof fn lemma_prefix(prefix: Seq<char>, text: Seq<char>, more: Seq<char>)
    ensures
        prefix.is_prefix_of(text) ==> prefix.is_prefix_of(text + more),
        prefix.is_prefix_of(text + more) && prefix.len() <= text.len() ==> prefix.is_prefix_of(
            text,
        ),
        prefix.is_prefix_of(text + more) && prefix.len() > text.len() ==> prefix[text.len() as int]
            == more[0],
{
    let all = text + more;
    let len = prefix.len() as int;
    if len <= text.len() {
        assert(all.subrange(0, len) =~= text.subrange(0, len));
    } else if prefix.is_prefix_of(all) {
        assert(all.subrange(0, len)[text.len() as int] == all[text.len() as int]);
    }
}

/// A text that begins like a web address does so whatever stands behind it.
pub proof fn lemma_longer_url(text: Seq<char>, more: Seq<char>)
    ensures
        "http://"@.is_prefix_of(text) ==> "http://"@.is_prefix_of(text + more),
        "https://"@.is_prefix_of(text) ==> "https://"@.is_prefix_of(text + more),
{
    lemma_prefix("http://"@, text, more);
    lemma_prefix("https://"@, text, more);
}

/// A URL to which pairs were added is a web address if it was one. It has no white space in it
/// if no web address has.
pub proof fn lemma_web_address(
    url: UrlParts,
    pairs: Seq<(Seq<char>, Seq<char>)>,
    longer: UrlParts,
)
    requires
        with_pairs(url, pairs) == Some(longer),
        pairs.len() > 0,
        looks_like_url(url.base) ==> is_unbroken(url.text()),
    ensures
        looks_like_url(url.base) ==> looks_like_url(longer.text()),
        looks_like_url(longer.text()) ==> is_unbroken(longer.text()),
{
    law_added_pairs_are_read_back(url, pairs, longer);
    let more = seq!['?'] + longer.query->0 + match longer.fragment {
        Some(fragment) => seq!['#'] + fragment,
        None => seq![],
    };
    assert(longer.text() =~= longer.base + more);
    assert(more[0] == '?');
    lemma_longer_url(longer.base, more);
    lemma_prefix("http://"@, longer.base, more);
    lemma_prefix("https://"@, longer.base, more);
    reveal_strlit("http://");
    reveal_strlit("https://");
    assert(forall|i: int| 0 <= i < "http://"@.len() ==> "http://"@[i] != '?');
    assert(forall|i: int| 0 <= i < "https://"@.len() ==> "https://"@[i] != '?');
}

} // verus!
