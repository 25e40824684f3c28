//! Translating a Spanish definition into English through the Google
//! translation endpoint: the request address and the reading of its reply.
use vstd::prelude::*;
use vstd::string::StringExecFns;
use vstd::utf8::encode_utf8;

use crate::json::{Json, element, items_of, text_of, get_element, as_array, as_text};

verus! {

/// Whether `b` is sent as it is in a percent-encoded text: an ASCII letter
/// or digit, `-`, `.`, `_` or `~`.
pub open spec fn url_safe(b: u8) -> bool {
    ||| (0x30 <= b <= 0x39)
    ||| (0x41 <= b <= 0x5a)
    ||| (0x61 <= b <= 0x7a)
    ||| b == 0x2d
    ||| b == 0x2e
    ||| b == 0x5f
    ||| b == 0x7e
}

/// The upper-case hexadecimal digit for `d < 16`.
pub open spec fn hex_upper(d: u8) -> char {
    if d < 10 {
        (0x30 + d) as char
    } else {
        (0x41 + d - 10) as char
    }
}

/// How one byte is written in a percent-encoded text.
pub open spec fn percent_encode_byte(b: u8) -> Seq<char> {
    if url_safe(b) {
        seq![b as char]
    } else {
        seq!['%', hex_upper(b >> 4), hex_upper(b & 15)]
    }
}

/// The percent-encoding of `bytes`, byte after byte.
pub open spec fn percent_encoded(bytes: Seq<u8>) -> Seq<char>
    decreases bytes.len(),
{
    if bytes.len() == 0 {
        Seq::empty()
    } else {
        percent_encode_byte(bytes[0]) + percent_encoded(bytes.drop_first())
    }
}

/// `urlencoding::encode`: every byte of the UTF-8 encoding of `text` except
/// ASCII letters, digits and `-`, `.`, `_`, `~` becomes `%` and two upper-case
/// hexadecimal digits; the others are kept. The contract states exactly this,
/// as the crate's source computes it.
#[verifier::external_body]
fn url_encode(text: &str) -> (r: String)
    ensures
        r@ == percent_encoded(encode_utf8(text@)),
{
    urlencoding::encode(text).into_owned()
}

/// The value of an upper-case hexadecimal digit.
pub open spec fn hex_value(c: char) -> int {
    if '0' <= c && c <= '9' {
        (c as int) - 0x30
    } else {
        (c as int) - 0x41 + 10
    }
}

/// Whether `c` is an upper-case hexadecimal digit.
pub open spec fn is_upper_hex(c: char) -> bool {
    ('0' <= c && c <= '9') || ('A' <= c && c <= 'F')
}

proof fn lemma_hex_upper(d: u8)
    requires
        d < 16,
    ensures
        is_upper_hex(hex_upper(d)),
        hex_value(hex_upper(d)) == d,
{
}

/// A byte that may stand in an address is written as itself; any other byte
/// is written as `%` and two upper-case hexadecimal digits that denote it.
pub proof fn law_percent_encode_byte(b: u8)
    ensures
        url_safe(b) ==> percent_encode_byte(b) == seq![b as char] && (b as char) as int == b as int,
        !url_safe(b) ==> ({
            let e = percent_encode_byte(b);
            &&& e.len() == 3
            &&& e[0] == '%'
            &&& is_upper_hex(e[1]) && is_upper_hex(e[2])
            &&& hex_value(e[1]) * 16 + hex_value(e[2]) == b
        }),
{
    let hi = b >> 4;
    let lo = b & 15;
    assert(hi < 16 && lo < 16 && hi * 16 + lo == b) by (bit_vector)
        requires
            hi == b >> 4,
            lo == b & 15,
    ;
    lemma_hex_upper(hi);
    lemma_hex_upper(lo);
}

/// Encoding splits over concatenation: the bytes of two texts one after the
/// other are encoded as the encoding of the first followed by that of the
/// second.
pub proof fn law_percent_encoded_concat(a: Seq<u8>, b: Seq<u8>)
    ensures
        percent_encoded(a + b) == percent_encoded(a) + percent_encoded(b),
    decreases a.len(),
{
    if a.len() == 0 {
        assert(a + b =~= b);
        assert(Seq::<char>::empty() + percent_encoded(b) =~= percent_encoded(b));
    } else {
        assert((a + b)[0] == a[0]);
        assert((a + b).drop_first() =~= a.drop_first() + b);
        law_percent_encoded_concat(a.drop_first(), b);
        assert(percent_encode_byte(a[0]) + (percent_encoded(a.drop_first()) + percent_encoded(b))
            =~= (percent_encode_byte(a[0]) + percent_encoded(a.drop_first())) + percent_encoded(
            b,
        ));
    }
}

/// A single byte is encoded as its own encoding: no byte is left out.
pub proof fn law_percent_encoded_single(b: u8)
    ensures
        percent_encoded(seq![b]) == percent_encode_byte(b),
{
    let one = seq![b];
    assert(one.drop_first() =~= Seq::<u8>::empty());
    assert(one[0] == b);
    assert(percent_encoded(one.drop_first()) == Seq::<char>::empty());
    assert(percent_encode_byte(b) + Seq::<char>::empty() =~= percent_encode_byte(b));
}

/// The address that asks the translation service for the English of `text`.
pub open spec fn translation_url_spec(text: Seq<char>) -> Seq<char> {
    "https://translate.googleapis.com/translate_a/single?client=gtx&sl=es&tl=en&dt=t&q="@
        + percent_encoded(encode_utf8(text))
}

/// The address that asks the translation service for the English of `text`.
pub fn translation_url(text: &str) -> (r: String)
    ensures
        r@ == translation_url_spec(text@),
{
    let mut url = String::new();
    url.append("https://translate.googleapis.com/translate_a/single?client=gtx&sl=es&tl=en&dt=t&q=");
    let encoded = url_encode(text);
    url.append(encoded.as_str());
    url
}

/// Whether `c` can stand in a percent-encoded text.
pub open spec fn url_char(c: char) -> bool {
    ||| ('0' <= c && c <= '9')
    ||| ('A' <= c && c <= 'Z')
    ||| ('a' <= c && c <= 'z')
    ||| c == '-'
    ||| c == '.'
    ||| c == '_'
    ||| c == '~'
    ||| c == '%'
}

proof fn lemma_percent_encoded_chars(bytes: Seq<u8>)
    ensures
        forall|i: int|
            0 <= i < percent_encoded(bytes).len() ==> url_char(#[trigger] percent_encoded(bytes)[i]),
    decreases bytes.len(),
{
    if bytes.len() > 0 {
        lemma_percent_encoded_chars(bytes.drop_first());
        let b = bytes[0];
        let hi = b >> 4;
        let lo = b & 15;
        assert(hi < 16 && lo < 16) by (bit_vector)
            requires
                hi == b >> 4,
                lo == b & 15,
        ;
        let head = percent_encode_byte(b);
        let tail = percent_encoded(bytes.drop_first());
        assert forall|i: int| 0 <= i < head.len() implies url_char(head[i]) by {}
        assert forall|i: int| 0 <= i < percent_encoded(bytes).len() implies url_char(
            #[trigger] percent_encoded(bytes)[i],
        ) by {
            if i < head.len() {
                assert(percent_encoded(bytes)[i] == head[i]);
            } else {
                assert(percent_encoded(bytes)[i] == tail[i - head.len()]);
            }
        }
    }
}

/// A percent-encoded text holds only ASCII letters, digits, `-`, `.`, `_`,
/// `~` and `%`, whatever it encodes.
pub proof fn law_percent_encoding_is_url_safe(text: Seq<char>)
    ensures
        forall|i: int|
            0 <= i < percent_encoded(encode_utf8(text)).len() ==> url_char(
                #[trigger] percent_encoded(encode_utf8(text))[i],
            ),
{
    lemma_percent_encoded_chars(encode_utf8(text));
}

/// The text of the first element of `segment`, when that is a string, and
/// nothing otherwise.
pub open spec fn segment_text(segment: Json) -> Seq<char> {
    match text_of(element(segment, 0)) {
        Some(t) => t,
        None => Seq::empty(),
    }
}

/// The texts of `segments`, one after the other.
pub open spec fn joined_segments(segments: Seq<Json>) -> Seq<char>
    decreases segments.len(),
{
    if segments.len() == 0 {
        Seq::empty()
    } else {
        segment_text(segments[0]) + joined_segments(segments.drop_first())
    }
}

/// The translated text a reply holds: the joined segments of its first
/// element.
pub open spec fn translated_text(reply: Json) -> Seq<char> {
    joined_segments(items_of(element(reply, 0)))
}

/// The English for `text`: the translation the reply holds when it is not
/// empty, and `text` itself otherwise (also when no reply came).
pub open spec fn translation_spec(reply: Option<Json>, text: Seq<char>) -> Seq<char> {
    match reply {
        Some(j) => if translated_text(j).len() > 0 {
            translated_text(j)
        } else {
            text
        },
        None => text,
    }
}

/// A segment contributes the string it starts with, and nothing when it does
/// not start with one.
pub proof fn law_segment_text_is_first_string(segment: Json)
    ensures
        text_of(element(segment, 0)) matches Some(t) ==> segment_text(segment) == t,
        text_of(element(segment, 0)) is None ==> segment_text(segment) == Seq::<char>::empty(),
{
}

/// Joining splits over concatenation: the text of two runs of segments one
/// after the other is the text of the first followed by that of the second.
pub proof fn law_joined_segments_concat(a: Seq<Json>, b: Seq<Json>)
    ensures
        joined_segments(a + b) == joined_segments(a) + joined_segments(b),
    decreases a.len(),
{
    if a.len() == 0 {
        assert(a + b =~= b);
        assert(Seq::<char>::empty() + joined_segments(b) =~= joined_segments(b));
    } else {
        assert((a + b).drop_first() =~= a.drop_first() + b);
        assert((a + b)[0] == a[0]);
        law_joined_segments_concat(a.drop_first(), b);
        assert(segment_text(a[0]) + (joined_segments(a.drop_first()) + joined_segments(b))
            =~= (segment_text(a[0]) + joined_segments(a.drop_first())) + joined_segments(b));
    }
}

/// A single segment is joined to its own text: no segment, the last one
/// included, is left out.
pub proof fn law_joined_single_segment(segment: Json)
    ensures
        joined_segments(seq![segment]) == segment_text(segment),
{
    let one = seq![segment];
    assert(one.drop_first() =~= Seq::<Json>::empty());
    assert(one[0] == segment);
    assert(joined_segments(one.drop_first()) == Seq::<char>::empty());
    assert(segment_text(segment) + Seq::<char>::empty() =~= segment_text(segment));
}

/// One more segment at the end adds its text at the end of the joined text.
pub proof fn law_joined_segments_push(segments: Seq<Json>, last: Json)
    ensures
        joined_segments(segments.push(last)) == joined_segments(segments) + segment_text(last),
{
    law_joined_segments_concat(segments, seq![last]);
    law_joined_single_segment(last);
    assert(segments.push(last) =~= segments + seq![last]);
}

/// A reply whose first element lists segments is translated into their
/// joined text when that is not empty; in particular a reply with a single
/// segment whose text is `t` gives `t`.
pub proof fn law_translation_of_segments(reply: Json, segments: Vec<Json>, text: Seq<char>)
    requires
        element(reply, 0) == Some(Json::Array(segments)),
    ensures
        joined_segments(segments@).len() > 0 ==> translation_spec(Some(reply), text)
            == joined_segments(segments@),
        joined_segments(segments@).len() == 0 ==> translation_spec(Some(reply), text) == text,
        segments@.len() == 1 && segment_text(segments@[0]).len() > 0 ==> translation_spec(
            Some(reply),
            text,
        ) == segment_text(segments@[0]),
{
    if segments@.len() == 1 {
        assert(segments@ =~= seq![segments@[0]]);
        law_joined_single_segment(segments@[0]);
    }
}

/// Without a reply, or with a reply whose first element lists no segments,
/// the text comes back untranslated.
pub proof fn law_translation_falls_back(reply: Option<Json>, text: Seq<char>)
    ensures
        reply is None ==> translation_spec(reply, text) == text,
        reply matches Some(j) && !(element(j, 0) matches Some(Json::Array(_))) ==> translation_spec(
            reply,
            text,
        ) == text,
{
}

fn joined_segments_exec(segments: &Vec<Json>) -> (r: String)
    ensures
        r@ == joined_segments(segments@),
{
    let mut out = String::new();
    let mut i: usize = 0;
    proof {
        assert(segments@.skip(0) =~= segments@);
    }
    while i < segments.len()
        invariant
            i <= segments@.len(),
            out@ + joined_segments(segments@.skip(i as int)) == joined_segments(segments@),
        decreases segments@.len() - i,
    {
        let ghost before = out@;
        proof {
            assert(segments@.skip(i as int).drop_first() =~= segments@.skip(i + 1));
            assert(segments@.skip(i as int)[0] == segments@[i as int]);
        }
        if let Some(piece) = as_text(get_element(&segments[i], 0)) {
            out.append(piece.as_str());
        }
        proof {
            assert(before + (segment_text(segments@[i as int]) + joined_segments(
                segments@.skip(i + 1),
            )) =~= out@ + joined_segments(segments@.skip(i + 1)));
        }
        i = i + 1;
    }
    proof {
        assert(segments@.skip(i as int) =~= Seq::<Json>::empty());
        assert(out@ + Seq::<char>::empty() =~= out@);
    }
    out
}

/// The English for `text` that the translation reply gives, falling back to
/// `text` when the reply is missing or holds no text.
pub fn translation_from_reply(reply: Option<&Json>, text: &str) -> (r: String)
    ensures
        r@ == translation_spec(
            match reply {
                Some(j) => Some(*j),
                None => None,
            },
            text@,
        ),
{
    if let Some(j) = reply {
        let translated = if let Some(segments) = as_array(get_element(j, 0)) {
            joined_segments_exec(segments)
        } else {
            assert(items_of(element(*j, 0)) =~= Seq::<Json>::empty());
            String::new()
        };
        if !translated.as_str().is_empty() {
            return translated;
        }
    }
    text.to_owned()
}

} // verus!
