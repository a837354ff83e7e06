use vstd::prelude::*;
use vstd::utf8::{encode_utf8, is_ascii_chars, is_ascii_chars_encode_utf8};

verus! {

/// The byte `&`, which separates the pairs of a query string.
pub const AMPERSAND: u8 = 0x26;

/// The byte `=`, which separates a name from its value.
pub const EQUALS: u8 = 0x3d;

/// Whether a byte is written into a query string as it is: a digit, a Latin
/// letter, or one of `*`, `-`, `.`, `_`.
pub open spec fn is_kept(b: u8) -> bool {
    ||| b == 0x2a
    ||| b == 0x2d
    ||| b == 0x2e
    ||| 0x30 <= b <= 0x39
    ||| 0x41 <= b <= 0x5a
    ||| b == 0x5f
    ||| 0x61 <= b <= 0x7a
}

/// The upper-case hexadecimal digit for `n`, as an ASCII byte.
pub open spec fn hex_digit(n: int) -> u8
    recommends
        0 <= n < 16,
{
    if n < 10 {
        (0x30 + n) as u8
    } else {
        (0x37 + n) as u8
    }
}

/// How one byte is written: itself if it is kept, `+` for a space, and else
/// `%` with its two hexadecimal digits.
pub open spec fn escape(b: u8) -> Seq<u8> {
    if is_kept(b) {
        seq![b]
    } else if b == 0x20 {
        seq![0x2bu8]
    } else {
        seq![0x25u8, hex_digit(b as int / 16), hex_digit(b as int % 16)]
    }
}

/// The form encoding of a byte string: each byte escaped, in order.
pub open spec fn form_encode(bytes: Seq<u8>) -> Seq<u8>
    decreases bytes.len(),
{
    if bytes.len() == 0 {
        Seq::empty()
    } else {
        escape(bytes[0]) + form_encode(bytes.drop_first())
    }
}

/// One pair as it stands in a query string: the encoded name, `=`, the
/// encoded value, both taken as UTF-8.
pub open spec fn pair_bytes(pair: (Seq<char>, Seq<char>)) -> Seq<u8> {
    form_encode(encode_utf8(pair.0)) + seq![EQUALS] + form_encode(encode_utf8(pair.1))
}

/// The query string of a list of pairs: the pairs in order, joined by `&`.
pub open spec fn query_bytes(pairs: Seq<(Seq<char>, Seq<char>)>) -> Seq<u8>
    decreases pairs.len(),
{
    if pairs.len() == 0 {
        Seq::empty()
    } else if pairs.len() == 1 {
        pair_bytes(pairs[0])
    } else {
        pair_bytes(pairs[0]) + seq![AMPERSAND] + query_bytes(pairs.drop_first())
    }
}

/// A string of ASCII bytes as text.
pub open spec fn ascii_text(bytes: Seq<u8>) -> Seq<char> {
    Seq::new(bytes.len(), |i: int| bytes[i] as char)
}

/// The query string of a list of pairs, as text.
pub open spec fn query_text(pairs: Seq<(Seq<char>, Seq<char>)>) -> Seq<char> {
    ascii_text(query_bytes(pairs))
}

/// Serializes with `url::form_urlencoded::Serializer`: `new` on an empty
/// string, `extend_pairs`, `finish`. Not proved: that the serializer writes
/// the pairs in order, `&` between them and `=` inside each, and escapes the
/// UTF-8 bytes of names and values as `escape` says.
#[verifier::external_body]
pub(crate) fn serialize_pairs(pairs: &Vec<(String, String)>) -> (res: String)
    ensures
        res@ == query_text(pairs.deep_view()),
{
    url::form_urlencoded::Serializer::new(String::new())
        .extend_pairs(pairs.iter().map(|pair| (pair.0.as_str(), pair.1.as_str())))
        .finish()
}

/// The value of a hexadecimal digit given as an ASCII byte, in either case.
pub open spec fn hex_value(b: u8) -> Option<int> {
    if 0x30 <= b <= 0x39 {
        Some(b - 0x30)
    } else if 0x41 <= b <= 0x46 {
        Some(b - 0x37)
    } else if 0x61 <= b <= 0x66 {
        Some(b - 0x57)
    } else {
        None
    }
}

/// The bytes that a form-encoded text stands for: `+` is a space, `%` with
/// two hexadecimal digits is the byte of that value, and every other byte
/// is itself.
pub open spec fn form_decode(text: Seq<u8>) -> Seq<u8>
    decreases text.len(),
{
    if text.len() == 0 {
        Seq::empty()
    } else if text[0] == 0x2b {
        seq![0x20u8] + form_decode(text.drop_first())
    } else if text[0] == 0x25 && text.len() >= 3 && hex_value(text[1]) is Some && hex_value(
        text[2],
    ) is Some {
        seq![(hex_value(text[1])->0 * 16 + hex_value(text[2])->0) as u8] + form_decode(text.skip(3))
    } else {
        seq![text[0]] + form_decode(text.drop_first())
    }
}

/// The place of the first `mark` in `text`; the length of `text` where
/// there is none.
pub open spec fn first_index(text: Seq<u8>, mark: u8) -> nat
    decreases text.len(),
{
    if text.len() == 0 || text[0] == mark {
        0
    } else {
        1 + first_index(text.drop_first(), mark)
    }
}

/// What follows the first `mark` in `text`; nothing where there is none.
pub open spec fn after_first(text: Seq<u8>, mark: u8) -> Seq<u8> {
    let i = first_index(text, mark);
    if i < text.len() {
        text.skip(i as int + 1)
    } else {
        Seq::empty()
    }
}

/// The pair that one segment of a query string stands for: the name before
/// the first `=` and the value behind it, both decoded.
pub open spec fn parse_pair(segment: Seq<u8>) -> (Seq<u8>, Seq<u8>) {
    (
        form_decode(segment.take(first_index(segment, EQUALS) as int)),
        form_decode(after_first(segment, EQUALS)),
    )
}

/// The pairs that a query string stands for: its segments between `&`, the
/// empty ones left out, each read as a pair.
pub open spec fn parse_query(text: Seq<u8>) -> Seq<(Seq<u8>, Seq<u8>)>
    decreases text.len(),
{
    if text.len() == 0 {
        Seq::empty()
    } else {
        let segment = text.take(first_index(text, AMPERSAND) as int);
        let head = if segment.len() == 0 {
            Seq::empty()
        } else {
            seq![parse_pair(segment)]
        };
        head + parse_query(after_first(text, AMPERSAND))
    }
}

/// The pairs as they go into a query string: names and values as UTF-8.
pub open spec fn pair_values(pairs: Seq<(Seq<char>, Seq<char>)>) -> Seq<(Seq<u8>, Seq<u8>)> {
    Seq::new(pairs.len(), |i: int| (encode_utf8(pairs[i].0), encode_utf8(pairs[i].1)))
}

/// Whether a byte can stand in an encoded name or value.
pub open spec fn is_encoded_byte(b: u8) -> bool {
    is_kept(b) || b == 0x2b || b == 0x25
}

/// Whether `text` holds no `mark`.
pub open spec fn lacks(text: Seq<u8>, mark: u8) -> bool {
    forall|i: int| 0 <= i < text.len() ==> #[trigger] text[i] != mark
}

proof fn lemma_hex_digit(n: int)
    requires
        0 <= n < 16,
    ensures
        hex_value(hex_digit(n)) == Some(n),
        is_kept(hex_digit(n)),
{
}

proof fn lemma_escape(b: u8)
    ensures
        1 <= escape(b).len() <= 3,
        forall|i: int| 0 <= i < escape(b).len() ==> is_encoded_byte(#[trigger] escape(b)[i]),
        forall|rest: Seq<u8>| #[trigger] form_decode(escape(b) + rest) == seq![b] + form_decode(rest),
{
    let high = b as int / 16;
    let low = b as int % 16;
    lemma_hex_digit(high);
    lemma_hex_digit(low);
    assert forall|rest: Seq<u8>| #[trigger] form_decode(escape(b) + rest) == seq![b] + form_decode(
        rest,
    ) by {
        let text = escape(b) + rest;
        if is_kept(b) || b == 0x20 {
            assert(text.drop_first() =~= rest);
        } else {
            assert(text[1] == hex_digit(high) && text[2] == hex_digit(low));
            assert(text.skip(3) =~= rest);
            assert((high * 16 + low) as u8 == b);
        }
    }
}

/// An encoded text holds kept bytes, `+` and `%` only.
pub proof fn lemma_encoded_bytes(bytes: Seq<u8>)
    ensures
        forall|i: int|
            0 <= i < form_encode(bytes).len() ==> is_encoded_byte(#[trigger] form_encode(bytes)[i]),
        lacks(form_encode(bytes), AMPERSAND),
        lacks(form_encode(bytes), EQUALS),
    decreases bytes.len(),
{
    if bytes.len() > 0 {
        lemma_escape(bytes[0]);
        lemma_encoded_bytes(bytes.drop_first());
    }
}

/// Decoding undoes encoding: the bytes that went in come out, one for one.
pub proof fn lemma_decode_encode(bytes: Seq<u8>)
    ensures
        form_decode(form_encode(bytes)) == bytes,
    decreases bytes.len(),
{
    if bytes.len() > 0 {
        lemma_escape(bytes[0]);
        lemma_decode_encode(bytes.drop_first());
        assert(seq![bytes[0]] + bytes.drop_first() =~= bytes);
    }
}

proof fn lemma_first_index(head: Seq<u8>, mark: u8, tail: Seq<u8>)
    requires
        lacks(head, mark),
    ensures
        first_index(head, mark) == head.len(),
        first_index(head + seq![mark] + tail, mark) == head.len(),
        after_first(head, mark) == Seq::<u8>::empty(),
        after_first(head + seq![mark] + tail, mark) == tail,
        (head + seq![mark] + tail).take(head.len() as int) == head,
    decreases head.len(),
{
    let text = head + seq![mark] + tail;
    if head.len() > 0 {
        assert(head[0] != mark);
        assert forall|i: int| 0 <= i < head.drop_first().len() implies #[trigger] head.drop_first()[i]
            != mark by {
            assert(head.drop_first()[i] == head[i + 1]);
        }
        lemma_first_index(head.drop_first(), mark, tail);
        assert(text.drop_first() =~= head.drop_first() + seq![mark] + tail);
    }
    assert(text.skip(head.len() as int + 1) =~= tail);
    assert(text.take(head.len() as int) =~= head);
}

proof fn lemma_parse_pair(pair: (Seq<char>, Seq<char>))
    ensures
        parse_pair(pair_bytes(pair)) == (encode_utf8(pair.0), encode_utf8(pair.1)),
        lacks(pair_bytes(pair), AMPERSAND),
        pair_bytes(pair).len() > 0,
{
    let name = form_encode(encode_utf8(pair.0));
    let value = form_encode(encode_utf8(pair.1));
    lemma_encoded_bytes(encode_utf8(pair.0));
    lemma_encoded_bytes(encode_utf8(pair.1));
    lemma_decode_encode(encode_utf8(pair.0));
    lemma_decode_encode(encode_utf8(pair.1));
    lemma_first_index(name, EQUALS, value);
}

/// Reading a query string gives back the pairs that it was written from,
/// byte for byte and in order.
pub proof fn lemma_parse_query(pairs: Seq<(Seq<char>, Seq<char>)>)
    ensures
        parse_query(query_bytes(pairs)) == pair_values(pairs),
    decreases pairs.len(),
{
    if pairs.len() == 0 {
        assert(parse_query(query_bytes(pairs)) =~= pair_values(pairs));
    } else {
        let first = pair_bytes(pairs[0]);
        let rest = pairs.drop_first();
        lemma_parse_pair(pairs[0]);
        lemma_first_index(first, AMPERSAND, query_bytes(rest));
        lemma_parse_query(rest);
        if pairs.len() == 1 {
            assert(first.take(first.len() as int) =~= first);
            assert(parse_query(Seq::<u8>::empty()) =~= Seq::empty());
        }
        assert(pair_values(pairs) =~= seq![(encode_utf8(pairs[0].0), encode_utf8(pairs[0].1))]
            + pair_values(rest));
    }
}

proof fn lemma_pair_ascii(pair: (Seq<char>, Seq<char>))
    ensures
        forall|i: int| 0 <= i < pair_bytes(pair).len() ==> #[trigger] pair_bytes(pair)[i] < 0x80,
{
    let name = form_encode(encode_utf8(pair.0));
    let value = form_encode(encode_utf8(pair.1));
    lemma_encoded_bytes(encode_utf8(pair.0));
    lemma_encoded_bytes(encode_utf8(pair.1));
    assert forall|i: int| 0 <= i < pair_bytes(pair).len() implies #[trigger] pair_bytes(pair)[i]
        < 0x80 by {
        if i < name.len() {
            assert(is_encoded_byte(name[i]));
        } else if i > name.len() {
            assert(is_encoded_byte(value[i - name.len() - 1]));
        }
    }
}

proof fn lemma_query_ascii(pairs: Seq<(Seq<char>, Seq<char>)>)
    ensures
        forall|i: int| 0 <= i < query_bytes(pairs).len() ==> #[trigger] query_bytes(pairs)[i] < 0x80,
    decreases pairs.len(),
{
    if pairs.len() > 0 {
        let first = pair_bytes(pairs[0]);
        lemma_pair_ascii(pairs[0]);
        if pairs.len() > 1 {
            let rest = query_bytes(pairs.drop_first());
            lemma_query_ascii(pairs.drop_first());
            assert forall|i: int| 0 <= i < query_bytes(pairs).len() implies #[trigger] query_bytes(
                pairs,
            )[i] < 0x80 by {
                if i < first.len() {
                    assert(first[i] < 0x80);
                } else if i > first.len() {
                    assert(rest[i - first.len() - 1] < 0x80);
                }
            }
        }
    }
}

/// A query string as text is plain ASCII: its UTF-8 bytes are the bytes
/// that were written, and they read back as the pairs that it was written
/// from, names and values byte for byte and in order.
pub proof fn lemma_query_round_trip(pairs: Seq<(Seq<char>, Seq<char>)>)
    ensures
        is_ascii_chars(query_text(pairs)),
        encode_utf8(query_text(pairs)) == query_bytes(pairs),
        parse_query(encode_utf8(query_text(pairs))) == pair_values(pairs),
{
    let bytes = query_bytes(pairs);
    let text = query_text(pairs);
    lemma_query_ascii(pairs);
    assert(is_ascii_chars(text)) by {
        assert forall|i: int| 0 <= i < text.len() implies '\0' <= #[trigger] text[i] <= '\u{7f}' by {
            assert(bytes[i] < 0x80);
        }
    }
    is_ascii_chars_encode_utf8(text);
    assert(encode_utf8(text) =~= bytes) by {
        assert forall|i: int| 0 <= i < bytes.len() implies encode_utf8(text)[i] == bytes[i] by {
            assert(text[i] as u8 == bytes[i]);
        }
    }
    lemma_parse_query(pairs);
}

/// Whether `text` holds nothing but kept ASCII characters.
pub open spec fn all_kept(text: Seq<char>) -> bool {
    forall|i: int|
        0 <= i < text.len() ==> '\0' <= #[trigger] text[i] <= '\u{7f}' && is_kept(text[i] as u8)
}

proof fn lemma_kept_bytes_unchanged(bytes: Seq<u8>)
    requires
        forall|i: int| 0 <= i < bytes.len() ==> is_kept(#[trigger] bytes[i]),
    ensures
        form_encode(bytes) == bytes,
    decreases bytes.len(),
{
    if bytes.len() > 0 {
        assert(is_kept(bytes[0]));
        assert forall|i: int| 0 <= i < bytes.drop_first().len() implies is_kept(
            #[trigger] bytes.drop_first()[i],
        ) by {
            assert(bytes.drop_first()[i] == bytes[i + 1]);
        }
        lemma_kept_bytes_unchanged(bytes.drop_first());
        assert(seq![bytes[0]] + bytes.drop_first() =~= bytes);
    } else {
        assert(form_encode(bytes) =~= bytes);
    }
}

/// A text of kept characters stands in a query string as it is.
pub proof fn lemma_kept_text_unchanged(text: Seq<char>)
    requires
        all_kept(text),
    ensures
        ascii_text(form_encode(encode_utf8(text))) == text,
{
    let bytes = encode_utf8(text);
    assert(is_ascii_chars(text));
    is_ascii_chars_encode_utf8(text);
    assert forall|i: int| 0 <= i < bytes.len() implies is_kept(#[trigger] bytes[i]) by {
        assert(bytes[i] == text[i] as u8);
    }
    lemma_kept_bytes_unchanged(bytes);
    assert(ascii_text(bytes) =~= text) by {
        assert forall|i: int| 0 <= i < text.len() implies ascii_text(bytes)[i] == text[i] by {
            assert(bytes[i] == text[i] as u8);
        }
    }
}

} // verus!
