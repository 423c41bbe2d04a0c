//! Object ids as path segments.
use vstd::prelude::*;
use vstd::utf8::{encode_utf8, encode_utf8_decode_utf8, is_ascii_chars, is_ascii_chars_encode_utf8};

verus! {

/// Whether a byte is an ASCII letter or digit.
pub open spec fn is_alphanumeric(byte: u8) -> bool {
    ||| 0x30 <= byte <= 0x39
    ||| 0x41 <= byte <= 0x5a
    ||| 0x61 <= byte <= 0x7a
}

/// The upper-case hexadecimal digit of value `d`.
pub open spec fn hex_digit(d: int) -> char
    recommends
        0 <= d < 16,
{
    if d < 10 {
        (0x30 + d) as char
    } else {
        (0x41 + d - 10) as char
    }
}

/// A letter or digit stands for itself; any other byte is written as a percent sign and two
/// hexadecimal digits.
pub open spec fn encoded_byte(byte: u8) -> Seq<char> {
    if is_alphanumeric(byte) {
        seq![byte as char]
    } else {
        seq!['%', hex_digit(byte as int / 16), hex_digit(byte as int % 16)]
    }
}

/// The percent-encoding of a sequence of bytes.
pub open spec fn percent_encoded(bytes: Seq<u8>) -> Seq<char>
    decreases bytes.len(),
{
    if bytes.len() == 0 {
        Seq::empty()
    } else {
        encoded_byte(bytes[0]) + percent_encoded(bytes.drop_first())
    }
}

/// The percent-encoding of the UTF-8 bytes of an id.
pub open spec fn encoded_id(id: Seq<char>) -> Seq<char> {
    percent_encoded(encode_utf8(id))
}

/// `percent_encoding::utf8_percent_encode` with the set `NON_ALPHANUMERIC`, collected into a
/// string. It writes the UTF-8 bytes of `text` in order: an ASCII letter or digit as
/// itself, any other byte as `%` and its two upper-case hexadecimal digits.
#[verifier::external_body]
fn utf8_percent_encode(text: &str) -> (encoded: String)
    ensures
        encoded@ == percent_encoded(encode_utf8(text@)),
{
    percent_encoding::utf8_percent_encode(text, percent_encoding::NON_ALPHANUMERIC).to_string()
}

/// Percent-encodes a single path segment, such as the id of a Stripe object, so that it
/// cannot bring further path segments or a query string into a request.
pub fn encode_id(id: &str) -> (segment: String)
    ensures
        segment@ == encoded_id(id@),
{
    utf8_percent_encode(id)
}

/// A character that an encoded id may hold: an ASCII letter or digit, or a percent sign.
pub open spec fn is_segment_char(c: char) -> bool {
    ||| '0' <= c <= '9'
    ||| 'A' <= c <= 'Z'
    ||| 'a' <= c <= 'z'
    ||| c == '%'
}

proof fn lemma_encoded_byte_chars(byte: u8)
    ensures
        forall|i: int| 0 <= i < encoded_byte(byte).len() ==> is_segment_char(#[trigger] encoded_byte(byte)[i]),
{
    let encoded = encoded_byte(byte);
    assert forall|i: int| 0 <= i < encoded.len() implies is_segment_char(#[trigger] encoded[i]) by {
        if !is_alphanumeric(byte) {
            assert(0 <= byte as int / 16 < 16);
            assert(0 <= byte as int % 16 < 16);
        }
    }
}

proof fn lemma_percent_encoded_chars(bytes: Seq<u8>)
    ensures
        forall|i: int| 0 <= i < percent_encoded(bytes).len() ==> is_segment_char(#[trigger] percent_encoded(bytes)[i]),
    decreases bytes.len(),
{
    if bytes.len() > 0 {
        lemma_encoded_byte_chars(bytes[0]);
        lemma_percent_encoded_chars(bytes.drop_first());
        let first = encoded_byte(bytes[0]);
        let rest = percent_encoded(bytes.drop_first());
        assert forall|i: int| 0 <= i < percent_encoded(bytes).len() implies is_segment_char(
            #[trigger] percent_encoded(bytes)[i],
        ) by {
            if i < first.len() {
                assert(percent_encoded(bytes)[i] == first[i]);
            } else {
                assert(percent_encoded(bytes)[i] == rest[i - first.len()]);
            }
        }
    }
}

/// An encoded id holds ASCII letters, digits and percent signs only. So it has none of the
/// characters that end a path segment or a path: no `/`, no `?` and no `#`.
pub proof fn law_encoded_id_is_one_segment(id: Seq<char>)
    ensures
        forall|i: int| 0 <= i < encoded_id(id).len() ==> is_segment_char(#[trigger] encoded_id(id)[i]),
        !encoded_id(id).contains('/'),
        !encoded_id(id).contains('?'),
        !encoded_id(id).contains('#'),
{
    lemma_percent_encoded_chars(encode_utf8(id));
}

proof fn lemma_percent_encoded_injective(a: Seq<u8>, b: Seq<u8>)
    requires
        percent_encoded(a) == percent_encoded(b),
    ensures
        a == b,
    decreases a.len(),
{
    if a.len() == 0 || b.len() == 0 {
        if a.len() > 0 {
            assert(percent_encoded(a).len() >= encoded_byte(a[0]).len());
        }
        if b.len() > 0 {
            assert(percent_encoded(b).len() >= encoded_byte(b[0]).len());
        }
        assert(a =~= b);
    } else {
        let x = encoded_byte(a[0]);
        let y = encoded_byte(b[0]);
        let whole = percent_encoded(a);
        assert(whole[0] == x[0]);
        assert(whole[0] == y[0]);
        if is_alphanumeric(a[0]) {
            assert(a[0] == b[0]);
        } else {
            assert(!is_alphanumeric(b[0]));
            assert(whole[1] == x[1] && whole[1] == y[1]);
            assert(whole[2] == x[2] && whole[2] == y[2]);
            assert(a[0] as int / 16 == b[0] as int / 16);
            assert(a[0] as int % 16 == b[0] as int % 16);
            assert(a[0] == b[0]);
        }
        assert(percent_encoded(a.drop_first()) =~= whole.skip(x.len() as int));
        assert(percent_encoded(b.drop_first()) =~= whole.skip(y.len() as int));
        lemma_percent_encoded_injective(a.drop_first(), b.drop_first());
        assert(a =~= seq![a[0]] + a.drop_first());
        assert(b =~= seq![b[0]] + b.drop_first());
    }
}

/// Whether a character is an ASCII letter or digit.
pub open spec fn is_plain_char(c: char) -> bool {
    is_segment_char(c) && c != '%'
}

/// An id of ASCII letters and digits is its own encoding.
pub proof fn law_plain_id_is_unchanged(id: Seq<char>)
    requires
        forall|i: int| 0 <= i < id.len() ==> is_plain_char(#[trigger] id[i]),
    ensures
        encoded_id(id) == id,
{
    assert(is_ascii_chars(id)) by {
        assert forall|i: int| 0 <= i < id.len() implies 0 <= #[trigger] id[i] < 128 by {
            assert(is_plain_char(id[i]));
        }
    }
    is_ascii_chars_encode_utf8(id);
    let bytes = encode_utf8(id);
    assert forall|i: int| 0 <= i < bytes.len() implies is_alphanumeric(#[trigger] bytes[i]) && bytes[i] as char
        == id[i] by {
        assert(is_plain_char(id[i]));
    }
    lemma_plain_bytes(bytes);
    assert(percent_encoded(bytes) =~= id);
}

proof fn lemma_plain_bytes(bytes: Seq<u8>)
    requires
        forall|i: int| 0 <= i < bytes.len() ==> is_alphanumeric(#[trigger] bytes[i]),
    ensures
        percent_encoded(bytes) == bytes.map_values(|byte: u8| byte as char),
    decreases bytes.len(),
{
    if bytes.len() > 0 {
        lemma_plain_bytes(bytes.drop_first());
    }
    assert(percent_encoded(bytes) =~= bytes.map_values(|byte: u8| byte as char));
}

proof fn lemma_percent_encoded_push(bytes: Seq<u8>, byte: u8)
    ensures
        percent_encoded(bytes.push(byte)) == percent_encoded(bytes) + encoded_byte(byte),
    decreases bytes.len(),
{
    let longer = bytes.push(byte);
    if bytes.len() == 0 {
        assert(longer.drop_first() =~= Seq::<u8>::empty());
        assert(percent_encoded(longer.drop_first()) =~= Seq::<char>::empty());
        assert(percent_encoded(longer) =~= encoded_byte(byte));
        assert(percent_encoded(bytes) + encoded_byte(byte) =~= encoded_byte(byte));
    } else {
        lemma_percent_encoded_push(bytes.drop_first(), byte);
        assert(longer.drop_first() =~= bytes.drop_first().push(byte));
        assert(percent_encoded(longer) =~= percent_encoded(bytes) + encoded_byte(byte));
    }
}

/// An id is encoded byte by byte of its UTF-8 form. Each byte adds itself if it is an ASCII
/// letter or digit, and else a percent sign and its two digits in upper-case hexadecimal.
pub proof fn law_ids_are_encoded_byte_by_byte(id: Seq<char>, bytes: Seq<u8>, byte: u8)
    ensures
        encoded_id(id) == percent_encoded(encode_utf8(id)),
        percent_encoded(Seq::empty()).len() == 0,
        percent_encoded(bytes.push(byte)) == percent_encoded(bytes) + (if '0' as u8 <= byte <= '9' as u8 || 'A' as u8
            <= byte <= 'Z' as u8 || 'a' as u8 <= byte <= 'z' as u8 {
            seq![byte as char]
        } else {
            seq!['%', "0123456789ABCDEF"@[byte as int / 16], "0123456789ABCDEF"@[byte as int % 16]]
        }),
{
    lemma_percent_encoded_push(bytes, byte);
    reveal_strlit("0123456789ABCDEF");
    assert(0 <= byte as int / 16 < 16);
    assert(0 <= byte as int % 16 < 16);
    assert('0' as u8 == 0x30 && '9' as u8 == 0x39 && 'A' as u8 == 0x41 && 'Z' as u8 == 0x5a && 'a' as u8 == 0x61 && 'z'
        as u8 == 0x7a);
}

/// Different ids have different encodings.
pub proof fn law_encoded_id_injective(a: Seq<char>, b: Seq<char>)
    requires
        encoded_id(a) == encoded_id(b),
    ensures
        a == b,
{
    lemma_percent_encoded_injective(encode_utf8(a), encode_utf8(b));
    encode_utf8_decode_utf8(a);
    encode_utf8_decode_utf8(b);
}

} // verus!
