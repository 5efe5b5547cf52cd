use vstd::prelude::*;
use vstd::utf8::{encode_utf8, is_ascii_chars, is_ascii_chars_encode_utf8};

verus! {

pub open spec fn is_alnum(b: u8) -> bool {
    (48 <= b && b <= 57) || (65 <= b && b <= 90) || (97 <= b && b <= 122)
}

/// The upper-case hexadecimal digit for `n < 16`.
pub open spec fn hex_digit(n: u8) -> char {
    if n < 10 {
        ((n + 48) as u8) as char
    } else {
        ((n + 55) as u8) as char
    }
}

/// One byte percent-encoded under the set of every byte but ASCII letters and digits.
pub open spec fn encode_byte(b: u8) -> Seq<char> {
    if is_alnum(b) {
        seq![b as char]
    } else {
        seq!['%', hex_digit(b / 16), hex_digit(b % 16)]
    }
}

/// `b` percent-encoded: letters and digits kept, every other byte written `%XX`.
pub open spec fn percent_encoded(b: Seq<u8>) -> Seq<char>
    decreases b.len(),
{
    if b.len() == 0 {
        Seq::empty()
    } else {
        encode_byte(b[0]) + percent_encoded(b.drop_first())
    }
}

/// The value of a hexadecimal digit of either case.
pub open spec fn hex_value(b: u8) -> Option<u8> {
    if 48 <= b && b <= 57 {
        Some((b - 48) as u8)
    } else if 65 <= b && b <= 70 {
        Some((b - 55) as u8)
    } else if 97 <= b && b <= 102 {
        Some((b - 87) as u8)
    } else {
        None
    }
}

/// `b` percent-decoded: each `%` followed by two hexadecimal digits becomes the
/// byte they spell; every other byte, a lone `%` included, stays.
pub open spec fn percent_decoded(b: Seq<u8>) -> Seq<u8>
    decreases b.len(),
{
    if b.len() == 0 {
        Seq::empty()
    } else if b.len() >= 3 && b[0] == 37 && hex_value(b[1]) is Some && hex_value(b[2]) is Some {
        seq![(hex_value(b[1])->0 * 16 + hex_value(b[2])->0) as u8] + percent_decoded(
            b.subrange(3, b.len() as int),
        )
    } else {
        seq![b[0]] + percent_decoded(b.drop_first())
    }
}

/// The bytes of a text of ASCII characters.
pub open spec fn ascii_bytes(s: Seq<char>) -> Seq<u8> {
    s.map_values(|c: char| c as u8)
}

pub proof fn lemma_ascii_bytes_concat(a: Seq<char>, b: Seq<char>)
    ensures
        ascii_bytes(a + b) == ascii_bytes(a) + ascii_bytes(b),
{
    assert(ascii_bytes(a + b) =~= ascii_bytes(a) + ascii_bytes(b));
}

/// The UTF-8 bytes of ASCII text are its characters' codes.
pub proof fn lemma_ascii_utf8(s: Seq<char>)
    requires
        is_ascii_chars(s),
    ensures
        encode_utf8(s) == ascii_bytes(s),
{
    is_ascii_chars_encode_utf8(s);
    assert(encode_utf8(s) =~= ascii_bytes(s));
}

proof fn lemma_hex_digit(n: u8)
    requires
        n < 16,
    ensures
        hex_value(hex_digit(n) as u8) == Some(n),
        (hex_digit(n) as u32) < 128,
        hex_digit(n) != '%',
{
    if n < 10 {
        assert(((n + 48) as u8) as char as u8 == (n + 48) as u8);
    } else {
        assert(((n + 55) as u8) as char as u8 == (n + 55) as u8);
    }
}

/// Percent-encoded text is ASCII.
pub proof fn lemma_percent_encoded_ascii(b: Seq<u8>)
    ensures
        is_ascii_chars(percent_encoded(b)),
    decreases b.len(),
{
    if b.len() > 0 {
        lemma_percent_encoded_ascii(b.drop_first());
        let h = encode_byte(b[0]);
        if !is_alnum(b[0]) {
            lemma_hex_digit(b[0] / 16);
            lemma_hex_digit(b[0] % 16);
        }
        assert(is_ascii_chars(h));
        let t = percent_encoded(b.drop_first());
        assert forall|i: int| 0 <= i < (h + t).len() implies '\0' <= #[trigger] (h + t)[i]
            <= '\u{7f}' by {
            if i >= h.len() {
                assert((h + t)[i] == t[i - h.len()]);
            }
        }
    }
}

/// Percent-decoding undoes percent-encoding.
pub proof fn lemma_percent_round_trip(b: Seq<u8>)
    ensures
        percent_decoded(ascii_bytes(percent_encoded(b))) == b,
    decreases b.len(),
{
    if b.len() > 0 {
        let h = encode_byte(b[0]);
        let t = percent_encoded(b.drop_first());
        lemma_ascii_bytes_concat(h, t);
        lemma_percent_round_trip(b.drop_first());
        let s = ascii_bytes(h + t);
        if is_alnum(b[0]) {
            assert(s[0] == b[0]);
            assert(s.drop_first() =~= ascii_bytes(t));
            assert(seq![b[0]] + b.drop_first() =~= b);
        } else {
            let hi = b[0] / 16;
            let lo = b[0] % 16;
            lemma_hex_digit(hi);
            lemma_hex_digit(lo);
            assert(s[0] == 37);
            assert(s[1] == hex_digit(hi) as u8);
            assert(s[2] == hex_digit(lo) as u8);
            assert(s.subrange(3, s.len() as int) =~= ascii_bytes(t));
            assert((hi * 16 + lo) as u8 == b[0]);
            assert(seq![b[0]] + b.drop_first() =~= b);
        }
    }
}

/// Bytes without `%` percent-decode to themselves.
pub proof fn lemma_percent_decoded_plain(b: Seq<u8>)
    requires
        forall|i: int| 0 <= i < b.len() ==> b[i] != 37,
    ensures
        percent_decoded(b) == b,
    decreases b.len(),
{
    if b.len() > 0 {
        lemma_percent_decoded_plain(b.drop_first());
        assert(seq![b[0]] + b.drop_first() =~= b);
    }
}

/// Bytes that are all ASCII letters and digits percent-encode to themselves.
pub proof fn lemma_percent_encoded_alnum(b: Seq<u8>)
    requires
        forall|i: int| 0 <= i < b.len() ==> is_alnum(#[trigger] b[i]),
    ensures
        ascii_bytes(percent_encoded(b)) == b,
        percent_encoded(b) == b.map_values(|x: u8| x as char),
    decreases b.len(),
{
    if b.len() > 0 {
        lemma_percent_encoded_alnum(b.drop_first());
        let t = percent_encoded(b.drop_first());
        lemma_ascii_bytes_concat(seq![b[0] as char], t);
        assert(ascii_bytes(seq![b[0] as char]) =~= seq![b[0]]);
        assert(seq![b[0]] + b.drop_first() =~= b);
        assert(seq![b[0] as char] + t =~= b.map_values(|x: u8| x as char));
    }
}

} // verus!
