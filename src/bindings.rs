use vstd::prelude::*;
use crate::percent::{ascii_bytes, percent_decoded, percent_encoded};
use vstd::utf8::{decode_utf8, encode_utf8, is_ascii_chars, valid_utf8};

verus! {

/// What `url::Url::parse` makes of a text: `None` where it refuses it, else the
/// path, the query and the fragment of the URL it reads.
pub uninterp spec fn url_components(s: Seq<char>) -> Option<
    (Seq<char>, Option<Seq<char>>, Option<Seq<char>>),
>;

/// The canonical name of the encoding that a charset label designates, as
/// `encoding_rs::Encoding::for_label_no_replacement` resolves labels.
pub uninterp spec fn label_charset(label: Seq<char>) -> Option<Seq<char>>;

/// The bytes of `text` in the encoding that `label` designates, as
/// `encoding_rs::Encoding::encode` writes them.
pub uninterp spec fn charset_encoded(label: Seq<char>, text: Seq<char>) -> Option<Seq<u8>>;

/// The text that `bytes` hold in the encoding that `label` designates, as
/// `encoding_rs::Encoding::decode` reads them.
pub uninterp spec fn charset_decoded(label: Seq<char>, bytes: Seq<u8>) -> Option<Seq<char>>;

/// The padded base64 text of `b` in the standard alphabet.
pub uninterp spec fn base64_text(b: Seq<u8>) -> Seq<char>;

/// The bytes that a base64 text in the standard alphabet spells, or `None`
/// where it is not canonical padded base64.
pub uninterp spec fn base64_bytes(s: Seq<u8>) -> Option<Seq<u8>>;

/// `b` read as UTF-8, each invalid sequence replaced by U+FFFD.
pub uninterp spec fn utf8_lossy(b: Seq<u8>) -> Seq<char>;

/// `s` in Unicode lower case, as `str::to_lowercase` gives it.
pub uninterp spec fn unicode_lower(s: Seq<char>) -> Seq<char>;

/// The view of an optional string.
pub open spec fn opt_text(o: Option<String>) -> Option<Seq<char>> {
    match o {
        Some(t) => Some(t@),
        None => None,
    }
}

/// The view of an optional byte vector.
pub open spec fn opt_bytes(o: Option<Vec<u8>>) -> Option<Seq<u8>> {
    match o {
        Some(v) => Some(v@),
        None => None,
    }
}

pub open spec fn utf8_name() -> Seq<char> {
    seq!['U', 'T', 'F', '-', '8']
}

pub open spec fn us_ascii_name() -> Seq<char> {
    seq!['U', 'S', '-', 'A', 'S', 'C', 'I', 'I']
}

pub open spec fn windows_1252_name() -> Seq<char> {
    seq!['w', 'i', 'n', 'd', 'o', 'w', 's', '-', '1', '2', '5', '2']
}

pub open spec fn iso_2022_jp_name() -> Seq<char> {
    seq!['I', 'S', 'O', '-', '2', '0', '2', '2', '-', 'J', 'P']
}

pub open spec fn is_base64_char(c: char) -> bool {
    ('A' <= c && c <= 'Z') || ('a' <= c && c <= 'z') || ('0' <= c && c <= '9') || c == '+'
        || c == '/' || c == '='
}

/// Relies on `url::Url::parse` to split a text into the components of a URL,
/// and on `Url::path`, `Url::query` and `Url::fragment` to read them.
#[verifier::external_body]
pub(crate) fn split_url(input: &str) -> (r: Option<(String, Option<String>, Option<String>)>)
    ensures
        r matches Some(p) ==> url_components(input@) == Some(
            (p.0@, opt_text(p.1), opt_text(p.2)),
        ),
        r is None ==> url_components(input@) is None,
{
    match url::Url::parse(input) {
        Ok(u) => Some(
            (u.path().to_string(), u.query().map(str::to_string), u.fragment().map(str::to_string)),
        ),
        Err(_) => None,
    }
}

/// Relies on `percent_encoding::percent_decode_str`: `%` and two hexadecimal
/// digits become one byte, all other bytes are kept.
#[verifier::external_body]
pub(crate) fn percent_decode(s: &str) -> (r: Vec<u8>)
    ensures
        r@ == percent_decoded(encode_utf8(s@)),
{
    percent_encoding::percent_decode_str(s).collect()
}

/// Relies on `percent_encoding::percent_encode` with `NON_ALPHANUMERIC`: ASCII
/// letters and digits are kept, every other byte is written `%XX`.
#[verifier::external_body]
pub(crate) fn percent_encode_bytes(b: &[u8]) -> (r: String)
    ensures
        r@ == percent_encoded(b@),
{
    percent_encoding::percent_encode(b, percent_encoding::NON_ALPHANUMERIC).to_string()
}

/// Relies on `percent_encoding::utf8_percent_encode` with `NON_ALPHANUMERIC`: the
/// UTF-8 bytes of `s`, encoded as `percent_encode` does.
#[verifier::external_body]
pub(crate) fn percent_encode_text(s: &str) -> (r: String)
    ensures
        r@ == percent_encoded(encode_utf8(s@)),
{
    percent_encoding::utf8_percent_encode(s, percent_encoding::NON_ALPHANUMERIC).to_string()
}

/// Relies on `base64::Engine::encode` with the `STANDARD` engine: padded output,
/// four characters of the standard alphabet for every three bytes begun. (The
/// size computation it checks cannot overflow for a slice, which holds at most
/// `isize::MAX` bytes.)
#[verifier::external_body]
pub(crate) fn base64_encode(b: &[u8]) -> (r: String)
    ensures
        r@ == base64_text(b@),
        r@.len() == (b@.len() + 2) / 3 * 4,
        forall|i: int| 0 <= i < r@.len() ==> is_base64_char(#[trigger] r@[i]),
{
    base64::Engine::encode(&base64::engine::general_purpose::STANDARD, b)
}

/// Relies on `base64::Engine::decode` with the `STANDARD` engine, which requires
/// canonical padding: the error becomes `None`, and the text that `encode`
/// writes for some bytes decodes to those bytes.
#[verifier::external_body]
pub(crate) fn base64_decode(s: &[u8]) -> (r: Option<Vec<u8>>)
    ensures
        opt_bytes(r) == base64_bytes(s@),
        forall|b: Seq<u8>| s@ == ascii_bytes(#[trigger] base64_text(b)) ==> opt_bytes(r) == Some(b),
{
    base64::Engine::decode(&base64::engine::general_purpose::STANDARD, s).ok()
}

/// Relies on `encoding_rs::Encoding::for_label_no_replacement` to resolve a
/// charset label, and on `Encoding::name` for the canonical name. Labels are
/// matched without regard to ASCII case: `utf-8` names UTF-8 and `us-ascii`
/// names windows-1252 in its label table, and every canonical name is also a
/// label of its own encoding.
#[verifier::external_body]
pub(crate) fn lookup_charset(label: &str) -> (r: Option<String>)
    ensures
        opt_text(r) == label_charset(label@),
        r matches Some(n) ==> label_charset(n@) == Some(n@),
        label@ == utf8_name() ==> opt_text(r) == Some(utf8_name()),
        label@ == us_ascii_name() ==> opt_text(r) == Some(windows_1252_name()),
{
    match encoding_rs::Encoding::for_label_no_replacement(label.as_bytes()) {
        Some(e) => Some(e.name().to_string()),
        None => None,
    }
}

/// Relies on `encoding_rs::Encoding::encode`, reached through the encoding that
/// `for_label_no_replacement` resolves `label` to. UTF-8 output is the text's
/// own bytes, and so is the output of any encoding but ISO-2022-JP for ASCII
/// text; the labels `UTF-8` and `US-ASCII` name UTF-8 and windows-1252.
#[verifier::external_body]
pub(crate) fn encode_in_charset(label: &str, text: &str) -> (r: Option<Vec<u8>>)
    ensures
        opt_bytes(r) == charset_encoded(label@, text@),
        r is Some <==> label_charset(label@) is Some,
        label_charset(label@) == Some(utf8_name()) ==> opt_bytes(r) == Some(encode_utf8(text@)),
        label_charset(label@) is Some && label_charset(label@) != Some(iso_2022_jp_name())
            && is_ascii_chars(text@) ==> opt_bytes(r) == Some(encode_utf8(text@)),
        label@ == utf8_name() ==> opt_bytes(r) == Some(encode_utf8(text@)),
        label@ == us_ascii_name() && is_ascii_chars(text@) ==> opt_bytes(r) == Some(
            encode_utf8(text@),
        ),
{
    match encoding_rs::Encoding::for_label_no_replacement(label.as_bytes()) {
        Some(e) => Some(e.encode(text).0.into_owned()),
        None => None,
    }
}

/// Relies on `encoding_rs::Encoding::decode`, reached through the encoding that
/// `for_label_no_replacement` resolves `label` to.
#[verifier::external_body]
pub(crate) fn decode_in_charset(label: &str, bytes: &[u8]) -> (r: Option<String>)
    ensures
        opt_text(r) == charset_decoded(label@, bytes@),
{
    match encoding_rs::Encoding::for_label_no_replacement(label.as_bytes()) {
        Some(e) => Some(e.decode(bytes).0.into_owned()),
        None => None,
    }
}

/// Relies on `String::from_utf8_lossy`: valid UTF-8 is read as it stands.
#[verifier::external_body]
pub(crate) fn utf8_lossy_text(b: &[u8]) -> (r: String)
    ensures
        r@ == utf8_lossy(b@),
        valid_utf8(b@) ==> r@ == decode_utf8(b@),
{
    String::from_utf8_lossy(b).into_owned()
}

/// Relies on `str::to_lowercase`: the result depends on the characters alone.
#[verifier::external_body]
pub(crate) fn to_lowercase(s: &str) -> (r: String)
    ensures
        r@ == unicode_lower(s@),
{
    s.to_lowercase()
}

/// Relies on `String`'s `FromIterator<char>`: the characters in order.
#[verifier::external_body]
pub(crate) fn string_from_chars(v: &Vec<char>) -> (r: String)
    ensures
        r@ == v@,
{
    v.iter().collect()
}

} // verus!
