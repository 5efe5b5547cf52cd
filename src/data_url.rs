use vstd::prelude::*;
use vstd::string::StringExecFns;
use vstd::utf8::{decode_utf8_encode_utf8, encode_utf8, is_ascii_chars, valid_utf8};
use crate::bindings::{
    base64_bytes, base64_decode, base64_encode, base64_text, charset_decoded, charset_encoded,
    decode_in_charset, encode_in_charset, label_charset, lookup_charset, opt_bytes, opt_text,
    percent_decode, percent_encode_bytes, percent_encode_text, split_url, string_from_chars,
    url_components, us_ascii_name, utf8_lossy, utf8_lossy_text, utf8_name, windows_1252_name,
};
use crate::chars::{chars_equal, chars_of, find_char, find_from, sub_chars};
use crate::media_type::{is_binary_media_type, is_textual, normalize_media_type, normalized_media_type};
use crate::meta_data::{parse_data_url_meta_data, parse_meta};
use crate::percent::{percent_decoded, percent_encoded};

verus! {

/// A `data:` URL: media type, charset, base64 flag, payload bytes and fragment.
pub struct DataUrl {
    media_type: Option<String>,
    charset: Option<String>,
    is_base64_encoded: bool,
    data: Vec<u8>,
    fragment: Option<String>,
}

/// Why a text could not be read as a data URL.
#[derive(Debug, Clone, Copy, PartialEq, Eq, Structural)]
pub enum DataUrlParseError {
    /// The generic URL grammar refuses the text.
    UrlParseError,
    /// No comma separates the meta-data from the payload.
    MalformedDataUrlError,
    /// The payload is flagged base64 but is not valid base64.
    Base64DecodeError,
}

/// The mathematical content of a `DataUrl`.
pub struct DataUrlView {
    pub media_type: Option<Seq<char>>,
    pub charset: Option<Seq<char>>,
    pub is_base64_encoded: bool,
    pub data: Seq<u8>,
    pub fragment: Option<Seq<char>>,
}

impl View for DataUrl {
    type V = DataUrlView;

    closed spec fn view(&self) -> DataUrlView {
        DataUrlView {
            media_type: opt_text(self.media_type),
            charset: opt_text(self.charset),
            is_base64_encoded: self.is_base64_encoded,
            data: self.data@,
            fragment: opt_text(self.fragment),
        }
    }
}

pub open spec fn default_media_type() -> Seq<char> {
    seq!['t', 'e', 'x', 't', '/', 'p', 'l', 'a', 'i', 'n']
}

/// Whether `c` is a canonical charset name, which resolves to itself.
pub open spec fn is_charset_name(c: Seq<char>) -> bool {
    label_charset(c) == Some(c)
}

impl DataUrlView {
    /// A media type, when set, is already trimmed, lower-cased and of the shape
    /// `type/subtype`; a charset, when set, is a canonical name.
    pub open spec fn wf(self) -> bool {
        &&& (self.media_type matches Some(m) ==> normalize_media_type(m) == Some(m))
        &&& (self.charset matches Some(c) ==> is_charset_name(c))
    }

    pub open spec fn media_type_or_default(self) -> Seq<char> {
        match self.media_type {
            Some(m) => m,
            None => default_media_type(),
        }
    }

    pub open spec fn charset_or_default(self) -> Seq<char> {
        match self.charset {
            Some(c) => c,
            None => us_ascii_name(),
        }
    }

    /// The payload read as text in the charset in effect, or empty where the
    /// charset cannot be resolved.
    pub open spec fn text(self) -> Seq<char> {
        match charset_decoded(self.charset_or_default(), self.data) {
            Some(t) => t,
            None => Seq::empty(),
        }
    }
}

/// The empty data URL: no media type, charset or fragment, no payload.
pub open spec fn empty_view() -> DataUrlView {
    DataUrlView {
        media_type: None,
        charset: None,
        is_base64_encoded: false,
        data: Seq::empty(),
        fragment: None,
    }
}

/// The media type that `set_media_type(new)` leaves.
pub open spec fn media_type_after(new: Option<Seq<char>>) -> Option<Seq<char>> {
    match new {
        Some(s) => normalize_media_type(s),
        None => None,
    }
}

/// What `set_media_type(new)` reports: unset, or accepted.
pub open spec fn media_type_accepted(new: Option<Seq<char>>) -> bool {
    match new {
        Some(s) => normalize_media_type(s) is Some,
        None => true,
    }
}

/// The charset that `set_charset(new)` leaves.
pub open spec fn charset_after(new: Option<Seq<char>>) -> Option<Seq<char>> {
    match new {
        Some(label) => label_charset(label),
        None => None,
    }
}

/// What `set_charset(new)` reports: unset, or resolved.
pub open spec fn charset_accepted(new: Option<Seq<char>>) -> bool {
    match new {
        Some(label) => label_charset(label) is Some,
        None => true,
    }
}

/// Payload bytes as they appear in a URL: base64 text, or percent-encoded.
pub open spec fn render(b: Seq<u8>, base64: bool) -> Seq<char> {
    if base64 {
        base64_text(b)
    } else {
        percent_encoded(b)
    }
}

/// The charset label a textual payload is written in: the one set, else
/// `US-ASCII` for ASCII text and `UTF-8` for any other.
pub open spec fn output_label(x: DataUrlView, text: Seq<char>) -> Seq<char> {
    match x.charset {
        Some(c) => c,
        None => if is_ascii_chars(text) {
            us_ascii_name()
        } else {
            utf8_name()
        },
    }
}

/// Whether the payload is textual, valid UTF-8, and its charset unset or
/// UTF-8: then serialization writes the payload bytes as they are.
pub open spec fn is_plain_utf8_text(x: DataUrlView) -> bool {
    &&& !is_binary_media_type(x.media_type)
    &&& valid_utf8(x.data)
    &&& (x.charset is None || x.charset == Some(utf8_name()))
}

/// The payload as serialized: empty for no bytes; binary bytes as they are;
/// textual bytes read as UTF-8 (lossily) and re-encoded in the output charset.
pub open spec fn payload_text(x: DataUrlView) -> Seq<char> {
    if x.data.len() == 0 {
        Seq::empty()
    } else if is_binary_media_type(x.media_type) {
        render(x.data, x.is_base64_encoded)
    } else {
        let text = utf8_lossy(x.data);
        match charset_encoded(output_label(x, text), text) {
            Some(e) => render(e, x.is_base64_encoded),
            None => Seq::empty(),
        }
    }
}

pub open spec fn charset_param_text() -> Seq<char> {
    seq![';', 'c', 'h', 'a', 'r', 's', 'e', 't', '=']
}

pub open spec fn base64_param_text() -> Seq<char> {
    seq![';', 'b', 'a', 's', 'e', '6', '4']
}

pub open spec fn scheme_text() -> Seq<char> {
    seq!['d', 'a', 't', 'a', ':']
}

/// The meta-data as serialized: media type, `;charset=` unless the charset is
/// unset or the default's canonical name, and `;base64` when flagged.
pub open spec fn meta_text(x: DataUrlView) -> Seq<char> {
    let mt = match x.media_type {
        Some(m) => m,
        None => Seq::empty(),
    };
    let cs = match x.charset {
        Some(c) => if c == windows_1252_name() {
            Seq::empty()
        } else {
            charset_param_text() + c
        },
        None => Seq::empty(),
    };
    let b = if x.is_base64_encoded {
        base64_param_text()
    } else {
        Seq::empty()
    };
    mt + cs + b
}

/// The text after `data:` and before any `#`.
pub open spec fn serialized_path(x: DataUrlView) -> Seq<char> {
    meta_text(x) + seq![','] + payload_text(x)
}

/// The fragment as serialized: percent-encoded UTF-8.
pub open spec fn fragment_text(f: Seq<char>) -> Seq<char> {
    percent_encoded(encode_utf8(f))
}

/// The text after the `#`, if any.
pub open spec fn serialized_fragment(x: DataUrlView) -> Option<Seq<char>> {
    match x.fragment {
        Some(f) => Some(fragment_text(f)),
        None => None,
    }
}

/// The text of a data URL around a given serialized payload.
pub open spec fn serialize_around(x: DataUrlView, payload: Seq<char>) -> Seq<char> {
    scheme_text() + meta_text(x) + seq![','] + payload + match serialized_fragment(x) {
        Some(f) => seq!['#'] + f,
        None => Seq::empty(),
    }
}

/// The canonical text of a data URL.
pub open spec fn serialize(x: DataUrlView) -> Seq<char> {
    serialize_around(x, payload_text(x))
}

/// The bytes of the payload before any base64 decoding: the percent-decoded
/// text after the first comma, then `?` and the percent-decoded query if any.
pub open spec fn raw_payload(path: Seq<char>, query: Option<Seq<char>>) -> Seq<u8> {
    let k = find_from(path, ',', 0);
    let body = percent_decoded(encode_utf8(path.subrange(k + 1, path.len() as int)));
    match query {
        Some(q) => body + seq![63u8] + percent_decoded(encode_utf8(q)),
        None => body,
    }
}

/// The data URL that the path, query and fragment of a URL describe.
pub open spec fn decode_components(
    path: Seq<char>,
    query: Option<Seq<char>>,
    fragment: Option<Seq<char>>,
) -> Result<DataUrlView, DataUrlParseError> {
    let k = find_from(path, ',', 0);
    if k == path.len() {
        Err(DataUrlParseError::MalformedDataUrlError)
    } else {
        let meta = parse_meta(path.subrange(0, k));
        let raw = raw_payload(path, query);
        let data = if meta.base64 {
            base64_bytes(raw)
        } else {
            Some(raw)
        };
        match data {
            Some(d) => Ok(
                DataUrlView {
                    media_type: meta.media_type,
                    charset: meta.charset,
                    is_base64_encoded: meta.base64,
                    data: d,
                    fragment,
                },
            ),
            None => Err(DataUrlParseError::Base64DecodeError),
        }
    }
}

/// The data URL that a text describes.
pub open spec fn parse_text(s: Seq<char>) -> Result<DataUrlView, DataUrlParseError> {
    match url_components(s) {
        Some(c) => decode_components(c.0, c.1, c.2),
        None => Err(DataUrlParseError::UrlParseError),
    }
}

/// The view of a parse result.
pub open spec fn result_view(r: Result<DataUrl, DataUrlParseError>) -> Result<
    DataUrlView,
    DataUrlParseError,
> {
    match r {
        Ok(u) => Ok(u@),
        Err(e) => Err(e),
    }
}

/// `b` as base64 text or percent-encoded.
fn render_bytes(b: &[u8], base64: bool) -> (r: String)
    ensures
        r@ == render(b@, base64),
{
    if base64 {
        base64_encode(b)
    } else {
        percent_encode_bytes(b)
    }
}

fn same_text(a: &str, b: &str) -> (r: bool)
    ensures
        r == (a@ == b@),
{
    let ca = chars_of(a);
    let cb = chars_of(b);
    chars_equal(&ca, &cb)
}

impl DataUrl {
    /// The empty data URL.
    pub fn new() -> (r: DataUrl)
        ensures
            r@ == empty_view(),
            r@.wf(),
    {
        DataUrl {
            media_type: None,
            charset: None,
            is_base64_encoded: false,
            data: Vec::new(),
            fragment: None,
        }
    }

    /// Reads a data URL from the path, query and fragment that a URL parser
    /// found in it.
    pub fn from_components(path: &str, query: Option<String>, fragment: Option<String>) -> (r:
        Result<DataUrl, DataUrlParseError>)
        ensures
            result_view(r) == decode_components(path@, opt_text(query), opt_text(fragment)),
            r matches Ok(u) ==> u@.wf(),
    {
        let chars = chars_of(path);
        let k = find_char(&chars, ',');
        if k == chars.len() {
            return Err(DataUrlParseError::MalformedDataUrlError);
        }
        let meta = sub_chars(&chars, 0, k);
        let (media_type, charset, is_base64_encoded) = parse_data_url_meta_data(&meta);
        let body_chars = sub_chars(&chars, k + 1, chars.len());
        let body = string_from_chars(&body_chars);
        let mut d = percent_decode(body.as_str());
        match &query {
            Some(q) => {
                let mut rest = percent_decode(q.as_str());
                d.push(63u8);
                d.append(&mut rest);
            },
            None => {},
        }
        assert(d@ == raw_payload(path@, opt_text(query)));
        let data = if is_base64_encoded {
            match base64_decode(d.as_slice()) {
                Some(decoded) => decoded,
                None => {
                    return Err(DataUrlParseError::Base64DecodeError);
                },
            }
        } else {
            d
        };
        let r = DataUrl { media_type, charset, is_base64_encoded, data, fragment };
        proof {
            crate::meta_data::lemma_parse_meta_wf(meta@);
        }
        Ok(r)
    }

    /// Reads a data URL from its text.
    pub fn parse(input_str: &str) -> (r: Result<DataUrl, DataUrlParseError>)
        ensures
            result_view(r) == parse_text(input_str@),
            r matches Ok(u) ==> u@.wf(),
    {
        match split_url(input_str) {
            Some((path, query, fragment)) => DataUrl::from_components(path.as_str(), query, fragment),
            None => Err(DataUrlParseError::UrlParseError),
        }
    }

    /// Whether the payload is opaque bytes rather than text.
    pub fn is_binary(&self) -> (r: bool)
        ensures
            r == is_binary_media_type(self@.media_type),
    {
        match &self.media_type {
            Some(mt) => {
                let m = chars_of(mt.as_str());
                !is_textual(&m)
            },
            None => false,
        }
    }

    /// The media type, `text/plain` when none is set.
    pub fn media_type(&self) -> (r: &str)
        ensures
            r@ == self@.media_type_or_default(),
    {
        match &self.media_type {
            Some(mt) => mt.as_str(),
            None => {
                let d = "text/plain";
                proof {
                    reveal_strlit("text/plain");
                }
                d
            },
        }
    }

    /// The media type as set.
    pub fn media_type_no_default(&self) -> (r: Option<String>)
        ensures
            opt_text(r) == self@.media_type,
    {
        self.media_type.clone()
    }

    /// Sets the media type, trimmed and lower-cased. `None` unsets it; a blank
    /// text or one not of the shape `type/subtype` unsets it too and is reported.
    pub fn set_media_type(&mut self, new_media_type: Option<String>) -> (r: bool)
        ensures
            r == media_type_accepted(opt_text(new_media_type)),
            final(self)@ == (DataUrlView {
                media_type: media_type_after(opt_text(new_media_type)),
                ..old(self)@
            }),
            old(self)@.wf() ==> final(self)@.wf(),
    {
        match &new_media_type {
            Some(mt) => {
                let c = chars_of(mt.as_str());
                let n = normalized_media_type(&c);
                proof {
                    if n is Some {
                        crate::media_type::lemma_normalize_idempotent(c@);
                    }
                }
                let ok = n.is_some();
                self.media_type = n;
                ok
            },
            None => {
                self.media_type = None;
                true
            },
        }
    }

    /// The charset, `US-ASCII` when none is set.
    pub fn charset(&self) -> (r: &str)
        ensures
            r@ == self@.charset_or_default(),
    {
        match &self.charset {
            Some(c) => c.as_str(),
            None => {
                let d = "US-ASCII";
                proof {
                    reveal_strlit("US-ASCII");
                }
                d
            },
        }
    }

    /// The charset as set.
    pub fn charset_no_default(&self) -> (r: Option<String>)
        ensures
            opt_text(r) == self@.charset,
    {
        self.charset.clone()
    }

    /// Sets the charset to the canonical name of a label. `None` unsets it; a
    /// label that names no charset unsets it too and is reported.
    pub fn set_charset(&mut self, new_charset: Option<String>) -> (r: bool)
        ensures
            r == charset_accepted(opt_text(new_charset)),
            final(self)@ == (DataUrlView { charset: charset_after(opt_text(new_charset)), ..old(self)@ }),
            old(self)@.wf() ==> final(self)@.wf(),
    {
        match &new_charset {
            Some(label) => {
                let c = lookup_charset(label.as_str());
                let ok = c.is_some();
                self.charset = c;
                ok
            },
            None => {
                self.charset = None;
                true
            },
        }
    }

    pub fn is_base64_encoded(&self) -> (r: bool)
        ensures
            r == self@.is_base64_encoded,
    {
        self.is_base64_encoded
    }

    pub fn set_is_base64_encoded(&mut self, new_is_base64_encoded: bool)
        ensures
            final(self)@ == (DataUrlView { is_base64_encoded: new_is_base64_encoded, ..old(self)@ }),
            old(self)@.wf() ==> final(self)@.wf(),
    {
        self.is_base64_encoded = new_is_base64_encoded;
    }

    /// The payload bytes.
    pub fn data(&self) -> (r: &[u8])
        ensures
            r@ == self@.data,
    {
        self.data.as_slice()
    }

    /// The payload read as text in the charset in effect.
    pub fn text(&self) -> (r: String)
        ensures
            r@ == self@.text(),
    {
        let label: &str = match &self.charset {
            Some(c) => c.as_str(),
            None => {
                let d = "US-ASCII";
                proof {
                    reveal_strlit("US-ASCII");
                }
                d
            },
        };
        assert(label@ == self@.charset_or_default());
        let r = decode_in_charset(label, self.data.as_slice());
        assert(opt_text(r) == charset_decoded(self@.charset_or_default(), self@.data));
        match r {
            Some(t) => t,
            None => String::new(),
        }
    }

    pub fn set_data(&mut self, new_data: &[u8])
        ensures
            final(self)@ == (DataUrlView { data: new_data@, ..old(self)@ }),
            old(self)@.wf() ==> final(self)@.wf(),
    {
        self.data = vstd::slice::slice_to_vec(new_data);
    }

    /// The fragment, `None` where the URL has no `#`.
    pub fn fragment(&self) -> (r: Option<String>)
        ensures
            opt_text(r) == self@.fragment,
    {
        self.fragment.clone()
    }

    pub fn set_fragment(&mut self, new_fragment: Option<String>)
        ensures
            final(self)@ == (DataUrlView { fragment: opt_text(new_fragment), ..old(self)@ }),
            old(self)@.wf() ==> final(self)@.wf(),
    {
        self.fragment = new_fragment;
    }

    /// The payload as serialized (see `payload_text`).
    fn payload(&self) -> (r: String)
        ensures
            r@ == payload_text(self@),
            is_plain_utf8_text(self@) && self@.data.len() > 0 ==> payload_text(self@) == render(
                self@.data,
                self@.is_base64_encoded,
            ),
    {
        if self.data.len() == 0 {
            return String::new();
        }
        if self.is_binary() {
            return render_bytes(self.data.as_slice(), self.is_base64_encoded);
        }
        let text = utf8_lossy_text(self.data.as_slice());
        let label: &str = match &self.charset {
            Some(c) => c.as_str(),
            None => if text.is_ascii() {
                let d = "US-ASCII";
                proof {
                    reveal_strlit("US-ASCII");
                }
                d
            } else {
                let d = "UTF-8";
                proof {
                    reveal_strlit("UTF-8");
                }
                d
            },
        };
        assert(label@ == output_label(self@, text@));
        let e = encode_in_charset(label, text.as_str());
        assert(opt_bytes(e) == charset_encoded(output_label(self@, text@), text@));
        proof {
            if is_plain_utf8_text(self@) {
                decode_utf8_encode_utf8(self@.data);
                if self@.charset is Some {
                    assert(label@ == utf8_name());
                }
                assert(opt_bytes(e) == Some(self@.data));
            }
        }
        match e {
            Some(e) => render_bytes(e.as_slice(), self.is_base64_encoded),
            None => String::new(),
        }
    }

    /// The text of this data URL with `payload` standing for its serialized
    /// payload: meta-data, comma, payload and percent-encoded fragment.
    pub fn serialize_with_payload(&self, payload: &str) -> (r: String)
        ensures
            r@ == serialize_around(self@, payload@),
    {
        let mut result = String::from_str("data:");
        proof {
            reveal_strlit("data:");
            reveal_strlit("windows-1252");
            reveal_strlit(";charset=");
            reveal_strlit(";base64");
            reveal_strlit(",");
            reveal_strlit("#");
        }
        assert("windows-1252"@ =~= windows_1252_name());
        assert(";charset="@ =~= charset_param_text());
        assert(";base64"@ =~= base64_param_text());
        let ghost mt = match self@.media_type {
            Some(m) => m,
            None => Seq::<char>::empty(),
        };
        match &self.media_type {
            Some(m) => result.append(m.as_str()),
            None => {},
        }
        assert(result@ =~= scheme_text() + mt);
        let ghost before_charset = result@;
        let ghost cs = match self@.charset {
            Some(c) => if c == windows_1252_name() {
                Seq::<char>::empty()
            } else {
                charset_param_text() + c
            },
            None => Seq::<char>::empty(),
        };
        let ghost fl = if self@.is_base64_encoded {
            base64_param_text()
        } else {
            Seq::<char>::empty()
        };
        match &self.charset {
            Some(c) => {
                if !same_text(c.as_str(), "windows-1252") {
                    result.append(";charset=");
                    result.append(c.as_str());
                    assert(result@ =~= before_charset + (charset_param_text() + c@));
                } else {
                    assert(c@ == windows_1252_name());
                }
            },
            None => {},
        }
        let ghost before_flag = result@;
        if self.is_base64_encoded {
            result.append(";base64");
            assert(result@ =~= before_flag + base64_param_text());
        }
        assert(before_charset == scheme_text() + mt);
        assert(before_flag =~= scheme_text() + mt + cs);
        assert(result@ =~= scheme_text() + mt + cs + fl);
        assert(meta_text(self@) == mt + cs + fl);
        assert(scheme_text() + (mt + cs + fl) =~= scheme_text() + mt + cs + fl);
        result.append(",");
        assert(result@ == scheme_text() + meta_text(self@) + seq![',']);
        result.append(payload);
        assert(result@ == scheme_text() + meta_text(self@) + seq![','] + payload@);
        match &self.fragment {
            Some(f) => {
                result.append("#");
                let e = percent_encode_text(f.as_str());
                result.append(e.as_str());
            },
            None => {},
        }
        assert(result@ =~= serialize_around(self@, payload@));
        result
    }

    /// The canonical text of this data URL. Valid UTF-8 text with no charset
    /// or UTF-8 is written as its own bytes.
    pub fn to_string(&self) -> (r: String)
        ensures
            r@ == serialize(self@),
            is_plain_utf8_text(self@) && self@.data.len() > 0 ==> payload_text(self@) == render(
                self@.data,
                self@.is_base64_encoded,
            ),
    {
        let p = self.payload();
        self.serialize_with_payload(p.as_str())
    }
}

} // verus!
