use vstd::prelude::*;
use crate::bindings::{opt_text, string_from_chars, to_lowercase, unicode_lower};
use crate::chars::{
    lemma_lower_count_slash, lemma_lower_idempotent, lemma_trim_ends, lemma_trim_fixed, lower_char,
    ascii_lower, chars_equal, chars_of, count_char, count_of, eq_ignore_case, equals_ignore_case, find_char,
    find_from, lowered, sub_chars, trim, trimmed,
};

verus! {

/// `type/subtype`: exactly one `/`, with text on both sides of it.
pub open spec fn valid_media_type(t: Seq<char>) -> bool {
    &&& t.len() > 0
    &&& count_char(t, '/') == 1
    &&& t[0] != '/'
    &&& t[t.len() - 1] != '/'
}

/// The media type that a candidate text stands for once trimmed and
/// lower-cased, or `None` where it is blank or not of the shape `type/subtype`.
pub open spec fn normalize_media_type(s: Seq<char>) -> Option<Seq<char>> {
    let t = trim(s);
    if valid_media_type(t) {
        Some(ascii_lower(t))
    } else {
        None
    }
}

/// The part of a media type before its first `/`.
pub open spec fn top_level_type(m: Seq<char>) -> Seq<char> {
    m.subrange(0, find_from(m, '/', 0))
}

pub open spec fn text_type_name() -> Seq<char> {
    seq!['t', 'e', 'x', 't']
}

/// Structured-text media types whose payload is read as text.
pub open spec fn plaintext_media_types() -> Seq<Seq<char>> {
    seq![
        "application/atom+xml"@,
        "application/dart"@,
        "application/ecmascript"@,
        "application/javascript"@,
        "application/json"@,
        "application/jwt"@,
        "application/rdf+xml"@,
        "application/rss+xml"@,
        "application/soap+xml"@,
        "application/vnd.mozilla.xul+xml"@,
        "application/x-javascript"@,
        "application/x-yaml"@,
        "application/xhtml+xml"@,
        "application/xml"@,
        "application/xml-dtd"@,
        "application/xop+xml"@,
        "application/yaml"@,
        "image/svg+xml"@,
        "message/imdn+xml"@,
        "model/x3d+xml"@,
    ]
}

/// Whether payloads of media type `m` are text: its top-level type is `text`, or
/// it is one of the structured-text types, in either case up to ASCII case.
pub open spec fn is_textual_media_type(m: Seq<char>) -> bool {
    eq_ignore_case(top_level_type(m), text_type_name()) || exists|i: int|
        0 <= i < plaintext_media_types().len() && eq_ignore_case(
            m,
            #[trigger] plaintext_media_types()[i],
        )
}

/// Whether a payload is opaque bytes: a media type is set and it is not textual.
/// With none set the default `text/plain` applies, which is text.
pub open spec fn is_binary_media_type(mt: Option<Seq<char>>) -> bool {
    match mt {
        Some(m) => !is_textual_media_type(m),
        None => false,
    }
}

/// A normalized media type normalizes to itself.
pub proof fn lemma_normalize_idempotent(s: Seq<char>)
    requires
        normalize_media_type(s) is Some,
    ensures
        normalize_media_type(normalize_media_type(s)->0) == normalize_media_type(s),
{
    let t = trim(s);
    let m = ascii_lower(t);
    lemma_trim_ends(s);
    assert(m.len() == t.len());
    assert(m[0] == lower_char(t[0]));
    assert(m[m.len() - 1] == lower_char(t[t.len() - 1]));
    lemma_trim_fixed(m);
    lemma_lower_count_slash(t);
    lemma_lower_idempotent(t);
}

fn is_valid_media_type(t: &Vec<char>) -> (r: bool)
    ensures
        r == valid_media_type(t@),
{
    t.len() > 0 && count_of(t, '/') == 1 && t[0] != '/' && t[t.len() - 1] != '/'
}

/// Whether `media_type` has the shape `type/subtype`.
pub fn validate_media_type(media_type: &str) -> (r: bool)
    ensures
        r == valid_media_type(media_type@),
{
    let t = chars_of(media_type);
    is_valid_media_type(&t)
}

/// Trims and lower-cases a candidate media type, or refuses it.
pub fn normalized_media_type(s: &Vec<char>) -> (r: Option<String>)
    ensures
        opt_text(r) == normalize_media_type(s@),
{
    let t = trimmed(s);
    if is_valid_media_type(&t) {
        let l = lowered(&t);
        Some(string_from_chars(&l))
    } else {
        None
    }
}

fn plaintext_list() -> (r: Vec<&'static str>)
    ensures
        r@.len() == plaintext_media_types().len(),
        forall|i: int| 0 <= i < r@.len() ==> (#[trigger] r@[i])@ == plaintext_media_types()[i],
{
    let r = vec![
        "application/atom+xml",
        "application/dart",
        "application/ecmascript",
        "application/javascript",
        "application/json",
        "application/jwt",
        "application/rdf+xml",
        "application/rss+xml",
        "application/soap+xml",
        "application/vnd.mozilla.xul+xml",
        "application/x-javascript",
        "application/x-yaml",
        "application/xhtml+xml",
        "application/xml",
        "application/xml-dtd",
        "application/xop+xml",
        "application/yaml",
        "image/svg+xml",
        "message/imdn+xml",
        "model/x3d+xml",
    ];
    r
}

/// Whether payloads of media type `m` are text (see `is_textual_media_type`).
pub fn is_textual(m: &Vec<char>) -> (r: bool)
    ensures
        r == is_textual_media_type(m@),
{
    let k = find_char(m, '/');
    let top = sub_chars(m, 0, k);
    let text_name = vec!['t', 'e', 'x', 't'];
    assert(text_name@ == text_type_name());
    if equals_ignore_case(&top, &text_name) {
        return true;
    }
    let list = plaintext_list();
    let mut i: usize = 0;
    while i < list.len()
        invariant
            i <= list@.len() == plaintext_media_types().len(),
            forall|j: int| 0 <= j < list@.len() ==> (#[trigger] list@[j])@ == plaintext_media_types()[j],
            forall|j: int| 0 <= j < i ==> !eq_ignore_case(m@, #[trigger] plaintext_media_types()[j]),
            !eq_ignore_case(top_level_type(m@), text_type_name()),
        decreases list@.len() - i,
    {
        let entry = chars_of(list[i]);
        if equals_ignore_case(m, &entry) {
            return true;
        }
        i = i + 1;
    }
    false
}

/// Known file signatures, in the order they are tried, each with the media
/// type it marks.
pub open spec fn file_signatures() -> Seq<(Seq<u8>, Seq<char>)> {
    seq![
        (seq![0x47, 0x49, 0x46, 0x38, 0x37, 0x61], "image/gif"@),
        (seq![0x47, 0x49, 0x46, 0x38, 0x39, 0x61], "image/gif"@),
        (seq![0xff, 0xd8, 0xff], "image/jpeg"@),
        (seq![0x89, 0x50, 0x4e, 0x47, 0x0d, 0x0a, 0x1a, 0x0a], "image/png"@),
        (seq![0x3c, 0x73, 0x76, 0x67, 0x20], "image/svg+xml"@),
        (seq![0x52, 0x49, 0x46, 0x46, 0x2e, 0x2e, 0x2e, 0x2e, 0x57, 0x45, 0x42, 0x50, 0x56, 0x50, 0x38, 0x20], "image/webp"@),
        (seq![0x00, 0x00, 0x01, 0x00], "image/x-icon"@),
        (seq![0x49, 0x44, 0x33], "audio/mpeg"@),
        (seq![0xff, 0x0e], "audio/mpeg"@),
        (seq![0xff, 0x0f], "audio/mpeg"@),
        (seq![0x4f, 0x67, 0x67, 0x53], "audio/ogg"@),
        (seq![0x52, 0x49, 0x46, 0x46, 0x2e, 0x2e, 0x2e, 0x2e, 0x57, 0x41, 0x56, 0x45, 0x66, 0x6d, 0x74, 0x20], "audio/wav"@),
        (seq![0x66, 0x4c, 0x61, 0x43], "audio/x-flac"@),
        (seq![0x52, 0x49, 0x46, 0x46, 0x2e, 0x2e, 0x2e, 0x2e, 0x41, 0x56, 0x49, 0x20, 0x4c, 0x49, 0x53, 0x54], "video/avi"@),
        (seq![0x2e, 0x2e, 0x2e, 0x2e, 0x66, 0x74, 0x79, 0x70], "video/mp4"@),
        (seq![0x00, 0x00, 0x01, 0x0b], "video/mpeg"@),
        (seq![0x2e, 0x2e, 0x2e, 0x2e, 0x6d, 0x6f, 0x6f, 0x76], "video/quicktime"@),
        (seq![0x1a, 0x45, 0xdf, 0xa3], "video/webm"@),
    ]
}

pub open spec fn is_prefix_of(p: Seq<u8>, data: Seq<u8>) -> bool {
    p.len() <= data.len() && data.subrange(0, p.len() as int) == p
}

/// The media type of the first signature at or after `i` that `data` starts with.
pub open spec fn sniff_from(data: Seq<u8>, i: int) -> Option<Seq<char>>
    decreases file_signatures().len() - i,
{
    if 0 <= i < file_signatures().len() {
        if is_prefix_of(file_signatures()[i].0, data) {
            Some(file_signatures()[i].1)
        } else {
            sniff_from(data, i + 1)
        }
    } else {
        None
    }
}

/// File name extensions, each with the media type it stands for.
pub open spec fn extension_media_types() -> Seq<(Seq<char>, Seq<char>)> {
    seq![
        ("avi"@, "video/avi"@),
        ("bmp"@, "image/bmp"@),
        ("css"@, "text/css"@),
        ("flac"@, "audio/flac"@),
        ("gif"@, "image/gif"@),
        ("htm"@, "text/html"@),
        ("html"@, "text/html"@),
        ("ico"@, "image/x-icon"@),
        ("jpeg"@, "image/jpeg"@),
        ("jpg"@, "image/jpeg"@),
        ("js"@, "application/javascript"@),
        ("json"@, "application/json"@),
        ("mp3"@, "audio/mpeg"@),
        ("mp4"@, "video/mp4"@),
        ("m4v"@, "video/mp4"@),
        ("ogg"@, "audio/ogg"@),
        ("ogv"@, "video/ogg"@),
        ("pdf"@, "application/pdf"@),
        ("png"@, "image/png"@),
        ("svg"@, "image/svg+xml"@),
        ("swf"@, "application/x-shockwave-flash"@),
        ("tif"@, "image/tiff"@),
        ("tiff"@, "image/tiff"@),
        ("txt"@, "text/plain"@),
        ("wav"@, "audio/wav"@),
        ("webp"@, "image/webp"@),
        ("woff"@, "font/woff"@),
        ("woff2"@, "font/woff2"@),
        ("xml"@, "text/xml"@),
    ]
}

/// The media type of the first entry at or after `i` for extension `e`, or the
/// empty text where no entry names it.
pub open spec fn extension_from(e: Seq<char>, i: int) -> Seq<char>
    decreases extension_media_types().len() - i,
{
    if 0 <= i < extension_media_types().len() {
        if extension_media_types()[i].0 == e {
            extension_media_types()[i].1
        } else {
            extension_from(e, i + 1)
        }
    } else {
        Seq::empty()
    }
}

/// The start of the text after the last `.` in `s[..j]`, or 0 where none is.
pub open spec fn last_piece_start(s: Seq<char>, j: int) -> int
    decreases j,
{
    if 0 < j <= s.len() && s[j - 1] != '.' {
        last_piece_start(s, j - 1)
    } else {
        j
    }
}

/// The media type that a (lower-cased) file name's extension stands for.
pub open spec fn media_type_of_file_name(name: Seq<char>) -> Seq<char> {
    extension_from(name.subrange(last_piece_start(name, name.len() as int), name.len() as int), 0)
}

/// The media type that a payload's signature, or else its file name, suggests.
pub open spec fn detected_media_type(data: Seq<u8>, filename: Seq<char>) -> Seq<char> {
    match sniff_from(data, 0) {
        Some(m) => m,
        None => media_type_of_file_name(unicode_lower(filename)),
    }
}

fn signature_table() -> (r: Vec<(Vec<u8>, &'static str)>)
    ensures
        r@.len() == file_signatures().len(),
        forall|i: int|
            0 <= i < r@.len() ==> (#[trigger] r@[i]).0@ == file_signatures()[i].0 && r@[i].1@
                == file_signatures()[i].1,
{
    let r = vec![
        (vec![0x47u8, 0x49u8, 0x46u8, 0x38u8, 0x37u8, 0x61u8], "image/gif"),
        (vec![0x47u8, 0x49u8, 0x46u8, 0x38u8, 0x39u8, 0x61u8], "image/gif"),
        (vec![0xffu8, 0xd8u8, 0xffu8], "image/jpeg"),
        (vec![0x89u8, 0x50u8, 0x4eu8, 0x47u8, 0x0du8, 0x0au8, 0x1au8, 0x0au8], "image/png"),
        (vec![0x3cu8, 0x73u8, 0x76u8, 0x67u8, 0x20u8], "image/svg+xml"),
        (vec![0x52u8, 0x49u8, 0x46u8, 0x46u8, 0x2eu8, 0x2eu8, 0x2eu8, 0x2eu8, 0x57u8, 0x45u8, 0x42u8, 0x50u8, 0x56u8, 0x50u8, 0x38u8, 0x20u8], "image/webp"),
        (vec![0x00u8, 0x00u8, 0x01u8, 0x00u8], "image/x-icon"),
        (vec![0x49u8, 0x44u8, 0x33u8], "audio/mpeg"),
        (vec![0xffu8, 0x0eu8], "audio/mpeg"),
        (vec![0xffu8, 0x0fu8], "audio/mpeg"),
        (vec![0x4fu8, 0x67u8, 0x67u8, 0x53u8], "audio/ogg"),
        (vec![0x52u8, 0x49u8, 0x46u8, 0x46u8, 0x2eu8, 0x2eu8, 0x2eu8, 0x2eu8, 0x57u8, 0x41u8, 0x56u8, 0x45u8, 0x66u8, 0x6du8, 0x74u8, 0x20u8], "audio/wav"),
        (vec![0x66u8, 0x4cu8, 0x61u8, 0x43u8], "audio/x-flac"),
        (vec![0x52u8, 0x49u8, 0x46u8, 0x46u8, 0x2eu8, 0x2eu8, 0x2eu8, 0x2eu8, 0x41u8, 0x56u8, 0x49u8, 0x20u8, 0x4cu8, 0x49u8, 0x53u8, 0x54u8], "video/avi"),
        (vec![0x2eu8, 0x2eu8, 0x2eu8, 0x2eu8, 0x66u8, 0x74u8, 0x79u8, 0x70u8], "video/mp4"),
        (vec![0x00u8, 0x00u8, 0x01u8, 0x0bu8], "video/mpeg"),
        (vec![0x2eu8, 0x2eu8, 0x2eu8, 0x2eu8, 0x6du8, 0x6fu8, 0x6fu8, 0x76u8], "video/quicktime"),
        (vec![0x1au8, 0x45u8, 0xdfu8, 0xa3u8], "video/webm"),
    ];
    assert(r@.len() == file_signatures().len());
    assert forall|i: int| 0 <= i < r@.len() implies (#[trigger] r@[i]).0@ == file_signatures()[i].0
        && r@[i].1@ == file_signatures()[i].1 by {}
    r
}

fn extension_table() -> (r: Vec<(&'static str, &'static str)>)
    ensures
        r@.len() == extension_media_types().len(),
        forall|i: int|
            0 <= i < r@.len() ==> (#[trigger] r@[i]).0@ == extension_media_types()[i].0 && r@[i].1@
                == extension_media_types()[i].1,
{
    let r = vec![
        ("avi", "video/avi"),
        ("bmp", "image/bmp"),
        ("css", "text/css"),
        ("flac", "audio/flac"),
        ("gif", "image/gif"),
        ("htm", "text/html"),
        ("html", "text/html"),
        ("ico", "image/x-icon"),
        ("jpeg", "image/jpeg"),
        ("jpg", "image/jpeg"),
        ("js", "application/javascript"),
        ("json", "application/json"),
        ("mp3", "audio/mpeg"),
        ("mp4", "video/mp4"),
        ("m4v", "video/mp4"),
        ("ogg", "audio/ogg"),
        ("ogv", "video/ogg"),
        ("pdf", "application/pdf"),
        ("png", "image/png"),
        ("svg", "image/svg+xml"),
        ("swf", "application/x-shockwave-flash"),
        ("tif", "image/tiff"),
        ("tiff", "image/tiff"),
        ("txt", "text/plain"),
        ("wav", "audio/wav"),
        ("webp", "image/webp"),
        ("woff", "font/woff"),
        ("woff2", "font/woff2"),
        ("xml", "text/xml"),
    ];
    r
}

fn starts_with_bytes(data: &[u8], p: &Vec<u8>) -> (r: bool)
    ensures
        r == is_prefix_of(p@, data@),
{
    if p.len() > data.len() {
        return false;
    }
    let mut k: usize = 0;
    while k < p.len()
        invariant
            k <= p@.len() <= data@.len(),
            forall|m: int| 0 <= m < k ==> data@[m] == p@[m],
        decreases p@.len() - k,
    {
        if data[k] != p[k] {
            return false;
        }
        k = k + 1;
    }
    assert(data@.subrange(0, p@.len() as int) =~= p@);
    true
}

/// The media type that a lower-cased file name's extension stands for, or the
/// empty string where the extension is unknown.
pub fn media_type_for_file_name(name: &str) -> (r: String)
    ensures
        r@ == media_type_of_file_name(name@),
{
    let s = chars_of(name);
    let mut j: usize = s.len();
    while j > 0 && s[j - 1] != '.'
        invariant
            j <= s@.len(),
            last_piece_start(s@, j as int) == last_piece_start(s@, s@.len() as int),
        decreases j,
    {
        j = j - 1;
    }
    let ext = sub_chars(&s, j, s.len());
    let table = extension_table();
    let mut i: usize = 0;
    while i < table.len()
        invariant
            i <= table@.len() == extension_media_types().len(),
            forall|m: int|
                0 <= m < table@.len() ==> (#[trigger] table@[m]).0@ == extension_media_types()[m].0
                    && table@[m].1@ == extension_media_types()[m].1,
            extension_from(ext@, i as int) == media_type_of_file_name(name@),
        decreases table@.len() - i,
    {
        let e = chars_of(table[i].0);
        if chars_equal(&e, &ext) {
            let m = chars_of(table[i].1);
            return string_from_chars(&m);
        }
        i = i + 1;
    }
    String::new()
}

/// The media type that a file name's extension stands for, matched without
/// regard to case, or the empty string.
pub fn detect_media_type_by_file_name(filename: &str) -> (r: String)
    ensures
        r@ == media_type_of_file_name(unicode_lower(filename@)),
{
    let lowered_name = to_lowercase(filename);
    media_type_for_file_name(lowered_name.as_str())
}

/// The media type of a payload: by its leading bytes where they match a known
/// signature, else by its file name.
pub fn detect_media_type(data: &[u8], filename: &str) -> (r: String)
    ensures
        r@ == detected_media_type(data@, filename@),
{
    let table = signature_table();
    let mut i: usize = 0;
    while i < table.len()
        invariant
            i <= table@.len() == file_signatures().len(),
            forall|m: int|
                0 <= m < table@.len() ==> (#[trigger] table@[m]).0@ == file_signatures()[m].0
                    && table@[m].1@ == file_signatures()[m].1,
            sniff_from(data@, i as int) == sniff_from(data@, 0),
        decreases table@.len() - i,
    {
        if starts_with_bytes(data, &table[i].0) {
            let m = chars_of(table[i].1);
            return string_from_chars(&m);
        }
        i = i + 1;
    }
    detect_media_type_by_file_name(filename)
}

} // verus!
