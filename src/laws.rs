use vstd::prelude::*;
use vstd::utf8::{encode_utf8, is_ascii_chars};
use crate::bindings::{
    base64_bytes, base64_text, is_base64_char, label_charset, us_ascii_name, utf8_name,
};
use crate::chars::{
    eq_ignore_case, is_ws, lemma_find_first, lemma_split_push, lemma_split_single, lemma_trim_fixed,
    trim,
};
use crate::data_url::{
    base64_param_text, charset_accepted, charset_after, charset_param_text, decode_components,
    is_plain_utf8_text, meta_text, payload_text, raw_payload, render, serialized_fragment,
    scheme_text, serialize, serialized_path, DataUrlParseError, DataUrlView,
};
use crate::media_type::{is_binary_media_type, normalize_media_type, valid_media_type};
use crate::meta_data::{base64_token, charset_prefix, is_charset_param, meta_prefix, meta_step, parse_meta, MetaData};
use crate::percent::{
    ascii_bytes, is_alnum, lemma_ascii_utf8, lemma_percent_decoded_plain,
    lemma_percent_encoded_alnum, lemma_percent_encoded_ascii, lemma_percent_round_trip,
    percent_decoded,
};

verus! {

/// Whether a payload is binary depends on the media type alone: giving a data
/// URL any other charset and payload leaves its classification as it was.
pub proof fn lemma_binary_ignores_charset_and_data(
    x: DataUrlView,
    charset: Option<Seq<char>>,
    data: Seq<u8>,
)
    ensures
        is_binary_media_type((DataUrlView { charset, data, ..x }).media_type)
            == is_binary_media_type(x.media_type),
{
}

/// Setting a charset label that names no charset is reported as a failure and
/// leaves the charset unset, so that it reads as the default `US-ASCII`.
pub proof fn lemma_bad_charset_clears(x: DataUrlView, label: Seq<char>)
    requires
        label_charset(label) is None,
    ensures
        !charset_accepted(Some(label)),
        charset_after(Some(label)) is None,
        (DataUrlView { charset: charset_after(Some(label)), ..x }).charset_or_default()
            == us_ascii_name(),
{
}

pub open spec fn is_alnum_char(c: char) -> bool {
    ('0' <= c && c <= '9') || ('A' <= c && c <= 'Z') || ('a' <= c && c <= 'z')
}

/// The `charset=` parameter for UTF-8, without its `;`.
pub open spec fn utf8_param() -> Seq<char> {
    charset_prefix() + utf8_name()
}

proof fn lemma_literal_params()
    ensures
        !utf8_param().contains(';') && !utf8_param().contains(','),
        !base64_token().contains(';') && !base64_token().contains(','),
        trim(utf8_param()) == utf8_param(),
        trim(base64_token()) == base64_token(),
        is_charset_param(utf8_param()),
        utf8_param().subrange(8, utf8_param().len() as int) == utf8_name(),
        !is_charset_param(base64_token()),
        eq_ignore_case(base64_token(), base64_token()),
        charset_param_text() + utf8_name() == seq![';'] + utf8_param(),
        base64_param_text() == seq![';'] + base64_token(),
{
    let u = utf8_param();
    let b = base64_token();
    assert(u.len() == 13);
    assert forall|j: int| 0 <= j < u.len() implies u[j] != ';' && u[j] != ',' by {
        assert(j == 0 || j == 1 || j == 2 || j == 3 || j == 4 || j == 5 || j == 6 || j == 7 || j
            == 8 || j == 9 || j == 10 || j == 11 || j == 12);
    }
    assert forall|j: int| 0 <= j < b.len() implies b[j] != ';' && b[j] != ',' by {
        assert(j == 0 || j == 1 || j == 2 || j == 3 || j == 4 || j == 5);
    }
    assert(!is_ws(u[0]) && !is_ws(u[12]));
    lemma_trim_fixed(u);
    assert(!is_ws(b[0]) && !is_ws(b[5]));
    lemma_trim_fixed(b);
    assert(u.subrange(0, 8) =~= charset_prefix());
    assert(u.subrange(8, 13) =~= utf8_name());
    assert(charset_param_text() + utf8_name() =~= seq![';'] + u);
    assert(base64_param_text() =~= seq![';'] + b);
}

/// The meta-data text of a data URL with no charset or UTF-8, and a media
/// type without `;` or `,`, reads back as that media type, charset and flag.
proof fn lemma_meta_text_decodes(x: DataUrlView)
    requires
        x.wf(),
        x.media_type matches Some(m) ==> !m.contains(';') && !m.contains(','),
        x.charset is None || x.charset == Some(utf8_name()),
    ensures
        !meta_text(x).contains(','),
        parse_meta(meta_text(x)).media_type == x.media_type,
        parse_meta(meta_text(x)).charset == x.charset,
        parse_meta(meta_text(x)).base64 == x.is_base64_encoded,
{
    lemma_literal_params();
    let mt = match x.media_type {
        Some(m) => m,
        None => Seq::<char>::empty(),
    };
    assert(!mt.contains(';') && !mt.contains(','));
    assert(normalize_media_type(mt) == x.media_type) by {
        if x.media_type is None {
            assert(mt.len() == 0);
            assert(trim(mt).len() == 0);
            assert(!valid_media_type(trim(mt)));
        }
    }
    let u = utf8_param();
    let b = base64_token();
    lemma_split_single(mt, ';');
    let init = meta_prefix(seq![mt], 1);
    assert(init == MetaData {
        media_type: x.media_type,
        charset: None,
        charset_seen: false,
        base64: false,
    });
    let c_step = MetaData { charset: label_charset(u.subrange(8, u.len() as int)), charset_seen: true, ..init };
    let m = meta_text(x);
    if x.charset is None {
        if x.is_base64_encoded {
            assert(m =~= mt + seq![';'] + b);
            lemma_split_push(mt, b, ';');
            let segs = seq![mt].push(b);
            assert(meta_prefix(segs, 1) == init);
            assert(meta_prefix(segs, 2) == meta_step(init, b));
            assert forall|j: int| 0 <= j < m.len() implies m[j] != ',' by {
                if j < mt.len() {
                    assert(m[j] == mt[j]);
                } else if j > mt.len() {
                    assert(m[j] == b[j - mt.len() - 1]);
                }
            }
        } else {
            assert(m =~= mt);
        }
    } else {
        assert(label_charset(utf8_name()) == Some(utf8_name()));
        assert(meta_step(init, u) == c_step);
        if x.is_base64_encoded {
            assert(m =~= (mt + seq![';'] + u) + seq![';'] + b);
            lemma_split_push(mt, u, ';');
            lemma_split_push(mt + seq![';'] + u, b, ';');
            let segs = seq![mt].push(u).push(b);
            assert(meta_prefix(segs, 1) == init);
            assert(meta_prefix(segs, 2) == meta_step(init, u));
            assert(meta_prefix(segs, 3) == meta_step(c_step, b));
            assert forall|j: int| 0 <= j < m.len() implies m[j] != ',' by {
                if j < mt.len() {
                    assert(m[j] == mt[j]);
                } else if mt.len() < j < mt.len() + 1 + u.len() {
                    assert(m[j] == u[j - mt.len() - 1]);
                } else if j > mt.len() + 1 + u.len() {
                    assert(m[j] == b[j - mt.len() - 2 - u.len()]);
                }
            }
        } else {
            assert(m =~= mt + seq![';'] + u);
            lemma_split_push(mt, u, ';');
            let segs = seq![mt].push(u);
            assert(meta_prefix(segs, 1) == init);
            assert(meta_prefix(segs, 2) == meta_step(init, u));
            assert forall|j: int| 0 <= j < m.len() implies m[j] != ',' by {
                if j < mt.len() {
                    assert(m[j] == mt[j]);
                } else if j > mt.len() {
                    assert(m[j] == u[j - mt.len() - 1]);
                }
            }
        }
    }
}

/// Decoding the components of the canonical text gives the data URL back.
///
/// Let `x` be well formed, with textual valid UTF-8 payload and no charset or
/// the charset UTF-8 (`is_plain_utf8_text`), a media type that holds neither
/// `;` nor `,`, and a fragment, if any, of ASCII letters and digits. Let its
/// payload be serialized as its own bytes, which `to_string` guarantees of such
/// a data URL. Suppose, where base64 is flagged, that base64 writes the
/// payload in its alphabet (nothing for no bytes) and reads that text back as
/// the payload, as the base64 crate documents. Then the path and the fragment
/// of `serialize(x)` decode to `x`. How a URL parser splits the text into path
/// and fragment is outside this statement.
pub proof fn lemma_canonical_components_decode(x: DataUrlView)
    requires
        x.wf(),
        is_plain_utf8_text(x),
        x.media_type matches Some(m) ==> !m.contains(';') && !m.contains(','),
        x.fragment matches Some(f) ==> forall|i: int| 0 <= i < f.len() ==> is_alnum_char(#[trigger] f[i]),
        x.data.len() > 0 ==> payload_text(x) == render(x.data, x.is_base64_encoded),
        x.is_base64_encoded ==> base64_bytes(ascii_bytes(base64_text(x.data))) == Some(x.data),
        x.is_base64_encoded ==> forall|i: int|
            0 <= i < base64_text(x.data).len() ==> is_base64_char(#[trigger] base64_text(x.data)[i]),
        x.is_base64_encoded && x.data.len() == 0 ==> base64_text(x.data).len() == 0,
    ensures
        serialize(x) == scheme_text() + serialized_path(x) + match serialized_fragment(x) {
            Some(f) => seq!['#'] + f,
            None => Seq::empty(),
        },
        decode_components(serialized_path(x), None, serialized_fragment(x)) == Ok::<
            DataUrlView,
            DataUrlParseError,
        >(x),
{
    assert(serialize(x) =~= scheme_text() + serialized_path(x) + match serialized_fragment(x) {
        Some(f) => seq!['#'] + f,
        None => Seq::empty(),
    });
    lemma_meta_text_decodes(x);
    let m = meta_text(x);
    let t = payload_text(x);
    let p = serialized_path(x);
    assert(p == m + seq![','] + t);
    assert forall|j: int| 0 <= j < m.len() implies p[j] != ',' by {
        assert(p[j] == m[j]);
        if m[j] == ',' {
            assert(m.contains(','));
        }
    }
    lemma_find_first(p, ',', 0, m.len() as int);
    assert(p.subrange(0, m.len() as int) =~= m);
    assert(p.subrange(m.len() as int + 1, p.len() as int) =~= t);
    // the payload
    let raw = raw_payload(p, None);
    assert(raw == percent_decoded(encode_utf8(t)));
    if x.data.len() == 0 {
        assert(t.len() == 0);
        assert(encode_utf8(t) =~= Seq::<u8>::empty());
        assert(raw =~= x.data);
        if x.is_base64_encoded {
            assert(ascii_bytes(base64_text(x.data)) =~= raw);
        }
    } else {
        assert(t == render(x.data, x.is_base64_encoded));
        if x.is_base64_encoded {
            let b = base64_text(x.data);
            assert(is_ascii_chars(b));
            lemma_ascii_utf8(b);
            assert forall|i: int| 0 <= i < ascii_bytes(b).len() implies ascii_bytes(b)[i] != 37 by {
                assert(is_base64_char(b[i]));
            }
            lemma_percent_decoded_plain(ascii_bytes(b));
        } else {
            lemma_percent_encoded_ascii(x.data);
            lemma_ascii_utf8(t);
            lemma_percent_round_trip(x.data);
        }
    }
    // the fragment
    match x.fragment {
        Some(f) => {
            assert(is_ascii_chars(f));
            lemma_ascii_utf8(f);
            let fb = ascii_bytes(f);
            assert forall|i: int| 0 <= i < fb.len() implies is_alnum(#[trigger] fb[i]) by {
                assert(is_alnum_char(f[i]));
            }
            lemma_percent_encoded_alnum(fb);
            assert(fb.map_values(|c: u8| c as char) =~= f);
            assert(serialized_fragment(x) == Some(f));
        },
        None => {},
    }
}

} // verus!
