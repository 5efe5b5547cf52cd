use vstd::prelude::*;
use crate::bindings::{label_charset, lookup_charset, opt_text, string_from_chars};
use crate::chars::{
    eq_ignore_case, equals_ignore_case, lemma_split_nonempty, split_chars, split_on, sub_chars,
    trim, trimmed,
};
use crate::media_type::{normalize_media_type, normalized_media_type};

verus! {

/// What the meta-data of a data URL says, and whether a `charset=` parameter
/// was already met.
pub struct MetaData {
    pub media_type: Option<Seq<char>>,
    pub charset: Option<Seq<char>>,
    pub charset_seen: bool,
    pub base64: bool,
}

pub open spec fn charset_prefix() -> Seq<char> {
    seq!['c', 'h', 'a', 'r', 's', 'e', 't', '=']
}

pub open spec fn base64_token() -> Seq<char> {
    seq!['b', 'a', 's', 'e', '6', '4']
}

/// Whether a trimmed parameter starts with `charset=`, up to ASCII case.
pub open spec fn is_charset_param(t: Seq<char>) -> bool {
    t.len() >= 8 && eq_ignore_case(t.subrange(0, 8), charset_prefix())
}

/// The meta-data after reading one parameter (any segment after the first).
/// A `charset=` parameter counts only while no `base64` came before it and no
/// other `charset=` did; an unknown label leaves the charset unset.
pub open spec fn meta_step(st: MetaData, seg: Seq<char>) -> MetaData {
    let t = trim(seg);
    if !st.base64 && is_charset_param(t) {
        if st.charset_seen {
            st
        } else {
            MetaData { charset: label_charset(t.subrange(8, t.len() as int)), charset_seen: true, ..st }
        }
    } else if eq_ignore_case(t, base64_token()) {
        MetaData { base64: true, ..st }
    } else {
        st
    }
}

/// The meta-data after the first `k` segments: the first is the media type
/// candidate, the others are parameters.
pub open spec fn meta_prefix(segs: Seq<Seq<char>>, k: int) -> MetaData
    decreases k,
{
    if k <= 1 {
        MetaData {
            media_type: normalize_media_type(segs[0]),
            charset: None,
            charset_seen: false,
            base64: false,
        }
    } else {
        meta_step(meta_prefix(segs, k - 1), segs[k - 1])
    }
}

/// The meta-data that the text before a data URL's first comma states.
pub open spec fn parse_meta(meta: Seq<char>) -> MetaData {
    let segs = split_on(meta, ';');
    meta_prefix(segs, segs.len() as int)
}

/// Parameters leave the media type as the first segment gave it.
pub proof fn lemma_meta_prefix_wf(segs: Seq<Seq<char>>, k: int)
    requires
        segs.len() >= 1,
    ensures
        meta_prefix(segs, k).media_type == normalize_media_type(segs[0]),
    decreases k,
{
    if k > 1 {
        lemma_meta_prefix_wf(segs, k - 1);
    }
}

/// Parsed meta-data holds a normalized media type.
pub proof fn lemma_parse_meta_wf(meta: Seq<char>)
    ensures
        parse_meta(meta).media_type matches Some(m) ==> normalize_media_type(m) == Some(m),
{
    let segs = split_on(meta, ';');
    lemma_split_nonempty(meta, ';');
    lemma_meta_prefix_wf(segs, segs.len() as int);
    if normalize_media_type(segs[0]) is Some {
        crate::media_type::lemma_normalize_idempotent(segs[0]);
    }
}

/// Reads the `;`-separated meta-data into media type, charset and base64 flag.
pub fn parse_data_url_meta_data(meta: &Vec<char>) -> (r: (Option<String>, Option<String>, bool))
    ensures
        opt_text(r.0) == parse_meta(meta@).media_type,
        opt_text(r.1) == parse_meta(meta@).charset,
        r.2 == parse_meta(meta@).base64,
        r.1 matches Some(c) ==> label_charset(c@) == Some(c@),
{
    let segs = split_chars(meta, ';');
    proof {
        lemma_split_nonempty(meta@, ';');
    }
    let ghost spec_segs = split_on(meta@, ';');
    let media_type = normalized_media_type(&segs[0]);
    let mut charset: Option<String> = None;
    let mut charset_seen = false;
    let mut base64 = false;
    let prefix = vec!['c', 'h', 'a', 'r', 's', 'e', 't', '='];
    let token = vec!['b', 'a', 's', 'e', '6', '4'];
    assert(prefix@ == charset_prefix());
    assert(token@ == base64_token());
    let mut i: usize = 1;
    while i < segs.len()
        invariant
            1 <= i <= segs@.len() == spec_segs.len(),
            forall|m: int| 0 <= m < segs@.len() ==> #[trigger] segs@[m]@ == spec_segs[m],
            spec_segs == split_on(meta@, ';'),
            prefix@ == charset_prefix(),
            token@ == base64_token(),
            opt_text(media_type) == meta_prefix(spec_segs, i as int).media_type,
            opt_text(charset) == meta_prefix(spec_segs, i as int).charset,
            charset_seen == meta_prefix(spec_segs, i as int).charset_seen,
            base64 == meta_prefix(spec_segs, i as int).base64,
            charset matches Some(c) ==> label_charset(c@) == Some(c@),
        decreases segs@.len() - i,
    {
        let t = trimmed(&segs[i]);
        let is_param = t.len() >= 8 && {
            let head = sub_chars(&t, 0, 8);
            equals_ignore_case(&head, &prefix)
        };
        if !base64 && is_param {
            if !charset_seen {
                let label_chars = sub_chars(&t, 8, t.len());
                let label = string_from_chars(&label_chars);
                charset = lookup_charset(label.as_str());
                charset_seen = true;
            }
        } else if equals_ignore_case(&t, &token) {
            base64 = true;
        }
        i = i + 1;
    }
    (media_type, charset, base64)
}

} // verus!
