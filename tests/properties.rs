use dataurl::{
    chars_of, detect_media_type, detect_media_type_by_file_name, media_type_for_file_name,
    parse_data_url_meta_data, validate_media_type, DataUrl, DataUrlParseError,
};

fn assert_same(a: &DataUrl, b: &DataUrl) {
    assert_eq!(a.media_type_no_default(), b.media_type_no_default());
    assert_eq!(a.charset_no_default(), b.charset_no_default());
    assert_eq!(a.is_base64_encoded(), b.is_base64_encoded());
    assert_eq!(a.data(), b.data());
    assert_eq!(a.fragment(), b.fragment());
}

#[test]
fn round_trip_of_utf8_text_with_fragment() {
    let mut x = DataUrl::new();
    x.set_media_type(Some("text/html".to_string()));
    x.set_charset(Some("utf8".to_string()));
    x.set_data("héllo, wörld?".as_bytes());
    x.set_fragment(Some("part2".to_string()));
    let y = DataUrl::parse(&x.to_string()).unwrap();
    assert_same(&x, &y);
}

#[test]
fn round_trip_of_base64_ascii_text_without_charset() {
    let mut x = DataUrl::new();
    x.set_is_base64_encoded(true);
    x.set_data(b"a;b,c?d#e");
    let y = DataUrl::parse(&x.to_string()).unwrap();
    assert_same(&x, &y);
}

#[test]
fn round_trip_of_non_ascii_text_without_charset() {
    let mut x = DataUrl::new();
    x.set_media_type(Some("application/json".to_string()));
    x.set_data("{\"k\": \"ü\"}".as_bytes());
    let y = DataUrl::parse(&x.to_string()).unwrap();
    assert_same(&x, &y);
}

#[test]
fn classification_ignores_charset_and_data() {
    let mut x = DataUrl::new();
    x.set_media_type(Some("image/png".to_string()));
    assert!(x.is_binary());
    x.set_charset(Some("gbk".to_string()));
    x.set_data(&[1, 2, 3]);
    assert!(x.is_binary());
    x.set_charset(None);
    x.set_data(&[]);
    assert!(x.is_binary());
    x.set_media_type(Some("Application/JSON".to_string()));
    assert!(!x.is_binary());
    x.set_charset(Some("utf-8".to_string()));
    assert!(!x.is_binary());
}

#[test]
fn classification_of_media_types() {
    let mut x = DataUrl::new();
    assert!(!x.is_binary());
    x.set_media_type(Some("text/anything".to_string()));
    assert!(!x.is_binary());
    x.set_media_type(Some("image/svg+xml".to_string()));
    assert!(!x.is_binary());
    x.set_media_type(Some("application/octet-stream".to_string()));
    assert!(x.is_binary());
    x.set_media_type(Some("textual/plain".to_string()));
    assert!(x.is_binary());
}

#[test]
fn failed_charset_clears_to_default() {
    let mut x = DataUrl::new();
    assert!(x.set_charset(Some("gbk".to_string())));
    assert_eq!(x.charset(), "GBK");
    assert!(!x.set_charset(Some("no-such-charset".to_string())));
    assert_eq!(x.charset(), "US-ASCII");
    assert_eq!(x.charset_no_default(), None);
}

#[test]
fn scenario_empty_data_url() {
    let x = DataUrl::parse("data:,").unwrap();
    assert_eq!(x.media_type(), "text/plain");
    assert_eq!(x.charset(), "US-ASCII");
    assert_eq!(x.data(), b"");
    assert!(!x.is_base64_encoded());
}

#[test]
fn scenario_gbk_base64() {
    let x = DataUrl::parse("data:;charset=gbk;base64,PbnjtqvKocnu29rK0LGmsLI=").unwrap();
    assert_eq!(x.charset(), "GBK");
    assert_eq!(x.text(), "=广东省深圳市宝安");
    assert_eq!(
        x.data(),
        [61, 185, 227, 182, 171, 202, 161, 201, 238, 219, 218, 202, 208, 177, 166, 176, 178]
    );
}

#[test]
fn scenario_base64_without_semicolon() {
    let x = DataUrl::parse("data:base64,SGVsbG8=").unwrap();
    assert_eq!(x.media_type(), "text/plain");
    assert!(!x.is_base64_encoded());
    assert_eq!(x.data(), b"SGVsbG8=");
}

#[test]
fn scenario_space_forced_base64() {
    let mut x = DataUrl::new();
    x.set_data(b" ");
    x.set_is_base64_encoded(true);
    assert_eq!(x.to_string(), "data:;base64,IA==");
}

#[test]
fn scenario_plain_text_percent_encoded() {
    let mut x = DataUrl::new();
    x.set_data(b"Hello, world!");
    assert_eq!(x.to_string(), "data:,Hello%2C%20world%21");
}

#[test]
fn scenario_bad_media_type_fails() {
    let mut x = DataUrl::new();
    assert!(!x.set_media_type(Some("wrong/media/type/x".to_string())));
    assert_eq!(x.media_type(), "text/plain");
    assert_eq!(x.media_type_no_default(), None);
}

#[test]
fn media_type_is_trimmed_and_lower_cased() {
    let mut x = DataUrl::new();
    assert!(x.set_media_type(Some("  Image/PNG \t".to_string())));
    assert_eq!(x.media_type(), "image/png");
    assert!(!x.set_media_type(Some("image/".to_string())));
    assert_eq!(x.media_type_no_default(), None);
    assert!(x.set_media_type(None));
}

#[test]
fn parse_errors() {
    assert_eq!(DataUrl::parse("").err(), Some(DataUrlParseError::UrlParseError));
    assert_eq!(
        DataUrl::parse("data:text/plain").err(),
        Some(DataUrlParseError::MalformedDataUrlError)
    );
    assert_eq!(
        DataUrl::parse("data:;base64,@@@").err(),
        Some(DataUrlParseError::Base64DecodeError)
    );
}

#[test]
fn only_first_charset_parameter_counts() {
    let x = DataUrl::parse("data:;charset=bogus;charset=utf-8,a").unwrap();
    assert_eq!(x.charset_no_default(), None);
    let y = DataUrl::parse("data:; Charset=UTF8 ;x=y,a").unwrap();
    assert_eq!(y.charset(), "UTF-8");
}

#[test]
fn query_is_folded_into_payload() {
    let x = DataUrl::parse("data:,a%20b?c%21d#frag").unwrap();
    assert_eq!(x.data(), b"a b?c!d");
    assert_eq!(x.fragment(), Some("frag".to_string()));
}

#[test]
fn binary_payload_is_not_transcoded() {
    let mut x = DataUrl::new();
    x.set_media_type(Some("image/png".to_string()));
    x.set_data(&[0, 255, 65]);
    assert_eq!(x.to_string(), "data:image/png,%00%FFA");
    x.set_is_base64_encoded(true);
    assert_eq!(x.to_string(), "data:image/png;base64,AP9B");
}

#[test]
fn text_payload_is_transcoded_into_set_charset() {
    let mut x = DataUrl::new();
    x.set_charset(Some("gbk".to_string()));
    x.set_data("广".as_bytes());
    assert_eq!(x.to_string(), "data:;charset=GBK,%B9%E3");
}

#[test]
fn fragment_is_percent_encoded() {
    let mut x = DataUrl::new();
    x.set_fragment(Some("a b/c".to_string()));
    assert_eq!(x.to_string(), "data:,#a%20b%2Fc");
    x.set_fragment(Some("".to_string()));
    assert_eq!(x.to_string(), "data:,#");
}

#[test]
fn media_type_shape() {
    assert!(validate_media_type("text/plain"));
    assert!(!validate_media_type("text"));
    assert!(!validate_media_type("text/"));
    assert!(!validate_media_type("/plain"));
    assert!(!validate_media_type("a/b/c"));
}

#[test]
fn meta_data_parser_reads_all_parts() {
    let meta = chars_of(" Text/CSS ;foo=bar; charset=Utf-8 ;BASE64");
    let (mt, cs, b64) = parse_data_url_meta_data(&meta);
    assert_eq!(mt, Some("text/css".to_string()));
    assert_eq!(cs, Some("UTF-8".to_string()));
    assert!(b64);
    let (mt, cs, b64) = parse_data_url_meta_data(&chars_of("base64"));
    assert_eq!(mt, None);
    assert_eq!(cs, None);
    assert!(!b64);
}

#[test]
fn detects_media_type_by_signature_then_name() {
    let png = [0x89, b'P', b'N', b'G', 0x0D, 0x0A, 0x1A, 0x0A, 0, 0];
    assert_eq!(detect_media_type(&png, "x.txt"), "image/png");
    assert_eq!(detect_media_type(b"GIF89a...", ""), "image/gif");
    assert_eq!(detect_media_type(b"plain", "Photo.JPG"), "image/jpeg");
    assert_eq!(detect_media_type(b"plain", "notes"), "");
}

#[test]
fn media_type_from_file_name() {
    assert_eq!(detect_media_type_by_file_name("INDEX.HTM"), "text/html");
    assert_eq!(detect_media_type_by_file_name("font.woff2"), "font/woff2");
    assert_eq!(media_type_for_file_name("archive.tar.gz"), "");
    assert_eq!(media_type_for_file_name("a.b.svg"), "image/svg+xml");
    assert_eq!(media_type_for_file_name(""), "");
}

#[test]
fn components_decode_without_url_parser() {
    let x = DataUrl::from_components(";charset=utf-8,%C3%BC", Some("q".to_string()), None).unwrap();
    assert_eq!(x.data(), [0xC3, 0xBC, b'?', b'q']);
    assert_eq!(x.charset(), "UTF-8");
    assert_eq!(
        DataUrl::from_components("no comma", None, None).err(),
        Some(DataUrlParseError::MalformedDataUrlError)
    );
}

#[test]
fn serialization_around_a_given_payload() {
    let mut x = DataUrl::new();
    x.set_media_type(Some("text/plain".to_string()));
    x.set_charset(Some("latin1".to_string()));
    x.set_is_base64_encoded(true);
    x.set_fragment(Some("a.b".to_string()));
    assert_eq!(
        x.serialize_with_payload("QUJD"),
        "data:text/plain;base64,QUJD#a%2Eb"
    );
    x.set_charset(Some("utf-8".to_string()));
    assert_eq!(
        x.serialize_with_payload(""),
        "data:text/plain;charset=UTF-8;base64,#a%2Eb"
    );
}

#[test]
fn invalid_utf8_text_is_replaced_before_encoding() {
    let mut x = DataUrl::new();
    x.set_data(&[b'a', 0xFF]);
    assert_eq!(x.to_string(), "data:,a%EF%BF%BD");
}
