use dataurl::{DataUrl, DataUrlParseError};

#[test]
fn must_have_correct_code_for_the_readme_usage_snippet() -> Result<(), DataUrlParseError> {
    let data_url: DataUrl = DataUrl::parse("data:,Hello,%20World!")?;

    assert_eq!(data_url.media_type(), "text/plain".to_string());
    assert_eq!(data_url.media_type_no_default(), None);
    assert_eq!(data_url.charset(), "US-ASCII".to_string());
    assert_eq!(data_url.charset_no_default(), None);
    assert!(!data_url.is_base64_encoded());
    assert_eq!(
        data_url.data(),
        [72, 101, 108, 108, 111, 44, 32, 87, 111, 114, 108, 100, 33]
    );
    assert_eq!(data_url.fragment(), None);
    assert_eq!(data_url.to_string(), "data:,Hello%2C%20World%21");
    assert_eq!(data_url.text(), "Hello, World!");

    Ok(())
}

#[test]
fn must_be_us_none_by_default() -> Result<(), DataUrlParseError> {
    let data_url = DataUrl::new();

    assert_eq!(data_url.charset_no_default(), None);

    Ok(())
}

#[test]
fn must_be_possible_to_set_to_utf8() -> Result<(), DataUrlParseError> {
    let mut data_url = DataUrl::new();

    assert!(data_url.set_charset(Some("utf8".to_string())));

    assert_eq!(data_url.charset_no_default(), Some("UTF-8".to_string()));

    Ok(())
}

#[test]
fn must_fall_back_to_none_if_given_bad_charset() -> Result<(), DataUrlParseError> {
    let mut data_url = DataUrl::new();

    assert!(!data_url.set_charset(Some("BAD-CHARSET".to_string())));

    assert_eq!(data_url.charset_no_default(), None);

    Ok(())
}

#[test]
fn fragment_must_be_none_by_default() -> Result<(), DataUrlParseError> {
    let data_url = DataUrl::new();

    assert_eq!(data_url.fragment(), None);

    Ok(())
}

#[test]
fn must_be_rendered_as_pound_sign_if_set_to_an_empty_string() -> Result<(), DataUrlParseError> {
    let mut data_url = DataUrl::new();

    data_url.set_fragment(Some("".to_string()));

    assert_eq!(data_url.fragment(), Some("".to_string()));

    Ok(())
}

#[test]
fn must_parse_empty_string_if_just_pound_sign_given() -> Result<(), DataUrlParseError> {
    let data_url = DataUrl::parse("data:,#")?;

    assert_eq!(data_url.fragment(), Some("".to_string()));

    Ok(())
}

#[test]
fn must_be_possible_to_unset() -> Result<(), DataUrlParseError> {
    let mut data_url = DataUrl::parse("data:,#something")?;

    assert_eq!(data_url.fragment(), Some("something".to_string()));

    data_url.set_fragment(None);

    assert_eq!(data_url.fragment(), None);

    Ok(())
}

#[test]
fn must_be_possible_to_set() -> Result<(), DataUrlParseError> {
    let mut data_url = DataUrl::new();

    data_url.set_fragment(Some("something".to_string()));

    assert_eq!(data_url.fragment(), Some("something".to_string()));

    Ok(())
}

#[test]
fn must_be_possible_to_set_it_to_a_whitespace() -> Result<(), DataUrlParseError> {
    let mut data_url = DataUrl::new();

    data_url.set_fragment(Some(" ".to_string()));

    assert_eq!(data_url.fragment(), Some(" ".to_string()));

    Ok(())
}

#[test]
fn must_remain_abset_if_given_none() -> Result<(), DataUrlParseError> {
    let mut data_url = DataUrl::new();

    data_url.set_fragment(None);

    assert_eq!(data_url.fragment(), None);

    Ok(())
}

#[test]
fn must_be_text_plain_by_default() -> Result<(), DataUrlParseError> {
    let data_url = DataUrl::new();

    assert_eq!(data_url.media_type(), "text/plain");

    Ok(())
}

#[test]
fn media_type_must_be_possible_to_set_to_image_png() -> Result<(), DataUrlParseError> {
    let mut data_url = DataUrl::new();

    data_url.set_media_type(Some("image/png".to_string()));

    assert_eq!(data_url.media_type(), "image/png");

    Ok(())
}

#[test]
fn must_fall_back_to_text_plain_if_set_to_empty() -> Result<(), DataUrlParseError> {
    let mut data_url = DataUrl::new();

    data_url.set_media_type(Some("".to_string()));

    assert_eq!(data_url.media_type(), "text/plain");

    Ok(())
}

#[test]
fn must_fall_back_to_text_plain_if_attempted_to_set_to_whitespace(
) -> Result<(), DataUrlParseError> {
    let mut data_url = DataUrl::new();

    data_url.set_media_type(Some(" ".to_string()));

    assert_eq!(data_url.media_type(), "text/plain");

    Ok(())
}

#[test]
fn media_type_no_default_must_be_none_by_default() -> Result<(), DataUrlParseError> {
    let data_url = DataUrl::new();

    assert_eq!(data_url.media_type_no_default(), None);

    Ok(())
}

#[test]
fn media_type_no_default_must_be_possible_to_set_to_image_png() -> Result<(), DataUrlParseError> {
    let mut data_url = DataUrl::new();

    data_url.set_media_type(Some("image/png".to_string()));

    assert_eq!(
        data_url.media_type_no_default(),
        Some("image/png".to_string())
    );

    Ok(())
}

#[test]
fn must_fall_back_to_none_if_set_to_empty() -> Result<(), DataUrlParseError> {
    let mut data_url = DataUrl::new();

    data_url.set_media_type(Some("".to_string()));

    assert_eq!(data_url.media_type_no_default(), None);

    Ok(())
}

#[test]
fn must_fall_back_to_none_if_attempted_to_set_to_whitespace() -> Result<(), DataUrlParseError> {
    let mut data_url = DataUrl::new();

    data_url.set_media_type(Some(" ".to_string()));

    assert_eq!(data_url.media_type_no_default(), None);

    Ok(())
}
