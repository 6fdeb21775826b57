use takumi_html::resource::{is_local_relative_reference, parse_url_token, split_reference_suffix};

#[test]
fn parses_quoted_css_url_tokens() {
    assert_eq!(
        parse_url_token(r#"background:url("./image.png")"#, 11),
        Some(("./image.png".to_string(), 29))
    );
}

#[test]
fn parses_unquoted_css_url_tokens() {
    assert_eq!(
        parse_url_token("background:url(./image.png)", 11),
        Some(("./image.png".to_string(), 27))
    );
}

#[test]
fn splits_reference_suffixes() {
    assert_eq!(split_reference_suffix("./font.woff2?#iefix"), ("./font.woff2", "?#iefix"));
}

#[test]
fn detects_local_relative_references() {
    assert!(is_local_relative_reference("./image.png"));
    assert!(is_local_relative_reference("../image.png"));
    assert!(!is_local_relative_reference("https://example.com/image.png"));
    assert!(!is_local_relative_reference("data:image/png;base64,abc"));
    assert!(!is_local_relative_reference("/image.png"));
}

#[test]
fn url_token_offsets_count_bytes() {
    let css = "é url(a.png) b";
    assert_eq!(parse_url_token(css, 3), Some(("a.png".to_string(), 13)));
    assert_eq!(&css[13..], " b");
    assert_eq!(parse_url_token(css, 1), None);
    assert_eq!(parse_url_token(css, 2), None);
    assert_eq!(parse_url_token(css, 40), None);
}
