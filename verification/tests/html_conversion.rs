use takumi_html::assets::{
    AssetStore, CanonicalAsset, FileAsset, Step, StylesheetFile, TextAsset,
};
use takumi_html::convert::{convert_document, convert_fragment, ConvertedHtml};
use takumi_html::emoji::EmojiType;
use takumi_html::error::HtmlError;
use takumi_html::node::{HtmlNode, HtmlNodeKind};
use takumi_html::options::{FromHtmlOptions, LocalAssetMode};

const BASE: &str = "/tmp/fixtures";

fn finish(step: Step<ConvertedHtml>) -> Result<ConvertedHtml, HtmlError> {
    match step {
        Step::Done(converted) => Ok(converted),
        Step::Failed(error) => Err(error),
        Step::Needs(request) => panic!("unexpected file request: {:?}", request),
    }
}

fn from_html(markup: &str) -> Result<ConvertedHtml, HtmlError> {
    finish(convert_fragment(markup, &FromHtmlOptions::new(), &AssetStore::new()))
}

fn from_fragment(markup: &str) -> Result<ConvertedHtml, HtmlError> {
    finish(convert_fragment(markup, &FromHtmlOptions::new(), &AssetStore::new()))
}

fn from_document(markup: &str) -> Result<ConvertedHtml, HtmlError> {
    finish(convert_document(markup, &FromHtmlOptions::new(), &AssetStore::new()))
}

fn from_document_with(
    markup: &str,
    options: &FromHtmlOptions,
    store: &AssetStore,
) -> Result<ConvertedHtml, HtmlError> {
    finish(convert_document(markup, options, store))
}

fn tag(node: &HtmlNode) -> Option<&str> {
    node.tag_name.as_deref()
}

fn text(node: &HtmlNode) -> Option<&str> {
    match &node.kind {
        HtmlNodeKind::Text(t) => Some(t.as_str()),
        _ => None,
    }
}

fn children(node: &HtmlNode) -> &Vec<HtmlNode> {
    match &node.kind {
        HtmlNodeKind::Container(c) => c,
        _ => panic!("not a container: {:?}", node),
    }
}

fn image_sources(node: &HtmlNode, out: &mut Vec<String>) {
    match &node.kind {
        HtmlNodeKind::Image { src, .. } => out.push(src.clone()),
        HtmlNodeKind::Container(c) => {
            for child in c {
                image_sources(child, out);
            }
        }
        HtmlNodeKind::Text(_) => {}
    }
}

fn resource_urls(node: &HtmlNode) -> Vec<String> {
    let mut out = Vec::new();
    image_sources(node, &mut out);
    out
}

fn all_text(node: &HtmlNode, out: &mut String) {
    match &node.kind {
        HtmlNodeKind::Text(t) => out.push_str(t),
        HtmlNodeKind::Image { src, .. } => out.push_str(src),
        HtmlNodeKind::Container(c) => {
            for child in c {
                all_text(child, out);
            }
        }
    }
    if let Some(style) = &node.style {
        out.push_str(style);
    }
}

fn rendered_text(node: &HtmlNode) -> String {
    let mut out = String::new();
    all_text(node, &mut out);
    out
}

fn tiny_png_bytes() -> Vec<u8> {
    vec![
        137, 80, 78, 71, 13, 10, 26, 10, 0, 0, 0, 13, 73, 72, 68, 82, 0, 0, 0, 1, 0, 0, 0, 1, 8,
        6, 0, 0, 0, 31, 21, 196, 137, 0, 0, 0, 13, 73, 68, 65, 84, 120, 156, 99, 248, 255, 255,
        63, 0, 5, 254, 2, 254, 167, 53, 129, 132, 0, 0, 0, 0, 73, 69, 78, 68, 174, 66, 96, 130,
    ]
}

fn text_file(base: &str, relative: &str, content: &str, parent: &str) -> TextAsset {
    TextAsset {
        base_dir: base.to_string(),
        relative_path: relative.to_string(),
        path: format!("{}/{}", base, relative),
        result: Ok(StylesheetFile {
            content: content.to_string(),
            parent_dir: Some(parent.to_string()),
        }),
    }
}

fn byte_file(base: &str, relative: &str, bytes: Vec<u8>) -> FileAsset {
    FileAsset {
        base_dir: base.to_string(),
        relative_path: relative.to_string(),
        path: format!("{}/{}", base, relative),
        result: Ok(bytes),
    }
}

fn canonical_file(base: &str, relative: &str, canonical: &str) -> CanonicalAsset {
    CanonicalAsset {
        base_dir: base.to_string(),
        relative_path: relative.to_string(),
        path: format!("{}/{}", base, relative),
        result: Ok(canonical.to_string()),
    }
}

#[test]
fn converts_plain_text() {
    let result = from_html("Hello, world!").unwrap();

    assert!(result.stylesheets.is_empty());
    assert_eq!(tag(&result.node), None);
    assert_eq!(text(&result.node), Some("Hello, world!"));
}

#[test]
fn converts_nested_elements() {
    let result = from_html("<div><span>Nested</span></div>").unwrap();

    assert_eq!(tag(&result.node), Some("div"));
    let inner = children(&result.node);
    assert_eq!(inner.len(), 1);
    assert_eq!(tag(&inner[0]), Some("span"));
    assert_eq!(text(&inner[0]), Some("Nested"));
}

#[test]
fn converts_images() {
    let result =
        from_html(r#"<img src="https://example.com/example.png" width="64" height="32">"#).unwrap();

    assert_eq!(resource_urls(&result.node), vec!["https://example.com/example.png"]);
    match &result.node.kind {
        HtmlNodeKind::Image { src, width, height } => {
            assert_eq!(src, "https://example.com/example.png");
            assert_eq!(width.as_deref(), Some("64"));
            assert_eq!(height.as_deref(), Some("32"));
        }
        other => panic!("expected an image, got {:?}", other),
    }
}

#[test]
fn extracts_stylesheets() {
    let result = from_html("<style>body { color: red; }</style><div>Ready</div>").unwrap();

    assert_eq!(result.stylesheets, vec!["body { color: red; }".to_string()]);
    assert_eq!(tag(&result.node), Some("div"));
    assert_eq!(text(&result.node), Some("Ready"));
}

#[test]
fn converts_line_breaks() {
    let result = from_html("<div>foo<br>bar</div>").unwrap();
    let rendered = rendered_text(&result.node);

    assert!(rendered.contains("foo"));
    assert!(rendered.contains("bar"));
    assert!(rendered.contains('\n'));
    let parts = children(&result.node);
    assert_eq!(tag(&parts[1]), Some("br"));
    assert_eq!(text(&parts[1]), Some("\n"));
}

#[test]
fn wraps_multiple_root_nodes() {
    let result = from_fragment("<span>foo</span><span>bar</span>").unwrap();

    assert_eq!(tag(&result.node), None);
    let parts = children(&result.node);
    assert_eq!(parts.len(), 2);
    assert_eq!((tag(&parts[0]), text(&parts[0])), (Some("span"), Some("foo")));
    assert_eq!((tag(&parts[1]), text(&parts[1])), (Some("span"), Some("bar")));
}

#[test]
fn converts_full_documents() {
    let result = from_document(
        r#"<!doctype html><html><head><meta charset="utf-8"><title>Demo</title><style>body { background-color: red; }</style></head><body><div class="message">Ready</div></body></html>"#,
    )
    .unwrap();

    assert_eq!(result.stylesheets, vec!["body { background-color: red; }".to_string()]);
    assert_eq!(tag(&result.node), Some("html"));
    let body = &children(&result.node)[0];
    assert_eq!(children(&result.node).len(), 1);
    assert_eq!(tag(body), Some("body"));
    let div = &children(body)[0];
    assert_eq!(tag(div), Some("div"));
    assert_eq!(div.class_name.as_deref(), Some("message"));
    assert_eq!(text(div), Some("Ready"));
}

#[test]
fn stylesheet_sources_with_preserve_external_then_extracted_order() {
    let result = from_html("<style>.inline { color: blue; }</style><div>Ready</div>").unwrap();

    assert_eq!(
        result.stylesheet_sources_with(vec![".external { color: red; }".to_string()]),
        vec![".external { color: red; }".to_string(), ".inline { color: blue; }".to_string()]
    );
}

#[test]
fn loads_linked_stylesheets_before_inline_styles() {
    let mut store = AssetStore::new();
    store.texts.push(text_file(BASE, "linked.css", ".external { color: red; }", BASE));

    let options = FromHtmlOptions::new().with_base_path(BASE).load_linked_stylesheets(true);
    let result = from_document_with(
        r#"<!doctype html><html><head><link rel="stylesheet" href="linked.css"><style>.inline { color: blue; }</style></head><body><div>Ready</div></body></html>"#,
        &options,
        &store,
    )
    .unwrap();

    assert_eq!(
        result.stylesheets,
        vec![".external { color: red; }".to_string(), ".inline { color: blue; }".to_string()]
    );
}

#[test]
fn ignores_non_stylesheet_links() {
    let mut store = AssetStore::new();
    store.texts.push(text_file(BASE, "linked.css", ".external { color: red; }", BASE));

    let options = FromHtmlOptions::new().with_base_path(BASE).load_linked_stylesheets(true);
    let result = from_document_with(
        r#"<!doctype html><html><head><link rel="preload" href="linked.css"></head><body><div>Ready</div></body></html>"#,
        &options,
        &store,
    )
    .unwrap();

    assert!(result.stylesheets.is_empty());
}

#[test]
fn stylesheet_links_require_href() {
    let options = FromHtmlOptions::new().load_linked_stylesheets(true);
    let error = from_document_with(
        r#"<!doctype html><html><head><link rel="stylesheet"></head><body><div>Ready</div></body></html>"#,
        &options,
        &AssetStore::new(),
    )
    .unwrap_err();

    assert_eq!(error, HtmlError::MissingLinkedStylesheetHref { tag_name: "link".to_string() });
}

#[test]
fn resolves_local_image_sources_to_data_uris() {
    let mut store = AssetStore::new();
    store.files.push(byte_file(BASE, "relative.png", tiny_png_bytes()));

    let options = FromHtmlOptions::new().with_base_path(BASE).resolve_local_assets(true);
    let result = from_document_with(
        r#"<!doctype html><html><body><img src="relative.png" width="16" height="16"></body></html>"#,
        &options,
        &store,
    )
    .unwrap();

    let urls = resource_urls(&result.node);
    assert_eq!(urls.len(), 1);
    assert!(urls[0].starts_with("data:image/png;base64,"));
}

#[test]
fn resolves_local_image_sources_to_absolute_paths() {
    let expected = "/tmp/fixtures/relative.png";
    let mut store = AssetStore::new();
    store.canonical_paths.push(canonical_file(BASE, "relative.png", expected));

    let options = FromHtmlOptions::new()
        .with_base_path(BASE)
        .local_asset_mode(LocalAssetMode::AbsolutePath);
    let result = from_document_with(
        r#"<!doctype html><html><body><img src="relative.png" width="16" height="16"></body></html>"#,
        &options,
        &store,
    )
    .unwrap();

    assert_eq!(resource_urls(&result.node), vec![expected.to_string()]);
}

#[test]
fn rewrites_local_css_urls_using_their_source_directory() {
    let styles = "/tmp/fixtures/styles";
    let mut store = AssetStore::new();
    store.texts.push(text_file(
        BASE,
        "styles/linked.css",
        ".panel { background-image: url('../relative.png'); }",
        styles,
    ));
    store.files.push(byte_file(styles, "../relative.png", tiny_png_bytes()));

    let options = FromHtmlOptions::new()
        .with_base_path(BASE)
        .load_linked_stylesheets(true)
        .resolve_local_assets(true);
    let result = from_document_with(
        r#"<!doctype html><html><head><link rel="stylesheet" href="styles/linked.css"></head><body><div class="panel"></div></body></html>"#,
        &options,
        &store,
    )
    .unwrap();

    assert!(result.stylesheets[0].contains("url(\"data:image/png;base64,"));
}

#[test]
fn rewrites_local_css_urls_to_absolute_paths_using_their_source_directory() {
    let styles = "/tmp/fixtures/styles";
    let expected = "/tmp/fixtures/relative.png";
    let mut store = AssetStore::new();
    store.texts.push(text_file(
        BASE,
        "styles/linked.css",
        ".panel { background-image: url('../relative.png'); }",
        styles,
    ));
    store.canonical_paths.push(canonical_file(styles, "../relative.png", expected));

    let options = FromHtmlOptions::new()
        .with_base_path(BASE)
        .load_linked_stylesheets(true)
        .local_asset_mode(LocalAssetMode::AbsolutePath);
    let result = from_document_with(
        r#"<!doctype html><html><head><link rel="stylesheet" href="styles/linked.css"></head><body><div class="panel"></div></body></html>"#,
        &options,
        &store,
    )
    .unwrap();

    assert!(result.stylesheets[0].contains(expected));
}

#[test]
fn rewrites_local_css_urls_inside_inline_style_blocks() {
    let mut store = AssetStore::new();
    store.files.push(byte_file(BASE, "./relative.png", tiny_png_bytes()));

    let result = from_document_with(
        r#"<!doctype html><html><head><style>.panel { background-image: url('./relative.png'); }</style></head><body><div class="panel"></div></body></html>"#,
        &FromHtmlOptions::new().with_base_path(BASE).resolve_local_assets(true),
        &store,
    )
    .unwrap();

    assert!(result.stylesheets[0].contains("url(\"data:image/png;base64,"));
}

#[test]
fn rewrites_local_css_urls_inside_inline_style_attributes() {
    let mut store = AssetStore::new();
    store.files.push(byte_file(BASE, "./relative.png", tiny_png_bytes()));

    let result = from_document_with(
        r#"<!doctype html><html><body><div style="background-image: url('./relative.png')"></div></body></html>"#,
        &FromHtmlOptions::new().with_base_path(BASE).resolve_local_assets(true),
        &store,
    )
    .unwrap();

    let rendered = rendered_text(&result.node);
    assert!(rendered.contains("background-image"));
    assert!(rendered.contains("data:image/png;base64,"));
}

#[test]
fn rewrites_local_css_urls_inside_inline_style_attributes_to_absolute_paths() {
    let expected = "/tmp/fixtures/relative.png";
    let mut store = AssetStore::new();
    store.canonical_paths.push(canonical_file(BASE, "./relative.png", expected));

    let result = from_document_with(
        r#"<!doctype html><html><body><div style="background-image: url('./relative.png')"></div></body></html>"#,
        &FromHtmlOptions::new()
            .with_base_path(BASE)
            .local_asset_mode(LocalAssetMode::AbsolutePath),
        &store,
    )
    .unwrap();

    let rendered = rendered_text(&result.node);
    assert!(rendered.contains("background-image"));
    assert!(rendered.contains(expected));
}

#[test]
fn inline_style_relative_asset_resolution_requires_base_path() {
    let error = from_document_with(
        r#"<!doctype html><html><body><div style="background-image: url('./relative.png')"></div></body></html>"#,
        &FromHtmlOptions::new().resolve_local_assets(true),
        &AssetStore::new(),
    )
    .unwrap_err();

    assert_eq!(
        error,
        HtmlError::MissingBasePathForRelativeReference {
            reference: "./relative.png".to_string(),
            kind: "css url".to_string(),
        }
    );
}

#[test]
fn reports_missing_linked_stylesheet_files() {
    let mut store = AssetStore::new();
    store.texts.push(TextAsset {
        base_dir: BASE.to_string(),
        relative_path: "missing.css".to_string(),
        path: "/tmp/fixtures/missing.css".to_string(),
        result: Err("No such file or directory (os error 2)".to_string()),
    });
    let error = from_document_with(
        r#"<!doctype html><html><head><link rel="stylesheet" href="missing.css"></head><body><div>Ready</div></body></html>"#,
        &FromHtmlOptions::new().with_base_path(BASE).load_linked_stylesheets(true),
        &store,
    )
    .unwrap_err();

    assert!(matches!(
        error,
        HtmlError::AssetReadFailed { ref path, .. } if path.ends_with("missing.css")
    ));
}

#[test]
fn whitespace_normalization_is_opt_in() {
    let markup = "<div>\n  Ready\n</div>";

    let default_result = from_document(markup).unwrap();
    assert!(rendered_text(&default_result.node).contains("\n  Ready\n"));

    let normalized = from_document_with(
        markup,
        &FromHtmlOptions::new().normalize_whitespace(true),
        &AssetStore::new(),
    )
    .unwrap();

    assert_eq!(tag(&normalized.node), Some("html"));
    assert_eq!(children(&normalized.node).len(), 1);
    let body = &children(&normalized.node)[0];
    assert_eq!(tag(body), Some("body"));
    assert_eq!(children(body).len(), 1);
    let div = &children(body)[0];
    assert_eq!(tag(div), Some("div"));
    assert_eq!(text(div), Some("Ready"));
    assert_eq!((div.class_name.as_deref(), div.id.as_deref(), div.style.as_deref()), (None, None, None));
    assert!(div.attributes.is_empty());
}

#[test]
fn whitespace_normalization_preserves_inline_spacing_around_elements() {
    let result = from_document_with(
        "<div>Hello <span>world</span>\n</div>",
        &FromHtmlOptions::new().normalize_whitespace(true),
        &AssetStore::new(),
    )
    .unwrap();

    let body = &children(&result.node)[0];
    let div = &children(body)[0];
    let parts = children(div);
    assert_eq!(parts.len(), 2);
    assert_eq!((tag(&parts[0]), text(&parts[0])), (None, Some("Hello ")));
    assert_eq!((tag(&parts[1]), text(&parts[1])), (Some("span"), Some("world")));
}

#[test]
fn inline_svg_markup_adds_missing_xmlns() {
    let result = from_html(
        r##"<svg viewBox="0 0 10 10"><rect width="10" height="10" fill="#fff"></rect></svg>"##,
    )
    .unwrap();

    let urls = resource_urls(&result.node);
    assert_eq!(urls.len(), 1);
    assert!(urls[0].contains("xmlns=\"http://www.w3.org/2000/svg\""));
}

#[test]
fn extracts_emojis_into_inline_images_when_enabled() {
    let result = from_document_with(
        "<div>Hello 😀!</div>",
        &FromHtmlOptions::new().emoji_type(EmojiType::Twemoji),
        &AssetStore::new(),
    )
    .unwrap();

    assert_eq!(
        resource_urls(&result.node),
        vec!["https://cdn.jsdelivr.net/gh/jdecked/twemoji@17.0.2/assets/svg/1f600.svg"]
    );
    let rendered = rendered_text(&result.node);
    assert!(rendered.contains("Hello "));
    assert!(rendered.contains("vertical-align: -0.1em;"));
}

#[test]
fn leaves_emoji_text_unchanged_when_emoji_extraction_is_disabled() {
    let result = from_document("<div>Hello 😀!</div>").unwrap();

    assert!(resource_urls(&result.node).is_empty());
    assert!(rendered_text(&result.node).contains("😀"));
}

#[test]
fn relative_asset_resolution_requires_base_path() {
    let error = from_document_with(
        r#"<!doctype html><html><body><img src="relative.png"></body></html>"#,
        &FromHtmlOptions::new().resolve_local_assets(true),
        &AssetStore::new(),
    )
    .unwrap_err();

    assert_eq!(
        error,
        HtmlError::MissingBasePathForRelativeReference {
            reference: "relative.png".to_string(),
            kind: "image".to_string(),
        }
    );
}
