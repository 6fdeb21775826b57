use takumi_html::api::{
    ImageFormat, InlineTemplateInput, RenderInput, TemplateContentKind, TemplateInput,
    TemplateRequest,
};
use takumi_html::assets::{AssetKind, AssetStore, FileAsset, Step};
use takumi_html::cache::{FileCache, FileSignature, FontCache, FontFileAction};
use takumi_html::convert::{convert_document, convert_fragment, merge_stylesheet_sources};
use takumi_html::emoji::{split_text_to_pieces, EmojiPiece, EmojiType};
use takumi_html::error::HtmlError;
use takumi_html::filters::{timestamp_is_millis, to_hex};
use takumi_html::markdown::{lines_with_endings, FormattingConfig};
use takumi_html::node::HtmlNodeKind;
use takumi_html::options::{FromHtmlOptions, LocalAssetMode};
use takumi_html::renderer::{
    collect_html_resource_urls, collect_stylesheet_resource_urls, dedup_paths,
    is_local_cached_asset_reference, is_supported_font_file, search_paths_with_parent,
    split_reference_suffix as split_cached_reference, validate_request, BaseAttempts,
};
use takumi_html::renderer_error::RendererError;
use takumi_html::resource::split_reference_suffix;
use takumi_html::template::{context_json_text, TemplateEngine, TemplateEvent, TemplateStep};
use takumi_html::template_paths::{join_template_name, normalize_template_path};
use takumi_html::whitespace::normalize_text_run;

fn strings(items: &[&str]) -> Vec<String> {
    items.iter().map(|s| s.to_string()).collect()
}

fn inline_request(kind: TemplateContentKind, source: &str) -> TemplateRequest {
    TemplateRequest {
        input: TemplateInput::Inline(InlineTemplateInput {
            source: source.to_string(),
            logical_name: None,
        }),
        context_json: Some("  {\"name\": \"Takumi\"}  ".to_string()),
        content_kind: kind,
        syntax_theme: None,
    }
}

#[test]
fn preserved_assets_convert_without_reading_files() {
    let markup = r#"<html><head><link rel="stylesheet" href="a.css"><style>p { background: url('./b.png'); }</style></head><body><img src="c.png"></body></html>"#;
    match convert_document(markup, &FromHtmlOptions::new(), &AssetStore::new()) {
        Step::Done(result) => assert_eq!(result.stylesheets.len(), 1),
        other => panic!("expected a finished conversion, got {:?}", other),
    }
}

#[test]
fn conversion_asks_only_for_missing_files() {
    let markup = r#"<img src="relative.png">"#;
    let options = FromHtmlOptions::new().with_base_path("/base").resolve_local_assets(true);
    let mut store = AssetStore::new();
    let request = match convert_fragment(markup, &options, &store) {
        Step::Needs(request) => request,
        other => panic!("expected a file request, got {:?}", other),
    };
    assert_eq!(request.kind, AssetKind::FileBytes);
    assert_eq!(request.base_dir, "/base");
    assert_eq!(request.relative_path, "relative.png");

    store.files.push(FileAsset {
        base_dir: "/base".to_string(),
        relative_path: "relative.png".to_string(),
        path: "/base/relative.png".to_string(),
        result: Ok(vec![1, 2, 3]),
    });
    match convert_fragment(markup, &options, &store) {
        Step::Done(result) => match result.node.kind {
            HtmlNodeKind::Image { src, .. } => assert_eq!(src, "data:image/png;base64,AQID"),
            other => panic!("expected an image, got {:?}", other),
        },
        other => panic!("expected a finished conversion, got {:?}", other),
    }
}

#[test]
fn unreadable_image_reports_its_path() {
    let options = FromHtmlOptions::new()
        .with_base_path("/base")
        .local_asset_mode(LocalAssetMode::AbsolutePath);
    let mut store = AssetStore::new();
    store.canonical_paths.push(takumi_html::assets::CanonicalAsset {
        base_dir: "/base".to_string(),
        relative_path: "gone.png".to_string(),
        path: "/base/gone.png".to_string(),
        result: Err("not found".to_string()),
    });
    match convert_fragment(r#"<img src="gone.png">"#, &options, &store) {
        Step::Failed(error) => {
            assert_eq!(
                error,
                HtmlError::AssetReadFailed {
                    path: "/base/gone.png".to_string(),
                    reason: "not found".to_string()
                }
            );
            assert_eq!(error.message(), "failed to read asset `/base/gone.png` (not found)");
        }
        other => panic!("expected a failure, got {:?}", other),
    }
}

#[test]
fn images_require_a_source() {
    match convert_fragment("<img>", &FromHtmlOptions::new(), &AssetStore::new()) {
        Step::Failed(error) => {
            assert_eq!(error, HtmlError::MissingImageSource { tag_name: "img".to_string() });
            assert_eq!(error.message(), "<img> elements require a src attribute");
        }
        other => panic!("expected a failure, got {:?}", other),
    }
}

#[test]
fn rejected_inline_style_is_reported() {
    match convert_fragment(
        r#"<div style="width: banana">x</div>"#,
        &FromHtmlOptions::new(),
        &AssetStore::new(),
    ) {
        Step::Failed(HtmlError::InlineStyleParse { tag_name, value, .. }) => {
            assert_eq!(tag_name, "div");
            assert_eq!(value, "width: banana");
        }
        other => panic!("expected a style failure, got {:?}", other),
    }
}

#[test]
fn element_metadata_is_carried_over() {
    match convert_fragment(
        r#"<p class="lead" id="intro" dir="RTL" data-x="1" style=" color: red; ">Hi</p>"#,
        &FromHtmlOptions::new(),
        &AssetStore::new(),
    ) {
        Step::Done(result) => {
            let node = result.node;
            assert_eq!(node.tag_name.as_deref(), Some("p"));
            assert_eq!(node.class_name.as_deref(), Some("lead"));
            assert_eq!(node.id.as_deref(), Some("intro"));
            assert_eq!(node.dir, Some(takumi_html::node::TextDirection::Rtl));
            assert_eq!(node.attributes, vec![("data-x".to_string(), "1".to_string())]);
            assert_eq!(node.style.as_deref(), Some("color: red;"));
        }
        other => panic!("expected a finished conversion, got {:?}", other),
    }
}

#[test]
fn comments_and_scripts_are_dropped() {
    match convert_fragment(
        "<div><!-- note --><script>x()</script>Ready</div>",
        &FromHtmlOptions::new(),
        &AssetStore::new(),
    ) {
        Step::Done(result) => match &result.node.kind {
            HtmlNodeKind::Container(children) => {
                assert_eq!(children.len(), 1);
                assert!(matches!(&children[0].kind, HtmlNodeKind::Text(t) if t == "Ready"));
            }
            other => panic!("expected a container, got {:?}", other),
        },
        other => panic!("expected a finished conversion, got {:?}", other),
    }
}

#[test]
fn svg_gets_the_xlink_namespace_when_it_uses_xlink() {
    match convert_fragment(
        r##"<svg><use xlink:href="#a"></use></svg>"##,
        &FromHtmlOptions::new(),
        &AssetStore::new(),
    ) {
        Step::Done(result) => match result.node.kind {
            HtmlNodeKind::Image { src, .. } => {
                assert!(src.starts_with("<svg xmlns=\"http://www.w3.org/2000/svg\""));
                assert!(src.contains("xmlns:xlink=\"http://www.w3.org/1999/xlink\""));
            }
            other => panic!("expected an image, got {:?}", other),
        },
        other => panic!("expected a finished conversion, got {:?}", other),
    }
}

#[test]
fn merged_stylesheets_keep_additional_sources_first() {
    assert_eq!(
        merge_stylesheet_sources(strings(&["a", "b"]), strings(&["c"])),
        strings(&["a", "b", "c"])
    );
}

#[test]
fn normalization_is_stable() {
    let options = FromHtmlOptions::new().normalize_whitespace(true);
    let once = normalize_text_run(" \t a \n\n b  ", &options, false, false).unwrap();
    assert_eq!(once, " a b ");
    let twice = normalize_text_run(&once, &options, false, false).unwrap();
    assert_eq!(twice, once);
    assert_eq!(normalize_text_run("  a  b ", &options, false, true).unwrap(), "a b");
    assert_eq!(normalize_text_run(" \n ", &options, false, false), None);
    assert_eq!(normalize_text_run(" \n ", &options, true, false).unwrap(), " \n ");
}

#[test]
fn emoji_pieces_name_their_images() {
    let pieces = split_text_to_pieces("Hi 😀", EmojiType::Twemoji).unwrap();
    assert_eq!(pieces.len(), 2);
    assert!(matches!(&pieces[0], EmojiPiece::Text(t) if t == "Hi "));
    assert!(matches!(&pieces[1], EmojiPiece::Image(url) if url.ends_with("/1f600.svg")));
    assert!(split_text_to_pieces("no emoji here", EmojiType::Twemoji).is_none());
}

#[test]
fn dedup_keeps_first_occurrences() {
    let once = dedup_paths(&strings(&["a", "b", "a", "c", "b"]));
    assert_eq!(once, strings(&["a", "b", "c"]));
    assert_eq!(dedup_paths(&once), once);
}

#[test]
fn file_directory_is_searched_first() {
    assert_eq!(
        search_paths_with_parent(strings(&["/x", "/y"]), Some("/pages".to_string())),
        strings(&["/pages", "/x", "/y"])
    );
    assert_eq!(
        search_paths_with_parent(strings(&["/x", "/pages"]), Some("/pages".to_string())),
        strings(&["/x", "/pages"])
    );
}

#[test]
fn later_search_paths_are_tried_after_retryable_failures() {
    let mut attempts = BaseAttempts::new();
    let missing = HtmlError::AssetReadFailed { path: "/a/x.png".to_string(), reason: "gone".to_string() };
    assert!(attempts.after_failure(missing.clone()).is_none());
    assert!(attempts
        .after_failure(HtmlError::AssetReadFailed { path: "/b/x.png".to_string(), reason: "gone".to_string() })
        .is_none());
    assert_eq!(attempts.exhausted(), RendererError::Html(missing.message()));
    let fatal = HtmlError::MissingImageSource { tag_name: "img".to_string() };
    assert_eq!(attempts.after_failure(fatal.clone()), Some(RendererError::Html(fatal.message())));
    assert_eq!(
        BaseAttempts::new().exhausted().message(),
        "invalid render request: no usable search paths were available for relative assets"
    );
}

#[test]
fn font_bytes_are_loaded_once() {
    let mut cache = FontCache::new();
    let bytes = vec![0u8, 1, 2, 3];
    let (load, hash) = cache.plan_font_bytes(&bytes);
    assert!(load);
    cache.remember_hash(hash);
    assert_eq!(cache.plan_font_bytes(&bytes), (false, hash));
    let (action, _) = cache.plan_font_file("/fonts/copy.ttf", &bytes);
    assert_eq!(action, FontFileAction::RememberPath);
    cache.remember_path("/fonts/copy.ttf".to_string());
    cache.remember_hash(hash);
    assert_eq!(cache.entry_count(), 1);
    assert_eq!(cache.plan_font_file("/fonts/copy.ttf", &[9]).0, FontFileAction::AlreadyLoaded);
    assert_eq!(cache.plan_font_file("/fonts/new.ttf", &[9, 9, 9]).0, FontFileAction::Load);
    cache.clear();
    assert_eq!(cache.entry_count(), 0);
    assert!(!cache.contains_path("/fonts/copy.ttf"));
}

#[test]
fn file_cache_serves_unchanged_files() {
    let mut cache = FileCache::new();
    let signature = FileSignature { len: 3, modified_nanos: Some(7) };
    cache.store("/a".to_string(), signature, vec![1, 2, 3]);
    assert_eq!(cache.cached("/a", signature), Some(vec![1, 2, 3]));
    assert_eq!(cache.cached("/a", FileSignature { len: 3, modified_nanos: Some(8) }), None);
    assert_eq!(cache.cached("/b", signature), None);
    cache.store("/a".to_string(), signature, vec![4]);
    assert_eq!(cache.cached("/a", signature), Some(vec![4]));
    cache.clear();
    assert_eq!(cache.cached("/a", signature), None);
}

#[test]
fn registered_templates_can_be_replaced_and_cleared() {
    let mut engine = TemplateEngine::new();
    let request = TemplateRequest {
        input: TemplateInput::Registered(" card ".to_string()),
        context_json: None,
        content_kind: TemplateContentKind::Markdown,
        syntax_theme: None,
    };
    assert!(matches!(
        engine.render(&request, TemplateEvent::Start),
        Err(RendererError::TemplateNotFound(name)) if name == "card"
    ));
    assert_eq!(
        engine.add_template("   ".to_string(), "x".to_string()),
        Err(RendererError::InvalidRequest("template name cannot be empty".to_string()))
    );
    engine.add_template(" card ".to_string(), "# Old".to_string()).unwrap();
    engine.add_template("card".to_string(), "# New".to_string()).unwrap();
    match engine.render(&request, TemplateEvent::Start).unwrap() {
        TemplateStep::Done(html) => assert_eq!(html, "<h1>New</h1>\n"),
        other => panic!("expected finished markup, got {:?}", other),
    }
    engine.clear_templates();
    assert!(engine.render(&request, TemplateEvent::Start).is_err());
}

#[test]
fn jinja_templates_are_handed_out_with_the_engine_state() {
    let mut engine = TemplateEngine::new();
    engine.add_search_path("/templates".to_string());
    engine.add_search_path("/templates".to_string());
    engine.add_template("base".to_string(), "{{ name }}".to_string()).unwrap();
    let request = inline_request(TemplateContentKind::JinjaHtml, "<b>{{ name }}</b>");
    match engine.render(&request, TemplateEvent::Start).unwrap() {
        TemplateStep::RenderJinja(job) => {
            assert_eq!(job.logical_name, "inline.html.jinja");
            assert!(job.add_source_template);
            assert!(job.escape_html);
            assert_eq!(job.search_paths, strings(&["/templates"]));
            assert_eq!(job.registered_templates.len(), 1);
            assert_eq!(job.context_json.as_deref(), Some("{\"name\": \"Takumi\"}"));
            assert_eq!(job.syntax_theme, "base16-ocean.dark");
        }
        other => panic!("expected a Jinja job, got {:?}", other),
    }
    let markdown = inline_request(TemplateContentKind::JinjaMarkdown, "*{{ name }}*");
    match engine
        .render(&markdown, TemplateEvent::JinjaRendered("*Takumi*".to_string()))
        .unwrap()
    {
        TemplateStep::Done(html) => assert_eq!(html, "<p><em>Takumi</em></p>\n"),
        other => panic!("expected finished markup, got {:?}", other),
    }
}

#[test]
fn template_files_are_asked_for_then_reported_missing() {
    let engine = TemplateEngine::new();
    let request = TemplateRequest {
        input: TemplateInput::File(" index.jinja ".to_string()),
        context_json: None,
        content_kind: TemplateContentKind::JinjaHtml,
        syntax_theme: None,
    };
    match engine.render(&request, TemplateEvent::Start).unwrap() {
        TemplateStep::ReadFile { reference, search_paths } => {
            assert_eq!(reference, "index.jinja");
            assert!(search_paths.is_empty());
        }
        other => panic!("expected a file request, got {:?}", other),
    }
    assert_eq!(
        engine.render(&request, TemplateEvent::FileMissing).unwrap_err(),
        RendererError::TemplateNotFound(" index.jinja ".to_string())
    );
}

#[test]
fn invalid_template_requests_are_refused() {
    let engine = TemplateEngine::new();
    let mut request = inline_request(TemplateContentKind::Markdown, "x");
    request.input = TemplateInput::File("  ".to_string());
    assert_eq!(
        engine.render(&request, TemplateEvent::Start).unwrap_err().message(),
        "invalid render request: input.file cannot be empty"
    );
    request.input = TemplateInput::Registered(" ".to_string());
    assert_eq!(
        engine.render(&request, TemplateEvent::Start).unwrap_err(),
        RendererError::InvalidRequest("input.registered cannot be empty".to_string())
    );
    request.input = TemplateInput::Inline(InlineTemplateInput {
        source: "x".to_string(),
        logical_name: Some(" ".to_string()),
    });
    assert_eq!(
        engine.render(&request, TemplateEvent::Start).unwrap_err(),
        RendererError::InvalidRequest("input.logical_name cannot be empty when provided".to_string())
    );
    assert_eq!(
        FormattingConfig::new(Some("  ")).unwrap_err(),
        RendererError::InvalidRequest("request.syntax_theme cannot be empty".to_string())
    );
    assert!(FormattingConfig::new(Some(" base16-ocean.dark ")).is_ok());
}

#[test]
fn context_text_is_trimmed_and_blank_means_empty() {
    assert_eq!(context_json_text(&None), None);
    assert_eq!(context_json_text(&Some(" \n ".to_string())), None);
    assert_eq!(context_json_text(&Some(" {} ".to_string())).as_deref(), Some("{}"));
}

#[test]
fn hex_filter_pads_to_width() {
    assert_eq!(to_hex(255, 2), "0xFF");
    assert_eq!(to_hex(255, 4), "0x00FF");
    assert_eq!(to_hex(0, 0), "0x0");
    assert_eq!(to_hex(0xABCDEF, 2), "0xABCDEF");
}

#[test]
fn timestamps_beyond_ten_digits_are_milliseconds() {
    assert!(!timestamp_is_millis(0));
    assert!(!timestamp_is_millis(9_999_999_999));
    assert!(timestamp_is_millis(10_000_000_000));
    assert!(timestamp_is_millis(-10_000_000_000));
}

#[test]
fn included_templates_resolve_against_their_parent() {
    let none: Vec<String> = Vec::new();
    assert_eq!(
        join_template_name("./partials/footer.jinja", "/tpl/index.jinja", &none),
        "/tpl/partials/footer.jinja"
    );
    assert_eq!(join_template_name("../a.jinja", "x/y/b.jinja", &none), "x/a.jinja");
    assert_eq!(join_template_name("footer.jinja", "index.jinja", &none), "footer.jinja");
    assert_eq!(
        join_template_name("cards/a", "/tpl/index.jinja", &strings(&["cards/a"])),
        "cards/a"
    );
    assert_eq!(normalize_template_path("/a/./b/../c"), "/a/c");
    assert_eq!(normalize_template_path("a/../../b"), "b");
}

#[test]
fn font_files_are_found_by_extension() {
    assert!(is_supported_font_file("/fonts/Rubik-Regular.TTF"));
    assert!(is_supported_font_file("a.otc"));
    assert!(!is_supported_font_file("/fonts/ignore.txt"));
    assert!(!is_supported_font_file("/fonts/.ttf"));
    assert!(!is_supported_font_file("/fonts.ttf/readme"));
}

#[test]
fn resource_urls_are_collected_in_order() {
    assert_eq!(
        collect_stylesheet_resource_urls(&strings(&[
            "a { background: url('/x.png') } b { background: URL( /y.png ) }",
            "c { background: url(\"/z.png\") }",
        ])),
        strings(&["/x.png", "/y.png", "/z.png"])
    );
    assert_eq!(
        collect_html_resource_urls(r#"<div style="background: url(/a.png)"><img src="/b.png"><img src="c.png"></div>"#),
        strings(&["/a.png", "/b.png", "c.png"])
    );
}

#[test]
fn cached_asset_references_split_past_verbatim_prefixes() {
    assert_eq!(
        split_cached_reference("//?/C:/x.png?v=1"),
        ("//?/C:/x.png".to_string(), "?v=1".to_string())
    );
    assert_eq!(split_reference_suffix("a.png#frag"), ("a.png", "#frag"));
    assert!(is_local_cached_asset_reference(" /tmp/a.png?x "));
    assert!(!is_local_cached_asset_reference("relative.png"));
    assert!(!is_local_cached_asset_reference("?only"));
}

#[test]
fn render_requests_are_validated_in_order() {
    let inline = RenderInput::Inline("<div />".to_string());
    assert!(validate_request(None, None, true, &inline).is_ok());
    assert_eq!(
        validate_request(Some(1), Some(0), false, &inline).unwrap_err().message(),
        "invalid render request: viewport width and height must be greater than zero when provided"
    );
    assert_eq!(
        validate_request(Some(1), Some(1), false, &inline).unwrap_err(),
        RendererError::InvalidRequest("viewport device_pixel_ratio must be greater than zero".to_string())
    );
    assert_eq!(
        validate_request(None, None, true, &RenderInput::File(" ".to_string())).unwrap_err(),
        RendererError::InvalidRequest("input.file cannot be empty".to_string())
    );
}

#[test]
fn image_formats_have_media_types() {
    assert_eq!(ImageFormat::Png.content_type(), "image/png");
    assert_eq!(ImageFormat::WebP.content_type(), "image/webp");
    assert_eq!(ImageFormat::Jpeg.content_type(), "image/jpeg");
}

#[test]
fn code_is_split_into_lines_with_their_breaks() {
    assert_eq!(lines_with_endings("a\nb"), strings(&["a\n", "b"]));
    assert_eq!(lines_with_endings("a\n"), strings(&["a\n"]));
    assert!(lines_with_endings("").is_empty());
}

#[test]
fn renderer_errors_read_with_their_kind() {
    assert_eq!(RendererError::Json("bad".to_string()).message(), "failed to parse JSON context: bad");
    assert_eq!(RendererError::Io("x".to_string()).message(), "I/O error: x");
    assert_eq!(RendererError::template_not_found("t").message(), "template not found: t");
    assert_eq!(RendererError::encode("e").message(), "failed to encode image: e");
}
