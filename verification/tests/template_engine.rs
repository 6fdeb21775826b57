use takumi_html::api::{InlineTemplateInput, TemplateContentKind, TemplateInput, TemplateRequest};
use takumi_html::markdown::FormattingConfig;
use takumi_html::renderer_error::RendererError;
use takumi_html::template::{
    parse_context_json, resolve_source, SourceStep, TemplateEngine, TemplateEvent, TemplateRepository, TemplateStep,
};

fn render_inline(
    content_kind: TemplateContentKind,
    template_source: &str,
    context_json: Option<&str>,
) -> TemplateStep {
    let engine = TemplateEngine::new();
    let request = TemplateRequest {
        input: TemplateInput::Inline(InlineTemplateInput {
            source: template_source.to_string(),
            logical_name: Some("inline/index.jinja".to_string()),
        }),
        context_json: context_json.map(ToOwned::to_owned),
        content_kind,
        syntax_theme: Some("base16-ocean.dark".to_string()),
    };

    engine.render(&request, TemplateEvent::Start).expect("render inline template")
}

#[test]
fn rejects_unknown_syntax_theme() {
    let error = FormattingConfig::new(Some("missing-theme")).expect_err("reject theme");
    assert!(error.message().contains("supported built-in syntect theme"));
}

#[test]
fn renders_plain_markdown_without_template_state() {
    let rendered = render_inline(TemplateContentKind::Markdown, "# Title\n\nHello *world*.", None);

    match rendered {
        TemplateStep::Done(html) => {
            assert_eq!(html, "<h1>Title</h1>\n<p>Hello <em>world</em>.</p>\n")
        }
        other => panic!("expected finished markup, got {:?}", other),
    }
}

#[test]
fn resolve_source_supports_registered_templates() {
    let repository = TemplateRepository {
        search_paths: Vec::new(),
        registered_templates: vec![(
            "cards/profile.jinja".to_string(),
            "<div>{{ name }}</div>".to_string(),
        )],
    };

    let request = TemplateRequest {
        input: TemplateInput::Registered("cards/profile.jinja".to_string()),
        context_json: None,
        content_kind: TemplateContentKind::JinjaHtml,
        syntax_theme: None,
    };

    let resolved = match resolve_source(&request, &repository).expect("resolve source") {
        SourceStep::Resolved(resolved) => resolved,
        other => panic!("expected a resolved source, got {:?}", other),
    };
    assert_eq!(resolved.logical_name, "cards/profile.jinja");
    assert_eq!(resolved.source_text, "<div>{{ name }}</div>");
}

#[test]
fn parse_context_json_treats_missing_and_blank_as_empty_object() {
    assert_eq!(
        parse_context_json(&None).expect("parse missing context"),
        serde_json::Value::Object(Default::default())
    );
    assert_eq!(
        parse_context_json(&Some("   \n\t  ".to_string())).expect("parse blank context"),
        serde_json::Value::Object(Default::default())
    );
}

#[test]
fn invalid_context_json_is_a_json_error() {
    assert!(matches!(
        parse_context_json(&Some("{ not json".to_string())),
        Err(RendererError::Json(_))
    ));
    assert_eq!(
        parse_context_json(&Some(" {\"a\": 1} ".to_string())).expect("parse context")["a"],
        serde_json::Value::from(1)
    );
}

#[test]
fn unknown_theme_message_lists_the_builtin_themes_in_order() {
    let error = FormattingConfig::new(Some("  missing-theme ")).expect_err("reject theme");
    assert_eq!(
        error,
        RendererError::InvalidRequest(
            "request.syntax_theme `missing-theme` is not a supported built-in syntect theme (supported: \
             InspiredGitHub, Solarized (dark), Solarized (light), base16-eighties.dark, \
             base16-mocha.dark, base16-ocean.dark, base16-ocean.light)"
                .to_string()
        )
    );
    let blank = FormattingConfig::new(Some("   ")).expect_err("reject blank theme");
    assert_eq!(blank, RendererError::InvalidRequest("request.syntax_theme cannot be empty".to_string()));
    for name in ["InspiredGitHub", "Solarized (light)", "base16-ocean.light"] {
        assert_eq!(FormattingConfig::new(Some(name)).expect("builtin theme").syntax_theme(), name);
    }
}
