use minijinja::value::Kwargs;
use minijinja::{AutoEscape, Environment, Error, ErrorKind, Value};
use takumi_html::api::{InlineTemplateInput, TemplateContentKind, TemplateInput, TemplateRequest};
use takumi_html::filters::{format_timestamp, size_unit, to_hex, SizeUnit};
use takumi_html::markdown::{highlight_code, render_markdown_to_html, FormattingConfig};
use takumi_html::renderer_error::RendererError;
use takumi_html::template::{parse_context_json, JinjaJob, TemplateEngine, TemplateEvent, TemplateStep};

fn filter_error(error: RendererError) -> Error {
    Error::new(ErrorKind::InvalidOperation, error.message())
}

fn formatting(theme: &str) -> Result<FormattingConfig, Error> {
    FormattingConfig::new(Some(theme)).map_err(filter_error)
}

/// Renders the Jinja template that the engine hands out, with the filters
/// whose work the library does.
fn render_job(job: &JinjaJob) -> String {
    let mut env = Environment::new();
    let escape_html = job.escape_html;
    env.set_auto_escape_callback(move |_| if escape_html { AutoEscape::Html } else { AutoEscape::None });
    for (name, source) in &job.registered_templates {
        env.add_template_owned(name.clone(), source.clone()).expect("add registered template");
    }
    if job.add_source_template {
        env.add_template_owned(job.logical_name.clone(), job.source_text.clone())
            .expect("add inline template");
    }

    let markdown_theme = job.syntax_theme.clone();
    env.add_filter("markdown", move |value: String| -> Result<Value, Error> {
        let html = render_markdown_to_html(&value, &formatting(&markdown_theme)?).map_err(filter_error)?;
        Ok(Value::from_safe_string(html))
    });
    let highlight_theme = job.syntax_theme.clone();
    env.add_filter("highlight", move |code: String, lang: String| -> Result<Value, Error> {
        let html = highlight_code(&code, &lang, &formatting(&highlight_theme)?).map_err(filter_error)?;
        Ok(Value::from_safe_string(html))
    });
    env.add_filter("to_hex", |value: u64, kwargs: Kwargs| -> Result<String, Error> {
        let width: usize = kwargs.get("width").unwrap_or(4);
        kwargs.assert_all_used()?;
        Ok(to_hex(value, width))
    });
    env.add_filter("datetime_format", |ts: i64, format: String| -> Result<String, Error> {
        format_timestamp(ts, &format).map_err(|message| Error::new(ErrorKind::InvalidOperation, message))
    });
    env.add_filter("filesize", |bytes: u64| -> String {
        match size_unit(bytes) {
            SizeUnit::Bytes => format!("{} B", bytes),
            unit => format!("{:.2} {}", bytes as f64 / unit.divisor() as f64, unit.symbol()),
        }
    });
    env.add_filter("json_pretty", |value: Value| -> Result<Value, Error> {
        let json = serde_json::to_string_pretty(&value)
            .map_err(|error| Error::new(ErrorKind::InvalidOperation, error.to_string()))?;
        Ok(Value::from_safe_string(json))
    });

    let context = parse_context_json(&job.context_json).expect("parse context");
    env.get_template(&job.logical_name)
        .expect("find template")
        .render(context)
        .expect("render template")
}

fn render_inline(
    content_kind: TemplateContentKind,
    template_source: &str,
    context_json: Option<&str>,
) -> String {
    let engine = TemplateEngine::new();
    let request = TemplateRequest {
        input: TemplateInput::Inline(InlineTemplateInput {
            source: template_source.to_string(),
            logical_name: Some("inline/index.jinja".to_string()),
        }),
        context_json: context_json.map(ToOwned::to_owned),
        content_kind,
        syntax_theme: Some("base16-ocean.dark".to_string()),
    };

    let mut event = TemplateEvent::Start;
    loop {
        match engine.render(&request, event).expect("render inline template") {
            TemplateStep::Done(markup) => return markup,
            TemplateStep::RenderJinja(job) => event = TemplateEvent::JinjaRendered(render_job(&job)),
            other => panic!("an inline template reads no file, got {:?}", other),
        }
    }
}

#[test]
fn renders_nested_json_from_inline_template() {
    let rendered = render_inline(
        TemplateContentKind::JinjaHtml,
        "<div>{{ user.profile.display_name }}</div>",
        Some(r#"{"user":{"profile":{"display_name":"Takumi"}}}"#),
    );

    assert_eq!(rendered, "<div>Takumi</div>");
}

#[test]
fn renders_static_inline_template_without_context_json() {
    let rendered = render_inline(TemplateContentKind::JinjaHtml, "<div>Takumi</div>", None);

    assert_eq!(rendered, "<div>Takumi</div>");
}

#[test]
fn renders_markdown_filter() {
    let rendered = render_inline(
        TemplateContentKind::JinjaHtml,
        "{{ content | markdown }}",
        Some(r##"{"content":"# Title\n\nHello *world*."}"##),
    );

    assert_eq!(rendered, "<h1>Title</h1>\n<p>Hello <em>world</em>.</p>\n");
}

#[test]
fn renders_datetime_format_filter() {
    let rendered = render_inline(
        TemplateContentKind::JinjaHtml,
        "{{ ts | datetime_format(\"%Y-%m-%d %H:%M:%S\") }}",
        Some(r#"{"ts":0}"#),
    );

    assert_eq!(rendered, "1970-01-01 00:00:00");
}

#[test]
fn renders_filesize_filter() {
    let rendered = render_inline(
        TemplateContentKind::JinjaHtml,
        "{{ bytes | filesize }}",
        Some(r#"{"bytes":1536}"#),
    );

    assert_eq!(rendered, "1.50 KB");
}

#[test]
fn sizes_take_the_largest_unit_they_reach() {
    assert!(matches!(size_unit(1023), SizeUnit::Bytes));
    assert!(matches!(size_unit(1024), SizeUnit::Kilobytes));
    assert!(matches!(size_unit(1024 * 1024 - 1), SizeUnit::Kilobytes));
    assert!(matches!(size_unit(1024 * 1024), SizeUnit::Megabytes));
    assert!(matches!(size_unit(u64::MAX), SizeUnit::Gigabytes));
    assert_eq!(size_unit(5 << 30).divisor(), 1 << 30);
    assert_eq!(size_unit(3 << 20).symbol(), "MB");
    assert_eq!(size_unit(7).symbol(), "B");
}

#[test]
fn renders_to_hex_filter() {
    let rendered = render_inline(
        TemplateContentKind::JinjaHtml,
        "{{ value | to_hex(width=2) }}",
        Some(r#"{"value":255}"#),
    );

    assert_eq!(rendered, "0xFF");
}

#[test]
fn renders_highlight_filter() {
    let rendered = render_inline(
        TemplateContentKind::JinjaHtml,
        "{{ code | highlight(\"rust\") }}",
        Some(r#"{"code":"let x = 1;"}"#),
    );

    assert!(rendered.starts_with("<pre><code>"));
    assert!(rendered.ends_with("</code></pre>"));
    assert!(rendered.contains("let"));
    assert!(rendered.contains("x"));
    assert!(rendered.contains("1"));
}

#[test]
fn renders_json_pretty_filter() {
    let rendered = render_inline(
        TemplateContentKind::JinjaHtml,
        "{{ data | json_pretty }}",
        Some(r#"{"data":{"name":"Takumi","enabled":true}}"#),
    );

    assert!(rendered.starts_with("{\n  "));
    assert!(rendered.contains("\"name\": \"Takumi\""));
    assert!(rendered.contains("\"enabled\": true"));
    assert!(rendered.ends_with("\n}"));
}

#[test]
fn timestamps_are_dates_in_seconds_or_milliseconds() {
    assert_eq!(format_timestamp(86_400, "%Y-%m-%d").as_deref(), Ok("1970-01-02"));
    assert_eq!(
        format_timestamp(1_700_000_000_000, "%Y-%m-%d %H:%M").as_deref(),
        Ok("2023-11-14 22:13")
    );
    assert_eq!(format_timestamp(i64::MAX, "%Y"), Err("非法的时间戳数据".to_string()));
    assert!(format_timestamp(0, "%Q").is_err());
}
