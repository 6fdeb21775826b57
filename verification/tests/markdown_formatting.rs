use syntect::easy::HighlightLines;
use syntect::highlighting::ThemeSet;
use syntect::html::{styled_line_to_highlighted_html, IncludeBackground};
use syntect::parsing::SyntaxSet;
use syntect::util::LinesWithEndings;
use takumi_html::markdown::{
    highlight_code, render_markdown_to_html, FormattingConfig, DEFAULT_SYNTAX_THEME,
};

#[test]
fn renders_markdown_with_syntect_code_blocks() {
    let html = render_markdown_to_html(
        "```rust\nlet x = 1;\n```",
        &FormattingConfig::new(None).expect("default formatting"),
    )
    .expect("render markdown");

    assert!(html.contains("<pre"));
    assert!(html.contains("let"));
    assert!(html.contains("x"));
}

#[test]
fn highlights_code_with_default_theme() {
    let html = highlight_code(
        "let x = 1;",
        "rust",
        &FormattingConfig::new(Some(DEFAULT_SYNTAX_THEME)).expect("theme"),
    )
    .expect("highlight code");

    assert!(html.starts_with("<pre><code>"));
    assert!(html.ends_with("</code></pre>"));
    assert!(html.contains("let"));
}

/// The HTML syntect itself makes of `code`, line by line, with one
/// highlighter.
fn syntect_html(code: &str, token: &str, theme: &str) -> String {
    let syntaxes = SyntaxSet::load_defaults_newlines();
    let themes = ThemeSet::load_defaults();
    let syntax = syntaxes
        .find_syntax_by_token(token)
        .unwrap_or_else(|| syntaxes.find_syntax_plain_text());
    let mut highlighter = HighlightLines::new(syntax, &themes.themes[theme]);
    let mut html = String::from("<pre><code>");
    for line in LinesWithEndings::from(code) {
        let ranges = highlighter.highlight_line(line, &syntaxes).expect("highlight line");
        html.push_str(&styled_line_to_highlighted_html(&ranges, IncludeBackground::No).expect("html"));
    }
    html.push_str("</code></pre>");
    html
}

#[test]
fn highlighted_code_is_syntect_html_line_by_line() {
    let code = "fn main() {\n    /* a\n    comment */ let x = \"<1>\";\n}\n";
    let formatting = FormattingConfig::new(Some("InspiredGitHub")).expect("builtin theme");
    assert_eq!(
        highlight_code(code, "rs", &formatting).expect("highlight"),
        syntect_html(code, "rs", "InspiredGitHub")
    );
    assert_eq!(
        highlight_code(code, "no-such-language", &formatting).expect("highlight"),
        syntect_html(code, "no-such-language", "InspiredGitHub")
    );
    assert_eq!(
        highlight_code("", "rust", &formatting).expect("highlight"),
        "<pre><code></code></pre>"
    );
}
