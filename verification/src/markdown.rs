//! Markdown rendering and the syntax-highlighting theme it uses.
use comrak::{
    markdown_to_html_with_plugins,
    options::{Extension, Options, Plugins, Render},
    plugins::syntect::SyntectAdapterBuilder,
};
use vstd::prelude::*;

use crate::highlight::{
    builtin_theme, builtin_theme_names, highlight_line_html, highlighted_line, load_syntax_set,
    load_theme_set, plain_text_syntax, start_highlighter, syntax_for_token, theme_in,
    theme_set_has, theme_set_names, token_syntax,
};
use crate::renderer_error::{RendererError, RendererErrorView};
use crate::text::{trim_seq, trim_string};

verus! {

/// The name of the theme used when a request names none.
pub const DEFAULT_SYNTAX_THEME: &'static str = "base16-ocean.dark";

/// The theme used when a request names none.
pub open spec fn default_syntax_theme() -> Seq<char> {
    "base16-ocean.dark"@
}

/// `names` joined with `, `.
pub open spec fn join_names(names: Seq<Seq<char>>) -> Seq<char>
    decreases names.len(),
{
    if names.len() == 0 {
        Seq::empty()
    } else if names.len() == 1 {
        names[0]
    } else {
        join_names(names.drop_last()) + ", "@ + names.last()
    }
}

/// The message for a theme that syntect does not have, listing `names`.
pub open spec fn unsupported_theme_text(theme: Seq<char>, names: Seq<Seq<char>>) -> Seq<char> {
    "request.syntax_theme `"@ + theme
        + "` is not a supported built-in syntect theme (supported: "@ + join_names(names) + ")"@
}

/// The message for a blank theme.
pub open spec fn empty_theme_text() -> Seq<char> {
    "request.syntax_theme cannot be empty"@
}

/// The theme a request asks for: its (trimmed) theme, or the default.
pub open spec fn requested_theme(theme: Option<Seq<char>>) -> Seq<char> {
    match theme {
        Some(t) => trim_seq(t),
        None => default_syntax_theme(),
    }
}

/// The request names a theme that is blank.
pub open spec fn blank_theme(theme: Option<Seq<char>>) -> bool {
    theme matches Some(t) && trim_seq(t).len() == 0
}

pub open spec fn opt_str_seq(theme: Option<&str>) -> Option<Seq<char>> {
    match theme {
        Some(t) => Some(t@),
        None => None,
    }
}

/// How Markdown is formatted: the syntax-highlighting theme of code blocks,
/// always one that syntect has.
#[derive(Debug, PartialEq, Eq)]
pub struct FormattingConfig {
    syntax_theme: String,
}

impl FormattingConfig {
    #[verifier::type_invariant]
    closed spec fn theme_is_builtin(self) -> bool {
        builtin_theme(self.syntax_theme@)
    }

    pub closed spec fn theme(self) -> Seq<char> {
        self.syntax_theme@
    }

    /// The formatting for a requested theme: the default when none is named,
    /// an error when the name is blank or not a theme syntect has.
    pub fn new(theme: Option<&str>) -> (r: Result<Self, RendererError>)
        ensures
            blank_theme(opt_str_seq(theme)) ==> (r matches Err(e) && e@
                == RendererErrorView::InvalidRequest(empty_theme_text())),
            !blank_theme(opt_str_seq(theme)) && builtin_theme(requested_theme(opt_str_seq(theme)))
                ==> (r matches Ok(c) && c.theme() == requested_theme(opt_str_seq(theme))),
            !blank_theme(opt_str_seq(theme)) && !builtin_theme(requested_theme(opt_str_seq(theme)))
                ==> (r matches Err(e) && e@ == RendererErrorView::InvalidRequest(
                unsupported_theme_text(requested_theme(opt_str_seq(theme)), builtin_theme_names()),
            )),
            r matches Ok(c) ==> builtin_theme(c.theme()),
    {
        let syntax_theme = match theme {
            Some(t) => {
                let trimmed = trim_string(t);
                if trimmed.as_str().is_empty() {
                    return Err(RendererError::invalid_request("request.syntax_theme cannot be empty"));
                }
                trimmed
            },
            None => "base16-ocean.dark".to_owned(),
        };
        let themes = load_theme_set();
        if !theme_set_has(&themes, syntax_theme.as_str()) {
            let names = theme_set_names(&themes);
            let mut message = "request.syntax_theme `".to_owned();
            message.append(syntax_theme.as_str());
            message.append("` is not a supported built-in syntect theme (supported: ");
            let joined = join_theme_names(&names);
            message.append(joined.as_str());
            message.append(")");
            let ghost nv = Seq::new(names@.len(), |i: int| names@[i]@);
            assert(nv =~= builtin_theme_names());
            assert(message@ =~= unsupported_theme_text(syntax_theme@, nv));
            return Err(RendererError::InvalidRequest(message));
        }
        Ok(FormattingConfig { syntax_theme })
    }

    /// The syntax-highlighting theme.
    pub fn syntax_theme(&self) -> (r: &str)
        ensures
            r@ == self.theme(),
    {
        self.syntax_theme.as_str()
    }
}

fn join_theme_names(names: &Vec<String>) -> (r: String)
    ensures
        r@ == join_names(Seq::new(names@.len(), |i: int| names@[i]@)),
{
    let ghost all = Seq::new(names@.len(), |i: int| names@[i]@);
    let mut out = String::new();
    let mut i: usize = 0;
    while i < names.len()
        invariant
            0 <= i <= names@.len(),
            all == Seq::new(names@.len(), |i: int| names@[i]@),
            out@ == join_names(all.subrange(0, i as int)),
        decreases names@.len() - i,
    {
        let ghost before = out@;
        if i > 0 {
            out.append(", ");
        }
        out.append(names[i].as_str());
        proof {
            let p = all.subrange(0, i + 1);
            assert(p.drop_last() =~= all.subrange(0, i as int));
            if i == 0 {
                assert(out@ =~= p[0]);
            } else {
                assert(out@ =~= before + ", "@ + p.last());
            }
        }
        i += 1;
    }
    assert(all.subrange(0, names@.len() as int) =~= all);
    out
}

/// The HTML that comrak makes of `markdown` with tables, strikethrough,
/// task lists, footnotes and raw HTML enabled, and code blocks highlighted
/// by syntect in `theme`.
pub uninterp spec fn markdown_html(markdown: Seq<char>, theme: Seq<char>) -> Seq<char>;

/// `markdown_to_html_with_plugins` from comrak, with the options above and
/// a syntect adapter for `theme`. The adapter indexes its theme set by
/// `theme` and panics on a name it does not have, hence the requirement.
/// Claims only that the result is `markdown_html(markdown, theme)`.
#[verifier::external_body]
fn comrak_html(markdown: &str, theme: &str) -> (html: String)
    requires
        builtin_theme(theme@),
    ensures
        html@ == markdown_html(markdown@, theme@),
{
    let extension = Extension::builder().table(true).strikethrough(true).tasklist(true)
        .footnotes(true).build();
    let render = Render::builder().maybe_unsafe(Some(true)).build();
    let options = Options { extension, parse: Default::default(), render };
    let adapter = SyntectAdapterBuilder::new().theme(theme).build();
    let mut plugins = Plugins::default();
    plugins.render.codefence_syntax_highlighter = Some(&adapter);
    markdown_to_html_with_plugins(markdown, &options, &plugins)
}

/// Renders Markdown into HTML with the formatting's theme; it does not fail.
pub fn render_markdown_to_html(markdown: &str, formatting: &FormattingConfig) -> (r: Result<
    String,
    RendererError,
>)
    ensures
        r matches Ok(html) && html@ == markdown_html(markdown@, formatting.theme()),
{
    proof {
        use_type_invariant(formatting);
    }
    Ok(comrak_html(markdown, formatting.syntax_theme.as_str()))
}


/// The lines of `s` from `i` on, each with its `\n` if it has one, as
/// syntect's `LinesWithEndings` gives them.
pub open spec fn lines_from(s: Seq<char>, i: int) -> Seq<Seq<char>>
    decreases s.len() - i,
{
    if i < 0 || i >= s.len() {
        Seq::empty()
    } else {
        match crate::resource::find_char_from(s, i, '\n') {
            Some(k) => {
                proof {
                    crate::resource::lemma_find_char_from_bounds(s, i, '\n');
                }
                seq![s.subrange(i, k + 1)] + lines_from(s, k + 1)
            },
            None => seq![s.subrange(i, s.len() as int)],
        }
    }
}

/// The lines of `s`, each with its `\n` if it has one.
pub open spec fn code_lines(s: Seq<char>) -> Seq<Seq<char>> {
    lines_from(s, 0)
}

/// The lines of `code`, each with its line break.
pub fn lines_with_endings(code: &str) -> (r: Vec<String>)
    ensures
        crate::template::texts(r@) == code_lines(code@),
{
    let v = crate::text::chars_of(code);
    let mut out: Vec<String> = Vec::new();
    let mut i: usize = 0;
    assert(crate::template::texts(out@) + lines_from(v@, 0) =~= code_lines(code@));
    while i < v.len()
        invariant
            i <= v@.len(),
            v@ == code@,
            crate::template::texts(out@) + lines_from(v@, i as int) == code_lines(code@),
        decreases v@.len() - i,
    {
        let ghost before = crate::template::texts(out@);
        proof {
            crate::resource::lemma_find_char_from_bounds(v@, i as int, '\n');
        }
        match crate::resource::find_char(&v, i, '\n') {
            Some(k) => {
                let line = crate::text::string_of_range(&v, i, k + 1);
                out.push(line);
                assert(crate::template::texts(out@) =~= before.push(line@));
                assert(crate::template::texts(out@) + lines_from(v@, k + 1) =~= before + (seq![
                    line@,
                ] + lines_from(v@, k + 1)));
                i = k + 1;
            },
            None => {
                let line = crate::text::string_of_range(&v, i, v.len());
                out.push(line);
                assert(crate::template::texts(out@) =~= before.push(line@));
                assert(crate::template::texts(out@) + lines_from(v@, v@.len() as int) =~= before
                    + seq![line@]);
                i = v.len();
            },
        }
    }
    assert(crate::template::texts(out@) + lines_from(v@, i as int) =~= crate::template::texts(out@));
    out
}

/// The texts of `pieces`, one after another.
pub open spec fn concat_all(pieces: Seq<Seq<char>>) -> Seq<char>
    decreases pieces.len(),
{
    if pieces.len() == 0 {
        Seq::empty()
    } else {
        concat_all(pieces.drop_last()) + pieces.last()
    }
}

/// The syntax code is highlighted in: the one syntect finds for `lang`,
/// else plain text.
pub open spec fn code_syntax(lang: Seq<char>) -> Seq<char> {
    match token_syntax(lang) {
        Some(name) => name,
        None => "Plain Text"@,
    }
}

/// The HTML of each of `lines`, highlighted one after another by one
/// highlighter in `syntax` and `theme`; or the error of the first line that
/// fails.
pub open spec fn highlighted_lines(syntax: Seq<char>, theme: Seq<char>, lines: Seq<Seq<char>>) -> Result<
    Seq<Seq<char>>,
    Seq<char>,
>
    decreases lines.len(),
{
    if lines.len() == 0 {
        Ok(Seq::empty())
    } else {
        match highlighted_lines(syntax, theme, lines.drop_last()) {
            Err(m) => Err(m),
            Ok(pieces) => match highlighted_line(syntax, theme, lines.drop_last(), lines.last()) {
                Ok(piece) => Ok(pieces.push(piece)),
                Err(m) => Err(m),
            },
        }
    }
}

/// A failure among the first `k` lines is the failure of them all.
proof fn lemma_highlight_stops(syntax: Seq<char>, theme: Seq<char>, lines: Seq<Seq<char>>, k: int)
    requires
        0 <= k <= lines.len(),
        highlighted_lines(syntax, theme, lines.take(k)) is Err,
    ensures
        highlighted_lines(syntax, theme, lines) == highlighted_lines(syntax, theme, lines.take(k)),
    decreases lines.len() - k,
{
    if k < lines.len() {
        let p = lines.take(k + 1);
        assert(p.drop_last() =~= lines.take(k));
        lemma_highlight_stops(syntax, theme, lines, k + 1);
    } else {
        assert(lines.take(k) =~= lines);
    }
}

/// Code highlighted by syntect in the formatting's theme, line by line,
/// inside `<pre><code>`; the syntax is the one named by `lang`, else plain
/// text. The first line syntect fails on gives its error.
pub fn highlight_code(code: &str, lang: &str, formatting: &FormattingConfig) -> (r: Result<
    String,
    RendererError,
>)
    ensures
        match highlighted_lines(code_syntax(lang@), formatting.theme(), code_lines(code@)) {
            Ok(pieces) => r matches Ok(html) && html@ == "<pre><code>"@ + concat_all(pieces)
                + "</code></pre>"@,
            Err(m) => r matches Err(e) && e@ == RendererErrorView::Template(m),
        },
{
    proof {
        use_type_invariant(formatting);
    }
    let syntaxes = load_syntax_set();
    let syntax = match syntax_for_token(&syntaxes, lang) {
        Some(s) => s,
        None => plain_text_syntax(&syntaxes),
    };
    let themes = load_theme_set();
    let theme = theme_in(&themes, formatting.syntax_theme.as_str());
    let mut highlighter = start_highlighter(&syntax, &theme);
    let lines = lines_with_endings(code);
    let ghost all = crate::template::texts(lines@);
    let ghost syn = code_syntax(lang@);
    let ghost th = formatting.theme();
    let mut body = String::new();
    let ghost mut pieces: Seq<Seq<char>> = Seq::empty();
    let mut i: usize = 0;
    assert(all.take(0) =~= Seq::<Seq<char>>::empty());
    while i < lines.len()
        invariant
            0 <= i <= lines@.len(),
            all == crate::template::texts(lines@),
            all == code_lines(code@),
            syn == code_syntax(lang@),
            th == formatting.theme(),
            highlighter.syntax_name() == syn,
            highlighter.theme_name() == th,
            highlighter.history() == all.take(i as int),
            highlighted_lines(syn, th, all.take(i as int)) == Ok::<Seq<Seq<char>>, Seq<char>>(
                pieces,
            ),
            body@ == concat_all(pieces),
        decreases lines@.len() - i,
    {
        let ghost p = all.take(i + 1);
        proof {
            assert(p.drop_last() =~= all.take(i as int));
            assert(p.last() == lines@[i as int]@);
        }
        let piece = match highlight_line_html(&mut highlighter, &syntaxes, lines[i].as_str()) {
            Ok(piece) => piece,
            Err(message) => {
                proof {
                    assert(highlighted_line(syn, th, p.drop_last(), p.last()) == Err::<
                        Seq<char>,
                        Seq<char>,
                    >(message@));
                    assert(highlighted_lines(syn, th, p) == Err::<Seq<Seq<char>>, Seq<char>>(
                        message@,
                    ));
                    lemma_highlight_stops(syn, th, all, i + 1);
                }
                return Err(RendererError::Template(message));
            },
        };
        body.append(piece.as_str());
        proof {
            let next = pieces.push(piece@);
            assert(next.drop_last() =~= pieces);
            pieces = next;
            assert(highlighter.history() =~= all.take(i + 1));
        }
        i += 1;
    }
    let mut html = "<pre><code>".to_owned();
    html.append(body.as_str());
    html.append("</code></pre>");
    proof {
        assert(all.take(i as int) =~= all);
        assert(html@ =~= "<pre><code>"@ + concat_all(pieces) + "</code></pre>"@);
    }
    Ok(html)
}

} // verus!
