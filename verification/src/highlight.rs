//! Syntax highlighting with syntect: its built-in themes and syntaxes, and
//! a highlighter that keeps the names of its syntax and theme and the lines
//! it has highlighted, so that the HTML of each line can be named by them.
//!
//! The types here hold syntect's values in private fields that only the
//! functions of this module fill: a [`Syntaxes`] is always syntect's default
//! syntax set, a [`FoundSyntax`] carries the name of the syntax it holds, a
//! [`FoundTheme`] the key of its theme among the built-in ones, and a
//! [`LineHighlighter`] every line given to it, in order.
use syntect::easy::HighlightLines;
use syntect::highlighting::{Theme, ThemeSet};
use syntect::html::{styled_line_to_highlighted_html, IncludeBackground};
use syntect::parsing::{SyntaxReference, SyntaxSet};
use vstd::prelude::*;

verus! {

#[verifier::external_type_specification]
#[verifier::external_body]
pub struct ExThemeSet(ThemeSet);

#[verifier::external_type_specification]
#[verifier::external_body]
pub struct ExTheme(Theme);

#[verifier::external_type_specification]
#[verifier::external_body]
pub struct ExSyntaxSet(SyntaxSet);

#[verifier::external_type_specification]
#[verifier::external_body]
pub struct ExSyntaxReference(SyntaxReference);

#[verifier::external_type_specification]
#[verifier::external_body]
pub struct ExHighlightLines<'a>(HighlightLines<'a>);

/// The keys of the theme map of a theme set, in the map's order.
pub uninterp spec fn theme_keys(set: ThemeSet) -> Seq<Seq<char>>;

/// The themes built into syntect, in the order of `str` comparison.
pub open spec fn builtin_theme_names() -> Seq<Seq<char>> {
    seq![
        "InspiredGitHub"@,
        "Solarized (dark)"@,
        "Solarized (light)"@,
        "base16-eighties.dark"@,
        "base16-mocha.dark"@,
        "base16-ocean.dark"@,
        "base16-ocean.light"@,
    ]
}

/// Whether `name` is one of the themes built into syntect.
pub open spec fn builtin_theme(name: Seq<char>) -> bool {
    builtin_theme_names().contains(name)
}

/// `ThemeSet::load_defaults()` from syntect, which its documentation says
/// holds the seven default themes, under these names as the keys of its
/// theme map (a `BTreeMap`, whose keys come in sorted order). Claims that
/// the keys are `builtin_theme_names()`, in that order.
#[verifier::external_body]
pub(crate) fn load_theme_set() -> (r: ThemeSet)
    ensures
        theme_keys(r) == builtin_theme_names(),
{
    ThemeSet::load_defaults()
}

/// `contains_key` on the theme map of a theme set. Claims that the result
/// says whether the set holds a theme named `name`.
#[verifier::external_body]
pub(crate) fn theme_set_has(set: &ThemeSet, name: &str) -> (r: bool)
    ensures
        r == theme_keys(*set).contains(name@),
{
    set.themes.contains_key(name)
}

/// The keys of the theme map of a theme set, cloned, in the map's order.
/// Claims that they are `theme_keys(set)`.
#[verifier::external_body]
pub(crate) fn theme_set_names(set: &ThemeSet) -> (r: Vec<String>)
    ensures
        r@.map_values(|name: String| name@) == theme_keys(*set),
{
    set.themes.keys().cloned().collect()
}

/// A theme of a theme set, with the key it is stored under.
pub struct FoundTheme<'a> {
    theme: &'a Theme,
    name: String,
}

impl<'a> FoundTheme<'a> {
    /// The key the theme is stored under.
    pub closed spec fn name(self) -> Seq<char> {
        self.name@
    }
}

/// Indexing the theme map of a theme set by `name`, which panics on a name
/// the set does not hold, hence the requirement; the theme is kept with
/// `name`. Claims that the key kept is `name`.
#[verifier::external_body]
pub(crate) fn theme_in<'a>(set: &'a ThemeSet, name: &str) -> (r: FoundTheme<'a>)
    requires
        theme_keys(*set).contains(name@),
    ensures
        r.name() == name@,
{
    FoundTheme { theme: &set.themes[name], name: name.to_owned() }
}

/// Syntect's default syntax set, the one with newlines.
pub struct Syntaxes {
    set: SyntaxSet,
}

/// `SyntaxSet::load_defaults_newlines()` from syntect.
#[verifier::external_body]
pub(crate) fn load_syntax_set() -> (r: Syntaxes) {
    Syntaxes { set: SyntaxSet::load_defaults_newlines() }
}

/// A syntax of the default syntax set, with its name.
pub struct FoundSyntax<'a> {
    syntax: &'a SyntaxReference,
    name: String,
}

impl<'a> FoundSyntax<'a> {
    /// The name of the syntax.
    pub closed spec fn name(self) -> Seq<char> {
        self.name@
    }
}

/// The name of the syntax that syntect's default syntax set (the one with
/// newlines) finds for `token` with `find_syntax_by_token`, if it finds one.
pub uninterp spec fn token_syntax(token: Seq<char>) -> Option<Seq<char>>;

/// `SyntaxSet::find_syntax_by_token` on the default syntax set: the syntax
/// for a file extension or name, kept with its name. Claims that the name
/// is `token_syntax(token)`, and that none is found exactly when that is
/// `None`.
#[verifier::external_body]
pub(crate) fn syntax_for_token<'a>(syntaxes: &'a Syntaxes, token: &str) -> (r: Option<
    FoundSyntax<'a>,
>)
    ensures
        r matches Some(found) ==> token_syntax(token@) == Some(found.name()),
        r is None ==> token_syntax(token@) is None,
{
    match syntaxes.set.find_syntax_by_token(token) {
        Some(syntax) => Some(FoundSyntax { syntax, name: syntax.name.clone() }),
        None => None,
    }
}

/// `SyntaxSet::find_syntax_plain_text` on the default syntax set, which
/// finds the syntax named `Plain Text` (the default set has one), kept with
/// its name. Claims that the name is `Plain Text`.
#[verifier::external_body]
pub(crate) fn plain_text_syntax<'a>(syntaxes: &'a Syntaxes) -> (r: FoundSyntax<'a>)
    ensures
        r.name() == "Plain Text"@,
{
    let syntax = syntaxes.set.find_syntax_plain_text();
    FoundSyntax { syntax, name: syntax.name.clone() }
}

/// A syntect highlighter, with the name of its syntax, the key of its theme
/// and the lines it has been given, in order.
pub struct LineHighlighter<'a> {
    inner: HighlightLines<'a>,
    syntax: String,
    theme: String,
    done: Vec<String>,
}

impl<'a> LineHighlighter<'a> {
    /// The name of the syntax it highlights in.
    pub closed spec fn syntax_name(self) -> Seq<char> {
        self.syntax@
    }

    /// The key of the built-in theme it highlights with.
    pub closed spec fn theme_name(self) -> Seq<char> {
        self.theme@
    }

    /// The lines it has been given, in order.
    pub closed spec fn history(self) -> Seq<Seq<char>> {
        self.done@.map_values(|line: String| line@)
    }
}

/// `HighlightLines::new` from syntect, for the syntax and theme found, with
/// their names and no line given yet. Claims that the names kept are those
/// of the syntax and the theme.
#[verifier::external_body]
pub(crate) fn start_highlighter<'a>(syntax: &FoundSyntax, theme: &FoundTheme<'a>) -> (r:
    LineHighlighter<'a>)
    ensures
        r.syntax_name() == syntax.name(),
        r.theme_name() == theme.name(),
        r.history() == Seq::<Seq<char>>::empty(),
{
    LineHighlighter {
        inner: HighlightLines::new(syntax.syntax, theme.theme),
        syntax: syntax.name.clone(),
        theme: theme.name.clone(),
        done: Vec::new(),
    }
}

/// The HTML that syntect makes, without background colours, of `line`
/// highlighted in the default syntax set's syntax named `syntax` with the
/// built-in theme `theme`, by a highlighter that was given the lines
/// `before` first; or the text of the error it gives.
pub uninterp spec fn highlighted_line(
    syntax: Seq<char>,
    theme: Seq<char>,
    before: Seq<Seq<char>>,
    line: Seq<char>,
) -> Result<Seq<char>, Seq<char>>;

/// `HighlightLines::highlight_line` on the default syntax set, and the
/// styled pieces it gives turned into HTML by syntect's
/// `styled_line_to_highlighted_html` without background colours, with the
/// text of the error either gives; the line is added to those the
/// highlighter has been given. Claims that the outcome is
/// `highlighted_line` of the highlighter's syntax, theme and lines before.
#[verifier::external_body]
pub(crate) fn highlight_line_html(
    highlighter: &mut LineHighlighter,
    syntaxes: &Syntaxes,
    line: &str,
) -> (r: Result<String, String>)
    ensures
        match r {
            Ok(html) => highlighted_line(
                old(highlighter).syntax_name(),
                old(highlighter).theme_name(),
                old(highlighter).history(),
                line@,
            ) == Ok::<Seq<char>, Seq<char>>(html@),
            Err(m) => highlighted_line(
                old(highlighter).syntax_name(),
                old(highlighter).theme_name(),
                old(highlighter).history(),
                line@,
            ) == Err::<Seq<char>, Seq<char>>(m@),
        },
        final(highlighter).syntax_name() == old(highlighter).syntax_name(),
        final(highlighter).theme_name() == old(highlighter).theme_name(),
        final(highlighter).history() == old(highlighter).history().push(line@),
{
    let html = match highlighter.inner.highlight_line(line, &syntaxes.set) {
        Ok(ranges) => styled_line_to_highlighted_html(&ranges, IncludeBackground::No)
            .map_err(|error| error.to_string()),
        Err(error) => Err(error.to_string()),
    };
    highlighter.done.push(line.to_owned());
    html
}

} // verus!
