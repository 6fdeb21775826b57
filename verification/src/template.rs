//! The template engine: its registered templates and search paths, request
//! validation, where a template's source comes from, and the steps of
//! rendering one.
//!
//! Rendering a Jinja template and reading template files are left to the
//! caller: [`TemplateEngine::render`] answers each event with the next step,
//! which is either the finished markup or work for the caller to do.
use vstd::prelude::*;

use crate::api::{InlineTemplateInput, TemplateContentKind, TemplateInput, TemplateRequest};
use crate::highlight::{builtin_theme, builtin_theme_names};
use crate::markdown::{
    blank_theme, empty_theme_text, markdown_html, opt_str_seq, render_markdown_to_html,
    requested_theme, unsupported_theme_text, FormattingConfig,
};
use crate::node::attr_value;
use crate::renderer_error::{RendererError, RendererErrorView};
use crate::text::{trim_seq, trim_string};
use crate::whitespace::str_eq;
use serde_json::Value;

verus! {

#[verifier::external_type_specification]
#[verifier::external_body]
pub struct ExJsonValue(Value);

/// The error text `serde_json` gives for `text` when it is not a JSON
/// document, or `None` when it is.
pub uninterp spec fn json_error(text: Seq<char>) -> Option<Seq<char>>;

/// The value `serde_json` parses from `text` when it is a JSON document.
pub uninterp spec fn json_value(text: Seq<char>) -> Value;

/// `serde_json::from_str::<Value>(text)`, with the error's text. Claims that
/// it fails exactly when `json_error(text)` is some text, with that text,
/// and otherwise gives `json_value(text)`, a function of the text alone.
#[verifier::external_body]
fn json_from_str(text: &str) -> (r: Result<Value, String>)
    ensures
        r matches Err(m) ==> json_error(text@) == Some(m@),
        r matches Ok(v) ==> json_error(text@) is None && v == json_value(text@),
{
    serde_json::from_str(text).map_err(|error| error.to_string())
}

/// `Value::Object` with an empty map, from `serde_json`: the value that
/// `serde_json` parses from `{}`.
#[verifier::external_body]
fn empty_json_object() -> (r: Value)
    ensures
        r == json_value("{}"@),
{
    Value::Object(Default::default())
}

/// Names occur at most once.
pub open spec fn distinct_names(pairs: Seq<(String, String)>) -> bool {
    forall|i: int, j: int|
        0 <= i < j < pairs.len() ==> #[trigger] pairs[i].0@ != #[trigger] pairs[j].0@
}

/// Texts occur at most once.
pub open spec fn distinct_texts(v: Seq<String>) -> bool {
    forall|i: int, j: int| 0 <= i < j < v.len() ==> #[trigger] v[i]@ != #[trigger] v[j]@
}

pub open spec fn texts(v: Seq<String>) -> Seq<Seq<char>> {
    Seq::new(v.len(), |i: int| v[i]@)
}

/// The source registered under `name`, if any.
pub open spec fn registered_source(pairs: Seq<(String, String)>, name: Seq<char>) -> Option<
    Seq<char>,
> {
    attr_value(pairs, name)
}

/// The value of the first pair named `name`.
fn lookup_pair<'a>(pairs: &'a Vec<(String, String)>, name: &str) -> (r: Option<&'a String>)
    ensures
        r matches Some(v) ==> attr_value(pairs@, name@) == Some(v@),
        r is None ==> attr_value(pairs@, name@) is None,
{
    let mut i: usize = 0;
    assert(pairs@.subrange(0, pairs@.len() as int) =~= pairs@);
    while i < pairs.len()
        invariant
            0 <= i <= pairs@.len(),
            attr_value(pairs@, name@) == attr_value(
                pairs@.subrange(i as int, pairs@.len() as int),
                name@,
            ),
        decreases pairs@.len() - i,
    {
        let ghost rest = pairs@.subrange(i as int, pairs@.len() as int);
        assert(rest.drop_first() =~= pairs@.subrange(i + 1, pairs@.len() as int));
        assert(rest[0] == pairs@[i as int]);
        if str_eq(pairs[i].0.as_str(), name) {
            return Some(&pairs[i].1);
        }
        i += 1;
    }
    None
}

/// The index of the pair named `name`, if any.
fn index_of_name(pairs: &Vec<(String, String)>, name: &str) -> (r: Option<usize>)
    ensures
        r matches Some(k) ==> k < pairs@.len() && pairs@[k as int].0@ == name@,
        r is None ==> forall|k: int| 0 <= k < pairs@.len() ==> #[trigger] pairs@[k].0@ != name@,
{
    let mut i: usize = 0;
    while i < pairs.len()
        invariant
            0 <= i <= pairs@.len(),
            forall|k: int| 0 <= k < i ==> #[trigger] pairs@[k].0@ != name@,
        decreases pairs@.len() - i,
    {
        if str_eq(pairs[i].0.as_str(), name) {
            return Some(i);
        }
        i += 1;
    }
    None
}

/// With distinct names, the first pair named `name` is the one at `k`.
proof fn lemma_distinct_lookup(pairs: Seq<(String, String)>, k: int)
    requires
        distinct_names(pairs),
        0 <= k < pairs.len(),
    ensures
        attr_value(pairs, pairs[k].0@) == Some(pairs[k].1@),
    decreases pairs.len(),
{
    if k > 0 {
        let rest = pairs.drop_first();
        assert(pairs[0].0@ != pairs[k].0@);
        assert(rest[k - 1] == pairs[k]);
        assert forall|i: int, j: int| 0 <= i < j < rest.len() implies #[trigger] rest[i].0@
            != #[trigger] rest[j].0@ by {
            assert(rest[i] == pairs[i + 1]);
            assert(rest[j] == pairs[j + 1]);
        }
        lemma_distinct_lookup(rest, k - 1);
    }
}

/// No pair named `name` gives no value.
proof fn lemma_absent_lookup(pairs: Seq<(String, String)>, name: Seq<char>)
    requires
        forall|k: int| 0 <= k < pairs.len() ==> #[trigger] pairs[k].0@ != name,
    ensures
        attr_value(pairs, name) is None,
    decreases pairs.len(),
{
    if pairs.len() > 0 {
        let rest = pairs.drop_first();
        assert forall|k: int| 0 <= k < rest.len() implies #[trigger] rest[k].0@ != name by {
            assert(rest[k] == pairs[k + 1]);
        }
        lemma_absent_lookup(rest, name);
    }
}

/// Changing the value of the pair at `k`, keeping its name, leaves the
/// lookup of every other name alone.
proof fn lemma_lookup_other(
    before: Seq<(String, String)>,
    after: Seq<(String, String)>,
    k: int,
    other: Seq<char>,
)
    requires
        0 <= k < before.len(),
        after.len() == before.len(),
        forall|i: int| 0 <= i < before.len() && i != k ==> after[i] == before[i],
        after[k].0@ == before[k].0@,
        other != before[k].0@,
    ensures
        attr_value(after, other) == attr_value(before, other),
    decreases before.len(),
{
    if k > 0 {
        assert(after[0] == before[0]);
        let a = after.drop_first();
        let b = before.drop_first();
        assert forall|i: int| 0 <= i < b.len() && i != k - 1 implies a[i] == b[i] by {
            assert(a[i] == after[i + 1]);
            assert(b[i] == before[i + 1]);
        }
        assert(a[k - 1] == after[k]);
        assert(b[k - 1] == before[k]);
        lemma_lookup_other(b, a, k - 1, other);
    } else {
        assert(after.drop_first() =~= before.drop_first());
    }
}

/// Appending a pair named otherwise leaves the lookup of `other` alone.
proof fn lemma_lookup_pushed(
    before: Seq<(String, String)>,
    after: Seq<(String, String)>,
    other: Seq<char>,
)
    requires
        after.len() == before.len() + 1,
        forall|i: int| 0 <= i < before.len() ==> after[i] == before[i],
        after[before.len() as int].0@ != other,
    ensures
        attr_value(after, other) == attr_value(before, other),
    decreases before.len(),
{
    if before.len() == 0 {
        assert(after.drop_first().len() == 0);
    } else {
        assert(after[0] == before[0]);
        let a = after.drop_first();
        let b = before.drop_first();
        assert forall|i: int| 0 <= i < b.len() implies a[i] == b[i] by {
            assert(a[i] == after[i + 1]);
            assert(b[i] == before[i + 1]);
        }
        assert(a[b.len() as int] == after[before.len() as int]);
        lemma_lookup_pushed(b, a, other);
    }
}

/// Where a resolved template came from.
#[derive(Debug, Clone, Copy, PartialEq, Eq, Structural)]
pub enum TemplateSourceKind {
    Inline,
    File,
    Registered,
}

/// A template ready to render: what it holds, where it came from, its
/// source and the name it is known by, the search paths for the templates
/// it includes, and its formatting.
#[derive(Debug)]
pub struct ResolvedSource {
    pub content_kind: TemplateContentKind,
    pub source_kind: TemplateSourceKind,
    pub source_text: String,
    pub logical_name: String,
    pub search_paths: Vec<String>,
    pub formatting: FormattingConfig,
}

impl ResolvedSource {
    /// Whether the template is rendered as Jinja first.
    pub fn requires_jinja(&self) -> (r: bool)
        ensures
            r == self.content_kind.needs_jinja(),
    {
        self.content_kind.requires_jinja()
    }

    /// Whether the template's output is Markdown to turn into HTML.
    pub fn requires_markdown(&self) -> (r: bool)
        ensures
            r == self.content_kind.needs_markdown(),
    {
        self.content_kind.requires_markdown()
    }
}

/// The templates a request can draw on: the search paths and the
/// registered templates.
#[derive(Debug, Clone)]
pub struct TemplateRepository {
    pub search_paths: Vec<String>,
    pub registered_templates: Vec<(String, String)>,
}

/// Why a request's template input is refused, if it is.
pub open spec fn input_error(input: TemplateInput) -> Option<Seq<char>> {
    match input {
        TemplateInput::Inline(i) => match i.logical_name {
            Some(n) => if trim_seq(n@).len() == 0 {
                Some("input.logical_name cannot be empty when provided"@)
            } else {
                None
            },
            None => None,
        },
        TemplateInput::File(p) => if trim_seq(p@).len() == 0 {
            Some("input.file cannot be empty"@)
        } else {
            None
        },
        TemplateInput::Registered(n) => if trim_seq(n@).len() == 0 {
            Some("input.registered cannot be empty"@)
        } else {
            None
        },
    }
}

/// Refuses a blank logical name, file or registered name.
pub fn validate_template_input(input: &TemplateInput) -> (r: Result<(), RendererError>)
    ensures
        input_error(*input) is None ==> r is Ok,
        input_error(*input) matches Some(m) ==> (r matches Err(e) && e@
            == RendererErrorView::InvalidRequest(m)),
{
    match input {
        TemplateInput::Inline(i) => {
            match &i.logical_name {
                Some(n) => {
                    if trim_string(n.as_str()).as_str().is_empty() {
                        return Err(
                            RendererError::invalid_request(
                                "input.logical_name cannot be empty when provided",
                            ),
                        );
                    }
                },
                None => {},
            }
        },
        TemplateInput::File(p) => {
            if trim_string(p.as_str()).as_str().is_empty() {
                return Err(RendererError::invalid_request("input.file cannot be empty"));
            }
        },
        TemplateInput::Registered(n) => {
            if trim_string(n.as_str()).as_str().is_empty() {
                return Err(RendererError::invalid_request("input.registered cannot be empty"));
            }
        },
    }
    Ok(())
}

pub open spec fn request_theme(request: TemplateRequest) -> Option<Seq<char>> {
    match request.syntax_theme {
        Some(t) => Some(t@),
        None => None,
    }
}

/// The request's theme is blank or not one syntect has.
pub open spec fn theme_error(request: TemplateRequest) -> bool {
    blank_theme(request_theme(request)) || !builtin_theme(requested_theme(request_theme(request)))
}

/// The message that refuses the request's theme, if it is refused.
pub open spec fn theme_error_text(request: TemplateRequest) -> Option<Seq<char>> {
    if blank_theme(request_theme(request)) {
        Some(empty_theme_text())
    } else if !builtin_theme(requested_theme(request_theme(request))) {
        Some(unsupported_theme_text(requested_theme(request_theme(request)), builtin_theme_names()))
    } else {
        None
    }
}

fn theme_arg(theme: &Option<String>) -> (r: Option<&str>)
    ensures
        opt_str_seq(r) == match theme {
            Some(t) => Some(t@),
            None => None::<Seq<char>>,
        },
{
    match theme {
        Some(t) => Some(t.as_str()),
        None => None,
    }
}

/// Checks a request before anything is resolved: its input, then its theme.
pub fn validate_render_request(request: &TemplateRequest) -> (r: Result<(), RendererError>)
    ensures
        input_error(request.input) matches Some(m) ==> (r matches Err(e) && e@
            == RendererErrorView::InvalidRequest(m)),
        input_error(request.input) is None ==> match theme_error_text(*request) {
            Some(m) => r matches Err(e) && e@ == RendererErrorView::InvalidRequest(m),
            None => r is Ok,
        },
{
    validate_template_input(&request.input)?;
    match FormattingConfig::new(theme_arg(&request.syntax_theme)) {
        Ok(_) => Ok(()),
        Err(e) => Err(e),
    }
}

/// The name an inline template is known by when the request gives none.
pub open spec fn default_inline_name(kind: TemplateContentKind) -> Seq<char> {
    match kind {
        TemplateContentKind::Markdown => "inline.md"@,
        TemplateContentKind::JinjaHtml => "inline.html.jinja"@,
        TemplateContentKind::JinjaMarkdown => "inline.md.jinja"@,
    }
}

pub fn default_inline_logical_name(kind: TemplateContentKind) -> (r: String)
    ensures
        r@ == default_inline_name(kind),
{
    match kind {
        TemplateContentKind::Markdown => "inline.md".to_owned(),
        TemplateContentKind::JinjaHtml => "inline.html.jinja".to_owned(),
        TemplateContentKind::JinjaMarkdown => "inline.md.jinja".to_owned(),
    }
}

/// The name of an inline template: the given name trimmed, unless blank,
/// else the default for its kind.
pub open spec fn inline_name(input: InlineTemplateInput, kind: TemplateContentKind) -> Seq<char> {
    match input.logical_name {
        Some(n) => if trim_seq(n@).len() == 0 {
            default_inline_name(kind)
        } else {
            trim_seq(n@)
        },
        None => default_inline_name(kind),
    }
}

pub fn resolve_inline_source(
    input: &InlineTemplateInput,
    content_kind: TemplateContentKind,
    search_paths: Vec<String>,
    formatting: FormattingConfig,
) -> (r: ResolvedSource)
    ensures
        r.content_kind == content_kind,
        r.source_kind == TemplateSourceKind::Inline,
        r.source_text@ == input.source@,
        r.logical_name@ == inline_name(*input, content_kind),
        r.search_paths@ == search_paths@,
        r.formatting == formatting,
{
    let logical_name = match &input.logical_name {
        Some(n) => {
            let t = trim_string(n.as_str());
            if t.as_str().is_empty() {
                default_inline_logical_name(content_kind)
            } else {
                t
            }
        },
        None => default_inline_logical_name(content_kind),
    };
    ResolvedSource {
        content_kind,
        source_kind: TemplateSourceKind::Inline,
        source_text: input.source.clone(),
        logical_name,
        search_paths,
        formatting,
    }
}

/// Resolves a registered template by its (trimmed) name.
pub fn resolve_registered_source(
    name: &str,
    content_kind: TemplateContentKind,
    repository: &TemplateRepository,
    search_paths: Vec<String>,
    formatting: FormattingConfig,
) -> (r: Result<ResolvedSource, RendererError>)
    ensures
        registered_source(repository.registered_templates@, trim_seq(name@)) is None ==> (
        r matches Err(e) && e@ == RendererErrorView::TemplateNotFound(trim_seq(name@))),
        registered_source(repository.registered_templates@, trim_seq(name@)) matches Some(s) ==> (
        r matches Ok(res) && res.content_kind == content_kind && res.source_kind
            == TemplateSourceKind::Registered && res.source_text@ == s && res.logical_name@
            == trim_seq(name@) && res.search_paths@ == search_paths@ && res.formatting
            == formatting),
{
    let name = trim_string(name);
    match lookup_pair(&repository.registered_templates, name.as_str()) {
        None => Err(RendererError::TemplateNotFound(name)),
        Some(source) => Ok(
            ResolvedSource {
                content_kind,
                source_kind: TemplateSourceKind::Registered,
                source_text: source.clone(),
                logical_name: name,
                search_paths,
                formatting,
            },
        ),
    }
}

/// A template file that was found and read: its canonical path (the name it
/// is known by) and its text.
#[derive(Debug, Clone)]
pub struct LoadedTemplate {
    pub path: String,
    pub source: String,
}

/// Resolves a template file once it has been read.
pub fn resolve_file_source(
    loaded: &LoadedTemplate,
    content_kind: TemplateContentKind,
    search_paths: Vec<String>,
    formatting: FormattingConfig,
) -> (r: ResolvedSource)
    ensures
        r.content_kind == content_kind,
        r.source_kind == TemplateSourceKind::File,
        r.source_text@ == loaded.source@,
        r.logical_name@ == loaded.path@,
        r.search_paths@ == search_paths@,
        r.formatting == formatting,
{
    ResolvedSource {
        content_kind,
        source_kind: TemplateSourceKind::File,
        source_text: loaded.source.clone(),
        logical_name: loaded.path.clone(),
        search_paths,
        formatting,
    }
}

/// Where a request's template comes from: resolved, or a file still to be
/// found under `search_paths` and read.
#[derive(Debug)]
pub enum SourceStep {
    Resolved(ResolvedSource),
    NeedsFile { reference: String, search_paths: Vec<String> },
}

fn copy_texts(v: &Vec<String>) -> (r: Vec<String>)
    ensures
        texts(r@) == texts(v@),
{
    let mut r: Vec<String> = Vec::new();
    let mut i: usize = 0;
    while i < v.len()
        invariant
            0 <= i <= v@.len(),
            texts(r@) == texts(v@.subrange(0, i as int)),
        decreases v@.len() - i,
    {
        let c = v[i].clone();
        let ghost prev = r@;
        r.push(c);
        proof {
            assert(v@.subrange(0, i + 1) =~= v@.subrange(0, i as int).push(v@[i as int]));
            assert(texts(r@) =~= texts(prev).push(c@));
            assert(texts(r@) =~= texts(v@.subrange(0, i + 1)));
        }
        i += 1;
    }
    assert(v@.subrange(0, v@.len() as int) =~= v@);
    r
}

fn copy_pairs(pairs: &Vec<(String, String)>) -> (r: Vec<(String, String)>)
    ensures
        crate::node::pairs_view(r@) == crate::node::pairs_view(pairs@),
        forall|name: Seq<char>| attr_value(r@, name) == attr_value(pairs@, name),
{
    let mut r: Vec<(String, String)> = Vec::new();
    let mut i: usize = 0;
    while i < pairs.len()
        invariant
            0 <= i <= pairs@.len(),
            crate::node::pairs_view(r@) == crate::node::pairs_view(pairs@.subrange(0, i as int)),
        decreases pairs@.len() - i,
    {
        let pair = (pairs[i].0.clone(), pairs[i].1.clone());
        let ghost prev = r@;
        r.push(pair);
        proof {
            assert(pairs@.subrange(0, i + 1) =~= pairs@.subrange(0, i as int).push(pairs@[i as int]));
            assert(crate::node::pairs_view(r@) =~= crate::node::pairs_view(prev).push(
                (pair.0@, pair.1@),
            ));
            assert(crate::node::pairs_view(r@) =~= crate::node::pairs_view(
                pairs@.subrange(0, i + 1),
            ));
        }
        i += 1;
    }
    assert(pairs@.subrange(0, pairs@.len() as int) =~= pairs@);
    proof {
        assert forall|name: Seq<char>| attr_value(r@, name) == attr_value(pairs@, name) by {
            lemma_same_pairs_lookup(r@, pairs@, name);
        }
    }
    r
}

/// Pair lists with the same texts look up alike.
proof fn lemma_same_pairs_lookup(a: Seq<(String, String)>, b: Seq<(String, String)>, name: Seq<char>)
    requires
        crate::node::pairs_view(a) == crate::node::pairs_view(b),
    ensures
        attr_value(a, name) == attr_value(b, name),
    decreases a.len(),
{
    assert(crate::node::pairs_view(a).len() == a.len());
    assert(crate::node::pairs_view(b).len() == b.len());
    if a.len() > 0 {
        assert(crate::node::pairs_view(a)[0] == crate::node::pairs_view(b)[0]);
        assert(crate::node::pairs_view(a.drop_first()) =~= crate::node::pairs_view(a).drop_first());
        assert(crate::node::pairs_view(b.drop_first()) =~= crate::node::pairs_view(b).drop_first());
        lemma_same_pairs_lookup(a.drop_first(), b.drop_first(), name);
    }
}

/// Resolves where the request's template comes from: its formatting first
/// (a blank or unknown theme is refused), then the inline source, the
/// registered template, or the file still to read.
pub fn resolve_source(request: &TemplateRequest, repository: &TemplateRepository) -> (r: Result<
    SourceStep,
    RendererError,
>)
    ensures
        theme_error_text(*request) matches Some(m) ==> (r matches Err(e) && e@
            == RendererErrorView::InvalidRequest(m)),
        !theme_error(*request) ==> match request.input {
            TemplateInput::Inline(i) => r matches Ok(SourceStep::Resolved(res)) && res.source_kind
                == TemplateSourceKind::Inline && res.source_text@ == i.source@
                && res.logical_name@ == inline_name(i, request.content_kind) && res.content_kind
                == request.content_kind && texts(res.search_paths@) == texts(
                repository.search_paths@,
            ) && res.formatting.theme() == requested_theme(request_theme(*request)),
            TemplateInput::Registered(n) => match registered_source(
                repository.registered_templates@,
                trim_seq(n@),
            ) {
                None => r matches Err(e) && e@ == RendererErrorView::TemplateNotFound(trim_seq(n@)),
                Some(s) => r matches Ok(SourceStep::Resolved(res)) && res.source_kind
                    == TemplateSourceKind::Registered && res.source_text@ == s
                    && res.logical_name@ == trim_seq(n@) && res.content_kind
                    == request.content_kind && texts(res.search_paths@) == texts(
                    repository.search_paths@,
                ) && res.formatting.theme() == requested_theme(request_theme(*request)),
            },
            TemplateInput::File(p) => r matches Ok(SourceStep::NeedsFile { reference, search_paths })
                && reference@ == trim_seq(p@) && texts(search_paths@) == texts(
                repository.search_paths@,
            ),
        },
{
    let formatting = FormattingConfig::new(theme_arg(&request.syntax_theme))?;
    let search_paths = copy_texts(&repository.search_paths);
    match &request.input {
        TemplateInput::Inline(input) => Ok(
            SourceStep::Resolved(
                resolve_inline_source(input, request.content_kind, search_paths, formatting),
            ),
        ),
        TemplateInput::File(path) => Ok(
            SourceStep::NeedsFile { reference: trim_string(path.as_str()), search_paths },
        ),
        TemplateInput::Registered(name) => match resolve_registered_source(
            name.as_str(),
            request.content_kind,
            repository,
            search_paths,
            formatting,
        ) {
            Ok(res) => Ok(SourceStep::Resolved(res)),
            Err(e) => Err(e),
        },
    }
}


/// A search path as given, trimmed; blank ones are refused.
pub fn search_path_text(path: &str) -> (r: Result<String, RendererError>)
    ensures
        trim_seq(path@).len() == 0 ==> (r matches Err(e) && e@ == RendererErrorView::InvalidRequest(
            "search path cannot be empty"@,
        )),
        trim_seq(path@).len() != 0 ==> (r matches Ok(t) && t@ == trim_seq(path@)),
{
    let trimmed = trim_string(path);
    if trimmed.as_str().is_empty() {
        return Err(RendererError::invalid_request("search path cannot be empty"));
    }
    Ok(trimmed)
}

/// Why a search path is refused, if it is: it is blank, or what it names
/// (`normalized`, as the file system resolved it) is not a directory.
pub open spec fn search_path_error(path: Seq<char>, normalized: Seq<char>, is_dir: bool) -> Option<
    Seq<char>,
> {
    if trim_seq(path).len() == 0 {
        Some("search path cannot be empty"@)
    } else if !is_dir {
        Some("search path `"@ + normalized + "` is not a directory"@)
    } else {
        None
    }
}

/// Checks a search path given as `path`, with what the file system said of
/// its trimmed text: the path it resolves to and whether that is a
/// directory. Gives the resolved path, or the request error.
pub fn checked_search_path(path: &str, normalized: String, is_dir: bool) -> (r: Result<
    String,
    RendererError,
>)
    ensures
        search_path_error(path@, normalized@, is_dir) matches Some(m) ==> (r matches Err(e) && e@
            == RendererErrorView::InvalidRequest(m)),
        search_path_error(path@, normalized@, is_dir) is None ==> (r matches Ok(p) && p@
            == normalized@),
{
    search_path_text(path)?;
    if !is_dir {
        let mut message = "search path `".to_owned();
        message.append(normalized.as_str());
        message.append("` is not a directory");
        return Err(RendererError::InvalidRequest(message));
    }
    Ok(normalized)
}

/// The JSON context to render with: `None` stands for an empty object (no
/// context, or a blank one), otherwise the trimmed text to parse.
pub open spec fn context_text(context: Option<Seq<char>>) -> Option<Seq<char>> {
    match context {
        Some(c) => if trim_seq(c).len() == 0 {
            None
        } else {
            Some(trim_seq(c))
        },
        None => None,
    }
}

pub fn context_json_text(context: &Option<String>) -> (r: Option<String>)
    ensures
        opt_seq(r) == context_text(opt_seq(*context)),
{
    match context {
        Some(c) => {
            let t = trim_string(c.as_str());
            if t.as_str().is_empty() {
                None
            } else {
                Some(t)
            }
        },
        None => None,
    }
}

/// The JSON context of a Jinja template: an empty object when the text is
/// missing or blank, else the parsed (trimmed) text; text that is not JSON
/// is refused with `serde_json`'s error.
pub fn parse_context_json(context: &Option<String>) -> (r: Result<Value, RendererError>)
    ensures
        context_text(opt_seq(*context)) is None ==> (r matches Ok(v) && v == json_value("{}"@)),
        context_text(opt_seq(*context)) matches Some(t) ==> match json_error(t) {
            Some(m) => r matches Err(e) && e@ == RendererErrorView::Json(m),
            None => r matches Ok(v) && v == json_value(t),
        },
{
    match context_json_text(context) {
        None => Ok(empty_json_object()),
        Some(text) => match json_from_str(text.as_str()) {
            Ok(value) => Ok(value),
            Err(message) => Err(RendererError::Json(message)),
        },
    }
}

pub open spec fn opt_seq(o: Option<String>) -> Option<Seq<char>> {
    match o {
        Some(s) => Some(s@),
        None => None,
    }
}

/// What the caller reports back to [`TemplateEngine::render`].
#[derive(Debug)]
pub enum TemplateEvent {
    /// Nothing has been done yet.
    Start,
    /// The template file was found and read.
    FileLoaded(LoadedTemplate),
    /// No template file was found for the reference.
    FileMissing,
    /// The Jinja template was rendered into this markup.
    JinjaRendered(String),
}

/// A Jinja template to render: its name and source, whether the source is
/// added to the environment under that name (a registered template is
/// there already), whether output is escaped as HTML, the registered
/// templates, the search paths for included files, the JSON context text
/// (`None` for an empty object), and the syntax theme for its filters.
#[derive(Debug)]
pub struct JinjaJob {
    pub logical_name: String,
    pub source_text: String,
    pub add_source_template: bool,
    pub escape_html: bool,
    pub registered_templates: Vec<(String, String)>,
    pub search_paths: Vec<String>,
    pub context_json: Option<String>,
    pub syntax_theme: String,
}

pub struct JinjaJobView {
    pub logical_name: Seq<char>,
    pub source_text: Seq<char>,
    pub add_source_template: bool,
    pub escape_html: bool,
    pub registered_templates: Seq<(Seq<char>, Seq<char>)>,
    pub search_paths: Seq<Seq<char>>,
    pub context_json: Option<Seq<char>>,
    pub syntax_theme: Seq<char>,
}

/// The next step of rendering a template: the finished markup, a template
/// file to find and read, or a Jinja template to render.
#[derive(Debug)]
pub enum TemplateStep {
    Done(String),
    ReadFile { reference: String, search_paths: Vec<String> },
    RenderJinja(JinjaJob),
}

pub enum TemplateStepView {
    Done(Seq<char>),
    ReadFile { reference: Seq<char>, search_paths: Seq<Seq<char>> },
    RenderJinja(JinjaJobView),
}

impl View for TemplateStep {
    type V = TemplateStepView;

    open spec fn view(&self) -> TemplateStepView {
        match self {
            TemplateStep::Done(m) => TemplateStepView::Done(m@),
            TemplateStep::ReadFile { reference, search_paths } => TemplateStepView::ReadFile {
                reference: reference@,
                search_paths: texts(search_paths@),
            },
            TemplateStep::RenderJinja(j) => TemplateStepView::RenderJinja(
                JinjaJobView {
                    logical_name: j.logical_name@,
                    source_text: j.source_text@,
                    add_source_template: j.add_source_template,
                    escape_html: j.escape_html,
                    registered_templates: crate::node::pairs_view(j.registered_templates@),
                    search_paths: texts(j.search_paths@),
                    context_json: opt_seq(j.context_json),
                    syntax_theme: j.syntax_theme@,
                },
            ),
        }
    }
}

/// The template engine's state: the search paths for template files and
/// the templates registered by name, each path and name once.
#[derive(Debug)]
pub struct TemplateEngine {
    search_paths: Vec<String>,
    registered_templates: Vec<(String, String)>,
}

/// The markup a template of `request` finishes as: `markup` turned from
/// Markdown into HTML in `theme` when the content is Markdown.
pub open spec fn finished_markup(request: TemplateRequest, markup: Seq<char>, theme: Seq<char>) -> Seq<
    char,
> {
    if request.content_kind.needs_markdown() {
        markdown_html(markup, theme)
    } else {
        markup
    }
}

impl TemplateEngine {
    #[verifier::type_invariant]
    closed spec fn each_once(self) -> bool {
        distinct_texts(self.search_paths@) && distinct_names(self.registered_templates@)
    }

    /// The search paths, in the order they were added.
    pub closed spec fn paths(self) -> Seq<Seq<char>> {
        texts(self.search_paths@)
    }

    /// The registered templates, as name and source.
    pub closed spec fn templates(self) -> Seq<(Seq<char>, Seq<char>)> {
        crate::node::pairs_view(self.registered_templates@)
    }

    /// The source registered under `name`.
    pub closed spec fn template_source(self, name: Seq<char>) -> Option<Seq<char>> {
        registered_source(self.registered_templates@, name)
    }

    /// The step after a template is resolved: its Jinja rendering when its
    /// content is Jinja, else its finished markup.
    pub closed spec fn resolved_step(
        self,
        request: TemplateRequest,
        name: Seq<char>,
        source: Seq<char>,
        kind: TemplateSourceKind,
    ) -> TemplateStepView {
        let theme = requested_theme(request_theme(request));
        if request.content_kind.needs_jinja() {
            TemplateStepView::RenderJinja(
                JinjaJobView {
                    logical_name: name,
                    source_text: source,
                    add_source_template: kind != TemplateSourceKind::Registered,
                    escape_html: request.content_kind == TemplateContentKind::JinjaHtml,
                    registered_templates: self.templates(),
                    search_paths: self.paths(),
                    context_json: context_text(opt_seq(request.context_json)),
                    syntax_theme: theme,
                },
            )
        } else {
            TemplateStepView::Done(finished_markup(request, source, theme))
        }
    }

    /// The step that answers `event` for a valid request.
    pub closed spec fn next_step(self, request: TemplateRequest, event: TemplateEvent) -> Result<
        TemplateStepView,
        RendererErrorView,
    > {
        let theme = requested_theme(request_theme(request));
        match event {
            TemplateEvent::JinjaRendered(m) => Ok(
                TemplateStepView::Done(finished_markup(request, m@, theme)),
            ),
            _ => match request.input {
                TemplateInput::Inline(i) => Ok(
                    self.resolved_step(
                        request,
                        inline_name(i, request.content_kind),
                        i.source@,
                        TemplateSourceKind::Inline,
                    ),
                ),
                TemplateInput::Registered(n) => match self.template_source(trim_seq(n@)) {
                    None => Err(RendererErrorView::TemplateNotFound(trim_seq(n@))),
                    Some(s) => Ok(
                        self.resolved_step(request, trim_seq(n@), s, TemplateSourceKind::Registered),
                    ),
                },
                TemplateInput::File(p) => match event {
                    TemplateEvent::FileLoaded(l) => Ok(
                        self.resolved_step(request, l.path@, l.source@, TemplateSourceKind::File),
                    ),
                    TemplateEvent::FileMissing => Err(RendererErrorView::TemplateNotFound(p@)),
                    _ => Ok(
                        TemplateStepView::ReadFile { reference: trim_seq(p@), search_paths: self.paths() },
                    ),
                },
            },
        }
    }

    /// An engine with no search paths and no registered templates.
    pub fn new() -> (r: Self)
        ensures
            r.paths() == Seq::<Seq<char>>::empty(),
            r.templates() == Seq::<(Seq<char>, Seq<char>)>::empty(),
    {
        let r = TemplateEngine { search_paths: Vec::new(), registered_templates: Vec::new() };
        assert(texts(r.search_paths@) =~= Seq::<Seq<char>>::empty());
        assert(crate::node::pairs_view(r.registered_templates@) =~= Seq::<(Seq<char>, Seq<char>)>::empty());
        r
    }

    /// Adds a search path (already made absolute and checked to be a
    /// directory) unless the engine has it.
    pub fn add_search_path(&mut self, normalized: String)
        ensures
            old(self).paths().contains(normalized@) ==> final(self).paths() == old(self).paths(),
            !old(self).paths().contains(normalized@) ==> final(self).paths() == old(self).paths().push(
                normalized@,
            ),
            final(self).templates() == old(self).templates(),
    {
        proof {
            use_type_invariant(&*self);
        }
        let mut i: usize = 0;
        while i < self.search_paths.len()
            invariant
                0 <= i <= self.search_paths@.len(),
                forall|k: int| 0 <= k < i ==> #[trigger] self.search_paths@[k]@ != normalized@,
            decreases self.search_paths@.len() - i,
        {
            if str_eq(self.search_paths[i].as_str(), normalized.as_str()) {
                proof {
                    assert(self.paths()[i as int] == normalized@);
                }
                return;
            }
            i += 1;
        }
        proof {
            assert(!self.paths().contains(normalized@)) by {
                if self.paths().contains(normalized@) {
                    let k = choose|k: int| 0 <= k < self.paths().len() && self.paths()[k] == normalized@;
                    assert(self.search_paths@[k]@ == normalized@);
                }
            }
        }
        let ghost before = self.search_paths@;
        let mut paths: Vec<String> = Vec::new();
        std::mem::swap(&mut paths, &mut self.search_paths);
        paths.push(normalized);
        proof {
            assert(texts(paths@) =~= texts(before).push(normalized@));
            assert forall|a: int, b: int| 0 <= a < b < paths@.len() implies #[trigger] paths@[a]@
                != #[trigger] paths@[b]@ by {
                if b == paths@.len() - 1 {
                    assert(paths@[a] == before[a]);
                } else {
                    assert(paths@[a] == before[a]);
                    assert(paths@[b] == before[b]);
                }
            }
        }
        self.search_paths = paths;
    }

    /// Adds a search path given as `path`, with what the file system said of
    /// its trimmed text (see [`checked_search_path`]): a refused path leaves
    /// the engine as it was.
    pub fn add_checked_search_path(&mut self, path: &str, normalized: String, is_dir: bool) -> (r:
        Result<(), RendererError>)
        ensures
            search_path_error(path@, normalized@, is_dir) matches Some(m) ==> (r matches Err(e) && e@
                == RendererErrorView::InvalidRequest(m) && final(self).paths() == old(self).paths()),
            search_path_error(path@, normalized@, is_dir) is None ==> r is Ok && (old(self).paths().contains(
                normalized@,
            ) ==> final(self).paths() == old(self).paths()) && (!old(self).paths().contains(normalized@)
                ==> final(self).paths() == old(self).paths().push(normalized@)),
            final(self).templates() == old(self).templates(),
    {
        let checked = checked_search_path(path, normalized, is_dir)?;
        self.add_search_path(checked);
        Ok(())
    }

    /// Registers `source` under the trimmed `name`, replacing what was
    /// registered under it; a blank name is refused.
    pub fn add_template(&mut self, name: String, source: String) -> (r: Result<(), RendererError>)
        ensures
            trim_seq(name@).len() == 0 ==> (r matches Err(e) && e@ == RendererErrorView::InvalidRequest(
                "template name cannot be empty"@,
            ) && final(self).templates() == old(self).templates()),
            trim_seq(name@).len() != 0 ==> r is Ok && final(self).template_source(trim_seq(name@))
                == Some(source@) && forall|other: Seq<char>|
                other != trim_seq(name@) ==> #[trigger] final(self).template_source(other) == old(
                    self,
                ).template_source(other),
            final(self).paths() == old(self).paths(),
    {
        proof {
            use_type_invariant(&*self);
        }
        let name = trim_string(name.as_str());
        if name.as_str().is_empty() {
            return Err(RendererError::invalid_request("template name cannot be empty"));
        }
        let ghost before = self.registered_templates@;
        let mut templates: Vec<(String, String)> = Vec::new();
        std::mem::swap(&mut templates, &mut self.registered_templates);
        match index_of_name(&templates, name.as_str()) {
            Some(k) => {
                let ghost n = name@;
                templates.set(k, (name, source));
                proof {
                    assert(distinct_names(templates@)) by {
                        assert forall|a: int, b: int| 0 <= a < b < templates@.len() implies #[trigger] templates@[a].0@
                            != #[trigger] templates@[b].0@ by {
                            if a != k as int && b != k as int {
                                assert(templates@[a] == before[a]);
                                assert(templates@[b] == before[b]);
                            } else if a == k as int {
                                assert(templates@[b] == before[b]);
                                assert(before[k as int].0@ == n);
                            } else {
                                assert(templates@[a] == before[a]);
                                assert(before[k as int].0@ == n);
                            }
                        }
                    }
                    lemma_distinct_lookup(templates@, k as int);
                    assert forall|other: Seq<char>| other != n implies #[trigger] registered_source(
                        templates@,
                        other,
                    ) == registered_source(before, other) by {
                        lemma_lookup_other(before, templates@, k as int, other);
                    }
                }
            },
            None => {
                let ghost n = name@;
                templates.push((name, source));
                proof {
                    assert(distinct_names(templates@)) by {
                        assert forall|a: int, b: int| 0 <= a < b < templates@.len() implies #[trigger] templates@[a].0@
                            != #[trigger] templates@[b].0@ by {
                            assert(templates@[a] == before[a]);
                            if b < before.len() {
                                assert(templates@[b] == before[b]);
                            }
                        }
                    }
                    lemma_distinct_lookup(templates@, before.len() as int);
                    assert forall|other: Seq<char>| other != n implies #[trigger] registered_source(
                        templates@,
                        other,
                    ) == registered_source(before, other) by {
                        lemma_lookup_pushed(before, templates@, other);
                    }
                }
            },
        }
        self.registered_templates = templates;
        Ok(())
    }

    /// Removes every registered template.
    pub fn clear_templates(&mut self)
        ensures
            forall|name: Seq<char>| #[trigger] final(self).template_source(name) is None,
            final(self).templates() == Seq::<(Seq<char>, Seq<char>)>::empty(),
            final(self).paths() == old(self).paths(),
    {
        proof {
            use_type_invariant(&*self);
        }
        self.registered_templates = Vec::new();
        assert(crate::node::pairs_view(self.registered_templates@) =~= Seq::<(Seq<char>, Seq<char>)>::empty());
    }

    /// A copy of the engine's search paths and registered templates.
    pub fn template_repository(&self) -> (r: TemplateRepository)
        ensures
            texts(r.search_paths@) == self.paths(),
            crate::node::pairs_view(r.registered_templates@) == self.templates(),
            forall|name: Seq<char>| registered_source(r.registered_templates@, name)
                == #[trigger] self.template_source(name),
    {
        TemplateRepository {
            search_paths: copy_texts(&self.search_paths),
            registered_templates: copy_pairs(&self.registered_templates),
        }
    }
}


/// The markup a template finishes as (see [`finished_markup`]).
fn finish_markup(kind: TemplateContentKind, markup: String, formatting: &FormattingConfig) -> (r:
    String)
    ensures
        r@ == (if kind.needs_markdown() {
            markdown_html(markup@, formatting.theme())
        } else {
            markup@
        }),
{
    if kind.requires_markdown() {
        match render_markdown_to_html(markup.as_str(), formatting) {
            Ok(html) => html,
            Err(_) => markup,
        }
    } else {
        markup
    }
}

impl TemplateEngine {
    /// The step after `resolved` (see [`TemplateEngine::resolved_step`]).
    fn step_after(&self, request: &TemplateRequest, resolved: ResolvedSource) -> (r: TemplateStep)
        requires
            resolved.content_kind == request.content_kind,
            texts(resolved.search_paths@) == self.paths(),
            resolved.formatting.theme() == requested_theme(request_theme(*request)),
        ensures
            r@ == self.resolved_step(
                *request,
                resolved.logical_name@,
                resolved.source_text@,
                resolved.source_kind,
            ),
    {
        if resolved.requires_jinja() {
            let theme = resolved.formatting.syntax_theme().to_owned();
            let job = JinjaJob {
                logical_name: resolved.logical_name,
                source_text: resolved.source_text,
                add_source_template: resolved.source_kind != TemplateSourceKind::Registered,
                escape_html: resolved.content_kind == TemplateContentKind::JinjaHtml,
                registered_templates: copy_pairs(&self.registered_templates),
                search_paths: resolved.search_paths,
                context_json: context_json_text(&request.context_json),
                syntax_theme: theme,
            };
            TemplateStep::RenderJinja(job)
        } else {
            TemplateStep::Done(
                finish_markup(resolved.content_kind, resolved.source_text, &resolved.formatting),
            )
        }
    }

    /// Answers `event` with the next step of rendering `request`: the
    /// request is validated first (input, then theme); then the template is
    /// resolved (a file is asked for when the input names one), a Jinja
    /// template is handed out for rendering, and the markup is finished,
    /// Markdown turned into HTML.
    pub fn render(&self, request: &TemplateRequest, event: TemplateEvent) -> (r: Result<
        TemplateStep,
        RendererError,
    >)
        ensures
            input_error(request.input) matches Some(m) ==> (r matches Err(e) && e@
                == RendererErrorView::InvalidRequest(m)),
            input_error(request.input) is None ==> (theme_error_text(*request) matches Some(m) ==> (r
                matches Err(e) && e@ == RendererErrorView::InvalidRequest(m))),
            input_error(request.input) is None && !theme_error(*request) ==> match self.next_step(
                *request,
                event,
            ) {
                Ok(v) => r matches Ok(s) && s@ == v,
                Err(ev) => r matches Err(e) && e@ == ev,
            },
    {
        validate_render_request(request)?;
        let formatting = FormattingConfig::new(theme_arg(&request.syntax_theme))?;
        let ghost ev = event;
        match event {
            TemplateEvent::JinjaRendered(markup) => Ok(
                TemplateStep::Done(finish_markup(request.content_kind, markup, &formatting)),
            ),
            other => match &request.input {
                TemplateInput::Inline(input) => {
                    let resolved = resolve_inline_source(
                        input,
                        request.content_kind,
                        copy_texts(&self.search_paths),
                        formatting,
                    );
                    Ok(self.step_after(request, resolved))
                },
                TemplateInput::Registered(name) => {
                    let repository = self.template_repository();
                    let resolved = resolve_registered_source(
                        name.as_str(),
                        request.content_kind,
                        &repository,
                        copy_texts(&self.search_paths),
                        formatting,
                    )?;
                    Ok(self.step_after(request, resolved))
                },
                TemplateInput::File(path) => match other {
                    TemplateEvent::FileLoaded(loaded) => {
                        let resolved = resolve_file_source(
                            &loaded,
                            request.content_kind,
                            copy_texts(&self.search_paths),
                            formatting,
                        );
                        Ok(self.step_after(request, resolved))
                    },
                    TemplateEvent::FileMissing => Err(RendererError::TemplateNotFound(path.clone())),
                    _ => Ok(
                        TemplateStep::ReadFile {
                            reference: trim_string(path.as_str()),
                            search_paths: copy_texts(&self.search_paths),
                        },
                    ),
                },
            },
        }
    }
}


/// A Markdown template given inline finishes at the first step, as the
/// HTML of its source.
pub proof fn law_inline_markdown_finishes_at_once(
    engine: TemplateEngine,
    request: TemplateRequest,
    input: InlineTemplateInput,
)
    requires
        request.input == TemplateInput::Inline(input),
        request.content_kind == TemplateContentKind::Markdown,
    ensures
        engine.next_step(request, TemplateEvent::Start) == Ok::<TemplateStepView, RendererErrorView>(
            TemplateStepView::Done(
                markdown_html(input.source@, requested_theme(request_theme(request))),
            ),
        ),
{
}

/// A Jinja template is never finished before it is rendered: its first
/// step hands it out (or asks for its file, or fails), with the engine's
/// registered templates and search paths.
pub proof fn law_jinja_template_is_handed_out(engine: TemplateEngine, request: TemplateRequest)
    requires
        request.content_kind.needs_jinja(),
    ensures
        !(engine.next_step(request, TemplateEvent::Start) matches Ok(TemplateStepView::Done(_))),
        engine.next_step(request, TemplateEvent::Start) matches Ok(TemplateStepView::RenderJinja(job))
            ==> job.registered_templates == engine.templates() && job.search_paths
            == engine.paths() && job.escape_html == (request.content_kind
            == TemplateContentKind::JinjaHtml),
{
}

/// A template file is asked for by its trimmed reference before anything
/// else, and a missing one is reported under the reference as given.
pub proof fn law_template_file_is_asked_for(engine: TemplateEngine, request: TemplateRequest, path: String)
    requires
        request.input == TemplateInput::File(path),
    ensures
        engine.next_step(request, TemplateEvent::Start) == Ok::<TemplateStepView, RendererErrorView>(
            TemplateStepView::ReadFile { reference: trim_seq(path@), search_paths: engine.paths() },
        ),
        engine.next_step(request, TemplateEvent::FileMissing) == Err::<
            TemplateStepView,
            RendererErrorView,
        >(RendererErrorView::TemplateNotFound(path@)),
{
}

/// A registered template is looked up by its trimmed name: a name with no
/// template is reported as not found under that name, and a found template
/// is handed out for Jinja (not added again to the environment) or
/// finished at once.
pub proof fn law_registered_template_is_looked_up(
    engine: TemplateEngine,
    request: TemplateRequest,
    name: String,
)
    requires
        request.input == TemplateInput::Registered(name),
    ensures
        engine.template_source(trim_seq(name@)) is None ==> engine.next_step(
            request,
            TemplateEvent::Start,
        ) == Err::<TemplateStepView, RendererErrorView>(
            RendererErrorView::TemplateNotFound(trim_seq(name@)),
        ),
        engine.template_source(trim_seq(name@)) matches Some(source) ==> engine.next_step(
            request,
            TemplateEvent::Start,
        ) == Ok::<TemplateStepView, RendererErrorView>(
            if request.content_kind.needs_jinja() {
                TemplateStepView::RenderJinja(
                    JinjaJobView {
                        logical_name: trim_seq(name@),
                        source_text: source,
                        add_source_template: false,
                        escape_html: request.content_kind == TemplateContentKind::JinjaHtml,
                        registered_templates: engine.templates(),
                        search_paths: engine.paths(),
                        context_json: context_text(opt_seq(request.context_json)),
                        syntax_theme: requested_theme(request_theme(request)),
                    },
                )
            } else {
                TemplateStepView::Done(
                    finished_markup(request, source, requested_theme(request_theme(request))),
                )
            },
        ),
{
}

/// Rendered Jinja output finishes as its HTML when the template is Markdown,
/// and as itself otherwise.
pub proof fn law_rendered_output_finishes(
    engine: TemplateEngine,
    request: TemplateRequest,
    markup: String,
)
    ensures
        engine.next_step(request, TemplateEvent::JinjaRendered(markup)) == Ok::<
            TemplateStepView,
            RendererErrorView,
        >(
            TemplateStepView::Done(
                if request.content_kind == TemplateContentKind::JinjaMarkdown
                    || request.content_kind == TemplateContentKind::Markdown {
                    markdown_html(markup@, requested_theme(request_theme(request)))
                } else {
                    markup@
                },
            ),
        ),
{
}

} // verus!
