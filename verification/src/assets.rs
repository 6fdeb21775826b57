//! Resolution of local asset references during conversion.
//!
//! The conversion reads no file itself. It works against an [`AssetStore`]
//! of files already read, and where it needs one that is not there it stops
//! with [`Step::Needs`], naming the file; the caller reads it, records the
//! outcome in the store, and converts again.
use base64::{prelude::BASE64_STANDARD, Engine};
use takumi::prelude::StyleDeclarationBlock;
use vstd::prelude::*;

use crate::error::{HtmlError, HtmlErrorView};
use crate::options::{effective_mode, FromHtmlOptions, LocalAssetMode};
use crate::resource::{
    is_local_relative, is_local_relative_reference, kind_label, lemma_url_token_advances,
    split_reference_suffix, suffix_start_from, url_token_at, url_token_in, LocalReferenceKind,
};
use crate::text::{chars_of, push_char, trim_seq, trim_string};

verus! {

/// What the conversion needs read from a file.
#[derive(Debug, Clone, Copy, PartialEq, Eq, Structural)]
pub enum AssetKind {
    /// A linked stylesheet, read as text.
    StylesheetText,
    /// A file's bytes, for a `data:` URI.
    FileBytes,
    /// A file's canonical absolute path.
    CanonicalPath,
}

/// A file the conversion needs: `relative_path` under `base_dir`.
#[derive(Debug, Clone, PartialEq, Eq)]
pub struct AssetRequest {
    pub kind: AssetKind,
    pub base_dir: String,
    pub relative_path: String,
}

pub struct AssetRequestView {
    pub kind: AssetKind,
    pub base_dir: Seq<char>,
    pub relative_path: Seq<char>,
}

impl View for AssetRequest {
    type V = AssetRequestView;

    open spec fn view(&self) -> AssetRequestView {
        AssetRequestView {
            kind: self.kind,
            base_dir: self.base_dir@,
            relative_path: self.relative_path@,
        }
    }
}

/// A stylesheet file's text and the directory that holds it (the parent of
/// its path, if it has one).
#[derive(Debug, Clone)]
pub struct StylesheetFile {
    pub content: String,
    pub parent_dir: Option<String>,
}

/// The outcome of reading a stylesheet: `path` is `base_dir` joined with
/// `relative_path`, and the error is the reason the read failed.
#[derive(Debug)]
pub struct TextAsset {
    pub base_dir: String,
    pub relative_path: String,
    pub path: String,
    pub result: Result<StylesheetFile, String>,
}

/// The outcome of reading a file's bytes.
#[derive(Debug)]
pub struct FileAsset {
    pub base_dir: String,
    pub relative_path: String,
    pub path: String,
    pub result: Result<Vec<u8>, String>,
}

/// The outcome of making a file's path canonical; on success, the canonical
/// path as text.
#[derive(Debug)]
pub struct CanonicalAsset {
    pub base_dir: String,
    pub relative_path: String,
    pub path: String,
    pub result: Result<String, String>,
}

/// The file outcomes the conversion may use.
#[derive(Debug)]
pub struct AssetStore {
    pub texts: Vec<TextAsset>,
    pub files: Vec<FileAsset>,
    pub canonical_paths: Vec<CanonicalAsset>,
}

impl AssetStore {
    pub fn new() -> (r: Self)
        ensures
            r.texts@.len() == 0,
            r.files@.len() == 0,
            r.canonical_paths@.len() == 0,
    {
        AssetStore { texts: Vec::new(), files: Vec::new(), canonical_paths: Vec::new() }
    }
}

/// The first stylesheet outcome recorded for `relative` under `base`.
pub open spec fn text_index(entries: Seq<TextAsset>, base: Seq<char>, relative: Seq<char>) -> Option<int>
    decreases entries.len(),
{
    if entries.len() == 0 {
        None
    } else if entries.last().base_dir@ == base && entries.last().relative_path@ == relative
        && text_index(entries.drop_last(), base, relative) is None {
        Some(entries.len() - 1)
    } else {
        text_index(entries.drop_last(), base, relative)
    }
}

/// The first byte outcome recorded for `relative` under `base`.
pub open spec fn file_index(entries: Seq<FileAsset>, base: Seq<char>, relative: Seq<char>) -> Option<int>
    decreases entries.len(),
{
    if entries.len() == 0 {
        None
    } else if entries.last().base_dir@ == base && entries.last().relative_path@ == relative
        && file_index(entries.drop_last(), base, relative) is None {
        Some(entries.len() - 1)
    } else {
        file_index(entries.drop_last(), base, relative)
    }
}

/// The first canonical-path outcome recorded for `relative` under `base`.
pub open spec fn canonical_index(
    entries: Seq<CanonicalAsset>,
    base: Seq<char>,
    relative: Seq<char>,
) -> Option<int>
    decreases entries.len(),
{
    if entries.len() == 0 {
        None
    } else if entries.last().base_dir@ == base && entries.last().relative_path@ == relative
        && canonical_index(entries.drop_last(), base, relative) is None {
        Some(entries.len() - 1)
    } else {
        canonical_index(entries.drop_last(), base, relative)
    }
}

/// Whether the store records an outcome for `request`.
pub open spec fn store_has(store: AssetStore, request: AssetRequestView) -> bool {
    match request.kind {
        AssetKind::StylesheetText => text_index(
            store.texts@,
            request.base_dir,
            request.relative_path,
        ) is Some,
        AssetKind::FileBytes => file_index(
            store.files@,
            request.base_dir,
            request.relative_path,
        ) is Some,
        AssetKind::CanonicalPath => canonical_index(
            store.canonical_paths@,
            request.base_dir,
            request.relative_path,
        ) is Some,
    }
}

proof fn lemma_text_index_bounds(entries: Seq<TextAsset>, base: Seq<char>, relative: Seq<char>)
    ensures
        text_index(entries, base, relative) matches Some(i) ==> 0 <= i < entries.len()
            && entries[i].base_dir@ == base && entries[i].relative_path@ == relative,
    decreases entries.len(),
{
    if entries.len() > 0 {
        lemma_text_index_bounds(entries.drop_last(), base, relative);
    }
}

proof fn lemma_file_index_bounds(entries: Seq<FileAsset>, base: Seq<char>, relative: Seq<char>)
    ensures
        file_index(entries, base, relative) matches Some(i) ==> 0 <= i < entries.len()
            && entries[i].base_dir@ == base && entries[i].relative_path@ == relative,
    decreases entries.len(),
{
    if entries.len() > 0 {
        lemma_file_index_bounds(entries.drop_last(), base, relative);
    }
}

proof fn lemma_canonical_index_bounds(
    entries: Seq<CanonicalAsset>,
    base: Seq<char>,
    relative: Seq<char>,
)
    ensures
        canonical_index(entries, base, relative) matches Some(i) ==> 0 <= i < entries.len()
            && entries[i].base_dir@ == base && entries[i].relative_path@ == relative,
    decreases entries.len(),
{
    if entries.len() > 0 {
        lemma_canonical_index_bounds(entries.drop_last(), base, relative);
    }
}

fn same_text(a: &String, b: &String) -> (r: bool)
    ensures
        r == (a@ == b@),
{
    a.eq(b)
}

fn find_text(entries: &Vec<TextAsset>, base: &String, relative: &String) -> (r: Option<usize>)
    ensures
        r matches Some(i) ==> text_index(entries@, base@, relative@) == Some(i as int),
        r is None ==> text_index(entries@, base@, relative@) is None,
{
    let mut i: usize = 0;
    while i < entries.len()
        invariant
            0 <= i <= entries@.len(),
            forall|j: int|
                0 <= j < i ==> !(entries@[j].base_dir@ == base@ && entries@[j].relative_path@
                    == relative@),
        decreases entries@.len() - i,
    {
        if same_text(&entries[i].base_dir, base) && same_text(&entries[i].relative_path, relative) {
            proof {
                lemma_text_index_none_before(entries@, base@, relative@, i as int);
            }
            return Some(i);
        }
        i += 1;
    }
    proof {
        lemma_text_index_none_before(entries@, base@, relative@, entries@.len() as int);
    }
    None
}

proof fn lemma_text_index_none_before(
    entries: Seq<TextAsset>,
    base: Seq<char>,
    relative: Seq<char>,
    i: int,
)
    requires
        0 <= i <= entries.len(),
        forall|j: int|
            0 <= j < i ==> !(entries[j].base_dir@ == base && entries[j].relative_path@ == relative),
    ensures
        i == entries.len() ==> text_index(entries, base, relative) is None,
        i < entries.len() && entries[i].base_dir@ == base && entries[i].relative_path@ == relative
            ==> text_index(entries, base, relative) == Some(i),
    decreases entries.len(),
{
    if entries.len() > 0 {
        if i == entries.len() {
            lemma_text_index_none_before(entries.drop_last(), base, relative, i - 1);
        } else if i == entries.len() - 1 {
            lemma_text_index_none_before(entries.drop_last(), base, relative, i);
        } else {
            lemma_text_index_none_before(entries.drop_last(), base, relative, i);
        }
    }
}

fn find_file(entries: &Vec<FileAsset>, base: &String, relative: &String) -> (r: Option<usize>)
    ensures
        r matches Some(i) ==> file_index(entries@, base@, relative@) == Some(i as int),
        r is None ==> file_index(entries@, base@, relative@) is None,
{
    let mut i: usize = 0;
    while i < entries.len()
        invariant
            0 <= i <= entries@.len(),
            forall|j: int|
                0 <= j < i ==> !(entries@[j].base_dir@ == base@ && entries@[j].relative_path@
                    == relative@),
        decreases entries@.len() - i,
    {
        if same_text(&entries[i].base_dir, base) && same_text(&entries[i].relative_path, relative) {
            proof {
                lemma_file_index_none_before(entries@, base@, relative@, i as int);
            }
            return Some(i);
        }
        i += 1;
    }
    proof {
        lemma_file_index_none_before(entries@, base@, relative@, entries@.len() as int);
    }
    None
}

proof fn lemma_file_index_none_before(
    entries: Seq<FileAsset>,
    base: Seq<char>,
    relative: Seq<char>,
    i: int,
)
    requires
        0 <= i <= entries.len(),
        forall|j: int|
            0 <= j < i ==> !(entries[j].base_dir@ == base && entries[j].relative_path@ == relative),
    ensures
        i == entries.len() ==> file_index(entries, base, relative) is None,
        i < entries.len() && entries[i].base_dir@ == base && entries[i].relative_path@ == relative
            ==> file_index(entries, base, relative) == Some(i),
    decreases entries.len(),
{
    if entries.len() > 0 {
        if i == entries.len() {
            lemma_file_index_none_before(entries.drop_last(), base, relative, i - 1);
        } else {
            lemma_file_index_none_before(entries.drop_last(), base, relative, i);
        }
    }
}

fn find_canonical(entries: &Vec<CanonicalAsset>, base: &String, relative: &String) -> (r: Option<
    usize,
>)
    ensures
        r matches Some(i) ==> canonical_index(entries@, base@, relative@) == Some(i as int),
        r is None ==> canonical_index(entries@, base@, relative@) is None,
{
    let mut i: usize = 0;
    while i < entries.len()
        invariant
            0 <= i <= entries@.len(),
            forall|j: int|
                0 <= j < i ==> !(entries@[j].base_dir@ == base@ && entries@[j].relative_path@
                    == relative@),
        decreases entries@.len() - i,
    {
        if same_text(&entries[i].base_dir, base) && same_text(&entries[i].relative_path, relative) {
            proof {
                lemma_canonical_index_none_before(entries@, base@, relative@, i as int);
            }
            return Some(i);
        }
        i += 1;
    }
    proof {
        lemma_canonical_index_none_before(entries@, base@, relative@, entries@.len() as int);
    }
    None
}

proof fn lemma_canonical_index_none_before(
    entries: Seq<CanonicalAsset>,
    base: Seq<char>,
    relative: Seq<char>,
    i: int,
)
    requires
        0 <= i <= entries.len(),
        forall|j: int|
            0 <= j < i ==> !(entries[j].base_dir@ == base && entries[j].relative_path@ == relative),
    ensures
        i == entries.len() ==> canonical_index(entries, base, relative) is None,
        i < entries.len() && entries[i].base_dir@ == base && entries[i].relative_path@ == relative
            ==> canonical_index(entries, base, relative) == Some(i),
    decreases entries.len(),
{
    if entries.len() > 0 {
        if i == entries.len() {
            lemma_canonical_index_none_before(entries.drop_last(), base, relative, i - 1);
        } else {
            lemma_canonical_index_none_before(entries.drop_last(), base, relative, i);
        }
    }
}

/// Where a conversion step stands: finished with a value, failed with an
/// error, or waiting for a file to be read.
#[derive(Debug)]
pub enum Step<T> {
    Done(T),
    Failed(HtmlError),
    Needs(AssetRequest),
}

pub enum StepView<V> {
    Done(V),
    Failed(HtmlErrorView),
    Needs(AssetRequestView),
}

/// `r` is the step `s`, its value taken by `f`.
pub open spec fn step_is<T, V>(r: Step<T>, s: StepView<V>, f: spec_fn(T) -> V) -> bool {
    match r {
        Step::Done(x) => s == StepView::Done(f(x)),
        Step::Failed(e) => s == StepView::<V>::Failed(e@),
        Step::Needs(q) => s == StepView::<V>::Needs(q@),
    }
}

/// A step that waits for a file waits for one the store does not hold.
pub open spec fn asks_only_missing<V>(s: StepView<V>, store: AssetStore) -> bool {
    s matches StepView::Needs(q) ==> !store_has(store, q)
}

pub open spec fn str_view() -> spec_fn(String) -> Seq<char> {
    |s: String| s@
}

/// The media type that `mime_guess` associates with the extension of `path`
/// (`application/octet-stream` when it knows none).
pub uninterp spec fn guessed_mime(path: Seq<char>) -> Seq<char>;

/// `mime_guess::from_path(path).first_or_octet_stream().essence_str()`.
/// Claims only that the result is `guessed_mime(path)`, a function of the
/// path text alone.
#[verifier::external_body]
fn mime_essence(path: &str) -> (mime: String)
    ensures
        mime@ == guessed_mime(path@),
{
    mime_guess::from_path(path).first_or_octet_stream().essence_str().to_owned()
}

/// The standard (RFC 4648, padded) base64 encoding of `bytes`.
pub uninterp spec fn base64_standard(bytes: Seq<u8>) -> Seq<char>;

/// `BASE64_STANDARD.encode(bytes)` from the `base64` crate. Claims only that
/// the result is `base64_standard(bytes)`, a function of the bytes alone.
#[verifier::external_body]
fn encode_base64(bytes: &[u8]) -> (encoded: String)
    ensures
        encoded@ == base64_standard(bytes@),
{
    BASE64_STANDARD.encode(bytes)
}

/// The reason takumi's inline style parser gives for rejecting `style`, or
/// `None` when it accepts it.
pub uninterp spec fn inline_style_error(style: Seq<char>) -> Option<Seq<char>>;

/// `StyleDeclarationBlock::from_str(style)` from takumi, keeping only whether
/// it failed and the error's text. Claims only that this is
/// `inline_style_error(style)`, a function of the style text alone.
#[verifier::external_body]
pub(crate) fn inline_style_parse_error(style: &str) -> (r: Option<String>)
    ensures
        r matches Some(reason) ==> inline_style_error(style@) == Some(reason@),
        r is None ==> inline_style_error(style@) is None,
{
    match <StyleDeclarationBlock as std::str::FromStr>::from_str(style) {
        Ok(_) => None,
        Err(error) => Some(error.to_string()),
    }
}

/// How a reference relates to the file system.
pub enum PathPlan {
    /// Not a local relative reference: it stays as written.
    NotLocal,
    /// A local relative reference with no base directory to resolve it.
    MissingBase(HtmlErrorView),
    /// The file `part` (the reference without its suffix) under `base`.
    Local { base: Seq<char>, part: Seq<char> },
}

/// The suffix (`?...` or `#...`) of a reference.
pub open spec fn suffix_of(s: Seq<char>) -> Seq<char> {
    s.subrange(suffix_start_from(s, 0), s.len() as int)
}

/// The path part of a reference.
pub open spec fn path_part_of(s: Seq<char>) -> Seq<char> {
    s.subrange(0, suffix_start_from(s, 0))
}

pub open spec fn local_path_plan(
    reference: Seq<char>,
    base: Option<Seq<char>>,
    kind: LocalReferenceKind,
) -> PathPlan {
    let r = trim_seq(reference);
    if r.len() == 0 || !is_local_relative(r) {
        PathPlan::NotLocal
    } else {
        match base {
            None => PathPlan::MissingBase(
                HtmlErrorView::MissingBasePathForRelativeReference { reference: r, kind: kind_label(kind) },
            ),
            Some(b) => PathPlan::Local { base: b, part: path_part_of(r) },
        }
    }
}

pub enum LocalPath {
    NotLocal,
    MissingBase(HtmlError),
    Local { base: String, part: String },
}

pub open spec fn local_path_is(r: LocalPath, p: PathPlan) -> bool {
    match r {
        LocalPath::NotLocal => p is NotLocal,
        LocalPath::MissingBase(e) => p == PathPlan::MissingBase(e@),
        LocalPath::Local { base, part } => p == PathPlan::Local { base: base@, part: part@ },
    }
}

pub open spec fn opt_string_view(o: Option<String>) -> Option<Seq<char>> {
    match o {
        Some(s) => Some(s@),
        None => None,
    }
}

/// Decides whether `reference` names a local file under `base`.
pub fn plan_local_path(reference: &str, base: &Option<String>, kind: LocalReferenceKind) -> (r:
    LocalPath)
    ensures
        local_path_is(r, local_path_plan(reference@, opt_string_view(*base), kind)),
{
    let trimmed = trim_string(reference);
    if trimmed.as_str().is_empty() || !is_local_relative_reference(trimmed.as_str()) {
        return LocalPath::NotLocal;
    }
    match base {
        None => LocalPath::MissingBase(
            HtmlError::MissingBasePathForRelativeReference { reference: trimmed, kind: kind.label() },
        ),
        Some(b) => {
            let (part, _) = split_reference_suffix(trimmed.as_str());
            LocalPath::Local { base: b.clone(), part: part.to_owned() }
        },
    }
}

/// `s` with every `\` turned into `/`.
pub open spec fn forward_slashes(s: Seq<char>) -> Seq<char> {
    Seq::new(s.len(), |i: int| if s[i] == '\\' { '/' } else { s[i] })
}

/// A fragment reference (`#id`, as in `filter: url(#soft)`) names no file:
/// it is not local relative, and under any options, base and store it is
/// kept as written without a file being asked for.
pub proof fn law_fragment_references_are_kept(
    reference: Seq<char>,
    base: Option<Seq<char>>,
    kind: LocalReferenceKind,
    options: FromHtmlOptions,
    store: AssetStore,
)
    requires
        trim_seq(reference).len() > 0,
        trim_seq(reference)[0] == '#',
    ensures
        !is_local_relative(reference),
        resolve_reference(reference, base, kind, options, store) == StepView::Done(reference),
{
    crate::text::lemma_trim_seq_ends(reference);
    let r = trim_seq(reference);
    assert(r.subrange(0, 1) =~= seq!['#']);
    assert(crate::text::has_prefix(r, seq!['#']));
    assert(trim_seq(r) == r);
}

/// What `reference` becomes under the options, with files from the store.
pub open spec fn resolve_reference(
    reference: Seq<char>,
    base: Option<Seq<char>>,
    kind: LocalReferenceKind,
    options: FromHtmlOptions,
    store: AssetStore,
) -> StepView<Seq<char>> {
    match local_path_plan(reference, base, kind) {
        PathPlan::NotLocal => StepView::Done(reference),
        PathPlan::MissingBase(e) => StepView::Failed(e),
        PathPlan::Local { base: b, part } => match effective_mode(options) {
            LocalAssetMode::Preserve => StepView::Done(reference),
            LocalAssetMode::InlineDataUri => match file_index(store.files@, b, part) {
                None => StepView::Needs(
                    AssetRequestView { kind: AssetKind::FileBytes, base_dir: b, relative_path: part },
                ),
                Some(i) => {
                    let a = store.files@[i];
                    match a.result {
                        Err(reason) => StepView::Failed(
                            HtmlErrorView::AssetReadFailed { path: a.path@, reason: reason@ },
                        ),
                        Ok(bytes) => StepView::Done(
                            "data:"@ + guessed_mime(a.path@) + ";base64,"@ + base64_standard(
                                bytes@,
                            ) + suffix_of(trim_seq(reference)),
                        ),
                    }
                },
            },
            LocalAssetMode::AbsolutePath => match canonical_index(
                store.canonical_paths@,
                b,
                part,
            ) {
                None => StepView::Needs(
                    AssetRequestView {
                        kind: AssetKind::CanonicalPath,
                        base_dir: b,
                        relative_path: part,
                    },
                ),
                Some(i) => {
                    let a = store.canonical_paths@[i];
                    match a.result {
                        Err(reason) => StepView::Failed(
                            HtmlErrorView::AssetReadFailed { path: a.path@, reason: reason@ },
                        ),
                        Ok(canonical) => StepView::Done(
                            forward_slashes(canonical@) + suffix_of(trim_seq(reference)),
                        ),
                    }
                },
            },
        },
    }
}

pub fn forward_slashed(s: &String) -> (r: String)
    ensures
        r@ == forward_slashes(s@),
{
    let v = chars_of(s.as_str());
    let mut r = String::new();
    let mut i: usize = 0;
    while i < v.len()
        invariant
            0 <= i <= v@.len(),
            v@ == s@,
            r@ == forward_slashes(v@.subrange(0, i as int)),
        decreases v@.len() - i,
    {
        push_char(&mut r, if v[i] == '\\' { '/' } else { v[i] });
        i += 1;
        assert(r@ =~= forward_slashes(v@.subrange(0, i as int)));
    }
    assert(v@.subrange(0, v@.len() as int) =~= v@);
    r
}

/// The suffix of `reference` after trimming.
fn trimmed_suffix(reference: &str) -> (r: String)
    ensures
        r@ == suffix_of(trim_seq(reference@)),
{
    let trimmed = trim_string(reference);
    let (_, suffix) = split_reference_suffix(trimmed.as_str());
    suffix.to_owned()
}

/// Resolves `reference` (an image source, a `url(..)` value) under the
/// options, with files from the store.
pub fn resolve_local_reference(
    reference: &str,
    base: &Option<String>,
    kind: LocalReferenceKind,
    options: &FromHtmlOptions,
    store: &AssetStore,
) -> (r: Step<String>)
    ensures
        step_is(r, resolve_reference(reference@, opt_string_view(*base), kind, *options, *store), str_view()),
        asks_only_missing(resolve_reference(reference@, opt_string_view(*base), kind, *options, *store), *store),
{
    match plan_local_path(reference, base, kind) {
        LocalPath::NotLocal => Step::Done(reference.to_owned()),
        LocalPath::MissingBase(e) => Step::Failed(e),
        LocalPath::Local { base: b, part } => match options.effective_local_asset_mode() {
            LocalAssetMode::Preserve => Step::Done(reference.to_owned()),
            LocalAssetMode::InlineDataUri => match find_file(&store.files, &b, &part) {
                None => Step::Needs(
                    AssetRequest { kind: AssetKind::FileBytes, base_dir: b, relative_path: part },
                ),
                Some(i) => {
                    proof {
                        lemma_file_index_bounds(store.files@, b@, part@);
                    }
                    let a = &store.files[i];
                    match &a.result {
                        Err(reason) => Step::Failed(
                            HtmlError::AssetReadFailed { path: a.path.clone(), reason: reason.clone() },
                        ),
                        Ok(bytes) => {
                            let mut uri = String::new();
                            uri.append("data:");
                            uri.append(mime_essence(a.path.as_str()).as_str());
                            uri.append(";base64,");
                            uri.append(encode_base64(bytes.as_slice()).as_str());
                            uri.append(trimmed_suffix(reference).as_str());
                            Step::Done(uri)
                        },
                    }
                },
            },
            LocalAssetMode::AbsolutePath => match find_canonical(&store.canonical_paths, &b, &part) {
                None => Step::Needs(
                    AssetRequest { kind: AssetKind::CanonicalPath, base_dir: b, relative_path: part },
                ),
                Some(i) => {
                    proof {
                        lemma_canonical_index_bounds(store.canonical_paths@, b@, part@);
                    }
                    let a = &store.canonical_paths[i];
                    match &a.result {
                        Err(reason) => Step::Failed(
                            HtmlError::AssetReadFailed { path: a.path.clone(), reason: reason.clone() },
                        ),
                        Ok(canonical) => {
                            let mut resolved = forward_slashed(canonical);
                            resolved.append(trimmed_suffix(reference).as_str());
                            Step::Done(resolved)
                        },
                    }
                },
            },
        },
    }
}

/// `s[i..]` with every `url(..)` token replaced by `url("resolved")`,
/// appended to `acc`; the first failure or missing file stops it.
pub open spec fn rewrite_css_from(
    s: Seq<char>,
    i: int,
    base: Option<Seq<char>>,
    options: FromHtmlOptions,
    store: AssetStore,
    acc: Seq<char>,
) -> StepView<Seq<char>>
    decreases s.len() - i,
{
    if i < 0 || i >= s.len() {
        StepView::Done(acc)
    } else {
        match url_token_at(s, i) {
            Some((token, end)) => {
                proof {
                    lemma_url_token_advances(s, i);
                }
                match resolve_reference(token, base, LocalReferenceKind::CssUrl, options, store) {
                    StepView::Done(resolved) => rewrite_css_from(
                        s,
                        end,
                        base,
                        options,
                        store,
                        acc + "url(\""@ + resolved + "\")"@,
                    ),
                    StepView::Failed(e) => StepView::Failed(e),
                    StepView::Needs(q) => StepView::Needs(q),
                }
            },
            None => rewrite_css_from(s, i + 1, base, options, store, acc.push(s[i])),
        }
    }
}

/// `stylesheet` with its local `url(..)` references resolved against `base`.
pub open spec fn rewrite_css(
    stylesheet: Seq<char>,
    base: Option<Seq<char>>,
    options: FromHtmlOptions,
    store: AssetStore,
) -> StepView<Seq<char>> {
    rewrite_css_from(stylesheet, 0, base, options, store, Seq::empty())
}

/// Rewrites the `url(..)` tokens of `stylesheet`, resolving relative ones
/// against `base`.
pub fn rewrite_css_urls(
    stylesheet: &str,
    base: &Option<String>,
    options: &FromHtmlOptions,
    store: &AssetStore,
) -> (r: Step<String>)
    ensures
        step_is(r, rewrite_css(stylesheet@, opt_string_view(*base), *options, *store), str_view()),
        asks_only_missing(rewrite_css(stylesheet@, opt_string_view(*base), *options, *store), *store),
{
    let v = chars_of(stylesheet);
    let ghost b = opt_string_view(*base);
    let mut out = String::new();
    let mut cursor: usize = 0;
    while cursor < v.len()
        invariant
            cursor <= v@.len(),
            v@ == stylesheet@,
            b == opt_string_view(*base),
            rewrite_css(stylesheet@, b, *options, *store) == rewrite_css_from(
                v@,
                cursor as int,
                b,
                *options,
                *store,
                out@,
            ),
        decreases v@.len() - cursor,
    {
        match url_token_in(&v, cursor) {
            Some((token, end)) => {
                proof {
                    lemma_url_token_advances(v@, cursor as int);
                }
                match resolve_local_reference(
                    token.as_str(),
                    base,
                    LocalReferenceKind::CssUrl,
                    options,
                    store,
                ) {
                    Step::Done(resolved) => {
                        out.append("url(\"");
                        out.append(resolved.as_str());
                        out.append("\")");
                        cursor = end;
                    },
                    Step::Failed(e) => {
                        assert(resolve_reference(token@, b, LocalReferenceKind::CssUrl, *options, *store)
                            == StepView::<Seq<char>>::Failed(e@));
                        assert(rewrite_css_from(v@, cursor as int, b, *options, *store, out@)
                            == StepView::<Seq<char>>::Failed(e@));
                        return Step::Failed(e);
                    },
                    Step::Needs(q) => {
                        assert(rewrite_css_from(v@, cursor as int, b, *options, *store, out@)
                            == StepView::<Seq<char>>::Needs(q@));
                        return Step::Needs(q);
                    },
                }
            },
            None => {
                push_char(&mut out, v[cursor]);
                cursor += 1;
            },
        }
    }
    Step::Done(out)
}

/// What an image source becomes.
pub open spec fn image_source(src: Seq<char>, options: FromHtmlOptions, store: AssetStore) -> StepView<
    Seq<char>,
> {
    if effective_mode(options) == LocalAssetMode::Preserve {
        StepView::Done(src)
    } else {
        resolve_reference(
            src,
            opt_string_view(options.base_path),
            LocalReferenceKind::Image,
            options,
            store,
        )
    }
}

pub fn resolve_image_source(src: &str, options: &FromHtmlOptions, store: &AssetStore) -> (r: Step<
    String,
>)
    ensures
        step_is(r, image_source(src@, *options, *store), str_view()),
        asks_only_missing(image_source(src@, *options, *store), *store),
{
    match options.effective_local_asset_mode() {
        LocalAssetMode::Preserve => Step::Done(src.to_owned()),
        _ => resolve_local_reference(
            src,
            &options.base_path,
            LocalReferenceKind::Image,
            options,
            store,
        ),
    }
}

/// What the text of a `<style>` element or a `style` attribute becomes.
pub open spec fn inline_css(css: Seq<char>, options: FromHtmlOptions, store: AssetStore) -> StepView<
    Seq<char>,
> {
    if effective_mode(options) == LocalAssetMode::Preserve {
        StepView::Done(css)
    } else {
        rewrite_css(css, opt_string_view(options.base_path), options, store)
    }
}

/// Resolves the local references in CSS that stands in the document itself.
pub fn resolve_inline_css(css: &str, options: &FromHtmlOptions, store: &AssetStore) -> (r: Step<
    String,
>)
    ensures
        step_is(r, inline_css(css@, *options, *store), str_view()),
        asks_only_missing(inline_css(css@, *options, *store), *store),
{
    match options.effective_local_asset_mode() {
        LocalAssetMode::Preserve => Step::Done(css.to_owned()),
        _ => rewrite_css_urls(css, &options.base_path, options, store),
    }
}

/// The stylesheet a `<link rel="stylesheet" href=...>` contributes, if any:
/// none unless linked stylesheets are loaded and `href` is a local file; the
/// file's text, with its own `url(..)` references resolved against the
/// directory that holds it unless references are preserved.
pub open spec fn linked_stylesheet(href: Seq<char>, options: FromHtmlOptions, store: AssetStore) -> StepView<
    Option<Seq<char>>,
> {
    if !options.load_linked_stylesheets {
        StepView::Done(None)
    } else {
        match local_path_plan(href, opt_string_view(options.base_path), LocalReferenceKind::Stylesheet) {
            PathPlan::NotLocal => StepView::Done(None),
            PathPlan::MissingBase(e) => StepView::Failed(e),
            PathPlan::Local { base: b, part } => match text_index(store.texts@, b, part) {
                None => StepView::Needs(
                    AssetRequestView {
                        kind: AssetKind::StylesheetText,
                        base_dir: b,
                        relative_path: part,
                    },
                ),
                Some(i) => {
                    let a = store.texts@[i];
                    match a.result {
                        Err(reason) => StepView::Failed(
                            HtmlErrorView::AssetReadFailed { path: a.path@, reason: reason@ },
                        ),
                        Ok(file) => if effective_mode(options) == LocalAssetMode::Preserve {
                            StepView::Done(Some(file.content@))
                        } else {
                            match rewrite_css(
                                file.content@,
                                opt_string_view(file.parent_dir),
                                options,
                                store,
                            ) {
                                StepView::Done(css) => StepView::Done(Some(css)),
                                StepView::Failed(e) => StepView::Failed(e),
                                StepView::Needs(q) => StepView::Needs(q),
                            }
                        },
                    }
                },
            },
        }
    }
}

pub open spec fn opt_str_view() -> spec_fn(Option<String>) -> Option<Seq<char>> {
    |o: Option<String>| opt_string_view(o)
}

pub fn load_linked_stylesheet(href: &str, options: &FromHtmlOptions, store: &AssetStore) -> (r: Step<
    Option<String>,
>)
    ensures
        step_is(r, linked_stylesheet(href@, *options, *store), opt_str_view()),
        asks_only_missing(linked_stylesheet(href@, *options, *store), *store),
{
    if !options.load_linked_stylesheets {
        return Step::Done(None);
    }
    match plan_local_path(href, &options.base_path, LocalReferenceKind::Stylesheet) {
        LocalPath::NotLocal => Step::Done(None),
        LocalPath::MissingBase(e) => Step::Failed(e),
        LocalPath::Local { base: b, part } => match find_text(&store.texts, &b, &part) {
            None => Step::Needs(
                AssetRequest { kind: AssetKind::StylesheetText, base_dir: b, relative_path: part },
            ),
            Some(i) => {
                proof {
                    lemma_text_index_bounds(store.texts@, b@, part@);
                }
                let a = &store.texts[i];
                match &a.result {
                    Err(reason) => Step::Failed(
                        HtmlError::AssetReadFailed { path: a.path.clone(), reason: reason.clone() },
                    ),
                    Ok(file) => match options.effective_local_asset_mode() {
                        LocalAssetMode::Preserve => Step::Done(Some(file.content.clone())),
                        _ => match rewrite_css_urls(
                            file.content.as_str(),
                            &file.parent_dir,
                            options,
                            store,
                        ) {
                            Step::Done(css) => Step::Done(Some(css)),
                            Step::Failed(e) => Step::Failed(e),
                            Step::Needs(q) => Step::Needs(q),
                        },
                    },
                }
            },
        },
    }
}

} // verus!
