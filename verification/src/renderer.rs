//! The renderer's decisions: request checks, the local resources a
//! converted document references, the search paths tried in turn for its
//! relative assets, and which files are fonts.
//!
//! Paths are read as on Unix: a path is absolute when it starts with `/`.
use vstd::prelude::*;

use crate::api::RenderInput;
use crate::assets::{forward_slashed, forward_slashes};
use crate::error::{HtmlError, HtmlErrorView};
use crate::options::{FromHtmlOptions, LocalAssetMode};
use crate::renderer_error::{RendererError, RendererErrorView};
use crate::resource::{
    find_char, find_char_from, lemma_find_char_from_bounds, lemma_url_token_advances, suffix_start, suffix_start_from, url_token_at, url_token_in,
};
use crate::template::texts;
use crate::text::{
    ascii_lower_seq, chars_of, find_from, find_seq_from, has_prefix, lemma_find_seq_from_contains,
    str_starts_with, string_of_range, trim_seq, trim_string,
};
use crate::whitespace::str_eq;

verus! {

/// Why a render request is refused, if it is: a zero width or height, a
/// device pixel ratio that is not a positive finite number, or a blank file
/// path.
pub open spec fn request_error(
    width: Option<u32>,
    height: Option<u32>,
    device_pixel_ratio_ok: bool,
    input: RenderInput,
) -> Option<Seq<char>> {
    if width == Some(0u32) || height == Some(0u32) {
        Some("viewport width and height must be greater than zero when provided"@)
    } else if !device_pixel_ratio_ok {
        Some("viewport device_pixel_ratio must be greater than zero"@)
    } else {
        match input {
            RenderInput::File(p) => if trim_seq(p@).len() == 0 {
                Some("input.file cannot be empty"@)
            } else {
                None
            },
            RenderInput::Inline(_) => None,
        }
    }
}

/// Checks a render request; `device_pixel_ratio_ok` says whether its device
/// pixel ratio, if it has one, is a positive finite number.
pub fn validate_request(
    width: Option<u32>,
    height: Option<u32>,
    device_pixel_ratio_ok: bool,
    input: &RenderInput,
) -> (r: Result<(), RendererError>)
    ensures
        request_error(width, height, device_pixel_ratio_ok, *input) is None ==> r is Ok,
        request_error(width, height, device_pixel_ratio_ok, *input) matches Some(m) ==> (
        r matches Err(e) && e@ == RendererErrorView::InvalidRequest(m)),
{
    if width == Some(0u32) || height == Some(0u32) {
        return Err(
            RendererError::invalid_request(
                "viewport width and height must be greater than zero when provided",
            ),
        );
    }
    if !device_pixel_ratio_ok {
        return Err(RendererError::invalid_request("viewport device_pixel_ratio must be greater than zero"));
    }
    match input {
        RenderInput::File(p) => {
            if trim_string(p.as_str()).as_str().is_empty() {
                return Err(RendererError::invalid_request("input.file cannot be empty"));
            }
        },
        RenderInput::Inline(_) => {},
    }
    Ok(())
}

/// Whether the layout decides the width or the height of the image.
pub fn request_has_auto_viewport(width: Option<u32>, height: Option<u32>) -> (r: bool)
    ensures
        r == (width is None || height is None),
{
    width.is_none() || height.is_none()
}

/// The encoding quality to use: at most 100.
pub fn clamp_quality(quality: Option<u8>) -> (r: Option<u8>)
    ensures
        quality is None ==> r is None,
        quality matches Some(q) ==> r == Some(if q > 100 { 100u8 } else { q }),
{
    match quality {
        Some(q) => Some(if q > 100 { 100u8 } else { q }),
        None => None,
    }
}

/// The `url(..)` tokens of CSS text from `i` on, in order.
pub open spec fn css_urls_from(s: Seq<char>, i: int) -> Seq<Seq<char>>
    decreases s.len() - i,
{
    if i < 0 || i >= s.len() {
        Seq::empty()
    } else {
        match url_token_at(s, i) {
            Some((token, end)) => {
                proof {
                    lemma_url_token_advances(s, i);
                }
                seq![token] + css_urls_from(s, end)
            },
            None => css_urls_from(s, i + 1),
        }
    }
}

/// The `url(..)` tokens of the stylesheets, in order.
pub open spec fn stylesheet_urls(sheets: Seq<Seq<char>>) -> Seq<Seq<char>>
    decreases sheets.len(),
{
    if sheets.len() == 0 {
        Seq::empty()
    } else {
        stylesheet_urls(sheets.drop_last()) + css_urls_from(sheets.last(), 0)
    }
}

fn push_css_urls(css: &str, urls: &mut Vec<String>)
    ensures
        texts(final(urls)@) == texts(old(urls)@) + css_urls_from(css@, 0),
{
    let v = chars_of(css);
    let ghost start = texts(urls@);
    let mut cursor: usize = 0;
    assert(start + css_urls_from(v@, 0) =~= start + css_urls_from(v@, 0));
    while cursor < v.len()
        invariant
            cursor <= v@.len(),
            v@ == css@,
            texts(urls@) + css_urls_from(v@, cursor as int) == start + css_urls_from(v@, 0),
        decreases v@.len() - cursor,
    {
        match url_token_in(&v, cursor) {
            Some((token, end)) => {
                proof {
                    lemma_url_token_advances(v@, cursor as int);
                }
                let ghost before = texts(urls@);
                urls.push(token);
                proof {
                    assert(texts(urls@) =~= before.push(token@));
                    assert(texts(urls@) + css_urls_from(v@, end as int) =~= before + (seq![token@]
                        + css_urls_from(v@, end as int)));
                }
                cursor = end;
            },
            None => {
                cursor += 1;
            },
        }
    }
    assert(texts(urls@) + css_urls_from(v@, cursor as int) =~= texts(urls@));
}

/// The local resource references of stylesheets: their `url(..)` tokens.
pub fn collect_stylesheet_resource_urls(stylesheets: &Vec<String>) -> (r: Vec<String>)
    ensures
        texts(r@) == stylesheet_urls(texts(stylesheets@)),
{
    let mut urls: Vec<String> = Vec::new();
    let mut i: usize = 0;
    assert(texts(urls@) =~= stylesheet_urls(texts(stylesheets@.subrange(0, 0))));
    while i < stylesheets.len()
        invariant
            0 <= i <= stylesheets@.len(),
            texts(urls@) == stylesheet_urls(texts(stylesheets@.subrange(0, i as int))),
        decreases stylesheets@.len() - i,
    {
        push_css_urls(stylesheets[i].as_str(), &mut urls);
        proof {
            let p = texts(stylesheets@.subrange(0, i + 1));
            assert(p.drop_last() =~= texts(stylesheets@.subrange(0, i as int)));
            assert(p.last() == stylesheets@[i as int]@);
        }
        i += 1;
    }
    assert(stylesheets@.subrange(0, stylesheets@.len() as int) =~= stylesheets@);
    urls
}

/// The values of the `src="..."` attributes of markup from `i` on, in order.
pub open spec fn src_values_from(s: Seq<char>, i: int) -> Seq<Seq<char>>
    decreases s.len() - i,
{
    if i < 0 {
        Seq::empty()
    } else {
        match find_seq_from(s, "src=\""@, i) {
            None => Seq::empty(),
            Some(k) => {
                proof {
                    lemma_find_seq_from_contains(s, "src=\""@, i);
                    reveal_strlit("src=\"");
                }
                match find_char_from(s, k + 5, '"') {
                    None => Seq::empty(),
                    Some(e) => {
                        proof {
                            lemma_find_char_from_bounds(s, k + 5, '"');
                        }
                        seq![s.subrange(k + 5, e)] + src_values_from(s, e + 1)
                    },
                }
            },
        }
    }
}

/// The local resource references of rendered markup: its `url(..)` tokens,
/// then the values of its `src="..."` attributes.
pub open spec fn html_urls(markup: Seq<char>) -> Seq<Seq<char>> {
    css_urls_from(markup, 0) + src_values_from(markup, 0)
}

pub fn collect_html_resource_urls(markup: &str) -> (r: Vec<String>)
    ensures
        texts(r@) == html_urls(markup@),
{
    let mut urls: Vec<String> = Vec::new();
    push_css_urls(markup, &mut urls);
    assert(texts(Seq::<String>::empty()) + css_urls_from(markup@, 0) =~= css_urls_from(markup@, 0));
    let v = chars_of(markup);
    let needle = chars_of("src=\"");
    proof {
        reveal_strlit("src=\"");
    }
    let ghost css = css_urls_from(markup@, 0);
    let mut cursor: usize = 0;
    assert(texts(urls@) + src_values_from(v@, 0) == html_urls(markup@));
    loop
        invariant
            cursor <= v@.len(),
            v@ == markup@,
            needle@ == "src=\""@,
            needle@.len() == 5,
            texts(urls@) + src_values_from(v@, cursor as int) == html_urls(markup@),
        decreases v@.len() - cursor,
    {
        let k = match find_from(&v, &needle, cursor) {
            None => {
                assert(texts(urls@) + Seq::empty() =~= texts(urls@));
                return urls;
            },
            Some(k) => k,
        };
        proof {
            lemma_find_seq_from_contains(v@, needle@, cursor as int);
        }
        let start = k + 5;
        let e = match find_char(&v, start, '"') {
            None => {
                assert(texts(urls@) + Seq::empty() =~= texts(urls@));
                return urls;
            },
            Some(e) => e,
        };
        proof {
            lemma_find_char_from_bounds(v@, start as int, '"');
        }
        let ghost before = texts(urls@);
        let value = string_of_range(&v, start, e);
        urls.push(value);
        proof {
            assert(texts(urls@) =~= before.push(value@));
            assert(texts(urls@) + src_values_from(v@, e + 1) =~= before + (seq![value@]
                + src_values_from(v@, e + 1)));
        }
        cursor = e + 1;
    }
}

/// Whether a reference starts with a Windows verbatim or device prefix
/// (`//?/`, `//./`, `\\?\`, `\\.\`).
pub open spec fn has_verbatim_prefix(s: Seq<char>) -> bool {
    has_prefix(s, "//?/"@) || has_prefix(s, "//./"@) || has_prefix(s, "\\\\?\\"@) || has_prefix(
        s,
        "\\\\.\\"@,
    )
}

pub fn starts_with_windows_verbatim_prefix(reference: &str) -> (r: bool)
    ensures
        r == has_verbatim_prefix(reference@),
{
    str_starts_with(reference, "//?/") || str_starts_with(reference, "//./") || str_starts_with(
        reference,
        "\\\\?\\",
    ) || str_starts_with(reference, "\\\\.\\")
}

/// Where the query or fragment of a cached-asset reference starts: at the
/// first `?` or `#`, looking past a verbatim prefix.
pub open spec fn cached_split_at(s: Seq<char>) -> int {
    suffix_start_from(s, if has_verbatim_prefix(s) { 4 } else { 0 })
}

/// Splits a reference into its path and its query or fragment.
pub fn split_reference_suffix(reference: &str) -> (r: (String, String))
    ensures
        r.0@ == reference@.subrange(0, cached_split_at(reference@)),
        r.1@ == reference@.subrange(cached_split_at(reference@), reference@.len() as int),
{
    let v = chars_of(reference);
    let verbatim = starts_with_windows_verbatim_prefix(reference);
    proof {
        reveal_strlit("//?/");
        reveal_strlit("//./");
        reveal_strlit("\\\\?\\");
        reveal_strlit("\\\\.\\");
    }
    let from: usize = if verbatim { 4 } else { 0 };
    let k = suffix_start(&v, from);
    (string_of_range(&v, 0, k), string_of_range(&v, k, v.len()))
}

/// A reference to a local file the renderer loads itself: its path part
/// is not empty and is absolute.
pub open spec fn is_local_cached_asset(reference: Seq<char>) -> bool {
    let t = trim_seq(reference);
    let path = t.subrange(0, cached_split_at(t));
    path.len() > 0 && path[0] == '/'
}

pub fn is_local_cached_asset_reference(reference: &str) -> (r: bool)
    ensures
        r == is_local_cached_asset(reference@),
{
    let trimmed = trim_string(reference);
    let (path, _) = split_reference_suffix(trimmed.as_str());
    let r = str_starts_with(path.as_str(), "/");
    proof {
        reveal_strlit("/");
        if path@.len() > 0 && path@[0] == '/' {
            assert(path@.subrange(0, 1) =~= "/"@);
        }
        if r {
            assert(path@.subrange(0, 1)[0] == path@[0]);
            assert("/"@[0] == '/');
        }
        assert(path@ == trim_seq(reference@).subrange(0, cached_split_at(trim_seq(reference@))));
    }
    r
}

/// `paths` with each path kept at its first occurrence only.
pub open spec fn dedup(paths: Seq<Seq<char>>) -> Seq<Seq<char>>
    decreases paths.len(),
{
    if paths.len() == 0 {
        Seq::empty()
    } else {
        let d = dedup(paths.drop_last());
        if d.contains(paths.last()) {
            d
        } else {
            d.push(paths.last())
        }
    }
}

/// The conversion options the renderer uses for a request: linked
/// stylesheets loaded and whitespace normalized unless the request says
/// otherwise, local assets replaced by their absolute paths, and relative
/// references resolved against `base_path` when there is one.
pub fn request_options(
    load_linked_stylesheets: Option<bool>,
    normalize_whitespace: Option<bool>,
    base_path: Option<&str>,
) -> (o: FromHtmlOptions)
    ensures
        o.load_linked_stylesheets == (load_linked_stylesheets != Some(false)),
        o.normalize_whitespace == (normalize_whitespace != Some(false)),
        o.local_asset_mode == Some(LocalAssetMode::AbsolutePath),
        !o.resolve_local_assets,
        o.emoji_type is None,
        base_path is None ==> o.base_path is None,
        base_path matches Some(b) ==> (o.base_path matches Some(p) && p@ == b@),
{
    let load = match load_linked_stylesheets {
        Some(b) => b,
        None => true,
    };
    let normalize = match normalize_whitespace {
        Some(b) => b,
        None => true,
    };
    let options = FromHtmlOptions::new().load_linked_stylesheets(load).normalize_whitespace(
        normalize,
    ).local_asset_mode(LocalAssetMode::AbsolutePath);
    match base_path {
        Some(b) => options.with_base_path(b),
        None => options,
    }
}

/// Adds a search path unless the list holds it already.
pub fn add_search_path_once(paths: &mut Vec<String>, path: String)
    ensures
        texts(old(paths)@).contains(path@) ==> texts(final(paths)@) == texts(old(paths)@),
        !texts(old(paths)@).contains(path@) ==> texts(final(paths)@) == texts(old(paths)@).push(
            path@,
        ),
{
    let mut i: usize = 0;
    while i < paths.len()
        invariant
            0 <= i <= paths@.len(),
            forall|k: int| 0 <= k < i ==> #[trigger] paths@[k]@ != path@,
        decreases paths@.len() - i,
    {
        if str_eq(paths[i].as_str(), path.as_str()) {
            proof {
                assert(texts(paths@)[i as int] == path@);
            }
            return;
        }
        i += 1;
    }
    proof {
        assert(!texts(paths@).contains(path@)) by {
            if texts(paths@).contains(path@) {
                let k = choose|k: int| 0 <= k < texts(paths@).len() && texts(paths@)[k] == path@;
                assert(paths@[k]@ == path@);
            }
        }
    }
    let ghost before = paths@;
    paths.push(path);
    proof {
        assert(texts(paths@) =~= texts(before).push(paths@[before.len() as int]@));
    }
}

/// The paths without repeats, in the order they first occur.
pub fn dedup_paths(paths: &Vec<String>) -> (r: Vec<String>)
    ensures
        texts(r@) == dedup(texts(paths@)),
{
    let mut out: Vec<String> = Vec::new();
    let mut i: usize = 0;
    while i < paths.len()
        invariant
            0 <= i <= paths@.len(),
            texts(out@) == dedup(texts(paths@.subrange(0, i as int))),
        decreases paths@.len() - i,
    {
        proof {
            let p = texts(paths@.subrange(0, i + 1));
            assert(p.drop_last() =~= texts(paths@.subrange(0, i as int)));
            assert(p.last() == paths@[i as int]@);
        }
        let mut seen = false;
        let mut j: usize = 0;
        while j < out.len()
            invariant
                0 <= j <= out@.len(),
                i < paths@.len(),
                seen == exists|k: int| 0 <= k < j && #[trigger] out@[k]@ == paths@[i as int]@,
            decreases out@.len() - j,
        {
            if str_eq(out[j].as_str(), paths[i].as_str()) {
                seen = true;
            }
            j += 1;
        }
        proof {
            if seen {
                let k = choose|k: int| 0 <= k < j && #[trigger] out@[k]@ == paths@[i as int]@;
                assert(texts(out@)[k] == paths@[i as int]@);
            } else {
                assert forall|k: int| 0 <= k < texts(out@).len() implies texts(out@)[k] != paths@[i as int]@ by {
                    assert(texts(out@)[k] == out@[k]@);
                }
            }
        }
        if !seen {
            let ghost before = texts(out@);
            out.push(paths[i].clone());
            assert(texts(out@) =~= before.push(paths@[i as int]@));
        }
        i += 1;
    }
    assert(paths@.subrange(0, paths@.len() as int) =~= paths@);
    out
}

/// Failures that another search path may avoid: a file that could not be
/// read, or a relative reference with no base path.
pub open spec fn retryable(error: HtmlErrorView) -> bool {
    error is AssetReadFailed || error is MissingBasePathForRelativeReference
}

pub fn can_retry_with_next_base(error: &HtmlError) -> (r: bool)
    ensures
        r == retryable(error@),
{
    match error {
        HtmlError::AssetReadFailed { .. } => true,
        HtmlError::MissingBasePathForRelativeReference { .. } => true,
        _ => false,
    }
}

/// The failures met while converting a document against each search path
/// in turn: the first one that a later path might avoid.
#[derive(Debug)]
pub struct BaseAttempts {
    pub first_retryable: Option<HtmlError>,
}

pub open spec fn opt_error_view(e: Option<HtmlError>) -> Option<HtmlErrorView> {
    match e {
        Some(x) => Some(x@),
        None => None,
    }
}

impl BaseAttempts {
    pub fn new() -> (r: Self)
        ensures
            r.first_retryable is None,
    {
        BaseAttempts { first_retryable: None }
    }

    /// Takes in the failure of one search path: `None` to go on with the
    /// next path, or the error to give up with.
    pub fn after_failure(&mut self, error: HtmlError) -> (r: Option<RendererError>)
        ensures
            retryable(error@) ==> r is None && opt_error_view(final(self).first_retryable)
                == match old(self).first_retryable {
                Some(e) => Some(e@),
                None => Some(error@),
            },
            !retryable(error@) ==> (r matches Some(e) && e@ == RendererErrorView::Html(
                crate::error::error_message(error@),
            )) && opt_error_view(final(self).first_retryable) == opt_error_view(
                old(self).first_retryable,
            ),
    {
        if can_retry_with_next_base(&error) {
            if self.first_retryable.is_none() {
                self.first_retryable = Some(error);
            }
            None
        } else {
            Some(RendererError::from_html_error(&error))
        }
    }

    /// The error once every search path failed.
    pub fn exhausted(&self) -> (r: RendererError)
        ensures
            match self.first_retryable {
                Some(e) => r@ == RendererErrorView::Html(crate::error::error_message(e@)),
                None => r@ == RendererErrorView::InvalidRequest(
                    "no usable search paths were available for relative assets"@,
                ),
            },
    {
        match &self.first_retryable {
            Some(e) => RendererError::from_html_error(e),
            None => RendererError::invalid_request(
                "no usable search paths were available for relative assets",
            ),
        }
    }
}

/// The search paths for an HTML file: the file's directory first, unless
/// it is among them already.
pub open spec fn paths_with_parent(paths: Seq<Seq<char>>, parent: Option<Seq<char>>) -> Seq<
    Seq<char>,
> {
    match parent {
        Some(p) => if paths.contains(p) {
            paths
        } else {
            seq![p] + paths
        },
        None => paths,
    }
}

pub fn search_paths_with_parent(paths: Vec<String>, parent: Option<String>) -> (r: Vec<String>)
    ensures
        texts(r@) == paths_with_parent(
            texts(paths@),
            match parent {
                Some(p) => Some(p@),
                None => None,
            },
        ),
{
    match parent {
        None => paths,
        Some(p) => {
            let mut i: usize = 0;
            while i < paths.len()
                invariant
                    0 <= i <= paths@.len(),
                    parent matches Some(q) && q@ == p@,
                    forall|k: int| 0 <= k < i ==> #[trigger] paths@[k]@ != p@,
                decreases paths@.len() - i,
            {
                if str_eq(paths[i].as_str(), p.as_str()) {
                    assert(texts(paths@)[i as int] == p@);
                    return paths;
                }
                i += 1;
            }
            proof {
                assert(!texts(paths@).contains(p@)) by {
                    if texts(paths@).contains(p@) {
                        let k = choose|k: int| 0 <= k < texts(paths@).len() && texts(paths@)[k] == p@;
                        assert(paths@[k]@ == p@);
                    }
                }
            }
            let ghost before = texts(paths@);
            let ghost pv = p@;
            let mut out: Vec<String> = Vec::new();
            out.push(p);
            let mut rest = paths;
            out.append(&mut rest);
            assert(texts(out@) =~= seq![pv] + before);
            out
        },
    }
}

/// The key of a file in the image store: its path with `/` for `\`.
pub fn image_cache_key(path: &String) -> (r: String)
    ensures
        r@ == forward_slashes(path@),
{
    forward_slashed(path)
}

/// The extension of the last component of a path, as `Path::extension`
/// reads it on Unix: the text after the last `.` of the file name, unless
/// that `.` starts the name or the name is `..`.
pub open spec fn path_extension(path: Seq<char>) -> Option<Seq<char>> {
    let name = file_name_of(path);
    match last_dot(name, name.len() as int) {
        Some(d) => if d == 0 || name == ".."@ {
            None
        } else {
            Some(name.subrange(d + 1, name.len() as int))
        },
        None => None,
    }
}

/// The text after the last `/`.
pub open spec fn file_name_of(path: Seq<char>) -> Seq<char> {
    match last_char(path, path.len() as int, '/') {
        Some(k) => path.subrange(k + 1, path.len() as int),
        None => path,
    }
}

/// The last index before `end` holding `c`.
pub open spec fn last_char(s: Seq<char>, end: int, c: char) -> Option<int>
    decreases end,
{
    if end <= 0 || end > s.len() {
        None
    } else if s[end - 1] == c {
        Some(end - 1)
    } else {
        last_char(s, end - 1, c)
    }
}

pub open spec fn last_dot(s: Seq<char>, end: int) -> Option<int> {
    last_char(s, end, '.')
}

proof fn lemma_last_char_bounds(s: Seq<char>, end: int, c: char)
    ensures
        last_char(s, end, c) matches Some(k) ==> 0 <= k < end && end <= s.len() && s[k] == c,
    decreases end,
{
    if end > 0 && end <= s.len() && s[end - 1] != c {
        lemma_last_char_bounds(s, end - 1, c);
    }
}

fn find_last(v: &Vec<char>, c: char) -> (r: Option<usize>)
    ensures
        r matches Some(k) ==> last_char(v@, v@.len() as int, c) == Some(k as int),
        r is None ==> last_char(v@, v@.len() as int, c) is None,
{
    let mut end = v.len();
    while end > 0
        invariant
            end <= v@.len(),
            last_char(v@, v@.len() as int, c) == last_char(v@, end as int, c),
        decreases end,
    {
        if v[end - 1] == c {
            return Some(end - 1);
        }
        end -= 1;
    }
    None
}

/// Font files are those with a `ttf`, `otf`, `ttc` or `otc` extension, in
/// any ASCII case.
pub open spec fn is_font_path(path: Seq<char>) -> bool {
    match path_extension(path) {
        Some(ext) => {
            let e = ascii_lower_seq(ext);
            e == "ttf"@ || e == "otf"@ || e == "ttc"@ || e == "otc"@
        },
        None => false,
    }
}

/// The last `c` of `a + [c] + b`, when `b` holds no `c`, is the one after `a`.
proof fn lemma_last_char_after(a: Seq<char>, b: Seq<char>, c: char, end: int)
    requires
        !b.contains(c),
        a.len() < end <= a.len() + 1 + b.len(),
    ensures
        last_char(a + seq![c] + b, end, c) == Some(a.len() as int),
    decreases end,
{
    let s = a + seq![c] + b;
    if end > a.len() + 1 {
        assert(s[end - 1] == b[end - 1 - a.len() - 1]);
        lemma_last_char_after(a, b, c, end - 1);
    } else {
        assert(s[end - 1] == c);
    }
}

/// Font files are found by extension, in any ASCII case: a file named
/// `stem.ext` in any directory is a font file when `ext` spells `ttf`,
/// `otf`, `ttc` or `otc` with each letter in either case, and is none when
/// it spells anything else of its letters' cases.
pub proof fn law_fonts_are_found_by_extension(
    dir: Seq<char>,
    stem: Seq<char>,
    ext: Seq<char>,
    kind: Seq<char>,
)
    requires
        stem.len() > 0,
        !stem.contains('/'),
        !ext.contains('/'),
        !ext.contains('.'),
        ext.len() == kind.len(),
        forall|i: int|
            0 <= i < ext.len() ==> #[trigger] ext[i] == kind[i] || (ext[i] as u32) + 32 == (
            kind[i] as u32),
        forall|i: int| 0 <= i < kind.len() ==> 'a' <= #[trigger] kind[i] <= 'z',
    ensures
        is_font_path(dir + "/"@ + stem + "."@ + ext) <==> (kind == "ttf"@ || kind == "otf"@ || kind
            == "ttc"@ || kind == "otc"@),
{
    reveal_strlit("/");
    reveal_strlit(".");
    reveal_strlit("..");
    reveal_strlit("ttf");
    reveal_strlit("otf");
    reveal_strlit("ttc");
    reveal_strlit("otc");
    let path = dir + "/"@ + stem + "."@ + ext;
    let name = stem + "."@ + ext;
    assert(!name.contains('/')) by {
        if name.contains('/') {
            let k = choose|k: int| 0 <= k < name.len() && name[k] == '/';
            if k < stem.len() {
                assert(stem[k] == '/');
            } else if k > stem.len() {
                assert(ext[k - stem.len() - 1] == '/');
            }
        }
    }
    assert(path =~= dir + seq!['/'] + name);
    lemma_last_char_after(dir, name, '/', path.len() as int);
    assert(path.subrange(dir.len() + 1int, path.len() as int) =~= name);
    assert(file_name_of(path) == name);
    assert(name =~= stem + seq!['.'] + ext);
    lemma_last_char_after(stem, ext, '.', name.len() as int);
    assert(name.subrange(stem.len() + 1int, name.len() as int) =~= ext);
    if ext.len() > 0 {
        assert(name.len() > 2);
        assert(name != ".."@);
        assert(path_extension(path) == Some(ext));
        assert(ascii_lower_seq(ext) =~= kind) by {
            assert forall|i: int| 0 <= i < ext.len() implies ascii_lower_seq(ext)[i] == kind[i] by {
                if ext[i] != kind[i] {
                    assert(97 <= kind[i] as u32 <= 122);
                    assert(65 <= ext[i] as u32 <= 90);
                    assert(('A' as u32) == 65u32);
                    assert(('Z' as u32) == 90u32);
                    assert(((ext[i] as u32) + 32) as char == kind[i]);
                }
            }
        }
    } else {
        assert(kind.len() == 0);
        assert(ascii_lower_seq(ext).len() == 0);
    }
}

pub fn is_supported_font_file(path: &str) -> (r: bool)
    ensures
        r == is_font_path(path@),
{
    let v = chars_of(path);
    let total = v.len();
    proof {
        lemma_last_char_bounds(v@, v@.len() as int, '/');
    }
    let name_start = match find_last(&v, '/') {
        Some(k) => k + 1,
        None => 0,
    };
    let name = string_of_range(&v, name_start, v.len());
    let n = chars_of(name.as_str());
    proof {
        assert(n@ == file_name_of(path@));
        lemma_last_char_bounds(n@, n@.len() as int, '.');
    }
    let dot = match find_last(&n, '.') {
        Some(d) => d,
        None => {
            return false;
        },
    };
    if dot == 0 || str_eq(name.as_str(), "..") {
        return false;
    }
    let ext = string_of_range(&n, dot + 1, n.len());
    crate::metadata::lower_equals(ext.as_str(), "ttf") || crate::metadata::lower_equals(
        ext.as_str(),
        "otf",
    ) || crate::metadata::lower_equals(ext.as_str(), "ttc") || crate::metadata::lower_equals(
        ext.as_str(),
        "otc",
    )
}


/// Each path occurs at most once.
pub open spec fn no_repeats(paths: Seq<Seq<char>>) -> bool {
    forall|i: int, j: int| 0 <= i < j < paths.len() ==> #[trigger] paths[i] != #[trigger] paths[j]
}

/// Deduplicated paths hold no repeats and exactly the paths given.
pub proof fn law_dedup_keeps_each_path_once(paths: Seq<Seq<char>>)
    ensures
        no_repeats(dedup(paths)),
        forall|p: Seq<char>|
            #![trigger dedup(paths).contains(p)]
            #![trigger paths.contains(p)]
            dedup(paths).contains(p) <==> paths.contains(p),
    decreases paths.len(),
{
    if paths.len() > 0 {
        let rest = paths.drop_last();
        law_dedup_keeps_each_path_once(rest);
        let d = dedup(rest);
        assert forall|p: Seq<char>| dedup(paths).contains(p) <==> paths.contains(p) by {
            if paths.contains(p) {
                let k = choose|k: int| 0 <= k < paths.len() && paths[k] == p;
                if k < paths.len() - 1 {
                    assert(rest[k] == p);
                    assert(rest.contains(p));
                    assert(d.contains(p));
                    let j = choose|j: int| 0 <= j < d.len() && d[j] == p;
                    if !d.contains(paths.last()) {
                        assert(dedup(paths)[j] == p);
                    }
                }
                if !d.contains(paths.last()) {
                    assert(dedup(paths)[d.len() as int] == paths.last());
                }
            }
            if dedup(paths).contains(p) {
                let k = choose|k: int| 0 <= k < dedup(paths).len() && dedup(paths)[k] == p;
                if k < d.len() {
                    assert(d[k] == p);
                    assert(d.contains(p));
                    assert(rest.contains(p));
                    let m = choose|m: int| 0 <= m < rest.len() && rest[m] == p;
                    assert(paths[m] == p);
                } else {
                    assert(paths[paths.len() - 1] == p);
                }
            }
        }
    }
}

/// Deduplicating twice gives what deduplicating once gives.
pub proof fn law_dedup_is_idempotent(paths: Seq<Seq<char>>)
    ensures
        dedup(dedup(paths)) == dedup(paths),
{
    law_dedup_keeps_each_path_once(paths);
    lemma_dedup_of_distinct(dedup(paths));
}

proof fn lemma_dedup_of_distinct(paths: Seq<Seq<char>>)
    requires
        no_repeats(paths),
    ensures
        dedup(paths) == paths,
    decreases paths.len(),
{
    if paths.len() > 0 {
        let rest = paths.drop_last();
        assert(no_repeats(rest)) by {
            assert forall|i: int, j: int| 0 <= i < j < rest.len() implies #[trigger] rest[i]
                != #[trigger] rest[j] by {
                assert(rest[i] == paths[i]);
                assert(rest[j] == paths[j]);
            }
        }
        lemma_dedup_of_distinct(rest);
        assert(!rest.contains(paths.last())) by {
            if rest.contains(paths.last()) {
                let k = choose|k: int| 0 <= k < rest.len() && rest[k] == paths.last();
                assert(paths[k] == paths[paths.len() - 1]);
            }
        }
        assert(rest.push(paths.last()) =~= paths);
    }
}

} // verus!
