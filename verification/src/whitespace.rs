//! Text normalization and the tag-name predicates of the conversion.
use vstd::prelude::*;

use crate::options::FromHtmlOptions;
use crate::text::{chars_of, trim_bounds, trim_seq};

verus! {

/// Whether `a` and `b` hold the same text.
pub fn str_eq(a: &str, b: &str) -> (r: bool)
    ensures
        r == (a@ == b@),
{
    let x = chars_of(a);
    let y = chars_of(b);
    if x.len() != y.len() {
        return false;
    }
    let mut i: usize = 0;
    while i < x.len()
        invariant
            0 <= i <= x@.len(),
            x@.len() == y@.len(),
            x@ == a@,
            y@ == b@,
            forall|j: int| 0 <= j < i ==> x@[j] == y@[j],
        decreases x@.len() - i,
    {
        if x[i] != y[i] {
            proof {
                if a@ == b@ {
                    assert(x@[i as int] == y@[i as int]);
                }
            }
            return false;
        }
        i += 1;
    }
    assert(x@ =~= y@);
    true
}

/// The whitespace that HTML collapses.
pub open spec fn is_collapsible(c: char) -> bool {
    c == '\t' || c == '\n' || c == '\u{000C}' || c == '\r' || c == ' '
}

pub fn is_collapsible_whitespace(c: char) -> (r: bool)
    ensures
        r == is_collapsible(c),
{
    c == '\t' || c == '\n' || c == '\u{000C}' || c == '\r' || c == ' '
}

/// The first `n` characters of `s` with every run of collapsible whitespace
/// turned into one space, and whether the last character was such whitespace.
pub open spec fn collapse_state(s: Seq<char>, n: int) -> (Seq<char>, bool)
    decreases n,
{
    if n <= 0 {
        (Seq::empty(), false)
    } else {
        let (out, last_was_space) = collapse_state(s, n - 1);
        if is_collapsible(s[n - 1]) {
            if last_was_space {
                (out, true)
            } else {
                (out.push(' '), true)
            }
        } else {
            (out.push(s[n - 1]), false)
        }
    }
}

/// `s` with every run of collapsible whitespace turned into one space.
pub open spec fn collapse_whitespace(s: Seq<char>) -> Seq<char> {
    collapse_state(s, s.len() as int).0
}

/// A text run after whitespace handling, or `None` when nothing of it is
/// left: kept as written when whitespace is not normalized or is preserved
/// here; otherwise dropped when all collapsible whitespace, else collapsed
/// and, for a whole element's text, trimmed.
pub open spec fn normalized_text(
    text: Seq<char>,
    options: FromHtmlOptions,
    preserve: bool,
    trim_edges: bool,
) -> Option<Seq<char>> {
    if text.len() == 0 {
        None
    } else if !options.normalize_whitespace || preserve {
        Some(text)
    } else if forall|i: int| 0 <= i < text.len() ==> #[trigger] is_collapsible(text[i]) {
        None
    } else {
        let collapsed = collapse_whitespace(text);
        let result = if trim_edges {
            trim_seq(collapsed)
        } else {
            collapsed
        };
        if result.len() == 0 {
            None
        } else {
            Some(result)
        }
    }
}

/// Applies the whitespace rules to a text run.
pub fn normalize_text_run(text: &str, options: &FromHtmlOptions, preserve: bool, trim_edges: bool) -> (r:
    Option<String>)
    ensures
        r matches Some(s) ==> normalized_text(text@, *options, preserve, trim_edges) == Some(s@),
        r is None ==> normalized_text(text@, *options, preserve, trim_edges) is None,
{
    if text.is_empty() {
        return None;
    }
    if !options.normalize_whitespace || preserve {
        return Some(text.to_owned());
    }
    let v = chars_of(text);
    let mut all_space = true;
    let mut i: usize = 0;
    while i < v.len()
        invariant
            0 <= i <= v@.len(),
            all_space == forall|j: int| 0 <= j < i ==> #[trigger] is_collapsible(v@[j]),
        decreases v@.len() - i,
    {
        if !is_collapsible_whitespace(v[i]) {
            all_space = false;
        }
        i += 1;
    }
    if all_space {
        return None;
    }
    let mut out: Vec<char> = Vec::new();
    let mut last_was_space = false;
    let mut k: usize = 0;
    while k < v.len()
        invariant
            0 <= k <= v@.len(),
            collapse_state(v@, k as int) == (out@, last_was_space),
        decreases v@.len() - k,
    {
        if is_collapsible_whitespace(v[k]) {
            if !last_was_space {
                out.push(' ');
                last_was_space = true;
            }
        } else {
            out.push(v[k]);
            last_was_space = false;
        }
        k += 1;
    }
    let (a, b) = if trim_edges {
        trim_bounds(&out, 0, out.len())
    } else {
        (0, out.len())
    };
    assert(out@.subrange(0, out@.len() as int) =~= out@);
    if a == b {
        return None;
    }
    Some(crate::text::string_of_range(&out, a, b))
}

/// Tags whose text keeps its whitespace as written.
pub open spec fn preserves_whitespace_tag(tag: Seq<char>) -> bool {
    tag == "pre"@ || tag == "textarea"@ || tag == "script"@ || tag == "style"@
}

pub fn preserves_whitespace(tag: &str) -> (r: bool)
    ensures
        r == preserves_whitespace_tag(tag@),
{
    str_eq(tag, "pre") || str_eq(tag, "textarea") || str_eq(tag, "script") || str_eq(tag, "style")
}

/// Void elements, which have no content to convert.
pub open spec fn is_void_tag(tag: Seq<char>) -> bool {
    ||| tag == "area"@ || tag == "base"@ || tag == "col"@ || tag == "embed"@
    ||| tag == "hr"@ || tag == "input"@ || tag == "link"@ || tag == "meta"@
    ||| tag == "param"@ || tag == "source"@ || tag == "track"@ || tag == "wbr"@
}

pub fn is_void_element(tag: &str) -> (r: bool)
    ensures
        r == is_void_tag(tag@),
{
    str_eq(tag, "area") || str_eq(tag, "base") || str_eq(tag, "col") || str_eq(tag, "embed")
        || str_eq(tag, "hr") || str_eq(tag, "input") || str_eq(tag, "link") || str_eq(tag, "meta")
        || str_eq(tag, "param") || str_eq(tag, "source") || str_eq(tag, "track") || str_eq(
        tag,
        "wbr",
    )
}

/// Elements that are never rendered.
pub open spec fn is_non_rendered_tag(tag: Seq<char>) -> bool {
    tag == "noscript"@ || tag == "script"@ || tag == "template"@ || tag == "title"@
}

pub fn is_non_rendered_element(tag: &str) -> (r: bool)
    ensures
        r == is_non_rendered_tag(tag@),
{
    str_eq(tag, "noscript") || str_eq(tag, "script") || str_eq(tag, "template") || str_eq(
        tag,
        "title",
    )
}

/// Attributes that become node metadata of their own and are not kept
/// among the others.
pub open spec fn is_reserved_attribute_name(name: Seq<char>) -> bool {
    name == "class"@ || name == "dir"@ || name == "id"@ || name == "src"@ || name == "style"@
        || name == "tw"@
}

pub fn is_reserved_attribute(name: &str) -> (r: bool)
    ensures
        r == is_reserved_attribute_name(name@),
{
    str_eq(name, "class") || str_eq(name, "dir") || str_eq(name, "id") || str_eq(name, "src")
        || str_eq(name, "style") || str_eq(name, "tw")
}


/// Text whose only collapsible whitespace is single spaces, none right
/// after another.
pub open spec fn is_collapsed(t: Seq<char>) -> bool {
    forall|i: int|
        0 <= i < t.len() && #[trigger] is_collapsible(t[i]) ==> t[i] == ' ' && (i == 0 || t[i - 1]
            != ' ')
}

proof fn lemma_collapse_state_shape(s: Seq<char>, n: int)
    requires
        0 <= n <= s.len(),
    ensures
        is_collapsed(collapse_state(s, n).0),
        collapse_state(s, n).1 <==> (collapse_state(s, n).0.len() > 0 && collapse_state(s, n).0.last()
            == ' '),
        (exists|i: int| 0 <= i < n && !is_collapsible(#[trigger] s[i])) ==> exists|j: int|
            0 <= j < collapse_state(s, n).0.len() && !is_collapsible(
                #[trigger] collapse_state(s, n).0[j],
            ),
    decreases n,
{
    if n > 0 {
        lemma_collapse_state_shape(s, n - 1);
        let (out, last) = collapse_state(s, n - 1);
        let (o2, l2) = collapse_state(s, n);
        assert forall|i: int| 0 <= i < o2.len() && #[trigger] is_collapsible(o2[i]) implies o2[i]
            == ' ' && (i == 0 || o2[i - 1] != ' ') by {
            if i < out.len() {
                assert(o2[i] == out[i]);
                if i > 0 {
                    assert(o2[i - 1] == out[i - 1]);
                }
            } else {
                if i > 0 {
                    assert(o2[i - 1] == out[i - 1]);
                }
            }
        }
        if exists|i: int| 0 <= i < n && !is_collapsible(#[trigger] s[i]) {
            if !is_collapsible(s[n - 1]) {
                assert(!is_collapsible(o2[o2.len() - 1]));
            } else {
                let i = choose|i: int| 0 <= i < n && !is_collapsible(#[trigger] s[i]);
                assert(i < n - 1);
                let j = choose|j: int| 0 <= j < out.len() && !is_collapsible(#[trigger] out[j]);
                assert(o2[j] == out[j]);
            }
        }
    }
}

proof fn lemma_collapse_of_collapsed(t: Seq<char>, n: int)
    requires
        is_collapsed(t),
        0 <= n <= t.len(),
    ensures
        collapse_state(t, n) == (t.subrange(0, n), n > 0 && t[n - 1] == ' '),
    decreases n,
{
    if n > 0 {
        lemma_collapse_of_collapsed(t, n - 1);
        assert(t.subrange(0, n - 1).push(t[n - 1]) =~= t.subrange(0, n));
        if is_collapsible(t[n - 1]) {
            assert(t[n - 1] == ' ');
        }
    } else {
        assert(t.subrange(0, 0) =~= Seq::<char>::empty());
    }
}

/// Collapsing whitespace twice gives what collapsing once gives.
pub proof fn law_collapse_is_idempotent(s: Seq<char>)
    ensures
        collapse_whitespace(collapse_whitespace(s)) == collapse_whitespace(s),
{
    lemma_collapse_state_shape(s, s.len() as int);
    let t = collapse_whitespace(s);
    lemma_collapse_of_collapsed(t, t.len() as int);
    assert(t.subrange(0, t.len() as int) =~= t);
}

/// Whitespace normalization is opt-in: with it off, a text run is kept as
/// written, inside elements and between them alike.
pub proof fn law_text_kept_without_normalization(
    text: Seq<char>,
    options: FromHtmlOptions,
    preserve: bool,
    trim_edges: bool,
)
    requires
        !options.normalize_whitespace,
        text.len() > 0,
    ensures
        normalized_text(text, options, preserve, trim_edges) == Some(text),
{
}

/// Normalizing a text run that was normalized already gives it back.
pub proof fn law_normalized_text_is_stable(
    text: Seq<char>,
    options: FromHtmlOptions,
    preserve: bool,
    result: Seq<char>,
)
    requires
        normalized_text(text, options, preserve, false) == Some(result),
    ensures
        normalized_text(result, options, preserve, false) == Some(result),
{
    if options.normalize_whitespace && !preserve {
        lemma_collapse_state_shape(text, text.len() as int);
        assert(exists|i: int| 0 <= i < text.len() && !is_collapsible(#[trigger] text[i]));
        law_collapse_is_idempotent(text);
        let j = choose|j: int| 0 <= j < result.len() && !is_collapsible(#[trigger] result[j]);
        assert(!(forall|i: int| 0 <= i < result.len() ==> #[trigger] is_collapsible(result[i])));
    }
}

} // verus!
