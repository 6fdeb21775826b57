//! Element metadata carried over to converted nodes: tag name, class, id,
//! text direction, the remaining attributes and the inline style.
use vstd::prelude::*;

use crate::assets::{
    inline_css, inline_style_error, inline_style_parse_error, resolve_inline_css, step_is,
    asks_only_missing, AssetStore, StepView, Step,
};
use crate::error::{HtmlError, HtmlErrorView};
use crate::node::{
    attr_value, get_attribute, opt_view, pairs_view, HtmlNode, HtmlNodeKind, HtmlNodeKindView,
    HtmlNodeView, ParsedElement, TextDirection,
};
use crate::options::FromHtmlOptions;
use crate::text::{ascii_lower_seq, chars_of, trim_seq, trim_string};
use crate::whitespace::{is_reserved_attribute, is_reserved_attribute_name, str_eq};

verus! {

/// The text direction an attribute value names, in any ASCII case.
pub open spec fn dir_of(value: Seq<char>) -> Option<TextDirection> {
    if ascii_lower_seq(value) == "ltr"@ {
        Some(TextDirection::Ltr)
    } else if ascii_lower_seq(value) == "rtl"@ {
        Some(TextDirection::Rtl)
    } else {
        None
    }
}

/// Whether `value` equals `lower` when ASCII letters of `value` are taken
/// in lower case.
pub fn lower_equals(value: &str, lower: &str) -> (r: bool)
    ensures
        r == (ascii_lower_seq(value@) == lower@),
{
    let v = chars_of(value);
    let mut lowered: Vec<char> = Vec::new();
    let mut i: usize = 0;
    while i < v.len()
        invariant
            0 <= i <= v@.len(),
            lowered@ == ascii_lower_seq(v@.subrange(0, i as int)),
        decreases v@.len() - i,
    {
        lowered.push(crate::text::ascii_lower_char(v[i]));
        i += 1;
        assert(lowered@ =~= ascii_lower_seq(v@.subrange(0, i as int)));
    }
    assert(v@.subrange(0, v@.len() as int) =~= v@);
    let text = crate::text::string_of(&lowered);
    str_eq(text.as_str(), lower)
}

pub fn parse_dir(value: &str) -> (r: Option<TextDirection>)
    ensures
        r == dir_of(value@),
{
    if lower_equals(value, "ltr") {
        Some(TextDirection::Ltr)
    } else if lower_equals(value, "rtl") {
        Some(TextDirection::Rtl)
    } else {
        None
    }
}

/// The attributes of an element that are not reserved, in order.
pub open spec fn kept_attributes(attributes: Seq<(String, String)>) -> Seq<(Seq<char>, Seq<char>)>
    decreases attributes.len(),
{
    if attributes.len() == 0 {
        Seq::empty()
    } else {
        let rest = kept_attributes(attributes.drop_last());
        if is_reserved_attribute_name(attributes.last().0@) {
            rest
        } else {
            rest.push((attributes.last().0@, attributes.last().1@))
        }
    }
}

/// The metadata of an element: its tag name, `class`, `id`, `dir`, the
/// other attributes, and its inline style.
pub struct MetadataView {
    pub tag_name: Seq<char>,
    pub class_name: Option<Seq<char>>,
    pub id: Option<Seq<char>>,
    pub dir: Option<TextDirection>,
    pub attributes: Seq<(Seq<char>, Seq<char>)>,
    pub style: Option<Seq<char>>,
}

/// The inline style an element gets from its (resolved) `style` text:
/// none when absent or blank, otherwise the trimmed text if takumi's style
/// parser accepts it.
pub open spec fn inline_style(tag_name: Seq<char>, style_text: Option<Seq<char>>) -> StepView<
    Option<Seq<char>>,
> {
    match style_text {
        None => StepView::Done(None),
        Some(text) => {
            let trimmed = trim_seq(text);
            if trimmed.len() == 0 {
                StepView::Done(None)
            } else {
                match inline_style_error(trimmed) {
                    Some(reason) => StepView::Failed(
                        HtmlErrorView::InlineStyleParse { tag_name, value: trimmed, reason },
                    ),
                    None => StepView::Done(Some(trimmed)),
                }
            }
        },
    }
}

/// The metadata of `element`; resolving the local references of its
/// `style` attribute may fail or need a file.
pub open spec fn element_metadata(
    element: ParsedElement,
    options: FromHtmlOptions,
    store: AssetStore,
) -> StepView<MetadataView> {
    let attrs = element.attributes@;
    let style_text = match attr_value(attrs, "style"@) {
        None => StepView::Done(None),
        Some(v) => match inline_css(v, options, store) {
            StepView::Done(css) => StepView::Done(Some(css)),
            StepView::Failed(e) => StepView::Failed(e),
            StepView::Needs(q) => StepView::Needs(q),
        },
    };
    match style_text {
        StepView::Done(text) => match inline_style(element.tag_name@, text) {
            StepView::Done(style) => StepView::Done(
                MetadataView {
                    tag_name: element.tag_name@,
                    class_name: attr_value(attrs, "class"@),
                    id: attr_value(attrs, "id"@),
                    dir: match attr_value(attrs, "dir"@) {
                        Some(d) => dir_of(d),
                        None => None,
                    },
                    attributes: kept_attributes(attrs),
                    style,
                },
            ),
            StepView::Failed(e) => StepView::Failed(e),
            StepView::Needs(q) => StepView::Needs(q),
        },
        StepView::Failed(e) => StepView::Failed(e),
        StepView::Needs(q) => StepView::Needs(q),
    }
}

/// The node with content `kind` and metadata `m`.
pub open spec fn with_metadata(m: MetadataView, kind: HtmlNodeKindView) -> HtmlNodeView {
    HtmlNodeView {
        kind,
        tag_name: Some(m.tag_name),
        class_name: m.class_name,
        id: m.id,
        dir: m.dir,
        attributes: m.attributes,
        style: m.style,
    }
}

pub struct ElementMetadata {
    pub tag_name: String,
    pub class_name: Option<String>,
    pub id: Option<String>,
    pub dir: Option<TextDirection>,
    pub attributes: Vec<(String, String)>,
    pub style: Option<String>,
}

pub open spec fn metadata_view(m: ElementMetadata) -> MetadataView {
    MetadataView {
        tag_name: m.tag_name@,
        class_name: opt_view(m.class_name),
        id: opt_view(m.id),
        dir: m.dir,
        attributes: pairs_view(m.attributes@),
        style: opt_view(m.style),
    }
}

pub open spec fn metadata_fn() -> spec_fn(ElementMetadata) -> MetadataView {
    |m: ElementMetadata| metadata_view(m)
}

pub(crate) fn copy_opt(o: Option<&String>) -> (r: Option<String>)
    ensures
        o matches Some(s) ==> r matches Some(t) && t@ == s@,
        o is None ==> r is None,
{
    match o {
        Some(s) => Some(s.clone()),
        None => None,
    }
}

fn keep_attributes(attributes: &Vec<(String, String)>) -> (r: Vec<(String, String)>)
    ensures
        pairs_view(r@) == kept_attributes(attributes@),
{
    let mut r: Vec<(String, String)> = Vec::new();
    let mut i: usize = 0;
    while i < attributes.len()
        invariant
            0 <= i <= attributes@.len(),
            pairs_view(r@) == kept_attributes(attributes@.subrange(0, i as int)),
        decreases attributes@.len() - i,
    {
        proof {
            let b = attributes@.subrange(0, i + 1);
            assert(b.drop_last() =~= attributes@.subrange(0, i as int));
            assert(b.last() == attributes@[i as int]);
        }
        if !is_reserved_attribute(attributes[i].0.as_str()) {
            let pair = (attributes[i].0.clone(), attributes[i].1.clone());
            r.push(pair);
            proof {
                assert(pairs_view(r@) =~= kept_attributes(attributes@.subrange(0, i + 1)));
            }
        }
        i += 1;
    }
    assert(attributes@.subrange(0, attributes@.len() as int) =~= attributes@);
    r
}

/// Checks a resolved `style` text against takumi's style parser.
pub fn parse_inline_style(tag_name: &String, style_text: Option<String>) -> (r: Step<Option<String>>)
    ensures
        step_is(r, inline_style(tag_name@, opt_view(style_text)), |o: Option<String>| opt_view(o)),
{
    match style_text {
        None => Step::Done(None),
        Some(text) => {
            let trimmed = trim_string(text.as_str());
            if trimmed.as_str().is_empty() {
                Step::Done(None)
            } else {
                match inline_style_parse_error(trimmed.as_str()) {
                    Some(reason) => Step::Failed(
                        HtmlError::InlineStyleParse { tag_name: tag_name.clone(), value: trimmed, reason },
                    ),
                    None => Step::Done(Some(trimmed)),
                }
            }
        },
    }
}

/// Gathers the metadata of `element`.
pub fn extract_metadata(element: &ParsedElement, options: &FromHtmlOptions, store: &AssetStore) -> (r:
    Step<ElementMetadata>)
    ensures
        step_is(r, element_metadata(*element, *options, *store), metadata_fn()),
        asks_only_missing(element_metadata(*element, *options, *store), *store),
{
    let class_name = copy_opt(get_attribute(element, "class"));
    let id = copy_opt(get_attribute(element, "id"));
    let dir = match get_attribute(element, "dir") {
        Some(d) => parse_dir(d.as_str()),
        None => None,
    };
    let style_text = match get_attribute(element, "style") {
        None => None,
        Some(v) => match resolve_inline_css(v.as_str(), options, store) {
            Step::Done(css) => Some(css),
            Step::Failed(e) => {
                return Step::Failed(e);
            },
            Step::Needs(q) => {
                return Step::Needs(q);
            },
        },
    };
    let attributes = keep_attributes(&element.attributes);
    match parse_inline_style(&element.tag_name, style_text) {
        Step::Done(style) => Step::Done(
            ElementMetadata {
                tag_name: element.tag_name.clone(),
                class_name,
                id,
                dir,
                attributes,
                style,
            },
        ),
        Step::Failed(e) => Step::Failed(e),
        Step::Needs(q) => Step::Needs(q),
    }
}

/// The node with content `kind` and metadata `m`.
pub fn apply_metadata(m: ElementMetadata, kind: HtmlNodeKind) -> (n: HtmlNode)
    ensures
        n@ == with_metadata(metadata_view(m), crate::node::kind_view(kind)),
{
    HtmlNode {
        kind,
        tag_name: Some(m.tag_name),
        class_name: m.class_name,
        id: m.id,
        dir: m.dir,
        attributes: m.attributes,
        style: m.style,
    }
}

} // verus!
