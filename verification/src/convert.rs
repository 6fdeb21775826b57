//! Conversion of a parsed HTML tree into the renderable node model, with the
//! stylesheets the document carries.
use vstd::prelude::*;

use crate::assets::{
    asks_only_missing, image_source, inline_css, inline_style_error, inline_style_parse_error,
    linked_stylesheet, load_linked_stylesheet, resolve_image_source, resolve_inline_css, step_is,
    AssetStore, Step, StepView,
};
use crate::emoji::{split_emoji, split_text_to_pieces, grapheme_clusters, EmojiPiece, EmojiPieceView};
use crate::error::{HtmlError, HtmlErrorView};
use crate::metadata::{
    apply_metadata, element_metadata, extract_metadata, metadata_view, with_metadata,
    ElementMetadata, MetadataView,
};
use crate::node::{
    attr_value, bare, container_node, get_attribute, nodes_view, text_node,
    HtmlNode, HtmlNodeKind, HtmlNodeKindView, HtmlNodeView, ParsedElement, ParsedHtml, ParsedNode,
};
use crate::options::FromHtmlOptions;
use crate::text::{
    ascii_lower_seq, chars_of, contains_seq, find_from, find_seq_from, has_prefix, str_contains,
    str_starts_with, string_of_range,
};
use crate::whitespace::{
    is_non_rendered_element, is_non_rendered_tag, is_void_element, is_void_tag, normalize_text_run,
    normalized_text, preserves_whitespace, preserves_whitespace_tag, str_eq,
};

verus! {

/// The inline style given to emoji images.
pub open spec fn emoji_style_text() -> Seq<char> {
    "display: inline-block; width: 1em; height: 1em; margin: 0 0.05em 0 0.1em; vertical-align: -0.1em;"@
}

/// The node for one piece of a text split around its emoji.
pub open spec fn piece_node(p: EmojiPieceView) -> HtmlNodeView {
    match p {
        EmojiPieceView::Text(t) => bare(HtmlNodeKindView::Text(t)),
        EmojiPieceView::Image(url) => HtmlNodeView {
            style: Some(emoji_style_text()),
            ..bare(HtmlNodeKindView::Image { src: url, width: None, height: None })
        },
    }
}

/// The nodes that stand for `text` when emoji are extracted from it, or
/// `None` when they are not (no emoji image set chosen, or no emoji).
pub open spec fn emoji_nodes(text: Seq<char>, options: FromHtmlOptions) -> StepView<
    Option<Seq<HtmlNodeView>>,
> {
    match options.emoji_type {
        None => StepView::Done(None),
        Some(t) => match split_emoji(grapheme_clusters(text), t) {
            None => StepView::Done(None),
            Some(pieces) => match inline_style_error(emoji_style_text()) {
                Some(reason) => StepView::Failed(
                    HtmlErrorView::InlineStyleParse {
                        tag_name: "img"@,
                        value: emoji_style_text(),
                        reason,
                    },
                ),
                None => StepView::Done(
                    Some(Seq::new(pieces.len(), |i: int| piece_node(pieces[i]))),
                ),
            },
        },
    }
}

/// The node for a bare text run.
pub open spec fn text_run_node(text: Seq<char>, options: FromHtmlOptions) -> StepView<HtmlNodeView> {
    match emoji_nodes(text, options) {
        StepView::Done(None) => StepView::Done(bare(HtmlNodeKindView::Text(text))),
        StepView::Done(Some(nodes)) => StepView::Done(
            HtmlNodeView {
                tag_name: Some("span"@),
                ..bare(HtmlNodeKindView::Container(nodes))
            },
        ),
        StepView::Failed(e) => StepView::Failed(e),
        StepView::Needs(q) => StepView::Needs(q),
    }
}

/// The node for an element whose content is all text.
pub open spec fn element_text_node(m: MetadataView, text: Seq<char>, options: FromHtmlOptions) -> StepView<
    HtmlNodeView,
> {
    match emoji_nodes(text, options) {
        StepView::Done(None) => StepView::Done(with_metadata(m, HtmlNodeKindView::Text(text))),
        StepView::Done(Some(nodes)) => StepView::Done(
            with_metadata(m, HtmlNodeKindView::Container(nodes)),
        ),
        StepView::Failed(e) => StepView::Failed(e),
        StepView::Needs(q) => StepView::Needs(q),
    }
}

fn emoji_style() -> (s: String)
    ensures
        s@ == emoji_style_text(),
{
    "display: inline-block; width: 1em; height: 1em; margin: 0 0.05em 0 0.1em; vertical-align: -0.1em;".to_owned()
}

fn node_for_piece(p: EmojiPiece) -> (n: HtmlNode)
    ensures
        n@ == piece_node(p@),
{
    match p {
        EmojiPiece::Text(t) => text_node(t),
        EmojiPiece::Image(url) => {
            let n = HtmlNode {
                kind: HtmlNodeKind::Image { src: url, width: None, height: None },
                tag_name: None,
                class_name: None,
                id: None,
                dir: None,
                attributes: Vec::new(),
                style: Some(emoji_style()),
            };
            assert(crate::node::pairs_view(n.attributes@) =~= Seq::empty());
            n
        },
    }
}

pub open spec fn opt_nodes_view(o: Option<Vec<HtmlNode>>) -> Option<Seq<HtmlNodeView>> {
    match o {
        Some(v) => Some(nodes_view(v@)),
        None => None,
    }
}

/// Extracts the emoji of `text` into image nodes, when enabled.
pub fn emoji_content(text: &str, options: &FromHtmlOptions) -> (r: Step<Option<Vec<HtmlNode>>>)
    ensures
        step_is(r, emoji_nodes(text@, *options), |o: Option<Vec<HtmlNode>>| opt_nodes_view(o)),
        r is Needs ==> false,
{
    let emoji_type = match options.emoji_type {
        None => {
            return Step::Done(None);
        },
        Some(t) => t,
    };
    let pieces = match split_text_to_pieces(text, emoji_type) {
        None => {
            return Step::Done(None);
        },
        Some(p) => p,
    };
    let style = emoji_style();
    match inline_style_parse_error(style.as_str()) {
        Some(reason) => {
            return Step::Failed(
                HtmlError::InlineStyleParse { tag_name: "img".to_owned(), value: style, reason },
            );
        },
        None => {},
    }
    let ghost pv = pieces@.map_values(|p: EmojiPiece| p@);
    let mut nodes: Vec<HtmlNode> = Vec::new();
    let len = pieces.len();
    let mut rest = pieces;
    let mut taken: usize = 0;
    while rest.len() > 0
        invariant
            len == pv.len(),
            taken + rest@.len() == len,
            nodes@.len() == taken,
            forall|k: int| 0 <= k < taken ==> #[trigger] crate::node::node_view(nodes@[k]) == piece_node(pv[k]),
            forall|k: int| 0 <= k < rest@.len() ==> #[trigger] rest@[k]@ == pv[taken + k],
        decreases rest@.len(),
    {
        let p = rest.remove(0);
        proof {
            assert(p@ == pv[taken as int]);
        }
        nodes.push(node_for_piece(p));
        taken += 1;
    }
    proof {
        assert(nodes_view(nodes@) =~= Seq::new(pv.len(), |i: int| piece_node(pv[i])));
    }
    Step::Done(Some(nodes))
}

/// The node for a text run of the document.
pub fn build_text_node(text: String, options: &FromHtmlOptions) -> (r: Step<HtmlNode>)
    ensures
        step_is(r, text_run_node(text@, *options), |n: HtmlNode| n@),
{
    match emoji_content(text.as_str(), options) {
        Step::Done(None) => Step::Done(text_node(text)),
        Step::Done(Some(nodes)) => {
            let mut n = container_node(nodes);
            n.tag_name = Some("span".to_owned());
            Step::Done(n)
        },
        Step::Failed(e) => Step::Failed(e),
        Step::Needs(q) => Step::Needs(q),
    }
}

/// The node for an element whose content is all text.
pub fn build_element_text_node(m: ElementMetadata, text: String, options: &FromHtmlOptions) -> (r:
    Step<HtmlNode>)
    ensures
        step_is(r, element_text_node(metadata_view(m), text@, *options), |n: HtmlNode| n@),
{
    match emoji_content(text.as_str(), options) {
        Step::Done(None) => Step::Done(apply_metadata(m, HtmlNodeKind::Text(text))),
        Step::Done(Some(nodes)) => {
            let ghost nv = nodes_view(nodes@);
            let n = apply_metadata(m, HtmlNodeKind::Container(nodes));
            proof {
                if let HtmlNodeKindView::Container(s) = n@.kind {
                    assert(s =~= nv);
                }
            }
            Step::Done(n)
        },
        Step::Failed(e) => Step::Failed(e),
        Step::Needs(q) => Step::Needs(q),
    }
}

/// Some attribute name starts with `xlink:`.
pub open spec fn has_xlink_attribute(attributes: Seq<(String, String)>) -> bool {
    exists|i: int| 0 <= i < attributes.len() && has_prefix(#[trigger] attributes[i].0@, "xlink:"@)
}

/// Inline SVG markup with the SVG (and, where `xlink:` is used, XLink)
/// namespace declarations it lacks added to its `<svg` tag.
pub open spec fn svg_markup(markup: Seq<char>, attributes: Seq<(String, String)>) -> Seq<char> {
    let needs_xmlns = !contains_seq(markup, "xmlns="@);
    let needs_xlink = (contains_seq(markup, "xlink:"@) || has_xlink_attribute(attributes))
        && !contains_seq(markup, "xmlns:xlink="@);
    if !needs_xmlns && !needs_xlink {
        markup
    } else {
        match find_seq_from(markup, "<svg"@, 0) {
            None => markup,
            Some(i) => markup.subrange(0, i + 4) + (if needs_xmlns {
                " xmlns=\"http://www.w3.org/2000/svg\""@
            } else {
                Seq::empty()
            }) + (if needs_xlink {
                " xmlns:xlink=\"http://www.w3.org/1999/xlink\""@
            } else {
                Seq::empty()
            }) + markup.subrange(i + 4, markup.len() as int),
        }
    }
}

fn any_xlink_attribute(attributes: &Vec<(String, String)>) -> (r: bool)
    ensures
        r == has_xlink_attribute(attributes@),
{
    let mut i: usize = 0;
    while i < attributes.len()
        invariant
            0 <= i <= attributes@.len(),
            forall|j: int| 0 <= j < i ==> !has_prefix(#[trigger] attributes@[j].0@, "xlink:"@),
        decreases attributes@.len() - i,
    {
        if str_starts_with(attributes[i].0.as_str(), "xlink:") {
            return true;
        }
        i += 1;
    }
    false
}

/// Adds the missing namespace declarations to inline SVG markup.
pub fn normalize_inline_svg_markup(markup: &str, attributes: &Vec<(String, String)>) -> (r: String)
    ensures
        r@ == svg_markup(markup@, attributes@),
{
    let needs_xmlns = !str_contains(markup, "xmlns=");
    let needs_xlink = (str_contains(markup, "xlink:") || any_xlink_attribute(attributes))
        && !str_contains(markup, "xmlns:xlink=");
    if !needs_xmlns && !needs_xlink {
        return markup.to_owned();
    }
    let v = chars_of(markup);
    let needle = chars_of("<svg");
    proof {
        reveal_strlit("<svg");
        assert(needle@.len() == 4);
    }
    match find_from(&v, &needle, 0) {
        None => markup.to_owned(),
        Some(i) => {
            proof {
                crate::text::lemma_find_seq_from_contains(v@, needle@, 0);
            }
            let total = v.len();
            let end = i + needle.len();
            assert(end == i + 4);
            let mut out = string_of_range(&v, 0, end);
            if needs_xmlns {
                out.append(" xmlns=\"http://www.w3.org/2000/svg\"");
            }
            if needs_xlink {
                out.append(" xmlns:xlink=\"http://www.w3.org/1999/xlink\"");
            }
            out.append(string_of_range(&v, end, total).as_str());
            proof {
                if !needs_xmlns {
                    assert(out@ =~= svg_markup(markup@, attributes@));
                }
            }
            out
        },
    }
}

/// ASCII whitespace, as `split_ascii_whitespace` splits on it.
pub open spec fn is_ascii_space(c: char) -> bool {
    c == ' ' || c == '\t' || c == '\n' || c == '\u{000C}' || c == '\r'
}

pub open spec fn skip_ascii_space(s: Seq<char>, i: int) -> int
    decreases s.len() - i,
{
    if 0 <= i < s.len() && is_ascii_space(s[i]) {
        skip_ascii_space(s, i + 1)
    } else {
        i
    }
}

pub open spec fn word_end(s: Seq<char>, i: int) -> int
    decreases s.len() - i,
{
    if 0 <= i < s.len() && !is_ascii_space(s[i]) {
        word_end(s, i + 1)
    } else {
        i
    }
}

pub proof fn lemma_word_bounds(s: Seq<char>, i: int)
    requires
        0 <= i <= s.len(),
    ensures
        i <= skip_ascii_space(s, i) <= s.len(),
        i <= word_end(s, i) <= s.len(),
        skip_ascii_space(s, i) < s.len() ==> word_end(s, skip_ascii_space(s, i)) > skip_ascii_space(
            s,
            i,
        ),
    decreases s.len() - i,
{
    if i < s.len() {
        lemma_word_bounds(s, i + 1);
    }
}

/// One of the ASCII-whitespace-separated words of `s[i..]` is `stylesheet`
/// in some ASCII case.
pub open spec fn has_stylesheet_word_from(s: Seq<char>, i: int) -> bool
    decreases s.len() - i,
{
    if i < 0 || i >= s.len() {
        false
    } else {
        let a = skip_ascii_space(s, i);
        if a >= s.len() {
            false
        } else {
            let b = word_end(s, a);
            proof {
                lemma_word_bounds(s, i);
                lemma_word_bounds(s, a);
                assert(i < b <= s.len());
            }
            ascii_lower_seq(s.subrange(a, b)) == "stylesheet"@ || has_stylesheet_word_from(s, b)
        }
    }
}

/// A `<link>` whose `rel` names the `stylesheet` relation.
pub open spec fn is_stylesheet_link_element(element: ParsedElement) -> bool {
    match attr_value(element.attributes@, "rel"@) {
        Some(rel) => has_stylesheet_word_from(rel, 0),
        None => false,
    }
}

fn is_ascii_space_char(c: char) -> (r: bool)
    ensures
        r == is_ascii_space(c),
{
    c == ' ' || c == '\t' || c == '\n' || c == '\u{000C}' || c == '\r'
}

pub fn is_stylesheet_link(element: &ParsedElement) -> (r: bool)
    ensures
        r == is_stylesheet_link_element(*element),
{
    let rel = match get_attribute(element, "rel") {
        Some(rel) => rel,
        None => {
            return false;
        },
    };
    let v = chars_of(rel.as_str());
    let mut i: usize = 0;
    while i < v.len()
        invariant
            0 <= i <= v@.len(),
            v@ == rel@,
            is_stylesheet_link_element(*element) == has_stylesheet_word_from(v@, i as int),
        decreases v@.len() - i,
    {
        proof {
            lemma_word_bounds(v@, i as int);
        }
        let mut a = i;
        while a < v.len() && is_ascii_space_char(v[a])
            invariant
                i < v@.len(),
                i <= a <= v@.len(),
                v@ == rel@,
                is_stylesheet_link_element(*element) == has_stylesheet_word_from(v@, i as int),
                skip_ascii_space(v@, i as int) == skip_ascii_space(v@, a as int),
            decreases v@.len() - a,
        {
            a += 1;
        }
        if a >= v.len() {
            proof {
                assert(skip_ascii_space(v@, a as int) == a);
                assert(!has_stylesheet_word_from(v@, i as int));
            }
            return false;
        }
        let mut b = a;
        while b < v.len() && !is_ascii_space_char(v[b])
            invariant
                i <= a < v@.len(),
                a <= b <= v@.len(),
                v@ == rel@,
                skip_ascii_space(v@, i as int) == a,
                is_stylesheet_link_element(*element) == has_stylesheet_word_from(v@, i as int),
                word_end(v@, a as int) == word_end(v@, b as int),
            decreases v@.len() - b,
        {
            b += 1;
        }
        proof {
            assert(skip_ascii_space(v@, a as int) == a);
            assert(!is_ascii_space(v@[a as int]));
            assert(word_end(v@, b as int) == b);
            assert(b > a);
        }
        let word = string_of_range(&v, a, b);
        if crate::metadata::lower_equals(word.as_str(), "stylesheet") {
            assert(has_stylesheet_word_from(v@, i as int));
            return true;
        }
        i = b;
    }
    false
}


/// The text of the text children of an element, in order.
pub open spec fn direct_text(children: Seq<ParsedNode>) -> Seq<char>
    decreases children.len(),
{
    if children.len() == 0 {
        Seq::empty()
    } else {
        direct_text(children.drop_last()) + match children.last() {
            ParsedNode::Text(t) => t@,
            ParsedNode::Element(_) => Seq::empty(),
        }
    }
}

/// Every child is text.
pub open spec fn all_text(children: Seq<ParsedNode>) -> bool {
    forall|i: int| 0 <= i < children.len() ==> #[trigger] children[i] is Text
}

/// The text an element shows as a whole, when it has children and all of
/// them are text: their text, normalized and trimmed; `None` otherwise or
/// when nothing is left of it.
pub open spec fn direct_text_content(
    children: Seq<ParsedNode>,
    options: FromHtmlOptions,
    preserve: bool,
) -> Option<Seq<char>> {
    if children.len() == 0 || !all_text(children) {
        None
    } else {
        normalized_text(direct_text(children), options, preserve, true)
    }
}

/// The text of an inline `<svg>` element's markup (empty when none was kept).
pub open spec fn svg_source(element: ParsedElement) -> Seq<char> {
    match element.serialized_html {
        Some(h) => h@,
        None => Seq::empty(),
    }
}

/// What a node converts to: its node, if it renders, and the stylesheets it
/// contributes, in document order. `preserve` says whether whitespace is
/// kept as written here.
pub open spec fn conv_node(
    node: ParsedNode,
    preserve: bool,
    options: FromHtmlOptions,
    store: AssetStore,
) -> StepView<(Option<HtmlNodeView>, Seq<Seq<char>>)>
    decreases node,
{
    match node {
        ParsedNode::Text(t) => match normalized_text(t@, options, preserve, false) {
            None => StepView::Done((None, Seq::empty())),
            Some(text) => if text.len() == 0 {
                StepView::Done((None, Seq::empty()))
            } else {
                match text_run_node(text, options) {
                    StepView::Done(n) => StepView::Done((Some(n), Seq::empty())),
                    StepView::Failed(e) => StepView::Failed(e),
                    StepView::Needs(q) => StepView::Needs(q),
                }
            },
        },
        ParsedNode::Element(e) => conv_element(e, preserve, options, store),
    }
}

/// What an element converts to (see [`conv_node`]).
pub open spec fn conv_element(
    element: ParsedElement,
    preserve: bool,
    options: FromHtmlOptions,
    store: AssetStore,
) -> StepView<(Option<HtmlNodeView>, Seq<Seq<char>>)>
    decreases element,
{
    let tag = element.tag_name@;
    let attrs = element.attributes@;
    if tag == "link"@ {
        if !is_stylesheet_link_element(element) {
            StepView::Done((None, Seq::empty()))
        } else {
            match attr_value(attrs, "href"@) {
                None => StepView::Failed(HtmlErrorView::MissingLinkedStylesheetHref { tag_name: tag }),
                Some(href) => match linked_stylesheet(href, options, store) {
                    StepView::Done(None) => StepView::Done((None, Seq::empty())),
                    StepView::Done(Some(css)) => StepView::Done((None, seq![css])),
                    StepView::Failed(e) => StepView::Failed(e),
                    StepView::Needs(q) => StepView::Needs(q),
                },
            }
        }
    } else if tag == "style"@ {
        match inline_css(direct_text(element.children@), options, store) {
            StepView::Done(css) => StepView::Done(
                (None, if css.len() == 0 { Seq::empty() } else { seq![css] }),
            ),
            StepView::Failed(e) => StepView::Failed(e),
            StepView::Needs(q) => StepView::Needs(q),
        }
    } else if tag == "head"@ {
        match conv_children(element.children@, preserve, options, store) {
            StepView::Done((_, sheets)) => StepView::Done((None, sheets)),
            StepView::Failed(e) => StepView::Failed(e),
            StepView::Needs(q) => StepView::Needs(q),
        }
    } else if is_non_rendered_tag(tag) {
        StepView::Done((None, Seq::empty()))
    } else {
        match element_metadata(element, options, store) {
            StepView::Failed(e) => StepView::Failed(e),
            StepView::Needs(q) => StepView::Needs(q),
            StepView::Done(m) => if tag == "br"@ {
                StepView::Done((Some(with_metadata(m, HtmlNodeKindView::Text("\n"@))), Seq::empty()))
            } else if tag == "img"@ {
                match attr_value(attrs, "src"@) {
                    None => StepView::Failed(HtmlErrorView::MissingImageSource { tag_name: tag }),
                    Some(src) => match image_source(src, options, store) {
                        StepView::Done(resolved) => StepView::Done(
                            (
                                Some(
                                    with_metadata(
                                        m,
                                        HtmlNodeKindView::Image {
                                            src: resolved,
                                            width: attr_value(attrs, "width"@),
                                            height: attr_value(attrs, "height"@),
                                        },
                                    ),
                                ),
                                Seq::empty(),
                            ),
                        ),
                        StepView::Failed(e) => StepView::Failed(e),
                        StepView::Needs(q) => StepView::Needs(q),
                    },
                }
            } else if tag == "svg"@ {
                StepView::Done(
                    (
                        Some(
                            with_metadata(
                                m,
                                HtmlNodeKindView::Image {
                                    src: svg_markup(svg_source(element), attrs),
                                    width: attr_value(attrs, "width"@),
                                    height: attr_value(attrs, "height"@),
                                },
                            ),
                        ),
                        Seq::empty(),
                    ),
                )
            } else if is_void_tag(tag) {
                StepView::Done((None, Seq::empty()))
            } else {
                let inner = preserve || preserves_whitespace_tag(tag);
                match direct_text_content(element.children@, options, inner) {
                    Some(text) => match element_text_node(m, text, options) {
                        StepView::Done(n) => StepView::Done((Some(n), Seq::empty())),
                        StepView::Failed(e) => StepView::Failed(e),
                        StepView::Needs(q) => StepView::Needs(q),
                    },
                    None => match conv_children(element.children@, inner, options, store) {
                        StepView::Done((nodes, sheets)) => StepView::Done(
                            (Some(with_metadata(m, HtmlNodeKindView::Container(nodes))), sheets),
                        ),
                        StepView::Failed(e) => StepView::Failed(e),
                        StepView::Needs(q) => StepView::Needs(q),
                    },
                }
            },
        }
    }
}

/// What a sequence of sibling nodes converts to: the nodes that render and
/// the stylesheets, in document order; the first failure or missing file
/// stops the conversion.
pub open spec fn conv_children(
    children: Seq<ParsedNode>,
    preserve: bool,
    options: FromHtmlOptions,
    store: AssetStore,
) -> StepView<(Seq<HtmlNodeView>, Seq<Seq<char>>)>
    decreases children,
{
    if children.len() == 0 {
        StepView::Done((Seq::empty(), Seq::empty()))
    } else {
        let last = children.len() - 1;
        match conv_children(children.subrange(0, last), preserve, options, store) {
            StepView::Done((nodes, sheets)) => match conv_node(children[last], preserve, options, store) {
                StepView::Done((node, more)) => StepView::Done(
                    (
                        match node {
                            Some(n) => nodes.push(n),
                            None => nodes,
                        },
                        sheets + more,
                    ),
                ),
                StepView::Failed(e) => StepView::Failed(e),
                StepView::Needs(q) => StepView::Needs(q),
            },
            StepView::Failed(e) => StepView::Failed(e),
            StepView::Needs(q) => StepView::Needs(q),
        }
    }
}


/// The texts of `v`.
pub open spec fn strs(v: Seq<String>) -> Seq<Seq<char>> {
    Seq::new(v.len(), |i: int| v[i]@)
}

/// The stylesheets a node adds to the list before its conversion stops on a
/// failure or a missing file: those of the elements converted before the
/// one that stopped it.
pub open spec fn kept_node(
    node: ParsedNode,
    preserve: bool,
    options: FromHtmlOptions,
    store: AssetStore,
) -> Seq<Seq<char>>
    decreases node,
{
    match node {
        ParsedNode::Text(_) => Seq::empty(),
        ParsedNode::Element(e) => kept_element(e, preserve, options, store),
    }
}

/// The stylesheets an element adds before its conversion stops (see
/// [`kept_node`]): none when the element itself fails or needs a file, else
/// those its children add before they stop.
pub open spec fn kept_element(
    element: ParsedElement,
    preserve: bool,
    options: FromHtmlOptions,
    store: AssetStore,
) -> Seq<Seq<char>>
    decreases element,
{
    let tag = element.tag_name@;
    if tag == "link"@ || tag == "style"@ {
        Seq::empty()
    } else if tag == "head"@ {
        kept_children(element.children@, preserve, options, store)
    } else if is_non_rendered_tag(tag) {
        Seq::empty()
    } else {
        match element_metadata(element, options, store) {
            StepView::Done(_) => if tag == "br"@ || tag == "img"@ || tag == "svg"@ || is_void_tag(
                tag,
            ) {
                Seq::empty()
            } else {
                let inner = preserve || preserves_whitespace_tag(tag);
                match direct_text_content(element.children@, options, inner) {
                    Some(_) => Seq::empty(),
                    None => kept_children(element.children@, inner, options, store),
                }
            },
            _ => Seq::empty(),
        }
    }
}

/// The stylesheets a sequence of siblings adds before its conversion stops:
/// those of the siblings converted in full, then what the sibling that
/// stopped it added.
pub open spec fn kept_children(
    children: Seq<ParsedNode>,
    preserve: bool,
    options: FromHtmlOptions,
    store: AssetStore,
) -> Seq<Seq<char>>
    decreases children,
{
    if children.len() == 0 {
        Seq::empty()
    } else {
        let last = children.len() - 1;
        match conv_children(children.subrange(0, last), preserve, options, store) {
            StepView::Done((_, sheets)) => sheets + kept_node(children[last], preserve, options, store),
            _ => kept_children(children.subrange(0, last), preserve, options, store),
        }
    }
}

/// `r` is the step `s` of a conversion that adds its stylesheets to a list:
/// on success its value, taken by `f`, is that of `s`, and the list went
/// from `before` to `before` followed by the stylesheets of `s`; when the
/// conversion stops, the list went from `before` to `before` followed by
/// `kept`.
pub open spec fn produced<T, V>(
    r: Step<T>,
    s: StepView<(V, Seq<Seq<char>>)>,
    f: spec_fn(T) -> V,
    kept: Seq<Seq<char>>,
    before: Seq<String>,
    after: Seq<String>,
) -> bool {
    match s {
        StepView::Done((v, more)) => r matches Step::Done(x) && f(x) == v && strs(after) == strs(
            before,
        ) + more,
        StepView::Failed(e) => r matches Step::Failed(x) && x@ == e && strs(after) == strs(before)
            + kept,
        StepView::Needs(q) => r matches Step::Needs(x) && x@ == q && strs(after) == strs(before)
            + kept,
    }
}

pub open spec fn opt_node_view() -> spec_fn(Option<HtmlNode>) -> Option<HtmlNodeView> {
    |o: Option<HtmlNode>|
        match o {
            Some(n) => Some(n@),
            None => None,
        }
}

pub open spec fn nodes_fn() -> spec_fn(Vec<HtmlNode>) -> Seq<HtmlNodeView> {
    |v: Vec<HtmlNode>| nodes_view(v@)
}

/// The text of the text children, in order.
pub fn collect_direct_text(children: &Vec<ParsedNode>) -> (r: String)
    ensures
        r@ == direct_text(children@),
{
    let mut text = String::new();
    let mut i: usize = 0;
    while i < children.len()
        invariant
            0 <= i <= children@.len(),
            text@ == direct_text(children@.subrange(0, i as int)),
        decreases children@.len() - i,
    {
        proof {
            let p = children@.subrange(0, i + 1);
            assert(p.drop_last() =~= children@.subrange(0, i as int));
            assert(p.last() == children@[i as int]);
        }
        match &children[i] {
            ParsedNode::Text(value) => {
                text.append(value.as_str());
            },
            ParsedNode::Element(_) => {},
        }
        i += 1;
    }
    assert(children@.subrange(0, children@.len() as int) =~= children@);
    text
}

/// The text an element shows as a whole (see [`direct_text_content`]).
pub fn element_text_content(children: &Vec<ParsedNode>, options: &FromHtmlOptions, preserve: bool) -> (r:
    Option<String>)
    ensures
        r matches Some(t) ==> direct_text_content(children@, *options, preserve) == Some(t@),
        r is None ==> direct_text_content(children@, *options, preserve) is None,
{
    if children.len() == 0 {
        return None;
    }
    let mut i: usize = 0;
    while i < children.len()
        invariant
            0 <= i <= children@.len(),
            forall|j: int| 0 <= j < i ==> #[trigger] children@[j] is Text,
        decreases children@.len() - i,
    {
        match &children[i] {
            ParsedNode::Element(_) => {
                return None;
            },
            ParsedNode::Text(_) => {},
        }
        i += 1;
    }
    let text = collect_direct_text(children);
    normalize_text_run(text.as_str(), options, preserve, true)
}

/// Once a prefix of the siblings fails or needs a file, so does the whole.
proof fn lemma_children_stop(
    children: Seq<ParsedNode>,
    k: int,
    preserve: bool,
    options: FromHtmlOptions,
    store: AssetStore,
)
    requires
        0 <= k <= children.len(),
        !(conv_children(children.subrange(0, k), preserve, options, store) is Done),
    ensures
        conv_children(children, preserve, options, store) == conv_children(
            children.subrange(0, k),
            preserve,
            options,
            store,
        ),
        kept_children(children, preserve, options, store) == kept_children(
            children.subrange(0, k),
            preserve,
            options,
            store,
        ),
    decreases children.len() - k,
{
    if k < children.len() {
        let p = children.subrange(0, k + 1);
        assert(p.subrange(0, k) =~= children.subrange(0, k));
        lemma_children_stop(children, k + 1, preserve, options, store);
    } else {
        assert(children.subrange(0, k) =~= children);
    }
}

/// Converts a node, adding the stylesheets it contributes to `sheets`.
pub fn convert_node(
    node: &ParsedNode,
    preserve: bool,
    options: &FromHtmlOptions,
    store: &AssetStore,
    sheets: &mut Vec<String>,
) -> (r: Step<Option<HtmlNode>>)
    ensures
        produced(
            r,
            conv_node(*node, preserve, *options, *store),
            opt_node_view(),
            kept_node(*node, preserve, *options, *store),
            old(sheets)@,
            final(sheets)@,
        ),
        asks_only_missing(conv_node(*node, preserve, *options, *store), *store),
    decreases node,
{
    match node {
        ParsedNode::Text(t) => match normalize_text_run(t.as_str(), options, preserve, false) {
            None => Step::Done(None),
            Some(text) => {
                if text.as_str().is_empty() {
                    return Step::Done(None);
                }
                proof {
                    assert(text@.len() != 0);
                }
                match build_text_node(text, options) {
                    Step::Done(n) => Step::Done(Some(n)),
                    Step::Failed(e) => Step::Failed(e),
                    Step::Needs(q) => Step::Needs(q),
                }
            },
        },
        ParsedNode::Element(e) => convert_element(e, preserve, options, store, sheets),
    }
}

/// Converts an element, adding the stylesheets it contributes to `sheets`.
pub fn convert_element(
    element: &ParsedElement,
    preserve: bool,
    options: &FromHtmlOptions,
    store: &AssetStore,
    sheets: &mut Vec<String>,
) -> (r: Step<Option<HtmlNode>>)
    ensures
        produced(
            r,
            conv_element(*element, preserve, *options, *store),
            opt_node_view(),
            kept_element(*element, preserve, *options, *store),
            old(sheets)@,
            final(sheets)@,
        ),
        asks_only_missing(conv_element(*element, preserve, *options, *store), *store),
    decreases element,
{
    let ghost before = sheets@;
    let tag = element.tag_name.as_str();
    if str_eq(tag, "link") {
        if !is_stylesheet_link(element) {
            return Step::Done(None);
        }
        let href = match get_attribute(element, "href") {
            None => {
                return Step::Failed(
                    HtmlError::MissingLinkedStylesheetHref { tag_name: element.tag_name.clone() },
                );
            },
            Some(h) => h,
        };
        return match load_linked_stylesheet(href.as_str(), options, store) {
            Step::Done(None) => Step::Done(None),
            Step::Done(Some(css)) => {
                sheets.push(css);
                proof {
                    assert(strs(sheets@) =~= strs(before) + seq![sheets@.last()@]);
                }
                Step::Done(None)
            },
            Step::Failed(e) => Step::Failed(e),
            Step::Needs(q) => Step::Needs(q),
        };
    }
    if str_eq(tag, "style") {
        let text = collect_direct_text(&element.children);
        return match resolve_inline_css(text.as_str(), options, store) {
            Step::Done(css) => {
                if !css.as_str().is_empty() {
                    sheets.push(css);
                    proof {
                        assert(strs(sheets@) =~= strs(before) + seq![sheets@.last()@]);
                    }
                } else {
                    proof {
                        assert(strs(sheets@) =~= strs(before) + Seq::<Seq<char>>::empty());
                    }
                }
                Step::Done(None)
            },
            Step::Failed(e) => Step::Failed(e),
            Step::Needs(q) => Step::Needs(q),
        };
    }
    if str_eq(tag, "head") {
        return match convert_children(&element.children, preserve, options, store, sheets) {
            Step::Done(_) => Step::Done(None),
            Step::Failed(e) => Step::Failed(e),
            Step::Needs(q) => Step::Needs(q),
        };
    }
    if is_non_rendered_element(tag) {
        proof {
            assert(strs(sheets@) =~= strs(before) + Seq::<Seq<char>>::empty());
        }
        return Step::Done(None);
    }
    let m = match extract_metadata(element, options, store) {
        Step::Done(m) => m,
        Step::Failed(e) => {
            return Step::Failed(e);
        },
        Step::Needs(q) => {
            return Step::Needs(q);
        },
    };
    proof {
        assert(strs(sheets@) =~= strs(before) + Seq::<Seq<char>>::empty());
    }
    if str_eq(tag, "br") {
        return Step::Done(Some(apply_metadata(m, HtmlNodeKind::Text("\n".to_owned()))));
    }
    if str_eq(tag, "img") {
        let src = match get_attribute(element, "src") {
            None => {
                return Step::Failed(HtmlError::MissingImageSource { tag_name: element.tag_name.clone() });
            },
            Some(s) => s,
        };
        return match resolve_image_source(src.as_str(), options, store) {
            Step::Done(resolved) => {
                let width = crate::metadata::copy_opt(get_attribute(element, "width"));
                let height = crate::metadata::copy_opt(get_attribute(element, "height"));
                Step::Done(
                    Some(apply_metadata(m, HtmlNodeKind::Image { src: resolved, width, height })),
                )
            },
            Step::Failed(e) => Step::Failed(e),
            Step::Needs(q) => Step::Needs(q),
        };
    }
    if str_eq(tag, "svg") {
        let source: &str = match &element.serialized_html {
            Some(h) => h.as_str(),
            None => "",
        };
        proof {
            reveal_strlit("");
            assert(source@ =~= svg_source(*element));
        }
        let markup = normalize_inline_svg_markup(source, &element.attributes);
        let width = crate::metadata::copy_opt(get_attribute(element, "width"));
        let height = crate::metadata::copy_opt(get_attribute(element, "height"));
        return Step::Done(Some(apply_metadata(m, HtmlNodeKind::Image { src: markup, width, height })));
    }
    if is_void_element(tag) {
        return Step::Done(None);
    }
    let inner = preserve || preserves_whitespace(tag);
    match element_text_content(&element.children, options, inner) {
        Some(text) => match build_element_text_node(m, text, options) {
            Step::Done(n) => Step::Done(Some(n)),
            Step::Failed(e) => Step::Failed(e),
            Step::Needs(q) => Step::Needs(q),
        },
        None => match convert_children(&element.children, inner, options, store, sheets) {
            Step::Done(nodes) => {
                let ghost nv = nodes_view(nodes@);
                let n = apply_metadata(m, HtmlNodeKind::Container(nodes));
                proof {
                    if let HtmlNodeKindView::Container(s) = n@.kind {
                        assert(s =~= nv);
                    }
                }
                Step::Done(Some(n))
            },
            Step::Failed(e) => Step::Failed(e),
            Step::Needs(q) => Step::Needs(q),
        },
    }
}

/// Converts sibling nodes in order, adding their stylesheets to `sheets`.
pub fn convert_children(
    children: &Vec<ParsedNode>,
    preserve: bool,
    options: &FromHtmlOptions,
    store: &AssetStore,
    sheets: &mut Vec<String>,
) -> (r: Step<Vec<HtmlNode>>)
    ensures
        produced(
            r,
            conv_children(children@, preserve, *options, *store),
            nodes_fn(),
            kept_children(children@, preserve, *options, *store),
            old(sheets)@,
            final(sheets)@,
        ),
        asks_only_missing(conv_children(children@, preserve, *options, *store), *store),
    decreases children@,
{
    let ghost before = sheets@;
    let mut nodes: Vec<HtmlNode> = Vec::new();
    let mut i: usize = 0;
    assert(strs(sheets@) =~= strs(before) + Seq::<Seq<char>>::empty());
    while i < children.len()
        invariant
            0 <= i <= children@.len(),
            before == old(sheets)@,
            conv_children(children@.subrange(0, i as int), preserve, *options, *store) matches StepView::Done(
                (nv, more),
            ) && nv == nodes_view(nodes@) && strs(sheets@) == strs(before) + more,
        decreases children@.len() - i,
    {
        let ghost p = children@.subrange(0, i + 1);
        proof {
            assert(p.subrange(0, i as int) =~= children@.subrange(0, i as int));
            assert(p[i as int] == children@[i as int]);
            assert(decreases_to!(children@ => children@[i as int]));
        }
        let ghost prev = nodes@;
        let ghost mid = sheets@;
        let r = convert_node(&children[i], preserve, options, store, sheets);
        match r {
            Step::Done(Some(n)) => {
                nodes.push(n);
                proof {
                    assert(nodes@.drop_last() =~= prev);
                    assert(nodes_view(nodes@) =~= nodes_view(prev).push(n@));
                }
            },
            Step::Done(None) => {},
            Step::Failed(e) => {
                proof {
                    lemma_children_stop(children@, i + 1, preserve, *options, *store);
                    let more = conv_children(children@.subrange(0, i as int), preserve, *options, *store)->Done_0.1;
                    assert(kept_children(p, preserve, *options, *store) == more + kept_node(
                        children@[i as int],
                        preserve,
                        *options,
                        *store,
                    ));
                    assert(strs(sheets@) =~= strs(before) + kept_children(p, preserve, *options, *store));
                }
                return Step::Failed(e);
            },
            Step::Needs(q) => {
                proof {
                    lemma_children_stop(children@, i + 1, preserve, *options, *store);
                    let more = conv_children(children@.subrange(0, i as int), preserve, *options, *store)->Done_0.1;
                    assert(kept_children(p, preserve, *options, *store) == more + kept_node(
                        children@[i as int],
                        preserve,
                        *options,
                        *store,
                    ));
                    assert(strs(sheets@) =~= strs(before) + kept_children(p, preserve, *options, *store));
                }
                return Step::Needs(q);
            },
        }
        i += 1;
    }
    assert(children@.subrange(0, children@.len() as int) =~= children@);
    Step::Done(nodes)
}


/// The root node for the converted top-level nodes: an empty container when
/// there are none, the node itself when there is one, else a container of
/// them all.
pub open spec fn wrap_root(nodes: Seq<HtmlNodeView>) -> HtmlNodeView {
    if nodes.len() == 1 {
        nodes[0]
    } else {
        bare(HtmlNodeKindView::Container(nodes))
    }
}

/// What a parsed document converts to: its root node and its stylesheets in
/// document order.
pub open spec fn converted(
    document: ParsedHtml,
    options: FromHtmlOptions,
    store: AssetStore,
) -> StepView<(HtmlNodeView, Seq<Seq<char>>)> {
    match conv_children(document.nodes@, false, options, store) {
        StepView::Done((nodes, sheets)) => StepView::Done((wrap_root(nodes), sheets)),
        StepView::Failed(e) => StepView::Failed(e),
        StepView::Needs(q) => StepView::Needs(q),
    }
}

/// A converted document: the root node and the stylesheet sources found in
/// it, in document order.
#[derive(Debug)]
pub struct ConvertedHtml {
    pub node: HtmlNode,
    pub stylesheets: Vec<String>,
}

pub open spec fn converted_view() -> spec_fn(ConvertedHtml) -> (HtmlNodeView, Seq<Seq<char>>) {
    |c: ConvertedHtml| (c.node@, strs(c.stylesheets@))
}

/// Wraps the converted top-level nodes into one root node.
pub fn wrap_root_nodes(nodes: Vec<HtmlNode>) -> (n: HtmlNode)
    ensures
        n@ == wrap_root(nodes_view(nodes@)),
{
    let mut nodes = nodes;
    if nodes.len() == 1 {
        let n = nodes.remove(0);
        n
    } else {
        container_node(nodes)
    }
}

/// Converts a parsed document against the files of `store`.
pub fn convert(document: &ParsedHtml, options: &FromHtmlOptions, store: &AssetStore) -> (r: Step<
    ConvertedHtml,
>)
    ensures
        step_is(r, converted(*document, *options, *store), converted_view()),
        asks_only_missing(converted(*document, *options, *store), *store),
{
    let mut stylesheets: Vec<String> = Vec::new();
    match convert_children(&document.nodes, false, options, store, &mut stylesheets) {
        Step::Done(nodes) => {
            proof {
                assert(strs(Seq::<String>::empty()) =~= Seq::<Seq<char>>::empty());
            }
            let ghost nv = nodes_view(nodes@);
            let node = wrap_root_nodes(nodes);
            proof {
                assert(Seq::<Seq<char>>::empty() + strs(stylesheets@) =~= strs(stylesheets@));
            }
            Step::Done(ConvertedHtml { node, stylesheets })
        },
        Step::Failed(e) => Step::Failed(e),
        Step::Needs(q) => Step::Needs(q),
    }
}

/// `additional` followed by `extracted`: stylesheets given from outside
/// come first so that those of the markup keep the later place.
pub fn merge_stylesheet_sources(additional: Vec<String>, extracted: Vec<String>) -> (r: Vec<String>)
    ensures
        r@ == additional@ + extracted@,
{
    let mut merged = additional;
    let mut rest = extracted;
    merged.append(&mut rest);
    merged
}

impl ConvertedHtml {
    /// The stylesheet sources extracted from the markup.
    pub fn stylesheet_sources(&self) -> (r: &Vec<String>)
        ensures
            r@ == self.stylesheets@,
    {
        &self.stylesheets
    }

    /// `additional` followed by copies of the extracted stylesheet sources.
    pub fn stylesheet_sources_with(&self, additional: Vec<String>) -> (r: Vec<String>)
        ensures
            strs(r@) == strs(additional@) + strs(self.stylesheets@),
    {
        let mut extracted: Vec<String> = Vec::new();
        let mut i: usize = 0;
        while i < self.stylesheets.len()
            invariant
                0 <= i <= self.stylesheets@.len(),
                strs(extracted@) == strs(self.stylesheets@.subrange(0, i as int)),
            decreases self.stylesheets@.len() - i,
        {
            let c = self.stylesheets[i].clone();
            let ghost prev = extracted@;
            extracted.push(c);
            proof {
                assert(c@ == self.stylesheets@[i as int]@);
                assert(strs(extracted@) =~= strs(prev).push(c@));
                assert(self.stylesheets@.subrange(0, i + 1) =~= self.stylesheets@.subrange(
                    0,
                    i as int,
                ).push(self.stylesheets@[i as int]));
                assert(strs(extracted@) =~= strs(self.stylesheets@.subrange(0, i + 1)));
            }
            i += 1;
        }
        assert(self.stylesheets@.subrange(0, self.stylesheets@.len() as int) =~= self.stylesheets@);
        let merged = merge_stylesheet_sources(additional, extracted);
        assert(strs(merged@) =~= strs(additional@) + strs(extracted@));
        merged
    }

    /// Consumes the result, giving the extracted stylesheet sources.
    pub fn into_stylesheet_sources(self) -> (r: Vec<String>)
        ensures
            r@ == self.stylesheets@,
    {
        self.stylesheets
    }

    /// Consumes the result, giving `additional` followed by the extracted
    /// stylesheet sources.
    pub fn into_stylesheet_sources_with(self, additional: Vec<String>) -> (r: Vec<String>)
        ensures
            r@ == additional@ + self.stylesheets@,
    {
        merge_stylesheet_sources(additional, self.stylesheets)
    }
}


/// Parses `markup` as a fragment and converts it against `store`.
pub fn convert_fragment(markup: &str, options: &FromHtmlOptions, store: &AssetStore) -> (r: Step<
    ConvertedHtml,
>)
    ensures
        exists|document: ParsedHtml|
            crate::node::parsed_nodes_view(#[trigger] document.nodes@)
                == crate::parser::fragment_nodes(crate::parser::fragment_tree(markup@)) && step_is(
                r,
                converted(document, *options, *store),
                converted_view(),
            ) && asks_only_missing(converted(document, *options, *store), *store),
{
    let document = crate::parser::parse_fragment(markup);
    convert(&document, options, store)
}

/// Parses `markup` as a whole document and converts it against `store`.
pub fn convert_document(markup: &str, options: &FromHtmlOptions, store: &AssetStore) -> (r: Step<
    ConvertedHtml,
>)
    ensures
        exists|document: ParsedHtml|
            crate::node::parsed_nodes_view(#[trigger] document.nodes@)
                == crate::parser::document_nodes(crate::parser::document_tree(markup@)) && step_is(
                r,
                converted(document, *options, *store),
                converted_view(),
            ) && asks_only_missing(converted(document, *options, *store), *store),
{
    let document = crate::parser::parse_document(markup);
    convert(&document, options, store)
}


/// With local assets kept as written and linked stylesheets not loaded, no
/// node asks for a file.
pub proof fn law_preserved_node_reads_no_file(
    node: ParsedNode,
    preserve: bool,
    options: FromHtmlOptions,
    store: AssetStore,
)
    requires
        crate::options::effective_mode(options) == crate::options::LocalAssetMode::Preserve,
        !options.load_linked_stylesheets,
    ensures
        !(conv_node(node, preserve, options, store) is Needs),
    decreases node, 1int,
{
    match node {
        ParsedNode::Text(_) => {},
        ParsedNode::Element(e) => {
            law_preserved_element_reads_no_file(e, preserve, options, store);
        },
    }
}

/// With local assets kept as written and linked stylesheets not loaded, no
/// element asks for a file.
pub proof fn law_preserved_element_reads_no_file(
    element: ParsedElement,
    preserve: bool,
    options: FromHtmlOptions,
    store: AssetStore,
)
    requires
        crate::options::effective_mode(options) == crate::options::LocalAssetMode::Preserve,
        !options.load_linked_stylesheets,
    ensures
        !(conv_element(element, preserve, options, store) is Needs),
    decreases element, 1int,
{
    let tag = element.tag_name@;
    let inner = preserve || preserves_whitespace_tag(tag);
    law_preserved_children_read_no_file(element.children@, preserve, options, store);
    law_preserved_children_read_no_file(element.children@, inner, options, store);
}

/// With local assets kept as written and linked stylesheets not loaded, no
/// sequence of siblings asks for a file.
pub proof fn law_preserved_children_read_no_file(
    children: Seq<ParsedNode>,
    preserve: bool,
    options: FromHtmlOptions,
    store: AssetStore,
)
    requires
        crate::options::effective_mode(options) == crate::options::LocalAssetMode::Preserve,
        !options.load_linked_stylesheets,
    ensures
        !(conv_children(children, preserve, options, store) is Needs),
    decreases children, 0int,
{
    if children.len() > 0 {
        let last = children.len() - 1;
        law_preserved_children_read_no_file(children.subrange(0, last), preserve, options, store);
        law_preserved_node_reads_no_file(children[last], preserve, options, store);
    }
}

/// With local assets kept as written and linked stylesheets not loaded,
/// converting a document reads no file: it finishes or fails at once.
pub proof fn law_preserved_document_reads_no_file(
    document: ParsedHtml,
    options: FromHtmlOptions,
    store: AssetStore,
)
    requires
        crate::options::effective_mode(options) == crate::options::LocalAssetMode::Preserve,
        !options.load_linked_stylesheets,
    ensures
        !(converted(document, options, store) is Needs),
{
    law_preserved_children_read_no_file(document.nodes@, false, options, store);
}

/// Two texts differ when their lengths, first characters or third
/// characters do.
proof fn lemma_tags_differ(t: Seq<char>, u: Seq<char>)
    requires
        t.len() != u.len() || (t.len() > 0 && u.len() > 0 && t[0] != u[0]) || (t.len() > 2
            && u.len() > 2 && t[2] != u[2]),
    ensures
        t != u,
{
}

/// `tag` is none of `others`.
proof fn lemma_tag_is_none_of(tag: Seq<char>, others: Seq<Seq<char>>)
    requires
        forall|i: int|
            0 <= i < others.len() ==> tag.len() != (#[trigger] others[i]).len() || (tag.len() > 0
                && others[i].len() > 0 && tag[0] != others[i][0]) || (tag.len() > 2
                && others[i].len() > 2 && tag[2] != others[i][2]),
    ensures
        forall|i: int| 0 <= i < others.len() ==> tag != #[trigger] others[i],
{
    assert forall|i: int| 0 <= i < others.len() implies tag != #[trigger] others[i] by {
        lemma_tags_differ(tag, others[i]);
    }
}

/// Preformatted text keeps its whitespace: a `<pre>` or `<textarea>` whose
/// content is one text run converts, when it has no `style` attribute and
/// no emoji set is chosen, to a node holding that text exactly as written,
/// whether whitespace normalization is on or off and at any depth.
pub proof fn law_preformatted_text_is_kept(
    element: ParsedElement,
    text: String,
    preserve: bool,
    options: FromHtmlOptions,
    store: AssetStore,
)
    requires
        element.tag_name@ == "pre"@ || element.tag_name@ == "textarea"@,
        element.children@ == seq![ParsedNode::Text(text)],
        text@.len() > 0,
        attr_value(element.attributes@, "style"@) is None,
        options.emoji_type is None,
    ensures
        conv_element(element, preserve, options, store) matches StepView::Done((Some(node), sheets))
            && node.kind == HtmlNodeKindView::Text(text@) && node.tag_name == Some(element.tag_name@)
            && sheets.len() == 0,
{
    reveal_strlit("pre");
    reveal_strlit("textarea");
    reveal_strlit("script");
    reveal_strlit("style");
    reveal_strlit("noscript");
    reveal_strlit("template");
    reveal_strlit("title");
    reveal_strlit("link");
    reveal_strlit("head");
    reveal_strlit("br");
    reveal_strlit("img");
    reveal_strlit("svg");
    reveal_strlit("area");
    reveal_strlit("base");
    reveal_strlit("col");
    reveal_strlit("embed");
    reveal_strlit("hr");
    reveal_strlit("input");
    reveal_strlit("meta");
    reveal_strlit("param");
    reveal_strlit("source");
    reveal_strlit("track");
    reveal_strlit("wbr");
    let children = element.children@;
    assert(all_text(children));
    assert(children.drop_last() =~= Seq::<ParsedNode>::empty());
    assert(direct_text(Seq::<ParsedNode>::empty()) =~= Seq::<char>::empty());
    assert(direct_text(children) =~= text@);
    let others: Seq<Seq<char>> = seq!["link"@, "style"@, "head"@, "noscript"@, "script"@, "template"@, "title"@, "br"@, "img"@, "svg"@, "area"@, "base"@, "col"@, "embed"@, "hr"@, "input"@, "link"@, "meta"@, "param"@, "source"@, "track"@, "wbr"@];
    lemma_tag_is_none_of(element.tag_name@, others);
    assert(others[0] == "link"@ && others[1] == "style"@ && others[2] == "head"@);
    assert(!is_non_rendered_tag(element.tag_name@)) by {
        assert(others[3] == "noscript"@ && others[4] == "script"@ && others[5] == "template"@
            && others[6] == "title"@);
    }
    assert(element.tag_name@ != "br"@ && element.tag_name@ != "img"@ && element.tag_name@
        != "svg"@) by {
        assert(others[7] == "br"@ && others[8] == "img"@ && others[9] == "svg"@);
    }
    assert(!is_void_tag(element.tag_name@)) by {
        assert(others[10] == "area"@ && others[11] == "base"@ && others[12] == "col"@ && others[13]
            == "embed"@ && others[14] == "hr"@ && others[15] == "input"@ && others[16] == "link"@
            && others[17] == "meta"@ && others[18] == "param"@ && others[19] == "source"@
            && others[20] == "track"@ && others[21] == "wbr"@);
    }
}

/// Elements that are not drawn (`noscript`, `script`, `template`, `title`)
/// convert to no node and no stylesheet, whatever they hold.
pub proof fn law_unrendered_elements_vanish(
    element: ParsedElement,
    preserve: bool,
    options: FromHtmlOptions,
    store: AssetStore,
)
    requires
        element.tag_name@ == "noscript"@ || element.tag_name@ == "script"@ || element.tag_name@
            == "template"@ || element.tag_name@ == "title"@,
    ensures
        conv_element(element, preserve, options, store) == StepView::<
            (Option<HtmlNodeView>, Seq<Seq<char>>),
        >::Done((None, Seq::empty())),
{
    reveal_strlit("pre");
    reveal_strlit("textarea");
    reveal_strlit("script");
    reveal_strlit("style");
    reveal_strlit("noscript");
    reveal_strlit("template");
    reveal_strlit("title");
    reveal_strlit("link");
    reveal_strlit("head");
    reveal_strlit("br");
    reveal_strlit("img");
    reveal_strlit("svg");
    reveal_strlit("area");
    reveal_strlit("base");
    reveal_strlit("col");
    reveal_strlit("embed");
    reveal_strlit("hr");
    reveal_strlit("input");
    reveal_strlit("meta");
    reveal_strlit("param");
    reveal_strlit("source");
    reveal_strlit("track");
    reveal_strlit("wbr");
    let others: Seq<Seq<char>> = seq!["link"@, "style"@, "head"@];
    lemma_tag_is_none_of(element.tag_name@, others);
    assert(others[0] == "link"@ && others[1] == "style"@ && others[2] == "head"@);
}

/// Without an emoji image set, a text run stays one text node.
pub proof fn law_no_emoji_set_keeps_text(text: Seq<char>, options: FromHtmlOptions)
    requires
        options.emoji_type is None,
    ensures
        text_run_node(text, options) == StepView::Done(bare(HtmlNodeKindView::Text(text))),
{
}

/// One converted top-level node is the root itself.
pub proof fn law_single_root_is_kept(node: HtmlNodeView)
    ensures
        wrap_root(seq![node]) == node,
{
}

} // verus!
