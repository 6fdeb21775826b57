//! The document model on both sides of the conversion: the parsed HTML tree
//! that goes in, and the renderable node tree that comes out.
use vstd::prelude::*;

use crate::text::chars_of;

verus! {

/// A node of a parsed HTML document: text, or an element.
#[derive(Debug)]
pub enum ParsedNode {
    Text(String),
    Element(ParsedElement),
}

/// A parsed element: its tag name, its attributes in the order the parser
/// gives them (each name once), its children, and for `<svg>` its
/// serialized markup.
#[derive(Debug)]
pub struct ParsedElement {
    pub tag_name: String,
    pub attributes: Vec<(String, String)>,
    pub children: Vec<ParsedNode>,
    pub serialized_html: Option<String>,
}

/// A parsed document or fragment: the nodes at its top level.
#[derive(Debug)]
pub struct ParsedHtml {
    pub nodes: Vec<ParsedNode>,
}

pub enum ParsedNodeView {
    Text(Seq<char>),
    Element(ParsedElementView),
}

pub struct ParsedElementView {
    pub tag_name: Seq<char>,
    pub attributes: Seq<(Seq<char>, Seq<char>)>,
    pub children: Seq<ParsedNodeView>,
    pub serialized_html: Option<Seq<char>>,
}

pub open spec fn parsed_node_view(n: ParsedNode) -> ParsedNodeView
    decreases n,
{
    match n {
        ParsedNode::Text(t) => ParsedNodeView::Text(t@),
        ParsedNode::Element(e) => ParsedNodeView::Element(parsed_element_view(e)),
    }
}

pub open spec fn parsed_element_view(e: ParsedElement) -> ParsedElementView
    decreases e,
{
    ParsedElementView {
        tag_name: e.tag_name@,
        attributes: pairs_view(e.attributes@),
        children: Seq::new(
            e.children@.len(),
            |i: int|
                if 0 <= i < e.children@.len() {
                    parsed_node_view(e.children@[i])
                } else {
                    ParsedNodeView::Text(Seq::empty())
                },
        ),
        serialized_html: opt_view(e.serialized_html),
    }
}

pub open spec fn parsed_nodes_view(v: Seq<ParsedNode>) -> Seq<ParsedNodeView> {
    Seq::new(v.len(), |i: int| parsed_node_view(v[i]))
}

/// The value of the first attribute named `name`.
pub open spec fn attr_value(attributes: Seq<(String, String)>, name: Seq<char>) -> Option<
    Seq<char>,
>
    decreases attributes.len(),
{
    if attributes.len() == 0 {
        None
    } else if attributes[0].0@ == name {
        Some(attributes[0].1@)
    } else {
        attr_value(attributes.drop_first(), name)
    }
}

/// The value of the attribute `name` of `element`.
pub fn get_attribute<'a>(element: &'a ParsedElement, name: &str) -> (r: Option<&'a String>)
    ensures
        r matches Some(v) ==> attr_value(element.attributes@, name@) == Some(v@),
        r is None ==> attr_value(element.attributes@, name@) is None,
{
    let want = chars_of(name);
    let mut i: usize = 0;
    assert(element.attributes@.subrange(0, element.attributes@.len() as int) =~= element.attributes@);
    while i < element.attributes.len()
        invariant
            0 <= i <= element.attributes@.len(),
            want@ == name@,
            attr_value(element.attributes@, name@) == attr_value(
                element.attributes@.subrange(i as int, element.attributes@.len() as int),
                name@,
            ),
        decreases element.attributes@.len() - i,
    {
        let ghost rest = element.attributes@.subrange(i as int, element.attributes@.len() as int);
        assert(rest.drop_first() =~= element.attributes@.subrange(
            i + 1,
            element.attributes@.len() as int,
        ));
        assert(rest[0] == element.attributes@[i as int]);
        let have = chars_of(element.attributes[i].0.as_str());
        if crate::text::starts_with_at(&have, 0, &want) && have.len() == want.len() {
            proof {
                assert(have@.subrange(0, have@.len() as int) =~= have@);
                assert(have@.subrange(0, want@.len() as int) =~= have@);
            }
            return Some(&element.attributes[i].1);
        }
        proof {
            if have@ == want@ {
                assert(have@.subrange(0, have@.len() as int) =~= have@);
            }
        }
        i += 1;
    }
    None
}

/// The direction of an element's text, from its `dir` attribute.
#[derive(Debug, Clone, Copy, PartialEq, Eq, Structural)]
pub enum TextDirection {
    Ltr,
    Rtl,
}

/// What a converted node shows: text, an image (a URL or inline SVG markup,
/// with the `width` and `height` attributes as written), or child nodes.
#[derive(Debug)]
pub enum HtmlNodeKind {
    Text(String),
    Image { src: String, width: Option<String>, height: Option<String> },
    Container(Vec<HtmlNode>),
}

/// A converted node: its content and the element metadata it carries.
/// `style` holds inline style declarations that are known to parse.
#[derive(Debug)]
pub struct HtmlNode {
    pub kind: HtmlNodeKind,
    pub tag_name: Option<String>,
    pub class_name: Option<String>,
    pub id: Option<String>,
    pub dir: Option<TextDirection>,
    pub attributes: Vec<(String, String)>,
    pub style: Option<String>,
}

pub enum HtmlNodeKindView {
    Text(Seq<char>),
    Image { src: Seq<char>, width: Option<Seq<char>>, height: Option<Seq<char>> },
    Container(Seq<HtmlNodeView>),
}

pub struct HtmlNodeView {
    pub kind: HtmlNodeKindView,
    pub tag_name: Option<Seq<char>>,
    pub class_name: Option<Seq<char>>,
    pub id: Option<Seq<char>>,
    pub dir: Option<TextDirection>,
    pub attributes: Seq<(Seq<char>, Seq<char>)>,
    pub style: Option<Seq<char>>,
}

pub open spec fn opt_view(o: Option<String>) -> Option<Seq<char>> {
    match o {
        Some(s) => Some(s@),
        None => None,
    }
}

pub open spec fn pairs_view(v: Seq<(String, String)>) -> Seq<(Seq<char>, Seq<char>)> {
    Seq::new(v.len(), |i: int| (v[i].0@, v[i].1@))
}

/// A node with no metadata.
pub open spec fn bare(kind: HtmlNodeKindView) -> HtmlNodeView {
    HtmlNodeView {
        kind,
        tag_name: None,
        class_name: None,
        id: None,
        dir: None,
        attributes: Seq::empty(),
        style: None,
    }
}

pub open spec fn kind_view(k: HtmlNodeKind) -> HtmlNodeKindView
    decreases k,
{
    match k {
        HtmlNodeKind::Text(t) => HtmlNodeKindView::Text(t@),
        HtmlNodeKind::Image { src, width, height } => HtmlNodeKindView::Image {
            src: src@,
            width: opt_view(width),
            height: opt_view(height),
        },
        HtmlNodeKind::Container(children) => HtmlNodeKindView::Container(
            Seq::new(
                children@.len(),
                |i: int|
                    if 0 <= i < children@.len() {
                        node_view(children@[i])
                    } else {
                        bare(HtmlNodeKindView::Text(Seq::empty()))
                    },
            ),
        ),
    }
}

pub open spec fn node_view(n: HtmlNode) -> HtmlNodeView
    decreases n,
{
    HtmlNodeView {
        kind: kind_view(n.kind),
        tag_name: opt_view(n.tag_name),
        class_name: opt_view(n.class_name),
        id: opt_view(n.id),
        dir: n.dir,
        attributes: pairs_view(n.attributes@),
        style: opt_view(n.style),
    }
}

impl View for HtmlNode {
    type V = HtmlNodeView;

    open spec fn view(&self) -> HtmlNodeView {
        node_view(*self)
    }
}

pub open spec fn nodes_view(v: Seq<HtmlNode>) -> Seq<HtmlNodeView> {
    Seq::new(v.len(), |i: int| node_view(v[i]))
}

/// A node holding `text`, with no metadata.
pub fn text_node(text: String) -> (n: HtmlNode)
    ensures
        n@ == bare(HtmlNodeKindView::Text(text@)),
{
    let n = HtmlNode {
        kind: HtmlNodeKind::Text(text),
        tag_name: None,
        class_name: None,
        id: None,
        dir: None,
        attributes: Vec::new(),
        style: None,
    };
    assert(pairs_view(n.attributes@) =~= Seq::empty());
    n
}

/// A node holding `children`, with no metadata.
pub fn container_node(children: Vec<HtmlNode>) -> (n: HtmlNode)
    ensures
        n@ == bare(HtmlNodeKindView::Container(nodes_view(children@))),
{
    let ghost cv = children@;
    let n = HtmlNode {
        kind: HtmlNodeKind::Container(children),
        tag_name: None,
        class_name: None,
        id: None,
        dir: None,
        attributes: Vec::new(),
        style: None,
    };
    proof {
        assert(pairs_view(n.attributes@) =~= Seq::empty());
        if let HtmlNodeKindView::Container(s) = n@.kind {
            assert(s =~= nodes_view(cv));
        }
    }
    n
}

} // verus!
