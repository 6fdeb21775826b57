//! HTML parsing: `scraper` builds the tree, and the library reads it into
//! its own document model.
//!
//! The parser hands its tree over as the open and close events of a walk of
//! the root element, in document order; [`read_nodes`] turns those events
//! back into nested nodes.
use ego_tree::iter::Edge;
use scraper::{ElementRef, Html, Node};
use vstd::prelude::*;

use crate::node::{
    pairs_view, parsed_nodes_view, ParsedElement, ParsedElementView, ParsedHtml, ParsedNode,
    ParsedNodeView,
};
use crate::whitespace::str_eq;

verus! {

/// A node of the parser's tree below the root element: text, an element
/// (its name, its attributes as the parser gives them, and its serialized
/// markup), or another node (a comment or a processing instruction).
#[derive(Debug)]
pub enum DomNode {
    Text(String),
    Element(String, Vec<(String, String)>, Option<String>),
    Other,
}

/// One step of a walk of the parser's tree: a node is entered, or the node
/// entered last and not yet left is left.
#[derive(Debug)]
pub enum DomEvent {
    Open(DomNode),
    Close,
}

pub enum DomNodeView {
    Text(Seq<char>),
    Element(Seq<char>, Seq<(Seq<char>, Seq<char>)>, Seq<char>),
    Other,
}

pub enum DomEventView {
    Open(DomNodeView),
    Close,
}

pub open spec fn dom_node_view(n: DomNode) -> DomNodeView {
    match n {
        DomNode::Text(t) => DomNodeView::Text(t@),
        DomNode::Element(name, attributes, html) => DomNodeView::Element(
            name@,
            pairs_view(attributes@),
            match html {
                Some(h) => h@,
                None => Seq::empty(),
            },
        ),
        DomNode::Other => DomNodeView::Other,
    }
}

pub open spec fn dom_event_view(e: DomEvent) -> DomEventView {
    match e {
        DomEvent::Open(n) => DomEventView::Open(dom_node_view(n)),
        DomEvent::Close => DomEventView::Close,
    }
}

pub open spec fn events_view(v: Seq<DomEvent>) -> Seq<DomEventView> {
    Seq::new(v.len(), |i: int| dom_event_view(v[i]))
}

/// The walk of the root element of `markup` parsed as a fragment.
pub uninterp spec fn fragment_tree(markup: Seq<char>) -> Seq<DomEventView>;

/// The walk of the root element of `markup` parsed as a whole document.
pub uninterp spec fn document_tree(markup: Seq<char>) -> Seq<DomEventView>;

/// `Html::parse_fragment(markup)` from `scraper`, its root element walked
/// with `traverse` and each step converted one for one. Claims only that the
/// result is `fragment_tree(markup)`, a function of the markup alone.
#[verifier::external_body]
fn fragment_events(markup: &str) -> (events: Vec<DomEvent>)
    ensures
        events_view(events@) == fragment_tree(markup@),
{
    Html::parse_fragment(markup).root_element().traverse().map(|edge| match edge {
        Edge::Close(_) => DomEvent::Close,
        Edge::Open(node) => DomEvent::Open(match node.value() {
            Node::Text(text) => DomNode::Text(text.to_string()),
            Node::Element(e) => DomNode::Element(e.name().to_owned(),
                e.attrs().map(|(k, v)| (k.to_owned(), v.to_owned())).collect(),
                ElementRef::wrap(node).map(|r| r.html())),
            _ => DomNode::Other,
        }),
    }).collect()
}

/// `Html::parse_document(markup)` from `scraper`, its root element walked
/// with `traverse` and each step converted one for one. Claims only that the
/// result is `document_tree(markup)`, a function of the markup alone.
#[verifier::external_body]
fn document_events(markup: &str) -> (events: Vec<DomEvent>)
    ensures
        events_view(events@) == document_tree(markup@),
{
    Html::parse_document(markup).root_element().traverse().map(|edge| match edge {
        Edge::Close(_) => DomEvent::Close,
        Edge::Open(node) => DomEvent::Open(match node.value() {
            Node::Text(text) => DomNode::Text(text.to_string()),
            Node::Element(e) => DomNode::Element(e.name().to_owned(),
                e.attrs().map(|(k, v)| (k.to_owned(), v.to_owned())).collect(),
                ElementRef::wrap(node).map(|r| r.html())),
            _ => DomNode::Other,
        }),
    }).collect()
}

/// What a node of the parser's tree contributes to the document model,
/// given what its children contribute: text and elements stay (an `<svg>`
/// keeps its markup), other nodes are dropped with their children.
pub open spec fn node_contribution(node: DomNodeView, children: Seq<ParsedNodeView>) -> Seq<
    ParsedNodeView,
> {
    match node {
        DomNodeView::Text(t) => seq![ParsedNodeView::Text(t)],
        DomNodeView::Element(name, attributes, html) => seq![
            ParsedNodeView::Element(
                ParsedElementView {
                    tag_name: name,
                    attributes,
                    children,
                    serialized_html: if name == "svg"@ {
                        Some(html)
                    } else {
                        None
                    },
                },
            ),
        ],
        DomNodeView::Other => Seq::empty(),
    }
}

/// The sibling nodes whose events start at `pos`, read up to the `Close` of
/// their parent (or the end), and the position where reading stopped.
pub open spec fn read_siblings(events: Seq<DomEventView>, pos: int) -> (Seq<ParsedNodeView>, int)
    decreases events.len() - pos,
{
    if pos < 0 || pos >= events.len() {
        (Seq::empty(), pos)
    } else {
        match events[pos] {
            DomEventView::Close => (Seq::empty(), pos),
            DomEventView::Open(node) => {
                let (children, after) = read_siblings(events, pos + 1);
                let next = if after >= events.len() {
                    events.len() as int
                } else if after >= pos {
                    after + 1
                } else {
                    pos + 1
                };
                let (rest, end) = read_siblings(events, next);
                (node_contribution(node, children) + rest, end)
            },
        }
    }
}

/// The nodes of a fragment: the children of its root element.
pub open spec fn fragment_nodes(events: Seq<DomEventView>) -> Seq<ParsedNodeView> {
    read_siblings(events, 1).0
}

/// The nodes of a document: its root element.
pub open spec fn document_nodes(events: Seq<DomEventView>) -> Seq<ParsedNodeView> {
    read_siblings(events, 0).0
}

fn copy_pairs(pairs: &Vec<(String, String)>) -> (r: Vec<(String, String)>)
    ensures
        pairs_view(r@) == pairs_view(pairs@),
{
    let mut r: Vec<(String, String)> = Vec::new();
    let mut i: usize = 0;
    while i < pairs.len()
        invariant
            0 <= i <= pairs@.len(),
            pairs_view(r@) == pairs_view(pairs@.subrange(0, i as int)),
        decreases pairs@.len() - i,
    {
        let pair = (pairs[i].0.clone(), pairs[i].1.clone());
        let ghost prev = r@;
        r.push(pair);
        proof {
            assert(pairs@.subrange(0, i + 1) =~= pairs@.subrange(0, i as int).push(pairs@[i as int]));
            assert(pairs_view(r@) =~= pairs_view(prev).push((pair.0@, pair.1@)));
            assert(pairs_view(r@) =~= pairs_view(pairs@.subrange(0, i + 1)));
        }
        i += 1;
    }
    assert(pairs@.subrange(0, pairs@.len() as int) =~= pairs@);
    r
}

/// The nodes a node of the parser's tree contributes (see
/// [`node_contribution`]).
fn contribution_of(node: &DomNode, children: Vec<ParsedNode>) -> (r: Vec<ParsedNode>)
    ensures
        parsed_nodes_view(r@) == node_contribution(dom_node_view(*node), parsed_nodes_view(children@)),
{
    let ghost cv = parsed_nodes_view(children@);
    match node {
        DomNode::Text(t) => {
            let r = vec![ParsedNode::Text(t.clone())];
            assert(parsed_nodes_view(r@) =~= node_contribution(dom_node_view(*node), cv));
            r
        },
        DomNode::Element(name, attributes, html) => {
            let serialized_html = if str_eq(name.as_str(), "svg") {
                match html {
                    Some(h) => Some(h.clone()),
                    None => Some(String::new()),
                }
            } else {
                None
            };
            let e = ParsedElement {
                tag_name: name.clone(),
                attributes: copy_pairs(attributes),
                children,
                serialized_html,
            };
            let r = vec![ParsedNode::Element(e)];
            proof {
                assert(crate::node::parsed_element_view(e).children =~= cv);
                assert(parsed_nodes_view(r@) =~= node_contribution(dom_node_view(*node), cv));
            }
            r
        },
        DomNode::Other => {
            let r: Vec<ParsedNode> = Vec::new();
            assert(parsed_nodes_view(r@) =~= node_contribution(dom_node_view(*node), cv));
            r
        },
    }
}

/// Reads the sibling nodes whose events start at `pos` (see
/// [`read_siblings`]).
pub fn read_nodes(events: &Vec<DomEvent>, pos: usize) -> (r: (Vec<ParsedNode>, usize))
    requires
        pos <= events@.len(),
    ensures
        (parsed_nodes_view(r.0@), r.1 as int) == read_siblings(events_view(events@), pos as int),
        r.1 <= events@.len(),
    decreases events@.len() - pos,
{
    let ghost ev = events_view(events@);
    let mut nodes: Vec<ParsedNode> = Vec::new();
    let mut cur = pos;
    assert(parsed_nodes_view(nodes@) + read_siblings(ev, cur as int).0 =~= read_siblings(
        ev,
        cur as int,
    ).0);
    loop
        invariant
            pos <= cur <= events@.len(),
            ev == events_view(events@),
            read_siblings(ev, pos as int) == (
                parsed_nodes_view(nodes@) + read_siblings(ev, cur as int).0,
                read_siblings(ev, cur as int).1,
            ),
        decreases events@.len() - cur,
    {
        if cur >= events.len() {
            proof {
                assert(parsed_nodes_view(nodes@) + Seq::empty() =~= parsed_nodes_view(nodes@));
            }
            return (nodes, cur);
        }
        let node = match &events[cur] {
            DomEvent::Close => {
                proof {
                    assert(parsed_nodes_view(nodes@) + Seq::empty() =~= parsed_nodes_view(nodes@));
                }
                return (nodes, cur);
            },
            DomEvent::Open(node) => node,
        };
        let (children, after) = read_nodes(events, cur + 1);
        let next = if after >= events.len() {
            events.len()
        } else if after >= cur {
            after + 1
        } else {
            cur + 1
        };
        let ghost prev = nodes@;
        let mut part = contribution_of(node, children);
        nodes.append(&mut part);
        proof {
            let c = read_siblings(ev, cur as int);
            let rest = read_siblings(ev, next as int);
            assert(c.0 == node_contribution(dom_node_view(*node), read_siblings(ev, cur + 1).0)
                + rest.0);
            assert(parsed_nodes_view(nodes@) =~= parsed_nodes_view(prev) + node_contribution(
                dom_node_view(*node),
                read_siblings(ev, cur + 1).0,
            ));
        }
        cur = next;
    }
}

/// The document model of a fragment's events.
pub fn parsed_from_fragment_events(events: &Vec<DomEvent>) -> (r: ParsedHtml)
    ensures
        parsed_nodes_view(r.nodes@) == fragment_nodes(events_view(events@)),
{
    if events.len() == 0 {
        return ParsedHtml { nodes: Vec::new() };
    }
    let (nodes, _) = read_nodes(events, 1);
    ParsedHtml { nodes }
}

/// The document model of a document's events.
pub fn parsed_from_document_events(events: &Vec<DomEvent>) -> (r: ParsedHtml)
    ensures
        parsed_nodes_view(r.nodes@) == document_nodes(events_view(events@)),
{
    let (nodes, _) = read_nodes(events, 0);
    ParsedHtml { nodes }
}

/// Parses `markup` as a fragment: the nodes at its top level.
pub fn parse_fragment(markup: &str) -> (r: ParsedHtml)
    ensures
        parsed_nodes_view(r.nodes@) == fragment_nodes(fragment_tree(markup@)),
{
    let events = fragment_events(markup);
    parsed_from_fragment_events(&events)
}

/// Parses `markup` as a whole document: its root element.
pub fn parse_document(markup: &str) -> (r: ParsedHtml)
    ensures
        parsed_nodes_view(r.nodes@) == document_nodes(document_tree(markup@)),
{
    let events = document_events(markup);
    parsed_from_document_events(&events)
}

} // verus!
