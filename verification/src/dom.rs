//! A plain model of a parsed HTML document: each node carries what the
//! density computations read of it (an element's local name or a text's
//! contents) and its children in document order.
use html5ever::parse_document;
use html5ever::rcdom::{Handle, Node, NodeData, RcDom};
use html5ever::tendril::TendrilSink;
use vstd::prelude::*;

verus! {

#[verifier::external_type_specification]
#[verifier::external_body]
pub struct ExRcDomNode(Node);

/// What a document node is.
pub enum DomData {
    /// An element, by its local tag name (such as `div`).
    Element { name: String },
    /// A run of character data.
    Text { contents: String },
    /// Anything else: the document itself, comments, doctypes, processing instructions.
    Other,
}

/// A node of a parsed document with its children in document order.
pub struct DomNode {
    pub data: DomData,
    pub children: Vec<DomNode>,
}

/// The tag name a node hands down to its children: an element's local
/// name, and the empty text for every other node.
pub open spec fn tag_of(d: DomNode) -> Seq<char> {
    match d.data {
        DomData::Element { name } => name@,
        _ => Seq::empty(),
    }
}

impl DomNode {
    /// An element node with the given children.
    pub fn element(name: String, children: Vec<DomNode>) -> (r: DomNode)
        ensures
            r.data == (DomData::Element { name }),
            r.children@ == children@,
    {
        DomNode { data: DomData::Element { name }, children }
    }

    /// A text node, which has no children.
    pub fn text(contents: String) -> (r: DomNode)
        ensures
            r.data == (DomData::Text { contents }),
            r.children@.len() == 0,
    {
        DomNode { data: DomData::Text { contents }, children: Vec::new() }
    }

    /// A node that is neither an element nor text (such as the document root).
    pub fn other(children: Vec<DomNode>) -> (r: DomNode)
        ensures
            r.data == DomData::Other,
            r.children@ == children@,
    {
        DomNode { data: DomData::Other, children }
    }
}

/// The document tree html5ever builds for the text `html`, as this
/// library models it.
pub uninterp spec fn parsed_document(html: Seq<char>) -> DomNode;

/// Parses `html` as a whole HTML document with html5ever's
/// `parse_document` (default options, the text read as UTF-8 from its
/// bytes) and copies the resulting tree into the model. The contract
/// names the result `parsed_document(html)`: the same text always gives
/// the same tree. What that tree is, html5ever's HTML5 tree construction,
/// is not stated.
#[verifier::external_body]
pub(crate) fn parse_page(html: &str) -> (d: DomNode)
    ensures
        d == parsed_document(html@),
{
    let dom = parse_document(RcDom::default(), Default::default())
        .from_utf8()
        .read_from(&mut html.as_bytes())
        .unwrap();
    copy_node(&dom.document)
}

/// Copies the html5ever node `handle` and the nodes below it, node for
/// node and in document order, into the model: an element by its local
/// name, text by its contents, any other node as `Other`. Only
/// `parse_page` calls it; nothing is stated of it.
#[verifier::external_body]
fn copy_node(handle: &Handle) -> DomNode {
    let children: Vec<DomNode> = handle.children.borrow().iter().map(copy_node).collect();
    let data = match handle.data {
        NodeData::Element { ref name, .. } => DomData::Element { name: name.local.to_string() },
        NodeData::Text { ref contents } => DomData::Text { contents: contents.borrow().to_string() },
        _ => DomData::Other,
    };
    DomNode { data, children }
}

} // verus!
