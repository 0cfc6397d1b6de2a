use vstd::prelude::*;

verus! {

/// An attribute of an element: its local name and its value.
#[derive(Debug)]
pub struct Attr {
    pub name: Vec<char>,
    pub value: Vec<char>,
}

/// What a node of a parsed HTML tree holds.
#[derive(Debug)]
pub enum NodeData {
    /// The document root.
    Document,
    /// The fragment root.
    Fragment,
    /// A doctype declaration.
    Doctype { name: Vec<char>, public_id: Vec<char>, system_id: Vec<char> },
    /// A comment.
    Comment { text: Vec<char> },
    /// A text node, entities already decoded.
    Text { text: Vec<char> },
    /// An element with its attributes, in the parser's order.
    Element { name: Vec<char>, attrs: Vec<Attr> },
    /// A processing instruction.
    ProcessingInstruction { target: Vec<char>, data: Vec<char> },
}

/// A node of a parsed HTML tree with its children, in document order.
#[derive(Debug)]
pub struct DomNode {
    pub data: NodeData,
    pub children: Vec<DomNode>,
}

#[verifier::external_type_specification]
#[verifier::external_body]
pub struct ExHtml(scraper::Html);

#[verifier::external_type_specification]
#[verifier::external_body]
pub struct ExHtmlNode(scraper::Node);

#[verifier::external_type_specification]
#[verifier::external_body]
pub struct ExHtmlElement(scraper::node::Element);

#[verifier::external_type_specification]
#[verifier::external_body]
#[verifier::reject_recursive_types(T)]
pub struct ExNodeRef<'a, T: 'a>(ego_tree::NodeRef<'a, T>);

/// The document that scraper's `Html::parse_document` builds for `html`.
pub uninterp spec fn parsed_html(html: Seq<char>) -> scraper::Html;

/// The document that scraper's `Html::parse_fragment` builds for `html`.
pub uninterp spec fn parsed_html_fragment(html: Seq<char>) -> scraper::Html;

/// The tree that a scraper document holds, node for node.
pub uninterp spec fn html_tree(doc: scraper::Html) -> DomNode;

/// The tree of the document parsed from `html`.
pub open spec fn parsed_document(html: Seq<char>) -> DomNode {
    html_tree(parsed_html(html))
}

/// The tree of the fragment parsed from `html`.
pub open spec fn parsed_fragment(html: Seq<char>) -> DomNode {
    html_tree(parsed_html_fragment(html))
}

/// `scraper::Html::parse_document`: parses `html` as a whole document with
/// html5ever's tree builder. The result is a function of `html` alone; what
/// it is takes the HTML standard's parsing algorithm to state, so it is only
/// named here.
#[verifier::external_body]
pub(crate) fn parse_html(html: &str) -> (r: scraper::Html)
    ensures
        r == parsed_html(html@),
{
    scraper::Html::parse_document(html)
}

/// `scraper::Html::parse_fragment`: parses `html` as a fragment. Named only,
/// as for `parse_html`.
#[verifier::external_body]
pub(crate) fn parse_html_fragment(html: &str) -> (r: scraper::Html)
    ensures
        r == parsed_html_fragment(html@),
{
    scraper::Html::parse_fragment(html)
}

/// The tree of a scraper document (`Html::tree`, walked from its root),
/// copied node for node. Named: it is what the document holds.
#[verifier::external_body]
pub(crate) fn tree_of_html(doc: &scraper::Html) -> (r: DomNode)
    ensures
        r == html_tree(*doc),
{
    tree_of(doc.tree.root())
}

/// Parses `html` as a whole document and gives back its tree.
pub fn parse_document(html: &str) -> (r: DomNode)
    ensures
        r == parsed_document(html@),
{
    let doc = parse_html(html);
    tree_of_html(&doc)
}

/// Parses `html` as a fragment and gives back its tree.
pub fn parse_fragment(html: &str) -> (r: DomNode)
    ensures
        r == parsed_fragment(html@),
{
    let doc = parse_html_fragment(html);
    tree_of_html(&doc)
}

/// Copies a node of scraper's tree, and its subtree, into a `DomNode`.
/// Nothing is stated of it: it only changes the representation.
#[verifier::external_body]
fn tree_of(node: ego_tree::NodeRef<'_, scraper::Node>) -> DomNode {
    DomNode { data: data_of(node.value()), children: node.children().map(tree_of).collect() }
}

/// Copies the value of one scraper node into a `NodeData`, one variant for
/// the other. Nothing is stated of it: it only changes the representation.
#[verifier::external_body]
fn data_of(node: &scraper::Node) -> NodeData {
    match node {
        scraper::Node::Document => NodeData::Document,
        scraper::Node::Fragment => NodeData::Fragment,
        scraper::Node::Doctype(d) => NodeData::Doctype {
            name: d.name().chars().collect(), public_id: d.public_id().chars().collect(),
            system_id: d.system_id().chars().collect() },
        scraper::Node::Comment(c) => NodeData::Comment { text: c.chars().collect() },
        scraper::Node::Text(t) => NodeData::Text { text: t.chars().collect() },
        scraper::Node::Element(e) => element_data(e),
        scraper::Node::ProcessingInstruction(p) => NodeData::ProcessingInstruction {
            target: p.target.chars().collect(), data: p.data.chars().collect() },
    }
}

/// Copies a scraper element (its name and attributes, in scraper's order)
/// into a `NodeData`. Nothing is stated of it: it only changes the
/// representation.
#[verifier::external_body]
fn element_data(e: &scraper::node::Element) -> NodeData {
    let attrs = e.attrs().map(|(k, v)| Attr { name: k.chars().collect(), value: v.chars().collect() });
    NodeData::Element { name: e.name().chars().collect(), attrs: attrs.collect() }
}

} // verus!
