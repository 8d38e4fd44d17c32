//! The document tree of a page.
//!
//! Parsing is the work of an HTML parser that tolerates malformed input; what
//! the crawler reads of its result is kept here as plain data: for every
//! element its name, its attributes and its children, in document order.

use vstd::prelude::*;

verus! {

/// One attribute of an element. A bare attribute (`<a download>`) has no
/// value.
#[derive(Debug, PartialEq, Eq)]
pub struct Attribute {
    pub name: String,
    pub value: Option<String>,
}

/// An element: its tag name, its attributes, and its children in document
/// order.
#[derive(Debug, PartialEq, Eq)]
pub struct Element {
    pub name: String,
    pub attributes: Vec<Attribute>,
    pub children: Vec<TreeNode>,
}

/// A node of the document tree.
#[derive(Debug, PartialEq, Eq)]
pub enum TreeNode {
    Text(String),
    Comment(String),
    Element(Element),
}

/// The mathematical document: a tree whose elements map attribute names to
/// values. The order in which an element's attributes are stored is no part of
/// it.
pub enum Markup {
    Text(Seq<char>),
    Comment(Seq<char>),
    Element { name: Seq<char>, attributes: Map<Seq<char>, Option<Seq<char>>>, children: Seq<Markup> },
}

/// The characters of an optional string.
pub open spec fn text_of(value: Option<String>) -> Option<Seq<char>> {
    match value {
        Some(text) => Some(text@),
        None => None,
    }
}

/// The attributes as a map from name to value. Where a name occurs twice,
/// the later entry counts.
pub open spec fn attribute_map(attributes: Seq<Attribute>) -> Map<Seq<char>, Option<Seq<char>>>
    decreases attributes.len(),
{
    if attributes.len() == 0 {
        Map::empty()
    } else {
        attribute_map(attributes.drop_last()).insert(
            attributes.last().name@,
            text_of(attributes.last().value),
        )
    }
}

/// The value that `attributes` gives to `name`: `None` where the name is
/// absent, `Some(None)` where it stands bare.
pub open spec fn attribute_value(
    attributes: Map<Seq<char>, Option<Seq<char>>>,
    name: Seq<char>,
) -> Option<Option<Seq<char>>> {
    if attributes.contains_key(name) {
        Some(attributes[name])
    } else {
        None
    }
}

impl TreeNode {
    /// The mathematical document that this node stands for.
    pub open spec fn model(self) -> Markup
        decreases self,
    {
        match self {
            TreeNode::Text(text) => Markup::Text(text@),
            TreeNode::Comment(text) => Markup::Comment(text@),
            TreeNode::Element(element) => Markup::Element {
                name: element.name@,
                attributes: attribute_map(element.attributes@),
                children: models(element.children@),
            },
        }
    }
}

/// The mathematical documents of a sequence of nodes, in the same order.
pub open spec fn models(nodes: Seq<TreeNode>) -> Seq<Markup>
    decreases nodes,
{
    if nodes.len() == 0 {
        Seq::empty()
    } else {
        models(nodes.drop_last()).push(nodes.last().model())
    }
}

/// `models` keeps the length and works node by node.
pub proof fn lemma_models(nodes: Seq<TreeNode>)
    ensures
        models(nodes).len() == nodes.len(),
        forall|i: int| 0 <= i < nodes.len() ==> (#[trigger] models(nodes)[i]) == nodes[i].model(),
    decreases nodes.len(),
{
    if nodes.len() > 0 {
        lemma_models(nodes.drop_last());
    }
}

/// The parser's own node type, which only passes through `node_of`.
#[verifier::external_type_specification]
#[verifier::external_body]
pub struct ExDomNode(html_parser::Node);

/// Moves one node of `html_parser`, with everything below it, into a `TreeNode`:
/// the text of a text or comment node, and of an element its `name`, the
/// entries of its `attributes` and its `children`, converted in order.
/// Trusted, and called by `parse_tree` alone. Nothing is claimed of the result.
#[verifier::external_body]
fn node_of(node: html_parser::Node) -> TreeNode {
    match node {
        html_parser::Node::Text(text) => TreeNode::Text(text),
        html_parser::Node::Comment(text) => TreeNode::Comment(text),
        html_parser::Node::Element(element) => TreeNode::Element(
            Element {
                name: element.name,
                attributes: element.attributes.into_iter().map(
                    |(name, value)| Attribute { name, value },
                ).collect(),
                children: element.children.into_iter().map(node_of).collect(),
            },
        ),
    }
}

/// Calls `html_parser::Dom::parse` and hands back the children of the `Dom` it
/// returns, each converted by `node_of`, or the text of its error. Trusted,
/// and nothing is claimed of the outcome: it is no function of the text
/// alone. The parser gives up on a text that it would otherwise parse when
/// the thread has little stack left or when a call budget set for the whole
/// process is used up, and it stores the attributes of an element in an
/// order of its own.
#[verifier::external_body]
fn parse_tree(text: &str) -> Result<Vec<TreeNode>, String> {
    match html_parser::Dom::parse(text) {
        Ok(dom) => Ok(dom.children.into_iter().map(node_of).collect()),
        Err(error) => Err(error.to_string()),
    }
}

/// The reason a page could not be parsed.
#[derive(Debug, PartialEq, Eq)]
pub struct MarkupError {
    pub reason: String,
}

/// What a parse came to, as a mathematical value: the documents of the
/// top-level nodes, or the parser's message.
pub open spec fn parse_model(parsed: Result<Vec<TreeNode>, MarkupError>) -> Result<
    Seq<Markup>,
    Seq<char>,
> {
    match parsed {
        Ok(nodes) => Ok(models(nodes@)),
        Err(error) => Err(error.reason@),
    }
}

/// Parses a page into its document tree: the top-level nodes in document
/// order, where an element's attributes are those that the parser files
/// under attributes, which leaves out `id` and `class`. Malformed markup
/// within the parser's tolerance gives the tree the parser could build;
/// beyond it, the parser's message comes back as the error.
///
/// No contract says which of the two a text gives: that is the parser's to
/// decide, and it may decide otherwise for the same text where the machine
/// leaves it less room. What is done with the outcome is stated exactly by
/// the functions that take it as their argument.
pub fn parse_document(text: &str) -> (out: Result<Vec<TreeNode>, MarkupError>) {
    match parse_tree(text) {
        Ok(nodes) => Ok(nodes),
        Err(reason) => Err(MarkupError { reason }),
    }
}

impl Element {
    /// The value of the attribute `name`: `None` where the element has no such
    /// attribute, `Some(None)` where the attribute stands bare.
    pub fn attribute(&self, name: &String) -> (value: Option<&Option<String>>)
        ensures
            match value {
                Some(found) => attribute_value(attribute_map(self.attributes@), name@) == Some(
                    text_of(*found),
                ),
                None => attribute_value(attribute_map(self.attributes@), name@) is None,
            },
    {
        let mut i: usize = self.attributes.len();
        assert(self.attributes@.take(i as int) == self.attributes@);
        while i > 0
            invariant
                i <= self.attributes.len(),
                attribute_value(attribute_map(self.attributes@), name@) == attribute_value(
                    attribute_map(self.attributes@.take(i as int)),
                    name@,
                ),
            decreases i,
        {
            let ghost prefix = self.attributes@.take(i as int);
            assert(prefix.drop_last() == self.attributes@.take(i - 1));
            assert(prefix.last() == self.attributes@[i - 1]);
            i -= 1;
            if self.attributes[i].name == *name {
                return Some(&self.attributes[i].value);
            }
        }
        assert(self.attributes@.take(0).len() == 0);
        None
    }
}

} // verus!
