//! The document tree that the structural types take apart and put together.
//!
//! A document is a tree of blocks and inlines. The library reads only a few
//! kinds of node: sequences of children (the root, headings, lists), the
//! metadata block and plain text. Every other node is carried through as it
//! came, together with the text it stands for.

use vstd::prelude::*;
use vstd::string::StringExecFns;
use crate::error::StructuralError;

verus! {

/// `markdown::mdast::Node`, a node as the markdown parser builds it. It is
/// carried through as it is; nothing is said of what it holds.
#[verifier::external_type_specification]
#[verifier::external_body]
pub struct ExMdastNode(markdown::mdast::Node);

/// `Clone::clone` of `markdown::mdast::Node`: the clone that `derive` wrote
/// for it, equal to its argument.
pub assume_specification[ <markdown::mdast::Node as Clone>::clone ](
    node: &markdown::mdast::Node,
) -> (r: markdown::mdast::Node)
    ensures
        r == *node,
;

/// One node of a parsed document.
#[derive(Debug, PartialEq, Eq)]
pub enum DocNode {
    /// The top of a document, or any free-standing run of nodes.
    Root { children: Vec<DocNode> },
    /// A heading of rank `depth` (1 is the highest).
    Heading { depth: u8, children: Vec<DocNode> },
    /// A list; `start` is the number of the first item of an ordered list.
    List { ordered: bool, start: Option<u32>, spread: bool, children: Vec<DocNode> },
    /// A metadata block with its raw text.
    Yaml { value: String },
    /// Plain text.
    Text { value: String },
    /// Any other node, untouched, and the text that it stands for.
    Other { node: markdown::mdast::Node, text: String },
}

/// The mathematical value of a [`DocNode`].
pub enum DocView {
    Root { children: Seq<DocView> },
    Heading { depth: u8, children: Seq<DocView> },
    List { ordered: bool, start: Option<u32>, spread: bool, children: Seq<DocView> },
    Yaml { value: Seq<char> },
    Text { value: Seq<char> },
    Other { node: markdown::mdast::Node, text: Seq<char> },
}

/// The values of a run of nodes, in order.
pub open spec fn view_nodes(nodes: Seq<DocNode>) -> Seq<DocView>
    decreases nodes,
{
    Seq::new(
        nodes.len(),
        |i: int|
            if 0 <= i < nodes.len() {
                nodes[i].view()
            } else {
                arbitrary()
            },
    )
}

impl View for DocNode {
    type V = DocView;

    open spec fn view(&self) -> DocView
        decreases self,
    {
        match self {
            DocNode::Root { children } => DocView::Root { children: view_nodes(children@) },
            DocNode::Heading { depth, children } => DocView::Heading {
                depth: *depth,
                children: view_nodes(children@),
            },
            DocNode::List { ordered, start, spread, children } => DocView::List {
                ordered: *ordered,
                start: *start,
                spread: *spread,
                children: view_nodes(children@),
            },
            DocNode::Yaml { value } => DocView::Yaml { value: value@ },
            DocNode::Text { value } => DocView::Text { value: value@ },
            DocNode::Other { node, text } => DocView::Other { node: *node, text: text@ },
        }
    }
}

/// What a sequence node is, apart from its children.
#[derive(Debug, PartialEq, Eq, Clone, Copy)]
pub enum Shell {
    Root,
    Heading { depth: u8 },
    List { ordered: bool, start: Option<u32>, spread: bool },
}

impl Shell {
    /// The sequence node of this kind around the given children.
    pub open spec fn around(self, children: Seq<DocView>) -> DocView {
        match self {
            Shell::Root => DocView::Root { children },
            Shell::Heading { depth } => DocView::Heading { depth, children },
            Shell::List { ordered, start, spread } => DocView::List {
                ordered,
                start,
                spread,
                children,
            },
        }
    }

    /// Builds the sequence node of this kind around the given children.
    pub fn wrap(self, children: Vec<DocNode>) -> (r: DocNode)
        ensures
            r@ == self.around(view_nodes(children@)),
    {
        match self {
            Shell::Root => DocNode::Root { children },
            Shell::Heading { depth } => DocNode::Heading { depth, children },
            Shell::List { ordered, start, spread } => DocNode::List {
                ordered,
                start,
                spread,
                children,
            },
        }
    }
}

/// The kind of a sequence node; `None` for a node that holds no sequence.
pub open spec fn shell_of(md: DocView) -> Option<Shell> {
    match md {
        DocView::Root { .. } => Some(Shell::Root),
        DocView::Heading { depth, .. } => Some(Shell::Heading { depth }),
        DocView::List { ordered, start, spread, .. } => Some(
            Shell::List { ordered, start, spread },
        ),
        _ => None,
    }
}

/// The children of a sequence node; `None` for a node that holds no sequence.
pub open spec fn children_of(md: DocView) -> Option<Seq<DocView>> {
    match md {
        DocView::Root { children } => Some(children),
        DocView::Heading { children, .. } => Some(children),
        DocView::List { children, .. } => Some(children),
        _ => None,
    }
}

/// The same sequence node around other children; a node that holds no
/// sequence stays as it is.
pub open spec fn with_children(md: DocView, children: Seq<DocView>) -> DocView {
    match shell_of(md) {
        Some(shell) => shell.around(children),
        None => md,
    }
}

/// Giving a sequence node other children changes its children and nothing
/// else.
pub proof fn lemma_with_children(md: DocView, first: Seq<DocView>, second: Seq<DocView>)
    requires
        children_of(md) is Some,
    ensures
        children_of(with_children(md, first)) == Some(first),
        shell_of(with_children(md, first)) == shell_of(md),
        with_children(with_children(md, first), second) == with_children(md, second),
        with_children(md, children_of(md).unwrap()) == md,
{
}

/// The text that a node stands for: its own for a leaf, that of its children
/// one after the other for a sequence.
pub open spec fn text_of(md: DocView) -> Seq<char>
    decreases md,
{
    match md {
        DocView::Root { children } => text_of_all(children),
        DocView::Heading { children, .. } => text_of_all(children),
        DocView::List { children, .. } => text_of_all(children),
        DocView::Yaml { value } => value,
        DocView::Text { value } => value,
        DocView::Other { text, .. } => text,
    }
}

/// The texts of a run of nodes, one after the other.
pub open spec fn text_of_all(nodes: Seq<DocView>) -> Seq<char>
    decreases nodes,
{
    if nodes.len() == 0 {
        Seq::empty()
    } else {
        text_of_all(nodes.drop_last()) + text_of(nodes.last())
    }
}

/// The tree that the markdown parser makes of a text, with or without
/// metadata blocks recognised; `None` where it refuses the text.
pub uninterp spec fn markdown_tree(text: Seq<char>, frontmatter: bool) -> Option<DocView>;

/// The node that a node of `markdown::mdast` is converted into.
pub uninterp spec fn lifted(node: markdown::mdast::Node) -> DocView;

/// The nodes that a run of nodes of `markdown::mdast` is converted into, one
/// for each, in order.
pub open spec fn lifted_all(nodes: Seq<markdown::mdast::Node>) -> Seq<DocView> {
    Seq::new(nodes.len(), |i: int| lifted(nodes[i]))
}

/// Converts one node of `markdown::mdast` into a [`DocNode`]: roots, headings,
/// lists, metadata blocks and texts field by field (their positions are
/// dropped), any other node as it is, beside what `to_string` gives for it.
/// The result is a function of the node alone.
#[verifier::external_body]
fn lift(node: markdown::mdast::Node) -> (r: DocNode)
    ensures
        r@ == lifted(node),
{
    match node {
        markdown::mdast::Node::Root(x) => DocNode::Root { children: lift_all(x.children) },
        markdown::mdast::Node::Heading(x) => {
            DocNode::Heading { depth: x.depth, children: lift_all(x.children) }
        },
        markdown::mdast::Node::List(x) => {
            let (ordered, start, spread) = (x.ordered, x.start, x.spread);
            DocNode::List { ordered, start, spread, children: lift_all(x.children) }
        },
        markdown::mdast::Node::Yaml(x) => DocNode::Yaml { value: x.value },
        markdown::mdast::Node::Text(x) => DocNode::Text { value: x.value },
        other => DocNode::Other { text: other.to_string(), node: other },
    }
}

/// Converts the children of a node of `markdown::mdast`, one by one: the
/// result holds the conversion of each child, in the order of the children.
fn lift_all(nodes: Vec<markdown::mdast::Node>) -> (r: Vec<DocNode>)
    ensures
        view_nodes(r@) == lifted_all(nodes@),
{
    let ghost given = nodes@;
    let mut out: Vec<DocNode> = Vec::new();
    for node in it: nodes
        invariant
            it.seq() == given,
            out@.len() == it.index(),
            forall|k: int| 0 <= k < out@.len() ==> out@[k]@ == lifted(given[k]),
    {
        out.push(lift(node));
    }
    assert(view_nodes(out@) =~= lifted_all(given));
    out
}

/// `markdown::to_mdast` with the default options, but for metadata blocks,
/// which are recognised where `frontmatter` is set; the tree that it gives is
/// converted node by node. The result is a function of the two arguments
/// alone: the same text gives the same tree. Nothing says that a text is
/// accepted.
#[verifier::external_body]
fn to_tree(text: &str, frontmatter: bool) -> (r: Option<DocNode>)
    ensures
        r is Some == markdown_tree(text@, frontmatter) is Some,
        r matches Some(tree) ==> markdown_tree(text@, frontmatter) == Some(tree@),
{
    let constructs = markdown::Constructs { frontmatter, ..Default::default() };
    let options = markdown::ParseOptions { constructs, ..Default::default() };
    markdown::to_mdast(text, &options).ok().map(lift)
}

/// Turns a text into its document tree.
pub fn parse_document(text: &str, frontmatter: bool) -> (r: Result<DocNode, StructuralError>)
    ensures
        match markdown_tree(text@, frontmatter) {
            Some(tree) => r matches Ok(node) && node@ == tree,
            None => r == Err::<DocNode, StructuralError>(StructuralError::Syntax),
        },
{
    match to_tree(text, frontmatter) {
        Some(node) => Ok(node),
        None => Err(StructuralError::Syntax),
    }
}

impl DocNode {
    /// A copy of the node and of all that is below it.
    pub fn duplicate(&self) -> (r: DocNode)
        ensures
            r@ == self@,
        decreases self,
    {
        match self {
            DocNode::Root { children } => DocNode::Root { children: duplicate_all(children) },
            DocNode::Heading { depth, children } => DocNode::Heading {
                depth: *depth,
                children: duplicate_all(children),
            },
            DocNode::List { ordered, start, spread, children } => DocNode::List {
                ordered: *ordered,
                start: *start,
                spread: *spread,
                children: duplicate_all(children),
            },
            DocNode::Yaml { value } => DocNode::Yaml { value: value.clone() },
            DocNode::Text { value } => DocNode::Text { value: value.clone() },
            DocNode::Other { node, text } => DocNode::Other {
                node: node.clone(),
                text: text.clone(),
            },
        }
    }

    /// The text that the node stands for.
    pub fn text(&self) -> (r: String)
        ensures
            r@ == text_of(self@),
        decreases self,
    {
        match self {
            DocNode::Root { children } => text_all(children),
            DocNode::Heading { children, .. } => text_all(children),
            DocNode::List { children, .. } => text_all(children),
            DocNode::Yaml { value } => value.clone(),
            DocNode::Text { value } => value.clone(),
            DocNode::Other { text, .. } => text.clone(),
        }
    }

    /// The children of a sequence node, where the node holds a sequence.
    pub fn children(&self) -> (r: Option<&Vec<DocNode>>)
        ensures
            match children_of(self@) {
                Some(children) => r matches Some(nodes) && view_nodes(nodes@) == children,
                None => r is None,
            },
    {
        match self {
            DocNode::Root { children } => Some(children),
            DocNode::Heading { children, .. } => Some(children),
            DocNode::List { children, .. } => Some(children),
            _ => None,
        }
    }

    /// Takes a sequence node apart into its kind and its children; a node
    /// that holds no sequence comes back as it is.
    pub fn into_parts(self) -> (r: Result<(Shell, Vec<DocNode>), DocNode>)
        ensures
            match children_of(self@) {
                Some(children) => r matches Ok((shell, nodes)) && view_nodes(nodes@) == children
                    && shell_of(self@) == Some(shell),
                None => r == Err::<(Shell, Vec<DocNode>), DocNode>(self),
            },
    {
        match self {
            DocNode::Root { children } => Ok((Shell::Root, children)),
            DocNode::Heading { depth, children } => Ok((Shell::Heading { depth }, children)),
            DocNode::List { ordered, start, spread, children } => Ok(
                (Shell::List { ordered, start, spread }, children),
            ),
            other => Err(other),
        }
    }

    /// Takes the node apart: the children of a sequence, or the node itself
    /// where it holds none.
    pub fn into_children(self) -> (r: Result<Vec<DocNode>, DocNode>)
        ensures
            match children_of(self@) {
                Some(children) => r matches Ok(nodes) && view_nodes(nodes@) == children,
                None => r == Err::<Vec<DocNode>, DocNode>(self),
            },
    {
        match self {
            DocNode::Root { children } => Ok(children),
            DocNode::Heading { children, .. } => Ok(children),
            DocNode::List { children, .. } => Ok(children),
            other => Err(other),
        }
    }
}

/// Copies of a run of nodes, in order.
pub fn duplicate_all(nodes: &Vec<DocNode>) -> (r: Vec<DocNode>)
    ensures
        view_nodes(r@) == view_nodes(nodes@),
    decreases nodes,
{
    let mut out: Vec<DocNode> = Vec::new();
    let mut i: usize = 0;
    while i < nodes.len()
        invariant
            i <= nodes.len(),
            out@.len() == i,
            forall|k: int| 0 <= k < i ==> out@[k]@ == nodes@[k]@,
        decreases nodes.len() - i,
    {
        let copy = nodes[i].duplicate();
        out.push(copy);
        i += 1;
    }
    out
}

/// The texts of a run of nodes, one after the other.
pub fn text_all(nodes: &Vec<DocNode>) -> (r: String)
    ensures
        r@ == text_of_all(view_nodes(nodes@)),
    decreases nodes,
{
    let mut out = String::new();
    let mut i: usize = 0;
    while i < nodes.len()
        invariant
            i <= nodes.len(),
            out@ == text_of_all(view_nodes(nodes@).take(i as int)),
        decreases nodes.len() - i,
    {
        let part = nodes[i].text();
        out.append(part.as_str());
        proof {
            let all = view_nodes(nodes@);
            assert(all.take(i + 1).drop_last() =~= all.take(i as int));
        }
        i += 1;
    }
    assert(view_nodes(nodes@).take(i as int) =~= view_nodes(nodes@));
    out
}

} // verus!
