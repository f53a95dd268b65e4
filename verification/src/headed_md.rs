//! A document that starts from one metadata block.

use vstd::prelude::*;
use crate::error::StructuralError;
use crate::parsers::{DisplayMd, FromMd, Modeled};
use crate::tree::{DocNode, DocView};

verus! {

/// A metadata record and the content that stands beside its block.
#[derive(Debug, PartialEq, Eq)]
pub struct HeadedMarkdown<Metas, Content> {
    pub metas: Metas,
    pub content: Content,
}

/// Whether a node is a metadata block.
pub open spec fn is_metadata(node: DocView) -> bool {
    node is Yaml
}

/// The metadata blocks among a run of nodes, in order.
pub open spec fn metadata_blocks(nodes: Seq<DocView>) -> Seq<DocView> {
    nodes.filter(|node: DocView| is_metadata(node))
}

/// The nodes of a run that are no metadata blocks, in order.
pub open spec fn body_nodes(nodes: Seq<DocView>) -> Seq<DocView> {
    nodes.filter(|node: DocView| !is_metadata(node))
}

/// The tree without its metadata blocks.
pub open spec fn body_of(md: DocView) -> DocView {
    match crate::tree::children_of(md) {
        Some(nodes) => crate::tree::with_children(md, body_nodes(nodes)),
        None => md,
    }
}

/// The one metadata block of a tree, and the error where there is not
/// exactly one among its children.
pub open spec fn metadata_of(md: DocView) -> Result<DocView, StructuralError> {
    match crate::tree::children_of(md) {
        None => Err(StructuralError::NotASequence),
        Some(nodes) => if metadata_blocks(nodes).len() == 0 {
            Err(StructuralError::MissingMetadata)
        } else if metadata_blocks(nodes).len() > 1 {
            Err(StructuralError::DuplicateMetadata)
        } else {
            Ok(metadata_blocks(nodes)[0])
        },
    }
}

/// Takes the metadata block out of a tree: the block, and the tree with its
/// other children in their order. A tree with no block among its children,
/// or with more than one, is refused.
pub fn take_metadata(md: DocNode) -> (r: Result<(DocNode, DocNode), StructuralError>)
    ensures
        match metadata_of(md@) {
            Ok(block) => r matches Ok((found, rest)) && found@ == block && rest@ == body_of(md@),
            Err(e) => r == Err::<(DocNode, DocNode), StructuralError>(e),
        },
{
    let (shell, nodes) = match md.into_parts() {
        Ok(parts) => parts,
        Err(_) => {
            return Err(StructuralError::NotASequence);
        },
    };
    let ghost all = crate::tree::view_nodes(nodes@);
    let ghost given = nodes@;
    let mut blocks: Vec<DocNode> = Vec::new();
    let mut rest: Vec<DocNode> = Vec::new();
    for node in it: nodes
        invariant
            it.seq() == given,
            all == crate::tree::view_nodes(given),
            crate::tree::view_nodes(blocks@) == metadata_blocks(all.take(it.index() as int)),
            crate::tree::view_nodes(rest@) == body_nodes(all.take(it.index() as int)),
    {
        let ghost at = it.index() as int;
        proof {
            reveal(Seq::filter);
            assert(all.take(at + 1).drop_last() =~= all.take(at));
        }
        match node {
            DocNode::Yaml { value } => {
                blocks.push(DocNode::Yaml { value });
            },
            other => {
                rest.push(other);
            },
        }
    }
    proof {
        assert(all.take(all.len() as int) =~= all);
    }
    if blocks.len() == 0 {
        Err(StructuralError::MissingMetadata)
    } else if blocks.len() > 1 {
        Err(StructuralError::DuplicateMetadata)
    } else {
        let block = blocks.pop().unwrap();
        Ok((block, shell.wrap(rest)))
    }
}

impl<M: Modeled, C: Modeled> Modeled for HeadedMarkdown<M, C> {
    type Model = HeadedMarkdown<M::Model, C::Model>;

    open spec fn model(&self) -> HeadedMarkdown<M::Model, C::Model> {
        HeadedMarkdown { metas: self.metas.model(), content: self.content.model() }
    }
}

impl<M: FromMd, C: FromMd> FromMd for HeadedMarkdown<M, C> {
    /// The tree has to hold exactly one metadata block among its children.
    /// The record is read from the block, the content from the tree without
    /// the block.
    open spec fn parsed(md: DocView) -> Result<
        HeadedMarkdown<M::Model, C::Model>,
        StructuralError,
    > {
        match metadata_of(md) {
            Err(e) => Err(e),
            Ok(block) => match M::parsed(block) {
                Err(e) => Err(StructuralError::MetadataSchemaError { cause: Box::new(e) }),
                Ok(metas) => match C::parsed(body_of(md)) {
                    Err(e) => Err(StructuralError::Content { cause: Box::new(e) }),
                    Ok(content) => Ok(HeadedMarkdown { metas, content }),
                },
            },
        }
    }

    fn parse(md: DocNode) -> (r: Result<Self, StructuralError>) {
        let (block, rest) = match take_metadata(md) {
            Ok(parts) => parts,
            Err(e) => {
                return Err(e);
            },
        };
        let metas = match M::parse(block) {
            Ok(metas) => metas,
            Err(e) => {
                return Err(StructuralError::MetadataSchemaError { cause: Box::new(e) });
            },
        };
        match C::parse(rest) {
            Ok(content) => Ok(HeadedMarkdown { metas, content }),
            Err(e) => Err(StructuralError::Content { cause: Box::new(e) }),
        }
    }
}

impl<M: FromMd, C: FromMd> HeadedMarkdown<M, C> {
    /// What is read from a text: the record and the content of the tree
    /// that the text stands for, metadata blocks recognised.
    pub open spec fn read(text: Seq<char>) -> Result<
        HeadedMarkdown<M::Model, C::Model>,
        StructuralError,
    > {
        match crate::tree::markdown_tree(text, true) {
            None => Err(StructuralError::Syntax),
            Some(tree) => Self::parsed(tree),
        }
    }

    /// Reads a document from its text.
    pub fn from_text(text: &str) -> (r: Result<Self, StructuralError>)
        ensures
            crate::parsers::model_of(r) == Self::read(text@),
    {
        match crate::tree::parse_document(text, true) {
            Ok(tree) => Self::parse(tree),
            Err(e) => Err(e),
        }
    }
}

/// The raw text of the one metadata block of a tree, and the error where
/// there is not exactly one among its children.
pub open spec fn raw_metadata_of(md: DocView) -> Result<Seq<char>, StructuralError> {
    match metadata_of(md) {
        Ok(block) => Ok(block->Yaml_value),
        Err(e) => Err(e),
    }
}

/// Cuts the text of a document into the raw text of its metadata block and
/// the tree of all the rest.
pub fn split_document(text: &str) -> (r: Result<(String, DocNode), StructuralError>)
    ensures
        match crate::tree::markdown_tree(text@, true) {
            None => r == Err::<(String, DocNode), StructuralError>(StructuralError::Syntax),
            Some(tree) => match raw_metadata_of(tree) {
                Err(e) => r == Err::<(String, DocNode), StructuralError>(e),
                Ok(raw) => r matches Ok((found, rest)) && found@ == raw && rest@ == body_of(tree),
            },
        },
{
    let tree = match crate::tree::parse_document(text, true) {
        Ok(tree) => tree,
        Err(e) => {
            return Err(e);
        },
    };
    match take_metadata(tree) {
        Ok((DocNode::Yaml { value }, rest)) => Ok((value, rest)),
        Ok(_) => Err(StructuralError::MissingMetadata),
        Err(e) => Err(e),
    }
}

/// The tree that holds a block ahead of a rendered content: the content with
/// the block as its first child where it is a sequence, else a root that
/// holds the block and the content.
pub open spec fn headed_by(block: DocView, content: DocView) -> DocView {
    match crate::tree::children_of(content) {
        Some(children) => crate::tree::with_children(content, seq![block] + children),
        None => DocView::Root { children: seq![block, content] },
    }
}

impl<M: DisplayMd, C: DisplayMd> DisplayMd for HeadedMarkdown<M, C> {
    /// The rendered content, with the rendered record ahead of it. The
    /// content is rendered first, so its error comes first.
    open spec fn rendered(record: HeadedMarkdown<M::Model, C::Model>) -> Result<
        DocView,
        StructuralError,
    > {
        match C::rendered(record.content) {
            Err(e) => Err(StructuralError::Content { cause: Box::new(e) }),
            Ok(content) => match M::rendered(record.metas) {
                Err(e) => Err(StructuralError::MetadataSchemaError { cause: Box::new(e) }),
                Ok(block) => Ok(headed_by(block, content)),
            },
        }
    }

    fn fmt(&self) -> (r: Result<DocNode, StructuralError>) {
        let content = match self.content.fmt() {
            Ok(content) => content,
            Err(e) => {
                return Err(StructuralError::Content { cause: Box::new(e) });
            },
        };
        let block = match self.metas.fmt() {
            Ok(block) => block,
            Err(e) => {
                return Err(StructuralError::MetadataSchemaError { cause: Box::new(e) });
            },
        };
        let ghost block_tree = block@;
        match content.into_parts() {
            Ok((shell, mut children)) => {
                let ghost below = crate::tree::view_nodes(children@);
                children.insert(0, block);
                assert(crate::tree::view_nodes(children@) =~= seq![block_tree] + below);
                Ok(shell.wrap(children))
            },
            Err(node) => {
                let mut children: Vec<DocNode> = Vec::new();
                children.push(block);
                children.push(node);
                assert(crate::tree::view_nodes(children@) =~= seq![block_tree, node@]);
                Ok(DocNode::Root { children })
            },
        }
    }
}

/// The tree with its metadata block moved ahead of its other children.
pub open spec fn block_first(md: DocView) -> DocView {
    crate::tree::with_children(
        md,
        seq![metadata_of(md).unwrap()] + body_nodes(crate::tree::children_of(md).unwrap()),
    )
}

/// A tree is read only if it holds exactly one metadata block among its
/// children, whatever its content is worth.
pub proof fn parse_needs_one_metadata_block<M: FromMd, C: FromMd>(md: DocView)
    requires
        crate::tree::children_of(md) is Some,
    ensures
        metadata_blocks(crate::tree::children_of(md).unwrap()).len() == 0 ==> HeadedMarkdown::<
            M,
            C,
        >::parsed(md) == Err::<HeadedMarkdown<M::Model, C::Model>, StructuralError>(
            StructuralError::MissingMetadata,
        ),
        metadata_blocks(crate::tree::children_of(md).unwrap()).len() > 1 ==> HeadedMarkdown::<
            M,
            C,
        >::parsed(md) == Err::<HeadedMarkdown<M::Model, C::Model>, StructuralError>(
            StructuralError::DuplicateMetadata,
        ),
        HeadedMarkdown::<M, C>::parsed(md) is Ok ==> metadata_blocks(
            crate::tree::children_of(md).unwrap(),
        ).len() == 1,
{
}

/// A run of nodes that starts with a metadata block holds at least one.
pub proof fn lemma_leading_block_counts(nodes: Seq<DocView>)
    requires
        nodes.len() > 0,
        is_metadata(nodes[0]),
    ensures
        metadata_blocks(nodes).len() >= 1,
        metadata_blocks(nodes)[0] == nodes[0],
    decreases nodes.len(),
{
    reveal(Seq::filter);
    if nodes.len() > 1 {
        lemma_leading_block_counts(nodes.drop_last());
    }
}

/// Where the only metadata block of a run of nodes comes first, the other
/// nodes are all that follows it.
pub proof fn lemma_body_follows_leading_block(nodes: Seq<DocView>)
    requires
        nodes.len() > 0,
        is_metadata(nodes[0]),
        metadata_blocks(nodes).len() == 1,
    ensures
        body_nodes(nodes) == nodes.skip(1),
    decreases nodes.len(),
{
    reveal(Seq::filter);
    let before = nodes.drop_last();
    if nodes.len() > 1 {
        lemma_leading_block_counts(before);
        lemma_body_follows_leading_block(before);
    } else {
        assert(body_nodes(before) =~= Seq::empty());
    }
}

/// Reading a tree and writing the record back gives the metadata block, then
/// the other children of the tree in their order, wherever the record and the
/// content themselves are written back as they were read.
pub proof fn parse_then_render<M: FromMd + DisplayMd, C: FromMd + DisplayMd>(md: DocView)
    requires
        metadata_of(md) matches Ok(block) && M::parsed(block) matches Ok(metas) && M::rendered(
            metas,
        ) == Ok::<DocView, StructuralError>(block),
        C::parsed(body_of(md)) matches Ok(content) && C::rendered(content) == Ok::<
            DocView,
            StructuralError,
        >(body_of(md)),
    ensures
        HeadedMarkdown::<M, C>::parsed(md) matches Ok(record) && HeadedMarkdown::<M, C>::rendered(
            record,
        ) == Ok::<DocView, StructuralError>(block_first(md)),
{
    let nodes = crate::tree::children_of(md).unwrap();
    let block = metadata_of(md).unwrap();
    crate::tree::lemma_with_children(md, body_nodes(nodes), seq![block] + body_nodes(nodes));
}

/// A tree whose only metadata block comes first is its own rearrangement.
pub proof fn leading_block_stays(md: DocView)
    requires
        metadata_of(md) is Ok,
        is_metadata(crate::tree::children_of(md).unwrap()[0]),
    ensures
        block_first(md) == md,
{
    let nodes = crate::tree::children_of(md).unwrap();
    lemma_leading_block_counts(nodes);
    lemma_body_follows_leading_block(nodes);
    assert(seq![nodes[0]] + nodes.skip(1) =~= nodes);
    crate::tree::lemma_with_children(md, nodes, nodes);
}

/// Reading a document of text blocks and writing it back gives the metadata
/// block, then the other children in their order.
pub proof fn text_blocks_round_trip(md: DocView)
    requires
        metadata_of(md) is Ok,
    ensures
        HeadedMarkdown::<
            crate::parsers::Markdown,
            crate::parsers::Markdown,
        >::parsed(md) matches Ok(record) && HeadedMarkdown::<
            crate::parsers::Markdown,
            crate::parsers::Markdown,
        >::rendered(record) == Ok::<DocView, StructuralError>(block_first(md)),
{
    parse_then_render::<crate::parsers::Markdown, crate::parsers::Markdown>(md);
}

} // verus!
