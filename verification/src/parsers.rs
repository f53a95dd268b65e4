//! The two-way contract between document trees and typed records, and the
//! text block, which is its simplest instance.

use vstd::prelude::*;
use crate::error::StructuralError;
use crate::tree::{DocNode, DocView};

verus! {

/// A record with a mathematical value, over which its contract is stated.
///
/// A record whose code is not verified need not state its value.
pub trait Modeled {
    type Model;

    /// The value of the record. A record that states none has an arbitrary
    /// one.
    open spec fn model(&self) -> Self::Model {
        arbitrary()
    }
}

/// The value of a result: that of the record, or the error as it is.
pub open spec fn model_of<T: Modeled>(r: Result<T, StructuralError>) -> Result<
    T::Model,
    StructuralError,
> {
    match r {
        Ok(record) => Ok(record.model()),
        Err(e) => Err(e),
    }
}

/// The value of a rendering: that of the tree, or the error as it is.
pub open spec fn view_of(r: Result<DocNode, StructuralError>) -> Result<DocView, StructuralError> {
    match r {
        Ok(node) => Ok(node@),
        Err(e) => Err(e),
    }
}

/// A record that can be read out of a document tree.
///
/// What `parse` returns is a function of the tree alone: the same tree gives
/// the same record or the same error.
pub trait FromMd: Sized + Modeled {
    /// What `parse` makes of a tree.
    open spec fn parsed(md: DocView) -> Result<Self::Model, StructuralError> {
        arbitrary()
    }

    fn parse(md: DocNode) -> (r: Result<Self, StructuralError>)
        ensures
            model_of(r) == Self::parsed(md@),
    ;
}

/// A record that can be written back as a document tree.
pub trait DisplayMd: Modeled {
    /// What `fmt` makes of a record.
    open spec fn rendered(record: Self::Model) -> Result<DocView, StructuralError> {
        arbitrary()
    }

    fn fmt(&self) -> (r: Result<DocNode, StructuralError>)
        ensures
            view_of(r) == Self::rendered(self.model()),
    ;
}

/// A block of text, kept as the tree it was read as.
#[derive(Debug, PartialEq, Eq)]
pub struct Markdown(pub DocNode);

impl Modeled for Markdown {
    type Model = DocView;

    open spec fn model(&self) -> DocView {
        self.0@
    }
}

impl FromMd for Markdown {
    open spec fn parsed(md: DocView) -> Result<DocView, StructuralError> {
        Ok(md)
    }

    fn parse(md: DocNode) -> (r: Result<Self, StructuralError>) {
        Ok(Markdown(md))
    }
}

impl DisplayMd for Markdown {
    open spec fn rendered(record: DocView) -> Result<DocView, StructuralError> {
        Ok(record)
    }

    fn fmt(&self) -> (r: Result<DocNode, StructuralError>) {
        Ok(self.0.duplicate())
    }
}

impl Markdown {
    /// Reads a text as markdown.
    pub fn from_str(s: &str) -> (r: Result<Markdown, StructuralError>)
        ensures
            match crate::tree::markdown_tree(s@, false) {
                Some(tree) => r matches Ok(block) && block.model() == tree,
                None => r == Err::<Markdown, StructuralError>(StructuralError::Syntax),
            },
    {
        match crate::tree::parse_document(s, false) {
            Ok(node) => Ok(Markdown(node)),
            Err(e) => Err(e),
        }
    }

    /// The text of the block, without its markup.
    pub fn text(&self) -> (r: String)
        ensures
            r@ == crate::tree::text_of(self.model()),
    {
        self.0.text()
    }

    /// A copy of the block.
    pub fn duplicate(&self) -> (r: Markdown)
        ensures
            r.model() == self.model(),
    {
        Markdown(self.0.duplicate())
    }
}

/// Reading a text block and writing it back gives the tree that was read.
pub proof fn markdown_round_trip(md: DocView)
    ensures
        Markdown::parsed(md) matches Ok(block) && Markdown::rendered(block) == Ok::<
            DocView,
            StructuralError,
        >(md),
{
}

/// Two readings of one tree give the same record, or the same error.
pub proof fn same_tree_same_record<T: FromMd>(
    md: DocView,
    first: Result<T, StructuralError>,
    second: Result<T, StructuralError>,
)
    requires
        model_of(first) == T::parsed(md),
        model_of(second) == T::parsed(md),
    ensures
        model_of(first) == model_of(second),
{
}

/// Two writings of one record give the same tree, or the same error.
pub proof fn same_record_same_tree<T: DisplayMd>(
    record: T::Model,
    first: Result<DocNode, StructuralError>,
    second: Result<DocNode, StructuralError>,
)
    requires
        view_of(first) == T::rendered(record),
        view_of(second) == T::rendered(record),
    ensures
        view_of(first) == view_of(second),
{
}

} // verus!
