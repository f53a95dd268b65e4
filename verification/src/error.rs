//! The ways in which a document can break the convention.

use vstd::prelude::*;

verus! {

/// Which half of a section an error was met in.
#[derive(Debug, PartialEq, Eq, Clone, Copy)]
pub enum SectionPart {
    Title,
    Content,
}

/// A violation of the document convention.
#[derive(Debug, PartialEq, Eq)]
pub enum StructuralError {
    /// The text is no document at all.
    Syntax,
    /// A node that had to hold a sequence of children holds none.
    NotASequence,
    /// The tree holds no metadata block.
    MissingMetadata,
    /// The tree holds more than one metadata block.
    DuplicateMetadata,
    /// The metadata block does not follow its schema.
    MetadataSchemaError { cause: Box<StructuralError> },
    /// A decoder's own words on what it could not read.
    Schema { message: String },
    /// What stands beside the metadata block could not be read or written.
    Content { cause: Box<StructuralError> },
    /// The first child of a sectioned tree is no level-1 heading.
    MissingLeadingHeading,
    /// A section could not be read or written; `index` counts from 0.
    Section { index: usize, part: SectionPart, cause: Box<StructuralError> },
    /// The preparation of a recipe is not one ordered list that starts at 1.
    InvalidStepsShape,
    /// The notes of a recipe are not one unordered list.
    InvalidNotesShape,
    /// An ingredient line holds no name.
    EmptyIngredientName,
}

} // verus!
