//! Typed records out of heading-driven markdown documents, and back.
//!
//! A book is kept as a directory of loosely structured texts: a metadata
//! block at the top, then prose under headings. This library turns the tree
//! of such a text into records, and records back into trees:
//!
//! - [`tree`] holds the document tree and turns a text into it;
//! - [`parsers`] holds the two-way contract between trees and records, and
//!   the text block, which is read and written as it is;
//! - [`headed_md`] takes the metadata block out of a tree;
//! - [`title_separated_list`] cuts a tree into sections at its level-1
//!   headings;
//! - [`grammar`] says how an ingredient line is read, and [`ingredient`]
//!   reads it;
//! - [`recipe`], [`zen`] and [`book`] put the records of the book together;
//! - [`freshness`] says when a whole was last modified, given its parts;
//! - [`frontends`] names the outputs;
//! - [`error`] names what can be wrong with a document.
//!
//! The functions state what they return over the mathematical value of their
//! arguments, and are proved to return it. What rests on the markdown parser
//! alone is said so where it stands.

pub mod book;
pub mod error;
pub mod freshness;
pub mod frontends;
pub mod grammar;
pub mod headed_md;
pub mod ingredient;
pub mod parsers;
pub mod recipe;
pub mod title_separated_list;
pub mod tree;
pub mod zen;
