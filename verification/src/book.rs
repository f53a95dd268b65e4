//! The book: its front matter and its introduction.

use vstd::prelude::*;
use crate::freshness::Timestamp;
use crate::headed_md::HeadedMarkdown;
use crate::parsers::Markdown;
use crate::title_separated_list::TitleSeparatedList;

verus! {

/// `serde_email::Email`, an address that was checked when it was decoded. It
/// is carried through as it is; nothing is said of what it holds.
#[verifier::external_type_specification]
#[verifier::external_body]
pub struct ExEmail(serde_email::Email);

/// `url::Url`, a location that was checked when it was decoded. It is
/// carried through as it is; nothing is said of what it holds.
#[verifier::external_type_specification]
#[verifier::external_body]
pub struct ExUrl(url::Url);

/// What stands on the first pages of the book.
#[derive(Debug, PartialEq, Eq)]
pub struct FrontMatter {
    pub title: Markdown,
    pub subtitle: Markdown,
    pub author: String,
    pub email: serde_email::Email,
    pub site: url::Url,
    pub modified: Option<Timestamp>,
}

impl FrontMatter {
    /// When the front matter was last modified, if that is known.
    #[must_use]
    pub fn modified(&self) -> (r: Option<Timestamp>)
        ensures
            r == self.modified,
    {
        self.modified
    }
}

/// The metadata record of a part of the introduction.
#[derive(Debug, PartialEq, Eq)]
pub struct Metas {
    pub title: Markdown,
    pub modified: Option<Timestamp>,
}

impl Metas {
    /// The record with the time at which its file was last modified in place
    /// of the time that the record itself gave, and whether it gave one.
    pub fn stamped(self, loaded: Option<Timestamp>) -> (r: (Metas, bool))
        ensures
            r.0.title == self.title,
            r.0.modified == loaded,
            r.1 == self.modified is Some,
    {
        let declared = self.modified.is_some();
        (Metas { title: self.title, modified: loaded }, declared)
    }
}

/// A part of the introduction with the time at which its file was last
/// modified in place of the time that its metadata gave, and whether it gave
/// one.
pub fn stamp<T>(part: HeadedMarkdown<Metas, T>, loaded: Option<Timestamp>) -> (r: (
    HeadedMarkdown<Metas, T>,
    bool,
))
    ensures
        r.0.metas.title == part.metas.title,
        r.0.metas.modified == loaded,
        r.0.content == part.content,
        r.1 == part.metas.modified is Some,
{
    let (metas, declared) = part.metas.stamped(loaded);
    (HeadedMarkdown { metas, content: part.content }, declared)
}

/// The four parts of the introduction.
#[derive(Debug, PartialEq, Eq)]
pub struct Introduction {
    pub zen: HeadedMarkdown<Metas, TitleSeparatedList<Markdown, Markdown>>,
    pub prologue: HeadedMarkdown<Metas, Markdown>,
    pub warnings: HeadedMarkdown<Metas, TitleSeparatedList<Markdown, Markdown>>,
    pub thanks: HeadedMarkdown<Metas, Markdown>,
}

impl Introduction {
    /// The freshness of the four parts, as a run.
    pub open spec fn parts(&self) -> Seq<Option<Timestamp>> {
        seq![
            self.zen.metas.modified,
            self.prologue.metas.modified,
            self.warnings.metas.modified,
            self.thanks.metas.modified,
        ]
    }

    /// When the introduction was last modified: the latest of its parts,
    /// unknown where one of them is.
    #[must_use]
    pub fn modified(&self) -> (r: Option<Timestamp>)
        ensures
            r == crate::freshness::freshness(self.parts()),
    {
        let parts = [
            self.zen.metas.modified,
            self.prologue.metas.modified,
            self.warnings.metas.modified,
            self.thanks.metas.modified,
        ];
        crate::freshness::aggregate(parts.as_slice())
    }
}

/// The book.
#[derive(Debug, PartialEq, Eq)]
pub struct Book {
    pub front_matter: FrontMatter,
    pub introduction: Introduction,
}

impl Book {
    /// When the book was last modified: the later of its front matter and
    /// its introduction, unknown where one of them is.
    pub fn modified(&self) -> (r: Option<Timestamp>)
        ensures
            r == crate::freshness::freshness(
                seq![
                    self.front_matter.modified,
                    crate::freshness::freshness(self.introduction.parts()),
                ],
            ),
    {
        let parts = [self.front_matter.modified(), self.introduction.modified()];
        crate::freshness::aggregate(parts.as_slice())
    }
}

} // verus!
