//! The rules of the book: a title and a list of headed paragraphs.

use vstd::prelude::*;
use crate::error::{SectionPart, StructuralError};
use crate::parsers::{FromMd, Markdown, Modeled};
use crate::title_separated_list::{Item, TitleSeparatedList};
use crate::tree::{DocNode, DocView};

verus! {

/// One rule: what its heading says, and what stands below the heading.
#[derive(Debug, PartialEq, Eq)]
pub struct Rule {
    pub title: Markdown,
    pub descr: Markdown,
}

/// The rules under their common title.
#[derive(Debug, PartialEq, Eq)]
pub struct Zen {
    pub title: Markdown,
    pub rules: Vec<Rule>,
}

/// The values of rules, as the sections that they were read from.
pub open spec fn rules_model(rules: Seq<Rule>) -> Seq<Item<DocView, DocView>> {
    Seq::new(
        rules.len(),
        |i: int| Item { title: rules[i].title.model(), content: rules[i].descr.model() },
    )
}

/// The rules that a tree holds: its sections, where it is a sequence that is
/// empty or starts with a level-1 heading.
pub open spec fn rules_of(body: DocView) -> Result<Seq<Item<DocView, DocView>>, StructuralError> {
    match crate::tree::children_of(body) {
        None => Err(StructuralError::NotASequence),
        Some(nodes) => if crate::title_separated_list::starts_with_heading(nodes) {
            Ok(crate::title_separated_list::sections_of(nodes))
        } else {
            Err(StructuralError::MissingLeadingHeading)
        },
    }
}

/// Text blocks are read as they are: every tree gives its record.
pub proof fn lemma_text_blocks_read_as_given(trees: Seq<DocView>, part: SectionPart)
    ensures
        crate::title_separated_list::parse_each::<Markdown>(trees, part) == Ok::<
            Seq<DocView>,
            StructuralError,
        >(trees),
    decreases trees.len(),
{
    if trees.len() > 0 {
        lemma_text_blocks_read_as_given(trees.drop_last(), part);
        assert(trees.drop_last().push(trees.last()) =~= trees);
    } else {
        assert(trees =~= Seq::empty());
    }
}

/// A list of text blocks under text titles is the sections of the tree.
pub proof fn lemma_text_sections(body: DocView)
    ensures
        TitleSeparatedList::<Markdown, Markdown>::parsed(body) == rules_of(body),
{
    if let Some(nodes) = crate::tree::children_of(body) {
        let sections = crate::title_separated_list::sections_of(nodes);
        let titles = crate::title_separated_list::titles_of(sections);
        let contents = crate::title_separated_list::contents_of(sections);
        lemma_text_blocks_read_as_given(titles, SectionPart::Title);
        lemma_text_blocks_read_as_given(contents, SectionPart::Content);
        assert(crate::title_separated_list::zip_items(titles, contents) =~= sections);
    }
}

impl Zen {
    /// Puts the rules together from the title that the metadata block gives
    /// and from the tree without the block: the title is read as markdown,
    /// each section of the tree is a rule.
    pub fn assemble(title: &str, body: DocNode) -> (r: Result<Zen, StructuralError>)
        ensures
            match crate::tree::markdown_tree(title@, false) {
                None => r == Err::<Zen, StructuralError>(StructuralError::Syntax),
                Some(tree) => match rules_of(body@) {
                    Err(e) => r == Err::<Zen, StructuralError>(e),
                    Ok(sections) => r matches Ok(zen) && zen.title.model() == tree && rules_model(
                        zen.rules@,
                    ) == sections,
                },
            },
    {
        let title = match Markdown::from_str(title) {
            Ok(title) => title,
            Err(e) => {
                return Err(e);
            },
        };
        proof {
            lemma_text_sections(body@);
        }
        let list = match TitleSeparatedList::<Markdown, Markdown>::parse(body) {
            Ok(list) => list,
            Err(e) => {
                return Err(e);
            },
        };
        let ghost given = list.items@;
        let mut rules: Vec<Rule> = Vec::new();
        for item in it: list.items
            invariant
                it.seq() == given,
                rules@.len() == it.index(),
                forall|k: int|
                    0 <= k < rules@.len() ==> rules@[k].title.model() == given[k].title.model()
                        && rules@[k].descr.model() == given[k].content.model(),
        {
            rules.push(Rule { title: item.title, descr: item.content });
        }
        Ok(Zen { title, rules })
    }
}

} // verus!
