//! Recipes: a metadata record, a description, steps and notes.

use vstd::prelude::*;
use vstd::string::{StrSliceExecFns, StringExecFns};
use crate::error::StructuralError;
use crate::freshness::Timestamp;
use crate::ingredient::Ingredient;
use crate::parsers::{FromMd, Markdown, Modeled};
use crate::tree::{DocNode, DocView};

verus! {

/// Whether a flag is down.
pub fn is_false(b: &bool) -> (r: bool)
    ensures
        r == !*b,
{
    !*b
}

/// The part of a recipe that a node belongs to.
#[derive(Debug, PartialEq, Eq, Clone, Copy)]
pub enum Bucket {
    /// What stands before the first heading.
    Description,
    /// What stands under the heading "Preparation".
    Steps,
    /// What stands under the heading "Notes".
    Notes,
    /// What stands under any other level-1 heading, and is left out.
    Dropped,
}

/// The part that a level-1 heading opens, given what the heading holds: the
/// heading has to hold one text and nothing else, and the text, without the
/// white space around it, has to be the name of the part.
pub open spec fn bucket_under(title: Seq<DocView>) -> Bucket {
    if title.len() == 1 && title[0] is Text {
        let text = crate::grammar::trimmed(title[0]->Text_value);
        if text == "Preparation"@ {
            Bucket::Steps
        } else if text == "Notes"@ {
            Bucket::Notes
        } else {
            Bucket::Dropped
        }
    } else {
        Bucket::Dropped
    }
}

/// The nodes of a recipe, part by part, and the part that is open.
pub struct Buckets {
    pub description: Seq<DocView>,
    pub steps: Seq<DocView>,
    pub notes: Seq<DocView>,
    pub open: Bucket,
}

/// The parts of a run of nodes, read from left to right: a level-1 heading
/// opens the part that it names, any other node joins the part that is open.
/// The description is open at the start.
pub open spec fn partition(nodes: Seq<DocView>) -> Buckets
    decreases nodes.len(),
{
    if nodes.len() == 0 {
        Buckets {
            description: Seq::empty(),
            steps: Seq::empty(),
            notes: Seq::empty(),
            open: Bucket::Description,
        }
    } else {
        let before = partition(nodes.drop_last());
        let node = nodes.last();
        if crate::title_separated_list::is_section_heading(node) {
            Buckets { open: bucket_under(crate::tree::children_of(node).unwrap()), ..before }
        } else {
            match before.open {
                Bucket::Description => Buckets {
                    description: before.description.push(node),
                    ..before
                },
                Bucket::Steps => Buckets { steps: before.steps.push(node), ..before },
                Bucket::Notes => Buckets { notes: before.notes.push(node), ..before },
                Bucket::Dropped => before,
            }
        }
    }
}

/// Whether a node is a level-1 heading that names no part of a recipe, so
/// that what stands under it is left out.
pub open spec fn is_unrecognized(node: DocView) -> bool {
    crate::title_separated_list::is_section_heading(node) && bucket_under(
        crate::tree::children_of(node).unwrap(),
    ) == Bucket::Dropped
}

/// The texts of the level-1 headings of a run of nodes that name no part of
/// a recipe, in order.
pub open spec fn unrecognized_in(nodes: Seq<DocView>) -> Seq<Seq<char>>
    decreases nodes.len(),
{
    if nodes.len() == 0 {
        Seq::empty()
    } else if is_unrecognized(nodes.last()) {
        unrecognized_in(nodes.drop_last()).push(crate::tree::text_of(nodes.last()))
    } else {
        unrecognized_in(nodes.drop_last())
    }
}

/// The values of texts, in order.
pub open spec fn view_texts(texts: Seq<String>) -> Seq<Seq<char>> {
    Seq::new(texts.len(), |i: int| texts[i]@)
}

/// The headings of a recipe under which the content is left out: the texts
/// of the level-1 headings among the children of the tree that name no part
/// of a recipe. A tree that holds no sequence has none.
pub fn unrecognized_headings(md: &DocNode) -> (r: Vec<String>)
    ensures
        view_texts(r@) == match crate::tree::children_of(md@) {
            Some(nodes) => unrecognized_in(nodes),
            None => Seq::empty(),
        },
{
    let mut titles: Vec<String> = Vec::new();
    let nodes = match md.children() {
        Some(nodes) => nodes,
        None => {
            assert(view_texts(titles@) =~= Seq::empty());
            return titles;
        },
    };
    let ghost all = crate::tree::view_nodes(nodes@);
    let mut i: usize = 0;
    while i < nodes.len()
        invariant
            i <= nodes.len(),
            all == crate::tree::view_nodes(nodes@),
            view_texts(titles@) == unrecognized_in(all.take(i as int)),
        decreases nodes.len() - i,
    {
        let ghost had = view_texts(titles@);
        proof {
            assert(all.take(i + 1).drop_last() =~= all.take(i as int));
            assert(all.take(i + 1).last() == nodes@[i as int]@);
        }
        match &nodes[i] {
            DocNode::Heading { depth, children } => {
                if *depth == 1 {
                    match bucket_for(children) {
                        Bucket::Dropped => {
                            titles.push(nodes[i].text());
                            assert(view_texts(titles@) =~= had.push(
                                crate::tree::text_of(nodes@[i as int]@),
                            ));
                        },
                        _ => {},
                    }
                }
            },
            _ => {},
        }
        i += 1;
    }
    assert(all.take(i as int) =~= all);
    titles
}

/// The steps that the nodes under "Preparation" hold: the items of the one
/// ordered list that starts at 1; `None` where the nodes are anything else.
pub open spec fn steps_in(nodes: Seq<DocView>) -> Option<Seq<DocView>> {
    if nodes.len() == 1 {
        match nodes[0] {
            DocView::List { ordered: true, start: Some(first), children, .. } => if first == 1 {
                Some(children)
            } else {
                None
            },
            _ => None,
        }
    } else {
        None
    }
}

/// The notes that the nodes under "Notes" hold: the items of the one
/// unordered list; `None` where the nodes are anything else.
pub open spec fn notes_in(nodes: Seq<DocView>) -> Option<Seq<DocView>> {
    if nodes.len() == 1 {
        match nodes[0] {
            DocView::List { ordered: false, children, .. } => Some(children),
            _ => None,
        }
    } else {
        None
    }
}

/// The body of a recipe: its description, its steps and its notes.
#[derive(Debug, PartialEq, Eq)]
pub struct HumanContent {
    pub descr: Markdown,
    pub preparazione: Vec<Markdown>,
    pub modifiche_e_aggiunte: Vec<Markdown>,
}

/// The mathematical value of a [`HumanContent`].
pub struct HumanContentModel {
    pub descr: DocView,
    pub preparazione: Seq<DocView>,
    pub modifiche_e_aggiunte: Seq<DocView>,
}

/// The values of text blocks, in order.
pub open spec fn blocks_model(blocks: Seq<Markdown>) -> Seq<DocView> {
    Seq::new(blocks.len(), |i: int| blocks[i].model())
}

impl Modeled for HumanContent {
    type Model = HumanContentModel;

    open spec fn model(&self) -> HumanContentModel {
        HumanContentModel {
            descr: self.descr.model(),
            preparazione: blocks_model(self.preparazione@),
            modifiche_e_aggiunte: blocks_model(self.modifiche_e_aggiunte@),
        }
    }
}

/// Whether a text, without the white space around it, is a given word.
pub fn trimmed_is(text: &str, word: &str) -> (r: bool)
    ensures
        r == (crate::grammar::trimmed(text@) == word@),
{
    let all = crate::ingredient::chars_of(text);
    let start = crate::ingredient::skip_spaces_in(&all, 0);
    let end = crate::ingredient::trim_end_in(&all, all.len());
    let n = word.unicode_len();
    if start >= end {
        assert(n == 0 ==> word@ =~= Seq::<char>::empty());
        return n == 0;
    }
    let ghost body = crate::grammar::trimmed(text@);
    if end - start != n {
        return false;
    }
    let mut i: usize = 0;
    while i < n
        invariant
            i <= n,
            n == word@.len(),
            n == end - start,
            start < end <= all.len(),
            all@ == text@,
            body == text@.subrange(start as int, end as int),
            body == crate::grammar::trimmed(text@),
            forall|k: int| 0 <= k < i ==> body[k] == word@[k],
        decreases n - i,
    {
        if all[start + i] != word.get_char(i) {
            return false;
        }
        i += 1;
    }
    assert(body =~= word@);
    true
}

/// The part that a level-1 heading opens, given what the heading holds.
pub fn bucket_for(title: &Vec<DocNode>) -> (r: Bucket)
    ensures
        r == bucket_under(crate::tree::view_nodes(title@)),
{
    if title.len() != 1 {
        return Bucket::Dropped;
    }
    match &title[0] {
        DocNode::Text { value } => {
            if trimmed_is(value.as_str(), "Preparation") {
                Bucket::Steps
            } else if trimmed_is(value.as_str(), "Notes") {
                Bucket::Notes
            } else {
                Bucket::Dropped
            }
        },
        _ => Bucket::Dropped,
    }
}

/// Every node as a text block of its own, in order.
pub fn blocks_of(nodes: Vec<DocNode>) -> (r: Vec<Markdown>)
    ensures
        blocks_model(r@) == crate::tree::view_nodes(nodes@),
{
    let ghost given = nodes@;
    let mut blocks: Vec<Markdown> = Vec::new();
    for node in it: nodes
        invariant
            it.seq() == given,
            blocks@.len() == it.index(),
            forall|k: int| 0 <= k < blocks@.len() ==> blocks@[k].model() == given[k]@,
    {
        blocks.push(Markdown(node));
    }
    blocks
}

/// The items of the one list that a part holds, where the list is of the
/// kind that is asked for: ordered from 1, or unordered.
pub fn items_of(mut nodes: Vec<DocNode>, ordered_from_one: bool) -> (r: Option<Vec<DocNode>>)
    ensures
        match (if ordered_from_one {
            steps_in(crate::tree::view_nodes(nodes@))
        } else {
            notes_in(crate::tree::view_nodes(nodes@))
        }) {
            Some(items) => r matches Some(found) && crate::tree::view_nodes(found@) == items,
            None => r is None,
        },
{
    if nodes.len() != 1 {
        return None;
    }
    match nodes.pop() {
        Some(DocNode::List { ordered, start, children, .. }) => {
            if ordered_from_one {
                match start {
                    Some(first) => if ordered && first == 1 {
                        Some(children)
                    } else {
                        None
                    },
                    None => None,
                }
            } else if !ordered {
                Some(children)
            } else {
                None
            }
        },
        _ => None,
    }
}

impl FromMd for HumanContent {
    /// The tree has to be a sequence. Its nodes are sorted into description,
    /// preparation and notes; the preparation has to be one ordered list that
    /// starts at 1, the notes one unordered list. Every item of the two lists
    /// is a text block of its own.
    open spec fn parsed(md: DocView) -> Result<HumanContentModel, StructuralError> {
        match crate::tree::children_of(md) {
            None => Err(StructuralError::NotASequence),
            Some(nodes) => {
                let parts = partition(nodes);
                match steps_in(parts.steps) {
                    None => Err(StructuralError::InvalidStepsShape),
                    Some(steps) => match notes_in(parts.notes) {
                        None => Err(StructuralError::InvalidNotesShape),
                        Some(notes) => Ok(
                            HumanContentModel {
                                descr: DocView::Root { children: parts.description },
                                preparazione: steps,
                                modifiche_e_aggiunte: notes,
                            },
                        ),
                    },
                }
            },
        }
    }

    fn parse(md: DocNode) -> (r: Result<Self, StructuralError>) {
        let nodes = match md.into_children() {
            Ok(nodes) => nodes,
            Err(_) => {
                return Err(StructuralError::NotASequence);
            },
        };
        let ghost all = crate::tree::view_nodes(nodes@);
        let ghost given = nodes@;
        let mut description: Vec<DocNode> = Vec::new();
        let mut steps: Vec<DocNode> = Vec::new();
        let mut notes: Vec<DocNode> = Vec::new();
        let mut open = Bucket::Description;
        for node in it: nodes
            invariant
                it.seq() == given,
                all == crate::tree::view_nodes(given),
                partition(all.take(it.index() as int)).description == crate::tree::view_nodes(
                    description@,
                ),
                partition(all.take(it.index() as int)).steps == crate::tree::view_nodes(steps@),
                partition(all.take(it.index() as int)).notes == crate::tree::view_nodes(notes@),
                partition(all.take(it.index() as int)).open == open,
        {
            let ghost at = it.index() as int;
            proof {
                assert(all.take(at + 1).drop_last() =~= all.take(at));
            }
            match node {
                DocNode::Heading { depth: 1, children } => {
                    open = bucket_for(&children);
                },
                other => {
                    match open {
                        Bucket::Description => {
                            description.push(other);
                        },
                        Bucket::Steps => {
                            steps.push(other);
                        },
                        Bucket::Notes => {
                            notes.push(other);
                        },
                        Bucket::Dropped => {},
                    }
                },
            }
        }
        proof {
            assert(all.take(all.len() as int) =~= all);
        }
        let descr = Markdown(DocNode::Root { children: description });
        let preparazione = match items_of(steps, true) {
            Some(items) => blocks_of(items),
            None => {
                return Err(StructuralError::InvalidStepsShape);
            },
        };
        let modifiche_e_aggiunte = match items_of(notes, false) {
            Some(items) => blocks_of(items),
            None => {
                return Err(StructuralError::InvalidNotesShape);
            },
        };
        Ok(HumanContent { descr, preparazione, modifiche_e_aggiunte })
    }
}

/// A recipe is read only if what stands under "Preparation" is one ordered
/// list that starts at 1: an unordered list there is refused, whatever the
/// rest of the recipe holds.
pub proof fn preparation_must_be_ordered(md: DocView)
    requires
        crate::tree::children_of(md) is Some,
    ensures
        steps_in(partition(crate::tree::children_of(md).unwrap()).steps) is None
            ==> HumanContent::parsed(md) == Err::<HumanContentModel, StructuralError>(
            StructuralError::InvalidStepsShape,
        ),
        (partition(crate::tree::children_of(md).unwrap()).steps.len() == 1 && partition(
            crate::tree::children_of(md).unwrap(),
        ).steps[0] matches DocView::List { ordered: false, .. }) ==> HumanContent::parsed(md)
            == Err::<HumanContentModel, StructuralError>(StructuralError::InvalidStepsShape),
        HumanContent::parsed(md) matches Ok(content) ==> steps_in(
            partition(crate::tree::children_of(md).unwrap()).steps,
        ) == Some(content.preparazione),
{
}

/// A span of time: whole seconds, and the nanoseconds that follow them.
#[derive(Debug, PartialEq, Eq, Clone, Copy)]
pub struct Duration {
    pub secs: u64,
    pub nanos: u32,
}

/// The metadata record of a recipe.
#[derive(Debug, PartialEq, Eq)]
pub struct HumanHeader {
    pub name: Markdown,
    pub time: Duration,
    pub ingredients: Vec<Ingredient>,
    pub tools: Vec<Markdown>,
    pub tags: Vec<String>,
}

/// A recipe, as it was loaded.
#[derive(Debug, PartialEq, Eq)]
pub struct Recipe {
    pub name: Markdown,
    pub time: Duration,
    pub ingredients: Vec<Ingredient>,
    pub tools: Vec<Markdown>,
    pub tags: Vec<String>,
    pub modified: Option<Timestamp>,
    pub descr: Markdown,
    pub preparazione: Vec<Markdown>,
    pub modifiche_e_aggiunte: Vec<Markdown>,
}

impl Recipe {
    /// Puts a recipe together from its metadata record, its body and the
    /// time at which its file was last modified.
    pub fn assemble(metas: HumanHeader, content: HumanContent, modified: Option<Timestamp>) -> (r:
        Recipe)
        ensures
            r.name == metas.name,
            r.time == metas.time,
            r.ingredients == metas.ingredients,
            r.tools == metas.tools,
            r.tags == metas.tags,
            r.modified == modified,
            r.descr == content.descr,
            r.preparazione == content.preparazione,
            r.modifiche_e_aggiunte == content.modifiche_e_aggiunte,
    {
        Recipe {
            name: metas.name,
            time: metas.time,
            ingredients: metas.ingredients,
            tools: metas.tools,
            tags: metas.tags,
            modified,
            descr: content.descr,
            preparazione: content.preparazione,
            modifiche_e_aggiunte: content.modifiche_e_aggiunte,
        }
    }

    /// When the recipe was last modified, if that is known.
    #[must_use]
    pub fn modified(&self) -> (r: Option<Timestamp>)
        ensures
            r == self.modified,
    {
        self.modified
    }
}

/// The key of the recipe that a file holds: the name of the file without
/// its ending `.md`. A file with another ending holds no recipe.
pub open spec fn key_of(file_name: Seq<char>) -> Option<Seq<char>> {
    let n = file_name.len() as int;
    if n >= 3 && file_name[n - 3] == '.' && file_name[n - 2] == 'm' && file_name[n - 1] == 'd' {
        Some(file_name.subrange(0, n - 3))
    } else {
        None
    }
}

/// The key of the recipe that a file holds.
pub fn recipe_key(file_name: &str) -> (r: Option<String>)
    ensures
        crate::ingredient::view_opt(r) == key_of(file_name@),
{
    let n = file_name.unicode_len();
    if n >= 3 && file_name.get_char(n - 3) == '.' && file_name.get_char(n - 2) == 'm'
        && file_name.get_char(n - 1) == 'd' {
        Some(String::from_str(file_name.substring_char(0, n - 3)))
    } else {
        None
    }
}

} // verus!
