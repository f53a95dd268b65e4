//! A document cut into sections at its level-1 headings.

use vstd::prelude::*;
use crate::error::{SectionPart, StructuralError};
use crate::parsers::{DisplayMd, FromMd, Modeled};
use crate::tree::{DocNode, DocView};

verus! {

/// One section: what its heading says, and what stands below the heading.
#[derive(Debug, PartialEq, Eq)]
pub struct Item<Title, Content> {
    pub title: Title,
    pub content: Content,
}

/// The sections of a document, in document order.
#[derive(Debug, PartialEq, Eq)]
pub struct TitleSeparatedList<Title, Content> {
    pub items: Vec<Item<Title, Content>>,
}

/// Whether a node opens a section.
pub open spec fn is_section_heading(node: DocView) -> bool {
    node matches DocView::Heading { depth, .. } && depth == 1
}

/// The section that a heading opens: its children as the title, nothing below
/// it yet.
pub open spec fn opened_by(heading: DocView) -> Item<DocView, DocView> {
    Item {
        title: DocView::Root { children: crate::tree::children_of(heading).unwrap() },
        content: DocView::Root { children: Seq::empty() },
    }
}

/// A section with one more node below its heading.
pub open spec fn extended_by(section: Item<DocView, DocView>, node: DocView) -> Item<
    DocView,
    DocView,
> {
    Item {
        title: section.title,
        content: DocView::Root {
            children: crate::tree::children_of(section.content).unwrap().push(node),
        },
    }
}

/// The sections of a run of nodes, read from left to right: a level-1 heading
/// opens a section, any other node joins the section that is open. A node
/// before the first heading belongs to no section.
pub open spec fn sections_of(nodes: Seq<DocView>) -> Seq<Item<DocView, DocView>>
    decreases nodes.len(),
{
    if nodes.len() == 0 {
        Seq::empty()
    } else {
        let before = sections_of(nodes.drop_last());
        let node = nodes.last();
        if is_section_heading(node) {
            before.push(opened_by(node))
        } else if before.len() == 0 {
            before
        } else {
            before.update(before.len() - 1, extended_by(before.last(), node))
        }
    }
}

/// Whether a run of nodes can be cut into sections: it is empty or starts
/// with a level-1 heading.
pub open spec fn starts_with_heading(nodes: Seq<DocView>) -> bool {
    nodes.len() == 0 || is_section_heading(nodes[0])
}

/// The values of raw sections.
pub open spec fn view_sections(sections: Seq<Item<DocNode, DocNode>>) -> Seq<
    Item<DocView, DocView>,
> {
    Seq::new(
        sections.len(),
        |i: int| Item { title: sections[i].title@, content: sections[i].content@ },
    )
}

/// The value of the section that is still open while the nodes are read.
pub open spec fn open_section(section: Item<DocNode, Vec<DocNode>>) -> Item<DocView, DocView> {
    Item {
        title: section.title@,
        content: DocView::Root { children: crate::tree::view_nodes(section.content@) },
    }
}

/// Cuts a run of nodes into sections at its level-1 headings.
pub fn split_sections(nodes: Vec<DocNode>) -> (r: Result<
    Vec<Item<DocNode, DocNode>>,
    StructuralError,
>)
    ensures
        starts_with_heading(crate::tree::view_nodes(nodes@)) ==> (r matches Ok(sections)
            && view_sections(sections@) == sections_of(crate::tree::view_nodes(nodes@))),
        !starts_with_heading(crate::tree::view_nodes(nodes@)) ==> r == Err::<
            Vec<Item<DocNode, DocNode>>,
            StructuralError,
        >(StructuralError::MissingLeadingHeading),
{
    let ghost all = crate::tree::view_nodes(nodes@);
    let mut sections: Vec<Item<DocNode, DocNode>> = Vec::new();
    let mut open: Option<Item<DocNode, Vec<DocNode>>> = None;
    for node in it: nodes
        invariant
            it.seq().len() == all.len(),
            forall|k: int| 0 <= k < all.len() ==> it.seq()[k]@ == all[k],
            it.index() > 0 ==> is_section_heading(all[0]),
            it.index() > 0 ==> open is Some,
            open is None ==> sections@.len() == 0,
            open matches Some(section) ==> (sections_of(all.take(it.index() as int))
                == view_sections(sections@).push(open_section(section))),
    {
        let ghost at = it.index() as int;
        let ghost value = node@;
        proof {
            assert(all.take(at + 1).drop_last() =~= all.take(at));
        }
        match node {
            DocNode::Heading { depth: 1, children } => {
                match open {
                    Some(section) => {
                        sections.push(
                            Item {
                                title: section.title,
                                content: DocNode::Root { children: section.content },
                            },
                        );
                    },
                    None => {},
                }
                let fresh = Item { title: DocNode::Root { children }, content: Vec::new() };
                proof {
                    assert(crate::tree::view_nodes(fresh.content@) =~= Seq::empty());
                    if at == 0 {
                        assert(sections_of(all.take(at)) =~= Seq::empty());
                    }
                }
                open = Some(fresh);
            },
            other => {
                match open {
                    Some(mut section) => {
                        let ghost was = open_section(section);
                        section.content.push(other);
                        proof {
                            assert(crate::tree::view_nodes(section.content@)
                                =~= crate::tree::children_of(was.content).unwrap().push(value));
                        }
                        open = Some(section);
                    },
                    None => {
                        return Err(StructuralError::MissingLeadingHeading);
                    },
                }
            },
        }
    }
    proof {
        assert(all.take(all.len() as int) =~= all);
    }
    match open {
        Some(section) => {
            sections.push(
                Item { title: section.title, content: DocNode::Root { children: section.content } },
            );
        },
        None => {},
    }
    Ok(sections)
}

/// The titles of raw sections, in order.
pub open spec fn titles_of(sections: Seq<Item<DocView, DocView>>) -> Seq<DocView> {
    Seq::new(sections.len(), |i: int| sections[i].title)
}

/// What stands below the headings of raw sections, in order.
pub open spec fn contents_of(sections: Seq<Item<DocView, DocView>>) -> Seq<DocView> {
    Seq::new(sections.len(), |i: int| sections[i].content)
}

/// Titles and contents put together pair by pair.
pub open spec fn zip_items<T, C>(titles: Seq<T>, contents: Seq<C>) -> Seq<Item<T, C>> {
    Seq::new(titles.len(), |i: int| Item { title: titles[i], content: contents[i] })
}

/// The error of a section, with its place.
pub open spec fn in_section(
    index: int,
    part: SectionPart,
    cause: StructuralError,
) -> StructuralError {
    StructuralError::Section { index: index as usize, part, cause: Box::new(cause) }
}

/// Every tree read in turn: all the records, or the error of the first tree
/// that cannot be read, with its place.
pub open spec fn parse_each<T: FromMd>(trees: Seq<DocView>, part: SectionPart) -> Result<
    Seq<T::Model>,
    StructuralError,
>
    decreases trees.len(),
{
    if trees.len() == 0 {
        Ok(Seq::empty())
    } else {
        match parse_each::<T>(trees.drop_last(), part) {
            Err(e) => Err(e),
            Ok(before) => match T::parsed(trees.last()) {
                Err(e) => Err(in_section(trees.len() - 1, part, e)),
                Ok(record) => Ok(before.push(record)),
            },
        }
    }
}

/// An error among the first trees is the error of them all.
pub proof fn lemma_parse_each_fails_early<T: FromMd>(
    trees: Seq<DocView>,
    part: SectionPart,
    k: int,
)
    requires
        0 <= k <= trees.len(),
        parse_each::<T>(trees.take(k), part) is Err,
    ensures
        parse_each::<T>(trees, part) == parse_each::<T>(trees.take(k), part),
    decreases trees.len() - k,
{
    if k < trees.len() {
        assert(trees.take(k + 1).drop_last() =~= trees.take(k));
        lemma_parse_each_fails_early::<T>(trees, part, k + 1);
    } else {
        assert(trees.take(k) =~= trees);
    }
}

/// Where every tree can be read, there is one record for each.
pub proof fn lemma_parse_each_len<T: FromMd>(trees: Seq<DocView>, part: SectionPart)
    ensures
        parse_each::<T>(trees, part) matches Ok(records) ==> records.len() == trees.len(),
    decreases trees.len(),
{
    if trees.len() > 0 {
        lemma_parse_each_len::<T>(trees.drop_last(), part);
    }
}

/// The values of the titles of sections, in order.
pub open spec fn titles_in<T: Modeled, C>(items: Seq<Item<T, C>>) -> Seq<T::Model> {
    Seq::new(items.len(), |k: int| items[k].title.model())
}

/// The values of the contents of sections, in order.
pub open spec fn contents_in<T, C: Modeled>(items: Seq<Item<T, C>>) -> Seq<C::Model> {
    Seq::new(items.len(), |k: int| items[k].content.model())
}

impl<T: Modeled, C: Modeled> Modeled for Item<T, C> {
    type Model = Item<T::Model, C::Model>;

    open spec fn model(&self) -> Item<T::Model, C::Model> {
        Item { title: self.title.model(), content: self.content.model() }
    }
}

impl<T: Modeled, C: Modeled> Modeled for TitleSeparatedList<T, C> {
    type Model = Seq<Item<T::Model, C::Model>>;

    open spec fn model(&self) -> Seq<Item<T::Model, C::Model>> {
        Seq::new(self.items@.len(), |i: int| self.items@[i].model())
    }
}

impl<T: FromMd, C: FromMd> FromMd for TitleSeparatedList<T, C> {
    /// The tree has to be a sequence that is empty or starts with a level-1
    /// heading. The titles are read first, one after the other, then what
    /// stands below them.
    open spec fn parsed(md: DocView) -> Result<Seq<Item<T::Model, C::Model>>, StructuralError> {
        match crate::tree::children_of(md) {
            None => Err(StructuralError::NotASequence),
            Some(nodes) => if !starts_with_heading(nodes) {
                Err(StructuralError::MissingLeadingHeading)
            } else {
                let sections = sections_of(nodes);
                match parse_each::<T>(titles_of(sections), SectionPart::Title) {
                    Err(e) => Err(e),
                    Ok(titles) => match parse_each::<C>(
                        contents_of(sections),
                        SectionPart::Content,
                    ) {
                        Err(e) => Err(e),
                        Ok(contents) => Ok(zip_items(titles, contents)),
                    },
                }
            },
        }
    }

    #[verifier::loop_isolation(false)]
    fn parse(md: DocNode) -> (r: Result<Self, StructuralError>) {
        let nodes = match md.into_children() {
            Ok(nodes) => nodes,
            Err(_) => {
                return Err(StructuralError::NotASequence);
            },
        };
        let raw = match split_sections(nodes) {
            Ok(raw) => raw,
            Err(e) => {
                return Err(e);
            },
        };
        let ghost sections = view_sections(raw@);
        let ghost title_trees = titles_of(sections);
        let ghost content_trees = contents_of(sections);
        let ghost raw_sections = raw@;
        let mut titled: Vec<Item<T, DocNode>> = Vec::new();
        for section in it: raw
            invariant
                it.seq() == raw_sections,
                sections == view_sections(raw_sections),
                title_trees == titles_of(sections),
                content_trees == contents_of(sections),
                titled@.len() == it.index(),
                parse_each::<T>(title_trees.take(it.index() as int), SectionPart::Title) matches Ok(
                    records,
                ) && records =~= titles_in(titled@),
                forall|k: int| 0 <= k < titled@.len() ==> titled@[k].content@ == content_trees[k],
        {
            let ghost at = it.index() as int;
            proof {
                assert(title_trees.take(at + 1).drop_last() =~= title_trees.take(at));
            }
            match T::parse(section.title) {
                Ok(title) => {
                    titled.push(Item { title, content: section.content });
                },
                Err(e) => {
                    proof {
                        lemma_parse_each_fails_early::<T>(title_trees, SectionPart::Title, at + 1);
                    }
                    return Err(
                        StructuralError::Section {
                            index: titled.len(),
                            part: SectionPart::Title,
                            cause: Box::new(e),
                        },
                    );
                },
            }
        }
        let ghost titles = titles_in(titled@);
        let ghost halves = titled@;
        proof {
            assert(title_trees.take(sections.len() as int) =~= title_trees);
        }
        let mut items: Vec<Item<T, C>> = Vec::new();
        for half in it: titled
            invariant
                it.seq() == halves,
                halves.len() == sections.len(),
                content_trees == contents_of(sections),
                forall|k: int| 0 <= k < halves.len() ==> halves[k].content@ == content_trees[k],
                items@.len() == it.index(),
                forall|k: int|
                    0 <= k < items@.len() ==> items@[k].title.model() == halves[k].title.model(),
                parse_each::<C>(
                    content_trees.take(it.index() as int),
                    SectionPart::Content,
                ) matches Ok(records) && records =~= contents_in(items@),
        {
            let ghost at = it.index() as int;
            proof {
                assert(content_trees.take(at + 1).drop_last() =~= content_trees.take(at));
            }
            match C::parse(half.content) {
                Ok(content) => {
                    items.push(Item { title: half.title, content });
                },
                Err(e) => {
                    proof {
                        lemma_parse_each_fails_early::<C>(
                            content_trees,
                            SectionPart::Content,
                            at + 1,
                        );
                    }
                    return Err(
                        StructuralError::Section {
                            index: items.len(),
                            part: SectionPart::Content,
                            cause: Box::new(e),
                        },
                    );
                },
            }
        }
        let list = TitleSeparatedList { items };
        proof {
            assert(content_trees.take(sections.len() as int) =~= content_trees);
            assert(list.model() =~= zip_items(titles, contents_in(list.items@)));
        }
        Ok(list)
    }
}

/// The level-1 heading that is written for a rendered title.
pub open spec fn heading_over(title: DocView) -> DocView {
    DocView::Heading { depth: 1, children: seq![title] }
}

/// The nodes that a rendered content adds below its heading: its children
/// where it is a sequence, else the node itself.
pub open spec fn spliced(content: DocView) -> Seq<DocView> {
    match crate::tree::children_of(content) {
        Some(children) => children,
        None => seq![content],
    }
}

/// Every section written in turn, title before content: all the nodes, or
/// the first error, with its place.
pub open spec fn render_each<T: DisplayMd, C: DisplayMd>(
    items: Seq<Item<T::Model, C::Model>>,
) -> Result<Seq<DocView>, StructuralError>
    decreases items.len(),
{
    if items.len() == 0 {
        Ok(Seq::empty())
    } else {
        match render_each::<T, C>(items.drop_last()) {
            Err(e) => Err(e),
            Ok(before) => match T::rendered(items.last().title) {
                Err(e) => Err(in_section(items.len() - 1, SectionPart::Title, e)),
                Ok(title) => match C::rendered(items.last().content) {
                    Err(e) => Err(in_section(items.len() - 1, SectionPart::Content, e)),
                    Ok(content) => Ok(before.push(heading_over(title)) + spliced(content)),
                },
            },
        }
    }
}

/// An error among the first sections is the error of them all.
pub proof fn lemma_render_each_fails_early<T: DisplayMd, C: DisplayMd>(
    items: Seq<Item<T::Model, C::Model>>,
    k: int,
)
    requires
        0 <= k <= items.len(),
        render_each::<T, C>(items.take(k)) is Err,
    ensures
        render_each::<T, C>(items) == render_each::<T, C>(items.take(k)),
    decreases items.len() - k,
{
    if k < items.len() {
        assert(items.take(k + 1).drop_last() =~= items.take(k));
        lemma_render_each_fails_early::<T, C>(items, k + 1);
    } else {
        assert(items.take(k) =~= items);
    }
}

impl<T: DisplayMd, C: DisplayMd> DisplayMd for TitleSeparatedList<T, C> {
    /// A root that holds, for each section in order, a level-1 heading over
    /// the rendered title, then the nodes of the rendered content.
    open spec fn rendered(record: Seq<Item<T::Model, C::Model>>) -> Result<
        DocView,
        StructuralError,
    > {
        match render_each::<T, C>(record) {
            Err(e) => Err(e),
            Ok(children) => Ok(DocView::Root { children }),
        }
    }

    #[verifier::loop_isolation(false)]
    fn fmt(&self) -> (r: Result<DocNode, StructuralError>) {
        let ghost record = self.model();
        let mut children: Vec<DocNode> = Vec::new();
        let mut i: usize = 0;
        while i < self.items.len()
            invariant
                i <= self.items.len(),
                render_each::<T, C>(record.take(i as int)) matches Ok(nodes)
                    && nodes =~= crate::tree::view_nodes(children@),
            decreases self.items.len() - i,
        {
            proof {
                assert(record.take(i + 1).drop_last() =~= record.take(i as int));
            }
            let title = match self.items[i].title.fmt() {
                Ok(title) => title,
                Err(e) => {
                    proof {
                        lemma_render_each_fails_early::<T, C>(record, i + 1);
                    }
                    return Err(
                        StructuralError::Section {
                            index: i,
                            part: SectionPart::Title,
                            cause: Box::new(e),
                        },
                    );
                },
            };
            let content = match self.items[i].content.fmt() {
                Ok(content) => content,
                Err(e) => {
                    proof {
                        lemma_render_each_fails_early::<T, C>(record, i + 1);
                    }
                    return Err(
                        StructuralError::Section {
                            index: i,
                            part: SectionPart::Content,
                            cause: Box::new(e),
                        },
                    );
                },
            };
            let ghost title_tree = title@;
            let mut inner: Vec<DocNode> = Vec::new();
            inner.push(title);
            let heading = DocNode::Heading { depth: 1, children: inner };
            assert(heading@ == heading_over(title_tree)) by {
                assert(crate::tree::view_nodes(inner@) =~= seq![title_tree]);
            }
            children.push(heading);
            match content.into_children() {
                Ok(mut below) => {
                    children.append(&mut below);
                },
                Err(node) => {
                    children.push(node);
                },
            }
            i += 1;
        }
        proof {
            assert(record.take(i as int) =~= record);
        }
        Ok(DocNode::Root { children })
    }
}

/// The level-1 headings of a run of nodes, in document order.
pub open spec fn headings_of(nodes: Seq<DocView>) -> Seq<DocView> {
    nodes.filter(|node: DocView| is_section_heading(node))
}

/// The nodes that the sections stand for: for each section in order its
/// heading, then what stands below it.
pub open spec fn flattened(sections: Seq<Item<DocView, DocView>>) -> Seq<DocView>
    decreases sections.len(),
{
    if sections.len() == 0 {
        Seq::empty()
    } else {
        flattened(sections.drop_last()).push(
            DocView::Heading {
                depth: 1,
                children: crate::tree::children_of(sections.last().title).unwrap(),
            },
        ) + crate::tree::children_of(sections.last().content).unwrap()
    }
}

/// A run of nodes has one section for each of its level-1 headings, in
/// document order: the title of a section is what its heading holds.
pub proof fn sections_follow_headings(nodes: Seq<DocView>)
    ensures
        sections_of(nodes).len() == headings_of(nodes).len(),
        forall|k: int|
            0 <= k < headings_of(nodes).len() ==> #[trigger] sections_of(nodes)[k].title
                == opened_by(headings_of(nodes)[k]).title,
        forall|k: int|
            0 <= k < sections_of(nodes).len() ==> #[trigger] sections_of(nodes)[k].content
                is Root,
    decreases nodes.len(),
{
    reveal(Seq::filter);
    if nodes.len() > 0 {
        sections_follow_headings(nodes.drop_last());
    }
}

/// Cutting a run of nodes that starts with a level-1 heading loses nothing and
/// moves nothing: the sections, laid out again, are the run of nodes.
pub proof fn sections_keep_every_node(nodes: Seq<DocView>)
    requires
        starts_with_heading(nodes),
    ensures
        flattened(sections_of(nodes)) == nodes,
    decreases nodes.len(),
{
    if nodes.len() > 0 {
        let before = nodes.drop_last();
        let node = nodes.last();
        let sections = sections_of(before);
        sections_follow_headings(before);
        if before.len() == 0 {
            let only = sections_of(nodes);
            assert(flattened(only.drop_last()) =~= Seq::empty());
        } else {
            sections_keep_every_node(before);
            if is_section_heading(node) {
                assert(sections_of(nodes).drop_last() =~= sections);
            } else {
                assert(sections_of(nodes).drop_last() =~= sections.drop_last());
            }
            assert(before.push(node) =~= nodes);
        }
    }
}

/// Where every tree can be read, the records are those of the trees, one by
/// one.
pub proof fn lemma_parse_each_index<T: FromMd>(trees: Seq<DocView>, part: SectionPart, k: int)
    requires
        parse_each::<T>(trees, part) is Ok,
        0 <= k < trees.len(),
    ensures
        parse_each::<T>(trees, part) matches Ok(records) && records.len() == trees.len()
            && T::parsed(trees[k]) == Ok::<T::Model, StructuralError>(records[k]),
    decreases trees.len(),
{
    lemma_parse_each_len::<T>(trees, part);
    if k < trees.len() - 1 {
        lemma_parse_each_len::<T>(trees.drop_last(), part);
        lemma_parse_each_index::<T>(trees.drop_last(), part, k);
    }
}

/// Reading a tree with N level-1 headings gives N sections in document order:
/// section `k` holds what is read from the `k`-th heading and from the nodes
/// below it. A tree whose first child is no level-1 heading is refused,
/// whatever else it holds.
pub proof fn parse_keeps_document_order<T: FromMd, C: FromMd>(md: DocView)
    requires
        crate::tree::children_of(md) is Some,
    ensures
        !starts_with_heading(crate::tree::children_of(md).unwrap()) ==> TitleSeparatedList::<
            T,
            C,
        >::parsed(md) == Err::<Seq<Item<T::Model, C::Model>>, StructuralError>(
            StructuralError::MissingLeadingHeading,
        ),
        TitleSeparatedList::<T, C>::parsed(md) matches Ok(items) ==> {
            let nodes = crate::tree::children_of(md).unwrap();
            &&& starts_with_heading(nodes)
            &&& items.len() == headings_of(nodes).len()
            &&& forall|k: int|
                0 <= k < items.len() ==> T::parsed(opened_by(headings_of(nodes)[k]).title) == Ok::<
                    T::Model,
                    StructuralError,
                >(#[trigger] items[k].title)
            &&& forall|k: int|
                0 <= k < items.len() ==> C::parsed(sections_of(nodes)[k].content) == Ok::<
                    C::Model,
                    StructuralError,
                >(#[trigger] items[k].content)
        },
{
    let nodes = crate::tree::children_of(md).unwrap();
    let sections = sections_of(nodes);
    sections_follow_headings(nodes);
    if let Ok(items) = TitleSeparatedList::<T, C>::parsed(md) {
        lemma_parse_each_len::<T>(titles_of(sections), SectionPart::Title);
        lemma_parse_each_len::<C>(contents_of(sections), SectionPart::Content);
        assert forall|k: int| 0 <= k < items.len() implies T::parsed(
            opened_by(headings_of(nodes)[k]).title,
        ) == Ok::<T::Model, StructuralError>(#[trigger] items[k].title) by {
            lemma_parse_each_index::<T>(titles_of(sections), SectionPart::Title, k);
        }
        assert forall|k: int| 0 <= k < items.len() implies C::parsed(sections[k].content) == Ok::<
            C::Model,
            StructuralError,
        >(#[trigger] items[k].content) by {
            lemma_parse_each_index::<C>(contents_of(sections), SectionPart::Content, k);
        }
    }
}

} // verus!
