use build_book::error::{SectionPart, StructuralError};
use build_book::headed_md::{take_metadata, HeadedMarkdown};
use build_book::parsers::{DisplayMd, FromMd, Markdown, Modeled};
use build_book::title_separated_list::{split_sections, Item, TitleSeparatedList};
use build_book::tree::{parse_document, DocNode, Shell};

fn text(value: &str) -> DocNode {
    DocNode::Text { value: value.to_string() }
}

fn yaml(value: &str) -> DocNode {
    DocNode::Yaml { value: value.to_string() }
}

fn heading(depth: u8, value: &str) -> DocNode {
    DocNode::Heading { depth, children: vec![text(value)] }
}

fn root(children: Vec<DocNode>) -> DocNode {
    DocNode::Root { children }
}

/// A record that reads only texts without an exclamation mark.
#[derive(Debug, PartialEq)]
struct Calm(String);

impl Modeled for Calm {
    type Model = ();
}

impl FromMd for Calm {
    fn parse(md: DocNode) -> Result<Self, StructuralError> {
        let text = md.text();
        if text.contains('!') {
            Err(StructuralError::Schema { message: text })
        } else {
            Ok(Calm(text))
        }
    }
}

impl DisplayMd for Calm {
    fn fmt(&self) -> Result<DocNode, StructuralError> {
        if self.0.is_empty() {
            Err(StructuralError::Schema { message: "empty".to_string() })
        } else {
            Ok(DocNode::Yaml { value: self.0.clone() })
        }
    }
}

#[test]
fn metadata_is_taken_out() {
    let tree = root(vec![yaml("title: x"), text("a"), heading(2, "b"), text("c")]);
    let (block, rest) = take_metadata(tree).unwrap();
    assert_eq!(block, yaml("title: x"));
    assert_eq!(rest, root(vec![text("a"), heading(2, "b"), text("c")]));
}

#[test]
fn metadata_is_found_wherever_it_stands() {
    let tree = root(vec![text("a"), yaml("k: v"), text("b")]);
    let (block, rest) = take_metadata(tree).unwrap();
    assert_eq!(block, yaml("k: v"));
    assert_eq!(rest, root(vec![text("a"), text("b")]));
}

#[test]
fn metadata_must_be_there() {
    let tree = root(vec![text("a"), heading(1, "b")]);
    assert_eq!(take_metadata(tree), Err(StructuralError::MissingMetadata));
    assert_eq!(take_metadata(root(vec![])), Err(StructuralError::MissingMetadata));
    let tree = root(vec![text("a")]);
    assert_eq!(HeadedMarkdown::<Markdown, Markdown>::parse(tree), Err(StructuralError::MissingMetadata));
}

#[test]
fn metadata_must_be_alone() {
    let tree = root(vec![yaml("a: 1"), text("a"), yaml("b: 2")]);
    assert_eq!(take_metadata(tree), Err(StructuralError::DuplicateMetadata));
    let tree = root(vec![yaml("a: 1"), yaml("b: 2")]);
    assert_eq!(HeadedMarkdown::<Markdown, Markdown>::parse(tree), Err(StructuralError::DuplicateMetadata));
}

#[test]
fn metadata_count_comes_before_content() {
    let tree = root(vec![text("no heading first"), heading(1, "one")]);
    let r = HeadedMarkdown::<Markdown, TitleSeparatedList<Markdown, Markdown>>::parse(tree);
    assert_eq!(r, Err(StructuralError::MissingMetadata));
}

#[test]
fn leaves_hold_no_metadata() {
    assert_eq!(take_metadata(text("a")), Err(StructuralError::NotASequence));
    assert_eq!(take_metadata(yaml("a: 1")), Err(StructuralError::NotASequence));
}

#[test]
fn headed_document_round_trip() {
    let tree = root(vec![yaml("title: x"), text("a"), heading(1, "b")]);
    let headed = HeadedMarkdown::<Markdown, Markdown>::parse(tree.duplicate()).unwrap();
    assert_eq!(headed.metas, Markdown(yaml("title: x")));
    assert_eq!(headed.content, Markdown(root(vec![text("a"), heading(1, "b")])));
    assert_eq!(headed.fmt(), Ok(tree));
}

#[test]
fn rendering_puts_the_block_first() {
    let tree = root(vec![text("a"), yaml("title: x"), text("b")]);
    let headed = HeadedMarkdown::<Markdown, Markdown>::parse(tree).unwrap();
    assert_eq!(headed.fmt(), Ok(root(vec![yaml("title: x"), text("a"), text("b")])));
}

#[test]
fn rendering_wraps_bare_content() {
    let headed = HeadedMarkdown { metas: Markdown(yaml("k: v")), content: Markdown(text("alone")) };
    assert_eq!(headed.fmt(), Ok(root(vec![yaml("k: v"), text("alone")])));
    let headed = HeadedMarkdown { metas: Markdown(yaml("k: v")), content: Markdown(heading(2, "h")) };
    assert_eq!(
        headed.fmt(),
        Ok(DocNode::Heading { depth: 2, children: vec![yaml("k: v"), text("h")] })
    );
}

#[test]
fn schema_errors_are_wrapped() {
    let tree = root(vec![yaml("loud!"), text("a")]);
    let r = HeadedMarkdown::<Calm, Markdown>::parse(tree);
    assert_eq!(
        r,
        Err(StructuralError::MetadataSchemaError {
            cause: Box::new(StructuralError::Schema { message: "loud!".to_string() })
        })
    );
    let tree = root(vec![yaml("quiet"), text("a!")]);
    let r = HeadedMarkdown::<Markdown, Calm>::parse(tree);
    assert_eq!(
        r,
        Err(StructuralError::Content {
            cause: Box::new(StructuralError::Schema { message: "a!".to_string() })
        })
    );
    let tree = root(vec![yaml("loud!"), text("a!")]);
    let r = HeadedMarkdown::<Calm, Calm>::parse(tree);
    assert!(matches!(r, Err(StructuralError::MetadataSchemaError { .. })));
}

#[test]
fn rendering_errors_are_wrapped() {
    let headed = HeadedMarkdown { metas: Calm(String::new()), content: Markdown(root(vec![])) };
    assert!(matches!(headed.fmt(), Err(StructuralError::MetadataSchemaError { .. })));
    let headed = HeadedMarkdown { metas: Calm("k: v".to_string()), content: Calm(String::new()) };
    assert!(matches!(headed.fmt(), Err(StructuralError::Content { .. })));
    let headed = HeadedMarkdown { metas: Calm(String::new()), content: Calm(String::new()) };
    assert!(matches!(headed.fmt(), Err(StructuralError::Content { .. })));
    let headed = HeadedMarkdown { metas: Calm("k: v".to_string()), content: Calm("body".to_string()) };
    assert_eq!(headed.fmt(), Ok(root(vec![yaml("k: v"), yaml("body")])));
}

#[test]
fn section_errors_carry_their_place() {
    let tree = root(vec![heading(1, "one"), text("a"), heading(1, "two!"), text("b"), heading(1, "three!")]);
    let r = TitleSeparatedList::<Calm, Markdown>::parse(tree);
    assert_eq!(
        r,
        Err(StructuralError::Section {
            index: 1,
            part: SectionPart::Title,
            cause: Box::new(StructuralError::Schema { message: "two!".to_string() })
        })
    );
    let tree = root(vec![heading(1, "one"), text("a!"), heading(1, "two!"), text("b")]);
    let r = TitleSeparatedList::<Calm, Calm>::parse(tree);
    assert!(matches!(r, Err(StructuralError::Section { index: 1, part: SectionPart::Title, .. })));
    let tree = root(vec![heading(1, "one"), text("a"), heading(1, "two"), text("b!"), heading(1, "three"), text("c!")]);
    let r = TitleSeparatedList::<Calm, Calm>::parse(tree);
    assert_eq!(
        r,
        Err(StructuralError::Section {
            index: 1,
            part: SectionPart::Content,
            cause: Box::new(StructuralError::Schema { message: "b!".to_string() })
        })
    );
}

#[test]
fn sections_of_nothing() {
    let list = TitleSeparatedList::<Markdown, Markdown>::parse(root(vec![])).unwrap();
    assert_eq!(list.items.len(), 0);
    assert_eq!(TitleSeparatedList::<Markdown, Markdown>::parse(text("a")), Err(StructuralError::NotASequence));
    assert_eq!(split_sections(vec![]), Ok(vec![]));
}

#[test]
fn deeper_headings_stay_in_their_section() {
    let tree = root(vec![heading(1, "one"), heading(2, "sub"), text("a")]);
    let list = TitleSeparatedList::<Markdown, Markdown>::parse(tree).unwrap();
    assert_eq!(list.items.len(), 1);
    assert_eq!(list.items[0].content, Markdown(root(vec![heading(2, "sub"), text("a")])));
    let tree = root(vec![heading(2, "sub"), heading(1, "one")]);
    assert_eq!(
        TitleSeparatedList::<Markdown, Markdown>::parse(tree),
        Err(StructuralError::MissingLeadingHeading)
    );
}

#[test]
fn sections_are_rendered_in_order() {
    let list = TitleSeparatedList {
        items: vec![
            Item { title: Markdown(text("one")), content: Markdown(root(vec![text("a"), text("b")])) },
            Item { title: Markdown(root(vec![text("two")])), content: Markdown(text("bare")) },
            Item { title: Markdown(text("three")), content: Markdown(root(vec![])) },
        ],
    };
    assert_eq!(
        list.fmt(),
        Ok(root(vec![
            DocNode::Heading { depth: 1, children: vec![text("one")] },
            text("a"),
            text("b"),
            DocNode::Heading { depth: 1, children: vec![root(vec![text("two")])] },
            text("bare"),
            DocNode::Heading { depth: 1, children: vec![text("three")] },
        ]))
    );
}

#[test]
fn rendering_errors_of_sections_carry_their_place() {
    let list = TitleSeparatedList {
        items: vec![
            Item { title: Calm("one".to_string()), content: Calm("a".to_string()) },
            Item { title: Calm("two".to_string()), content: Calm(String::new()) },
            Item { title: Calm(String::new()), content: Calm("c".to_string()) },
        ],
    };
    assert!(matches!(
        list.fmt(),
        Err(StructuralError::Section { index: 1, part: SectionPart::Content, .. })
    ));
}

#[test]
fn text_blocks_round_trip() {
    let tree = parse_document("Some *text* with `code`.\n\n- a\n- b\n", false).unwrap();
    let block = Markdown::parse(tree.duplicate()).unwrap();
    assert_eq!(block.fmt(), Ok(tree));
    assert_eq!(block.duplicate(), block);
    assert_eq!(block.text(), "Some text with code.ab");
}

#[test]
fn documents_are_parsed_with_and_without_metadata() {
    let source = "---\ntitle: Zen\n---\n\n# One\n\nbody\n";
    let tree = parse_document(source, true).unwrap();
    match &tree {
        DocNode::Root { children } => {
            assert_eq!(children[0], yaml("title: Zen"));
            assert!(matches!(children[1], DocNode::Heading { depth: 1, .. }));
            assert_eq!(children.len(), 3);
        }
        other => panic!("no root: {:?}", other),
    }
    let plain = parse_document(source, false).unwrap();
    match &plain {
        DocNode::Root { children } => assert!(children.iter().all(|node| !matches!(node, DocNode::Yaml { .. }))),
        other => panic!("no root: {:?}", other),
    }
    assert_eq!(parse_document("", false), Ok(root(vec![])));
}

#[test]
fn lists_are_read_with_their_marks() {
    let tree = parse_document("1. a\n2. b\n\ntext\n\n- c\n", false).unwrap();
    match tree {
        DocNode::Root { children } => {
            assert!(matches!(&children[0], DocNode::List { ordered: true, start: Some(1), children, .. } if children.len() == 2));
            assert!(matches!(&children[1], DocNode::Other { text, .. } if text == "text"));
            assert!(matches!(&children[2], DocNode::List { ordered: false, start: None, children, .. } if children.len() == 1));
        }
        other => panic!("no root: {:?}", other),
    }
}

#[test]
fn nodes_are_taken_apart_and_put_together() {
    let node = DocNode::List { ordered: true, start: Some(3), spread: false, children: vec![text("a")] };
    let (shell, children) = node.into_parts().unwrap();
    assert_eq!(shell, Shell::List { ordered: true, start: Some(3), spread: false });
    assert_eq!(children, vec![text("a")]);
    assert_eq!(shell.wrap(vec![text("b")]), DocNode::List { ordered: true, start: Some(3), spread: false, children: vec![text("b")] });
    assert_eq!(text("a").into_parts(), Err(text("a")));
    assert_eq!(text("a").into_children(), Err(text("a")));
    assert_eq!(heading(3, "h").into_children(), Ok(vec![text("h")]));
    assert_eq!(Shell::Root.wrap(vec![]), root(vec![]));
    assert_eq!(Shell::Heading { depth: 2 }.wrap(vec![text("h")]), heading(2, "h"));
}

#[test]
fn text_of_a_tree() {
    let tree = root(vec![heading(1, "Title"), text(" and "), yaml("k: v"), root(vec![text("x"), text("y")])]);
    assert_eq!(tree.text(), "Title and k: vxy");
    assert_eq!(root(vec![]).text(), "");
}

#[test]
fn documents_are_read_from_their_text() {
    let source = "---\ntitle: Zen\n---\n\n# One\n\nbody\n\n# Two\n";
    let headed = HeadedMarkdown::<Markdown, TitleSeparatedList<Markdown, Markdown>>::from_text(source).unwrap();
    assert_eq!(headed.metas, Markdown(yaml("title: Zen")));
    assert_eq!(headed.content.items.len(), 2);
    assert_eq!(headed.content.items[0].content.text(), "body");
    let r = HeadedMarkdown::<Markdown, Markdown>::from_text("# One\n\nbody\n");
    assert_eq!(r, Err(StructuralError::MissingMetadata));
}

#[test]
fn documents_are_cut_into_metadata_and_body() {
    let (raw, body) = build_book::headed_md::split_document("---\ntitle: Zen\nn: 1\n---\n\ntext\n").unwrap();
    assert_eq!(raw, "title: Zen\nn: 1");
    assert_eq!(body.text(), "text");
    assert!(matches!(&body, DocNode::Root { children } if children.len() == 1));
    assert_eq!(build_book::headed_md::split_document("text\n"), Err(StructuralError::MissingMetadata));
}

#[test]
fn same_text_same_tree() {
    let source = "---\ntitle: Zen\n---\n\n# One\n\nbody with [a link](https://example.com)\n";
    assert_eq!(parse_document(source, true), parse_document(source, true));
    let first = HeadedMarkdown::<Markdown, TitleSeparatedList<Markdown, Markdown>>::from_text(source);
    let second = HeadedMarkdown::<Markdown, TitleSeparatedList<Markdown, Markdown>>::from_text(source);
    assert_eq!(first, second);
}
