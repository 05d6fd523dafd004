//! Tests of the state machine's public surface: the single-slot memory of the
//! last significant kind, the accumulated output, and the classification of
//! node kinds.

use mdbook_man::MarkdownNode;
use mdbook_man::NodeKind;
use mdbook_man::OutputNode;
use mdbook_man::Parser;

#[test]
fn parser_starts_with_nothing_seen() {
    let parser = Parser::default();
    assert_eq!(*parser.last_node(), MarkdownNode::Empty);
    assert_eq!(parser.finalize(), Vec::<OutputNode>::new());
}

#[test]
fn parser_accumulates_in_emission_order() {
    let mut parser = Parser::default();
    parser.append_roff(OutputNode::Linebreak);
    parser.append_roff(OutputNode::Bold("b".to_string()));
    let nodes = parser.finalize();
    assert_eq!(
        nodes,
        vec![OutputNode::Linebreak, OutputNode::Bold("b".to_string())]
    );
}

#[test]
fn parser_remembers_the_updated_kind() {
    let mut parser = Parser::default();
    parser.update_last_node(MarkdownNode::Strong);
    assert_eq!(*parser.last_node(), MarkdownNode::Strong);
    parser.update_last_node(MarkdownNode::Heading);
    assert_eq!(*parser.last_node(), MarkdownNode::Heading);
}

#[test]
fn classification_covers_the_closed_set() {
    assert_eq!(
        MarkdownNode::from_kind(&NodeKind::Heading),
        MarkdownNode::Heading
    );
    assert_eq!(
        MarkdownNode::from_kind(&NodeKind::Paragraph),
        MarkdownNode::Paragraph
    );
    assert_eq!(
        MarkdownNode::from_kind(&NodeKind::Code { literal: "x".to_string() }),
        MarkdownNode::Code
    );
    assert_eq!(
        MarkdownNode::from_kind(&NodeKind::CodeBlock {
            info: String::new(),
            literal: String::new(),
        }),
        MarkdownNode::CodeBlock
    );
    assert_eq!(
        MarkdownNode::from_kind(&NodeKind::Strong),
        MarkdownNode::Strong
    );
    assert_eq!(
        MarkdownNode::from_kind(&NodeKind::Emphasis),
        MarkdownNode::Emphasis
    );
    assert_eq!(
        MarkdownNode::from_kind(&NodeKind::Link {
            url: String::new(),
            title: String::new(),
        }),
        MarkdownNode::Link
    );
    assert_eq!(
        MarkdownNode::from_kind(&NodeKind::Image {
            url: String::new(),
            title: String::new(),
        }),
        MarkdownNode::Image
    );
    assert_eq!(
        MarkdownNode::from_kind(&NodeKind::SoftBreak),
        MarkdownNode::SoftBreak
    );
    assert_eq!(
        MarkdownNode::from_kind(&NodeKind::LineBreak),
        MarkdownNode::LineBreak
    );
    assert_eq!(
        MarkdownNode::from_kind(&NodeKind::Text { literal: String::new() }),
        MarkdownNode::Text
    );
    assert_eq!(MarkdownNode::from_kind(&NodeKind::List), MarkdownNode::List);
    assert_eq!(
        MarkdownNode::from_kind(&NodeKind::ListItem),
        MarkdownNode::ListItem
    );
}

#[test]
fn unlisted_kinds_classify_as_empty() {
    assert_eq!(
        MarkdownNode::from_kind(&NodeKind::Document),
        MarkdownNode::Empty
    );
    assert_eq!(
        MarkdownNode::from_kind(&NodeKind::Other),
        MarkdownNode::Empty
    );
}
