//! Tests of the per-chapter converter: the state machine's emission for each
//! node kind and the context-sensitive rendering of text leaves.

use mdbook_man::markdown_to_roff;
use mdbook_man::MdNode;
use mdbook_man::NodeKind;
use mdbook_man::OutputNode;

fn leaf(kind: NodeKind) -> MdNode {
    MdNode { kind, children: vec![] }
}

fn node(kind: NodeKind, children: Vec<MdNode>) -> MdNode {
    MdNode { kind, children }
}

fn text(s: &str) -> MdNode {
    leaf(NodeKind::Text { literal: s.to_string() })
}

#[test]
fn heading_title_is_underlined_bold() {
    let tree = node(NodeKind::Heading, vec![text("Title")]);
    let out = markdown_to_roff(&tree);
    assert_eq!(
        out,
        vec![
            OutputNode::Linebreak,
            OutputNode::Linebreak,
            OutputNode::Bold("Title".to_string()),
            OutputNode::Linebreak,
            OutputNode::Text("=======".to_string()),
            OutputNode::Linebreak,
        ]
    );
}

#[test]
fn heading_underline_counts_bytes() {
    // A two-byte character widens the underline by two.
    let tree = node(NodeKind::Heading, vec![text("h\u{e9}llo")]);
    let out = markdown_to_roff(&tree);
    assert_eq!(out[4], OutputNode::Text("========".to_string()));
}

#[test]
fn adjacent_heading_texts_are_each_decorated() {
    // The machine deliberately keeps Heading remembered after decorating a
    // title, so a sibling text leaf under the same heading is decorated too.
    let tree = node(NodeKind::Heading, vec![text("A"), text("B")]);
    let out = markdown_to_roff(&tree);
    assert_eq!(out.len(), 12);
    assert_eq!(out[2], OutputNode::Bold("A".to_string()));
    assert_eq!(out[4], OutputNode::Text("===".to_string()));
    assert_eq!(out[8], OutputNode::Bold("B".to_string()));
    assert_eq!(out[10], OutputNode::Text("===".to_string()));
}

#[test]
fn paragraph_text_is_wrapped() {
    let tree = node(NodeKind::Paragraph, vec![text("hello")]);
    let out = markdown_to_roff(&tree);
    assert_eq!(out, vec![OutputNode::Paragraph(vec!["hello".to_string()])]);
}

#[test]
fn emphasis_text_is_italic() {
    let tree = node(NodeKind::Emphasis, vec![text("x")]);
    let out = markdown_to_roff(&tree);
    assert_eq!(out, vec![OutputNode::Italic("x".to_string())]);
}

#[test]
fn strong_text_is_bold() {
    let tree = node(NodeKind::Strong, vec![text("y")]);
    let out = markdown_to_roff(&tree);
    assert_eq!(out, vec![OutputNode::Bold("y".to_string())]);
}

#[test]
fn code_block_is_indented_example_with_caption() {
    let tree = leaf(NodeKind::CodeBlock {
        info: "rust".to_string(),
        literal: "fn main() {}".to_string(),
    });
    let out = markdown_to_roff(&tree);
    assert_eq!(
        out,
        vec![OutputNode::Nested(vec![OutputNode::IndentedParagraph {
            indent: 2,
            title: Some("rust".to_string()),
            content: vec![
                OutputNode::Linebreak,
                OutputNode::Example("fn main() {}".to_string()),
            ],
        }])]
    );
}

#[test]
fn code_block_without_info_has_no_caption() {
    let tree = leaf(NodeKind::CodeBlock { info: String::new(), literal: "x".to_string() });
    let out = markdown_to_roff(&tree);
    assert_eq!(
        out,
        vec![OutputNode::Nested(vec![OutputNode::IndentedParagraph {
            indent: 2,
            title: None,
            content: vec![OutputNode::Linebreak, OutputNode::Example("x".to_string())],
        }])]
    );
}

#[test]
fn code_span_is_backticked_italic() {
    let tree = leaf(NodeKind::Code { literal: "x".to_string() });
    let out = markdown_to_roff(&tree);
    assert_eq!(
        out,
        vec![
            OutputNode::Text("`".to_string()),
            OutputNode::Italic("x".to_string()),
            OutputNode::Text("`".to_string()),
        ]
    );
}

#[test]
fn link_is_one_hyperlink_node() {
    let tree = leaf(NodeKind::Link { url: "http://x".to_string(), title: "X".to_string() });
    let out = markdown_to_roff(&tree);
    assert_eq!(
        out,
        vec![OutputNode::Url { display: "X".to_string(), target: "http://x".to_string() }]
    );
}

#[test]
fn link_with_empty_title_has_empty_display() {
    let tree = leaf(NodeKind::Link { url: "http://x".to_string(), title: String::new() });
    let out = markdown_to_roff(&tree);
    assert_eq!(
        out,
        vec![OutputNode::Url { display: String::new(), target: "http://x".to_string() }]
    );
}

#[test]
fn image_is_one_hyperlink_node() {
    let tree = leaf(NodeKind::Image { url: "img.png".to_string(), title: "alt".to_string() });
    let out = markdown_to_roff(&tree);
    assert_eq!(
        out,
        vec![OutputNode::Url { display: "alt".to_string(), target: "img.png".to_string() }]
    );
}

#[test]
fn line_break_node_emits_line_break() {
    let tree = node(NodeKind::Document, vec![leaf(NodeKind::LineBreak)]);
    let out = markdown_to_roff(&tree);
    assert_eq!(out, vec![OutputNode::Linebreak]);
}

#[test]
fn list_item_text_gets_trailing_break() {
    let tree = node(
        NodeKind::List,
        vec![node(NodeKind::ListItem, vec![text("item")])],
    );
    let out = markdown_to_roff(&tree);
    assert_eq!(
        out,
        vec![OutputNode::Text("item".to_string()), OutputNode::Linebreak]
    );
}

#[test]
fn bare_text_is_plain() {
    let tree = node(NodeKind::Document, vec![text("loose")]);
    let out = markdown_to_roff(&tree);
    assert_eq!(out, vec![OutputNode::Text("loose".to_string())]);
}

#[test]
fn text_after_soft_break_is_plain() {
    // A soft break is remembered, so text following it falls to the default
    // plain rendering even inside a paragraph.
    let tree = node(
        NodeKind::Paragraph,
        vec![text("a"), leaf(NodeKind::SoftBreak), text("b")],
    );
    let out = markdown_to_roff(&tree);
    assert_eq!(
        out,
        vec![
            OutputNode::Paragraph(vec!["a".to_string()]),
            OutputNode::Text("b".to_string()),
        ]
    );
}

#[test]
fn unknown_kind_emits_nothing_but_children_are_rendered() {
    // A node kind outside the closed set (a table, say) contributes no output
    // node of its own; its descendant text is still visited and rendered
    // under the rule in effect at the time.
    let tree = node(NodeKind::Other, vec![text("cell")]);
    let out = markdown_to_roff(&tree);
    assert_eq!(out, vec![OutputNode::Text("cell".to_string())]);
}

#[test]
fn unknown_kind_resets_context_to_plain() {
    // An unrecognized node between a paragraph and its text leaves Empty
    // remembered, so the text renders plain instead of as a paragraph.
    let tree = node(
        NodeKind::Paragraph,
        vec![node(NodeKind::Other, vec![text("t")])],
    );
    let out = markdown_to_roff(&tree);
    assert_eq!(out, vec![OutputNode::Text("t".to_string())]);
}

#[test]
fn conversion_is_idempotent() {
    let tree = node(
        NodeKind::Document,
        vec![
            node(NodeKind::Heading, vec![text("T")]),
            node(NodeKind::Paragraph, vec![text("p")]),
            leaf(NodeKind::Code { literal: "c".to_string() }),
        ],
    );
    let first = markdown_to_roff(&tree);
    let second = markdown_to_roff(&tree);
    assert_eq!(first, second);
}

#[test]
fn heading_then_paragraph_renders_both() {
    let tree = node(
        NodeKind::Document,
        vec![
            node(NodeKind::Heading, vec![text("H")]),
            node(NodeKind::Paragraph, vec![text("body")]),
        ],
    );
    let out = markdown_to_roff(&tree);
    assert_eq!(
        out,
        vec![
            OutputNode::Linebreak,
            OutputNode::Linebreak,
            OutputNode::Bold("H".to_string()),
            OutputNode::Linebreak,
            OutputNode::Text("===".to_string()),
            OutputNode::Linebreak,
            OutputNode::Paragraph(vec!["body".to_string()]),
        ]
    );
}

#[test]
fn emphasis_inside_paragraph_renders_in_order() {
    let tree = node(
        NodeKind::Paragraph,
        vec![text("a"), node(NodeKind::Emphasis, vec![text("b")])],
    );
    let out = markdown_to_roff(&tree);
    assert_eq!(
        out,
        vec![
            OutputNode::Paragraph(vec!["a".to_string()]),
            OutputNode::Italic("b".to_string()),
        ]
    );
}
