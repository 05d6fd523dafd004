//! The parsed markdown document tree that the converter consumes, and the
//! classification of its nodes into the closed set of significant kinds that
//! drives the conversion state machine.

use vstd::prelude::*;

verus! {

/// The kind of one parsed markdown node, together with the payload the
/// converter reads from it. Kinds the converter does not special-case
/// (tables, footnotes, block quotes, raw HTML, ...) arrive as `Other`;
/// the root of a parsed document arrives as `Document`.
#[derive(Debug, PartialEq, Eq)]
pub enum NodeKind {
    Document,
    Heading,
    Paragraph,
    Code { literal: String },
    CodeBlock { info: String, literal: String },
    Strong,
    Emphasis,
    Link { url: String, title: String },
    Image { url: String, title: String },
    SoftBreak,
    LineBreak,
    Text { literal: String },
    List,
    ListItem,
    Other,
}

/// One node of a parsed markdown document tree: its kind (with payload) and
/// its children, in source order.
#[derive(Debug, PartialEq, Eq)]
pub struct MdNode {
    pub kind: NodeKind,
    pub children: Vec<MdNode>,
}

/// The significant kind of a visited node, as remembered by the conversion
/// state machine: a closed classification with `Empty` as the fallback for
/// the document root and every node kind outside the set.
#[derive(Debug, Clone, Copy, PartialEq, Eq, Structural)]
pub enum MarkdownNode {
    Heading,
    Paragraph,
    Code,
    CodeBlock,
    Strong,
    Emphasis,
    Link,
    SoftBreak,
    Text,
    List,
    ListItem,
    LineBreak,
    Image,
    Empty,
}

impl MarkdownNode {
    /// Total classification of a node kind: every kind outside the closed
    /// set (the document root included) maps to `Empty`.
    pub open spec fn classify(k: NodeKind) -> MarkdownNode {
        match k {
            NodeKind::Heading => MarkdownNode::Heading,
            NodeKind::Paragraph => MarkdownNode::Paragraph,
            NodeKind::Code { .. } => MarkdownNode::Code,
            NodeKind::CodeBlock { .. } => MarkdownNode::CodeBlock,
            NodeKind::Strong => MarkdownNode::Strong,
            NodeKind::Emphasis => MarkdownNode::Emphasis,
            NodeKind::Link { .. } => MarkdownNode::Link,
            NodeKind::SoftBreak => MarkdownNode::SoftBreak,
            NodeKind::Text { .. } => MarkdownNode::Text,
            NodeKind::List => MarkdownNode::List,
            NodeKind::ListItem => MarkdownNode::ListItem,
            NodeKind::LineBreak => MarkdownNode::LineBreak,
            NodeKind::Image { .. } => MarkdownNode::Image,
            _ => MarkdownNode::Empty,
        }
    }

    /// Classifies a parsed node kind.
    pub fn from_kind(k: &NodeKind) -> (r: MarkdownNode)
        ensures
            r == MarkdownNode::classify(*k),
    {
        match k {
            NodeKind::Heading => MarkdownNode::Heading,
            NodeKind::Paragraph => MarkdownNode::Paragraph,
            NodeKind::Code { .. } => MarkdownNode::Code,
            NodeKind::CodeBlock { .. } => MarkdownNode::CodeBlock,
            NodeKind::Strong => MarkdownNode::Strong,
            NodeKind::Emphasis => MarkdownNode::Emphasis,
            NodeKind::Link { .. } => MarkdownNode::Link,
            NodeKind::SoftBreak => MarkdownNode::SoftBreak,
            NodeKind::Text { .. } => MarkdownNode::Text,
            NodeKind::List => MarkdownNode::List,
            NodeKind::ListItem => MarkdownNode::ListItem,
            NodeKind::LineBreak => MarkdownNode::LineBreak,
            NodeKind::Image { .. } => MarkdownNode::Image,
            _ => MarkdownNode::Empty,
        }
    }
}

impl Default for MarkdownNode {
    /// The state machine starts with no significant node seen.
    fn default() -> (r: Self)
        ensures
            r == MarkdownNode::Empty,
    {
        MarkdownNode::Empty
    }
}

} // verus!
