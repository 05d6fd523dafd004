//! The output node model: the formatter-agnostic representation the converter
//! builds, and its mathematical view. A chapter's conversion yields an ordered
//! sequence of output nodes; nesting occurs only through the indented
//! paragraph and the grouping wrapper.

use vstd::prelude::*;

verus! {

/// One unit of the intermediate representation handed to the roff
/// serializer: a text run (plain, bold or italic), a line break, a paragraph
/// wrapping one or more text fragments, an indented paragraph (with an indent
/// depth and an optional caption, rendered bold) wrapping nested content, a
/// literal pre-formatted example block, a hyperlink (display text plus
/// target), or a grouping wrapper.
#[derive(Debug, PartialEq, Eq)]
pub enum OutputNode {
    Text(String),
    Bold(String),
    Italic(String),
    Linebreak,
    Paragraph(Vec<String>),
    Example(String),
    IndentedParagraph { indent: u8, title: Option<String>, content: Vec<OutputNode> },
    Nested(Vec<OutputNode>),
    Url { display: String, target: String },
}

/// The mathematical model of one output node, over character sequences.
#[verifier::ext_equal]
pub enum OutputView {
    Text(Seq<char>),
    Bold(Seq<char>),
    Italic(Seq<char>),
    Linebreak,
    Paragraph(Seq<Seq<char>>),
    Example(Seq<char>),
    IndentedParagraph { indent: nat, title: Option<Seq<char>>, content: Seq<OutputView> },
    Nested(Seq<OutputView>),
    Url { display: Seq<char>, target: Seq<char> },
}

/// The model of one output node.
pub open spec fn out_view(n: OutputNode) -> OutputView
    decreases n,
{
    match n {
        OutputNode::Text(s) => OutputView::Text(s@),
        OutputNode::Bold(s) => OutputView::Bold(s@),
        OutputNode::Italic(s) => OutputView::Italic(s@),
        OutputNode::Linebreak => OutputView::Linebreak,
        OutputNode::Paragraph(v) => OutputView::Paragraph(v@.map(|i: int, s: String| s@)),
        OutputNode::Example(s) => OutputView::Example(s@),
        OutputNode::IndentedParagraph { indent, title, content } => OutputView::IndentedParagraph {
            indent: indent as nat,
            title: match title {
                Some(t) => Some(t@),
                None => None,
            },
            content: outs_view(content@),
        },
        OutputNode::Nested(v) => OutputView::Nested(outs_view(v@)),
        OutputNode::Url { display, target } => OutputView::Url { display: display@, target: target@ },
    }
}

/// The model of an ordered sequence of output nodes.
pub open spec fn outs_view(v: Seq<OutputNode>) -> Seq<OutputView>
    decreases v,
{
    if v.len() == 0 {
        Seq::empty()
    } else {
        seq![out_view(v[0])] + outs_view(v.drop_first())
    }
}

/// The model of a sequence is elementwise: it has the same length, and the
/// node at each position is the model of the node there.
pub proof fn lemma_outs_view_elementwise(v: Seq<OutputNode>)
    ensures
        outs_view(v).len() == v.len(),
        forall|i: int| 0 <= i < v.len() ==> outs_view(v)[i] == out_view(v[i]),
    decreases v.len(),
{
    if v.len() > 0 {
        lemma_outs_view_elementwise(v.drop_first());
    }
}

/// Appending one node to a sequence appends its model to the sequence's model.
pub proof fn lemma_outs_view_push(v: Seq<OutputNode>, n: OutputNode)
    ensures
        outs_view(v.push(n)) == outs_view(v).push(out_view(n)),
    decreases v.len(),
{
    lemma_outs_view_elementwise(v.push(n));
    lemma_outs_view_elementwise(v);
    assert(outs_view(v.push(n)) =~= outs_view(v).push(out_view(n)));
}

} // verus!
