//! The conversion core: a pre-order walk of a parsed markdown tree driving a
//! one-token-lookback state machine. The machine remembers only the
//! significant kind of the most recently visited node and decides, when a
//! text leaf is reached, which roff construct to emit for it; link, image,
//! code and line-break nodes emit immediately.

use vstd::prelude::*;
use vstd::string::StringExecFns;

use crate::ast::MarkdownNode;
use crate::ast::MdNode;
use crate::ast::NodeKind;
use crate::output::lemma_outs_view_elementwise;
use crate::output::lemma_outs_view_push;
use crate::output::out_view;
use crate::output::outs_view;
use crate::output::OutputNode;
use crate::output::OutputView;

verus! {

/// The decorative line drawn under a heading's title: `=` characters, two
/// more than the title text has UTF-8 bytes.
pub open spec fn underline(text: Seq<char>) -> Seq<char> {
    Seq::new(vstd::utf8::encode_utf8(text).len() + 2, |i: int| '=')
}

/// What the state machine emits for a text leaf, depending on the
/// significant kind of the most recently visited node: a heading's title is
/// rendered as an underlined bold line, paragraph text is wrapped in a
/// paragraph, emphasis and strong render italic and bold, list-item text is
/// followed by a line break, and all other contexts yield the plain text.
pub open spec fn text_emission(text: Seq<char>, last: MarkdownNode) -> Seq<OutputView> {
    match last {
        MarkdownNode::Heading => seq![
            OutputView::Linebreak,
            OutputView::Linebreak,
            OutputView::Bold(text),
            OutputView::Linebreak,
            OutputView::Text(underline(text)),
            OutputView::Linebreak,
        ],
        MarkdownNode::Paragraph => seq![OutputView::Paragraph(seq![text])],
        MarkdownNode::Emphasis => seq![OutputView::Italic(text)],
        MarkdownNode::Strong => seq![OutputView::Bold(text)],
        MarkdownNode::ListItem => seq![OutputView::Text(text), OutputView::Linebreak],
        _ => seq![OutputView::Text(text)],
    }
}

/// What the state machine emits on visiting one node. Links and images yield
/// one hyperlink node (display text from the title, which may be empty);
/// inline code yields a backtick, the literal text in italic, and a closing
/// backtick; a code block yields a group holding one 2-indented paragraph --
/// captioned with the info string when that is non-empty -- whose content is
/// a line break followed by the literal example text; a line break yields a
/// line-break node; a text leaf defers to `text_emission`; every other kind
/// emits nothing.
pub open spec fn node_emission(k: NodeKind, last: MarkdownNode) -> Seq<OutputView> {
    match k {
        NodeKind::Link { url, title } => seq![
            OutputView::Url { display: title@, target: url@ },
        ],
        NodeKind::Image { url, title } => seq![
            OutputView::Url { display: title@, target: url@ },
        ],
        NodeKind::Code { literal } => seq![
            OutputView::Text("`"@),
            OutputView::Italic(literal@),
            OutputView::Text("`"@),
        ],
        NodeKind::CodeBlock { info, literal } => seq![
            OutputView::Nested(
                seq![
                    OutputView::IndentedParagraph {
                        indent: 2,
                        title: if info@.len() > 0 {
                            Some(info@)
                        } else {
                            None
                        },
                        content: seq![OutputView::Linebreak, OutputView::Example(literal@)],
                    },
                ],
            ),
        ],
        NodeKind::LineBreak => seq![OutputView::Linebreak],
        NodeKind::Text { literal } => text_emission(literal@, last),
        _ => Seq::empty(),
    }
}

/// The significant kind the machine remembers after visiting a node: the
/// node's own classification, except that a text leaf visited right after a
/// heading leaves the heading in place -- the heading decoration is
/// self-contained, and an immediately adjacent sibling text leaf under the
/// same heading receives the full decoration again.
pub open spec fn node_next(k: NodeKind, last: MarkdownNode) -> MarkdownNode {
    if k is Text && last == MarkdownNode::Heading {
        MarkdownNode::Heading
    } else {
        MarkdownNode::classify(k)
    }
}

/// The output and final remembered kind of a pre-order walk rooted at `n`,
/// starting with `last` remembered: what `n` itself emits, followed by the
/// walk of its children in source order.
pub open spec fn walk(n: MdNode, last: MarkdownNode) -> (Seq<OutputView>, MarkdownNode)
    decreases n,
{
    let rest = walk_children(n.children@, node_next(n.kind, last));
    (node_emission(n.kind, last) + rest.0, rest.1)
}

/// The walk of a sequence of sibling subtrees, left to right, threading the
/// remembered kind from each subtree into the next.
pub open spec fn walk_children(ns: Seq<MdNode>, last: MarkdownNode) -> (
    Seq<OutputView>,
    MarkdownNode,
)
    decreases ns,
{
    if ns.len() == 0 {
        (Seq::empty(), last)
    } else {
        let head = walk(ns[0], last);
        let rest = walk_children(ns.drop_first(), head.1);
        (head.0 + rest.0, rest.1)
    }
}

/// Walking one more sibling appends that subtree's walk, started from the
/// remembered kind the earlier siblings left behind.
pub proof fn lemma_walk_children_snoc(ns: Seq<MdNode>, n: MdNode, last: MarkdownNode)
    ensures
        walk_children(ns.push(n), last).0 == walk_children(ns, last).0 + walk(
            n,
            walk_children(ns, last).1,
        ).0,
        walk_children(ns.push(n), last).1 == walk(n, walk_children(ns, last).1).1,
    decreases ns.len(),
{
    if ns.len() == 0 {
        reveal_with_fuel(walk_children, 3);
        assert(ns.push(n)[0] == n);
        assert(ns.push(n).drop_first() =~= Seq::<MdNode>::empty());
        assert(ns =~= Seq::<MdNode>::empty());
        assert(walk_children(ns.push(n), last).0 =~= walk(n, last).0);
        assert(walk_children(ns, last).0 + walk(n, walk_children(ns, last).1).0 =~= walk(
            n,
            last,
        ).0);
    } else {
        assert(ns.push(n)[0] == ns[0]);
        assert(ns.push(n).drop_first() =~= ns.drop_first().push(n));
        lemma_walk_children_snoc(ns.drop_first(), n, walk(ns[0], last).1);
        assert(walk_children(ns.push(n), last).0 =~= walk_children(ns, last).0 + walk(
            n,
            walk_children(ns, last).1,
        ).0);
    }
}

/// The state machine: the output nodes accumulated so far, in emission
/// order, and the single-slot memory of the most recently remembered
/// significant kind.
pub struct Parser {
    nodes: Vec<OutputNode>,
    last_md_node: MarkdownNode,
}

impl Parser {
    /// The sequence of output nodes appended so far.
    pub closed spec fn output(self) -> Seq<OutputView> {
        outs_view(self.nodes@)
    }

    /// The significant kind of the most recently remembered node.
    pub closed spec fn last(self) -> MarkdownNode {
        self.last_md_node
    }

    /// Overwrites the remembered significant kind.
    pub fn update_last_node(&mut self, node: MarkdownNode)
        ensures
            final(self).last() == node,
            final(self).output() == old(self).output(),
    {
        self.last_md_node = node;
    }

    /// The remembered significant kind.
    pub fn last_node(&self) -> (r: &MarkdownNode)
        ensures
            *r == self.last(),
    {
        &self.last_md_node
    }

    /// Hands the accumulated output nodes over, in emission order.
    pub fn finalize(self) -> (r: Vec<OutputNode>)
        ensures
            outs_view(r@) == self.output(),
    {
        self.nodes
    }

    /// Appends one output node.
    pub fn append_roff(&mut self, roff: OutputNode)
        ensures
            final(self).output() == old(self).output().push(out_view(roff)),
            final(self).last() == old(self).last(),
    {
        proof {
            lemma_outs_view_push(self.nodes@, roff);
        }
        self.nodes.push(roff);
    }
}

impl Default for Parser {
    /// A fresh state machine: no output yet, no significant node seen.
    fn default() -> (r: Self)
        ensures
            r.output() == Seq::<OutputView>::empty(),
            r.last() == MarkdownNode::Empty,
    {
        Parser { nodes: Vec::new(), last_md_node: MarkdownNode::Empty }
    }
}

/// Builds the decorative underline for a heading title: `=` characters, two
/// more than the title has UTF-8 bytes.
fn equals_line(text: &str) -> (r: String)
    ensures
        r@ == underline(text@),
{
    proof {
        reveal_strlit("==");
    }
    let n: usize = text.as_bytes().len();
    let mut r = String::from_str("==");
    let mut i: usize = 0;
    while i < n
        invariant
            i <= n,
            n == vstd::utf8::encode_utf8(text@).len(),
            r@.len() == i + 2,
            forall|j: int| 0 <= j < r@.len() ==> r@[j] == '=',
        decreases n - i,
    {
        proof {
            reveal_strlit("=");
        }
        r.append("=");
        i += 1;
    }
    assert(r@ =~= underline(text@));
    r
}

/// One step of the state machine: emits what the visited node calls for,
/// then remembers the node's significant kind (except after decorating a
/// heading's title text, which deliberately leaves the heading remembered).
fn visit_node(kind: &NodeKind, parser: &mut Parser)
    ensures
        final(parser).output() == old(parser).output() + node_emission(
            *kind,
            old(parser).last(),
        ),
        final(parser).last() == node_next(*kind, old(parser).last()),
{
    match kind {
        NodeKind::Link { url, title } => {
            parser.append_roff(OutputNode::Url { display: title.clone(), target: url.clone() });
            assert(parser.output() =~= old(parser).output() + node_emission(
                *kind,
                old(parser).last(),
            ));
        },
        NodeKind::Image { url, title } => {
            parser.append_roff(OutputNode::Url { display: title.clone(), target: url.clone() });
            assert(parser.output() =~= old(parser).output() + node_emission(
                *kind,
                old(parser).last(),
            ));
        },
        NodeKind::Code { literal } => {
            parser.append_roff(OutputNode::Text(String::from_str("`")));
            parser.append_roff(OutputNode::Italic(literal.clone()));
            parser.append_roff(OutputNode::Text(String::from_str("`")));
            assert(parser.output() =~= old(parser).output() + node_emission(
                *kind,
                old(parser).last(),
            ));
        },
        NodeKind::CodeBlock { info, literal } => {
            let title = if !info.as_str().is_empty() {
                Some(info.clone())
            } else {
                None
            };
            let mut content: Vec<OutputNode> = Vec::new();
            content.push(OutputNode::Linebreak);
            content.push(OutputNode::Example(literal.clone()));
            let ghost gcontent = content@;
            let ip = OutputNode::IndentedParagraph { indent: 2, title, content };
            let ghost gip = ip;
            let mut group: Vec<OutputNode> = Vec::new();
            group.push(ip);
            let ghost ggroup = group@;
            let node = OutputNode::Nested(group);
            proof {
                lemma_outs_view_elementwise(gcontent);
                assert(outs_view(gcontent) =~= seq![
                    OutputView::Linebreak,
                    OutputView::Example(literal@),
                ]);
                lemma_outs_view_elementwise(ggroup);
                assert(ggroup =~= seq![gip]);
                assert(out_view(gip) == (OutputView::IndentedParagraph {
                    indent: 2,
                    title: if info@.len() > 0 {
                        Some(info@)
                    } else {
                        None
                    },
                    content: outs_view(gcontent),
                }));
                assert(outs_view(ggroup) =~= seq![out_view(gip)]);
                assert(out_view(node) =~~= node_emission(*kind, old(parser).last())[0]);
            }
            parser.append_roff(node);
            assert(parser.output() =~= old(parser).output() + node_emission(
                *kind,
                old(parser).last(),
            ));
        },
        NodeKind::Text { literal } => {
            let last = *parser.last_node();
            match last {
                MarkdownNode::Heading => {
                    parser.append_roff(OutputNode::Linebreak);
                    parser.append_roff(OutputNode::Linebreak);
                    parser.append_roff(OutputNode::Bold(literal.clone()));
                    parser.append_roff(OutputNode::Linebreak);
                    parser.append_roff(OutputNode::Text(equals_line(literal.as_str())));
                    parser.append_roff(OutputNode::Linebreak);
                    assert(parser.output() =~= old(parser).output() + node_emission(
                        *kind,
                        old(parser).last(),
                    ));
                    // The deliberate non-update: the remembered kind stays
                    // Heading, so an adjacent sibling text leaf is decorated
                    // in full again.
                    return;
                },
                MarkdownNode::Paragraph => {
                    let mut fragments: Vec<String> = Vec::new();
                    fragments.push(literal.clone());
                    parser.append_roff(OutputNode::Paragraph(fragments));
                    assert(parser.output() =~~= old(parser).output() + node_emission(
                        *kind,
                        old(parser).last(),
                    ));
                },
                MarkdownNode::Emphasis => {
                    parser.append_roff(OutputNode::Italic(literal.clone()));
                    assert(parser.output() =~= old(parser).output() + node_emission(
                        *kind,
                        old(parser).last(),
                    ));
                },
                MarkdownNode::Strong => {
                    parser.append_roff(OutputNode::Bold(literal.clone()));
                    assert(parser.output() =~= old(parser).output() + node_emission(
                        *kind,
                        old(parser).last(),
                    ));
                },
                MarkdownNode::ListItem => {
                    parser.append_roff(OutputNode::Text(literal.clone()));
                    parser.append_roff(OutputNode::Linebreak);
                    assert(parser.output() =~= old(parser).output() + node_emission(
                        *kind,
                        old(parser).last(),
                    ));
                },
                _ => {
                    parser.append_roff(OutputNode::Text(literal.clone()));
                    assert(parser.output() =~= old(parser).output() + node_emission(
                        *kind,
                        old(parser).last(),
                    ));
                },
            }
        },
        NodeKind::LineBreak => {
            parser.append_roff(OutputNode::Linebreak);
            assert(parser.output() =~= old(parser).output() + node_emission(
                *kind,
                old(parser).last(),
            ));
        },
        _ => {
            assert(parser.output() =~= old(parser).output() + node_emission(
                *kind,
                old(parser).last(),
            ));
        },
    }
    parser.update_last_node(MarkdownNode::from_kind(kind));
}

/// The traversal engine: visits the node, then recurses into every child in
/// source order, whether or not the node itself emitted anything, so that
/// text leaves nested arbitrarily deep are always reached. No node is
/// skipped and none is visited twice.
pub fn iter_nodes(node: &MdNode, out: &mut Parser)
    ensures
        final(out).output() == old(out).output() + walk(*node, old(out).last()).0,
        final(out).last() == walk(*node, old(out).last()).1,
    decreases *node,
{
    visit_node(&node.kind, out);
    let ghost base = out.output();
    let ghost after = out.last();
    let mut i: usize = 0;
    proof {
        assert(node.children@.subrange(0, 0) =~= Seq::<MdNode>::empty());
    }
    while i < node.children.len()
        invariant
            i <= node.children@.len(),
            base == old(out).output() + node_emission(node.kind, old(out).last()),
            after == node_next(node.kind, old(out).last()),
            out.output() == base + walk_children(node.children@.subrange(0, i as int), after).0,
            out.last() == walk_children(node.children@.subrange(0, i as int), after).1,
        decreases node.children@.len() - i,
    {
        proof {
            assert(decreases_to!(*node => node.children@[i as int]));
        }
        iter_nodes(&node.children[i], out);
        proof {
            assert(node.children@.subrange(0, i + 1 as int) =~= node.children@.subrange(
                0,
                i as int,
            ).push(node.children@[i as int]));
            lemma_walk_children_snoc(
                node.children@.subrange(0, i as int),
                node.children@[i as int],
                after,
            );
        }
        i += 1;
    }
    proof {
        assert(node.children@.subrange(0, node.children@.len() as int) =~= node.children@);
        assert(out.output() =~= old(out).output() + walk(*node, old(out).last()).0);
    }
}

/// The output of converting one chapter's parsed tree: a pre-order walk
/// started with nothing remembered.
pub open spec fn chapter_output(root: MdNode) -> Seq<OutputView> {
    walk(root, MarkdownNode::Empty).0
}

/// Converts one chapter's parsed document tree into its ordered sequence of
/// output nodes.
pub fn markdown_to_roff(root: &MdNode) -> (r: Vec<OutputNode>)
    ensures
        outs_view(r@) == chapter_output(*root),
{
    let mut parser = Parser::default();
    iter_nodes(root, &mut parser);
    proof {
        assert(Seq::<OutputView>::empty() + walk(*root, MarkdownNode::Empty).0 =~= chapter_output(
            *root,
        ));
    }
    parser.finalize()
}

/// The conversion is a function of the tree alone: any two output sequences
/// produced for the same chapter tree are identical.
pub proof fn lemma_conversion_deterministic(
    root: MdNode,
    first: Seq<OutputView>,
    second: Seq<OutputView>,
)
    requires
        first == chapter_output(root),
        second == chapter_output(root),
    ensures
        first == second,
{
}

/// A node whose kind falls outside the closed significant set contributes no
/// output node of its own, but its children are still walked, with `Empty`
/// remembered: descendant text leaves are rendered under whatever rule is in
/// effect when they are reached.
pub proof fn lemma_unrecognized_kind_transparent(n: MdNode, last: MarkdownNode)
    requires
        MarkdownNode::classify(n.kind) == MarkdownNode::Empty,
    ensures
        walk(n, last).0 == walk_children(n.children@, MarkdownNode::Empty).0,
        walk(n, last).1 == walk_children(n.children@, MarkdownNode::Empty).1,
{
    assert(node_emission(n.kind, last) =~= Seq::<OutputView>::empty());
    assert(walk(n, last).0 =~= walk_children(n.children@, MarkdownNode::Empty).0);
}

} // verus!
