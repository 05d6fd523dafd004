//! The document assembler: runs the per-chapter conversion over a book's
//! items and gathers the results either as one document with a section per
//! chapter, or as one single-section document per chapter. Items that are not
//! chapters contribute no section in either mode.

use vstd::prelude::*;

use crate::ast::MdNode;
use crate::convert::chapter_output;
use crate::convert::markdown_to_roff;
use crate::output::outs_view;
use crate::output::OutputNode;
use crate::output::OutputView;

verus! {

/// One chapter of a book: its name and its content, already parsed into a
/// markdown document tree.
#[derive(Debug, PartialEq, Eq)]
pub struct Chapter {
    pub name: String,
    pub content: MdNode,
}

/// One item of a book: a chapter, or anything else (a separator, say), which
/// the assembler skips.
#[derive(Debug, PartialEq, Eq)]
pub enum BookItem {
    Chapter(Chapter),
    Other,
}

/// A book as handed to the renderer: an optional title and its items in book
/// order.
#[derive(Debug, PartialEq, Eq)]
pub struct Book {
    pub title: Option<String>,
    pub items: Vec<BookItem>,
}

/// A named, ordered sequence of output nodes: the rendering of one chapter.
#[derive(Debug, PartialEq, Eq)]
pub struct Section {
    pub name: String,
    pub nodes: Vec<OutputNode>,
}

/// A titled, ordered collection of sections: the unit handed to the roff
/// serializer.
#[derive(Debug, PartialEq, Eq)]
pub struct Document {
    pub title: String,
    pub sections: Vec<Section>,
}

/// The mathematical model of a section.
#[verifier::ext_equal]
pub struct SectionView {
    pub name: Seq<char>,
    pub nodes: Seq<OutputView>,
}

/// The mathematical model of a document.
#[verifier::ext_equal]
pub struct DocumentView {
    pub title: Seq<char>,
    pub sections: Seq<SectionView>,
}

/// The model of one section.
pub open spec fn section_view(s: Section) -> SectionView {
    SectionView { name: s.name@, nodes: outs_view(s.nodes@) }
}

/// The models of a sequence of sections, elementwise.
pub open spec fn sections_view(ss: Seq<Section>) -> Seq<SectionView> {
    ss.map(|i: int, s: Section| section_view(s))
}

/// The model of one document.
pub open spec fn document_view(d: Document) -> DocumentView {
    DocumentView { title: d.title@, sections: sections_view(d.sections@) }
}

/// The models of a sequence of documents, elementwise.
pub open spec fn documents_view(ds: Seq<Document>) -> Seq<DocumentView> {
    ds.map(|i: int, d: Document| document_view(d))
}

/// Appending a section appends its model.
pub proof fn lemma_sections_view_push(ss: Seq<Section>, s: Section)
    ensures
        sections_view(ss.push(s)) == sections_view(ss).push(section_view(s)),
{
    assert(sections_view(ss.push(s)) =~= sections_view(ss).push(section_view(s)));
}

/// Appending a document appends its model.
pub proof fn lemma_documents_view_push(ds: Seq<Document>, d: Document)
    ensures
        documents_view(ds.push(d)) == documents_view(ds).push(document_view(d)),
{
    assert(documents_view(ds.push(d)) =~= documents_view(ds).push(document_view(d)));
}

/// The chapters among a book's items, in book order: items that are not
/// chapters contribute nothing.
pub open spec fn chapters_of(items: Seq<BookItem>) -> Seq<Chapter>
    decreases items,
{
    if items.len() == 0 {
        Seq::empty()
    } else {
        let rest = chapters_of(items.drop_first());
        match items[0] {
            BookItem::Chapter(c) => seq![c] + rest,
            BookItem::Other => rest,
        }
    }
}

/// Appending one item appends its chapter, if it is one, and nothing
/// otherwise.
pub proof fn lemma_chapters_of_snoc(items: Seq<BookItem>, it: BookItem)
    ensures
        chapters_of(items.push(it)) == chapters_of(items) + (match it {
            BookItem::Chapter(c) => seq![c],
            BookItem::Other => Seq::<Chapter>::empty(),
        }),
    decreases items.len(),
{
    reveal_with_fuel(chapters_of, 3);
    if items.len() == 0 {
        assert(items.push(it)[0] == it);
        assert(items.push(it).drop_first() =~= Seq::<BookItem>::empty());
        assert(chapters_of(items.push(it)) =~= chapters_of(items) + (match it {
            BookItem::Chapter(c) => seq![c],
            BookItem::Other => Seq::<Chapter>::empty(),
        }));
    } else {
        assert(items.push(it)[0] == items[0]);
        assert(items.push(it).drop_first() =~= items.drop_first().push(it));
        lemma_chapters_of_snoc(items.drop_first(), it);
        assert(chapters_of(items.push(it)) =~= chapters_of(items) + (match it {
            BookItem::Chapter(c) => seq![c],
            BookItem::Other => Seq::<Chapter>::empty(),
        }));
    }
}

/// The section one chapter's conversion yields: named after the chapter,
/// holding the chapter tree's output nodes.
pub open spec fn chapter_section(c: Chapter) -> SectionView {
    SectionView { name: c.name@, nodes: chapter_output(c.content) }
}

/// The sections a sequence of chapters yields, elementwise.
pub open spec fn chapter_sections(cs: Seq<Chapter>) -> Seq<SectionView> {
    cs.map(|i: int, c: Chapter| chapter_section(c))
}

/// One more chapter contributes one more section.
pub proof fn lemma_chapter_sections_snoc(cs: Seq<Chapter>, c: Chapter)
    ensures
        chapter_sections(cs.push(c)) == chapter_sections(cs).push(chapter_section(c)),
{
    assert(chapter_sections(cs.push(c)) =~= chapter_sections(cs).push(chapter_section(c)));
}

/// A book's title, or the empty string where it has none.
pub open spec fn book_title(b: Book) -> Seq<char> {
    match b.title {
        Some(t) => t@,
        None => Seq::empty(),
    }
}

/// Single-document mode: one document titled after the book, with one
/// section per chapter, in book order.
pub open spec fn book_document(b: Book) -> DocumentView {
    DocumentView {
        title: book_title(b),
        sections: chapter_sections(chapters_of(b.items@)),
    }
}

/// Split mode, one chapter's share: a standalone document titled after the
/// chapter, holding exactly that chapter's section.
pub open spec fn chapter_document(c: Chapter) -> DocumentView {
    DocumentView { title: c.name@, sections: seq![chapter_section(c)] }
}

/// The standalone documents a sequence of chapters yields, elementwise.
pub open spec fn chapter_documents(cs: Seq<Chapter>) -> Seq<DocumentView> {
    cs.map(|i: int, c: Chapter| chapter_document(c))
}

/// One more chapter contributes one more standalone document.
pub proof fn lemma_chapter_documents_snoc(cs: Seq<Chapter>, c: Chapter)
    ensures
        chapter_documents(cs.push(c)) == chapter_documents(cs).push(chapter_document(c)),
{
    assert(chapter_documents(cs.push(c)) =~= chapter_documents(cs).push(chapter_document(c)));
}

/// Split mode: one single-section document per chapter, in book order.
pub open spec fn book_documents(b: Book) -> Seq<DocumentView> {
    chapter_documents(chapters_of(b.items@))
}

/// Renders a whole book as one document: the book's title (empty if unset),
/// and, for every chapter in book order, one section named after the chapter
/// holding the chapter's converted content. Items that are not chapters
/// contribute no section.
pub fn mdbook_to_roff(ctx: &Book) -> (d: Document)
    ensures
        document_view(d) == book_document(*ctx),
{
    let title = match &ctx.title {
        Some(t) => t.clone(),
        None => String::new(),
    };
    let mut sections: Vec<Section> = Vec::new();
    let mut i: usize = 0;
    proof {
        assert(ctx.items@.subrange(0, 0) =~= Seq::<BookItem>::empty());
        assert(sections_view(sections@) =~= chapter_sections(chapters_of(ctx.items@.subrange(0, 0))));
    }
    while i < ctx.items.len()
        invariant
            i <= ctx.items@.len(),
            sections_view(sections@) == chapter_sections(chapters_of(ctx.items@.subrange(0, i as int))),
        decreases ctx.items@.len() - i,
    {
        let ghost presecs = sections@;
        let ghost preitems = ctx.items@.subrange(0, i as int);
        let ghost nowitems = ctx.items@.subrange(0, i + 1 as int);
        match &ctx.items[i] {
            BookItem::Chapter(ch) => {
                let nodes = markdown_to_roff(&ch.content);
                let sec = Section { name: ch.name.clone(), nodes };
                proof {
                    assert(ctx.items@[i as int] == BookItem::Chapter(*ch));
                    assert(section_view(sec) =~~= chapter_section(*ch));
                    lemma_sections_view_push(presecs, sec);
                    lemma_chapters_of_snoc(preitems, ctx.items@[i as int]);
                    assert(nowitems =~= preitems.push(ctx.items@[i as int]));
                    assert(chapters_of(nowitems) =~= chapters_of(preitems).push(*ch));
                    lemma_chapter_sections_snoc(chapters_of(preitems), *ch);
                }
                sections.push(sec);
            },
            BookItem::Other => {
                proof {
                    lemma_chapters_of_snoc(preitems, ctx.items@[i as int]);
                    assert(nowitems =~= preitems.push(ctx.items@[i as int]));
                    assert(chapters_of(nowitems) =~= chapters_of(preitems));
                }
            },
        }
        assert(sections_view(sections@) == chapter_sections(chapters_of(nowitems)));
        i += 1;
    }
    let d = Document { title, sections };
    proof {
        assert(ctx.items@.subrange(0, ctx.items@.len() as int) =~= ctx.items@);
        assert(document_view(d) =~~= book_document(*ctx));
    }
    d
}

/// Renders a book chapter by chapter: for every chapter in book order, one
/// standalone document titled after the chapter, containing exactly one
/// section with that same name and the chapter's converted content. Items
/// that are not chapters contribute no document.
pub fn mdbook_to_roff_chapters(ctx: &Book) -> (ds: Vec<Document>)
    ensures
        documents_view(ds@) == book_documents(*ctx),
{
    let mut pages: Vec<Document> = Vec::new();
    let mut i: usize = 0;
    proof {
        assert(ctx.items@.subrange(0, 0) =~= Seq::<BookItem>::empty());
        assert(documents_view(pages@) =~= chapter_documents(chapters_of(ctx.items@.subrange(0, 0))));
    }
    while i < ctx.items.len()
        invariant
            i <= ctx.items@.len(),
            documents_view(pages@) == chapter_documents(chapters_of(ctx.items@.subrange(0, i as int))),
        decreases ctx.items@.len() - i,
    {
        let ghost prepages = pages@;
        let ghost preitems = ctx.items@.subrange(0, i as int);
        let ghost nowitems = ctx.items@.subrange(0, i + 1 as int);
        match &ctx.items[i] {
            BookItem::Chapter(ch) => {
                let nodes = markdown_to_roff(&ch.content);
                let mut sections: Vec<Section> = Vec::new();
                sections.push(Section { name: ch.name.clone(), nodes });
                let page = Document { title: ch.name.clone(), sections };
                proof {
                    assert(ctx.items@[i as int] == BookItem::Chapter(*ch));
                    assert(document_view(page) =~~= chapter_document(*ch));
                    lemma_documents_view_push(prepages, page);
                    lemma_chapters_of_snoc(preitems, ctx.items@[i as int]);
                    assert(nowitems =~= preitems.push(ctx.items@[i as int]));
                    assert(chapters_of(nowitems) =~= chapters_of(preitems).push(*ch));
                    lemma_chapter_documents_snoc(chapters_of(preitems), *ch);
                }
                pages.push(page);
            },
            BookItem::Other => {
                proof {
                    lemma_chapters_of_snoc(preitems, ctx.items@[i as int]);
                    assert(nowitems =~= preitems.push(ctx.items@[i as int]));
                    assert(chapters_of(nowitems) =~= chapters_of(preitems));
                }
            },
        }
        assert(documents_view(pages@) == chapter_documents(chapters_of(nowitems)));
        i += 1;
    }
    proof {
        assert(ctx.items@.subrange(0, ctx.items@.len() as int) =~= ctx.items@);
        assert(documents_view(pages@) =~~= book_documents(*ctx));
    }
    pages
}

/// The chapters drawn from a book's items are exactly as many as the items
/// that are chapters: every chapter item contributes one, everything else
/// contributes none.
pub proof fn lemma_chapters_of_count(items: Seq<BookItem>)
    ensures
        chapters_of(items).len() == items.filter(|it: BookItem| it is Chapter).len(),
    decreases items.len(),
{
    reveal(Seq::filter);
    if items.len() > 0 {
        lemma_chapters_of_count(items.drop_last());
        lemma_chapters_of_snoc(items.drop_last(), items.last());
        assert(items.drop_last().push(items.last()) =~= items);
    }
}

/// In single-document mode, each chapter item contributes exactly one
/// section, in book order, named after the chapter and holding that
/// chapter's converted content; items that are not chapters contribute none.
pub proof fn lemma_one_section_per_chapter(b: Book)
    ensures
        book_document(b).sections.len() == chapters_of(b.items@).len(),
        forall|i: int|
            0 <= i < chapters_of(b.items@).len() ==> book_document(b).sections[i]
                == chapter_section(chapters_of(b.items@)[i]),
{
}

/// In split mode there is exactly one document per chapter, in book order,
/// each holding exactly one section whose name and title match the chapter's
/// name -- and that section is the very section the chapter gets in
/// single-document mode.
pub proof fn lemma_split_documents_shape(b: Book)
    ensures
        book_documents(b).len() == chapters_of(b.items@).len(),
        forall|i: int|
            0 <= i < chapters_of(b.items@).len() ==> {
                let c = chapters_of(b.items@)[i];
                &&& #[trigger] book_documents(b)[i].title == c.name@
                &&& book_documents(b)[i].sections.len() == 1
                &&& book_documents(b)[i].sections[0].name == c.name@
                &&& book_documents(b)[i].sections[0] == book_document(b).sections[i]
            },
{
}

} // verus!
