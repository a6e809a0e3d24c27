//! The plain document: a book as one Markdown text.
//!
//! The markup of a chapter is converted to Markdown outside the library. A
//! [`MarkdownRenderer`] says which markup is to be converted next, takes the
//! Markdown that came back, and puts the document together once it has the
//! body of every chapter.

use vstd::prelude::*;
use vstd::string::StringExecFns;
use crate::book::chapter_models;
use crate::book::Book;
use crate::book::BookModel;
use crate::book::Chapter;
use crate::book::ChapterModel;
use crate::html::remove_image_tags;
use crate::html::serialization;
use crate::html::without_image_tags;
use crate::text::texts;
use crate::MarkdownArgs;

verus! {

/// The head of the document: title, author and the time of archiving.
pub open spec fn document_head(title: Seq<char>, author: Seq<char>, archived_on: Seq<char>) -> Seq<
    char,
> {
    title + "\n\nby: "@ + author + "\nArchived on: "@ + archived_on + "\n\n"@
}

/// One chapter of the document: a rule and the name of the chapter, unless
/// chapter titles are switched off, and the body between empty lines.
pub open spec fn document_section(name: Seq<char>, body: Seq<char>, no_chapter_titles: bool) -> Seq<
    char,
> {
    if no_chapter_titles {
        "\n\n"@ + body + "\n\n"@
    } else {
        "----\n"@ + name + "\n\n"@ + body + "\n\n"@
    }
}

/// The markup of a chapter that is converted: the content of the chapter,
/// without its image tags where image tags are switched off.
pub open spec fn chapter_markup(chapter: ChapterModel, no_image_tags: bool) -> Seq<char> {
    if no_image_tags {
        without_image_tags(chapter.content)
    } else {
        serialization(chapter.content)
    }
}

/// The sections for the first chapters of a book, one for each of `bodies`
/// and in their order: section number `i` has the name of chapter number
/// `i` and the body number `i`.
pub open spec fn document_sections(
    chapters: Seq<ChapterModel>,
    bodies: Seq<Seq<char>>,
    no_chapter_titles: bool,
) -> Seq<char>
    decreases bodies.len(),
{
    if bodies.len() == 0 {
        Seq::empty()
    } else {
        document_sections(chapters, bodies.drop_last(), no_chapter_titles) + document_section(
            chapters[bodies.len() - 1].name,
            bodies.last(),
            no_chapter_titles,
        )
    }
}

/// The whole document for `book`, archived at the time `archived_on`, with
/// `bodies` as the bodies of its chapters.
pub open spec fn markdown_document(
    book: BookModel,
    args: MarkdownArgs,
    archived_on: Seq<char>,
    bodies: Seq<Seq<char>>,
) -> Seq<char> {
    document_head(book.title, book.author, archived_on) + document_sections(
        book.chapters,
        bodies,
        args.no_chapter_titles,
    )
}

/// The file name of the Markdown document of a book.
pub open spec fn markdown_file_name(file_name_title: Seq<char>) -> Seq<char> {
    file_name_title + ".md"@
}

/// The head of the document.
pub fn head_text(title: &str, author: &str, archived_on: &str) -> (r: String)
    ensures
        r@ == document_head(title@, author@, archived_on@),
{
    let mut r = String::from_str(title);
    r.append("\n\nby: ");
    r.append(author);
    r.append("\nArchived on: ");
    r.append(archived_on);
    r.append("\n\n");
    r
}

/// One chapter of the document, given its body in Markdown.
pub fn section_text(name: &str, body: &str, no_chapter_titles: bool) -> (r: String)
    ensures
        r@ == document_section(name@, body@, no_chapter_titles),
{
    if no_chapter_titles {
        let mut r = String::from_str("\n\n");
        r.append(body);
        r.append("\n\n");
        r
    } else {
        let mut r = String::from_str("----\n");
        r.append(name);
        r.append("\n\n");
        r.append(body);
        r.append("\n\n");
        r
    }
}

/// The markup of a chapter that is to be converted.
pub fn chapter_markup_text(chapter: &Chapter, no_image_tags: bool) -> (r: String)
    ensures
        r@ == chapter_markup(chapter@, no_image_tags),
{
    if no_image_tags {
        remove_image_tags(&chapter.isolated_chapter_html)
    } else {
        chapter.isolated_chapter_html.html()
    }
}

/// The Markdown document for `book`: the head, then a section for each of
/// `bodies`, in the order of the book.
pub fn render_markdown(book: &Book, args: &MarkdownArgs, archived_on: &str, bodies: &Vec<String>)
    -> (r: String)
    requires
        bodies@.len() <= book.chapters@.len(),
    ensures
        r@ == markdown_document(book@, *args, archived_on@, texts(bodies@)),
{
    let ghost chapters = chapter_models(book.chapters@);
    let ghost all = texts(bodies@);
    let mut r = head_text(book.title.as_str(), book.author.as_str(), archived_on);
    let ghost head = r@;
    let mut i: usize = 0;
    assert(all.take(0) =~= Seq::<Seq<char>>::empty());
    assert(head + Seq::<char>::empty() =~= head);
    while i < bodies.len()
        invariant
            i <= bodies@.len(),
            bodies@.len() <= book.chapters@.len(),
            chapters == chapter_models(book.chapters@),
            all == texts(bodies@),
            r@ == head + document_sections(chapters, all.take(i as int), args.no_chapter_titles),
        decreases bodies@.len() - i,
    {
        let section = section_text(
            book.chapters[i].chapter_name.as_str(),
            bodies[i].as_str(),
            args.no_chapter_titles,
        );
        proof {
            let grown = all.take(i + 1);
            assert(grown.drop_last() =~= all.take(i as int));
            assert(grown.last() == bodies@[i as int]@);
            assert(chapters[i as int] == book.chapters@[i as int]@);
            let before = document_sections(chapters, all.take(i as int), args.no_chapter_titles);
            assert(head + before + section@ =~= head + (before + section@));
        }
        r.append(section.as_str());
        i = i + 1;
    }
    assert(all.take(bodies@.len() as int) =~= all);
    r
}

/// The model of a [`MarkdownRenderer`].
pub struct MarkdownModel {
    pub book: BookModel,
    pub args: MarkdownArgs,
    pub archived_on: Seq<char>,
    /// The bodies that came back so far, one for each of the first chapters.
    pub bodies: Seq<Seq<char>>,
}

/// The model of a [`MarkdownStep`].
pub enum MarkdownStepModel {
    Convert { renderer: MarkdownModel, markup: Seq<char> },
    Write { file_name: Seq<char>, content: Seq<char> },
}

/// What is to be done for a document: where a chapter has no body yet, the
/// markup of the first such chapter is to be converted; where every chapter
/// has its body, the document is to be written under the name of the book.
pub open spec fn next_step(renderer: MarkdownModel) -> MarkdownStepModel {
    if renderer.bodies.len() >= renderer.book.chapters.len() {
        MarkdownStepModel::Write {
            file_name: markdown_file_name(renderer.book.file_name_title),
            content: markdown_document(
                renderer.book,
                renderer.args,
                renderer.archived_on,
                renderer.bodies,
            ),
        }
    } else {
        MarkdownStepModel::Convert {
            renderer,
            markup: chapter_markup(
                renderer.book.chapters[renderer.bodies.len() as int],
                renderer.args.no_image_tags,
            ),
        }
    }
}

/// The document that is written at the end holds a section for every
/// chapter of the book, in the order of the book, each with the name of its
/// chapter and the body that came back for it.
pub proof fn lemma_document_holds_every_chapter(renderer: MarkdownModel, count: int)
    requires
        0 < count <= renderer.bodies.len(),
    ensures
        document_sections(
            renderer.book.chapters,
            renderer.bodies.take(count),
            renderer.args.no_chapter_titles,
        ) == document_sections(
            renderer.book.chapters,
            renderer.bodies.take(count - 1),
            renderer.args.no_chapter_titles,
        ) + document_section(
            renderer.book.chapters[count - 1].name,
            renderer.bodies[count - 1],
            renderer.args.no_chapter_titles,
        ),
{
    let taken = renderer.bodies.take(count);
    assert(taken.drop_last() =~= renderer.bodies.take(count - 1));
    assert(taken.last() == renderer.bodies[count - 1]);
}

/// Renders a book as a Markdown document. It waits for the Markdown of the
/// chapter that follows those whose bodies it has.
pub struct MarkdownRenderer {
    book: Book,
    args: MarkdownArgs,
    archived_on: String,
    bodies: Vec<String>,
}

/// What a renderer asks for next, or the document that it has made.
pub enum MarkdownStep {
    /// `markup` is to be converted to Markdown; the answer goes to
    /// [`MarkdownRenderer::accept`].
    Convert { renderer: MarkdownRenderer, markup: String },
    /// `content` is to be written to a new file named `file_name` in the
    /// output directory.
    Write { file_name: String, content: String },
}

impl View for MarkdownRenderer {
    type V = MarkdownModel;

    closed spec fn view(&self) -> MarkdownModel {
        MarkdownModel {
            book: self.book@,
            args: self.args,
            archived_on: self.archived_on@,
            bodies: texts(self.bodies@),
        }
    }
}

impl View for MarkdownStep {
    type V = MarkdownStepModel;

    open spec fn view(&self) -> MarkdownStepModel {
        match self {
            MarkdownStep::Convert { renderer, markup } => MarkdownStepModel::Convert {
                renderer: renderer@,
                markup: markup@,
            },
            MarkdownStep::Write { file_name, content } => MarkdownStepModel::Write {
                file_name: file_name@,
                content: content@,
            },
        }
    }
}

/// The renderer for `book` before any body came back.
pub open spec fn initial_document(book: BookModel, args: MarkdownArgs, archived_on: Seq<char>)
    -> MarkdownModel {
    MarkdownModel { book, args, archived_on, bodies: Seq::empty() }
}

impl MarkdownRenderer {
    #[verifier::type_invariant]
    spec fn valid(&self) -> bool {
        self@.bodies.len() < self@.book.chapters.len()
    }

    /// Says what is to be done with these bodies.
    fn proceed(book: Book, args: MarkdownArgs, archived_on: String, bodies: Vec<String>) -> (r:
        MarkdownStep)
        requires
            bodies@.len() <= book.chapters@.len(),
        ensures
            r@ == next_step(
                MarkdownModel { book: book@, args, archived_on: archived_on@, bodies: texts(bodies@) },
            ),
    {
        if bodies.len() >= book.chapters.len() {
            let content = render_markdown(&book, &args, archived_on.as_str(), &bodies);
            let mut file_name = book.file_name_title.clone();
            file_name.append(".md");
            MarkdownStep::Write { file_name, content }
        } else {
            let markup = chapter_markup_text(&book.chapters[bodies.len()], args.no_image_tags);
            let renderer = MarkdownRenderer { book, args, archived_on, bodies };
            MarkdownStep::Convert { renderer, markup }
        }
    }

    /// Begins the document for `book`, archived at the time `archived_on`.
    pub fn begin(book: Book, args: MarkdownArgs, archived_on: String) -> (r: MarkdownStep)
        ensures
            r@ == next_step(initial_document(book@, args, archived_on@)),
    {
        let bodies: Vec<String> = Vec::new();
        assert(texts(bodies@) =~= Seq::<Seq<char>>::empty());
        Self::proceed(book, args, archived_on, bodies)
    }

    /// Takes the Markdown that the markup of the last request was converted
    /// to: it is the body of the chapter that the markup came from.
    pub fn accept(self, markdown: String) -> (r: MarkdownStep)
        ensures
            r@ == next_step(
                MarkdownModel { bodies: self@.bodies.push(markdown@), ..self@ },
            ),
    {
        proof {
            use_type_invariant(&self);
        }
        let ghost before = self@;
        let MarkdownRenderer { book, args, archived_on, bodies } = self;
        let mut bodies = bodies;
        bodies.push(markdown);
        assert(texts(bodies@) =~= before.bodies.push(markdown@));
        Self::proceed(book, args, archived_on, bodies)
    }
}

} // verus!
