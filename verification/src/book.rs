//! A book and its chapters, and how a book is put together from the pages
//! that are fetched for it.
//!
//! The pages are fetched by whoever uses the library. A [`BookAssembler`]
//! says which address to fetch next and takes the markup that came back; it
//! starts with the index page and goes through the chapters in the order of
//! the index.

use vstd::prelude::*;
use vstd::string::StringExecFns;
use crate::file_system::remove_illegal_chars;
use crate::file_system::without_illegal_chars;
use crate::html::chapter_list;
use crate::html::collected_images;
use crate::html::collected_warnings;
use crate::html::content_or_error;
use crate::html::document_elements;
use crate::html::every_element;
use crate::html::extract_urls_and_img_tag;
use crate::html::field_or_error;
use crate::html::get_author_from_index;
use crate::html::get_chapter_names_and_urls_from_index;
use crate::html::get_cover_image_url_from_index;
use crate::html::get_title_from_index;
use crate::html::index_field;
use crate::html::isolate_chapter_content;
use crate::html::pair_models;
use crate::html::selection;
use crate::html::string_to_html_document;
use crate::html::Html;
use crate::html::HtmlModel;
use crate::http::parsed_url;
use crate::http::string_to_url;
use crate::http::url_or_error;
use crate::misc::merged;
use crate::misc::HashMapExt;
use crate::misc::ImageMap;
use crate::misc::Images;
use crate::ErrorModel;
use crate::Field;
use crate::GenerationError;
use crate::GenerationWarnings;
use crate::WarningModel;

verus! {

/// A struct representing a chapter.
pub struct Chapter {
    /// The Url of the chapter.
    pub chapter_url: String,
    /// The name of the chapter.
    pub chapter_name: String,
    /// The isolated chapter html: the content of the chapter as a fragment.
    pub isolated_chapter_html: Html,
}

/// The model of a [`Chapter`].
pub struct ChapterModel {
    pub url: Seq<char>,
    pub name: Seq<char>,
    pub content: HtmlModel,
}

impl View for Chapter {
    type V = ChapterModel;

    open spec fn view(&self) -> ChapterModel {
        ChapterModel {
            url: self.chapter_url@,
            name: self.chapter_name@,
            content: self.isolated_chapter_html@,
        }
    }
}

/// The models of a list of chapters.
pub open spec fn chapter_models(chapters: Seq<Chapter>) -> Seq<ChapterModel> {
    Seq::new(chapters.len(), |i: int| chapters[i]@)
}

/// The chapter named `name` at the address `url`, given the markup of its
/// page: the chapter with its content isolated, or the error of the
/// isolation. There is no chapter without content.
pub open spec fn chapter_of_page(name: Seq<char>, url: Seq<char>, page: Seq<char>) -> Result<
    ChapterModel,
    ErrorModel,
> {
    match content_or_error(document_elements(page, every_element()), url) {
        Ok(content) => Ok(ChapterModel { url, name, content }),
        Err(error) => Err(error),
    }
}

/// The model of a `Result` of a chapter or an error.
pub open spec fn chapter_or_error(r: Result<Chapter, GenerationError>) -> Result<
    ChapterModel,
    ErrorModel,
> {
    match r {
        Ok(chapter) => Ok(chapter@),
        Err(error) => Err(error@),
    }
}

impl Chapter {
    /// The chapter named `chapter_name` at `chapter_url`, from the markup of
    /// its page.
    pub fn new(chapter_name: &str, chapter_url: &str, page_markup: &str) -> (r: Result<
        Self,
        GenerationError,
    >)
        ensures
            chapter_or_error(r) == chapter_of_page(chapter_name@, chapter_url@, page_markup@),
    {
        let raw_chapter_html = string_to_html_document(page_markup);
        match isolate_chapter_content(&raw_chapter_html, chapter_url) {
            Ok(isolated_chapter_html) => Ok(
                Chapter {
                    chapter_url: String::from_str(chapter_url),
                    chapter_name: String::from_str(chapter_name),
                    isolated_chapter_html,
                },
            ),
            Err(error) => Err(error),
        }
    }
}

/// A struct representing a book & all the needed data to generate one.
pub struct Book {
    /// The Url for the book.
    pub book_url: String,
    /// The book's title.
    pub title: String,
    /// Book title used for the filename: the title without the characters
    /// that are illegal in file names.
    pub file_name_title: String,
    /// The book's author.
    pub author: String,
    /// A Url to the book's cover image.
    pub cover_image_url: String,
    /// A vector of the book's chapters, in the order of the index.
    pub chapters: Vec<Chapter>,
    /// The book's image urls and their corresponding img html tags.
    pub image_urls_and_tags: ImageMap,
}

/// The model of a [`Book`].
pub struct BookModel {
    pub book_url: Seq<char>,
    pub title: Seq<char>,
    pub file_name_title: Seq<char>,
    pub author: Seq<char>,
    pub cover_image_url: Seq<char>,
    pub chapters: Seq<ChapterModel>,
    pub images: Images,
}

impl View for Book {
    type V = BookModel;

    open spec fn view(&self) -> BookModel {
        BookModel {
            book_url: self.book_url@,
            title: self.title@,
            file_name_title: self.file_name_title@,
            author: self.author@,
            cover_image_url: self.cover_image_url@,
            chapters: chapter_models(self.chapters@),
            images: self.image_urls_and_tags@,
        }
    }
}

impl Book {
    /// Count how many paragraphs are in the book. Paragraphs are not told
    /// apart from the rest of a chapter, so the count is 0 for every book.
    pub fn count_paragraphs(&self) -> (r: u128)
        ensures
            r == 0,
    {
        0
    }

    /// The book with these parts. The title for file names is computed
    /// here, once.
    pub fn new(
        book_url: String,
        title: String,
        author: String,
        cover_image_url: String,
        chapters: Vec<Chapter>,
        image_urls_and_tags: ImageMap,
    ) -> (r: Self)
        ensures
            r@ == (BookModel {
                book_url: book_url@,
                title: title@,
                file_name_title: without_illegal_chars(title@),
                author: author@,
                cover_image_url: cover_image_url@,
                chapters: chapter_models(chapters@),
                images: image_urls_and_tags@,
            }),
    {
        let file_name_title = remove_illegal_chars(title.clone());
        Book {
            book_url,
            title,
            file_name_title,
            author,
            cover_image_url,
            chapters,
            image_urls_and_tags,
        }
    }
}

/// What the index page tells about a book.
pub struct Index {
    pub title: String,
    pub author: String,
    pub cover_image_url: String,
    /// The chapters as pairs of name and address, in the order of the page.
    pub chapters: Vec<(String, String)>,
}

/// The model of an [`Index`].
pub struct IndexModel {
    pub title: Seq<char>,
    pub author: Seq<char>,
    pub cover_image_url: Seq<char>,
    pub chapters: Seq<(Seq<char>, Seq<char>)>,
}

impl View for Index {
    type V = IndexModel;

    open spec fn view(&self) -> IndexModel {
        IndexModel {
            title: self.title@,
            author: self.author@,
            cover_image_url: self.cover_image_url@,
            chapters: pair_models(self.chapters@),
        }
    }
}

/// What the index page `markup` of the book at `url` tells. The cover image
/// is looked for first, then the title, the author and the chapter list;
/// the first that is missing or unreadable decides the error.
pub open spec fn index_of_page(url: Seq<char>, markup: Seq<char>) -> Result<IndexModel, ErrorModel> {
    let metas = document_elements(markup, "meta"@);
    let scripts = document_elements(markup, "script"@);
    match field_or_error(index_field(metas, Field::CoverImageUrl), Field::CoverImageUrl, url) {
        Err(error) => Err(error),
        Ok(cover_text) => match url_or_error(cover_text, parsed_url(cover_text)) {
            Err(error) => Err(error),
            Ok(cover_image_url) => match field_or_error(
                index_field(metas, Field::Title),
                Field::Title,
                url,
            ) {
                Err(error) => Err(error),
                Ok(title) => match field_or_error(
                    index_field(metas, Field::Author),
                    Field::Author,
                    url,
                ) {
                    Err(error) => Err(error),
                    Ok(author) => match chapter_list(scripts, url) {
                        Err(error) => Err(error),
                        Ok(chapters) => Ok(IndexModel { title, author, cover_image_url, chapters }),
                    },
                },
            },
        },
    }
}

/// The model of a `Result` of an index or an error.
pub open spec fn index_or_error(r: Result<Index, GenerationError>) -> Result<
    IndexModel,
    ErrorModel,
> {
    match r {
        Ok(index) => Ok(index@),
        Err(error) => Err(error@),
    }
}

/// Reads the index page of the book at `book_url`.
pub fn read_index(book_url: &str, markup: &str) -> (r: Result<Index, GenerationError>)
    ensures
        index_or_error(r) == index_of_page(book_url@, markup@),
{
    let index_html = string_to_html_document(markup);
    let cover_text = match get_cover_image_url_from_index(&index_html, book_url) {
        Ok(text) => text,
        Err(error) => {
            return Err(error);
        },
    };
    let cover_image_url = match string_to_url(cover_text.as_str()) {
        Ok(address) => address,
        Err(error) => {
            return Err(error);
        },
    };
    let title = match get_title_from_index(&index_html, book_url) {
        Ok(text) => text,
        Err(error) => {
            return Err(error);
        },
    };
    let author = match get_author_from_index(&index_html, book_url) {
        Ok(text) => text,
        Err(error) => {
            return Err(error);
        },
    };
    match get_chapter_names_and_urls_from_index(&index_html, book_url) {
        Ok(chapters) => Ok(Index { title, author, cover_image_url, chapters }),
        Err(error) => Err(error),
    }
}

/// The model of a [`BookAssembler`].
pub struct AssemblerModel {
    /// The address of the book.
    pub book_url: Seq<char>,
    /// The address whose page the assembler waits for.
    pub pending: Seq<char>,
    /// What the index page told; `None` while the index page is awaited.
    pub index: Option<IndexModel>,
    /// The chapters that were read so far.
    pub chapters: Seq<ChapterModel>,
    /// The images of the chapters that were read so far.
    pub images: Images,
    /// The warnings that were given so far.
    pub warnings: Seq<WarningModel>,
}

/// The model of a [`BookStep`].
pub enum StepModel {
    Fetch { assembler: AssemblerModel },
    Done { book: BookModel, warnings: Seq<WarningModel> },
}

/// The images of a list of chapters: the image tags of each chapter, merged
/// chapter by chapter in the order of the list.
pub open spec fn images_of_chapters(chapters: Seq<ChapterModel>) -> Images
    decreases chapters.len(),
{
    if chapters.len() == 0 {
        Seq::empty()
    } else {
        merged(
            images_of_chapters(chapters.drop_last()),
            collected_images(selection(chapters.last().content, "img"@)),
        )
    }
}

/// `chapters` are the first chapters of `index`, in the order of the index:
/// each has the name that the index gives it and the address that the index
/// gives it, read as a url.
pub open spec fn follows_index(chapters: Seq<ChapterModel>, index: IndexModel) -> bool {
    &&& chapters.len() <= index.chapters.len()
    &&& forall|j: int|
        0 <= j < chapters.len() ==> (#[trigger] chapters[j]).name == index.chapters[j].0
            && parsed_url(index.chapters[j].1) == Ok::<Seq<char>, Seq<char>>(chapters[j].url)
}

/// An assembler waits for the index page of its book, or for the page of
/// the chapter that follows those it has read. The chapters that it has read
/// are the first chapters of the index, and its images are theirs.
pub open spec fn is_waiting(assembler: AssemblerModel) -> bool {
    &&& assembler.images == images_of_chapters(assembler.chapters)
    &&& match assembler.index {
        None => assembler.pending == assembler.book_url && assembler.chapters.len() == 0,
        Some(index) => {
            &&& assembler.chapters.len() < index.chapters.len()
            &&& follows_index(assembler.chapters, index)
            &&& parsed_url(index.chapters[assembler.chapters.len() as int].1) == Ok::<
                Seq<char>,
                Seq<char>,
            >(assembler.pending)
        },
    }
}

/// The index that an assembler works with once it has taken `markup`: the
/// index that it has, or the one that `markup` holds.
pub open spec fn index_in_use(assembler: AssemblerModel, markup: Seq<char>) -> IndexModel {
    match assembler.index {
        Some(index) => index,
        None => index_of_page(assembler.book_url, markup)->Ok_0,
    }
}

/// `book` is the whole book of `index`: it has the title, the author and
/// the cover of the index, its title for file names is its title without
/// illegal characters, its chapters are all the chapters of the index in
/// the order of the index, and its images are those of its chapters.
pub open spec fn is_book_of(book: BookModel, index: IndexModel) -> bool {
    &&& book.title == index.title
    &&& book.author == index.author
    &&& book.cover_image_url == index.cover_image_url
    &&& book.file_name_title == without_illegal_chars(book.title)
    &&& book.chapters.len() == index.chapters.len()
    &&& follows_index(book.chapters, index)
    &&& book.images == images_of_chapters(book.chapters)
}

/// What follows once `assembler` has taken a page: the book, where every
/// chapter of the index was read; else the wait for the next chapter, whose
/// address has to be a url.
pub open spec fn advanced(assembler: AssemblerModel, index: IndexModel) -> Result<
    StepModel,
    ErrorModel,
> {
    let count = assembler.chapters.len() as int;
    if count >= index.chapters.len() {
        Ok(
            StepModel::Done {
                book: BookModel {
                    book_url: assembler.book_url,
                    title: index.title,
                    file_name_title: without_illegal_chars(index.title),
                    author: index.author,
                    cover_image_url: index.cover_image_url,
                    chapters: assembler.chapters,
                    images: assembler.images,
                },
                warnings: assembler.warnings,
            },
        )
    } else {
        match url_or_error(index.chapters[count].1, parsed_url(index.chapters[count].1)) {
            Ok(address) => Ok(
                StepModel::Fetch {
                    assembler: AssemblerModel {
                        pending: address,
                        index: Some(index),
                        ..assembler
                    },
                },
            ),
            Err(error) => Err(error),
        }
    }
}

/// What `assembler` makes of the markup of the page it waited for.
///
/// The index page is read whole before anything else is asked for, so an
/// index page that lacks a field ends the assembly before any chapter is
/// fetched. A chapter page gives the next chapter, and its images are
/// merged into those of the book.
pub open spec fn accepted(assembler: AssemblerModel, markup: Seq<char>) -> Result<
    StepModel,
    ErrorModel,
> {
    match assembler.index {
        None => match index_of_page(assembler.book_url, markup) {
            Ok(index) => advanced(assembler, index),
            Err(error) => Err(error),
        },
        Some(index) => {
            let name = index.chapters[assembler.chapters.len() as int].0;
            match chapter_of_page(name, assembler.pending, markup) {
                Ok(chapter) => {
                    let images = selection(chapter.content, "img"@);
                    advanced(
                        AssemblerModel {
                            chapters: assembler.chapters.push(chapter),
                            images: merged(assembler.images, collected_images(images)),
                            warnings: collected_warnings(assembler.warnings, images),
                            ..assembler
                        },
                        index,
                    )
                },
                Err(error) => Err(error),
            }
        },
    }
}

/// An index page without cover image ends the assembly with the error that
/// names the cover image and the book, whatever else the page holds: no
/// assembler is left that could ask for a chapter.
pub proof fn lemma_missing_cover_ends_assembly(assembler: AssemblerModel, markup: Seq<char>)
    requires
        assembler.index is None,
        index_field(document_elements(markup, "meta"@), Field::CoverImageUrl) is None,
    ensures
        accepted(assembler, markup) == Err::<StepModel, ErrorModel>(
            ErrorModel::MissingFieldError {
                field: Field::CoverImageUrl,
                url: assembler.book_url,
            },
        ),
{
}

/// An assembly goes through the chapters in the order of the index and
/// leaves none out: an assembler that takes a page and goes on waits for the
/// chapter that follows in the index, and the book that comes out at the end
/// is the whole book of the index.
pub proof fn lemma_assembly_follows_the_index(assembler: AssemblerModel, markup: Seq<char>)
    requires
        is_waiting(assembler),
    ensures
        match accepted(assembler, markup) {
            Ok(StepModel::Fetch { assembler: next }) => {
                &&& is_waiting(next)
                &&& next.book_url == assembler.book_url
                &&& next.index == Some(index_in_use(assembler, markup))
                &&& next.chapters.len() == assembler.chapters.len() + if assembler.index is Some {
                    1int
                } else {
                    0int
                }
            },
            Ok(StepModel::Done { book, warnings }) => {
                &&& book.book_url == assembler.book_url
                &&& is_book_of(book, index_in_use(assembler, markup))
            },
            Err(_) => true,
        },
{
    match assembler.index {
        None => {
            assert(images_of_chapters(assembler.chapters) == Seq::<
                (Seq<char>, Seq<Seq<char>>),
            >::empty());
        },
        Some(index) => {
            let count = assembler.chapters.len() as int;
            let name = index.chapters[count].0;
            match chapter_of_page(name, assembler.pending, markup) {
                Ok(chapter) => {
                    let grown = assembler.chapters.push(chapter);
                    assert(grown.drop_last() =~= assembler.chapters);
                    assert(grown.last() == chapter);
                    assert(follows_index(grown, index)) by {
                        assert forall|j: int| 0 <= j < grown.len() implies (
                        #[trigger] grown[j]).name == index.chapters[j].0 && parsed_url(
                            index.chapters[j].1,
                        ) == Ok::<Seq<char>, Seq<char>>(grown[j].url) by {
                            if j < count {
                                assert(grown[j] == assembler.chapters[j]);
                            }
                        }
                    }
                },
                Err(_) => {},
            }
        },
    }
}

/// Puts a book together from its pages, one page at a time.
pub struct BookAssembler {
    book_url: String,
    pending: String,
    index: Option<Index>,
    chapters: Vec<Chapter>,
    images: ImageMap,
    warnings: GenerationWarnings,
}

/// What an assembler needs next, or what it has made.
pub enum BookStep {
    /// The page at [`BookAssembler::address`] is to be fetched and handed to
    /// [`BookAssembler::accept`].
    Fetch { assembler: BookAssembler },
    /// The book is complete.
    Done { book: Book, warnings: GenerationWarnings },
}

impl View for BookStep {
    type V = StepModel;

    open spec fn view(&self) -> StepModel {
        match self {
            BookStep::Fetch { assembler } => StepModel::Fetch { assembler: assembler@ },
            BookStep::Done { book, warnings } => StepModel::Done {
                book: book@,
                warnings: warnings@,
            },
        }
    }
}

/// The model of a `Result` of a step or an error.
pub open spec fn step_or_error(r: Result<BookStep, GenerationError>) -> Result<
    StepModel,
    ErrorModel,
> {
    match r {
        Ok(step) => Ok(step@),
        Err(error) => Err(error@),
    }
}

/// The model of an optional index.
pub open spec fn optional_index(index: Option<Index>) -> Option<IndexModel> {
    match index {
        Some(index) => Some(index@),
        None => None,
    }
}

impl View for BookAssembler {
    type V = AssemblerModel;

    closed spec fn view(&self) -> AssemblerModel {
        AssemblerModel {
            book_url: self.book_url@,
            pending: self.pending@,
            index: optional_index(self.index),
            chapters: chapter_models(self.chapters@),
            images: self.images@,
            warnings: self.warnings@,
        }
    }
}

impl BookAssembler {
    #[verifier::type_invariant]
    spec fn valid(&self) -> bool {
        is_waiting(self@)
    }

    /// The assembler for the book at `book_url`. It waits for the index
    /// page, which is the page at that address.
    pub fn new(book_url: String) -> (r: Self)
        ensures
            r@ == (AssemblerModel {
                book_url: book_url@,
                pending: book_url@,
                index: None,
                chapters: Seq::empty(),
                images: Seq::empty(),
                warnings: Seq::empty(),
            }),
    {
        let pending = book_url.clone();
        let chapters: Vec<Chapter> = Vec::new();
        assert(chapter_models(chapters@) =~= Seq::<ChapterModel>::empty());
        BookAssembler {
            book_url,
            pending,
            index: None,
            chapters,
            images: ImageMap::new(),
            warnings: GenerationWarnings::new(),
        }
    }

    /// The address of the page that the assembler waits for.
    pub fn address(&self) -> (r: &String)
        ensures
            r@ == self@.pending,
            is_waiting(self@),
    {
        proof {
            use_type_invariant(self);
        }
        &self.pending
    }

    /// How many chapters are still to be fetched; `None` while the index
    /// page is awaited.
    pub fn remaining(&self) -> (r: Option<usize>)
        ensures
            match self@.index {
                Some(index) => r == Some((index.chapters.len() - self@.chapters.len()) as usize),
                None => r is None,
            },
    {
        proof {
            use_type_invariant(self);
        }
        match &self.index {
            Some(index) => Some(index.chapters.len() - self.chapters.len()),
            None => None,
        }
    }

    /// Goes on after a page was taken.
    fn advance(
        book_url: String,
        index: Index,
        chapters: Vec<Chapter>,
        images: ImageMap,
        warnings: GenerationWarnings,
        Ghost(before): Ghost<AssemblerModel>,
    ) -> (r: Result<BookStep, GenerationError>)
        requires
            before.book_url == book_url@,
            before.chapters == chapter_models(chapters@),
            before.images == images@,
            before.warnings == warnings@,
            before.images == images_of_chapters(before.chapters),
            follows_index(before.chapters, index@),
        ensures
            step_or_error(r) == advanced(before, index@),
    {
        let count = chapters.len();
        if count >= index.chapters.len() {
            let Index { title, author, cover_image_url, chapters: _ } = index;
            let book = Book::new(book_url, title, author, cover_image_url, chapters, images);
            Ok(BookStep::Done { book, warnings })
        } else {
            assert(index@.chapters[count as int] == (
                index.chapters@[count as int].0@,
                index.chapters@[count as int].1@,
            ));
            match string_to_url(index.chapters[count].1.as_str()) {
                Ok(pending) => {
                    let assembler = BookAssembler {
                        book_url,
                        pending,
                        index: Some(index),
                        chapters,
                        images,
                        warnings,
                    };
                    Ok(BookStep::Fetch { assembler })
                },
                Err(error) => Err(error),
            }
        }
    }

    /// Takes the markup of the page at [`BookAssembler::address`].
    ///
    /// Any error ends the assembly: the assembler is used up, and nothing
    /// more can be asked for.
    pub fn accept(self, markup: &str) -> (r: Result<BookStep, GenerationError>)
        ensures
            step_or_error(r) == accepted(self@, markup@),
    {
        proof {
            use_type_invariant(&self);
        }
        let ghost before = self@;
        let BookAssembler { book_url, pending, index, chapters, images, warnings } = self;
        match index {
            None => match read_index(book_url.as_str(), markup) {
                Ok(index) => Self::advance(
                    book_url,
                    index,
                    chapters,
                    images,
                    warnings,
                    Ghost(before),
                ),
                Err(error) => Err(error),
            },
            Some(index) => {
                let count = chapters.len();
                assert(index@.chapters[count as int] == (
                    index.chapters@[count as int].0@,
                    index.chapters@[count as int].1@,
                ));
                match Chapter::new(
                    index.chapters[count].0.as_str(),
                    pending.as_str(),
                    markup,
                ) {
                    Ok(chapter) => {
                        let mut warnings = warnings;
                        let mut chapters = chapters;
                        let found = extract_urls_and_img_tag(
                            &chapter.isolated_chapter_html,
                            &mut warnings,
                        );
                        let images = images.join(found);
                        let ghost grown = AssemblerModel {
                            chapters: before.chapters.push(chapter@),
                            images: images@,
                            warnings: warnings@,
                            ..before
                        };
                        chapters.push(chapter);
                        assert(chapter_models(chapters@) =~= grown.chapters);
                        proof {
                            assert(grown.chapters.drop_last() =~= before.chapters);
                            assert forall|j: int| 0 <= j < grown.chapters.len() implies (
                            #[trigger] grown.chapters[j]).name == index@.chapters[j].0
                                && parsed_url(index@.chapters[j].1) == Ok::<Seq<char>, Seq<char>>(
                                grown.chapters[j].url,
                            ) by {
                                if j < count {
                                    assert(grown.chapters[j] == before.chapters[j]);
                                }
                            }
                        }
                        Self::advance(book_url, index, chapters, images, warnings, Ghost(grown))
                    },
                    Err(error) => Err(error),
                }
            },
        }
    }
}

} // verus!
