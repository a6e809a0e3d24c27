//! Archiving of a serialized written work from the pages of the site that
//! hosts it.
//!
//! The library reads the markup of an index page and of chapter pages, builds
//! a [`book::Book`] from them and renders the book as an e-book package or as
//! a Markdown document. It performs no input or output itself: whoever uses
//! it fetches the pages and writes the files, in the order that the library
//! decides.

use vstd::prelude::*;

pub mod book;
pub mod epub;
pub mod file_system;
pub mod html;
pub mod http;
pub mod markdown;
pub mod misc;
pub mod text;

use vstd::string::StringExecFns;
use chrono::Local;
use chrono::SecondsFormat;
use crate::book::Book;
use crate::epub::initial_renderer;
use crate::epub::EpubRenderer;
use crate::markdown::initial_document;
use crate::markdown::next_step;
use crate::markdown::MarkdownRenderer;
use crate::markdown::MarkdownStep;
use crate::misc::Oses;

verus! {

/// struct that corresponds to arguments for Audiobook generation.
#[derive(Debug, Clone, Copy)]
pub struct AudiobookArgs {
    /// Disable the generation of chapter titles in the audio file. Useful to avoid chapter titles appearing twice.
    pub no_chapter_titles: bool,
    /// Split the novel into multiple audio files by chapter.
    pub split_novel_by_chapters: bool,
}

/// struct that corresponds to arguments for Epub generation.
#[derive(Debug, Clone, Copy)]
pub struct EpubArgs {
    /// Disable the inclusion of images.
    /// Will speed up epub generation and significantly decrease epub size.
    pub no_images: bool,
}

/// struct that corresponds to arguments for Html generation.
#[derive(Debug, Clone, Copy)]
pub struct HtmlArgs {}

/// struct that corresponds to arguments for Markdown generation.
#[derive(Debug, Clone, Copy)]
pub struct MarkdownArgs {
    /// Disable the generation of chapter titles. Useful to avoid chapter titles appearing twice.
    pub no_chapter_titles: bool,
    /// Disables the inclusion of html image tags in the markdown.
    pub no_image_tags: bool,
}

/// What an index page has to tell about a book.
#[derive(Debug, Clone, Copy, PartialEq, Eq, Structural)]
pub enum Field {
    Title,
    Author,
    CoverImageUrl,
    ChapterList,
}

/// An error struct representing all the documented errors that can occur while archiving a webnovel.
#[derive(Debug)]
pub enum GenerationError {
    /// The address could not be reached: no connection, no name, no answer in time.
    NetworkError { url: String, error: String },
    /// The address answered with a status that is no success.
    HttpStatusError { url: String, status: u16 },
    /// The index page of the book at `url` does not tell `field`.
    MissingFieldError { field: Field, url: String },
    /// The chapter list of the book at `url` could not be read.
    ParseError { url: String, error: String },
    /// The page at `url` holds no chapter content.
    ContentIsolationError { url: String },
    /// The file to write exists already; it is never overwritten.
    FileExistsError { file_path: String },
    /// The file could not be created or written.
    FileWriteError { file_path: String, error: String },
    /// This generation mode is not supported.
    UnsupportedModeError,
    /// The string is no valid Url.
    UrlParseError { string_url: String, error: String },
    /// The e-book package refused a part or could not be put together.
    PackageError { error: String },
    /// The temporary directory could not be created.
    TempDirCreationError { error: String },
    /// The html2xhtml binaries could not be extracted into the temporary directory.
    Html2XhtmlExtractionError { error: String },
    /// html2xhtml could not be started or did not finish.
    Html2XhtmlStartError { error: String },
    /// The target os is unsupported.
    OsUnsupportedError { os: Oses },
}

/// The model of a [`GenerationError`]: the same error with its texts as
/// sequences of characters.
pub enum ErrorModel {
    NetworkError { url: Seq<char>, error: Seq<char> },
    HttpStatusError { url: Seq<char>, status: u16 },
    MissingFieldError { field: Field, url: Seq<char> },
    ParseError { url: Seq<char>, error: Seq<char> },
    ContentIsolationError { url: Seq<char> },
    FileExistsError { file_path: Seq<char> },
    FileWriteError { file_path: Seq<char>, error: Seq<char> },
    UnsupportedModeError,
    UrlParseError { string_url: Seq<char>, error: Seq<char> },
    PackageError { error: Seq<char> },
    TempDirCreationError { error: Seq<char> },
    Html2XhtmlExtractionError { error: Seq<char> },
    Html2XhtmlStartError { error: Seq<char> },
    OsUnsupportedError { os: Oses },
}

impl View for GenerationError {
    type V = ErrorModel;

    open spec fn view(&self) -> ErrorModel {
        match self {
            GenerationError::NetworkError { url, error } => ErrorModel::NetworkError {
                url: url@,
                error: error@,
            },
            GenerationError::HttpStatusError { url, status } => ErrorModel::HttpStatusError {
                url: url@,
                status: *status,
            },
            GenerationError::MissingFieldError { field, url } => ErrorModel::MissingFieldError {
                field: *field,
                url: url@,
            },
            GenerationError::ParseError { url, error } => ErrorModel::ParseError {
                url: url@,
                error: error@,
            },
            GenerationError::ContentIsolationError { url } => ErrorModel::ContentIsolationError {
                url: url@,
            },
            GenerationError::FileExistsError { file_path } => ErrorModel::FileExistsError {
                file_path: file_path@,
            },
            GenerationError::FileWriteError { file_path, error } => ErrorModel::FileWriteError {
                file_path: file_path@,
                error: error@,
            },
            GenerationError::UnsupportedModeError => ErrorModel::UnsupportedModeError,
            GenerationError::UrlParseError { string_url, error } => ErrorModel::UrlParseError {
                string_url: string_url@,
                error: error@,
            },
            GenerationError::PackageError { error } => ErrorModel::PackageError { error: error@ },
            GenerationError::TempDirCreationError { error } => ErrorModel::TempDirCreationError {
                error: error@,
            },
            GenerationError::Html2XhtmlExtractionError {
                error,
            } => ErrorModel::Html2XhtmlExtractionError { error: error@ },
            GenerationError::Html2XhtmlStartError { error } => ErrorModel::Html2XhtmlStartError {
                error: error@,
            },
            GenerationError::OsUnsupportedError { os } => ErrorModel::OsUnsupportedError {
                os: *os,
            },
        }
    }
}

/// The model of a `Result` of a string or an error.
pub open spec fn text_or_error(r: Result<String, GenerationError>) -> Result<
    Seq<char>,
    ErrorModel,
> {
    match r {
        Ok(text) => Ok(text@),
        Err(error) => Err(error@),
    }
}

/// An enum to represent a warning: something went wrong that does not stop
/// the run.
#[derive(Debug)]
pub enum Warning {
    /// Warning for when no readable ``content-type`` header can be found in the response from `url`.
    MissingContentType { warning_msg: String, url: String },
    /// Warning for when a temporary directory is unable to be deleted.
    TempDirDeletionError { warning_msg: String, temp_directory_path: String, error: String },
    /// Warning for when the program can not parse a url in an image tag.
    ImageTagParseError { warning_msg: String, raw_image_tag: String, error: String },
}

/// The model of a [`Warning`].
pub enum WarningModel {
    MissingContentType { warning_msg: Seq<char>, url: Seq<char> },
    TempDirDeletionError {
        warning_msg: Seq<char>,
        temp_directory_path: Seq<char>,
        error: Seq<char>,
    },
    ImageTagParseError { warning_msg: Seq<char>, raw_image_tag: Seq<char>, error: Seq<char> },
}

impl View for Warning {
    type V = WarningModel;

    open spec fn view(&self) -> WarningModel {
        match self {
            Warning::MissingContentType { warning_msg, url } => WarningModel::MissingContentType {
                warning_msg: warning_msg@,
                url: url@,
            },
            Warning::TempDirDeletionError {
                warning_msg,
                temp_directory_path,
                error,
            } => WarningModel::TempDirDeletionError {
                warning_msg: warning_msg@,
                temp_directory_path: temp_directory_path@,
                error: error@,
            },
            Warning::ImageTagParseError {
                warning_msg,
                raw_image_tag,
                error,
            } => WarningModel::ImageTagParseError {
                warning_msg: warning_msg@,
                raw_image_tag: raw_image_tag@,
                error: error@,
            },
        }
    }
}

/// The models of a sequence of warnings.
pub open spec fn warning_models(warnings: Seq<Warning>) -> Seq<WarningModel> {
    Seq::new(warnings.len(), |i: int| warnings[i]@)
}

/// A struct that contains a vector of warnings, in the order in which they
/// were given.
pub struct GenerationWarnings {
    warnings: Vec<Warning>,
}

impl View for GenerationWarnings {
    type V = Seq<WarningModel>;

    closed spec fn view(&self) -> Seq<WarningModel> {
        warning_models(self.warnings@)
    }
}

impl GenerationWarnings {
    /// The collector without warnings.
    pub fn new() -> (r: Self)
        ensures
            r@ == Seq::<WarningModel>::empty(),
    {
        let r = GenerationWarnings { warnings: Vec::new() };
        assert(r@ =~= Seq::<WarningModel>::empty());
        r
    }

    /// Push a warning into this struct.
    pub fn add_warning(&mut self, warning: Warning)
        ensures
            final(self)@ == old(self)@.push(warning@),
    {
        self.warnings.push(warning);
        assert(self@ =~= old(self)@.push(warning@));
    }

    /// The warnings, first given first.
    pub fn get_warnings(&self) -> (r: &Vec<Warning>)
        ensures
            warning_models(r@) == self@,
    {
        &self.warnings
    }

    /// Returns how many warnings have been accumulated.
    pub fn warnings_count(&self) -> (r: usize)
        ensures
            r == self@.len(),
    {
        self.warnings.len()
    }

    /// Moves the warnings of `other` behind those of `self`.
    pub fn append(&mut self, other: GenerationWarnings)
        ensures
            final(self)@ == old(self)@ + other@,
    {
        let mut rest = other.warnings;
        let ghost moved = warning_models(rest@);
        self.warnings.append(&mut rest);
        assert(self@ =~= old(self)@ + moved);
    }
}

/// Generate an audiobook from the given arguments, url, & outputs it to the output directory.
///
/// No rendering is defined for this format: the call fails at once and
/// nothing is fetched or written.
pub fn generate_audiobook(
    audiobook_args: AudiobookArgs,
    book_url: &str,
    output_directory: &str,
) -> (r: Result<GenerationWarnings, GenerationError>)
    ensures
        r matches Err(error) && error@ == ErrorModel::UnsupportedModeError,
{
    Err(GenerationError::UnsupportedModeError)
}

/// Generate an html archive from the given arguments, url, & outputs it to the output directory.
///
/// No rendering is defined for this format: the call fails at once and
/// nothing is fetched or written.
pub fn generate_html(html_args: HtmlArgs, book_url: &str, output_directory: &str) -> (r: Result<
    GenerationWarnings,
    GenerationError,
>)
    ensures
        r matches Err(error) && error@ == ErrorModel::UnsupportedModeError,
{
    Err(GenerationError::UnsupportedModeError)
}

/// What holds of every time that is written as RFC 3339 with whole seconds
/// and a numeric offset: a date of at least ten characters, the letter `T`,
/// eight characters of time and six of offset, with colons in the time and
/// in the offset.
pub open spec fn is_timestamp(text: Seq<char>) -> bool {
    &&& text.len() >= 25
    &&& text[text.len() - 15] == 'T'
    &&& text[text.len() - 12] == ':'
    &&& text[text.len() - 9] == ':'
    &&& text[text.len() - 3] == ':'
}

/// The local time of this moment, written by `chrono` as RFC 3339 with
/// seconds and a numeric offset: `Local::now`, then
/// `DateTime::to_rfc3339_opts`. The text is different each time; what is
/// said of it is its form.
#[verifier::external_body]
fn archive_timestamp() -> (r: String)
    ensures
        is_timestamp(r@),
{
    Local::now().to_rfc3339_opts(SecondsFormat::Secs, false)
}

/// Generate a markdown file from the given arguments & book.
///
/// What is returned is the first step of a [`MarkdownRenderer`] with the
/// time of this call as the time of archiving: the markup of the first
/// chapter, to be converted, or the finished document for a book without
/// chapters. The document is to be written to a new file; a file that
/// exists is never overwritten.
pub fn generate_markdown(markdown_args: MarkdownArgs, book: Book) -> (r: MarkdownStep)
    ensures
        exists|archived_on: Seq<char>|
            is_timestamp(archived_on) && r@ == next_step(
                #[trigger] initial_document(book@, markdown_args, archived_on),
            ),
{
    let archived_on = archive_timestamp();
    MarkdownRenderer::begin(book, markdown_args, archived_on)
}

/// Generate an epub file from the given arguments & book.
///
/// What is returned is the renderer at its first stage, with the time of
/// this call as the time of archiving. The package comes about by handing
/// the renderer the outcome of what it asks for, step by step.
pub fn generate_epub(epub_args: EpubArgs, book: Book, warnings: GenerationWarnings) -> (r:
    EpubRenderer)
    ensures
        exists|archived_on: Seq<char>|
            is_timestamp(archived_on) && r@ == #[trigger] initial_renderer(
                book@,
                epub_args.no_images,
                archived_on,
                warnings@,
            ),
{
    let archived_on = archive_timestamp();
    EpubRenderer::new(book, epub_args.no_images, archived_on, warnings)
}

} // verus!
