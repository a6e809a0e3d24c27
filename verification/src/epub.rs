//! The e-book package: a book as an EPUB file.
//!
//! An [`EpubRenderer`] goes through the stages of [`EpubStage`]. It asks for
//! what it cannot do itself (fetching the cover and the images, normalizing
//! the markup of a chapter, writing the file) one request at a time, and
//! takes the outcome as an [`EpubEvent`]. The package itself is put together
//! by `epub_builder`.

use vstd::prelude::*;
use vstd::string::StringExecFns;
use epub_builder::EpubBuilder;
use epub_builder::EpubContent;
use epub_builder::ReferenceType;
use epub_builder::ZipLibrary;
use crate::book::Book;
use crate::book::BookModel;
use crate::book::Chapter;
use crate::book::ChapterModel;
use crate::html::fragment_serialization;
use crate::html::pair_models;
use crate::html::remove_image_tags;
use crate::html::replace_img_src;
use crate::html::serialization;
use crate::html::source_value;
use crate::html::string_to_html_fragment;
use crate::html::with_source;
use crate::html::without_image_tags;
use crate::html::without_nbsp;
use crate::http::file_extension_of;
use crate::http::missing_content_type_message;
use crate::http::HttpResponse;
use crate::http::ResponseModel;
use crate::misc::Images;
use crate::text::decimal;
use crate::text::decimal_text;
use crate::text::replace_all;
use crate::text::replaced;
use crate::text::texts;
use vstd::utf8::encode_utf8;
use crate::ErrorModel;
use crate::GenerationError;
use crate::GenerationWarnings;
use crate::WarningModel;

verus! {

/// The stages of rendering a package, in their order. Images are either
/// attached or skipped.
#[derive(Debug, Clone, Copy, PartialEq, Eq, Structural)]
pub enum EpubStage {
    Init,
    MetadataAttached,
    CoverAttached,
    ImagesAttached,
    ImagesSkipped,
    ChaptersAttached,
    Finalized,
    WrittenToDisk,
}

/// The place of a stage in the order of the stages; the two stages for
/// images share a place.
pub open spec fn stage_rank(stage: EpubStage) -> nat {
    match stage {
        EpubStage::Init => 0,
        EpubStage::MetadataAttached => 1,
        EpubStage::CoverAttached => 2,
        EpubStage::ImagesAttached => 3,
        EpubStage::ImagesSkipped => 3,
        EpubStage::ChaptersAttached => 4,
        EpubStage::Finalized => 5,
        EpubStage::WrittenToDisk => 6,
    }
}

/// A file of the package that is no part of the text: the cover or an image.
pub struct Resource {
    pub file_name: String,
    pub mime_type: String,
    pub content: Vec<u8>,
}

/// The model of a [`Resource`].
pub struct ResourceModel {
    pub file_name: Seq<char>,
    pub mime_type: Seq<char>,
    pub content: Seq<u8>,
}

impl View for Resource {
    type V = ResourceModel;

    open spec fn view(&self) -> ResourceModel {
        ResourceModel {
            file_name: self.file_name@,
            mime_type: self.mime_type@,
            content: self.content@,
        }
    }
}

/// The models of a list of resources.
pub open spec fn resource_models(resources: Seq<Resource>) -> Seq<ResourceModel> {
    Seq::new(resources.len(), |i: int| resources[i]@)
}

/// The model of an optional resource.
pub open spec fn optional_resource(resource: Option<Resource>) -> Option<ResourceModel> {
    match resource {
        Some(resource) => Some(resource@),
        None => None,
    }
}

/// A titled part of the text of the package: the cover page or a chapter.
pub struct Section {
    pub file_name: String,
    pub title: String,
    pub content: String,
}

/// The model of a [`Section`].
pub struct SectionModel {
    pub file_name: Seq<char>,
    pub title: Seq<char>,
    pub content: Seq<char>,
}

impl View for Section {
    type V = SectionModel;

    open spec fn view(&self) -> SectionModel {
        SectionModel { file_name: self.file_name@, title: self.title@, content: self.content@ }
    }
}

/// The models of a list of sections.
pub open spec fn section_models(sections: Seq<Section>) -> Seq<SectionModel> {
    Seq::new(sections.len(), |i: int| sections[i]@)
}

/// The model of an optional section.
pub open spec fn optional_section(section: Option<Section>) -> Option<SectionModel> {
    match section {
        Some(section) => Some(section@),
        None => None,
    }
}

/// The stylesheet of every package.
pub open spec fn stylesheet() -> Seq<char> {
    "body { margin: 5%; }\nimg { max-width: 100%; height: auto; }\n"@
}

/// What stands before the body of the cover page.
pub open spec fn page_head() -> Seq<char> {
    "<?xml version=\"1.0\" encoding=\"UTF-8\"?>\n<html xmlns=\"http://www.w3.org/1999/xhtml\" xmlns:epub=\"http://www.idpf.org/2007/ops\">\n"@
}

/// What stands behind the body of the cover page.
pub open spec fn page_tail() -> Seq<char> {
    "\n</html>"@
}

/// The file name of the cover image with the extension `extension`.
pub open spec fn cover_file_name(extension: Seq<char>) -> Seq<char> {
    "cover."@ + extension
}

/// The cover page: the title as a link to the book, the cover image, the
/// author and the time of archiving.
pub open spec fn cover_page(
    book_url: Seq<char>,
    title: Seq<char>,
    author: Seq<char>,
    extension: Seq<char>,
    archived_on: Seq<char>,
) -> Seq<char> {
    page_head() + "<head></head><body><div style=\"text-align: center;\">\n        <h1><a href=\""@
        + book_url + "\">"@ + title + "</a></h1>\n        <img src=\"cover."@ + extension
        + "\"/>\n        <h2>by: "@ + author + "</h2>\n        <h3>Archived on: "@ + archived_on
        + "</h3></div></body>"@ + page_tail()
}

/// The file name of image number `index`, counted from zero.
pub open spec fn image_file_name(index: nat, extension: Seq<char>) -> Seq<char> {
    "image_"@ + decimal(index) + "."@ + extension
}

/// The file name of chapter number `index`, counted from zero: chapters are
/// named from one.
pub open spec fn chapter_file_name(index: nat) -> Seq<char> {
    "chapter_"@ + decimal(index + 1) + ".xhtml"@
}

/// The file name of the package of a book.
pub open spec fn package_file_name(file_name_title: Seq<char>) -> Seq<char> {
    file_name_title + ".epub"@
}

/// The tag that takes the place of `tag` once its image is in the package
/// under `file_name`.
pub open spec fn new_tag(tag: Seq<char>, file_name: Seq<char>) -> Seq<char> {
    with_source(tag, source_value(tag), file_name)
}

/// For each of `tags`, the tag and the tag that takes its place.
pub open spec fn substitutions_for(tags: Seq<Seq<char>>, file_name: Seq<char>) -> Seq<
    (Seq<char>, Seq<char>),
> {
    Seq::new(tags.len(), |i: int| (tags[i], new_tag(tags[i], file_name)))
}

/// `text` after each substitution was made in it, one after the other, each
/// wherever its tag occurs.
pub open spec fn substituted(text: Seq<char>, substitutions: Seq<(Seq<char>, Seq<char>)>) -> Seq<
    char,
>
    decreases substitutions.len(),
{
    if substitutions.len() == 0 {
        text
    } else {
        replace_all(
            substituted(text, substitutions.drop_last()),
            substitutions.last().0,
            substitutions.last().1,
        )
    }
}

/// The markup of a chapter that is handed to normalization: without image
/// tags where images are switched off, else with every image tag replaced
/// by the tag that points into the package; then read as a fragment once
/// more, and freed of no-break space entities.
pub open spec fn chapter_input(
    chapter: ChapterModel,
    no_images: bool,
    substitutions: Seq<(Seq<char>, Seq<char>)>,
) -> Seq<char> {
    let markup = if no_images {
        without_image_tags(chapter.content)
    } else {
        substituted(serialization(chapter.content), substitutions)
    };
    replace_all(fragment_serialization(markup), "&nbsp;"@, " "@)
}

/// The model of an [`EpubRenderer`].
pub struct RendererModel {
    pub stage: EpubStage,
    pub book: BookModel,
    pub no_images: bool,
    pub archived_on: Seq<char>,
    pub cover: Option<ResourceModel>,
    pub cover_page: Option<SectionModel>,
    pub images: Seq<ResourceModel>,
    pub substitutions: Seq<(Seq<char>, Seq<char>)>,
    pub chapters: Seq<SectionModel>,
    pub warnings: Seq<WarningModel>,
}

/// The model of an [`EpubEvent`].
pub enum EventModel {
    Start,
    Fetched { response: ResponseModel },
    Normalized { xhtml: Seq<char> },
    Written,
}

/// The content type and the file extension of a response, and the warnings
/// after it was read: a response without content type has neither and adds
/// a warning.
pub open spec fn content_type_of(response: ResponseModel, warnings: Seq<WarningModel>) -> (
    Seq<char>,
    Seq<char>,
    Seq<WarningModel>,
) {
    match response.content_type {
        Some(content_type) => (content_type, file_extension_of(content_type), warnings),
        None => (
            ""@,
            ""@,
            warnings.push(
                WarningModel::MissingContentType {
                    warning_msg: missing_content_type_message(),
                    url: response.url,
                },
            ),
        ),
    }
}

/// The renderer after it has taken `event`; `None` where the event does not
/// answer what the renderer asked for.
pub open spec fn after_event(renderer: RendererModel, event: EventModel) -> Option<RendererModel> {
    match (renderer.stage, event) {
        (EpubStage::Init, EventModel::Start) => Some(
            RendererModel { stage: EpubStage::MetadataAttached, ..renderer },
        ),
        (EpubStage::MetadataAttached, EventModel::Fetched { response }) => {
            let read = content_type_of(response, renderer.warnings);
            Some(
                RendererModel {
                    stage: EpubStage::CoverAttached,
                    cover: Some(
                        ResourceModel {
                            file_name: cover_file_name(read.1),
                            mime_type: read.0,
                            content: response.body,
                        },
                    ),
                    cover_page: Some(
                        SectionModel {
                            file_name: "title.xhtml"@,
                            title: "Cover"@,
                            content: cover_page(
                                renderer.book.book_url,
                                renderer.book.title,
                                renderer.book.author,
                                read.1,
                                renderer.archived_on,
                            ),
                        },
                    ),
                    warnings: read.2,
                    ..renderer
                },
            )
        },
        (EpubStage::CoverAttached, EventModel::Fetched { response }) => {
            let index = renderer.images.len();
            if !renderer.no_images && index < renderer.book.images.len() {
                let read = content_type_of(response, renderer.warnings);
                let file_name = image_file_name(index, read.1);
                Some(
                    RendererModel {
                        images: renderer.images.push(
                            ResourceModel { file_name, mime_type: read.0, content: response.body },
                        ),
                        substitutions: renderer.substitutions + substitutions_for(
                            renderer.book.images[index as int].1,
                            file_name,
                        ),
                        warnings: read.2,
                        ..renderer
                    },
                )
            } else {
                None
            }
        },
        (EpubStage::ImagesAttached, EventModel::Normalized { xhtml }) => with_chapter(
            renderer,
            xhtml,
        ),
        (EpubStage::ImagesSkipped, EventModel::Normalized { xhtml }) => with_chapter(
            renderer,
            xhtml,
        ),
        (EpubStage::Finalized, EventModel::Written) => Some(
            RendererModel { stage: EpubStage::WrittenToDisk, ..renderer },
        ),
        _ => None,
    }
}

/// The renderer after the normalized markup of its next chapter was added
/// as a section; `None` where every chapter has its section.
pub open spec fn with_chapter(renderer: RendererModel, xhtml: Seq<char>) -> Option<RendererModel> {
    let index = renderer.chapters.len();
    if index < renderer.book.chapters.len() {
        Some(
            RendererModel {
                chapters: renderer.chapters.push(
                    SectionModel {
                        file_name: chapter_file_name(index),
                        title: renderer.book.chapters[index as int].name,
                        content: xhtml,
                    },
                ),
                ..renderer
            },
        )
    } else {
        None
    }
}

/// The renderer after it went on through the stages that need nothing from
/// outside: once the cover is attached, images are skipped where they are
/// switched off and are attached once each has been fetched; once that is
/// settled, chapters are attached once each has its section.
pub open spec fn settled(renderer: RendererModel) -> RendererModel {
    let with_images = if renderer.stage == EpubStage::CoverAttached {
        if renderer.no_images {
            RendererModel { stage: EpubStage::ImagesSkipped, ..renderer }
        } else if renderer.images.len() >= renderer.book.images.len() {
            RendererModel { stage: EpubStage::ImagesAttached, ..renderer }
        } else {
            renderer
        }
    } else {
        renderer
    };
    if (with_images.stage == EpubStage::ImagesAttached || with_images.stage
        == EpubStage::ImagesSkipped) && with_images.chapters.len()
        >= with_images.book.chapters.len() {
        RendererModel { stage: EpubStage::ChaptersAttached, ..with_images }
    } else {
        with_images
    }
}

/// The message of the error for an event that answers nothing.
pub open spec fn unexpected_event_message() -> Seq<char> {
    "the renderer did not ask for this"@
}

/// Whether `step` is what a renderer that is `renderer` after an event does
/// next.
///
/// With the metadata attached it asks for the cover; with the cover
/// attached, for the next image, in the order of the image mapping; with
/// the images settled, for the normalization of the next chapter, in the
/// order of the book. With the chapters attached it puts the package
/// together with [`write_package`], from the cover, the cover page, the
/// images and the sections that it holds: that gives the bytes to write
/// under the file name of the book, which come from a builder that took
/// every one of these parts, or fails. Once the file is written it is done and hands out the warnings.
pub open spec fn step_follows(renderer: RendererModel, step: Result<EpubStep, GenerationError>)
    -> bool {
    match renderer.stage {
        EpubStage::MetadataAttached => step matches Ok(EpubStep::Fetch { renderer: next, address })
            && next@ == renderer && address@ == renderer.book.cover_image_url,
        EpubStage::CoverAttached => step matches Ok(EpubStep::Fetch { renderer: next, address })
            && next@ == renderer && address@ == renderer.book.images[renderer.images.len() as int].0,
        EpubStage::ImagesAttached | EpubStage::ImagesSkipped => step matches Ok(
            EpubStep::Normalize { renderer: next, markup },
        ) && next@ == renderer && markup@ == chapter_input(
            renderer.book.chapters[renderer.chapters.len() as int],
            renderer.no_images,
            renderer.substitutions,
        ),
        EpubStage::ChaptersAttached => match step {
            Ok(EpubStep::Write { renderer: next, file_name, content }) => {
                &&& next@ == (RendererModel { stage: EpubStage::Finalized, ..renderer })
                &&& file_name@ == package_file_name(renderer.book.file_name_title)
                &&& renderer.cover is Some
                &&& renderer.cover_page is Some
                &&& package_made(
                    renderer.book.author,
                    renderer.book.title,
                    renderer.cover->0,
                    renderer.cover_page->0,
                    renderer.images,
                    renderer.chapters,
                )
            },
            Err(error) => error@ is PackageError,
            _ => false,
        },
        EpubStage::WrittenToDisk => step matches Ok(EpubStep::Done { warnings }) && warnings@
            == renderer.warnings,
        EpubStage::Init => false,
        EpubStage::Finalized => false,
    }
}

/// What a renderer does with an event: an event that answers nothing is an
/// error; any other event is taken, and the renderer goes on as far as it
/// can by itself.
pub open spec fn step_allowed(
    renderer: RendererModel,
    event: EventModel,
    step: Result<EpubStep, GenerationError>,
) -> bool {
    match after_event(renderer, event) {
        Some(next) => step_follows(settled(next), step),
        None => step matches Err(error) && error@ == (ErrorModel::PackageError {
            error: unexpected_event_message(),
        }),
    }
}

/// An event never takes a renderer back: the stage after it, and after the
/// renderer went on by itself, is the stage before it or a later one.
pub proof fn lemma_stages_advance(renderer: RendererModel, event: EventModel)
    requires
        after_event(renderer, event) is Some,
    ensures
        stage_rank(renderer.stage) <= stage_rank(after_event(renderer, event)->0.stage),
        stage_rank(after_event(renderer, event)->0.stage) <= stage_rank(
            settled(after_event(renderer, event)->0).stage,
        ),
        settled(after_event(renderer, event)->0).book == renderer.book,
{
}

/// The package builder of `epub_builder`, an `EpubBuilder` over a
/// `ZipLibrary`. Parts go in, and at the end the bytes of the package come
/// out. What the builder holds is told by [`package_files`],
/// [`package_data`], [`package_title`], [`package_authors`] and
/// [`package_toc_name`].
///
/// The parameter of `EpubBuilder` is bounded by a trait that its crate keeps
/// private, so the type cannot be declared to Verus as it is; the builder is
/// held in this struct instead, whose inside Verus does not read.
#[verifier::external_body]
pub struct PackageBuilder {
    inner: EpubBuilder<ZipLibrary>,
}

/// A file as a builder lists it: its name, its type, its title, and whether
/// it is the cover image.
pub type Part = (Seq<char>, Seq<char>, Seq<char>, bool);

/// The files that a builder lists, in the order in which it accepted them:
/// the field `files` of `EpubBuilder`, each file as its name, its type, its
/// title and its mark as cover image.
pub uninterp spec fn package_files(builder: PackageBuilder) -> Seq<
    (Seq<char>, Seq<char>, Seq<char>, bool),
>;

/// The contents that the archive of a builder took, in the order in which
/// it took them: for each file that was written into the archive, the bytes
/// that were written.
pub uninterp spec fn package_data(builder: PackageBuilder) -> Seq<Seq<u8>>;

/// The title in the metadata of a builder.
pub uninterp spec fn package_title(builder: PackageBuilder) -> Seq<char>;

/// The authors in the metadata of a builder.
pub uninterp spec fn package_authors(builder: PackageBuilder) -> Seq<Seq<char>>;

/// The name of the table of contents in the metadata of a builder.
pub uninterp spec fn package_toc_name(builder: PackageBuilder) -> Seq<char>;

/// `after` has the title, the authors and the name of the table of contents
/// that `before` has.
pub open spec fn same_metadata(before: PackageBuilder, after: PackageBuilder) -> bool {
    &&& package_title(after) == package_title(before)
    &&& package_authors(after) == package_authors(before)
    &&& package_toc_name(after) == package_toc_name(before)
}

/// What a builder holds after it was handed `part` with the content
/// `data`. Where it accepted the part, the part stands behind the files it
/// listed before, and the content behind the contents that its archive took
/// before. Where it refused, its list is as before, and nothing is said of
/// its archive, which may hold a piece of the content. Its metadata is as
/// before either way.
pub open spec fn part_handed(
    before: PackageBuilder,
    after: PackageBuilder,
    accepted: bool,
    part: Part,
    data: Seq<u8>,
) -> bool {
    &&& same_metadata(before, after)
    &&& package_files(after) == if accepted {
        package_files(before).push(part)
    } else {
        package_files(before)
    }
    &&& accepted ==> package_data(after) == package_data(before).push(data)
}

/// The type of every section.
pub open spec fn section_type() -> Seq<char> {
    "application/xhtml+xml"@
}

/// The stylesheet as a builder lists it.
pub open spec fn stylesheet_part() -> Part {
    ("stylesheet.css"@, "text/css"@, ""@, false)
}

/// The table of contents as a builder lists it.
pub open spec fn toc_part(toc_name: Seq<char>) -> Part {
    ("toc.xhtml"@, section_type(), toc_name, false)
}

/// A resource as a builder lists it.
pub open spec fn resource_part(resource: ResourceModel, cover: bool) -> Part {
    (resource.file_name, resource.mime_type, ""@, cover)
}

/// A section as a builder lists it.
pub open spec fn section_part(section: SectionModel) -> Part {
    (section.file_name, section_type(), section.title, false)
}

/// Resources that are no cover, as a builder lists them.
pub open spec fn resource_parts(resources: Seq<ResourceModel>) -> Seq<Part> {
    Seq::new(resources.len(), |i: int| resource_part(resources[i], false))
}

/// Sections as a builder lists them.
pub open spec fn section_parts(sections: Seq<SectionModel>) -> Seq<Part> {
    Seq::new(sections.len(), |i: int| section_part(sections[i]))
}

/// The files of a package, in the order in which they are handed to the
/// builder: the stylesheet, the cover image, the cover page, the table of
/// contents, the images in their order, and the chapters in their order.
pub open spec fn expected_files(
    toc_name: Seq<char>,
    cover: ResourceModel,
    cover_page: SectionModel,
    images: Seq<ResourceModel>,
    chapters: Seq<SectionModel>,
) -> Seq<Part> {
    seq![
        stylesheet_part(),
        resource_part(cover, true),
        section_part(cover_page),
        toc_part(toc_name),
    ] + resource_parts(images) + section_parts(chapters)
}

/// The contents of the files of a package, in the order in which they are
/// handed to the builder: the stylesheet, the cover image, the cover page,
/// the images and the chapters, texts in UTF-8. The table of contents has
/// no content before the package is written.
pub open spec fn expected_data(
    cover: ResourceModel,
    cover_page: SectionModel,
    images: Seq<ResourceModel>,
    chapters: Seq<SectionModel>,
) -> Seq<Seq<u8>> {
    seq![encode_utf8(stylesheet()), cover.content, encode_utf8(cover_page.content)] + Seq::new(
        images.len(),
        |i: int| images[i].content,
    ) + Seq::new(chapters.len(), |i: int| encode_utf8(chapters[i].content))
}

/// The authors of a builder after `author` was handed to it: an empty
/// author clears the list, any other is added to it.
pub open spec fn authors_with(authors: Seq<Seq<char>>, author: Seq<char>) -> Seq<Seq<char>> {
    if author.len() == 0 {
        Seq::empty()
    } else {
        authors.push(author)
    }
}

/// What a section is in the package.
#[derive(Debug, Clone, Copy, PartialEq, Eq, Structural)]
enum SectionKind {
    Cover,
    Text,
}

/// A new builder: `ZipLibrary::new`, then `EpubBuilder::new`. Either may
/// fail; the message of the failure is handed out. A new builder lists no
/// file and has the metadata of `Metadata::default`: no title, no author,
/// and `Table Of Contents` as the name of the table of contents.
#[verifier::external_body]
fn new_builder() -> (r: Result<PackageBuilder, String>)
    ensures
        r matches Ok(builder) ==> {
            &&& package_files(builder) == Seq::<(Seq<char>, Seq<char>, Seq<char>, bool)>::empty()
            &&& package_title(builder) == ""@
            &&& package_authors(builder) == Seq::<Seq<char>>::empty()
            &&& package_toc_name(builder) == "Table Of Contents"@
        },
{
    match ZipLibrary::new() {
        Ok(zip) => match EpubBuilder::new(zip) {
            Ok(inner) => Ok(PackageBuilder { inner }),
            Err(error) => Err(error.to_string()),
        },
        Err(error) => Err(error.to_string()),
    }
}

/// Sets the stylesheet with `EpubBuilder::stylesheet`, which lists it as
/// the resource `stylesheet.css` of the type `text/css` once the archive
/// has taken it.
#[verifier::external_body]
fn builder_stylesheet(builder: &mut PackageBuilder, css: &str) -> (r: Result<(), String>)
    ensures
        part_handed(
            *old(builder),
            *final(builder),
            r is Ok,
            stylesheet_part(),
            encode_utf8(css@),
        ),
{
    match builder.inner.stylesheet(css.as_bytes()) {
        Ok(_) => Ok(()),
        Err(error) => Err(error.to_string()),
    }
}

/// Sets a piece of metadata with `EpubBuilder::metadata`. The list of files
/// stays as it is. The key `author` is always accepted: an empty value
/// clears the authors, any other is added to them. The key `title` is
/// always accepted and sets the title. No other key touches the authors or
/// the title, and only the key `toc_name` touches the name of the table of
/// contents.
#[verifier::external_body]
fn builder_metadata(builder: &mut PackageBuilder, key: &str, value: &str) -> (r: Result<
    (),
    String,
>)
    ensures
        package_files(*final(builder)) == package_files(*old(builder)),
        package_data(*final(builder)) == package_data(*old(builder)),
        key@ == "author"@ ==> r is Ok && package_authors(*final(builder)) == authors_with(
            package_authors(*old(builder)),
            value@,
        ),
        key@ != "author"@ ==> package_authors(*final(builder)) == package_authors(*old(builder)),
        key@ == "title"@ ==> r is Ok && package_title(*final(builder)) == value@,
        key@ != "title"@ ==> package_title(*final(builder)) == package_title(*old(builder)),
        key@ != "toc_name"@ ==> package_toc_name(*final(builder)) == package_toc_name(
            *old(builder),
        ),
{
    match builder.inner.metadata(key, value) {
        Ok(_) => Ok(()),
        Err(error) => Err(error.to_string()),
    }
}

/// Adds the cover image with `EpubBuilder::add_cover_image`, which lists it
/// under its name and type, marked as the cover, once the archive has taken
/// it.
#[verifier::external_body]
fn builder_cover_image(builder: &mut PackageBuilder, resource: &Resource) -> (r: Result<
    (),
    String,
>)
    ensures
        part_handed(
            *old(builder),
            *final(builder),
            r is Ok,
            resource_part(resource@, true),
            resource@.content,
        ),
{
    match builder.inner.add_cover_image(
        resource.file_name.as_str(),
        resource.content.as_slice(),
        resource.mime_type.as_str(),
    ) {
        Ok(_) => Ok(()),
        Err(error) => Err(error.to_string()),
    }
}

/// Adds a resource with `EpubBuilder::add_resource`, which lists it under
/// its name and type once the archive has taken it.
#[verifier::external_body]
fn builder_resource(builder: &mut PackageBuilder, resource: &Resource) -> (r: Result<(), String>)
    ensures
        part_handed(
            *old(builder),
            *final(builder),
            r is Ok,
            resource_part(resource@, false),
            resource@.content,
        ),
{
    match builder.inner.add_resource(
        resource.file_name.as_str(),
        resource.content.as_slice(),
        resource.mime_type.as_str(),
    ) {
        Ok(_) => Ok(()),
        Err(error) => Err(error.to_string()),
    }
}

/// Adds a titled section with `EpubBuilder::add_content`, as the cover or
/// as text. The builder lists it under its name, with its title and the
/// type of sections, once the archive has taken it.
#[verifier::external_body]
fn builder_content(builder: &mut PackageBuilder, section: &Section, kind: SectionKind) -> (r:
    Result<(), String>)
    ensures
        part_handed(
            *old(builder),
            *final(builder),
            r is Ok,
            section_part(section@),
            encode_utf8(section@.content),
        ),
{
    let reference = match kind {
        SectionKind::Cover => ReferenceType::Cover,
        SectionKind::Text => ReferenceType::Text,
    };
    let content = EpubContent::new(section.file_name.as_str(), section.content.as_bytes())
        .title(section.title.as_str()).reftype(reference);
    match builder.inner.add_content(content) {
        Ok(_) => Ok(()),
        Err(error) => Err(error.to_string()),
    }
}

/// Adds a table of contents at this place with `EpubBuilder::inline_toc`,
/// which lists it as `toc.xhtml`, titled with the name of the table of
/// contents. Nothing is written into the archive for it yet.
#[verifier::external_body]
fn builder_inline_toc(builder: &mut PackageBuilder)
    ensures
        same_metadata(*old(builder), *final(builder)),
        package_files(*final(builder)) == package_files(*old(builder)).push(
            toc_part(package_toc_name(*old(builder))),
        ),
        package_data(*final(builder)) == package_data(*old(builder)),
{
    builder.inner.inline_toc();
}

/// Writes the package with `EpubBuilder::generate` and hands out its bytes.
/// The bytes hold the time of writing and an identifier that is made up
/// anew each time, so nothing is said of them.
#[verifier::external_body]
fn builder_generate(builder: &mut PackageBuilder) -> (r: Result<Vec<u8>, String>) {
    let mut bytes: Vec<u8> = Vec::new();
    match builder.inner.generate(&mut bytes) {
        Ok(_) => Ok(bytes),
        Err(error) => Err(error.to_string()),
    }
}

/// The error for a failure of the package builder, given the message of
/// the builder.
pub fn package_error(error: String) -> (r: GenerationError)
    ensures
        r@ == (ErrorModel::PackageError { error: error@ }),
{
    GenerationError::PackageError { error }
}

/// What a builder holds once a package was filled into it: behind the
/// files that it listed before stand the files of the package, in their
/// order, and behind the contents that its archive took before stand their
/// contents; its title is `title`, and `author` is added to its authors.
pub open spec fn package_filled(
    before: PackageBuilder,
    after: PackageBuilder,
    author: Seq<char>,
    title: Seq<char>,
    cover: ResourceModel,
    cover_page: SectionModel,
    images: Seq<ResourceModel>,
    chapters: Seq<SectionModel>,
) -> bool {
    &&& package_files(after) == package_files(before) + expected_files(
        package_toc_name(before),
        cover,
        cover_page,
        images,
        chapters,
    )
    &&& package_data(after) == package_data(before) + expected_data(
        cover,
        cover_page,
        images,
        chapters,
    )
    &&& package_title(after) == title
    &&& package_authors(after) == authors_with(package_authors(before), author)
    &&& package_toc_name(after) == package_toc_name(before)
}

/// Hands the parts of a package to `builder`, in this order: the
/// stylesheet, the author, the title, the cover image, the cover page, the
/// table of contents, the images, and the chapters. The first part that the
/// builder refuses ends the work with a package error.
pub fn fill_package(
    builder: &mut PackageBuilder,
    author: &str,
    title: &str,
    cover: &Resource,
    cover_page: &Section,
    images: &Vec<Resource>,
    chapters: &Vec<Section>,
) -> (r: Result<(), GenerationError>)
    ensures
        r matches Err(error) ==> error@ is PackageError,
        r is Ok ==> package_filled(
            *old(builder),
            *final(builder),
            author@,
            title@,
            cover@,
            cover_page@,
            resource_models(images@),
            section_models(chapters@),
        ),
{
    let ghost before = *builder;
    let ghost toc_name = package_toc_name(before);
    proof {
        reveal_strlit("author");
        reveal_strlit("title");
        reveal_strlit("toc_name");
        assert("author"@.len() == 6 && "title"@.len() == 5 && "toc_name"@.len() == 8);
    }
    match builder_stylesheet(
        builder,
        "body { margin: 5%; }\nimg { max-width: 100%; height: auto; }\n",
    ) {
        Ok(_) => {},
        Err(error) => {
            return Err(package_error(error));
        },
    }
    match builder_metadata(builder, "author", author) {
        Ok(_) => {},
        Err(error) => {
            return Err(package_error(error));
        },
    }
    match builder_metadata(builder, "title", title) {
        Ok(_) => {},
        Err(error) => {
            return Err(package_error(error));
        },
    }
    match builder_cover_image(builder, cover) {
        Ok(_) => {},
        Err(error) => {
            return Err(package_error(error));
        },
    }
    match builder_content(builder, cover_page, SectionKind::Cover) {
        Ok(_) => {},
        Err(error) => {
            return Err(package_error(error));
        },
    }
    builder_inline_toc(builder);
    let ghost head = package_files(before) + seq![
        stylesheet_part(),
        resource_part(cover@, true),
        section_part(cover_page@),
        toc_part(toc_name),
    ];
    assert(package_files(*builder) =~= head);
    let ghost head_data = package_data(before) + seq![
        encode_utf8(stylesheet()),
        cover@.content,
        encode_utf8(cover_page@.content),
    ];
    assert(package_data(*builder) =~= head_data);
    let ghost all_images = resource_parts(resource_models(images@));
    let ghost image_data = Seq::new(
        images@.len(),
        |i: int| resource_models(images@)[i].content,
    );
    let mut i: usize = 0;
    assert(head + all_images.take(0) =~= head);
    assert(head_data + image_data.take(0) =~= head_data);
    while i < images.len()
        invariant
            i <= images@.len(),
            all_images == resource_parts(resource_models(images@)),
            image_data == Seq::new(images@.len(), |i: int| resource_models(images@)[i].content),
            package_files(*builder) == head + all_images.take(i as int),
            package_data(*builder) == head_data + image_data.take(i as int),
            package_title(*builder) == title@,
            package_authors(*builder) == authors_with(package_authors(before), author@),
            package_toc_name(*builder) == toc_name,
        decreases images@.len() - i,
    {
        match builder_resource(builder, &images[i]) {
            Ok(_) => {},
            Err(error) => {
                return Err(package_error(error));
            },
        }
        proof {
            assert(all_images[i as int] == resource_part(images@[i as int]@, false));
            assert(head + all_images.take(i + 1) =~= (head + all_images.take(i as int)).push(
                all_images[i as int],
            ));
            assert(image_data[i as int] == images@[i as int]@.content);
            assert(head_data + image_data.take(i + 1) =~= (head_data + image_data.take(
                i as int,
            )).push(image_data[i as int]));
        }
        i = i + 1;
    }
    assert(all_images.take(images@.len() as int) =~= all_images);
    assert(image_data.take(images@.len() as int) =~= image_data);
    let ghost with_images = head + all_images;
    let ghost with_image_data = head_data + image_data;
    let ghost all_chapters = section_parts(section_models(chapters@));
    let ghost chapter_data = Seq::new(
        chapters@.len(),
        |i: int| encode_utf8(section_models(chapters@)[i].content),
    );
    let mut j: usize = 0;
    assert(with_images + all_chapters.take(0) =~= with_images);
    assert(with_image_data + chapter_data.take(0) =~= with_image_data);
    while j < chapters.len()
        invariant
            j <= chapters@.len(),
            all_chapters == section_parts(section_models(chapters@)),
            chapter_data == Seq::new(
                chapters@.len(),
                |i: int| encode_utf8(section_models(chapters@)[i].content),
            ),
            package_files(*builder) == with_images + all_chapters.take(j as int),
            package_data(*builder) == with_image_data + chapter_data.take(j as int),
            package_title(*builder) == title@,
            package_authors(*builder) == authors_with(package_authors(before), author@),
            package_toc_name(*builder) == toc_name,
        decreases chapters@.len() - j,
    {
        match builder_content(builder, &chapters[j], SectionKind::Text) {
            Ok(_) => {},
            Err(error) => {
                return Err(package_error(error));
            },
        }
        proof {
            assert(all_chapters[j as int] == section_part(chapters@[j as int]@));
            assert(with_images + all_chapters.take(j + 1) =~= (with_images + all_chapters.take(
                j as int,
            )).push(all_chapters[j as int]));
            assert(chapter_data[j as int] == encode_utf8(chapters@[j as int]@.content));
            assert(with_image_data + chapter_data.take(j + 1) =~= (with_image_data
                + chapter_data.take(j as int)).push(chapter_data[j as int]));
        }
        j = j + 1;
    }
    proof {
        assert(all_chapters.take(chapters@.len() as int) =~= all_chapters);
        assert(chapter_data.take(chapters@.len() as int) =~= chapter_data);
        assert(with_image_data + chapter_data =~= package_data(before) + expected_data(
            cover@,
            cover_page@,
            resource_models(images@),
            section_models(chapters@),
        ));
        assert(with_images + all_chapters =~= package_files(before) + expected_files(
            toc_name,
            cover@,
            cover_page@,
            resource_models(images@),
            section_models(chapters@),
        ));
    }
    Ok(())
}

/// A builder as it is made: it lists no file, has no title and no author,
/// and names its table of contents `Table Of Contents`.
pub open spec fn is_fresh(builder: PackageBuilder) -> bool {
    &&& package_files(builder) == Seq::<Part>::empty()
    &&& package_title(builder) == ""@
    &&& package_authors(builder) == Seq::<Seq<char>>::empty()
    &&& package_toc_name(builder) == "Table Of Contents"@
}

/// A package of these parts was put together: a builder was made and took
/// every part, in the order of [`expected_files`].
pub open spec fn package_made(
    author: Seq<char>,
    title: Seq<char>,
    cover: ResourceModel,
    cover_page: SectionModel,
    images: Seq<ResourceModel>,
    chapters: Seq<SectionModel>,
) -> bool {
    exists|fresh: PackageBuilder, filled: PackageBuilder|
        is_fresh(fresh) && #[trigger] package_filled(
            fresh,
            filled,
            author,
            title,
            cover,
            cover_page,
            images,
            chapters,
        )
}

/// Puts the package together and hands out its bytes: a new builder is
/// filled by [`fill_package`] and then writes the package. A failure of the
/// builder at any point is a package error; bytes come back only from a
/// builder that took every part.
pub fn write_package(
    author: &str,
    title: &str,
    cover: &Resource,
    cover_page: &Section,
    images: &Vec<Resource>,
    chapters: &Vec<Section>,
) -> (r: Result<Vec<u8>, GenerationError>)
    ensures
        r matches Err(error) ==> error@ is PackageError,
        r is Ok ==> package_made(
            author@,
            title@,
            cover@,
            cover_page@,
            resource_models(images@),
            section_models(chapters@),
        ),
{
    let mut builder = match new_builder() {
        Ok(builder) => builder,
        Err(error) => {
            return Err(package_error(error));
        },
    };
    let ghost fresh = builder;
    match fill_package(&mut builder, author, title, cover, cover_page, images, chapters) {
        Ok(_) => {},
        Err(error) => {
            return Err(error);
        },
    }
    let ghost filled = builder;
    assert(is_fresh(fresh) && package_filled(
        fresh,
        filled,
        author@,
        title@,
        cover@,
        cover_page@,
        resource_models(images@),
        section_models(chapters@),
    ));
    match builder_generate(&mut builder) {
        Ok(bytes) => Ok(bytes),
        Err(error) => Err(package_error(error)),
    }
}

/// The files of the package of a renderer, as they are handed to a builder
/// whose table of contents is named `toc_name`.
pub open spec fn renderer_files(renderer: RendererModel, toc_name: Seq<char>) -> Seq<Part> {
    expected_files(
        toc_name,
        renderer.cover->0,
        renderer.cover_page->0,
        renderer.images,
        renderer.chapters,
    )
}

/// The contents of the files of the package of a renderer, as they are
/// handed to a builder.
pub open spec fn renderer_data(renderer: RendererModel) -> Seq<Seq<u8>> {
    expected_data(
        renderer.cover->0,
        renderer.cover_page->0,
        renderer.images,
        renderer.chapters,
    )
}

/// Once the chapters of a renderer are attached, the files of its package
/// are the whole book. Behind the stylesheet, the cover image, the cover
/// page and the table of contents stand the images, one for every address
/// of the image mapping, each named by its number, and none at all where
/// images are switched off; behind them stand the sections, one for every
/// chapter of the book and in the order of the book, each named by its
/// number and titled as its chapter. Each image is handed over with the
/// bytes that were fetched for it, each section with the markup that came
/// back from normalization.
pub proof fn lemma_package_holds_the_book(renderer: RendererModel, toc_name: Seq<char>)
    requires
        consistent(renderer),
        stage_rank(renderer.stage) >= 4,
    ensures
        ({
            let files = renderer_files(renderer, toc_name);
            let images = renderer.images.len() as int;
            let chapters = renderer.book.chapters.len() as int;
            &&& files.len() == 4 + images + chapters
            &&& files[0] == stylesheet_part()
            &&& files[1] == resource_part(renderer.cover->0, true)
            &&& files[2] == section_part(renderer.cover_page->0)
            &&& files[3] == toc_part(toc_name)
            &&& renderer.no_images ==> images == 0
            &&& !renderer.no_images ==> images == renderer.book.images.len()
            &&& forall|k: int|
                0 <= k < images ==> #[trigger] files[4 + k] == resource_part(
                    renderer.images[k],
                    false,
                ) && names_image(renderer.images[k], k)
            &&& forall|j: int|
                0 <= j < chapters ==> #[trigger] files[4 + images + j] == (
                    chapter_file_name(j as nat),
                    section_type(),
                    renderer.book.chapters[j].name,
                    false,
                )
            &&& renderer_data(renderer).len() == 3 + images + chapters
            &&& forall|k: int|
                0 <= k < images ==> #[trigger] renderer_data(renderer)[3 + k]
                    == renderer.images[k].content
            &&& forall|j: int|
                0 <= j < chapters ==> #[trigger] renderer_data(renderer)[3 + images + j]
                    == encode_utf8(renderer.chapters[j].content)
        }),
{
    let files = renderer_files(renderer, toc_name);
    let images = renderer.images.len() as int;
    let chapters = renderer.book.chapters.len() as int;
    assert forall|k: int| 0 <= k < images implies #[trigger] files[4 + k] == resource_part(
        renderer.images[k],
        false,
    ) && names_image(renderer.images[k], k) by {
        assert(resource_parts(renderer.images)[k] == resource_part(renderer.images[k], false));
    }
    assert forall|j: int| 0 <= j < chapters implies #[trigger] files[4 + images + j] == (
        chapter_file_name(j as nat),
        section_type(),
        renderer.book.chapters[j].name,
        false,
    ) by {
        assert(section_parts(renderer.chapters)[j] == section_part(renderer.chapters[j]));
    }
}

/// The file name of the cover image.
pub fn cover_file_name_text(extension: &str) -> (r: String)
    ensures
        r@ == cover_file_name(extension@),
{
    let mut r = String::from_str("cover.");
    r.append(extension);
    r
}

/// The cover page.
pub fn cover_page_text(
    book_url: &str,
    title: &str,
    author: &str,
    extension: &str,
    archived_on: &str,
) -> (r: String)
    ensures
        r@ == cover_page(book_url@, title@, author@, extension@, archived_on@),
{
    let mut r = String::from_str(
        "<?xml version=\"1.0\" encoding=\"UTF-8\"?>\n<html xmlns=\"http://www.w3.org/1999/xhtml\" xmlns:epub=\"http://www.idpf.org/2007/ops\">\n",
    );
    r.append(
        "<head></head><body><div style=\"text-align: center;\">\n        <h1><a href=\"",
    );
    r.append(book_url);
    r.append("\">");
    r.append(title);
    r.append("</a></h1>\n        <img src=\"cover.");
    r.append(extension);
    r.append("\"/>\n        <h2>by: ");
    r.append(author);
    r.append("</h2>\n        <h3>Archived on: ");
    r.append(archived_on);
    r.append("</h3></div></body>");
    r.append("\n</html>");
    r
}

/// The file name of image number `index`.
pub fn image_file_name_text(index: usize, extension: &str) -> (r: String)
    ensures
        r@ == image_file_name(index as nat, extension@),
{
    let mut r = String::from_str("image_");
    let number = decimal_text(index);
    r.append(number.as_str());
    r.append(".");
    r.append(extension);
    r
}

/// The file name of chapter number `index`.
pub fn chapter_file_name_text(index: usize) -> (r: String)
    requires
        index < usize::MAX,
    ensures
        r@ == chapter_file_name(index as nat),
{
    let mut r = String::from_str("chapter_");
    let number = decimal_text(index + 1);
    r.append(number.as_str());
    r.append(".xhtml");
    r
}

/// Adds, for each of `tags`, the substitution of the tag by the tag that
/// points to `file_name`.
pub fn add_substitutions(
    substitutions: &mut Vec<(String, String)>,
    tags: &Vec<String>,
    file_name: &str,
)
    ensures
        pair_models(final(substitutions)@) == pair_models(old(substitutions)@) + substitutions_for(
            texts(tags@),
            file_name@,
        ),
{
    let ghost start = pair_models(substitutions@);
    let ghost added = substitutions_for(texts(tags@), file_name@);
    let mut i: usize = 0;
    assert(start + added.take(0) =~= start);
    while i < tags.len()
        invariant
            i <= tags@.len(),
            added == substitutions_for(texts(tags@), file_name@),
            pair_models(substitutions@) == start + added.take(i as int),
        decreases tags@.len() - i,
    {
        let ghost before = pair_models(substitutions@);
        let replacement = replace_img_src(tags[i].clone(), String::from_str(file_name));
        substitutions.push((tags[i].clone(), replacement));
        assert(pair_models(substitutions@) =~= before.push(added[i as int]));
        assert(start + added.take(i + 1) =~= (start + added.take(i as int)).push(added[i as int]));
        i = i + 1;
    }
    assert(added.take(tags@.len() as int) =~= added);
}

/// `text` after each of `substitutions` was made in it.
pub fn substituted_text(text: &str, substitutions: &Vec<(String, String)>) -> (r: String)
    ensures
        r@ == substituted(text@, pair_models(substitutions@)),
{
    let ghost all = pair_models(substitutions@);
    let mut result = String::from_str(text);
    let mut i: usize = 0;
    assert(all.take(0) =~= Seq::<(Seq<char>, Seq<char>)>::empty());
    while i < substitutions.len()
        invariant
            i <= substitutions@.len(),
            all == pair_models(substitutions@),
            result@ == substituted(text@, all.take(i as int)),
        decreases substitutions@.len() - i,
    {
        assert(all.take(i + 1).drop_last() =~= all.take(i as int));
        assert(all.take(i + 1).last() == (substitutions@[i as int].0@, substitutions@[i as int].1@));
        result = replaced(
            result.as_str(),
            substitutions[i].0.as_str(),
            substitutions[i].1.as_str(),
        );
        i = i + 1;
    }
    assert(all.take(substitutions@.len() as int) =~= all);
    result
}

/// The markup of `chapter` that is handed to normalization.
pub fn chapter_input_text(
    chapter: &Chapter,
    no_images: bool,
    substitutions: &Vec<(String, String)>,
) -> (r: String)
    ensures
        r@ == chapter_input(chapter@, no_images, pair_models(substitutions@)),
{
    let markup = if no_images {
        remove_image_tags(&chapter.isolated_chapter_html)
    } else {
        let whole = chapter.isolated_chapter_html.html();
        substituted_text(whole.as_str(), substitutions)
    };
    let fragment = string_to_html_fragment(markup.as_str());
    let written = fragment.html();
    without_nbsp(written.as_str())
}

/// What came back for a request of a renderer.
pub enum EpubEvent {
    /// Nothing yet: the renderer is to begin.
    Start,
    /// The address was fetched, with this response.
    Fetched { response: HttpResponse },
    /// The markup was normalized, to this.
    Normalized { xhtml: String },
    /// The file was written.
    Written,
}

impl View for EpubEvent {
    type V = EventModel;

    open spec fn view(&self) -> EventModel {
        match self {
            EpubEvent::Start => EventModel::Start,
            EpubEvent::Fetched { response } => EventModel::Fetched { response: response@ },
            EpubEvent::Normalized { xhtml } => EventModel::Normalized { xhtml: xhtml@ },
            EpubEvent::Written => EventModel::Written,
        }
    }
}

/// What a renderer asks for next, or that it is done.
pub enum EpubStep {
    /// `address` is to be fetched; the answer is [`EpubEvent::Fetched`].
    Fetch { renderer: EpubRenderer, address: String },
    /// `markup` is to be normalized; the answer is [`EpubEvent::Normalized`].
    Normalize { renderer: EpubRenderer, markup: String },
    /// `content` is to be written to a new file named `file_name` in the
    /// output directory; the answer is [`EpubEvent::Written`].
    Write { renderer: EpubRenderer, file_name: String, content: Vec<u8> },
    /// The package is written.
    Done { warnings: GenerationWarnings },
}

/// Renders a book as an e-book package, stage by stage.
pub struct EpubRenderer {
    stage: EpubStage,
    book: Book,
    no_images: bool,
    archived_on: String,
    cover: Option<Resource>,
    cover_page: Option<Section>,
    images: Vec<Resource>,
    substitutions: Vec<(String, String)>,
    chapters: Vec<Section>,
    warnings: GenerationWarnings,
}

impl View for EpubRenderer {
    type V = RendererModel;

    closed spec fn view(&self) -> RendererModel {
        RendererModel {
            stage: self.stage,
            book: self.book@,
            no_images: self.no_images,
            archived_on: self.archived_on@,
            cover: optional_resource(self.cover),
            cover_page: optional_section(self.cover_page),
            images: resource_models(self.images@),
            substitutions: pair_models(self.substitutions@),
            chapters: section_models(self.chapters@),
            warnings: self.warnings@,
        }
    }
}

/// From the stage at which the cover is attached on, a renderer has its
/// cover and its cover page.
pub open spec fn has_cover(renderer: RendererModel) -> bool {
    stage_rank(renderer.stage) >= 2 ==> renderer.cover is Some && renderer.cover_page is Some
}

/// `resource` is named as image number `index`, with the file extension of
/// its type; a resource without type has no extension.
pub open spec fn names_image(resource: ResourceModel, index: int) -> bool {
    ||| resource.file_name == image_file_name(index as nat, file_extension_of(resource.mime_type))
    ||| resource.mime_type == ""@ && resource.file_name == image_file_name(index as nat, ""@)
}

/// The substitutions for the images that are attached: for each image in
/// turn, one for every tag that the image mapping holds for it.
pub open spec fn all_substitutions(images: Images, resources: Seq<ResourceModel>) -> Seq<
    (Seq<char>, Seq<char>),
>
    decreases resources.len(),
{
    if resources.len() == 0 {
        Seq::empty()
    } else {
        all_substitutions(images, resources.drop_last()) + substitutions_for(
            images[resources.len() - 1].1,
            resources.last().file_name,
        )
    }
}

/// What holds of a renderer at every stage.
///
/// The images that are attached are the first images of the image mapping,
/// each named by its number; the substitutions are those for the tags of
/// these images; the sections that are attached are for the first chapters
/// of the book, each named by its number and titled as its chapter. No
/// image is attached before the cover or where images are switched off, no
/// chapter before the images are settled. Once the images are attached,
/// there is one for every address of the mapping; once the chapters are
/// attached, there is a section for every chapter of the book.
pub open spec fn consistent(renderer: RendererModel) -> bool {
    &&& has_cover(renderer)
    &&& renderer.images.len() <= renderer.book.images.len()
    &&& renderer.chapters.len() <= renderer.book.chapters.len()
    &&& forall|k: int|
        0 <= k < renderer.images.len() ==> names_image(#[trigger] renderer.images[k], k)
    &&& renderer.substitutions == all_substitutions(renderer.book.images, renderer.images)
    &&& forall|j: int|
        0 <= j < renderer.chapters.len() ==> (#[trigger] renderer.chapters[j]).file_name
            == chapter_file_name(j as nat) && renderer.chapters[j].title
            == renderer.book.chapters[j].name
    &&& stage_rank(renderer.stage) <= 1 ==> renderer.images.len() == 0
    &&& stage_rank(renderer.stage) <= 2 ==> renderer.chapters.len() == 0
    &&& renderer.no_images ==> renderer.images.len() == 0
    &&& renderer.stage == EpubStage::ImagesAttached ==> !renderer.no_images
    &&& renderer.stage == EpubStage::ImagesSkipped ==> renderer.no_images
    &&& stage_rank(renderer.stage) >= 3 && !renderer.no_images ==> renderer.images.len()
        == renderer.book.images.len()
    &&& stage_rank(renderer.stage) >= 4 ==> renderer.chapters.len()
        == renderer.book.chapters.len()
}

/// Every tag of every image that is attached has its substitution: the tag
/// itself is replaced by the tag that points to the file of its image. Tags
/// that differ in their text have substitutions of their own, also where
/// they refer to one address.
pub proof fn lemma_every_tag_has_its_substitution(
    images: Images,
    resources: Seq<ResourceModel>,
    image: int,
    tag: int,
)
    requires
        resources.len() <= images.len(),
        0 <= image < resources.len(),
        0 <= tag < images[image].1.len(),
    ensures
        all_substitutions(images, resources).contains(
            (images[image].1[tag], new_tag(images[image].1[tag], resources[image].file_name)),
        ),
    decreases resources.len(),
{
    let front = all_substitutions(images, resources.drop_last());
    let last = substitutions_for(images[resources.len() - 1].1, resources.last().file_name);
    let wanted = (images[image].1[tag], new_tag(images[image].1[tag], resources[image].file_name));
    if image == resources.len() - 1 {
        assert(last[tag] == wanted);
        assert((front + last)[front.len() + tag] == wanted);
    } else {
        assert(resources.drop_last()[image] == resources[image]);
        lemma_every_tag_has_its_substitution(images, resources.drop_last(), image, tag);
        let at = choose|at: int| 0 <= at < front.len() && front[at] == wanted;
        assert((front + last)[at] == wanted);
    }
}

/// A renderer stays consistent when it goes on by itself.
pub proof fn lemma_settling_keeps_consistency(renderer: RendererModel)
    requires
        consistent(renderer),
    ensures
        consistent(settled(renderer)),
{
}

/// A renderer stays consistent through every event that it takes: what is
/// attached at the end is the whole book, in the order of the book.
pub proof fn lemma_events_keep_consistency(renderer: RendererModel, event: EventModel)
    requires
        consistent(renderer),
        after_event(renderer, event) is Some,
    ensures
        consistent(after_event(renderer, event)->0),
        consistent(settled(after_event(renderer, event)->0)),
{
    let next = after_event(renderer, event)->0;
    match (renderer.stage, event) {
        (EpubStage::CoverAttached, EventModel::Fetched { response }) => {
            let index = renderer.images.len() as int;
            assert(next.images.drop_last() =~= renderer.images);
            assert(next.images.last() == next.images[index]);
            assert forall|k: int| 0 <= k < next.images.len() implies names_image(
                #[trigger] next.images[k],
                k,
            ) by {
                if k < index {
                    assert(next.images[k] == renderer.images[k]);
                }
            }
        },
        (EpubStage::ImagesAttached, EventModel::Normalized { xhtml }) => {
            lemma_chapter_keeps_consistency(renderer, xhtml);
        },
        (EpubStage::ImagesSkipped, EventModel::Normalized { xhtml }) => {
            lemma_chapter_keeps_consistency(renderer, xhtml);
        },
        _ => {},
    }
    lemma_settling_keeps_consistency(next);
}

/// A renderer stays consistent when the section of its next chapter is
/// attached.
proof fn lemma_chapter_keeps_consistency(renderer: RendererModel, xhtml: Seq<char>)
    requires
        consistent(renderer),
        stage_rank(renderer.stage) == 3,
        with_chapter(renderer, xhtml) is Some,
    ensures
        consistent(with_chapter(renderer, xhtml)->0),
{
    let next = with_chapter(renderer, xhtml)->0;
    let index = renderer.chapters.len() as int;
    assert forall|j: int| 0 <= j < next.chapters.len() implies (
    #[trigger] next.chapters[j]).file_name == chapter_file_name(j as nat) && next.chapters[j].title
        == next.book.chapters[j].name by {
        if j < index {
            assert(next.chapters[j] == renderer.chapters[j]);
        }
    }
}

/// The renderer for `book` before anything has happened.
pub open spec fn initial_renderer(
    book: BookModel,
    no_images: bool,
    archived_on: Seq<char>,
    warnings: Seq<WarningModel>,
) -> RendererModel {
    RendererModel {
        stage: EpubStage::Init,
        book,
        no_images,
        archived_on,
        cover: None,
        cover_page: None,
        images: Seq::empty(),
        substitutions: Seq::empty(),
        chapters: Seq::empty(),
        warnings,
    }
}

impl EpubRenderer {
    #[verifier::type_invariant]
    spec fn valid(&self) -> bool {
        consistent(self@)
    }

    /// The renderer for `book`, at the first stage. `archived_on` is the
    /// time that the cover page shows; `warnings` are those that were given
    /// while the book was put together.
    pub fn new(book: Book, no_images: bool, archived_on: String, warnings: GenerationWarnings) -> (r:
        Self)
        ensures
            r@ == initial_renderer(book@, no_images, archived_on@, warnings@),
    {
        let images: Vec<Resource> = Vec::new();
        let substitutions: Vec<(String, String)> = Vec::new();
        let chapters: Vec<Section> = Vec::new();
        assert(resource_models(images@) =~= Seq::<ResourceModel>::empty());
        assert(pair_models(substitutions@) =~= Seq::<(Seq<char>, Seq<char>)>::empty());
        assert(section_models(chapters@) =~= Seq::<SectionModel>::empty());
        EpubRenderer {
            stage: EpubStage::Init,
            book,
            no_images,
            archived_on,
            cover: None,
            cover_page: None,
            images,
            substitutions,
            chapters,
            warnings,
        }
    }

    /// The stage that the renderer has reached.
    pub fn stage(&self) -> (r: EpubStage)
        ensures
            r == self@.stage,
            consistent(self@),
    {
        proof {
            use_type_invariant(self);
        }
        self.stage
    }

    /// Goes on, after an event was taken, as far as nothing from outside is
    /// needed, and asks for what is needed then.
    fn proceed(
        stage: EpubStage,
        book: Book,
        no_images: bool,
        archived_on: String,
        cover: Option<Resource>,
        cover_page: Option<Section>,
        images: Vec<Resource>,
        substitutions: Vec<(String, String)>,
        chapters: Vec<Section>,
        warnings: GenerationWarnings,
    ) -> (r: Result<EpubStep, GenerationError>)
        requires
            stage != EpubStage::Init,
            stage != EpubStage::Finalized,
            stage != EpubStage::ChaptersAttached,
            consistent(
                RendererModel {
                    stage,
                    book: book@,
                    no_images,
                    archived_on: archived_on@,
                    cover: optional_resource(cover),
                    cover_page: optional_section(cover_page),
                    images: resource_models(images@),
                    substitutions: pair_models(substitutions@),
                    chapters: section_models(chapters@),
                    warnings: warnings@,
                },
            ),
        ensures
            step_follows(
                settled(
                    RendererModel {
                        stage,
                        book: book@,
                        no_images,
                        archived_on: archived_on@,
                        cover: optional_resource(cover),
                        cover_page: optional_section(cover_page),
                        images: resource_models(images@),
                        substitutions: pair_models(substitutions@),
                        chapters: section_models(chapters@),
                        warnings: warnings@,
                    },
                ),
                r,
            ),
    {
        proof {
            lemma_settling_keeps_consistency(
                RendererModel {
                    stage,
                    book: book@,
                    no_images,
                    archived_on: archived_on@,
                    cover: optional_resource(cover),
                    cover_page: optional_section(cover_page),
                    images: resource_models(images@),
                    substitutions: pair_models(substitutions@),
                    chapters: section_models(chapters@),
                    warnings: warnings@,
                },
            );
        }
        let image_count = book.image_urls_and_tags.len();
        let with_images = match stage {
            EpubStage::CoverAttached => {
                if no_images {
                    EpubStage::ImagesSkipped
                } else if images.len() >= image_count {
                    EpubStage::ImagesAttached
                } else {
                    stage
                }
            },
            _ => stage,
        };
        let settled_stage = match with_images {
            EpubStage::ImagesAttached | EpubStage::ImagesSkipped => {
                if chapters.len() >= book.chapters.len() {
                    EpubStage::ChaptersAttached
                } else {
                    with_images
                }
            },
            _ => with_images,
        };
        match settled_stage {
            EpubStage::MetadataAttached => {
                let address = book.cover_image_url.clone();
                let renderer = EpubRenderer {
                    stage: settled_stage,
                    book,
                    no_images,
                    archived_on,
                    cover,
                    cover_page,
                    images,
                    substitutions,
                    chapters,
                    warnings,
                };
                Ok(EpubStep::Fetch { renderer, address })
            },
            EpubStage::CoverAttached => {
                let address = book.image_urls_and_tags.address(images.len()).clone();
                let renderer = EpubRenderer {
                    stage: settled_stage,
                    book,
                    no_images,
                    archived_on,
                    cover,
                    cover_page,
                    images,
                    substitutions,
                    chapters,
                    warnings,
                };
                Ok(EpubStep::Fetch { renderer, address })
            },
            EpubStage::ImagesAttached | EpubStage::ImagesSkipped => {
                let markup = chapter_input_text(
                    &book.chapters[chapters.len()],
                    no_images,
                    &substitutions,
                );
                let renderer = EpubRenderer {
                    stage: settled_stage,
                    book,
                    no_images,
                    archived_on,
                    cover,
                    cover_page,
                    images,
                    substitutions,
                    chapters,
                    warnings,
                };
                Ok(EpubStep::Normalize { renderer, markup })
            },
            EpubStage::ChaptersAttached => {
                let written = match (&cover, &cover_page) {
                    (Some(cover), Some(cover_page)) => write_package(
                        book.author.as_str(),
                        book.title.as_str(),
                        cover,
                        cover_page,
                        &images,
                        &chapters,
                    ),
                    _ => Err(package_error(String::from_str("the package has no cover"))),
                };
                match written {
                    Ok(content) => {
                        let mut file_name = book.file_name_title.clone();
                        file_name.append(".epub");
                        let renderer = EpubRenderer {
                            stage: EpubStage::Finalized,
                            book,
                            no_images,
                            archived_on,
                            cover,
                            cover_page,
                            images,
                            substitutions,
                            chapters,
                            warnings,
                        };
                        Ok(EpubStep::Write { renderer, file_name, content })
                    },
                    Err(error) => Err(error),
                }
            },
            EpubStage::WrittenToDisk => Ok(EpubStep::Done { warnings }),
            EpubStage::Init => Err(package_error(String::from_str("the renderer has not begun"))),
            EpubStage::Finalized => Err(
                package_error(String::from_str("the package is put together already")),
            ),
        }
    }

    /// Takes what came back for the last request and says what is to be
    /// done next.
    ///
    /// The first event is [`EpubEvent::Start`]. Any error ends the
    /// rendering: the renderer is used up.
    pub fn step(self, event: EpubEvent) -> (r: Result<EpubStep, GenerationError>)
        ensures
            step_allowed(self@, event@, r),
    {
        proof {
            use_type_invariant(&self);
        }
        let ghost before = self@;
        proof {
            if after_event(before, event@) is Some {
                lemma_events_keep_consistency(before, event@);
            }
        }
        let EpubRenderer {
            stage,
            book,
            no_images,
            archived_on,
            cover,
            cover_page,
            images,
            substitutions,
            chapters,
            warnings,
        } = self;
        match event {
            EpubEvent::Start => match stage {
                EpubStage::Init => Self::proceed(
                    EpubStage::MetadataAttached,
                    book,
                    no_images,
                    archived_on,
                    cover,
                    cover_page,
                    images,
                    substitutions,
                    chapters,
                    warnings,
                ),
                _ => Err(package_error(String::from_str("the renderer did not ask for this"))),
            },
            EpubEvent::Fetched { response } => match stage {
                EpubStage::MetadataAttached => {
                    let mut warnings = warnings;
                    let read = response.get_content_type_and_file_extension(&mut warnings);
                    let cover = Resource {
                        file_name: cover_file_name_text(read.1.as_str()),
                        mime_type: read.0,
                        content: response.body,
                    };
                    let cover_page = Section {
                        file_name: String::from_str("title.xhtml"),
                        title: String::from_str("Cover"),
                        content: cover_page_text(
                            book.book_url.as_str(),
                            book.title.as_str(),
                            book.author.as_str(),
                            read.1.as_str(),
                            archived_on.as_str(),
                        ),
                    };
                    Self::proceed(
                        EpubStage::CoverAttached,
                        book,
                        no_images,
                        archived_on,
                        Some(cover),
                        Some(cover_page),
                        images,
                        substitutions,
                        chapters,
                        warnings,
                    )
                },
                EpubStage::CoverAttached => {
                    let index = images.len();
                    if !no_images && index < book.image_urls_and_tags.len() {
                        let mut warnings = warnings;
                        let mut images = images;
                        let mut substitutions = substitutions;
                        let read = response.get_content_type_and_file_extension(&mut warnings);
                        let file_name = image_file_name_text(index, read.1.as_str());
                        add_substitutions(
                            &mut substitutions,
                            book.image_urls_and_tags.tags(index),
                            file_name.as_str(),
                        );
                        let image = Resource {
                            file_name,
                            mime_type: read.0,
                            content: response.body,
                        };
                        let ghost grown = before.images.push(image@);
                        images.push(image);
                        assert(resource_models(images@) =~= grown);
                        Self::proceed(
                            EpubStage::CoverAttached,
                            book,
                            no_images,
                            archived_on,
                            cover,
                            cover_page,
                            images,
                            substitutions,
                            chapters,
                            warnings,
                        )
                    } else {
                        Err(package_error(String::from_str("the renderer did not ask for this")))
                    }
                },
                _ => Err(package_error(String::from_str("the renderer did not ask for this"))),
            },
            EpubEvent::Normalized { xhtml } => match stage {
                EpubStage::ImagesAttached | EpubStage::ImagesSkipped => {
                    let index = chapters.len();
                    if index < book.chapters.len() {
                        let mut chapters = chapters;
                        let section = Section {
                            file_name: chapter_file_name_text(index),
                            title: book.chapters[index].chapter_name.clone(),
                            content: xhtml,
                        };
                        let ghost grown = before.chapters.push(section@);
                        chapters.push(section);
                        assert(section_models(chapters@) =~= grown);
                        Self::proceed(
                            stage,
                            book,
                            no_images,
                            archived_on,
                            cover,
                            cover_page,
                            images,
                            substitutions,
                            chapters,
                            warnings,
                        )
                    } else {
                        Err(package_error(String::from_str("the renderer did not ask for this")))
                    }
                },
                _ => Err(package_error(String::from_str("the renderer did not ask for this"))),
            },
            EpubEvent::Written => match stage {
                EpubStage::Finalized => Self::proceed(
                    EpubStage::WrittenToDisk,
                    book,
                    no_images,
                    archived_on,
                    cover,
                    cover_page,
                    images,
                    substitutions,
                    chapters,
                    warnings,
                ),
                _ => Err(package_error(String::from_str("the renderer did not ask for this"))),
            },
        }
    }
}

} // verus!
