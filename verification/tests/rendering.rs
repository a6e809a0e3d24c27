use royal_road_archiver::book::Book;
use royal_road_archiver::book::BookAssembler;
use royal_road_archiver::book::BookStep;
use royal_road_archiver::book::Chapter;
use royal_road_archiver::book::read_index;
use royal_road_archiver::epub::add_substitutions;
use royal_road_archiver::epub::chapter_file_name_text;
use royal_road_archiver::epub::chapter_input_text;
use royal_road_archiver::epub::cover_file_name_text;
use royal_road_archiver::epub::cover_page_text;
use royal_road_archiver::epub::image_file_name_text;
use royal_road_archiver::epub::package_error;
use royal_road_archiver::epub::substituted_text;
use royal_road_archiver::epub::write_package;
use royal_road_archiver::epub::EpubEvent;
use royal_road_archiver::epub::EpubRenderer;
use royal_road_archiver::epub::EpubStage;
use royal_road_archiver::epub::EpubStep;
use royal_road_archiver::epub::Resource;
use royal_road_archiver::epub::Section;
use royal_road_archiver::generate_audiobook;
use royal_road_archiver::generate_epub;
use royal_road_archiver::generate_html;
use royal_road_archiver::generate_markdown;
use royal_road_archiver::http::file_extension;
use royal_road_archiver::http::get_response;
use royal_road_archiver::http::string_to_url;
use royal_road_archiver::http::FetchOutcome;
use royal_road_archiver::http::HttpResponse;
use royal_road_archiver::markdown::chapter_markup_text;
use royal_road_archiver::markdown::head_text;
use royal_road_archiver::markdown::render_markdown;
use royal_road_archiver::markdown::section_text;
use royal_road_archiver::markdown::MarkdownRenderer;
use royal_road_archiver::markdown::MarkdownStep;
use royal_road_archiver::AudiobookArgs;
use royal_road_archiver::EpubArgs;
use royal_road_archiver::Field;
use royal_road_archiver::GenerationError;
use royal_road_archiver::GenerationWarnings;
use royal_road_archiver::HtmlArgs;
use royal_road_archiver::MarkdownArgs;
use royal_road_archiver::Warning;

const BOOK_URL: &str = "https://www.royalroad.com/fiction/1/my-book";

const INDEX: &str = "<html><head><meta name=\"twitter:title\" content=\"My: Book?\"><meta property=\"books:author\" content=\"Jane Doe\"><meta property=\"og:image\" content=\"https://www.royalroad.com/covers/1.jpg\"></head><body><script>window.chapters = [{\"title\":\"Two\",\"url\":\"/fiction/1/my-book/chapter/2\"},{\"title\":\"One\",\"url\":\"/fiction/1/my-book/chapter/1\"}];</script></body></html>";

const PAGE_TWO: &str = "<html><body><div class=\"chapter-inner chapter-content\"><p>Second&nbsp;text</p><img src=\"https://example.com/i.png\" alt=\"a\"><img alt=\"b\" src=\"https://example.com/i.png\"></div></body></html>";

const PAGE_ONE: &str = "<html><body><div class=\"chapter-inner chapter-content\"><p>First text</p><img src=\"https://example.com/i.png\" alt=\"a\"><img src=\"https://example.com/j.png\"><img src=\"nowhere\"></div></body></html>";

fn response(url: &str, content_type: Option<&str>, body: &[u8]) -> HttpResponse {
    HttpResponse { url: url.to_string(), content_type: content_type.map(str::to_string), body: body.to_vec() }
}

fn sample_book() -> (Book, GenerationWarnings) {
    let assembler = BookAssembler::new(BOOK_URL.to_string());
    assert_eq!(assembler.address(), BOOK_URL);
    let assembler = match assembler.accept(INDEX) {
        Ok(BookStep::Fetch { assembler }) => assembler,
        _ => panic!("the index asks for the first chapter"),
    };
    assert_eq!(assembler.address(), "https://www.royalroad.com/fiction/1/my-book/chapter/2");
    let assembler = match assembler.accept(PAGE_TWO) {
        Ok(BookStep::Fetch { assembler }) => assembler,
        _ => panic!("the first chapter asks for the second"),
    };
    assert_eq!(assembler.address(), "https://www.royalroad.com/fiction/1/my-book/chapter/1");
    match assembler.accept(PAGE_ONE) {
        Ok(BookStep::Done { book, warnings }) => (book, warnings),
        _ => panic!("the last chapter completes the book"),
    }
}

#[test]
fn a_book_is_put_together_page_by_page() {
    let (book, warnings) = sample_book();
    assert_eq!(book.book_url, BOOK_URL);
    assert_eq!(book.title, "My: Book?");
    assert_eq!(book.file_name_title, "My  Book ");
    assert_eq!(book.author, "Jane Doe");
    assert_eq!(book.cover_image_url, "https://www.royalroad.com/covers/1.jpg");
    assert_eq!(book.chapters.len(), 2);
    assert_eq!(book.chapters[0].chapter_name, "Two");
    assert_eq!(book.chapters[0].chapter_url, "https://www.royalroad.com/fiction/1/my-book/chapter/2");
    assert_eq!(book.chapters[1].chapter_name, "One");
    assert_eq!(book.chapters[1].isolated_chapter_html.source, "<p>First text</p><img src=\"https://example.com/i.png\" alt=\"a\"><img src=\"https://example.com/j.png\"><img src=\"nowhere\">");
    let images = &book.image_urls_and_tags;
    assert_eq!(images.len(), 2);
    assert_eq!(images.address(0), "https://example.com/i.png");
    assert_eq!(
        images.tags(0),
        &vec![
            "<img src=\"https://example.com/i.png\" alt=\"a\">".to_string(),
            "<img alt=\"b\" src=\"https://example.com/i.png\">".to_string(),
        ]
    );
    assert_eq!(images.address(1), "https://example.com/j.png");
    assert_eq!(warnings.warnings_count(), 1);
    assert!(matches!(
        &warnings.get_warnings()[0],
        Warning::ImageTagParseError { raw_image_tag, .. } if raw_image_tag == "<img src=\"nowhere\">"
    ));
}

#[test]
fn index_without_cover_image_ends_the_assembly_before_any_chapter() {
    let index = INDEX.replace("og:image", "og:picture").replace("twitter:title", "twitter:name");
    let assembler = BookAssembler::new(BOOK_URL.to_string());
    assert!(matches!(
        assembler.accept(&index),
        Err(GenerationError::MissingFieldError { field: Field::CoverImageUrl, url }) if url == BOOK_URL
    ));
    assert!(matches!(
        read_index(BOOK_URL, &index),
        Err(GenerationError::MissingFieldError { field: Field::CoverImageUrl, .. })
    ));
}

#[test]
fn index_is_read_whole() {
    let index = read_index(BOOK_URL, INDEX).unwrap();
    assert_eq!(index.title, "My: Book?");
    assert_eq!(index.author, "Jane Doe");
    assert_eq!(index.cover_image_url, "https://www.royalroad.com/covers/1.jpg");
    assert_eq!(index.chapters.len(), 2);
    assert_eq!(index.chapters[0].0, "Two");
    let no_title = INDEX.replace("twitter:title", "twitter:name");
    assert!(matches!(
        read_index(BOOK_URL, &no_title),
        Err(GenerationError::MissingFieldError { field: Field::Title, .. })
    ));
    let bad_cover = INDEX.replace("https://www.royalroad.com/covers/1.jpg", "covers/1.jpg");
    assert!(matches!(
        read_index(BOOK_URL, &bad_cover),
        Err(GenerationError::UrlParseError { string_url, .. }) if string_url == "covers/1.jpg"
    ));
}

#[test]
fn a_book_without_chapters_is_complete_after_the_index() {
    let index = "<html><head><meta name=\"twitter:title\" content=\"T\"><meta property=\"books:author\" content=\"A\"><meta property=\"og:image\" content=\"https://example.com/c.png\"></head><body><script>window.chapters = [];</script></body></html>";
    match BookAssembler::new(BOOK_URL.to_string()).accept(index) {
        Ok(BookStep::Done { book, warnings }) => {
            assert_eq!(book.chapters.len(), 0);
            assert_eq!(book.image_urls_and_tags.len(), 0);
            assert_eq!(warnings.warnings_count(), 0);
        },
        _ => panic!("nothing is left to fetch"),
    }
}

#[test]
fn a_chapter_page_without_content_ends_the_assembly() {
    let assembler = match BookAssembler::new(BOOK_URL.to_string()).accept(INDEX) {
        Ok(BookStep::Fetch { assembler }) => assembler,
        _ => panic!("the index asks for the first chapter"),
    };
    assert!(matches!(
        assembler.accept("<html><body><p>gone</p></body></html>"),
        Err(GenerationError::ContentIsolationError { url }) if url == "https://www.royalroad.com/fiction/1/my-book/chapter/2"
    ));
    assert!(matches!(
        Chapter::new("n", "https://example.com/c", "<div>x</div>"),
        Err(GenerationError::ContentIsolationError { url }) if url == "https://example.com/c"
    ));
}

#[test]
fn fetch_outcomes_become_responses_or_errors() {
    let ok = get_response(
        "https://example.com/".to_string(),
        FetchOutcome::Answered { status: 200, content_type: Some("image/png".to_string()), body: vec![1, 2] },
    ).unwrap();
    assert_eq!(ok.url, "https://example.com/");
    assert_eq!(ok.content_type, Some("image/png".to_string()));
    assert_eq!(ok.get_bytes(), vec![1, 2]);
    assert!(get_response("u".to_string(), FetchOutcome::Answered { status: 299, content_type: None, body: vec![] }).is_ok());
    for status in [199u16, 300, 404, 500] {
        assert!(matches!(
            get_response("u".to_string(), FetchOutcome::Answered { status, content_type: None, body: vec![] }),
            Err(GenerationError::HttpStatusError { url, status: s }) if url == "u" && s == status
        ));
    }
    assert!(matches!(
        get_response("u".to_string(), FetchOutcome::Failed { error: "timed out".to_string() }),
        Err(GenerationError::NetworkError { url, error }) if url == "u" && error == "timed out"
    ));
}

#[test]
fn content_types_map_to_file_extensions() {
    assert_eq!(file_extension("image/png"), "png");
    assert_eq!(file_extension("image/webp"), "webp");
    assert_eq!(file_extension("image/jpeg"), "jpeg");
    assert_eq!(file_extension("image/jpg"), "jpg");
    assert_eq!(file_extension("image/gif"), "");
    assert_eq!(file_extension("IMAGE/PNG"), "");
    assert_eq!(file_extension(""), "");
    let mut warnings = GenerationWarnings::new();
    let known = response("u", Some("image/webp"), b"");
    assert_eq!(known.get_content_type_and_file_extension(&mut warnings), ("image/webp".to_string(), "webp".to_string()));
    let unknown = response("u", Some("text/html"), b"");
    assert_eq!(unknown.get_content_type_and_file_extension(&mut warnings), ("text/html".to_string(), String::new()));
    assert_eq!(warnings.warnings_count(), 0);
}

#[test]
fn missing_content_type_gives_a_warning() {
    let mut warnings = GenerationWarnings::new();
    let bare = response("https://example.com/x", None, b"");
    assert_eq!(bare.get_content_type_and_file_extension(&mut warnings), (String::new(), String::new()));
    assert_eq!(warnings.warnings_count(), 1);
    assert!(matches!(
        &warnings.get_warnings()[0],
        Warning::MissingContentType { warning_msg, url }
            if warning_msg == "Unable to find or parse the content-type header" && url == "https://example.com/x"
    ));
}

#[test]
fn response_text_is_decoded_with_replacement() {
    assert_eq!(response("u", None, "héllo".as_bytes()).get_text(), "héllo");
    assert_eq!(response("u", None, &[b'a', 0xff, b'b']).get_text(), "a\u{fffd}b");
}

#[test]
fn strings_become_urls_or_errors() {
    assert_eq!(string_to_url("https://www.royalroad.com/fiction/1").unwrap(), "https://www.royalroad.com/fiction/1");
    assert_eq!(string_to_url("HTTP://EXAMPLE.com").unwrap(), "http://example.com/");
    assert!(matches!(
        string_to_url("/fiction/1"),
        Err(GenerationError::UrlParseError { string_url, error })
            if string_url == "/fiction/1" && error == "relative URL without a base"
    ));
}

#[test]
fn warnings_are_kept_in_order() {
    let mut first = GenerationWarnings::new();
    first.add_warning(Warning::MissingContentType { warning_msg: "a".to_string(), url: "u".to_string() });
    let mut second = GenerationWarnings::new();
    second.add_warning(Warning::TempDirDeletionError {
        warning_msg: "b".to_string(),
        temp_directory_path: "/tmp/x".to_string(),
        error: "busy".to_string(),
    });
    first.append(second);
    assert_eq!(first.warnings_count(), 2);
    assert!(matches!(&first.get_warnings()[0], Warning::MissingContentType { .. }));
    assert!(matches!(&first.get_warnings()[1], Warning::TempDirDeletionError { error, .. } if error == "busy"));
}

#[test]
fn unsupported_formats_fail_at_once() {
    assert!(matches!(
        generate_audiobook(AudiobookArgs { no_chapter_titles: false, split_novel_by_chapters: true }, BOOK_URL, "out"),
        Err(GenerationError::UnsupportedModeError)
    ));
    assert!(matches!(generate_html(HtmlArgs {}, BOOK_URL, "out"), Err(GenerationError::UnsupportedModeError)));
}

#[test]
fn markdown_parts_are_put_together_exactly() {
    assert_eq!(head_text("T", "A", "2024-01-02T03:04:05+00:00"), "T\n\nby: A\nArchived on: 2024-01-02T03:04:05+00:00\n\n");
    assert_eq!(section_text("One", "body", false), "----\nOne\n\nbody\n\n");
    assert_eq!(section_text("One", "body", true), "\n\nbody\n\n");
}

#[test]
fn markdown_document_holds_every_chapter_in_order() {
    let (book, _) = sample_book();
    let args = MarkdownArgs { no_chapter_titles: false, no_image_tags: true };
    let bodies = vec!["second body".to_string(), "first body".to_string()];
    assert_eq!(
        render_markdown(&book, &args, "NOW", &bodies),
        "My: Book?\n\nby: Jane Doe\nArchived on: NOW\n\n----\nTwo\n\nsecond body\n\n----\nOne\n\nfirst body\n\n"
    );
    let bare = MarkdownArgs { no_chapter_titles: true, no_image_tags: true };
    assert_eq!(
        render_markdown(&book, &bare, "NOW", &bodies),
        "My: Book?\n\nby: Jane Doe\nArchived on: NOW\n\n\n\nsecond body\n\n\n\nfirst body\n\n"
    );
    assert_eq!(
        render_markdown(&book, &args, "NOW", &vec!["only".to_string()]),
        "My: Book?\n\nby: Jane Doe\nArchived on: NOW\n\n----\nTwo\n\nonly\n\n"
    );
    assert_eq!(render_markdown(&book, &args, "NOW", &Vec::new()), "My: Book?\n\nby: Jane Doe\nArchived on: NOW\n\n");
}

#[test]
fn markup_for_conversion_keeps_or_loses_its_image_tags() {
    let (book, _) = sample_book();
    assert_eq!(chapter_markup_text(&book.chapters[0], true), "<html><p>Second&nbsp;text</p></html>");
    assert_eq!(
        chapter_markup_text(&book.chapters[0], false),
        "<html><p>Second&nbsp;text</p><img src=\"https://example.com/i.png\" alt=\"a\"><img alt=\"b\" src=\"https://example.com/i.png\"></html>"
    );
}

fn convert(step: MarkdownStep, expected: &str) -> MarkdownRenderer {
    match step {
        MarkdownStep::Convert { renderer, markup } => {
            assert_eq!(markup, expected);
            renderer
        },
        MarkdownStep::Write { .. } => panic!("a conversion is asked for"),
    }
}

#[test]
fn markdown_renderer_asks_for_each_chapter_in_order() {
    let (book, _) = sample_book();
    let args = MarkdownArgs { no_chapter_titles: false, no_image_tags: true };
    let renderer = convert(
        MarkdownRenderer::begin(book, args, "NOW".to_string()),
        "<html><p>Second&nbsp;text</p></html>",
    );
    let second = html2md::parse_html("<html><p>Second&nbsp;text</p></html>");
    let renderer = convert(renderer.accept(second.clone()), "<html><p>First text</p></html>");
    let first = html2md::parse_html("<html><p>First text</p></html>");
    assert_eq!(first, "First text");
    match renderer.accept(first) {
        MarkdownStep::Write { file_name, content } => {
            assert_eq!(file_name, "My  Book .md");
            assert_eq!(
                content,
                format!("My: Book?\n\nby: Jane Doe\nArchived on: NOW\n\n----\nTwo\n\n{second}\n\n----\nOne\n\nFirst text\n\n")
            );
        },
        MarkdownStep::Convert { .. } => panic!("the document is complete"),
    }
}

#[test]
fn generated_markdown_begins_with_the_first_chapter() {
    let (book, _) = sample_book();
    let step = generate_markdown(MarkdownArgs { no_chapter_titles: true, no_image_tags: false }, book);
    let renderer = convert(
        step,
        "<html><p>Second&nbsp;text</p><img src=\"https://example.com/i.png\" alt=\"a\"><img alt=\"b\" src=\"https://example.com/i.png\"></html>",
    );
    let renderer = convert(
        renderer.accept("2".to_string()),
        "<html><p>First text</p><img src=\"https://example.com/i.png\" alt=\"a\"><img src=\"https://example.com/j.png\"><img src=\"nowhere\"></html>",
    );
    match renderer.accept("1".to_string()) {
        MarkdownStep::Write { file_name, content } => {
            assert_eq!(file_name, "My  Book .md");
            assert!(content.starts_with("My: Book?\n\nby: Jane Doe\nArchived on: "));
            assert!(content.ends_with("\n\n\n\n2\n\n\n\n1\n\n"));
        },
        MarkdownStep::Convert { .. } => panic!("the document is complete"),
    }
}

#[test]
fn a_book_without_chapters_gives_its_document_at_once() {
    let book = Book::new(
        "https://u/".to_string(),
        "T".to_string(),
        "A".to_string(),
        "https://u/c.png".to_string(),
        Vec::new(),
        royal_road_archiver::misc::ImageMap::new(),
    );
    assert_eq!(book.count_paragraphs(), 0);
    let args = MarkdownArgs { no_chapter_titles: false, no_image_tags: false };
    match MarkdownRenderer::begin(book, args, "NOW".to_string()) {
        MarkdownStep::Write { file_name, content } => {
            assert_eq!(file_name, "T.md");
            assert_eq!(content, "T\n\nby: A\nArchived on: NOW\n\n");
        },
        MarkdownStep::Convert { .. } => panic!("nothing is to be converted"),
    }
}

#[test]
fn package_file_names_are_numbered() {
    assert_eq!(cover_file_name_text("png"), "cover.png");
    assert_eq!(cover_file_name_text(""), "cover.");
    assert_eq!(image_file_name_text(0, "png"), "image_0.png");
    assert_eq!(image_file_name_text(12, ""), "image_12.");
    assert_eq!(chapter_file_name_text(0), "chapter_1.xhtml");
    assert_eq!(chapter_file_name_text(9), "chapter_10.xhtml");
}

#[test]
fn cover_page_shows_the_book() {
    assert_eq!(
        cover_page_text("https://u/", "T", "A", "png", "NOW"),
        "<?xml version=\"1.0\" encoding=\"UTF-8\"?>\n<html xmlns=\"http://www.w3.org/1999/xhtml\" xmlns:epub=\"http://www.idpf.org/2007/ops\">\n<head></head><body><div style=\"text-align: center;\">\n        <h1><a href=\"https://u/\">T</a></h1>\n        <img src=\"cover.png\"/>\n        <h2>by: A</h2>\n        <h3>Archived on: NOW</h3></div></body>\n</html>"
    );
}

#[test]
fn every_tag_variant_gets_its_own_substitution() {
    let mut substitutions = vec![("#".to_string(), "y".to_string())];
    let tags = vec![
        "<img src=\"https://example.com/i.png\" alt=\"a\">".to_string(),
        "<img alt=\"b\" src=\"https://example.com/i.png\">".to_string(),
    ];
    add_substitutions(&mut substitutions, &tags, "image_3.png");
    assert_eq!(
        substitutions,
        vec![
            ("#".to_string(), "y".to_string()),
            (tags[0].clone(), "<img src=\"image_3.png\" alt=\"a\">".to_string()),
            (tags[1].clone(), "<img alt=\"b\" src=\"image_3.png\">".to_string()),
        ]
    );
    assert_eq!(
        substituted_text(
            "<p><img alt=\"b\" src=\"https://example.com/i.png\">#<img src=\"https://example.com/i.png\" alt=\"a\"></p>",
            &substitutions
        ),
        "<p><img alt=\"b\" src=\"image_3.png\">y<img src=\"image_3.png\" alt=\"a\"></p>"
    );
}

#[test]
fn chapter_markup_for_normalization() {
    let (book, _) = sample_book();
    assert_eq!(chapter_input_text(&book.chapters[0], true, &Vec::new()), "<html><p>Second text</p></html>");
    let substitutions = vec![(
        "<img src=\"https://example.com/i.png\" alt=\"a\">".to_string(),
        "<img src=\"image_0.png\" alt=\"a\">".to_string(),
    )];
    assert_eq!(
        chapter_input_text(&book.chapters[0], false, &substitutions),
        "<html><p>Second text</p><img src=\"image_0.png\" alt=\"a\"><img alt=\"b\" src=\"https://example.com/i.png\"></html>"
    );
}

fn fetch(step: Result<EpubStep, GenerationError>, expected: &str) -> EpubRenderer {
    match step {
        Ok(EpubStep::Fetch { renderer, address }) => {
            assert_eq!(address, expected);
            renderer
        },
        _ => panic!("a fetch is asked for"),
    }
}

fn normalize(step: Result<EpubStep, GenerationError>, expected: &str) -> EpubRenderer {
    match step {
        Ok(EpubStep::Normalize { renderer, markup }) => {
            assert_eq!(markup, expected);
            renderer
        },
        _ => panic!("a normalization is asked for"),
    }
}

fn finish(step: Result<EpubStep, GenerationError>, warnings_expected: usize) {
    let renderer = match step {
        Ok(EpubStep::Write { renderer, file_name, content }) => {
            assert_eq!(file_name, "My  Book .epub");
            assert!(content.starts_with(b"PK"));
            renderer
        },
        _ => panic!("the package is to be written"),
    };
    assert_eq!(renderer.stage(), EpubStage::Finalized);
    match renderer.step(EpubEvent::Written) {
        Ok(EpubStep::Done { warnings }) => assert_eq!(warnings.warnings_count(), warnings_expected),
        _ => panic!("the rendering is done"),
    }
}

#[test]
fn package_with_images_goes_through_every_stage() {
    let (book, warnings) = sample_book();
    let renderer = EpubRenderer::new(book, false, "NOW".to_string(), warnings);
    assert_eq!(renderer.stage(), EpubStage::Init);
    let renderer = fetch(renderer.step(EpubEvent::Start), "https://www.royalroad.com/covers/1.jpg");
    assert_eq!(renderer.stage(), EpubStage::MetadataAttached);
    let cover = response("https://www.royalroad.com/covers/1.jpg", Some("image/jpeg"), b"cover");
    let renderer = fetch(renderer.step(EpubEvent::Fetched { response: cover }), "https://example.com/i.png");
    assert_eq!(renderer.stage(), EpubStage::CoverAttached);
    let first = response("https://example.com/i.png", Some("image/png"), b"i");
    let renderer = fetch(renderer.step(EpubEvent::Fetched { response: first }), "https://example.com/j.png");
    assert_eq!(renderer.stage(), EpubStage::CoverAttached);
    let second = response("https://example.com/j.png", None, b"j");
    let renderer = normalize(
        renderer.step(EpubEvent::Fetched { response: second }),
        "<html><p>Second text</p><img src=\"image_0.png\" alt=\"a\"><img alt=\"b\" src=\"image_0.png\"></html>",
    );
    assert_eq!(renderer.stage(), EpubStage::ImagesAttached);
    let renderer = normalize(
        renderer.step(EpubEvent::Normalized { xhtml: "<p>Second text</p>".to_string() }),
        "<html><p>First text</p><img src=\"image_0.png\" alt=\"a\"><img src=\"image_1.\"><img src=\"nowhere\"></html>",
    );
    finish(renderer.step(EpubEvent::Normalized { xhtml: "<p>First text</p>".to_string() }), 2);
}

#[test]
fn package_without_images_skips_them() {
    let (book, warnings) = sample_book();
    let renderer = generate_epub(EpubArgs { no_images: true }, book, warnings);
    let renderer = fetch(renderer.step(EpubEvent::Start), "https://www.royalroad.com/covers/1.jpg");
    let cover = response("https://www.royalroad.com/covers/1.jpg", Some("image/jpeg"), b"cover");
    let renderer = normalize(
        renderer.step(EpubEvent::Fetched { response: cover }),
        "<html><p>Second text</p></html>",
    );
    assert_eq!(renderer.stage(), EpubStage::ImagesSkipped);
    let renderer = normalize(
        renderer.step(EpubEvent::Normalized { xhtml: "<p>Second text</p>".to_string() }),
        "<html><p>First text</p></html>",
    );
    finish(renderer.step(EpubEvent::Normalized { xhtml: "<p>First text</p>".to_string() }), 1);
}

#[test]
fn an_event_that_answers_nothing_is_an_error() {
    let (book, warnings) = sample_book();
    let renderer = EpubRenderer::new(book, false, "NOW".to_string(), warnings);
    assert!(matches!(
        renderer.step(EpubEvent::Written),
        Err(GenerationError::PackageError { error }) if error == "the renderer did not ask for this"
    ));
    let (book, warnings) = sample_book();
    let renderer = fetch(
        EpubRenderer::new(book, false, "NOW".to_string(), warnings).step(EpubEvent::Start),
        "https://www.royalroad.com/covers/1.jpg",
    );
    assert!(matches!(
        renderer.step(EpubEvent::Normalized { xhtml: String::new() }),
        Err(GenerationError::PackageError { .. })
    ));
}

#[test]
fn a_package_is_written_from_its_parts() {
    let cover = Resource { file_name: "cover.png".to_string(), mime_type: "image/png".to_string(), content: vec![1, 2, 3] };
    let page = Section { file_name: "title.xhtml".to_string(), title: "Cover".to_string(), content: "<html/>".to_string() };
    let images = vec![Resource { file_name: "image_0.png".to_string(), mime_type: "image/png".to_string(), content: vec![4] }];
    let chapters = vec![Section { file_name: "chapter_1.xhtml".to_string(), title: "One".to_string(), content: "<html/>".to_string() }];
    let bytes = write_package("Jane Doe", "My Book", &cover, &page, &images, &chapters).unwrap();
    assert!(bytes.starts_with(b"PK"));
    assert!(bytes.len() > 100);
}

#[test]
fn a_failure_of_the_builder_is_a_package_error() {
    assert!(matches!(
        package_error("invalid metadata 'x'".to_string()),
        GenerationError::PackageError { error } if error == "invalid metadata 'x'"
    ));
}
