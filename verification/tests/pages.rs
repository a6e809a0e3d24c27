use royal_road_archiver::html::chapters_from_rows;
use royal_road_archiver::html::collect_images;
use royal_road_archiver::html::content_from_elements;
use royal_road_archiver::html::extract_urls_and_img_tag;
use royal_road_archiver::html::find_meta_content;
use royal_road_archiver::html::find_source_value;
use royal_road_archiver::html::get_author_from_index;
use royal_road_archiver::html::html_to_xhtml;
use royal_road_archiver::html::NormalizerOutcome;
use royal_road_archiver::html::get_chapter_names_and_urls_from_index;
use royal_road_archiver::html::get_cover_image_url_from_index;
use royal_road_archiver::html::get_title_from_index;
use royal_road_archiver::html::isolate_chapter_content;
use royal_road_archiver::html::record_image;
use royal_road_archiver::html::remove_image_tags;
use royal_road_archiver::html::replace_img_src;
use royal_road_archiver::html::replace_source_value;
use royal_road_archiver::html::string_to_html_document;
use royal_road_archiver::html::string_to_html_fragment;
use royal_road_archiver::html::strip_tags;
use royal_road_archiver::html::without_nbsp;
use royal_road_archiver::html::Element;
use royal_road_archiver::misc::ImageMap;
use royal_road_archiver::Field;
use royal_road_archiver::GenerationError;
use royal_road_archiver::GenerationWarnings;
use royal_road_archiver::Warning;

const BOOK_URL: &str = "https://www.royalroad.com/fiction/1/my-book";

fn index_page(metas: &str, script: &str) -> String {
    format!("<!DOCTYPE html><html><head><title>x</title>{metas}</head><body><script>var a = 1;</script><script>{script}</script><p>text</p></body></html>")
}

const ALL_METAS: &str = "<meta name=\"twitter:title\" content=\"My: Book?\"><meta property=\"books:author\" content=\"Jane Doe\"><meta property=\"og:image\" content=\"https://www.royalroad.com/covers/1.jpg\"><meta name=\"twitter:title\" content=\"Second title\">";

const CHAPTERS: &str = "window.fictionCover = \"x\"; window.chapters = [{\"id\":3,\"title\":\"Zebra\",\"url\":\"/fiction/1/my-book/chapter/3/zebra\"},{\"id\":1,\"title\":\"Apple [1]\",\"url\":\"/fiction/1/my-book/chapter/1/apple\"},{\"id\":2,\"title\":\"Mango\",\"url\":\"/fiction/1/my-book/chapter/2/mango\"}]; window.volumes = [];";

fn element(attributes: &[(&str, &str)], html: &str, inner_html: &str) -> Element {
    Element {
        attributes: attributes.iter().map(|(k, v)| (k.to_string(), v.to_string())).collect(),
        html: html.to_string(),
        inner_html: inner_html.to_string(),
    }
}

#[test]
fn title_author_and_cover_are_read_from_the_index() {
    let index = string_to_html_document(&index_page(ALL_METAS, CHAPTERS));
    assert_eq!(get_title_from_index(&index, BOOK_URL).unwrap(), "My: Book?");
    assert_eq!(get_author_from_index(&index, BOOK_URL).unwrap(), "Jane Doe");
    assert_eq!(
        get_cover_image_url_from_index(&index, BOOK_URL).unwrap(),
        "https://www.royalroad.com/covers/1.jpg"
    );
}

#[test]
fn missing_title_names_the_field_and_the_book() {
    let metas = "<meta property=\"books:author\" content=\"Jane Doe\"><meta name=\"description\" content=\"twitter:title\">";
    let index = string_to_html_document(&index_page(metas, CHAPTERS));
    assert!(matches!(
        get_title_from_index(&index, BOOK_URL),
        Err(GenerationError::MissingFieldError { field: Field::Title, url }) if url == BOOK_URL
    ));
}

#[test]
fn missing_author_and_cover_name_their_fields() {
    let metas = "<meta name=\"twitter:title\" content=\"My Book\">";
    let index = string_to_html_document(&index_page(metas, CHAPTERS));
    assert!(matches!(
        get_author_from_index(&index, BOOK_URL),
        Err(GenerationError::MissingFieldError { field: Field::Author, url }) if url == BOOK_URL
    ));
    assert!(matches!(
        get_cover_image_url_from_index(&index, BOOK_URL),
        Err(GenerationError::MissingFieldError { field: Field::CoverImageUrl, url }) if url == BOOK_URL
    ));
}

#[test]
fn metadata_without_content_counts_as_missing() {
    let metas = "<meta name=\"twitter:title\">";
    let index = string_to_html_document(&index_page(metas, CHAPTERS));
    assert!(matches!(
        get_title_from_index(&index, BOOK_URL),
        Err(GenerationError::MissingFieldError { field: Field::Title, .. })
    ));
}

#[test]
fn first_marked_element_gives_the_content() {
    let metas = vec![
        element(&[("name", "description"), ("content", "no")], "", ""),
        element(&[("content", "first"), ("name", "twitter:title")], "", ""),
        element(&[("name", "twitter:title"), ("content", "second")], "", ""),
    ];
    assert_eq!(find_meta_content(&metas, "name", "twitter:title"), Some("first".to_string()));
    assert_eq!(find_meta_content(&metas, "property", "twitter:title"), None);
    assert_eq!(find_meta_content(&Vec::new(), "name", "twitter:title"), None);
    assert_eq!(metas[1].attr("content"), Some("first".to_string()));
    assert_eq!(metas[1].attr("missing"), None);
}

#[test]
fn chapters_come_in_the_order_of_the_json_array() {
    let index = string_to_html_document(&index_page(ALL_METAS, CHAPTERS));
    let chapters = get_chapter_names_and_urls_from_index(&index, BOOK_URL).unwrap();
    assert_eq!(
        chapters,
        vec![
            ("Zebra".to_string(), "https://www.royalroad.com/fiction/1/my-book/chapter/3/zebra".to_string()),
            ("Apple [1]".to_string(), "https://www.royalroad.com/fiction/1/my-book/chapter/1/apple".to_string()),
            ("Mango".to_string(), "https://www.royalroad.com/fiction/1/my-book/chapter/2/mango".to_string()),
        ]
    );
}

#[test]
fn an_empty_chapter_list_gives_no_chapters() {
    let index = string_to_html_document(&index_page(ALL_METAS, "window.chapters = [];"));
    assert_eq!(get_chapter_names_and_urls_from_index(&index, BOOK_URL).unwrap(), Vec::new());
}

#[test]
fn missing_chapter_block_is_a_missing_field() {
    let index = string_to_html_document(&index_page(ALL_METAS, "window.volumes = [];"));
    assert!(matches!(
        get_chapter_names_and_urls_from_index(&index, BOOK_URL),
        Err(GenerationError::MissingFieldError { field: Field::ChapterList, url }) if url == BOOK_URL
    ));
}

#[test]
fn chapter_block_without_list_is_a_parse_error() {
    let index = string_to_html_document(&index_page(ALL_METAS, "window.chapters = null;"));
    assert!(matches!(
        get_chapter_names_and_urls_from_index(&index, BOOK_URL),
        Err(GenerationError::ParseError { url, .. }) if url == BOOK_URL
    ));
}

#[test]
fn chapter_list_that_is_no_json_is_a_parse_error() {
    let index = string_to_html_document(&index_page(ALL_METAS, "window.chapters = [{title: One}];"));
    assert!(matches!(
        get_chapter_names_and_urls_from_index(&index, BOOK_URL),
        Err(GenerationError::ParseError { url, error }) if url == BOOK_URL && error == "the chapter list is not a JSON array"
    ));
}

#[test]
fn chapter_without_url_is_a_parse_error() {
    let script = "window.chapters = [{\"title\":\"One\",\"url\":\"/c/1\"},{\"title\":\"Two\"}];";
    let index = string_to_html_document(&index_page(ALL_METAS, script));
    assert!(matches!(
        get_chapter_names_and_urls_from_index(&index, BOOK_URL),
        Err(GenerationError::ParseError { url, error }) if url == BOOK_URL && error == "a chapter has no title or no url"
    ));
}

#[test]
fn rows_become_chapters_with_the_origin_before_the_address() {
    let rows = vec![
        (Some("B".to_string()), Some("/b".to_string())),
        (Some("A".to_string()), Some("/a".to_string())),
    ];
    assert_eq!(
        chapters_from_rows(&rows, BOOK_URL).unwrap(),
        vec![
            ("B".to_string(), "https://www.royalroad.com/b".to_string()),
            ("A".to_string(), "https://www.royalroad.com/a".to_string()),
        ]
    );
    let incomplete = vec![(Some("B".to_string()), Some("/b".to_string())), (None, Some("/a".to_string()))];
    assert!(matches!(chapters_from_rows(&incomplete, BOOK_URL), Err(GenerationError::ParseError { .. })));
}

const CHAPTER_PAGE: &str = "<html><head><script>var x;</script></head><body><div class=\"nav\">menu</div><div class=\"chapter-inner chapter-content\"><p>Hi&nbsp;there</p><img src=\"https://example.com/i.png\" alt=\"one\"></div><div class=\"chapter-inner chapter-content\"><p>Second</p></div></body></html>";

#[test]
fn chapter_content_is_the_first_content_wrapper() {
    let page = string_to_html_document(CHAPTER_PAGE);
    let content = isolate_chapter_content(&page, "https://www.royalroad.com/c/1").unwrap();
    assert!(content.fragment);
    assert_eq!(content.source, "<p>Hi&nbsp;there</p><img src=\"https://example.com/i.png\" alt=\"one\">");
    assert_eq!(
        content.html(),
        "<html><p>Hi&nbsp;there</p><img src=\"https://example.com/i.png\" alt=\"one\"></html>"
    );
}

#[test]
fn page_without_content_wrapper_fails_with_its_address() {
    let page = string_to_html_document("<html><body><div class=\"chapter-inner\">x</div><p class=\"chapter-content chapter-inner\">y</p><div id=\"chapter-inner chapter-content\">z</div></body></html>");
    assert!(matches!(
        isolate_chapter_content(&page, "https://www.royalroad.com/c/9"),
        Err(GenerationError::ContentIsolationError { url }) if url == "https://www.royalroad.com/c/9"
    ));
    assert!(matches!(
        content_from_elements(&Vec::new(), "u"),
        Err(GenerationError::ContentIsolationError { url }) if url == "u"
    ));
}

#[test]
fn any_element_with_the_content_class_wraps_the_content() {
    let page = string_to_html_document("<html><body><div class=\"nav\">menu</div><section class=\"chapter-inner chapter-content\"><p>In a section</p></section><div class=\"chapter-inner chapter-content\"><p>In a division</p></div></body></html>");
    let content = isolate_chapter_content(&page, "https://www.royalroad.com/c/1").unwrap();
    assert_eq!(content.source, "<p>In a section</p>");
    let nested = string_to_html_document("<html><body><article class=\"chapter-inner chapter-content\"><div class=\"chapter-inner chapter-content\">inner</div>outer</article></body></html>");
    let content = isolate_chapter_content(&nested, "https://www.royalroad.com/c/2").unwrap();
    assert_eq!(content.source, "<div class=\"chapter-inner chapter-content\">inner</div>outer");
}

#[test]
fn image_tags_are_removed_from_a_fragment() {
    let fragment = string_to_html_fragment("<p>a<img src=\"https://example.com/i.png\">b<img src=\"https://example.com/j.png\" alt=\"x\">c<img src=\"https://example.com/i.png\"></p>");
    assert_eq!(remove_image_tags(&fragment), "<html><p>abc</p></html>");
    let plain = string_to_html_fragment("<p>no images</p>");
    assert_eq!(remove_image_tags(&plain), "<html><p>no images</p></html>");
}

#[test]
fn tags_are_stripped_one_after_the_other() {
    let tags = vec!["<img>".to_string(), "<b>".to_string()];
    assert_eq!(strip_tags("x<im<img>g>y<b>z", &tags), "x<img>yz");
    assert_eq!(strip_tags("x", &Vec::new()), "x");
}

#[test]
fn differently_attributed_tags_of_one_address_stand_side_by_side() {
    let fragment = string_to_html_fragment("<p><img src=\"https://example.com/i.png\" alt=\"a\"><img alt=\"b\" src=\"https://example.com/i.png\"><img src=\"https://example.com/i.png\" alt=\"a\"><img src=\"https://example.com/other.png\"><img alt=\"no source\"></p>");
    let mut warnings = GenerationWarnings::new();
    let images = extract_urls_and_img_tag(&fragment, &mut warnings);
    assert_eq!(warnings.warnings_count(), 0);
    assert_eq!(images.len(), 2);
    assert_eq!(images.address(0), "https://example.com/i.png");
    assert_eq!(
        images.tags(0),
        &vec![
            "<img src=\"https://example.com/i.png\" alt=\"a\">".to_string(),
            "<img alt=\"b\" src=\"https://example.com/i.png\">".to_string(),
        ]
    );
    assert_eq!(images.address(1), "https://example.com/other.png");
    assert_eq!(images.tags(1), &vec!["<img src=\"https://example.com/other.png\">".to_string()]);
}

#[test]
fn unparsable_image_address_gives_a_warning_and_is_skipped() {
    let fragment = string_to_html_fragment("<img src=\"pictures/i.png\"><img src=\"https://example.com/ok.png\">");
    let mut warnings = GenerationWarnings::new();
    let images = extract_urls_and_img_tag(&fragment, &mut warnings);
    assert_eq!(images.len(), 1);
    assert_eq!(images.address(0), "https://example.com/ok.png");
    assert_eq!(warnings.warnings_count(), 1);
    assert!(matches!(
        &warnings.get_warnings()[0],
        Warning::ImageTagParseError { warning_msg, raw_image_tag, error }
            if warning_msg == "Unable to parse url on image tag"
                && raw_image_tag == "<img src=\"pictures/i.png\">"
                && error == "relative URL without a base"
    ));
}

#[test]
fn image_addresses_are_written_in_their_normal_form() {
    let images = vec![element(&[("src", "HTTPS://Example.com")], "<img src=\"HTTPS://Example.com\">", "")];
    let mut warnings = GenerationWarnings::new();
    let map = collect_images(&images, &mut warnings);
    assert_eq!(map.len(), 1);
    assert_eq!(map.address(0), "https://example.com/");
}

#[test]
fn tag_without_source_is_returned_unchanged() {
    assert_eq!(replace_img_src("<img alt=\"x\">".to_string(), "image_0.png".to_string()), "<img alt=\"x\">");
    assert_eq!(replace_img_src("<img alt=\"src=none\">".to_string(), "image_0.png".to_string()), "<img alt=\"src=none\">");
    assert_eq!(replace_img_src(String::new(), "image_0.png".to_string()), "");
    assert_eq!(replace_img_src("<img>".to_string(), "image_0.png".to_string()), "<img>");
}

#[test]
fn source_inside_another_attribute_is_left_alone() {
    assert_eq!(
        replace_img_src("<img alt=\"a src='x.png' b\">".to_string(), "image_0.png".to_string()),
        "<img alt=\"a src='x.png' b\">"
    );
    assert_eq!(
        replace_img_src("<img alt=\"a src='x.png' b\" src=\"https://example.com/i.png\">".to_string(), "image_0.png".to_string()),
        "<img alt=\"a src='x.png' b\" src=\"image_0.png\">"
    );
    assert_eq!(
        replace_img_src("<img data-src=\"lazy.png\" title='say \"src=\"' src=\"https://example.com/i.png\" class=\"c\">".to_string(), "image_4.webp".to_string()),
        "<img data-src=\"lazy.png\" title='say \"src=\"' src=\"image_4.webp\" class=\"c\">"
    );
}

#[test]
fn only_the_value_of_the_source_changes() {
    assert_eq!(
        replace_img_src("<img src=\"https://example.com/i.png\">".to_string(), "image_0.png".to_string()),
        "<img src=\"image_0.png\">"
    );
    assert_eq!(
        replace_img_src(
            "<img class=\"wide\" src=\"https://example.com/i.png\" alt=\"a &quot;b&quot;\" width=\"3\">".to_string(),
            "image_12.jpeg".to_string()
        ),
        "<img class=\"wide\" src=\"image_12.jpeg\" alt=\"a &quot;b&quot;\" width=\"3\">"
    );
    assert_eq!(
        replace_img_src("<img hidden src=\"\" alt>".to_string(), "image_2.png".to_string()),
        "<img hidden src=\"image_2.png\" alt>"
    );
}

#[test]
fn the_quotes_around_the_source_are_kept() {
    assert_eq!(
        replace_img_src("<img src='https://example.com/i.png' alt='x'>".to_string(), "image_1.".to_string()),
        "<img src='image_1.' alt='x'>"
    );
    assert_eq!(
        replace_img_src("<img src='a.png'>".to_string(), "new".to_string()),
        "<img src='new'>"
    );
    assert_eq!(
        replace_img_src("<img alt=\"it's\" src = 'a\"b.png' >".to_string(), "new".to_string()),
        "<img alt=\"it's\" src = 'new' >"
    );
}

#[test]
fn source_value_is_found_and_replaced_between_the_parts() {
    assert_eq!(
        find_source_value("<img src=\"old\" alt=\"a\">"),
        Some(("<img src=\"".to_string(), "old".to_string(), "\" alt=\"a\">".to_string()))
    );
    assert_eq!(
        find_source_value("<img alt='a' src='old'>"),
        Some(("<img alt='a' src='".to_string(), "old".to_string(), "'>".to_string()))
    );
    assert_eq!(find_source_value("<img alt=\"a\">"), None);
    let found = Some(("<img src=\"".to_string(), "old".to_string(), "\" alt=\"a\">".to_string()));
    assert_eq!(
        replace_source_value("<img src=\"old\" alt=\"a\">".to_string(), found, "new"),
        "<img src=\"new\" alt=\"a\">"
    );
    assert_eq!(replace_source_value("<img>".to_string(), None, "new"), "<img>");
}

#[test]
fn no_break_space_entities_become_spaces() {
    assert_eq!(without_nbsp("<p>a&nbsp;b&nbsp;&nbsp;c</p>"), "<p>a b  c</p>");
    assert_eq!(without_nbsp("<p>&amp;nbsp;</p>"), "<p>&amp;nbsp;</p>");
}

#[test]
fn documents_and_fragments_are_read_differently() {
    let document = string_to_html_document("<p>x</p>");
    assert!(!document.fragment);
    assert_eq!(document.html(), "<html><head></head><body><p>x</p></body></html>");
    let fragment = string_to_html_fragment("<p>x</p>");
    assert_eq!(fragment.html(), "<html><p>x</p></html>");
    let paragraphs = fragment.select("p").unwrap();
    assert_eq!(paragraphs.len(), 1);
    assert_eq!(paragraphs[0].html, "<p>x</p>");
    assert_eq!(paragraphs[0].inner_html, "x");
    assert_eq!(fragment.select("h1").unwrap().len(), 0);
    assert!(fragment.select("p[").is_none());
    assert_eq!(fragment.elements("p[").len(), 0);
    assert_eq!(fragment.elements("*").len(), 2);
    assert_eq!(document.elements("*").len(), 4);
}

#[test]
fn normalizer_output_counts_only_after_success() {
    let ended = NormalizerOutcome::Ended { success: true, output: "<p>h\u{e9}</p>".as_bytes().to_vec() };
    assert_eq!(html_to_xhtml(ended).unwrap(), "<p>h\u{e9}</p>");
    let broken = NormalizerOutcome::Ended { success: true, output: vec![b'<', 0xff, b'>'] };
    assert_eq!(html_to_xhtml(broken).unwrap(), "<\u{fffd}>");
    let failed = NormalizerOutcome::Ended { success: false, output: b"<p>partial</p>".to_vec() };
    assert!(matches!(
        html_to_xhtml(failed),
        Err(GenerationError::Html2XhtmlStartError { error }) if error == "html2xhtml ended without success"
    ));
    let not_run = NormalizerOutcome::NotRun { error: "No such file or directory".to_string() };
    assert!(matches!(
        html_to_xhtml(not_run),
        Err(GenerationError::Html2XhtmlStartError { error }) if error == "No such file or directory"
    ));
}

#[test]
fn an_image_is_recorded_or_warned_about() {
    let mut warnings = GenerationWarnings::new();
    let images = record_image(ImageMap::new(), "<img src=\"a\">", Ok("https://example.com/a".to_string()), &mut warnings);
    assert_eq!(images.len(), 1);
    assert_eq!(images.address(0), "https://example.com/a");
    assert_eq!(images.tags(0), &vec!["<img src=\"a\">".to_string()]);
    assert_eq!(warnings.warnings_count(), 0);
    let images = record_image(images, "<img src=\"b\">", Err("empty host".to_string()), &mut warnings);
    assert_eq!(images.len(), 1);
    assert_eq!(warnings.warnings_count(), 1);
    assert!(matches!(
        &warnings.get_warnings()[0],
        Warning::ImageTagParseError { raw_image_tag, error, .. }
            if raw_image_tag == "<img src=\"b\">" && error == "empty host"
    ));
}
