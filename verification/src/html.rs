//! Reading markup: the metadata and chapter list of an index page, the
//! content of a chapter page, and the image tags in that content.
//!
//! Markup is parsed by `scraper`. What the library reads of a parsed page is
//! a list of [`Element`]s, each with its attributes and its markup as plain
//! strings; everything that is decided from them is decided here.

use vstd::prelude::*;
use vstd::string::StringExecFns;
use regex::Regex;
use scraper::Selector;
use crate::http::decode_lossy;
use crate::http::is_lossy_text;
use crate::http::parse_url;
use crate::http::parsed_url;
use crate::misc::has_address;
use crate::misc::lemma_with_tag;
use crate::misc::tags_under;
use crate::misc::well_formed;
use crate::misc::with_tag;
use crate::misc::ImageMap;
use crate::misc::Images;
use crate::text::contains;
use crate::text::contains_text;
use crate::text::joined;
use crate::text::option_text;
use crate::text::replace_all;
use crate::text::replaced;
use crate::text::same_text;
use crate::text::text_or_text;
use crate::text::texts;
use crate::text_or_error;
use crate::ErrorModel;
use crate::Field;
use crate::GenerationError;
use crate::GenerationWarnings;
use crate::Warning;
use crate::WarningModel;

verus! {

/// The model of an [`Element`].
pub struct ElementModel {
    pub attributes: Seq<(Seq<char>, Seq<char>)>,
    pub html: Seq<char>,
    pub inner_html: Seq<char>,
}

/// An element of a parsed page, as far as the library reads it.
pub struct Element {
    /// The attributes as pairs of name and value, in the order of the markup.
    pub attributes: Vec<(String, String)>,
    /// The markup of the element, its own tags included.
    pub html: String,
    /// The markup of what stands inside the element.
    pub inner_html: String,
}

/// The models of a list of attributes.
pub open spec fn attribute_models(attributes: Seq<(String, String)>) -> Seq<
    (Seq<char>, Seq<char>),
> {
    Seq::new(attributes.len(), |i: int| (attributes[i].0@, attributes[i].1@))
}

impl View for Element {
    type V = ElementModel;

    open spec fn view(&self) -> ElementModel {
        ElementModel {
            attributes: attribute_models(self.attributes@),
            html: self.html@,
            inner_html: self.inner_html@,
        }
    }
}

/// The models of a list of elements.
pub open spec fn element_models(elements: Seq<Element>) -> Seq<ElementModel> {
    Seq::new(elements.len(), |i: int| elements[i]@)
}

/// The elements of `markup`, parsed as a whole document, that the CSS
/// selector `selector` matches, in the order in which `scraper::Html::select`
/// yields them; `None` where `selector` is no valid selector.
pub uninterp spec fn document_selection(markup: Seq<char>, selector: Seq<char>) -> Option<
    Seq<ElementModel>,
>;

/// The elements of `markup`, parsed as a fragment, that the CSS selector
/// `selector` matches, in the order in which `scraper::Html::select` yields
/// them; `None` where `selector` is no valid selector.
pub uninterp spec fn fragment_selection(markup: Seq<char>, selector: Seq<char>) -> Option<
    Seq<ElementModel>,
>;

/// The model of an optional list of elements.
pub open spec fn optional_element_models(elements: Option<Vec<Element>>) -> Option<
    Seq<ElementModel>,
> {
    match elements {
        Some(elements) => Some(element_models(elements@)),
        None => None,
    }
}

/// The elements of `markup`, parsed as a whole document, that `selector`
/// matches; none where `selector` is no valid selector.
pub open spec fn document_elements(markup: Seq<char>, selector: Seq<char>) -> Seq<ElementModel> {
    match document_selection(markup, selector) {
        Some(elements) => elements,
        None => Seq::empty(),
    }
}

/// The elements of `markup`, parsed as a fragment, that `selector` matches;
/// none where `selector` is no valid selector.
pub open spec fn fragment_elements(markup: Seq<char>, selector: Seq<char>) -> Seq<ElementModel> {
    match fragment_selection(markup, selector) {
        Some(elements) => elements,
        None => Seq::empty(),
    }
}

/// The markup that `scraper::Html::html` writes for `markup` parsed as a
/// whole document.
pub uninterp spec fn document_serialization(markup: Seq<char>) -> Seq<char>;

/// The markup that `scraper::Html::html` writes for `markup` parsed as a
/// fragment.
pub uninterp spec fn fragment_serialization(markup: Seq<char>) -> Seq<char>;

/// The leftmost match of the regular expression `pattern` in `text`, cut at
/// capture group `group`: the text before the group, the text of the group,
/// and the text behind it. `None` where `pattern` is no valid expression,
/// where it matches nowhere, or where the group took no part in the match.
pub uninterp spec fn pattern_match(pattern: Seq<char>, text: Seq<char>, group: nat) -> Option<
    (Seq<char>, Seq<char>, Seq<char>),
>;

/// The rows of a JSON array: for each element of the array that `text`
/// holds, in order, the string that the element has under `first_key` and
/// the string that it has under `second_key`, each `None` where the element
/// has no string there. `None` where `text` is no JSON array.
pub uninterp spec fn json_rows(text: Seq<char>, first_key: Seq<char>, second_key: Seq<char>)
    -> Option<Seq<(Option<Seq<char>>, Option<Seq<char>>)>>;

/// Parses `markup` as a document with `scraper::Html::parse_document` and
/// lists the elements that `scraper::Html::select` yields for `selector`.
///
/// Each element is handed out as its attributes (`Element::attrs`), its
/// markup (`ElementRef::html`) and its inner markup
/// (`ElementRef::inner_html`). `None` stands for a selector that
/// `Selector::parse` refuses.
#[verifier::external_body]
fn select_in_document(markup: &str, selector: &str) -> (r: Option<Vec<Element>>)
    ensures
        optional_element_models(r) == document_selection(markup@, selector@),
{
    let tree = scraper::Html::parse_document(markup);
    match Selector::parse(selector) {
        Ok(selector) => Some(
            tree.select(&selector).map(
                |e| Element {
                    attributes: e.value().attrs().map(|(k, v)| (k.to_owned(), v.to_owned()))
                        .collect(),
                    html: e.html(),
                    inner_html: e.inner_html(),
                },
            ).collect(),
        ),
        Err(_) => None,
    }
}

/// Parses `markup` as a fragment with `scraper::Html::parse_fragment` and
/// lists the elements that `scraper::Html::select` yields for `selector`,
/// each handed out as by [`select_in_document`].
#[verifier::external_body]
fn select_in_fragment(markup: &str, selector: &str) -> (r: Option<Vec<Element>>)
    ensures
        optional_element_models(r) == fragment_selection(markup@, selector@),
{
    let tree = scraper::Html::parse_fragment(markup);
    match Selector::parse(selector) {
        Ok(selector) => Some(
            tree.select(&selector).map(
                |e| Element {
                    attributes: e.value().attrs().map(|(k, v)| (k.to_owned(), v.to_owned()))
                        .collect(),
                    html: e.html(),
                    inner_html: e.inner_html(),
                },
            ).collect(),
        ),
        Err(_) => None,
    }
}

/// Parses `markup` as a document and writes it out again with
/// `scraper::Html::html`.
#[verifier::external_body]
fn serialize_document(markup: &str) -> (r: String)
    ensures
        r@ == document_serialization(markup@),
{
    scraper::Html::parse_document(markup).html()
}

/// Parses `markup` as a fragment and writes it out again with
/// `scraper::Html::html`.
#[verifier::external_body]
fn serialize_fragment(markup: &str) -> (r: String)
    ensures
        r@ == fragment_serialization(markup@),
{
    scraper::Html::parse_fragment(markup).html()
}

/// Finds the leftmost match of `pattern` in `text` with
/// `regex::Regex::captures` and cuts `text` at capture group `group`.
///
/// The three parts are the text before `Match::start`, the text of the
/// match (`Match::as_str`) and the text from `Match::end` on, so together
/// they are `text`.
#[verifier::external_body]
fn match_group(pattern: &str, text: &str, group: usize) -> (r: Option<(String, String, String)>)
    ensures
        match r {
            Some(parts) => {
                &&& pattern_match(pattern@, text@, group as nat) == Some(
                    (parts.0@, parts.1@, parts.2@),
                )
                &&& parts.0@ + parts.1@ + parts.2@ == text@
            },
            None => pattern_match(pattern@, text@, group as nat) is None,
        },
{
    let expression = Regex::new(pattern).ok()?;
    let found = expression.captures(text)?.get(group)?;
    Some(
        (
            text[..found.start()].to_owned(),
            found.as_str().to_owned(),
            text[found.end()..].to_owned(),
        ),
    )
}

/// The models of rows.
pub open spec fn row_models(rows: Seq<(Option<String>, Option<String>)>) -> Seq<
    (Option<Seq<char>>, Option<Seq<char>>),
> {
    Seq::new(rows.len(), |i: int| (option_text(rows[i].0), option_text(rows[i].1)))
}

/// The model of optional rows.
pub open spec fn optional_row_models(rows: Option<Vec<(Option<String>, Option<String>)>>)
    -> Option<Seq<(Option<Seq<char>>, Option<Seq<char>>)>> {
    match rows {
        Some(rows) => Some(row_models(rows@)),
        None => None,
    }
}

/// Reads `text` as a JSON array with `serde_json::from_str` and hands out,
/// for each element, the strings under the two keys (`Value::get`, then
/// `Value::as_str`).
#[verifier::external_body]
fn read_json_rows(text: &str, first_key: &str, second_key: &str) -> (r: Option<
    Vec<(Option<String>, Option<String>)>,
>)
    ensures
        optional_row_models(r) == json_rows(text@, first_key@, second_key@),
{
    let items: Vec<serde_json::Value> = serde_json::from_str(text).ok()?;
    Some(
        items.iter().map(
            |item|
                (
                    item.get(first_key).and_then(|v| v.as_str()).map(str::to_owned),
                    item.get(second_key).and_then(|v| v.as_str()).map(str::to_owned),
                ),
        ).collect(),
    )
}

/// The value of the first attribute named `name`.
pub open spec fn attribute_in(attributes: Seq<(Seq<char>, Seq<char>)>, name: Seq<char>) -> Option<
    Seq<char>,
>
    decreases attributes.len(),
{
    if attributes.len() == 0 {
        None
    } else if attributes[0].0 == name {
        Some(attributes[0].1)
    } else {
        attribute_in(attributes.skip(1), name)
    }
}

/// The value that `element` has for the attribute `name`.
pub open spec fn attribute(element: ElementModel, name: Seq<char>) -> Option<Seq<char>> {
    attribute_in(element.attributes, name)
}

/// The first of `elements` whose attribute `name` has the value `value`.
pub open spec fn first_with_attribute(
    elements: Seq<ElementModel>,
    name: Seq<char>,
    value: Seq<char>,
) -> Option<ElementModel>
    decreases elements.len(),
{
    if elements.len() == 0 {
        None
    } else if attribute(elements[0], name) == Some(value) {
        Some(elements[0])
    } else {
        first_with_attribute(elements.skip(1), name, value)
    }
}

/// The `content` of the first metadata element that is marked by the
/// attribute `name` with the value `value`; `None` where no element is
/// marked so, or where that element has no `content`.
pub open spec fn meta_content(elements: Seq<ElementModel>, name: Seq<char>, value: Seq<char>)
    -> Option<Seq<char>> {
    match first_with_attribute(elements, name, value) {
        Some(element) => attribute(element, "content"@),
        None => None,
    }
}

impl Element {
    /// The value of the attribute `name`.
    pub fn attr(&self, name: &str) -> (r: Option<String>)
        ensures
            option_text(r) == attribute(self@, name@),
    {
        let ghost all = attribute_models(self.attributes@);
        let mut i: usize = 0;
        assert(all.skip(0) =~= all);
        while i < self.attributes.len()
            invariant
                i <= self.attributes@.len(),
                all == attribute_models(self.attributes@),
                attribute_in(all, name@) == attribute_in(all.skip(i as int), name@),
            decreases self.attributes@.len() - i,
        {
            assert(all.skip(i as int)[0] == all[i as int]);
            assert(all.skip(i as int).skip(1) =~= all.skip(i + 1));
            if same_text(self.attributes[i].0.as_str(), name) {
                return Some(self.attributes[i].1.clone());
            }
            i = i + 1;
        }
        None
    }
}

/// The index of the first of `elements` whose attribute `name` has the value
/// `value`.
pub fn find_with_attribute(elements: &Vec<Element>, name: &str, value: &str) -> (r: Option<usize>)
    ensures
        match r {
            Some(i) => i < elements@.len() && first_with_attribute(
                element_models(elements@),
                name@,
                value@,
            ) == Some(elements@[i as int]@),
            None => first_with_attribute(element_models(elements@), name@, value@) is None,
        },
{
    let ghost all = element_models(elements@);
    let mut i: usize = 0;
    assert(all.skip(0) =~= all);
    while i < elements.len()
        invariant
            i <= elements@.len(),
            all == element_models(elements@),
            first_with_attribute(all, name@, value@) == first_with_attribute(
                all.skip(i as int),
                name@,
                value@,
            ),
        decreases elements@.len() - i,
    {
        assert(all.skip(i as int)[0] == all[i as int]);
        assert(all.skip(i as int).skip(1) =~= all.skip(i + 1));
        let found = match elements[i].attr(name) {
            Some(text) => same_text(text.as_str(), value),
            None => false,
        };
        if found {
            return Some(i);
        }
        i = i + 1;
    }
    None
}

/// The `content` of the first of `elements` that is marked by the attribute
/// `name` with the value `value`.
pub fn find_meta_content(elements: &Vec<Element>, name: &str, value: &str) -> (r: Option<String>)
    ensures
        option_text(r) == meta_content(element_models(elements@), name@, value@),
{
    match find_with_attribute(elements, name, value) {
        Some(i) => elements[i].attr("content"),
        None => None,
    }
}

/// Markup that is read either as a whole document or as a fragment.
pub struct Html {
    pub source: String,
    pub fragment: bool,
}

/// The model of an [`Html`].
pub struct HtmlModel {
    pub source: Seq<char>,
    pub fragment: bool,
}

impl View for Html {
    type V = HtmlModel;

    open spec fn view(&self) -> HtmlModel {
        HtmlModel { source: self.source@, fragment: self.fragment }
    }
}

/// The elements of `html` that `selector` matches; `None` where `selector`
/// is no valid selector.
pub open spec fn checked_selection(html: HtmlModel, selector: Seq<char>) -> Option<
    Seq<ElementModel>,
> {
    if html.fragment {
        fragment_selection(html.source, selector)
    } else {
        document_selection(html.source, selector)
    }
}

/// The elements of `html` that `selector` matches; none where `selector` is
/// no valid selector.
pub open spec fn selection(html: HtmlModel, selector: Seq<char>) -> Seq<ElementModel> {
    if html.fragment {
        fragment_elements(html.source, selector)
    } else {
        document_elements(html.source, selector)
    }
}

/// The markup of `html` after parsing, written out again.
pub open spec fn serialization(html: HtmlModel) -> Seq<char> {
    if html.fragment {
        fragment_serialization(html.source)
    } else {
        document_serialization(html.source)
    }
}

impl Html {
    /// The elements that the CSS selector `selector` matches, or `None`
    /// where `selector` is no valid selector.
    pub fn select(&self, selector: &str) -> (r: Option<Vec<Element>>)
        ensures
            optional_element_models(r) == checked_selection(self@, selector@),
    {
        if self.fragment {
            select_in_fragment(self.source.as_str(), selector)
        } else {
            select_in_document(self.source.as_str(), selector)
        }
    }

    /// The elements that the CSS selector `selector` matches; none where
    /// `selector` is no valid selector.
    pub fn elements(&self, selector: &str) -> (r: Vec<Element>)
        ensures
            element_models(r@) == selection(self@, selector@),
    {
        match self.select(selector) {
            Some(elements) => elements,
            None => {
                let elements: Vec<Element> = Vec::new();
                assert(element_models(elements@) =~= Seq::<ElementModel>::empty());
                elements
            },
        }
    }

    /// The markup after parsing, written out again.
    pub fn html(&self) -> (r: String)
        ensures
            r@ == serialization(self@),
    {
        if self.fragment {
            serialize_fragment(self.source.as_str())
        } else {
            serialize_document(self.source.as_str())
        }
    }
}

/// Convert a string to an html document.
pub fn string_to_html_document(document_string: &str) -> (r: Html)
    ensures
        r@ == (HtmlModel { source: document_string@, fragment: false }),
{
    Html { source: String::from_str(document_string), fragment: false }
}

/// Convert a string to an html fragment.
pub fn string_to_html_fragment(fragment_string: &str) -> (r: Html)
    ensures
        r@ == (HtmlModel { source: fragment_string@, fragment: true }),
{
    Html { source: String::from_str(fragment_string), fragment: true }
}

/// What the index page tells for `field`, given its metadata elements.
pub open spec fn index_field(metas: Seq<ElementModel>, field: Field) -> Option<Seq<char>> {
    match field {
        Field::Title => meta_content(metas, "name"@, "twitter:title"@),
        Field::Author => meta_content(metas, "property"@, "books:author"@),
        Field::CoverImageUrl => meta_content(metas, "property"@, "og:image"@),
        Field::ChapterList => None,
    }
}

/// What is returned for a field of the book at `url`: the value that was
/// found, or the error that names the field and the book.
pub open spec fn field_or_error(found: Option<Seq<char>>, field: Field, url: Seq<char>) -> Result<
    Seq<char>,
    ErrorModel,
> {
    match found {
        Some(value) => Ok(value),
        None => Err(ErrorModel::MissingFieldError { field, url }),
    }
}

/// The value of `field` among the metadata elements `metas` of the index
/// page of the book at `book_url`.
pub fn field_from_metas(metas: &Vec<Element>, field: Field, book_url: &str) -> (r: Result<
    String,
    GenerationError,
>)
    ensures
        text_or_error(r) == field_or_error(
            index_field(element_models(metas@), field),
            field,
            book_url@,
        ),
{
    let found = match field {
        Field::Title => find_meta_content(metas, "name", "twitter:title"),
        Field::Author => find_meta_content(metas, "property", "books:author"),
        Field::CoverImageUrl => find_meta_content(metas, "property", "og:image"),
        Field::ChapterList => None,
    };
    match found {
        Some(value) => Ok(value),
        None => Err(GenerationError::MissingFieldError { field, url: String::from_str(book_url) }),
    }
}

/// Get the book's title from the index.
pub fn get_title_from_index(index_html: &Html, book_url: &str) -> (r: Result<
    String,
    GenerationError,
>)
    ensures
        text_or_error(r) == field_or_error(
            index_field(selection(index_html@, "meta"@), Field::Title),
            Field::Title,
            book_url@,
        ),
{
    let metas = index_html.elements("meta");
    field_from_metas(&metas, Field::Title, book_url)
}

/// Get the book's author from index
pub fn get_author_from_index(index_html: &Html, book_url: &str) -> (r: Result<
    String,
    GenerationError,
>)
    ensures
        text_or_error(r) == field_or_error(
            index_field(selection(index_html@, "meta"@), Field::Author),
            Field::Author,
            book_url@,
        ),
{
    let metas = index_html.elements("meta");
    field_from_metas(&metas, Field::Author, book_url)
}

/// Get the book's cover image url from the index
pub fn get_cover_image_url_from_index(index_html: &Html, book_url: &str) -> (r: Result<
    String,
    GenerationError,
>)
    ensures
        text_or_error(r) == field_or_error(
            index_field(selection(index_html@, "meta"@), Field::CoverImageUrl),
            Field::CoverImageUrl,
            book_url@,
        ),
{
    let metas = index_html.elements("meta");
    field_from_metas(&metas, Field::CoverImageUrl, book_url)
}

/// The text that marks the script block with the chapter list.
pub open spec fn chapter_marker() -> Seq<char> {
    "window.chapters"@
}

/// The regular expression whose first group is the chapter list: the
/// shortest text in square brackets that is assigned to the marker and
/// ended by a semicolon.
pub open spec fn chapter_list_pattern() -> Seq<char> {
    "window.chapters = (\\[.*?]);"@
}

/// The origin of the site, which stands before every chapter address.
pub open spec fn site_origin() -> Seq<char> {
    "https://www.royalroad.com"@
}

/// The message for a marker block that holds no chapter list.
pub open spec fn no_list_message() -> Seq<char> {
    "the chapter list is not where it is expected"@
}

/// The message for a chapter list that is no JSON array.
pub open spec fn no_array_message() -> Seq<char> {
    "the chapter list is not a JSON array"@
}

/// The message for a chapter without title or address.
pub open spec fn incomplete_chapter_message() -> Seq<char> {
    "a chapter has no title or no url"@
}

/// The content of the first script block that holds the chapter marker.
pub open spec fn marker_block(scripts: Seq<ElementModel>) -> Option<Seq<char>>
    decreases scripts.len(),
{
    if scripts.len() == 0 {
        None
    } else if contains_text(scripts[0].inner_html, chapter_marker()) {
        Some(scripts[0].inner_html)
    } else {
        marker_block(scripts.skip(1))
    }
}

/// Every row has both its strings.
pub open spec fn rows_complete(rows: Seq<(Option<Seq<char>>, Option<Seq<char>>)>) -> bool {
    forall|i: int| 0 <= i < rows.len() ==> (#[trigger] rows[i]).0 is Some && rows[i].1 is Some
}

/// The chapters that complete rows stand for: row by row, in the order of
/// the rows, the title and the address behind the origin of the site.
pub open spec fn chapter_refs(rows: Seq<(Option<Seq<char>>, Option<Seq<char>>)>) -> Seq<
    (Seq<char>, Seq<char>),
> {
    Seq::new(rows.len(), |i: int| (rows[i].0->0, site_origin() + rows[i].1->0))
}

/// The chapters of the book at `url`, given the rows that were read from its
/// chapter list: an error where a row lacks one of its strings.
pub open spec fn chapters_or_error(
    rows: Seq<(Option<Seq<char>>, Option<Seq<char>>)>,
    url: Seq<char>,
) -> Result<Seq<(Seq<char>, Seq<char>)>, ErrorModel> {
    if rows_complete(rows) {
        Ok(chapter_refs(rows))
    } else {
        Err(ErrorModel::ParseError { url, error: incomplete_chapter_message() })
    }
}

/// The chapter names and addresses of the book at `url`, given the script
/// blocks of its index page.
pub open spec fn chapter_list(scripts: Seq<ElementModel>, url: Seq<char>) -> Result<
    Seq<(Seq<char>, Seq<char>)>,
    ErrorModel,
> {
    match marker_block(scripts) {
        None => Err(ErrorModel::MissingFieldError { field: Field::ChapterList, url }),
        Some(block) => match pattern_match(chapter_list_pattern(), block, 1) {
            None => Err(ErrorModel::ParseError { url, error: no_list_message() }),
            Some(parts) => match json_rows(parts.1, "title"@, "url"@) {
                None => Err(ErrorModel::ParseError { url, error: no_array_message() }),
                Some(rows) => chapters_or_error(rows, url),
            },
        },
    }
}

/// Where the index page holds the marker block, the chapter list in it and
/// complete rows in the list, the chapters are those of the rows, one for
/// each row and in the order of the rows: the order of the JSON array.
pub proof fn lemma_chapters_follow_the_array(
    scripts: Seq<ElementModel>,
    url: Seq<char>,
    block: Seq<char>,
    parts: (Seq<char>, Seq<char>, Seq<char>),
    rows: Seq<(Option<Seq<char>>, Option<Seq<char>>)>,
)
    requires
        marker_block(scripts) == Some(block),
        pattern_match(chapter_list_pattern(), block, 1) == Some(parts),
        json_rows(parts.1, "title"@, "url"@) == Some(rows),
        rows_complete(rows),
    ensures
        chapter_list(scripts, url) is Ok,
        chapter_list(scripts, url)->Ok_0.len() == rows.len(),
        forall|i: int|
            0 <= i < rows.len() ==> (#[trigger] chapter_list(scripts, url)->Ok_0[i]) == (
                rows[i].0->0,
                site_origin() + rows[i].1->0,
            ),
{
}

/// The models of pairs of strings.
pub open spec fn pair_models(pairs: Seq<(String, String)>) -> Seq<(Seq<char>, Seq<char>)> {
    Seq::new(pairs.len(), |i: int| (pairs[i].0@, pairs[i].1@))
}

/// The model of a `Result` of pairs or an error.
pub open spec fn pairs_or_error(r: Result<Vec<(String, String)>, GenerationError>) -> Result<
    Seq<(Seq<char>, Seq<char>)>,
    ErrorModel,
> {
    match r {
        Ok(pairs) => Ok(pair_models(pairs@)),
        Err(error) => Err(error@),
    }
}

/// The content of the first of `scripts` that holds the chapter marker.
pub fn find_marker_block(scripts: &Vec<Element>) -> (r: Option<usize>)
    ensures
        match r {
            Some(i) => i < scripts@.len() && marker_block(element_models(scripts@)) == Some(
                scripts@[i as int]@.inner_html,
            ),
            None => marker_block(element_models(scripts@)) is None,
        },
{
    let ghost all = element_models(scripts@);
    let mut i: usize = 0;
    assert(all.skip(0) =~= all);
    while i < scripts.len()
        invariant
            i <= scripts@.len(),
            all == element_models(scripts@),
            marker_block(all) == marker_block(all.skip(i as int)),
        decreases scripts@.len() - i,
    {
        assert(all.skip(i as int)[0] == all[i as int]);
        assert(all.skip(i as int).skip(1) =~= all.skip(i + 1));
        if contains(scripts[i].inner_html.as_str(), "window.chapters") {
            return Some(i);
        }
        i = i + 1;
    }
    None
}

/// The chapters that `rows` stand for, in the order of the rows, for the
/// book at `book_url`.
pub fn chapters_from_rows(rows: &Vec<(Option<String>, Option<String>)>, book_url: &str) -> (r:
    Result<Vec<(String, String)>, GenerationError>)
    ensures
        pairs_or_error(r) == chapters_or_error(row_models(rows@), book_url@),
{
    let ghost all = row_models(rows@);
    let mut chapters: Vec<(String, String)> = Vec::new();
    let mut i: usize = 0;
    while i < rows.len()
        invariant
            i <= rows@.len(),
            all == row_models(rows@),
            chapters@.len() == i,
            forall|k: int| 0 <= k < i ==> (#[trigger] all[k]).0 is Some && all[k].1 is Some,
            forall|k: int|
                0 <= k < i ==> (#[trigger] chapters@[k]).0@ == all[k].0->0 && chapters@[k].1@ == (
                site_origin() + all[k].1->0),
        decreases rows@.len() - i,
    {
        assert(all[i as int] == (option_text(rows@[i as int].0), option_text(rows@[i as int].1)));
        match (&rows[i].0, &rows[i].1) {
            (Some(title), Some(url)) => {
                let address = joined("https://www.royalroad.com", url.as_str());
                chapters.push((title.clone(), address));
            },
            _ => {
                assert(!(all[i as int].0 is Some && all[i as int].1 is Some));
                return Err(
                    GenerationError::ParseError {
                        url: String::from_str(book_url),
                        error: String::from_str("a chapter has no title or no url"),
                    },
                );
            },
        }
        i = i + 1;
    }
    assert(pair_models(chapters@) =~= chapter_refs(all));
    Ok(chapters)
}

/// Gets the chapter names and urls from the index.
///
/// Each chapter is a pair of its name and its address; the chapters come in
/// the order of the JSON array that the index page holds.
pub fn get_chapter_names_and_urls_from_index(index_html: &Html, book_url: &str) -> (r: Result<
    Vec<(String, String)>,
    GenerationError,
>)
    ensures
        pairs_or_error(r) == chapter_list(selection(index_html@, "script"@), book_url@),
{
    let scripts = index_html.elements("script");
    match find_marker_block(&scripts) {
        None => Err(
            GenerationError::MissingFieldError {
                field: Field::ChapterList,
                url: String::from_str(book_url),
            },
        ),
        Some(i) => match match_group(
            "window.chapters = (\\[.*?]);",
            scripts[i].inner_html.as_str(),
            1,
        ) {
            None => Err(
                GenerationError::ParseError {
                    url: String::from_str(book_url),
                    error: String::from_str("the chapter list is not where it is expected"),
                },
            ),
            Some(parts) => match read_json_rows(parts.1.as_str(), "title", "url") {
                None => Err(
                    GenerationError::ParseError {
                        url: String::from_str(book_url),
                        error: String::from_str("the chapter list is not a JSON array"),
                    },
                ),
                Some(rows) => chapters_from_rows(&rows, book_url),
            },
        },
    }
}

/// The class that marks the element around the content of a chapter.
pub open spec fn content_class() -> Seq<char> {
    "chapter-inner chapter-content"@
}

/// The selector that matches every element of a page.
pub open spec fn every_element() -> Seq<char> {
    "*"@
}

/// The inner markup of the first of `elements` that has the content class.
pub open spec fn chapter_content(elements: Seq<ElementModel>) -> Option<Seq<char>> {
    match first_with_attribute(elements, "class"@, content_class()) {
        Some(element) => Some(element.inner_html),
        None => None,
    }
}

/// The content of the chapter at `url`, given the elements of its page: a
/// fragment of the content, or the error that names the chapter.
pub open spec fn content_or_error(elements: Seq<ElementModel>, url: Seq<char>) -> Result<
    HtmlModel,
    ErrorModel,
> {
    match chapter_content(elements) {
        Some(inner) => Ok(HtmlModel { source: inner, fragment: true }),
        None => Err(ErrorModel::ContentIsolationError { url }),
    }
}

/// The model of a `Result` of markup or an error.
pub open spec fn html_or_error(r: Result<Html, GenerationError>) -> Result<HtmlModel, ErrorModel> {
    match r {
        Ok(html) => Ok(html@),
        Err(error) => Err(error@),
    }
}

/// The content among the elements of the page of the chapter at
/// `chapter_url`: the inner markup of the first element with the content
/// class, as a fragment.
pub fn content_from_elements(elements: &Vec<Element>, chapter_url: &str) -> (r: Result<
    Html,
    GenerationError,
>)
    ensures
        html_or_error(r) == content_or_error(element_models(elements@), chapter_url@),
{
    match find_with_attribute(elements, "class", "chapter-inner chapter-content") {
        Some(i) => Ok(string_to_html_fragment(elements[i].inner_html.as_str())),
        None => Err(
            GenerationError::ContentIsolationError { url: String::from_str(chapter_url) },
        ),
    }
}

/// Isolate chapter content from the rest of the page.
///
/// Every element of the page is looked at, whatever its tag. Where several
/// elements carry the content class, the first one counts.
pub fn isolate_chapter_content(raw_chapter_html: &Html, chapter_url: &str) -> (r: Result<
    Html,
    GenerationError,
>)
    ensures
        html_or_error(r) == content_or_error(
            selection(raw_chapter_html@, every_element()),
            chapter_url@,
        ),
{
    let elements = raw_chapter_html.elements("*");
    content_from_elements(&elements, chapter_url)
}

/// The items of a list without repetitions: each item where it stands first.
pub open spec fn distinct(items: Seq<Seq<char>>) -> Seq<Seq<char>>
    decreases items.len(),
{
    if items.len() == 0 {
        items
    } else {
        let before = distinct(items.drop_last());
        if before.contains(items.last()) {
            before
        } else {
            before.push(items.last())
        }
    }
}

/// `text` after every occurrence of each of `patterns` was taken out, one
/// pattern after the other.
pub open spec fn without_each(text: Seq<char>, patterns: Seq<Seq<char>>) -> Seq<char>
    decreases patterns.len(),
{
    if patterns.len() == 0 {
        text
    } else {
        replace_all(without_each(text, patterns.drop_last()), patterns.last(), Seq::empty())
    }
}

/// The markup of each element.
pub open spec fn markups(elements: Seq<ElementModel>) -> Seq<Seq<char>> {
    Seq::new(elements.len(), |i: int| elements[i].html)
}

/// Whether `items` holds `item`.
pub fn holds(items: &Vec<String>, item: &str) -> (r: bool)
    ensures
        r == texts(items@).contains(item@),
{
    let mut i: usize = 0;
    while i < items.len()
        invariant
            i <= items@.len(),
            forall|k: int| 0 <= k < i ==> texts(items@)[k] != item@,
        decreases items@.len() - i,
    {
        if same_text(items[i].as_str(), item) {
            assert(texts(items@)[i as int] == item@);
            return true;
        }
        i = i + 1;
    }
    false
}

/// The markup of each of `elements`, without repetitions.
pub fn distinct_markups(elements: &Vec<Element>) -> (r: Vec<String>)
    ensures
        texts(r@) == distinct(markups(element_models(elements@))),
{
    let ghost all = markups(element_models(elements@));
    let mut found: Vec<String> = Vec::new();
    let mut i: usize = 0;
    assert(texts(found@) =~= distinct(all.take(0)));
    while i < elements.len()
        invariant
            i <= elements@.len(),
            all == markups(element_models(elements@)),
            texts(found@) == distinct(all.take(i as int)),
        decreases elements@.len() - i,
    {
        assert(all.take(i + 1).drop_last() =~= all.take(i as int));
        assert(all.take(i + 1).last() == elements@[i as int].html@);
        if !holds(&found, elements[i].html.as_str()) {
            let ghost before = texts(found@);
            found.push(elements[i].html.clone());
            assert(texts(found@) =~= before.push(elements@[i as int].html@));
        }
        i = i + 1;
    }
    assert(all.take(elements@.len() as int) =~= all);
    found
}

/// `text` after every occurrence of each of `tags` was taken out, one tag
/// after the other.
pub fn strip_tags(text: &str, tags: &Vec<String>) -> (r: String)
    ensures
        r@ == without_each(text@, texts(tags@)),
{
    let ghost all = texts(tags@);
    let mut result = String::from_str(text);
    let mut i: usize = 0;
    assert(all.take(0) =~= Seq::<Seq<char>>::empty());
    while i < tags.len()
        invariant
            i <= tags@.len(),
            all == texts(tags@),
            result@ == without_each(text@, all.take(i as int)),
        decreases tags@.len() - i,
    {
        assert(all.take(i + 1).drop_last() =~= all.take(i as int));
        assert(all.take(i + 1).last() == tags@[i as int]@);
        proof {
            reveal_strlit("");
            assert(""@ =~= Seq::<char>::empty());
        }
        result = replaced(result.as_str(), tags[i].as_str(), "");
        i = i + 1;
    }
    assert(all.take(tags@.len() as int) =~= all);
    result
}

/// The markup of a fragment without its image tags.
pub open spec fn without_image_tags(fragment: HtmlModel) -> Seq<char> {
    without_each(serialization(fragment), distinct(markups(selection(fragment, "img"@))))
}

/// Remove all img tags from the html fragment.
///
/// The markup of every image element is taken out of the markup of the
/// fragment as a text, each distinct tag once.
pub fn remove_image_tags(html_fragment: &Html) -> (r: String)
    ensures
        r@ == without_image_tags(html_fragment@),
{
    let images = html_fragment.elements("img");
    let tags = distinct_markups(&images);
    let markup = html_fragment.html();
    strip_tags(markup.as_str(), &tags)
}

/// The message of the warning about an image tag whose address is no url.
pub open spec fn image_warning_message() -> Seq<char> {
    "Unable to parse url on image tag"@
}

/// The image mapping after a tag was looked at whose source was read as
/// `parsed`: where the source is an address, the tag is recorded under it.
pub open spec fn with_parsed_image(
    images: Images,
    tag: Seq<char>,
    parsed: Result<Seq<char>, Seq<char>>,
) -> Images {
    match parsed {
        Ok(address) => with_tag(images, address, tag),
        Err(_) => images,
    }
}

/// The warnings after a tag was looked at whose source was read as
/// `parsed`: where the source is no address, a warning with the tag and the
/// reason is added.
pub open spec fn with_parse_warning(
    warnings: Seq<WarningModel>,
    tag: Seq<char>,
    parsed: Result<Seq<char>, Seq<char>>,
) -> Seq<WarningModel> {
    match parsed {
        Ok(_) => warnings,
        Err(error) => warnings.push(
            WarningModel::ImageTagParseError {
                warning_msg: image_warning_message(),
                raw_image_tag: tag,
                error,
            },
        ),
    }
}

/// The image mapping after `image` was looked at: an image without source
/// changes nothing.
pub open spec fn with_image(images: Images, image: ElementModel) -> Images {
    match attribute(image, "src"@) {
        Some(source) => with_parsed_image(images, image.html, parsed_url(source)),
        None => images,
    }
}

/// The warnings after `image` was looked at: an image without source adds
/// nothing.
pub open spec fn with_image_warning(warnings: Seq<WarningModel>, image: ElementModel) -> Seq<
    WarningModel,
> {
    match attribute(image, "src"@) {
        Some(source) => with_parse_warning(warnings, image.html, parsed_url(source)),
        None => warnings,
    }
}

/// The image mapping of a list of image elements.
pub open spec fn collected_images(images: Seq<ElementModel>) -> Images
    decreases images.len(),
{
    if images.len() == 0 {
        Seq::empty()
    } else {
        with_image(collected_images(images.drop_last()), images.last())
    }
}

/// The warnings that a list of image elements adds to `warnings`.
pub open spec fn collected_warnings(warnings: Seq<WarningModel>, images: Seq<ElementModel>) -> Seq<
    WarningModel,
>
    decreases images.len(),
{
    if images.len() == 0 {
        warnings
    } else {
        with_image_warning(collected_warnings(warnings, images.drop_last()), images.last())
    }
}

/// The mapping of a list of image elements is well formed, and every image
/// whose source is an address has its markup recorded under that address:
/// tags that differ in their text stand side by side under one address.
pub proof fn lemma_collected_images(images: Seq<ElementModel>)
    ensures
        well_formed(collected_images(images)),
        forall|i: int, source: Seq<char>, address: Seq<char>|
            #![trigger images[i], parsed_url(source), has_address(collected_images(images), address)]
            0 <= i < images.len() && attribute(images[i], "src"@) == Some(source) && parsed_url(
                source,
            ) == Ok::<Seq<char>, Seq<char>>(address) ==> has_address(
                collected_images(images),
                address,
            ) && tags_under(collected_images(images), address).contains(images[i].html),
    decreases images.len(),
{
    if images.len() > 0 {
        let front = images.drop_last();
        let last = images.last();
        let before = collected_images(front);
        lemma_collected_images(front);
        let after = collected_images(images);
        match attribute(last, "src"@) {
            Some(source) => match parsed_url(source) {
                Ok(address) => {
                    lemma_with_tag(before, address, last.html);
                },
                Err(_) => {},
            },
            None => {},
        }
        assert forall|i: int, source: Seq<char>, address: Seq<char>|
            #![trigger images[i], parsed_url(source), has_address(after, address)]
            0 <= i < images.len() && attribute(images[i], "src"@) == Some(source) && parsed_url(
                source,
            ) == Ok::<Seq<char>, Seq<char>>(address) implies has_address(after, address)
            && tags_under(after, address).contains(images[i].html) by {
            if i < images.len() - 1 {
                assert(front[i] == images[i]);
                assert(has_address(before, address));
                assert(tags_under(before, address).contains(images[i].html));
            }
        }
    }
}

/// Records the image tag `tag`, whose source was read as `parsed`: under
/// its address where the source is one, else as a warning.
pub fn record_image(
    images: ImageMap,
    tag: &str,
    parsed: Result<String, String>,
    warnings: &mut GenerationWarnings,
) -> (r: ImageMap)
    ensures
        r@ == with_parsed_image(images@, tag@, text_or_text(parsed)),
        final(warnings)@ == with_parse_warning(old(warnings)@, tag@, text_or_text(parsed)),
{
    match parsed {
        Ok(address) => images.insert(address.as_str(), tag),
        Err(error) => {
            warnings.add_warning(
                Warning::ImageTagParseError {
                    warning_msg: String::from_str("Unable to parse url on image tag"),
                    raw_image_tag: String::from_str(tag),
                    error,
                },
            );
            images
        },
    }
}

/// Records the image tags of `images` under their addresses and adds a
/// warning for each tag whose source is no address; such a tag is left out
/// and the others are still read.
pub fn collect_images(images: &Vec<Element>, warnings: &mut GenerationWarnings) -> (r: ImageMap)
    ensures
        r@ == collected_images(element_models(images@)),
        final(warnings)@ == collected_warnings(old(warnings)@, element_models(images@)),
{
    let ghost all = element_models(images@);
    let mut result = ImageMap::new();
    let mut i: usize = 0;
    assert(all.take(0) =~= Seq::<ElementModel>::empty());
    while i < images.len()
        invariant
            i <= images@.len(),
            all == element_models(images@),
            result@ == collected_images(all.take(i as int)),
            warnings@ == collected_warnings(old(warnings)@, all.take(i as int)),
        decreases images@.len() - i,
    {
        assert(all.take(i + 1).drop_last() =~= all.take(i as int));
        assert(all.take(i + 1).last() == images@[i as int]@);
        match images[i].attr("src") {
            Some(source) => {
                let parsed = parse_url(source.as_str());
                result = record_image(result, images[i].html.as_str(), parsed, warnings);
            },
            None => {},
        }
        i = i + 1;
    }
    assert(all.take(images@.len() as int) =~= all);
    result
}

/// Extract the urls and image tags from a chapter and put them in an image
/// mapping.
pub fn extract_urls_and_img_tag(chapter_html: &Html, warnings: &mut GenerationWarnings) -> (r:
    ImageMap)
    ensures
        r@ == collected_images(selection(chapter_html@, "img"@)),
        final(warnings)@ == collected_warnings(old(warnings)@, selection(chapter_html@, "img"@)),
{
    let images = chapter_html.elements("img");
    collect_images(&images, warnings)
}

/// The regular expression that finds the value of the source attribute of
/// a tag. It begins at the start of the tag, steps over the attributes that
/// stand before the first attribute named `src`, each with its value and
/// the quotes around it, and has the value of that attribute, without its
/// quotes, as its first group where the quotes are double and as its second
/// group where they are single.
pub open spec fn source_pattern() -> Seq<char> {
    "^<[^\\s>/]+(?:\\s+[^\\s=>/\"']+(?:\\s*=\\s*(?:\"[^\"]*\"|'[^']*'|[^\\s\"'>]+))?)*?\\s+src\\s*=\\s*(?:\"([^\"]*)\"|'([^']*)')"@
}

/// Where the value of the source attribute stands in `tag`: the text before
/// the value, the value, and the text behind it, quotes outside the value.
/// `None` for a tag without quoted source attribute.
pub open spec fn source_value(tag: Seq<char>) -> Option<(Seq<char>, Seq<char>, Seq<char>)> {
    match pattern_match(source_pattern(), tag, 1) {
        Some(parts) => Some(parts),
        None => pattern_match(source_pattern(), tag, 2),
    }
}

/// `tag` with a new source, given where the value of its source was found:
/// the value gives way to the new source and nothing else changes, the
/// quotes around the value neither; a tag without source attribute stays as
/// it is.
pub open spec fn with_source(
    tag: Seq<char>,
    found: Option<(Seq<char>, Seq<char>, Seq<char>)>,
    new_src: Seq<char>,
) -> Seq<char> {
    match found {
        Some(parts) => parts.0 + new_src + parts.2,
        None => tag,
    }
}

/// The model of three optional strings.
pub open spec fn optional_parts(parts: Option<(String, String, String)>) -> Option<
    (Seq<char>, Seq<char>, Seq<char>),
> {
    match parts {
        Some(parts) => Some((parts.0@, parts.1@, parts.2@)),
        None => None,
    }
}

/// `img_tag` with the source `new_src`, given where its source value was
/// found.
pub fn replace_source_value(
    img_tag: String,
    found: Option<(String, String, String)>,
    new_src: &str,
) -> (r: String)
    ensures
        r@ == with_source(img_tag@, optional_parts(found), new_src@),
{
    match found {
        Some(parts) => {
            let mut result = parts.0;
            result.append(new_src);
            result.append(parts.2.as_str());
            result
        },
        None => img_tag,
    }
}

/// Where the value of the source attribute stands in `tag`.
pub fn find_source_value(tag: &str) -> (r: Option<(String, String, String)>)
    ensures
        optional_parts(r) == source_value(tag@),
        r matches Some(parts) ==> parts.0@ + parts.1@ + parts.2@ == tag@,
{
    match match_group(
        "^<[^\\s>/]+(?:\\s+[^\\s=>/\"']+(?:\\s*=\\s*(?:\"[^\"]*\"|'[^']*'|[^\\s\"'>]+))?)*?\\s+src\\s*=\\s*(?:\"([^\"]*)\"|'([^']*)')",
        tag,
        1,
    ) {
        Some(parts) => Some(parts),
        None => match_group(
            "^<[^\\s>/]+(?:\\s+[^\\s=>/\"']+(?:\\s*=\\s*(?:\"[^\"]*\"|'[^']*'|[^\\s\"'>]+))?)*?\\s+src\\s*=\\s*(?:\"([^\"]*)\"|'([^']*)')",
            tag,
            2,
        ),
    }
}

/// Replace the image tag with new one that contains the new src attribute.
///
/// Only the value of the first source attribute changes, as a substitution
/// in the text of the tag: what stands before the value and what stands
/// behind it, the quotes around it included, is kept as it is. A tag
/// without source attribute is returned unchanged.
pub fn replace_img_src(img_tag: String, new_src: String) -> (r: String)
    ensures
        r@ == with_source(img_tag@, source_value(img_tag@), new_src@),
        source_value(img_tag@) is None ==> r@ == img_tag@,
        source_value(img_tag@) matches Some(parts) ==> img_tag@ == parts.0 + parts.1 + parts.2
            && r@ == parts.0 + new_src@ + parts.2,
{
    let found = find_source_value(img_tag.as_str());
    replace_source_value(img_tag, found, new_src.as_str())
}

/// `markup` with every no-break space entity replaced by a space: some
/// readers of e-books fail on the entity.
pub fn without_nbsp(markup: &str) -> (r: String)
    ensures
        r@ == replace_all(markup@, "&nbsp;"@, " "@),
{
    replaced(markup, "&nbsp;", " ")
}

/// What came of running the program that normalizes markup.
pub enum NormalizerOutcome {
    /// The program could not be started, or did not take its input, or was
    /// not waited for to its end.
    NotRun { error: String },
    /// The program ended, with success or not, and this on its output.
    Ended { success: bool, output: Vec<u8> },
}

/// The message for a normalizer that ended without success.
pub open spec fn normalizer_failure_message() -> Seq<char> {
    "html2xhtml ended without success"@
}

/// Takes the outcome of normalizing the markup of a chapter: the output of
/// a run that ended with success is the normalized markup, read as text;
/// every other outcome is an error, which ends the run.
pub fn html_to_xhtml(outcome: NormalizerOutcome) -> (r: Result<String, GenerationError>)
    ensures
        match outcome {
            NormalizerOutcome::NotRun { error } => r matches Err(e) && e@ == (
            ErrorModel::Html2XhtmlStartError { error: error@ }),
            NormalizerOutcome::Ended { success, output } => if success {
                r matches Ok(xhtml) && is_lossy_text(output@, xhtml@)
            } else {
                r matches Err(e) && e@ == (ErrorModel::Html2XhtmlStartError {
                    error: normalizer_failure_message(),
                })
            },
        },
{
    match outcome {
        NormalizerOutcome::NotRun { error } => Err(GenerationError::Html2XhtmlStartError { error }),
        NormalizerOutcome::Ended { success, output } => {
            if success {
                Ok(decode_lossy(&output))
            } else {
                Err(
                    GenerationError::Html2XhtmlStartError {
                        error: String::from_str("html2xhtml ended without success"),
                    },
                )
            }
        },
    }
}

} // verus!
