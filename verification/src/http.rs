//! Responses to fetches: what came back from an address, and what it holds.
//!
//! The library does not fetch. Whoever does hands over what happened as a
//! [`FetchOutcome`]; the library decides whether that is a response to work
//! with, and reads the response's declared type.

use vstd::prelude::*;
use vstd::string::StringExecFns;
use vstd::utf8::decode_utf8;
use vstd::utf8::valid_utf8;
use url::Url;
use crate::text::option_text;
use crate::text::same_text;
use crate::text::text_or_text;
use crate::text_or_error;
use crate::ErrorModel;
use crate::GenerationError;
use crate::GenerationWarnings;
use crate::Warning;
use crate::WarningModel;

verus! {

/// What `url::Url::parse` makes of a text: the address in its normal written
/// form, or the reason why the text is no address.
pub uninterp spec fn parsed_url(text: Seq<char>) -> Result<Seq<char>, Seq<char>>;

/// The text that `String::from_utf8_lossy` reads from bytes: the characters
/// that the bytes encode in UTF-8, with a replacement character for each
/// part that encodes none.
pub uninterp spec fn lossy_text(bytes: Seq<u8>) -> Seq<char>;

/// `text` is what `String::from_utf8_lossy` reads from `bytes`; where the
/// bytes are valid UTF-8, that is the text that they encode.
pub open spec fn is_lossy_text(bytes: Seq<u8>, text: Seq<char>) -> bool {
    &&& text == lossy_text(bytes)
    &&& valid_utf8(bytes) ==> text == decode_utf8(bytes)
}

/// Reads `text` as an absolute address with `url::Url::parse`.
///
/// The result is what the outside function returns for this text: on
/// success the address as `Url::as_str` writes it, on failure the message of
/// the parse error.
#[verifier::external_body]
pub(crate) fn parse_url(text: &str) -> (r: Result<String, String>)
    ensures
        text_or_text(r) == parsed_url(text@),
{
    match Url::parse(text) {
        Ok(url) => Ok(url.as_str().to_owned()),
        Err(error) => Err(error.to_string()),
    }
}

/// Reads bytes as text with `String::from_utf8_lossy`. Valid UTF-8 is
/// decoded as it stands; std documents that only invalid sequences are
/// replaced.
#[verifier::external_body]
pub(crate) fn decode_lossy(bytes: &Vec<u8>) -> (r: String)
    ensures
        r@ == lossy_text(bytes@),
        valid_utf8(bytes@) ==> r@ == decode_utf8(bytes@),
{
    String::from_utf8_lossy(bytes).into_owned()
}

/// What a fetch came to.
pub enum FetchOutcome {
    /// No response came: the transport failed, the name did not resolve, or
    /// time ran out.
    Failed { error: String },
    /// A response came, with this status, this value of its `content-type`
    /// header where it has a readable one, and this body.
    Answered { status: u16, content_type: Option<String>, body: Vec<u8> },
}

/// A struct representing an HttpResponse and the Url it originated from.
pub struct HttpResponse {
    pub url: String,
    pub content_type: Option<String>,
    pub body: Vec<u8>,
}

/// The model of an [`HttpResponse`].
pub struct ResponseModel {
    pub url: Seq<char>,
    pub content_type: Option<Seq<char>>,
    pub body: Seq<u8>,
}

impl View for HttpResponse {
    type V = ResponseModel;

    open spec fn view(&self) -> ResponseModel {
        ResponseModel {
            url: self.url@,
            content_type: option_text(self.content_type),
            body: self.body@,
        }
    }
}

/// A status that stands for success: 200 to 299.
pub open spec fn is_success(status: u16) -> bool {
    200 <= status <= 299
}

/// The file extension for a content type: a fixed table of four image
/// types; the empty text for every other type.
pub open spec fn file_extension_of(content_type: Seq<char>) -> Seq<char> {
    if content_type == "image/png"@ {
        "png"@
    } else if content_type == "image/webp"@ {
        "webp"@
    } else if content_type == "image/jpeg"@ {
        "jpeg"@
    } else if content_type == "image/jpg"@ {
        "jpg"@
    } else {
        ""@
    }
}

/// The message of the warning about a response without content type.
pub open spec fn missing_content_type_message() -> Seq<char> {
    "Unable to find or parse the content-type header"@
}

/// The file extension for `content_type`.
pub fn file_extension(content_type: &str) -> (r: String)
    ensures
        r@ == file_extension_of(content_type@),
{
    if same_text(content_type, "image/png") {
        String::from_str("png")
    } else if same_text(content_type, "image/webp") {
        String::from_str("webp")
    } else if same_text(content_type, "image/jpeg") {
        String::from_str("jpeg")
    } else if same_text(content_type, "image/jpg") {
        String::from_str("jpg")
    } else {
        String::from_str("")
    }
}

impl HttpResponse {
    /// Convert the response to text. Bytes that are no UTF-8 are replaced,
    /// so this does not fail. The response is used up.
    pub fn get_text(self) -> (r: String)
        ensures
            is_lossy_text(self@.body, r@),
    {
        decode_lossy(&self.body)
    }

    /// Convert the response to bytes. Used for images. The response is used up.
    pub fn get_bytes(self) -> (r: Vec<u8>)
        ensures
            r@ == self@.body,
    {
        self.body
    }

    /// Get the content(mime)-type and file extension from the http-header.
    ///
    /// If the response has no readable content-type header, a warning is
    /// added and both texts are empty. A content type outside the table
    /// gives an empty extension and no warning.
    pub fn get_content_type_and_file_extension(&self, warnings: &mut GenerationWarnings) -> (r: (
        String,
        String,
    ))
        ensures
            match self@.content_type {
                Some(content_type) => {
                    &&& r.0@ == content_type
                    &&& r.1@ == file_extension_of(content_type)
                    &&& final(warnings)@ == old(warnings)@
                },
                None => {
                    &&& r.0@ == ""@
                    &&& r.1@ == ""@
                    &&& final(warnings)@ == old(warnings)@.push(
                        WarningModel::MissingContentType {
                            warning_msg: missing_content_type_message(),
                            url: self@.url,
                        },
                    )
                },
            },
    {
        match &self.content_type {
            Some(content_type) => {
                let extension = file_extension(content_type.as_str());
                (content_type.clone(), extension)
            },
            None => {
                warnings.add_warning(
                    Warning::MissingContentType {
                        warning_msg: String::from_str(
                            "Unable to find or parse the content-type header",
                        ),
                        url: self.url.clone(),
                    },
                );
                (String::from_str(""), String::from_str(""))
            },
        }
    }
}

/// Takes the outcome of fetching `url`: a response with a status of success
/// is handed on; every other outcome is an error, which ends the run.
pub fn get_response(url: String, outcome: FetchOutcome) -> (r: Result<HttpResponse, GenerationError>)
    ensures
        match outcome {
            FetchOutcome::Failed { error } => r matches Err(e) && e@ == (ErrorModel::NetworkError {
                url: url@,
                error: error@,
            }),
            FetchOutcome::Answered { status, content_type, body } => if is_success(status) {
                r matches Ok(response) && response@ == (ResponseModel {
                    url: url@,
                    content_type: option_text(content_type),
                    body: body@,
                })
            } else {
                r matches Err(e) && e@ == (ErrorModel::HttpStatusError { url: url@, status })
            },
        },
{
    match outcome {
        FetchOutcome::Failed { error } => Err(GenerationError::NetworkError { url, error }),
        FetchOutcome::Answered { status, content_type, body } => {
            if 200 <= status && status <= 299 {
                Ok(HttpResponse { url, content_type, body })
            } else {
                Err(GenerationError::HttpStatusError { url, status })
            }
        },
    }
}

/// What `string_to_url` returns for a text, given what the parser made of it.
pub open spec fn url_or_error(text: Seq<char>, parsed: Result<Seq<char>, Seq<char>>) -> Result<
    Seq<char>,
    ErrorModel,
> {
    match parsed {
        Ok(address) => Ok(address),
        Err(error) => Err(ErrorModel::UrlParseError { string_url: text, error }),
    }
}

/// A function to convert a string to a url, in its normal written form.
pub fn string_to_url(url: &str) -> (r: Result<String, GenerationError>)
    ensures
        text_or_error(r) == url_or_error(url@, parsed_url(url@)),
{
    match parse_url(url) {
        Ok(address) => Ok(address),
        Err(error) => Err(
            GenerationError::UrlParseError { string_url: String::from_str(url), error },
        ),
    }
}

} // verus!
