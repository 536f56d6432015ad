//! Whole responses: a status line, a line terminator, and a body.

use crate::document::{gemini_links, parsed_text, resource_views, GeminiText, StatementView};
use crate::error::FetchError;
use crate::header::{parsed_header, GeminiHeader, HeaderView};
use crate::resource::{Resource, ResourceView};
use crate::text::{find_crlf, slice, split_at_crlf, to_chars, to_string};
use vstd::prelude::*;

verus! {

/// A response, as read from the wire.
#[derive(Debug, PartialEq, Eq)]
pub struct GeminiResponse {
    /// The resource that was asked for.
    pub url: Resource,
    /// What the status line says.
    pub header: GeminiHeader,
    /// The body, read as a document of the native text format.
    pub body: GeminiText,
}

/// The mathematical content of a [`GeminiResponse`].
pub ghost struct ResponseView {
    pub url: ResourceView,
    pub header: HeaderView,
    pub body: Seq<StatementView>,
}

impl View for GeminiResponse {
    type V = ResponseView;

    open spec fn view(&self) -> ResponseView {
        ResponseView { url: self.url@, header: self.header@, body: self.body@ }
    }
}

/// The response that the text `response`, received for `url`, stands for.
/// The status line ends at the first carriage return with line feed; all
/// that follows is the body.
pub open spec fn parsed_response(response: Seq<char>, url: ResourceView) -> Result<
    ResponseView,
    FetchError,
> {
    match split_at_crlf(response) {
        None => Err(FetchError::MalformedStatusLine),
        Some((head, body)) => match parsed_header(head) {
            Err(e) => Err(e),
            Ok(header) => Ok(ResponseView { url, header, body: parsed_text(body, url.text) }),
        },
    }
}

/// The content of the outcome of reading a response.
pub open spec fn response_outcome(r: Result<GeminiResponse, FetchError>) -> Result<
    ResponseView,
    FetchError,
> {
    match r {
        Ok(response) => Ok(response@),
        Err(e) => Err(e),
    }
}

impl Clone for GeminiResponse {
    fn clone(&self) -> (r: Self)
        ensures
            r@ == self@,
    {
        GeminiResponse {
            url: self.url.clone(),
            header: self.header.clone(),
            body: self.body.clone(),
        }
    }
}

impl GeminiResponse {
    /// Reads the response `response` that was received for `url`.
    pub fn new(response: &str, url: &Resource) -> (r: Result<GeminiResponse, FetchError>)
        ensures
            response_outcome(r) == parsed_response(response@, url@),
    {
        let chars = to_chars(response);
        let p = find_crlf(&chars);
        if p >= chars.len() {
            return Err(FetchError::MalformedStatusLine);
        }
        let head = to_string(&slice(&chars, 0, p));
        let rest = to_string(&slice(&chars, p + 2, chars.len()));
        match GeminiHeader::from_str(head.as_str()) {
            Err(e) => Err(e),
            Ok(header) => Ok(
                GeminiResponse {
                    url: url.clone(),
                    header,
                    body: GeminiText::new(rest.as_str(), url),
                },
            ),
        }
    }

    /// The targets of the body's links that use the crawler's own protocol,
    /// in the order of the document.
    pub fn gemini_urls(&self) -> (urls: Vec<Resource>)
        ensures
            resource_views(urls@) == gemini_links(self@.body),
    {
        self.body.gemini_urls()
    }
}

/// The resources that the document `body`, fetched from `base_url`, links to
/// by the crawler's own protocol, in the order of the document.
pub fn parse_body_urls(base_url: &Resource, body: &str) -> (urls: Vec<Resource>)
    ensures
        resource_views(urls@) == gemini_links(parsed_text(body@, base_url@.text)),
{
    GeminiText::new(body, base_url).gemini_urls()
}

} // verus!
