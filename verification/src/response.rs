//! Responses and their form on the wire.

use crate::http::{Header, IntoHeader, MimeType, StatusCode, Version};
use crate::text::{decimal, decimal_text, lossy_text, text_from_bytes};
use vstd::prelude::*;
use vstd::slice::slice_to_vec;
use vstd::std_specs::convert::FromSpecImpl;
use vstd::string::StringExecFns;
use vstd::utf8::encode_utf8;

verus! {

pub type ResponseBody = Vec<u8>;

/// A response. Its `Content-Length` and `Content-Type` are not stored: they
/// are made from the body and the media type when the response is sent.
#[derive(Debug, PartialEq)]
pub struct Response {
    version: Version,
    status: StatusCode,
    body: ResponseBody,
    mime: MimeType,
    headers: Vec<Header>,
}

/// What a response holds.
pub struct ResponseView {
    pub version: Version,
    pub status: StatusCode,
    pub body: Seq<u8>,
    pub mime: MimeType,
    pub headers: Seq<(Seq<char>, Seq<char>)>,
}

/// The names and values of a list of headers.
pub open spec fn header_views(headers: Seq<Header>) -> Seq<(Seq<char>, Seq<char>)> {
    Seq::new(headers.len(), |i: int| headers[i]@)
}

impl View for Response {
    type V = ResponseView;

    closed spec fn view(&self) -> ResponseView {
        ResponseView {
            version: self.version,
            status: self.status,
            body: self.body@,
            mime: self.mime,
            headers: header_views(self.headers@),
        }
    }
}

/// The lines that stand for a list of headers, each ended by a line break.
pub open spec fn header_lines(headers: Seq<(Seq<char>, Seq<char>)>) -> Seq<char>
    decreases headers.len(),
{
    if headers.len() == 0 {
        Seq::empty()
    } else {
        header_lines(headers.drop_last()) + headers.last().0 + ": "@ + headers.last().1 + "\r\n"@
    }
}

/// The head of a response: the status line, the length and type of the
/// body, the other headers in their order, and a blank line.
pub open spec fn head_text(response: ResponseView) -> Seq<char> {
    response.version.name() + " "@ + response.status.line() + "\r\n"@ + "Content-Length: "@
        + decimal(response.body.len()) + "\r\n"@ + "Content-Type: "@
        + response.mime.content_type() + "\r\n"@ + header_lines(response.headers) + "\r\n"@
}

/// The bytes that are sent for a response: the head, then the body.
pub open spec fn wire(response: ResponseView) -> Seq<u8> {
    encode_utf8(head_text(response)) + response.body
}

/// A response with this status, body and media type, version 1.1, and no
/// headers of its own.
pub open spec fn plain(status: StatusCode, body: Seq<u8>, mime: MimeType) -> ResponseView {
    ResponseView { version: Version::V1_1, status, body, mime, headers: Seq::empty() }
}

impl Response {
    /// A response with this status, body and media type.
    pub fn new(status: StatusCode, body: ResponseBody, mime: MimeType) -> (response: Response)
        ensures
            response@ == plain(status, body@, mime),
    {
        let response = Response { status, mime, body, version: Version::V1_1, headers: Vec::new() };
        assert(response@.headers =~= Seq::empty());
        response
    }

    /// An error response: this status and a body of plain text.
    pub fn error(status: StatusCode, body: ResponseBody) -> (response: Response)
        ensures
            response@ == plain(status, body@, MimeType::PlainText),
    {
        Response::new(status, body, MimeType::PlainText)
    }

    /// The response to an error inside the server: status 500 and a fixed
    /// page, which tells nothing of the error.
    pub fn internal_error() -> (response: Response)
        ensures
            response@ == plain(
                StatusCode::InternalServerError,
                encode_utf8("<h1>Error 500 Internal Server Error</h1>\r\n"@),
                MimeType::HTML,
            ),
    {
        Response::new(
            StatusCode::InternalServerError,
            slice_to_vec("<h1>Error 500 Internal Server Error</h1>\r\n".as_bytes()),
            MimeType::HTML,
        )
    }

    /// Sets the media type.
    pub fn set_mime(&mut self, mime: MimeType)
        ensures
            final(self)@ == (ResponseView { mime, ..old(self)@ }),
    {
        self.mime = mime;
    }

    /// The head of the response, as text.
    pub fn head(&self) -> (head: String)
        ensures
            head@ == head_text(self@),
    {
        let mut head = String::from_str(self.version.as_str());
        head.append(" ");
        head.append(self.status.as_str());
        head.append("\r\n");
        head.append("Content-Length: ");
        head.append(decimal_text(self.body.len()).as_str());
        head.append("\r\n");
        head.append("Content-Type: ");
        head.append(self.mime.to_content_type().as_str());
        head.append("\r\n");
        let ghost start = head@;
        let ghost all = header_views(self.headers@);
        let mut i: usize = 0;
        while i < self.headers.len()
            invariant
                i <= self.headers@.len(),
                all == header_views(self.headers@),
                head@ == start + header_lines(all.take(i as int)),
            decreases self.headers@.len() - i,
        {
            proof {
                assert(all.take(i + 1).drop_last() =~= all.take(i as int));
                assert(all.take(i + 1).last() == self.headers@[i as int]@);
            }
            let ghost before = head@;
            head.append(self.headers[i].key.as_str());
            head.append(": ");
            head.append(self.headers[i].value.as_str());
            head.append("\r\n");
            proof {
                assert(head@ =~= start + header_lines(all.take(i + 1)));
            }
            i += 1;
        }
        proof {
            assert(all.take(self.headers@.len() as int) =~= all);
        }
        head.append("\r\n");
        proof {
            assert(head@ =~= head_text(self@));
        }
        head
    }

    /// The bytes to send for the response.
    pub fn to_send_buffer(&self) -> (buffer: Vec<u8>)
        ensures
            buffer@ == wire(self@),
    {
        let head = self.head();
        let mut buffer: Vec<u8> = slice_to_vec(head.as_str().as_bytes());
        buffer.extend_from_slice(self.body.as_slice());
        buffer
    }

    /// The response as text: the head, then the body read as text.
    pub fn to_text(&self) -> (text: String)
        ensures
            text@ == head_text(self@) + lossy_text(self@.body),
    {
        let mut text = self.head();
        text.append(text_from_bytes(self.body.as_slice()).as_str());
        text
    }

    /// Adds a header after those that the response has.
    pub fn add_header<H: IntoHeader>(&mut self, value: H)
        ensures
            final(self)@ == (ResponseView {
                headers: old(self)@.headers.push(value.header()),
                ..old(self)@
            }),
    {
        let header = value.into_header();
        self.headers.push(header);
        proof {
            assert(header_views(self.headers@) =~= header_views(old(self).headers@).push(
                value.header(),
            ));
        }
    }

    /// The version.
    pub fn version(&self) -> (version: Version)
        ensures
            version == self@.version,
    {
        self.version
    }

    /// The status.
    pub fn status(&self) -> (status: StatusCode)
        ensures
            status == self@.status,
    {
        self.status
    }

    /// The media type.
    pub fn mime(&self) -> (mime: MimeType)
        ensures
            mime == self@.mime,
    {
        self.mime
    }

    /// The body.
    pub fn body(&self) -> (body: &[u8])
        ensures
            body@ == self@.body,
    {
        self.body.as_slice()
    }

    /// The headers that were added, in their order.
    pub fn headers(&self) -> (headers: &[Header])
        ensures
            header_views(headers@) == self@.headers,
    {
        self.headers.as_slice()
    }
}

impl From<Vec<u8>> for Response {
    /// A response that all went well, with these bytes as its body.
    fn from(bytes: Vec<u8>) -> (response: Response)
        ensures
            response@ == plain(StatusCode::OK, bytes@, MimeType::Binary),
    {
        Response::new(StatusCode::OK, bytes, MimeType::Binary)
    }
}

impl FromSpecImpl<Vec<u8>> for Response {
    open spec fn obeys_from_spec() -> bool {
        false
    }

    open spec fn from_spec(bytes: Vec<u8>) -> Response {
        arbitrary()
    }
}

impl From<String> for Response {
    /// A response that all went well, with this text as a page.
    fn from(string: String) -> (response: Response)
        ensures
            response@ == plain(StatusCode::OK, encode_utf8(string@), MimeType::HTML),
    {
        Response::new(StatusCode::OK, slice_to_vec(string.as_str().as_bytes()), MimeType::HTML)
    }
}

impl FromSpecImpl<String> for Response {
    open spec fn obeys_from_spec() -> bool {
        false
    }

    open spec fn from_spec(string: String) -> Response {
        arbitrary()
    }
}

impl<'a> From<&'a str> for Response {
    /// A response that all went well, with this text as a page.
    fn from(string: &'a str) -> (response: Response)
        ensures
            response@ == plain(StatusCode::OK, encode_utf8(string@), MimeType::HTML),
    {
        Response::new(StatusCode::OK, slice_to_vec(string.as_bytes()), MimeType::HTML)
    }
}

impl<'a> FromSpecImpl<&'a str> for Response {
    open spec fn obeys_from_spec() -> bool {
        false
    }

    open spec fn from_spec(string: &'a str) -> Response {
        arbitrary()
    }
}

/// What can be turned into a response.
pub trait IntoResponse {
    /// Turns the value into a response.
    fn into_response(self) -> Response;
}

impl<T> IntoResponse for T where Response: From<T> {
    /// The response that `Response::from` makes of the value.
    fn into_response(self) -> (response: Response)
        ensures
            call_ensures(Response::from, (self,), response),
    {
        Response::from(self)
    }
}

/// The response that a handler's result turns into, whichever way it went.
pub fn respond<T: IntoResponse, E: IntoResponse>(result: Result<T, E>) -> (response: Response)
    ensures
        match result {
            Ok(value) => call_ensures(T::into_response, (value,), response),
            Err(error) => call_ensures(E::into_response, (error,), response),
        },
{
    match result {
        Ok(value) => value.into_response(),
        Err(error) => error.into_response(),
    }
}

} // verus!
