//! The vocabulary of HTTP: methods, versions, status codes, media types and
//! headers.

use crate::search::{after, before, find_bytes, pieces, split_chars, views};
use crate::text::{
    ascii_lowercase, chars_of, lossy_text, lowercase, lowercase_of, same_bytes, text_from_bytes, text_of,
};
use vstd::prelude::*;
use vstd::std_specs::convert::TryFromSpecImpl;
use vstd::string::StringExecFns;
use vstd::utf8::{encode_utf8, is_ascii_chars};

verus! {

/// A request method.
#[derive(PartialEq, Eq, Debug, Clone, Copy, Hash, Structural)]
pub enum Method {
    GET,
    POST,
}

/// A protocol version.
#[derive(PartialEq, Eq, Debug, Clone, Copy, Hash, Structural)]
pub enum Version {
    V0_9,
    V1_0,
    V1_1,
    V2_0,
}

/// A response status.
#[derive(PartialEq, Eq, Debug, Clone, Copy, Hash, Structural)]
pub enum StatusCode {
    OK,
    MovedPermanetly,
    Found,
    BadRequest,
    ErrForbidden,
    ErrNotFound,
    InternalServerError,
}

impl Method {
    /// The method that a token of the request line names.
    pub open spec fn of_token(token: Seq<u8>) -> Option<Method> {
        if token == encode_utf8("GET"@) {
            Some(Method::GET)
        } else if token == encode_utf8("POST"@) {
            Some(Method::POST)
        } else {
            None
        }
    }

    /// The method that a word names.
    pub open spec fn of_word(word: Seq<char>) -> Option<Method> {
        if word == "GET"@ {
            Some(Method::GET)
        } else if word == "POST"@ {
            Some(Method::POST)
        } else {
            None
        }
    }

    /// The name of the method.
    pub open spec fn name(self) -> Seq<char> {
        match self {
            Method::GET => "GET"@,
            Method::POST => "POST"@,
        }
    }

    /// Reads a method from a token of the request line.
    pub fn from_token(token: &[u8]) -> (method: Option<Method>)
        ensures
            method == Method::of_token(token@),
    {
        if same_bytes(token, "GET".as_bytes()) {
            Some(Method::GET)
        } else if same_bytes(token, "POST".as_bytes()) {
            Some(Method::POST)
        } else {
            None
        }
    }

    /// Reads a method from a word.
    pub fn from_word(word: &str) -> (method: Option<Method>)
        ensures
            method == Method::of_word(word@),
    {
        if word.eq("GET") {
            Some(Method::GET)
        } else if word.eq("POST") {
            Some(Method::POST)
        } else {
            None
        }
    }

    /// The name of the method, as it stands in a request line.
    pub fn as_str(&self) -> (name: &'static str)
        ensures
            name@ == self.name(),
    {
        match self {
            Method::GET => "GET",
            Method::POST => "POST",
        }
    }
}

impl<'a> TryFrom<&'a [u8]> for Method {
    type Error = String;

    fn try_from(value: &'a [u8]) -> (result: Result<Self, String>)
        ensures
            match result {
                Ok(method) => Method::of_token(value@) == Some(method),
                Err(message) => Method::of_token(value@) is None && message@ == "Invalid Method"@,
            },
    {
        match Method::from_token(value) {
            Some(method) => Ok(method),
            None => Err(String::from_str("Invalid Method")),
        }
    }
}

impl<'a> TryFromSpecImpl<&'a [u8]> for Method {
    open spec fn obeys_try_from_spec() -> bool {
        false
    }

    open spec fn try_from_spec(value: &'a [u8]) -> Result<Self, String> {
        arbitrary()
    }
}

impl Version {
    /// The version that a token of the request line names.
    pub open spec fn of_token(token: Seq<u8>) -> Option<Version> {
        if token == encode_utf8("HTTP/1.0"@) {
            Some(Version::V1_0)
        } else if token == encode_utf8("HTTP/1.1"@) {
            Some(Version::V1_1)
        } else if token == encode_utf8("HTTP/2.2"@) {
            Some(Version::V2_0)
        } else {
            None
        }
    }

    /// The version that a word names.
    pub open spec fn of_word(word: Seq<char>) -> Option<Version> {
        if word == "HTTP/1.0"@ {
            Some(Version::V1_0)
        } else if word == "HTTP/1.1"@ {
            Some(Version::V1_1)
        } else if word == "HTTP/2.2"@ {
            Some(Version::V2_0)
        } else {
            None
        }
    }

    /// The name of the version, as it stands in a status line.
    pub open spec fn name(self) -> Seq<char> {
        match self {
            Version::V0_9 => ""@,
            Version::V1_0 => "HTTP/1.0"@,
            Version::V1_1 => "HTTP/1.1"@,
            Version::V2_0 => "HTTP/2"@,
        }
    }

    /// Whether a connection stays open after a response when the request
    /// does not say.
    pub open spec fn keeps_alive(self) -> bool {
        match self {
            Version::V0_9 => false,
            Version::V1_0 => false,
            Version::V1_1 => true,
            Version::V2_0 => true,
        }
    }

    /// Reads a version from a token of the request line.
    pub fn from_token(token: &[u8]) -> (version: Option<Version>)
        ensures
            version == Version::of_token(token@),
    {
        if same_bytes(token, "HTTP/1.0".as_bytes()) {
            Some(Version::V1_0)
        } else if same_bytes(token, "HTTP/1.1".as_bytes()) {
            Some(Version::V1_1)
        } else if same_bytes(token, "HTTP/2.2".as_bytes()) {
            Some(Version::V2_0)
        } else {
            None
        }
    }

    /// Reads a version from a word.
    pub fn from_word(word: &str) -> (version: Option<Version>)
        ensures
            version == Version::of_word(word@),
    {
        if word.eq("HTTP/1.0") {
            Some(Version::V1_0)
        } else if word.eq("HTTP/1.1") {
            Some(Version::V1_1)
        } else if word.eq("HTTP/2.2") {
            Some(Version::V2_0)
        } else {
            None
        }
    }

    /// The name of the version, as it stands in a status line.
    pub fn as_str(&self) -> (name: &'static str)
        ensures
            name@ == self.name(),
    {
        match self {
            Version::V0_9 => "",
            Version::V1_0 => "HTTP/1.0",
            Version::V1_1 => "HTTP/1.1",
            Version::V2_0 => "HTTP/2",
        }
    }
}

impl<'a> TryFrom<&'a [u8]> for Version {
    type Error = String;

    fn try_from(value: &'a [u8]) -> (result: Result<Self, String>)
        ensures
            match result {
                Ok(version) => Version::of_token(value@) == Some(version),
                Err(message) => Version::of_token(value@) is None && message@
                    == "invalid version"@,
            },
    {
        match Version::from_token(value) {
            Some(version) => Ok(version),
            None => Err(String::from_str("invalid version")),
        }
    }
}

impl<'a> TryFromSpecImpl<&'a [u8]> for Version {
    open spec fn obeys_try_from_spec() -> bool {
        false
    }

    open spec fn try_from_spec(value: &'a [u8]) -> Result<Self, String> {
        arbitrary()
    }
}

impl StatusCode {
    /// The number of the status.
    pub open spec fn number(self) -> nat {
        match self {
            StatusCode::OK => 200,
            StatusCode::MovedPermanetly => 301,
            StatusCode::Found => 302,
            StatusCode::BadRequest => 400,
            StatusCode::ErrForbidden => 403,
            StatusCode::ErrNotFound => 404,
            StatusCode::InternalServerError => 500,
        }
    }

    /// The number and the reason phrase, as they stand in a status line.
    pub open spec fn line(self) -> Seq<char> {
        match self {
            StatusCode::OK => "200 OK"@,
            StatusCode::MovedPermanetly => "301 Moved Permanently"@,
            StatusCode::Found => "302 Found"@,
            StatusCode::BadRequest => "400 Bad Request"@,
            StatusCode::ErrForbidden => "403 Forbidden"@,
            StatusCode::ErrNotFound => "404 Not Found"@,
            StatusCode::InternalServerError => "500 Internal Server Error"@,
        }
    }

    /// The number of the status.
    pub fn code(&self) -> (number: u16)
        ensures
            number == self.number(),
    {
        match self {
            StatusCode::OK => 200,
            StatusCode::MovedPermanetly => 301,
            StatusCode::Found => 302,
            StatusCode::BadRequest => 400,
            StatusCode::ErrForbidden => 403,
            StatusCode::ErrNotFound => 404,
            StatusCode::InternalServerError => 500,
        }
    }

    /// The number and the reason phrase, as they stand in a status line.
    pub fn as_str(&self) -> (line: &'static str)
        ensures
            line@ == self.line(),
    {
        match self {
            StatusCode::OK => "200 OK",
            StatusCode::MovedPermanetly => "301 Moved Permanently",
            StatusCode::Found => "302 Found",
            StatusCode::BadRequest => "400 Bad Request",
            StatusCode::ErrForbidden => "403 Forbidden",
            StatusCode::ErrNotFound => "404 Not Found",
            StatusCode::InternalServerError => "500 Internal Server Error",
        }
    }
}

/// A media type.
#[derive(Debug, PartialEq, Eq, Clone, Copy)]
pub enum MimeType {
    HTML,
    PlainText,
    JavaScript,
    Json,
    CSS,
    SVG,
    Icon,
    Binary,
    JPEG,
    PNG,
    Custom(&'static str),
}

impl MimeType {
    /// The name of the media type.
    pub open spec fn media(self) -> Seq<char> {
        match self {
            MimeType::PlainText => "text/plain"@,
            MimeType::HTML => "text/html"@,
            MimeType::JavaScript => "text/javascript"@,
            MimeType::Json => "application/json"@,
            MimeType::CSS => "text/css"@,
            MimeType::SVG => "image/svg+xml"@,
            MimeType::Icon => "image/vnd.microsoft.icon"@,
            MimeType::Binary => "application/octet-stream"@,
            MimeType::JPEG => "image/jpeg"@,
            MimeType::PNG => "image/png"@,
            MimeType::Custom(name) => name@,
        }
    }

    /// Whether the media type is text, which is sent as UTF-8.
    pub open spec fn is_text(self) -> bool {
        !(self is SVG || self is Icon || self is Binary || self is JPEG)
    }

    /// The value of the `Content-Type` header for this media type.
    pub open spec fn content_type(self) -> Seq<char> {
        if self.is_text() {
            self.media() + "; charset="@ + "utf-8"@
        } else {
            self.media() + ";"@
        }
    }

    /// The media type that goes with a file extension.
    pub open spec fn of_extension(extension: Seq<char>) -> MimeType {
        if extension == "json"@ {
            MimeType::Json
        } else if extension == "js"@ {
            MimeType::JavaScript
        } else if extension == "css"@ {
            MimeType::CSS
        } else if extension == "svg"@ {
            MimeType::SVG
        } else if extension == "ico"@ {
            MimeType::Icon
        } else if extension == "bin"@ {
            MimeType::Binary
        } else if extension == "html"@ {
            MimeType::HTML
        } else if extension == "jpeg"@ || extension == "jpg"@ {
            MimeType::JPEG
        } else if extension == "png"@ {
            MimeType::PNG
        } else {
            MimeType::PlainText
        }
    }

    /// Two media types are the same: the same variant, and for custom types
    /// the same name.
    pub open spec fn same(self, other: MimeType) -> bool {
        match (self, other) {
            (MimeType::Custom(left), MimeType::Custom(right)) => left@ == right@,
            (MimeType::HTML, MimeType::HTML) => true,
            (MimeType::PlainText, MimeType::PlainText) => true,
            (MimeType::JavaScript, MimeType::JavaScript) => true,
            (MimeType::Json, MimeType::Json) => true,
            (MimeType::CSS, MimeType::CSS) => true,
            (MimeType::SVG, MimeType::SVG) => true,
            (MimeType::Icon, MimeType::Icon) => true,
            (MimeType::Binary, MimeType::Binary) => true,
            (MimeType::JPEG, MimeType::JPEG) => true,
            (MimeType::PNG, MimeType::PNG) => true,
            _ => false,
        }
    }

    /// The name of the media type.
    pub fn media_type(&self) -> (name: &str)
        ensures
            name@ == self.media(),
    {
        match self {
            Self::PlainText => "text/plain",
            Self::HTML => "text/html",
            Self::JavaScript => "text/javascript",
            Self::Json => "application/json",
            Self::CSS => "text/css",
            Self::SVG => "image/svg+xml",
            Self::Icon => "image/vnd.microsoft.icon",
            Self::Binary => "application/octet-stream",
            Self::JPEG => "image/jpeg",
            Self::PNG => "image/png",
            Self::Custom(name) => name,
        }
    }

    /// The character set in which the media type is sent, if it is text.
    pub fn charset(&self) -> (name: Option<&str>)
        ensures
            name is Some == self.is_text(),
            name matches Some(text) ==> text@ == "utf-8"@,
    {
        match self {
            Self::SVG | Self::Icon | Self::Binary | Self::JPEG => None,
            _ => Some("utf-8"),
        }
    }

    /// The boundary parameter of the media type: there is none.
    pub fn boundary(&self) -> (name: Option<&str>)
        ensures
            name is None,
    {
        None
    }

    /// The media type that goes with a file extension.
    pub fn from_extension(extension: &str) -> (mime: Self)
        ensures
            mime == MimeType::of_extension(extension@),
    {
        if extension.eq("json") {
            Self::Json
        } else if extension.eq("js") {
            Self::JavaScript
        } else if extension.eq("css") {
            Self::CSS
        } else if extension.eq("svg") {
            Self::SVG
        } else if extension.eq("ico") {
            Self::Icon
        } else if extension.eq("bin") {
            Self::Binary
        } else if extension.eq("html") {
            Self::HTML
        } else if extension.eq("jpeg") || extension.eq("jpg") {
            Self::JPEG
        } else if extension.eq("png") {
            Self::PNG
        } else {
            Self::PlainText
        }
    }

    /// Whether two media types are the same.
    pub fn same_as(&self, other: &MimeType) -> (same: bool)
        ensures
            same == self.same(*other),
    {
        match (self, other) {
            (MimeType::Custom(left), MimeType::Custom(right)) => (*left).eq(*right),
            (MimeType::HTML, MimeType::HTML) => true,
            (MimeType::PlainText, MimeType::PlainText) => true,
            (MimeType::JavaScript, MimeType::JavaScript) => true,
            (MimeType::Json, MimeType::Json) => true,
            (MimeType::CSS, MimeType::CSS) => true,
            (MimeType::SVG, MimeType::SVG) => true,
            (MimeType::Icon, MimeType::Icon) => true,
            (MimeType::Binary, MimeType::Binary) => true,
            (MimeType::JPEG, MimeType::JPEG) => true,
            (MimeType::PNG, MimeType::PNG) => true,
            _ => false,
        }
    }

    /// The value of the `Content-Type` header for this media type.
    pub fn to_content_type(&self) -> (value: String)
        ensures
            value@ == self.content_type(),
    {
        let mut value = String::from_str(self.media_type());
        match self.charset() {
            Some(charset) => {
                value.append("; charset=");
                value.append(charset);
            },
            None => {
                value.append(";");
            },
        }
        value
    }
}

/// A header: a name, kept in lower case, and a value.
#[derive(Debug, PartialEq, Eq)]
pub struct Header {
    pub key: String,
    pub value: String,
}

impl View for Header {
    type V = (Seq<char>, Seq<char>);

    open spec fn view(&self) -> (Seq<char>, Seq<char>) {
        (self.key@, self.value@)
    }
}

impl Clone for Header {
    fn clone(&self) -> (copy: Self)
        ensures
            copy@ == self@,
    {
        Header { key: self.key.clone(), value: self.value.clone() }
    }
}

/// The separator between the name and the value of a header.
pub open spec fn header_separator() -> Seq<char> {
    ": "@
}

/// The name and value that a header line of a request holds, if it holds the
/// separator: the name is what stands before the first separator, in lower
/// case, and the value is all that follows it.
pub open spec fn header_of_line(line: Seq<u8>) -> Option<(Seq<char>, Seq<char>)> {
    match after(line, encode_utf8(header_separator())) {
        Some(value) => Some(
            (
                lowercase(lossy_text(before(line, encode_utf8(header_separator())))),
                lossy_text(value),
            ),
        ),
        None => None,
    }
}

/// The name and value that a line of text holds, if the separator occurs in
/// it exactly once.
pub open spec fn header_of_text(line: Seq<char>) -> Option<(Seq<char>, Seq<char>)> {
    let parts = pieces(line, header_separator());
    if parts.len() == 2 {
        Some((lowercase(parts[0]), parts[1]))
    } else {
        None
    }
}

impl Header {
    /// A header with the given name, put in lower case, and value.
    pub fn new(key: &str, value: &str) -> (header: Header)
        ensures
            header@ == (lowercase(key@), value@),
            is_ascii_chars(key@) ==> header@.0 == ascii_lowercase(key@),
    {
        Header { key: lowercase_of(key), value: String::from_str(value) }
    }

    /// The headers that every response of this server starts with.
    pub fn new_server() -> (headers: Vec<Header>)
        ensures
            headers@.len() == 1,
            headers@[0]@ == ("Server"@, "nucleus-http 0.1.0"@),
    {
        let mut headers: Vec<Header> = Vec::new();
        headers.push(
            Header { key: String::from_str("Server"), value: String::from_str("nucleus-http 0.1.0") },
        );
        headers
    }

    /// Reads a header from a line of a request.
    pub fn from_line(line: &[u8]) -> (result: Result<Header, &'static str>)
        ensures
            match result {
                Ok(header) => header_of_line(line@) == Some(header@),
                Err(message) => header_of_line(line@) is None && message@ == "missing ': '"@,
            },
    {
        let separator = ": ".as_bytes();
        let end: usize = line.len();
        match find_bytes(line, separator) {
            Some(at) => {
                let key = text_from_bytes(&line[0..at]);
                let value = text_from_bytes(&line[at + separator.len()..end]);
                Ok(Header { key: lowercase_of(key.as_str()), value })
            },
            None => Err("missing ': '"),
        }
    }

    /// Reads a header from a line of text.
    pub fn from_text(line: &str) -> (result: Result<Header, &'static str>)
        ensures
            match result {
                Ok(header) => header_of_text(line@) == Some(header@),
                Err(message) => header_of_text(line@) is None && message@ == (if pieces(
                    line@,
                    header_separator(),
                ).len() > 2 {
                    "Too many ': '"@
                } else {
                    "Invalid Key Value Pair"@
                }),
            },
    {
        let chars = chars_of(line);
        let separator = chars_of(": ");
        proof {
            reveal_strlit(": ");
        }
        let parts = split_chars(chars.as_slice(), separator.as_slice());
        assert(views(parts@).len() == parts@.len());
        if parts.len() == 2 {
            assert(views(parts@)[0] == parts@[0]@);
            assert(views(parts@)[1] == parts@[1]@);
            let key = text_of(parts[0]);
            let value = text_of(parts[1]);
            Ok(Header { key: lowercase_of(key.as_str()), value })
        } else if parts.len() > 2 {
            Err("Too many ': '")
        } else {
            Err("Invalid Key Value Pair")
        }
    }

    /// The line that stands for the header in a response.
    pub fn to_line(&self) -> (line: String)
        ensures
            line@ == self.key@ + header_separator() + self.value@,
    {
        let mut line = self.key.clone();
        line.append(": ");
        line.append(self.value.as_str());
        line
    }
}

impl<'a> TryFrom<&'a [u8]> for Header {
    type Error = &'static str;

    fn try_from(line: &'a [u8]) -> (result: Result<Self, &'static str>)
        ensures
            match result {
                Ok(header) => header_of_line(line@) == Some(header@),
                Err(_) => header_of_line(line@) is None,
            },
    {
        Header::from_line(line)
    }
}

impl<'a> TryFromSpecImpl<&'a [u8]> for Header {
    open spec fn obeys_try_from_spec() -> bool {
        false
    }

    open spec fn try_from_spec(line: &'a [u8]) -> Result<Self, &'static str> {
        arbitrary()
    }
}

impl<'a> TryFrom<&'a str> for Header {
    type Error = &'static str;

    fn try_from(line: &'a str) -> (result: Result<Self, &'static str>)
        ensures
            match result {
                Ok(header) => header_of_text(line@) == Some(header@),
                Err(_) => header_of_text(line@) is None,
            },
    {
        Header::from_text(line)
    }
}

impl<'a> TryFromSpecImpl<&'a str> for Header {
    open spec fn obeys_try_from_spec() -> bool {
        false
    }

    open spec fn try_from_spec(line: &'a str) -> Result<Self, &'static str> {
        arbitrary()
    }
}

impl<'a> TryFrom<&'a String> for Header {
    type Error = &'static str;

    fn try_from(line: &'a String) -> (result: Result<Self, &'static str>)
        ensures
            match result {
                Ok(header) => header_of_text(line@) == Some(header@),
                Err(_) => header_of_text(line@) is None,
            },
    {
        Header::from_text(line.as_str())
    }
}

impl<'a> TryFromSpecImpl<&'a String> for Header {
    open spec fn obeys_try_from_spec() -> bool {
        false
    }

    open spec fn try_from_spec(line: &'a String) -> Result<Self, &'static str> {
        arbitrary()
    }
}

impl TryFrom<String> for Header {
    type Error = &'static str;

    fn try_from(line: String) -> (result: Result<Self, &'static str>)
        ensures
            match result {
                Ok(header) => header_of_text(line@) == Some(header@),
                Err(_) => header_of_text(line@) is None,
            },
    {
        Header::from_text(line.as_str())
    }
}

impl TryFromSpecImpl<String> for Header {
    open spec fn obeys_try_from_spec() -> bool {
        false
    }

    open spec fn try_from_spec(line: String) -> Result<Self, &'static str> {
        arbitrary()
    }
}

/// What can be turned into a header.
pub trait IntoHeader: Sized {
    /// The name and value of the header that the value turns into.
    spec fn header(self) -> (Seq<char>, Seq<char>);

    /// Turns the value into a header.
    fn into_header(self) -> (header: Header)
        ensures
            header@ == self.header(),
    ;
}

impl IntoHeader for Header {
    open spec fn header(self) -> (Seq<char>, Seq<char>) {
        self@
    }

    fn into_header(self) -> (header: Header) {
        self
    }
}

impl<'a> IntoHeader for &'a Header {
    open spec fn header(self) -> (Seq<char>, Seq<char>) {
        self@
    }

    fn into_header(self) -> (header: Header) {
        self.clone()
    }
}

impl<'a, 'b> IntoHeader for (&'a str, &'b str) {
    open spec fn header(self) -> (Seq<char>, Seq<char>) {
        (lowercase(self.0@), self.1@)
    }

    fn into_header(self) -> (header: Header) {
        Header::new(self.0, self.1)
    }
}

impl<'a, 'b> IntoHeader for (&'a str, &'b String) {
    open spec fn header(self) -> (Seq<char>, Seq<char>) {
        (lowercase(self.0@), self.1@)
    }

    fn into_header(self) -> (header: Header) {
        Header::new(self.0, self.1.as_str())
    }
}

} // verus!
