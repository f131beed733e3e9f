//! Requests: the incremental parser, and the decoders of form bodies.

use crate::http::{header_of_line, header_of_text, Header, Method, Version};
use crate::search::{
    after, before, contains, cut_at_byte, cut_bytes, cut_chars, find_bytes, find_chars, index_of,
    lemma_absent_has_no_index, lemma_first_occurrence_is_index, lemma_index_of,
    lemma_occurrence_has_index, lemma_occurs_in_prefix, lemma_pieces_len, occurs_at, pieces, split_bytes, split_chars, views,
};
use crate::table::{Alike, TextMap};
use crate::utils::{bytes_of, contents, decode_query, query_pairs};
use bytes::Bytes;
use crate::text::{
    ascii_byte, ascii_bytes, chars_of, decimal, decimal_text, lossy_text, lowercase, lowercase_of, number,
    parse_usize, same_bytes, text_from_bytes, text_of,
};
use vstd::prelude::*;
use vstd::slice::slice_to_vec;
use vstd::std_specs::cmp::PartialEqSpecImpl;
use vstd::string::StringExecFns;
use vstd::utf8::encode_utf8;

verus! {

/// Why a buffer is not, or not yet, a request.
#[derive(PartialEq, Eq, Debug, Clone, Copy, Structural)]
pub enum Error {
    InvalidString,
    InvalidMethod,
    InvalidHTTPVersion,
    MissingBlankLine,
    NoHostHeader,
    InvalidContentLength,
    /// The body is incomplete; where it is known, by how many bytes.
    WaitingOnBody(Option<usize>),
    MissingMultiPartBoundary,
    MissingContentLength,
    InvalidUrlEncodedForm,
}

impl Error {
    /// A short description of the error.
    pub open spec fn text(self) -> Seq<char> {
        match self {
            Error::InvalidString => "Invalid String"@,
            Error::NoHostHeader => "No VHost Specified"@,
            Error::InvalidMethod => "Invalid Method Requested"@,
            Error::InvalidHTTPVersion => "Unsupported HTTP version Request"@,
            Error::MissingBlankLine => "Missing Blank Line"@,
            Error::WaitingOnBody(_) => "Waiting On Body"@,
            Error::InvalidContentLength => "Content Length Invalid"@,
            Error::MissingMultiPartBoundary => "Missing Mulipart boundary"@,
            Error::MissingContentLength => "Missing Content Length Header"@,
            Error::InvalidUrlEncodedForm => "Invalid URL Encoded Form"@,
        }
    }

    /// With more bytes the buffer may still become a request.
    pub open spec fn wants_more(self) -> bool {
        self is MissingBlankLine || self is WaitingOnBody
    }

    /// A short description of the error.
    pub fn message(&self) -> (text: &'static str)
        ensures
            text@ == self.text(),
    {
        match self {
            Error::InvalidString => "Invalid String",
            Error::NoHostHeader => "No VHost Specified",
            Error::InvalidMethod => "Invalid Method Requested",
            Error::InvalidHTTPVersion => "Unsupported HTTP version Request",
            Error::MissingBlankLine => "Missing Blank Line",
            Error::WaitingOnBody(_) => "Waiting On Body",
            Error::InvalidContentLength => "Content Length Invalid",
            Error::MissingMultiPartBoundary => "Missing Mulipart boundary",
            Error::MissingContentLength => "Missing Content Length Header",
            Error::InvalidUrlEncodedForm => "Invalid URL Encoded Form",
        }
    }

    /// A short description of the error, as an owned string.
    pub fn to_string(&self) -> (text: String)
        ensures
            text@ == self.text(),
    {
        String::from_str(self.message())
    }

    /// Whether more bytes may still make the buffer a request.
    pub fn is_retryable(&self) -> (retry: bool)
        ensures
            retry == self.wants_more(),
    {
        match self {
            Error::MissingBlankLine => true,
            Error::WaitingOnBody(_) => true,
            _ => false,
        }
    }
}

/// Why a `Content-Type` value names no boundary.
#[derive(PartialEq, Eq, Debug, Clone, Copy, Structural)]
pub enum BoundaryError {
    /// The value has no parameter.
    Missing,
    /// The first parameter has no value.
    Invalid,
}

/// Why a part of a multipart body is no form entry.
#[derive(PartialEq, Eq, Debug, Clone, Copy, Structural)]
pub enum FormError {
    /// No blank line ends the part's headers.
    MissingBody,
    /// The part names no field.
    MissingName,
}

/// The text between the first two quotation marks of `value`, or after the
/// first where there is no second; `value` itself where there is none.
pub open spec fn unquoted(value: Seq<char>) -> Seq<char> {
    match after(value, "\""@) {
        Some(rest) => before(rest, "\""@),
        None => value,
    }
}

/// The value of the first parameter of a `Content-Type` value: in what
/// follows the first `;`, up to the next one, the text between the first two
/// `=`, without its quotation marks.
pub open spec fn boundary_of(content_type: Seq<char>) -> Result<Seq<char>, BoundaryError> {
    match after(content_type, ";"@) {
        None => Err(BoundaryError::Missing),
        Some(rest) => match after(before(rest, ";"@), "="@) {
            None => Err(BoundaryError::Invalid),
            Some(value) => Ok(unquoted(before(value, "="@))),
        },
    }
}

/// The characters of the text `value` without its quotation marks.
fn unquote<'a>(value: &'a [char]) -> (inner: &'a [char])
    ensures
        inner@ == unquoted(value@),
{
    let quote = chars_of("\"");
    match cut_chars(value, quote.as_slice()) {
        (_, Some(rest)) => cut_chars(rest, quote.as_slice()).0,
        (_, None) => value,
    }
}

/// Takes the quotation marks off a value.
pub fn strip_quotes(value: &str) -> (inner: String)
    ensures
        inner@ == unquoted(value@),
{
    let chars = chars_of(value);
    text_of(unquote(chars.as_slice()))
}

/// Reads the boundary of a multipart body from a `Content-Type` value.
pub fn get_boundary(content_type_value_str: &str) -> (result: Result<String, BoundaryError>)
    ensures
        match result {
            Ok(boundary) => boundary_of(content_type_value_str@) == Ok::<
                Seq<char>,
                BoundaryError,
            >(boundary@),
            Err(error) => boundary_of(content_type_value_str@) == Err::<Seq<char>, BoundaryError>(
                error,
            ),
        },
{
    let chars = chars_of(content_type_value_str);
    let semicolon = chars_of(";");
    let equals = chars_of("=");
    match cut_chars(chars.as_slice(), semicolon.as_slice()) {
        (_, None) => Err(BoundaryError::Missing),
        (_, Some(rest)) => {
            let parameter = cut_chars(rest, semicolon.as_slice()).0;
            match cut_chars(parameter, equals.as_slice()) {
                (_, None) => Err(BoundaryError::Invalid),
                (_, Some(value)) => {
                    let inner = unquote(cut_chars(value, equals.as_slice()).0);
                    Ok(text_of(inner))
                },
            }
        },
    }
}

/// One field of a multipart form.
#[derive(Debug, Clone, PartialEq, Eq)]
pub struct MultiPartFormEntry {
    name: String,
    file_name: Option<String>,
    content_type: Option<String>,
    value: Vec<u8>,
}

/// What a form entry holds.
pub struct EntryView {
    pub name: Seq<char>,
    pub file_name: Option<Seq<char>>,
    pub content_type: Option<Seq<char>>,
    pub value: Seq<u8>,
}

/// The text of an optional string.
pub open spec fn optional_text(text: Option<String>) -> Option<Seq<char>> {
    match text {
        Some(text) => Some(text@),
        None => None,
    }
}

impl View for MultiPartFormEntry {
    type V = EntryView;

    closed spec fn view(&self) -> EntryView {
        EntryView {
            name: self.name@,
            file_name: optional_text(self.file_name),
            content_type: optional_text(self.content_type),
            value: self.value@,
        }
    }
}

/// What the headers of a part have told so far: the arguments of its
/// `Content-Disposition` headers and its declared content type.
pub struct PartHead {
    pub args: Map<Seq<char>, Seq<char>>,
    pub content_type: Option<Seq<char>>,
}

/// The head of a part before any header was read.
pub open spec fn empty_head() -> PartHead {
    PartHead { args: Map::empty(), content_type: None }
}

/// Adds one argument of a `Content-Disposition` value, `name=value`, to the
/// arguments; an argument without `=` adds nothing.
pub open spec fn with_arg(args: Map<Seq<char>, Seq<char>>, arg: Seq<char>) -> Map<
    Seq<char>,
    Seq<char>,
> {
    match after(arg, "="@) {
        Some(rest) => args.insert(before(arg, "="@), unquoted(before(rest, "="@))),
        None => args,
    }
}

/// Adds a list of arguments, in order.
pub open spec fn with_args(args: Map<Seq<char>, Seq<char>>, list: Seq<Seq<char>>) -> Map<
    Seq<char>,
    Seq<char>,
>
    decreases list.len(),
{
    if list.len() == 0 {
        args
    } else {
        with_arg(with_args(args, list.drop_last()), list.last())
    }
}

/// The head after a header with this name and value.
pub open spec fn with_part_header(head: PartHead, name: Seq<char>, value: Seq<char>) -> PartHead {
    if lowercase(name) == "content-type"@ {
        PartHead { args: head.args, content_type: Some(value) }
    } else if lowercase(name) == "content-disposition"@ {
        PartHead {
            args: with_args(head.args, pieces(value, "; "@)),
            content_type: head.content_type,
        }
    } else {
        head
    }
}

/// The head after a header line given as bytes; a line without `: ` changes
/// nothing.
pub open spec fn with_part_line(head: PartHead, line: Seq<u8>) -> PartHead {
    match after(line, encode_utf8(": "@)) {
        Some(value) => with_part_header(
            head,
            lossy_text(before(line, encode_utf8(": "@))),
            lossy_text(value),
        ),
        None => head,
    }
}

/// The head after a list of header lines given as bytes.
pub open spec fn with_part_lines(head: PartHead, lines: Seq<Seq<u8>>) -> PartHead
    decreases lines.len(),
{
    if lines.len() == 0 {
        head
    } else {
        with_part_line(with_part_lines(head, lines.drop_last()), lines.last())
    }
}

/// The head after a header line given as text: the name stands before the
/// first `: `, the value between the first and the second.
pub open spec fn with_text_line(head: PartHead, line: Seq<char>) -> PartHead {
    match after(line, ": "@) {
        Some(rest) => with_part_header(head, before(line, ": "@), before(rest, ": "@)),
        None => head,
    }
}

/// The head after a list of header lines given as text.
pub open spec fn with_text_lines(head: PartHead, lines: Seq<Seq<char>>) -> PartHead
    decreases lines.len(),
{
    if lines.len() == 0 {
        head
    } else {
        with_text_line(with_text_lines(head, lines.drop_last()), lines.last())
    }
}

/// The entry that a head and a value make: the head must name the field.
pub open spec fn entry_of_head(head: PartHead, value: Seq<u8>) -> Result<EntryView, FormError> {
    if head.args.contains_key("name"@) {
        Ok(
            EntryView {
                name: head.args["name"@],
                file_name: if head.args.contains_key("filename"@) {
                    Some(head.args["filename"@])
                } else {
                    None
                },
                content_type: head.content_type,
                value,
            },
        )
    } else {
        Err(FormError::MissingName)
    }
}

/// A value without the line break that ends it, if one does.
pub open spec fn without_line_break(value: Seq<u8>) -> Seq<u8> {
    if value.len() >= 2 && value[value.len() - 2] == 13 && value[value.len() - 1] == 10 {
        value.subrange(0, value.len() - 2)
    } else {
        value
    }
}

/// The entry that a part of a multipart body holds: header lines up to the
/// first blank line, then the value.
pub open spec fn entry_of_bytes(form: Seq<u8>) -> Result<EntryView, FormError> {
    match after(form, encode_utf8("\r\n\r\n"@)) {
        None => Err(FormError::MissingBody),
        Some(value) => entry_of_head(
            with_part_lines(
                empty_head(),
                pieces(before(form, encode_utf8("\r\n\r\n"@)), encode_utf8("\r\n"@)),
            ),
            without_line_break(value),
        ),
    }
}

/// The entry that a part given as text holds: header lines up to the first
/// blank line, then the value, which ends at the next blank line.
pub open spec fn entry_of_text(form: Seq<char>) -> Result<EntryView, FormError> {
    match after(form, "\r\n\r\n"@) {
        None => Err(FormError::MissingBody),
        Some(rest) => entry_of_head(
            with_text_lines(empty_head(), pieces(before(form, "\r\n\r\n"@), "\r\n"@)),
            encode_utf8(before(rest, "\r\n\r\n"@)),
        ),
    }
}

/// The bytes of a line break.
fn line_break() -> (bytes: &'static [u8])
    ensures
        bytes@ == encode_utf8("\r\n"@),
        bytes@.len() == 2,
{
    proof {
        reveal_strlit("\r\n");
    }
    ascii_bytes("\r\n")
}

/// The bytes of a blank line: two line breaks.
fn blank_line() -> (bytes: &'static [u8])
    ensures
        bytes@ == encode_utf8("\r\n\r\n"@),
        bytes@.len() == 4,
{
    proof {
        reveal_strlit("\r\n\r\n");
    }
    ascii_bytes("\r\n\r\n")
}

/// The bytes of the separator between a header's name and its value.
fn name_separator() -> (bytes: &'static [u8])
    ensures
        bytes@ == encode_utf8(": "@),
        bytes@.len() == 2,
{
    proof {
        reveal_strlit(": ");
    }
    ascii_bytes(": ")
}

/// Adds the arguments of a `Content-Disposition` value to `args`.
fn add_args(args: TextMap<String>, value: &str) -> (out: TextMap<String>)
    ensures
        out@ == with_args(args@, pieces(value@, "; "@)),
{
    let chars = chars_of(value);
    let separator = chars_of("; ");
    let equals = chars_of("=");
    proof {
        reveal_strlit("; ");
    }
    let list = split_chars(chars.as_slice(), separator.as_slice());
    let ghost start = args@;
    let mut out = args;
    let mut i: usize = 0;
    while i < list.len()
        invariant
            i <= list@.len(),
            equals@ == "="@,
            out@ == with_args(start, views(list@).take(i as int)),
        decreases list@.len() - i,
    {
        proof {
            assert(views(list@).take(i + 1).drop_last() =~= views(list@).take(i as int));
            assert(views(list@).take(i + 1).last() == list@[i as int]@);
        }
        let arg = list[i];
        match cut_chars(arg, equals.as_slice()) {
            (name, Some(rest)) => {
                let value = unquote(cut_chars(rest, equals.as_slice()).0);
                out = out.insert(text_of(name), text_of(value));
            },
            (_, None) => {},
        }
        i += 1;
    }
    proof {
        assert(views(list@).take(list@.len() as int) =~= views(list@));
    }
    out
}

/// Takes in one header of a part, given by its name and value.
fn read_part_header(
    args: TextMap<String>,
    content_type: Option<String>,
    name: &str,
    value: String,
) -> (out: (TextMap<String>, Option<String>))
    ensures
        (PartHead { args: out.0@, content_type: optional_text(out.1) }) == with_part_header(
            PartHead { args: args@, content_type: optional_text(content_type) },
            name@,
            value@,
        ),
{
    let lower = lowercase_of(name);
    if lower.as_str().eq("content-type") {
        (args, Some(value))
    } else if lower.as_str().eq("content-disposition") {
        (add_args(args, value.as_str()), content_type)
    } else {
        (args, content_type)
    }
}

/// Makes the entry of a part from what its headers told and its value.
fn finish_entry(args: &TextMap<String>, content_type: Option<String>, value: Vec<u8>) -> (result:
    Result<MultiPartFormEntry, FormError>)
    ensures
        entry_result(result) == entry_of_head(
            PartHead { args: args@, content_type: optional_text(content_type) },
            value@,
        ),
{
    match args.get("name") {
        Some(name) => {
            let file_name = match args.get("filename") {
                Some(file) => Some(file.clone()),
                None => None,
            };
            Ok(MultiPartFormEntry { name: name.clone(), file_name, content_type, value })
        },
        None => Err(FormError::MissingName),
    }
}

/// What a result of reading an entry holds.
pub open spec fn entry_result(result: Result<MultiPartFormEntry, FormError>) -> Result<
    EntryView,
    FormError,
> {
    match result {
        Ok(entry) => Ok(entry@),
        Err(error) => Err(error),
    }
}

impl MultiPartFormEntry {
    /// Reads an entry from a part given as text.
    pub fn from_string(form_str: &str) -> (result: Result<MultiPartFormEntry, FormError>)
        ensures
            entry_result(result) == entry_of_text(form_str@),
    {
        let chars = chars_of(form_str);
        let blank = chars_of("\r\n\r\n");
        let line_end = chars_of("\r\n");
        let separator = chars_of(": ");
        proof {
            reveal_strlit("\r\n");
        }
        match cut_chars(chars.as_slice(), blank.as_slice()) {
            (_, None) => Err(FormError::MissingBody),
            (head, Some(rest)) => {
                let body = cut_chars(rest, blank.as_slice()).0;
                let lines = split_chars(head, line_end.as_slice());
                let mut args: TextMap<String> = TextMap::new();
                let mut content_type: Option<String> = None;
                let mut i: usize = 0;
                while i < lines.len()
                    invariant
                        i <= lines@.len(),
                        separator@ == ": "@,
                        (PartHead { args: args@, content_type: optional_text(content_type) })
                            == with_text_lines(empty_head(), views(lines@).take(i as int)),
                    decreases lines@.len() - i,
                {
                    proof {
                        assert(views(lines@).take(i + 1).drop_last() =~= views(lines@).take(
                            i as int,
                        ));
                        assert(views(lines@).take(i + 1).last() == lines@[i as int]@);
                    }
                    match cut_chars(lines[i], separator.as_slice()) {
                        (name, Some(rest)) => {
                            let value = cut_chars(rest, separator.as_slice()).0;
                            let name_text = text_of(name);
                            let next = read_part_header(
                                args,
                                content_type,
                                name_text.as_str(),
                                text_of(value),
                            );
                            args = next.0;
                            content_type = next.1;
                        },
                        (_, None) => {},
                    }
                    i += 1;
                }
                proof {
                    assert(views(lines@).take(lines@.len() as int) =~= views(lines@));
                }
                let body_text = text_of(body);
                finish_entry(&args, content_type, slice_to_vec(body_text.as_str().as_bytes()))
            },
        }
    }

    /// Reads an entry from a part of a multipart body.
    pub fn from_bytes(form: &[u8]) -> (result: Result<MultiPartFormEntry, FormError>)
        ensures
            entry_result(result) == entry_of_bytes(form@),
    {
        match cut_bytes(form, blank_line()) {
            (_, None) => Err(FormError::MissingBody),
            (head, Some(rest)) => {
                let length: usize = rest.len();
                let body = if length >= 2 && rest[length - 2] == 13 && rest[length - 1] == 10 {
                    &rest[0..length - 2]
                } else {
                    rest
                };
                let lines = split_bytes(head, line_break());
                let separator = name_separator();
                let mut args: TextMap<String> = TextMap::new();
                let mut content_type: Option<String> = None;
                let mut i: usize = 0;
                while i < lines.len()
                    invariant
                        i <= lines@.len(),
                        separator@ == encode_utf8(": "@),
                        (PartHead { args: args@, content_type: optional_text(content_type) })
                            == with_part_lines(empty_head(), views(lines@).take(i as int)),
                    decreases lines@.len() - i,
                {
                    proof {
                        assert(views(lines@).take(i + 1).drop_last() =~= views(lines@).take(
                            i as int,
                        ));
                        assert(views(lines@).take(i + 1).last() == lines@[i as int]@);
                    }
                    match cut_bytes(lines[i], separator) {
                        (name, Some(value)) => {
                            let name_text = text_from_bytes(name);
                            let next = read_part_header(
                                args,
                                content_type,
                                name_text.as_str(),
                                text_from_bytes(value),
                            );
                            args = next.0;
                            content_type = next.1;
                        },
                        (_, None) => {},
                    }
                    i += 1;
                }
                proof {
                    assert(views(lines@).take(lines@.len() as int) =~= views(lines@));
                }
                finish_entry(&args, content_type, slice_to_vec(body))
            },
        }
    }

    /// An entry with a name and a value.
    pub fn name_value(name: &str, value: &str) -> (entry: Self)
        ensures
            entry@ == (EntryView {
                name: name@,
                file_name: None,
                content_type: None,
                value: encode_utf8(value@),
            }),
    {
        MultiPartFormEntry {
            name: String::from_str(name),
            file_name: None,
            content_type: None,
            value: slice_to_vec(value.as_bytes()),
        }
    }

    /// An entry that holds a file: a name, a file name and a value.
    pub fn file(name: &str, file_name: &str, value: &str) -> (entry: Self)
        ensures
            entry@ == (EntryView {
                name: name@,
                file_name: Some(file_name@),
                content_type: None,
                value: encode_utf8(value@),
            }),
    {
        MultiPartFormEntry {
            name: String::from_str(name),
            file_name: Some(String::from_str(file_name)),
            content_type: None,
            value: slice_to_vec(value.as_bytes()),
        }
    }

    /// The file name, if the entry holds a file.
    pub fn file_name(&self) -> (name: Option<&String>)
        ensures
            self@.file_name == match name {
                Some(text) => Some(text@),
                None => None,
            },
    {
        self.file_name.as_ref()
    }

    /// The content type that the part declared.
    pub fn content_type(&self) -> (name: Option<&String>)
        ensures
            self@.content_type == match name {
                Some(text) => Some(text@),
                None => None,
            },
    {
        self.content_type.as_ref()
    }

    /// The value of the field.
    pub fn value(&self) -> (bytes: &[u8])
        ensures
            bytes@ == self@.value,
    {
        self.value.as_slice()
    }

    /// The name of the field.
    pub fn name(&self) -> (text: &str)
        ensures
            text@ == self@.name,
    {
        self.name.as_str()
    }
}

/// The entries after a part: a part that holds an entry stores it under its
/// name, in place of an earlier entry of that name; another changes nothing.
pub open spec fn with_part(entries: Map<Seq<char>, EntryView>, part: Seq<u8>) -> Map<
    Seq<char>,
    EntryView,
> {
    match entry_of_bytes(part) {
        Ok(entry) => entries.insert(entry.name, entry),
        Err(_) => entries,
    }
}

/// The entries after a list of parts.
pub open spec fn with_parts(entries: Map<Seq<char>, EntryView>, parts: Seq<Seq<u8>>) -> Map<
    Seq<char>,
    EntryView,
>
    decreases parts.len(),
{
    if parts.len() == 0 {
        entries
    } else {
        with_part(with_parts(entries, parts.drop_last()), parts.last())
    }
}

/// The marker that stands before each part: two dashes and the boundary.
pub open spec fn part_marker(boundary: Seq<u8>) -> Seq<u8> {
    encode_utf8("--"@) + boundary
}

/// The marker that ends the body: the part marker and two more dashes.
pub open spec fn end_marker(boundary: Seq<u8>) -> Seq<u8> {
    part_marker(boundary) + encode_utf8("--"@)
}

/// The entries of a multipart body, once its end marker has arrived: the
/// parts are what stands between one marker and the next.
pub open spec fn multipart_entries(body: Seq<u8>, boundary: Seq<u8>) -> Option<
    Map<Seq<char>, EntryView>,
> {
    if contains(body, end_marker(boundary)) {
        let parts = pieces(body, part_marker(boundary));
        Some(with_parts(Map::empty(), parts.subrange(1, parts.len() - 1)))
    } else {
        None
    }
}

/// Decodes a multipart body. `None` means that the end marker has not
/// arrived yet.
pub fn get_multiparts_entries_from_bytes(body: &[u8], boundary: &[u8]) -> (result: Option<
    TextMap<MultiPartFormEntry>,
>)
    ensures
        match result {
            Some(entries) => multipart_entries(body@, boundary@) == Some(entries@),
            None => multipart_entries(body@, boundary@) is None,
        },
{
    proof {
        reveal_strlit("--");
    }
    let dashes = ascii_bytes("--");
    let mut marker: Vec<u8> = Vec::new();
    marker.extend_from_slice(dashes);
    marker.extend_from_slice(boundary);
    let mut end: Vec<u8> = marker.clone();
    end.extend_from_slice(dashes);
    assert(marker@ =~= part_marker(boundary@));
    assert(end@ =~= end_marker(boundary@));
    match find_bytes(body, end.as_slice()) {
        None => {
            return None;
        },
        Some(at) => {
            proof {
                lemma_index_of(body@, end@);
                assert(end@.subrange(0, marker@.len() as int) =~= marker@);
                assert(body@.subrange(at as int, at + marker@.len()) =~= body@.subrange(
                    at as int,
                    at + end@.len(),
                ).subrange(0, marker@.len() as int));
                lemma_occurrence_has_index(body@, marker@, at as int);
                lemma_pieces_len(body@, marker@);
            }
        },
    }
    let parts = split_bytes(body, marker.as_slice());
    let mut entries: TextMap<MultiPartFormEntry> = TextMap::new();
    let last: usize = parts.len() - 1;
    let ghost middle = views(parts@).subrange(1, last as int);
    let mut i: usize = 1;
    while i < last
        invariant
            1 <= i <= last,
            last == parts@.len() - 1,
            middle == views(parts@).subrange(1, last as int),
            entries@ == with_parts(Map::empty(), middle.take(i - 1)),
        decreases last - i,
    {
        proof {
            assert(middle.take(i as int).drop_last() =~= middle.take(i - 1));
            assert(middle.take(i as int).last() == parts@[i as int]@);
        }
        match MultiPartFormEntry::from_bytes(parts[i]) {
            Ok(entry) => {
                entries = entries.insert(entry.name.clone(), entry);
            },
            Err(_) => {},
        }
        i += 1;
    }
    proof {
        assert(middle.take(last - 1) =~= middle);
    }
    Some(entries)
}

/// The form that a request carries.
#[derive(Debug, Clone)]
pub enum FormTypes {
    /// The request carries no form.
    Absent,
    MultiPart(TextMap<MultiPartFormEntry>),
    XUrlEncoded(TextMap<String>),
}

/// What a form holds.
pub enum FormView {
    Absent,
    MultiPart(Map<Seq<char>, EntryView>),
    XUrlEncoded(Map<Seq<char>, Seq<char>>),
}

impl View for FormTypes {
    type V = FormView;

    open spec fn view(&self) -> FormView {
        match self {
            FormTypes::Absent => FormView::Absent,
            FormTypes::MultiPart(entries) => FormView::MultiPart(entries@),
            FormTypes::XUrlEncoded(pairs) => FormView::XUrlEncoded(pairs@),
        }
    }
}

/// A request.
#[derive(Debug, Clone)]
pub struct Request {
    method: Method,
    path: String,
    version: Version,
    host: String,
    query_string: Option<String>,
    headers: TextMap<String>,
    body: Vec<u8>,
    form_data: FormTypes,
    keep_alive: bool,
}

/// What a request holds.
pub struct RequestView {
    pub method: Method,
    pub path: Seq<char>,
    pub version: Version,
    pub host: Seq<char>,
    pub query_string: Option<Seq<char>>,
    pub headers: Map<Seq<char>, Seq<char>>,
    pub body: Seq<u8>,
    pub form_data: FormView,
    pub keep_alive: bool,
}

impl View for Request {
    type V = RequestView;

    closed spec fn view(&self) -> RequestView {
        RequestView {
            method: self.method,
            path: self.path@,
            version: self.version,
            host: self.host@,
            query_string: optional_text(self.query_string),
            headers: self.headers@,
            body: self.body@,
            form_data: self.form_data@,
            keep_alive: self.keep_alive,
        }
    }
}

/// What a request line holds.
pub struct RequestLine {
    pub method: Method,
    pub target: Seq<u8>,
    pub version: Version,
}

/// The request line that a line of bytes holds: a method, a space, a target,
/// a space, and a version, which is all that follows the second space.
pub open spec fn request_line_of(line: Seq<u8>) -> Result<RequestLine, Error> {
    match after(line, encode_utf8(" "@)) {
        None => Err(Error::InvalidString),
        Some(rest) => match after(rest, encode_utf8(" "@)) {
            None => Err(Error::InvalidString),
            Some(version) => match Method::of_token(before(line, encode_utf8(" "@))) {
                None => Err(Error::InvalidMethod),
                Some(method) => match Version::of_token(version) {
                    None => Err(Error::InvalidHTTPVersion),
                    Some(version) => Ok(
                        RequestLine { method, target: before(rest, encode_utf8(" "@)), version },
                    ),
                },
            },
        },
    }
}

/// The path of a request target: what stands before the first `?`.
pub open spec fn path_of(target: Seq<u8>) -> Seq<char> {
    lossy_text(before(target, encode_utf8("?"@)))
}

/// The query string of a request target: all that follows the first `?`.
pub open spec fn query_of(target: Seq<u8>) -> Option<Seq<char>> {
    match after(target, encode_utf8("?"@)) {
        Some(query) => Some(lossy_text(query)),
        None => None,
    }
}

/// The headers after a line: a line that holds a header stores its value
/// under its name, in place of an earlier value; another changes nothing.
pub open spec fn with_header_line(headers: Map<Seq<char>, Seq<char>>, line: Seq<u8>) -> Map<
    Seq<char>,
    Seq<char>,
> {
    match header_of_line(line) {
        Some(header) => headers.insert(header.0, header.1),
        None => headers,
    }
}

/// The headers that a list of lines holds.
pub open spec fn headers_of(lines: Seq<Seq<u8>>) -> Map<Seq<char>, Seq<char>>
    decreases lines.len(),
{
    if lines.len() == 0 {
        Map::empty()
    } else {
        with_header_line(headers_of(lines.drop_last()), lines.last())
    }
}

/// The host that a `Host` header names: its value without the port.
pub open spec fn host_of(value: Seq<char>) -> Seq<char> {
    before(value, ":"@)
}

/// The value stored under a name, if any.
pub open spec fn lookup(headers: Map<Seq<char>, Seq<char>>, name: Seq<char>) -> Option<
    Seq<char>,
> {
    if headers.contains_key(name) {
        Some(headers[name])
    } else {
        None
    }
}

/// Whether the connection stays open after the response: what the
/// `Connection` header says, or else what the version implies.
pub open spec fn keep_alive_of(version: Version, connection: Option<Seq<char>>) -> bool {
    match connection {
        Some(value) => lowercase(value) == "keep-alive"@,
        None => version.keeps_alive(),
    }
}

/// Holds the declared length of the body against the bytes that have
/// arrived.
pub open spec fn length_check(headers: Map<Seq<char>, Seq<char>>, available: nat) -> Result<
    (),
    Error,
> {
    match lookup(headers, "content-length"@) {
        None => Ok(()),
        Some(value) => match number(value) {
            None => Err(Error::InvalidContentLength),
            Some(declared) => if declared > usize::MAX {
                Err(Error::InvalidContentLength)
            } else if available < declared {
                Err(Error::WaitingOnBody(Some((declared - available) as usize)))
            } else {
                Ok(())
            },
        },
    }
}

/// The form that a body holds, as its content type says, and the body that
/// is left: a decoded body leaves none.
pub open spec fn form_of(headers: Map<Seq<char>, Seq<char>>, body: Seq<u8>) -> Result<
    (FormView, Seq<u8>),
    Error,
> {
    match lookup(headers, "content-type"@) {
        None => Ok((FormView::Absent, body)),
        Some(content_type) => if contains(content_type, "multipart/form-data;"@) {
            match boundary_of(content_type) {
                Err(_) => Err(Error::MissingMultiPartBoundary),
                Ok(boundary) => match multipart_entries(body, encode_utf8(boundary)) {
                    Some(entries) => Ok((FormView::MultiPart(entries), Seq::empty())),
                    None => Err(Error::WaitingOnBody(None)),
                },
            }
        } else if contains(content_type, "application/x-www-form-urlencoded"@) {
            match query_pairs(body) {
                Some(pairs) => Ok((FormView::XUrlEncoded(pairs), Seq::empty())),
                None => Err(Error::InvalidUrlEncodedForm),
            }
        } else {
            Ok((FormView::Absent, body))
        },
    }
}

/// The request that a request line, headers and the bytes after the blank
/// line make.
pub open spec fn request_of(line: RequestLine, headers: Map<Seq<char>, Seq<char>>, body: Seq<u8>)
    -> Result<RequestView, Error> {
    match lookup(headers, "host"@) {
        None => Err(Error::NoHostHeader),
        Some(host) => match length_check(headers, body.len()) {
            Err(error) => Err(error),
            Ok(_) => match form_of(headers, body) {
                Err(error) => Err(error),
                Ok(form) => Ok(
                    RequestView {
                        method: line.method,
                        path: path_of(line.target),
                        version: line.version,
                        host: host_of(host),
                        query_string: query_of(line.target),
                        headers,
                        body: form.1,
                        form_data: form.0,
                        keep_alive: keep_alive_of(line.version, lookup(headers, "connection"@)),
                    },
                ),
            },
        },
    }
}

/// The lines of the header block: what stands before the first blank line,
/// split at the line breaks.
pub open spec fn head_lines(buffer: Seq<u8>) -> Seq<Seq<u8>> {
    pieces(before(buffer, encode_utf8("\r\n\r\n"@)), encode_utf8("\r\n"@))
}

/// What a buffer parses to: the request that it holds, or why it holds none.
pub open spec fn parsed(buffer: Seq<u8>) -> Result<RequestView, Error> {
    if buffer.len() == 0 {
        Err(Error::InvalidString)
    } else {
        match after(buffer, encode_utf8("\r\n\r\n"@)) {
            None => Err(Error::MissingBlankLine),
            Some(body) => match request_line_of(head_lines(buffer)[0]) {
                Err(error) => Err(error),
                Ok(line) => request_of(
                    line,
                    headers_of(head_lines(buffer).subrange(1, head_lines(buffer).len() as int)),
                    body,
                ),
            },
        }
    }
}

/// What a result of parsing holds.
pub open spec fn outcome(result: Result<Request, Error>) -> Result<RequestView, Error> {
    match result {
        Ok(request) => Ok(request@),
        Err(error) => Err(error),
    }
}

/// Reads a request line.
pub fn read_request_line<'a>(line: &'a [u8]) -> (result: Result<(Method, &'a [u8], Version), Error>)
    ensures
        match result {
            Ok(parts) => request_line_of(line@) == Ok::<RequestLine, Error>(
                RequestLine { method: parts.0, target: parts.1@, version: parts.2 },
            ),
            Err(error) => request_line_of(line@) == Err::<RequestLine, Error>(error),
        },
{
    proof {
        reveal_strlit(" ");
    }
    let space = ascii_byte(" ");
    match cut_at_byte(line, space) {
        (_, None) => Err(Error::InvalidString),
        (method_token, Some(rest)) => match cut_at_byte(rest, space) {
            (_, None) => Err(Error::InvalidString),
            (target, Some(version_token)) => match Method::from_token(method_token) {
                None => Err(Error::InvalidMethod),
                Some(method) => match Version::from_token(version_token) {
                    None => Err(Error::InvalidHTTPVersion),
                    Some(version) => Ok((method, target, version)),
                },
            },
        },
    }
}

/// Reads the headers from the lines of a header block; the first line, the
/// request line, is passed over.
pub fn read_headers(lines: &Vec<&[u8]>) -> (headers: TextMap<String>)
    requires
        lines@.len() >= 1,
    ensures
        headers@ == headers_of(views(lines@).subrange(1, lines@.len() as int)),
{
    let ghost rest = views(lines@).subrange(1, lines@.len() as int);
    let mut headers: TextMap<String> = TextMap::new();
    let mut i: usize = 1;
    while i < lines.len()
        invariant
            1 <= i <= lines@.len(),
            rest == views(lines@).subrange(1, lines@.len() as int),
            headers@ == headers_of(rest.take(i - 1)),
        decreases lines@.len() - i,
    {
        proof {
            assert(rest.take(i as int).drop_last() =~= rest.take(i - 1));
            assert(rest.take(i as int).last() == lines@[i as int]@);
        }
        match Header::from_line(lines[i]) {
            Ok(header) => {
                headers = headers.insert(header.key, header.value);
            },
            Err(_) => {},
        }
        i += 1;
    }
    proof {
        assert(rest.take(lines@.len() - 1) =~= rest);
    }
    headers
}

/// Whether `pattern` occurs in `text`.
pub fn contains_text(text: &str, pattern: &str) -> (found: bool)
    ensures
        found == contains(text@, pattern@),
{
    let chars = chars_of(text);
    let wanted = chars_of(pattern);
    find_chars(chars.as_slice(), wanted.as_slice()).is_some()
}

/// The host that the value of a `Host` header names.
pub fn host_name(value: &str) -> (host: String)
    ensures
        host@ == host_of(value@),
{
    let chars = chars_of(value);
    let colon = chars_of(":");
    text_of(cut_chars(chars.as_slice(), colon.as_slice()).0)
}

/// The value stored under a name, if any.
pub fn header_text<'a>(headers: &'a TextMap<String>, name: &str) -> (found: Option<&'a String>)
    ensures
        lookup(headers@, name@) == match found {
            Some(value) => Some(value@),
            None => None,
        },
{
    headers.get(name)
}

/// Holds the declared length of a body against the number of its bytes that
/// have arrived.
pub fn check_length(headers: &TextMap<String>, available: usize) -> (result: Result<(), Error>)
    ensures
        result == length_check(headers@, available as nat),
{
    match header_text(headers, "content-length") {
        None => Ok(()),
        Some(value) => {
            let chars = chars_of(value.as_str());
            match parse_usize(chars.as_slice()) {
                None => Err(Error::InvalidContentLength),
                Some(declared) => if available < declared {
                    Err(Error::WaitingOnBody(Some(declared - available)))
                } else {
                    Ok(())
                },
            }
        },
    }
}

/// Decodes the form that a body holds, as its content type says.
pub fn read_form(headers: &TextMap<String>, body: &[u8]) -> (result: Result<
    (FormTypes, Vec<u8>),
    Error,
>)
    ensures
        match result {
            Ok(form) => form_of(headers@, body@) == Ok::<(FormView, Seq<u8>), Error>(
                (form.0@, form.1@),
            ),
            Err(error) => form_of(headers@, body@) == Err::<(FormView, Seq<u8>), Error>(error),
        },
{
    match header_text(headers, "content-type") {
        None => Ok((FormTypes::Absent, slice_to_vec(body))),
        Some(content_type) => {
            if contains_text(content_type.as_str(), "multipart/form-data;") {
                match get_boundary(content_type.as_str()) {
                    Err(_) => Err(Error::MissingMultiPartBoundary),
                    Ok(boundary) => match get_multiparts_entries_from_bytes(
                        body,
                        boundary.as_str().as_bytes(),
                    ) {
                        Some(entries) => Ok((FormTypes::MultiPart(entries), Vec::new())),
                        None => Err(Error::WaitingOnBody(None)),
                    },
                }
            } else if contains_text(content_type.as_str(), "application/x-www-form-urlencoded") {
                match decode_query(body) {
                    Ok(pairs) => Ok((FormTypes::XUrlEncoded(pairs), Vec::new())),
                    Err(_) => Err(Error::InvalidUrlEncodedForm),
                }
            } else {
                Ok((FormTypes::Absent, slice_to_vec(body)))
            }
        },
    }
}

/// What the first line of a request given as text holds.
pub struct TextRequestLine {
    pub method: Method,
    pub path: Seq<char>,
    pub query_string: Option<Seq<char>>,
    pub version: Version,
}

/// The request line that a line of text holds: its first three words, which
/// single spaces part, are the method, the target and the version. The path
/// is the target up to its first `?`, the query string what stands between
/// the first `?` and the second.
pub open spec fn text_request_line_of(line: Seq<char>) -> Result<TextRequestLine, Error> {
    match after(line, " "@) {
        None => Err(Error::InvalidString),
        Some(rest) => match after(rest, " "@) {
            None => Err(Error::InvalidString),
            Some(last) => match Method::of_word(before(line, " "@)) {
                None => Err(Error::InvalidMethod),
                Some(method) => match Version::of_word(before(last, " "@)) {
                    None => Err(Error::InvalidHTTPVersion),
                    Some(version) => Ok(
                        TextRequestLine {
                            method,
                            path: before(before(rest, " "@), "?"@),
                            query_string: match after(before(rest, " "@), "?"@) {
                                Some(query) => Some(before(query, "?"@)),
                                None => None,
                            },
                            version,
                        },
                    ),
                },
            },
        },
    }
}

/// The headers after a line of text.
pub open spec fn with_text_header(headers: Map<Seq<char>, Seq<char>>, line: Seq<char>) -> Map<
    Seq<char>,
    Seq<char>,
> {
    match header_of_text(line) {
        Some(header) => headers.insert(header.0, header.1),
        None => headers,
    }
}

/// The headers that a list of lines of text holds.
pub open spec fn text_headers_of(lines: Seq<Seq<char>>) -> Map<Seq<char>, Seq<char>>
    decreases lines.len(),
{
    if lines.len() == 0 {
        Map::empty()
    } else {
        with_text_header(text_headers_of(lines.drop_last()), lines.last())
    }
}

/// The texts of a list of lines.
pub open spec fn texts(lines: Seq<&str>) -> Seq<Seq<char>> {
    Seq::new(lines.len(), |i: int| lines[i]@)
}

/// The request that the lines of a header block other than none make: it
/// has no body and no form.
pub open spec fn request_of_head(lines: Seq<Seq<char>>) -> Result<RequestView, Error> {
    match text_request_line_of(lines[0]) {
        Err(error) => Err(error),
        Ok(line) => match lookup(
            text_headers_of(lines.subrange(1, lines.len() as int)),
            "host"@,
        ) {
            None => Err(Error::NoHostHeader),
            Some(host) => Ok(
                RequestView {
                    method: line.method,
                    path: line.path,
                    version: line.version,
                    host: host_of(host),
                    query_string: line.query_string,
                    headers: text_headers_of(lines.subrange(1, lines.len() as int)),
                    body: Seq::empty(),
                    form_data: FormView::Absent,
                    keep_alive: keep_alive_of(
                        line.version,
                        lookup(
                            text_headers_of(lines.subrange(1, lines.len() as int)),
                            "connection"@,
                        ),
                    ),
                },
            ),
        },
    }
}

/// The request that the lines of a header block make. No lines at all are,
/// like an empty buffer, an invalid string.
pub open spec fn request_of_lines(lines: Seq<Seq<char>>) -> Result<RequestView, Error> {
    if lines.len() == 0 {
        Err(Error::InvalidString)
    } else {
        request_of_head(lines)
    }
}

/// The status line of a response that all went well, for each version.
pub open spec fn ok_line(version: Version) -> Seq<char> {
    match version {
        Version::V0_9 => "200 OK\r\n"@,
        Version::V1_0 => "HTTP/1.0 200 OK\r\n"@,
        Version::V1_1 => "HTTP/1.1 200 OK\r\n"@,
        Version::V2_0 => "HTTP/2 200 OK\r\n"@,
    }
}

impl Request {
    /// The status line of a response that all went well.
    pub fn ok(&self) -> (line: String)
        ensures
            line@ == ok_line(self@.version),
    {
        match self.version {
            Version::V0_9 => String::from_str("200 OK\r\n"),
            Version::V1_0 => String::from_str("HTTP/1.0 200 OK\r\n"),
            Version::V1_1 => String::from_str("HTTP/1.1 200 OK\r\n"),
            Version::V2_0 => String::from_str("HTTP/2 200 OK\r\n"),
        }
    }

    /// The status line of a response with this code and reason.
    pub fn error(&self, code: u32, message: &str) -> (line: String)
        ensures
            line@ == self@.version.name() + " "@ + decimal(code as nat) + " "@ + message@
                + "\r\n"@,
    {
        let mut line = String::from_str(self.version.as_str());
        line.append(" ");
        line.append(decimal_text(code as usize).as_str());
        line.append(" ");
        line.append(message);
        line.append("\r\n");
        line
    }

    /// The method.
    pub fn method(&self) -> (method: &Method)
        ensures
            *method == self@.method,
    {
        &self.method
    }

    /// The path, as it stands in the request: nothing is decoded.
    pub fn path(&self) -> (path: &str)
        ensures
            path@ == self@.path,
    {
        self.path.as_str()
    }

    /// The version.
    pub fn version(&self) -> (version: Version)
        ensures
            version == self@.version,
    {
        self.version
    }

    /// The host that the request is for, without a port.
    pub fn hostname(&self) -> (host: &str)
        ensures
            host@ == self@.host,
    {
        self.host.as_str()
    }

    /// The body.
    pub fn body(&self) -> (body: &Vec<u8>)
        ensures
            body@ == self@.body,
    {
        &self.body
    }

    /// The headers, under their names in lower case.
    pub fn headers(&self) -> (headers: &TextMap<String>)
        ensures
            headers@ == self@.headers,
    {
        &self.headers
    }

    /// The value of the header with this name, in whatever case the name is
    /// written.
    pub fn get_header_value(&self, header_name: &str) -> (value: Option<String>)
        ensures
            optional_text(value) == lookup(self@.headers, lowercase(header_name@)),
    {
        Self::header_value(&self.headers, header_name)
    }

    /// The value that `headers` holds under this name put in lower case.
    pub fn header_value(headers: &TextMap<String>, header_name: &str) -> (value: Option<String>)
        ensures
            optional_text(value) == lookup(headers@, lowercase(header_name@)),
    {
        let lower = lowercase_of(header_name);
        match headers.get(lower.as_str()) {
            Some(value) => Some(value.clone()),
            None => None,
        }
    }

    /// Whether the connection stays open after the response.
    pub fn keep_alive(&self) -> (keep: bool)
        ensures
            keep == self@.keep_alive,
    {
        self.keep_alive
    }

    /// The query string, if the target has one.
    pub fn query_string(&self) -> (query: Option<&String>)
        ensures
            self@.query_string == match query {
                Some(text) => Some(text@),
                None => None,
            },
    {
        self.query_string.as_ref()
    }

    /// The form that the request carries.
    pub fn form_data(&self) -> (form: &FormTypes)
        ensures
            form@ == self@.form_data,
    {
        &self.form_data
    }

    /// Whether a connection stays open after the response: what the
    /// `Connection` header says, or else what the version implies.
    pub fn determine_keep_alive(version: Version, connection_header: Option<&String>) -> (keep:
        bool)
        ensures
            keep == keep_alive_of(
                version,
                match connection_header {
                    Some(value) => Some(value@),
                    None => None,
                },
            ),
    {
        match connection_header {
            Some(value) => lowercase_of(value.as_str()).as_str().eq("keep-alive"),
            None => match version {
                Version::V0_9 => false,
                Version::V1_0 => false,
                Version::V1_1 => true,
                Version::V2_0 => true,
            },
        }
    }

    /// Makes a request of a request line, the headers and the bytes that
    /// follow the blank line.
    pub fn assemble(
        method: Method,
        target: &[u8],
        version: Version,
        headers: TextMap<String>,
        body: &[u8],
    ) -> (result: Result<Request, Error>)
        ensures
            outcome(result) == request_of(
                RequestLine { method, target: target@, version },
                headers@,
                body@,
            ),
    {
        let host = match header_text(&headers, "host") {
            None => {
                return Err(Error::NoHostHeader);
            },
            Some(value) => host_name(value.as_str()),
        };
        match check_length(&headers, body.len()) {
            Err(error) => {
                return Err(error);
            },
            Ok(_) => {},
        }
        let form = match read_form(&headers, body) {
            Err(error) => {
                return Err(error);
            },
            Ok(form) => form,
        };
        proof {
            reveal_strlit("?");
        }
        let cut = cut_at_byte(target, ascii_byte("?"));
        let query_string = match cut.1 {
            Some(query) => Some(text_from_bytes(query)),
            None => None,
        };
        let keep_alive = Self::determine_keep_alive(version, header_text(&headers, "connection"));
        Ok(
            Request {
                method,
                path: text_from_bytes(cut.0),
                version,
                host,
                query_string,
                headers,
                body: form.1,
                form_data: form.0,
                keep_alive,
            },
        )
    }

    /// Parses the bytes received so far for one request.
    pub fn parse(buffer: &[u8]) -> (result: Result<Request, Error>)
        ensures
            outcome(result) == parsed(buffer@),
    {
        if buffer.len() == 0 {
            return Err(Error::InvalidString);
        }
        match cut_bytes(buffer, blank_line()) {
            (_, None) => Err(Error::MissingBlankLine),
            (head, Some(body)) => {
                let lines = split_bytes(head, line_break());
                assert(views(lines@)[0] == lines@[0]@);
                match read_request_line(lines[0]) {
                    Err(error) => Err(error),
                    Ok(line) => {
                        let headers = read_headers(&lines);
                        Self::assemble(line.0, line.1, line.2, headers, body)
                    },
                }
            },
        }
    }

    /// Makes a request of the lines of a header block given as text: the
    /// request line, then the header lines. Without any line there is no
    /// request line, which is an invalid string.
    pub fn from_lines(lines: &Vec<&str>) -> (result: Result<Request, Error>)
        ensures
            outcome(result) == request_of_lines(texts(lines@)),
    {
        if lines.len() == 0 {
            return Err(Error::InvalidString);
        }
        let space = chars_of(" ");
        let question = chars_of("?");
        let first = chars_of(lines[0]);
        assert(texts(lines@)[0] == first@);
        let (method_word, rest) = match cut_chars(first.as_slice(), space.as_slice()) {
            (_, None) => {
                return Err(Error::InvalidString);
            },
            (word, Some(rest)) => (word, rest),
        };
        let (target, last) = match cut_chars(rest, space.as_slice()) {
            (_, None) => {
                return Err(Error::InvalidString);
            },
            (target, Some(last)) => (target, last),
        };
        let method = match Method::from_word(text_of(method_word).as_str()) {
            None => {
                return Err(Error::InvalidMethod);
            },
            Some(method) => method,
        };
        let version_word = cut_chars(last, space.as_slice()).0;
        let version = match Version::from_word(text_of(version_word).as_str()) {
            None => {
                return Err(Error::InvalidHTTPVersion);
            },
            Some(version) => version,
        };
        let cut = cut_chars(target, question.as_slice());
        let query_string = match cut.1 {
            Some(query) => Some(text_of(cut_chars(query, question.as_slice()).0)),
            None => None,
        };
        let path = text_of(cut.0);
        let ghost rest_lines = texts(lines@).subrange(1, lines@.len() as int);
        let mut headers: TextMap<String> = TextMap::new();
        let mut i: usize = 1;
        while i < lines.len()
            invariant
                1 <= i <= lines@.len(),
                rest_lines == texts(lines@).subrange(1, lines@.len() as int),
                headers@ == text_headers_of(rest_lines.take(i - 1)),
            decreases lines@.len() - i,
        {
            proof {
                assert(rest_lines.take(i as int).drop_last() =~= rest_lines.take(i - 1));
                assert(rest_lines.take(i as int).last() == lines@[i as int]@);
            }
            match Header::from_text(lines[i]) {
                Ok(header) => {
                    headers = headers.insert(header.key, header.value);
                },
                Err(_) => {},
            }
            i += 1;
        }
        proof {
            assert(rest_lines.take(lines@.len() - 1) =~= rest_lines);
        }
        let host = match header_text(&headers, "host") {
            None => {
                return Err(Error::NoHostHeader);
            },
            Some(value) => host_name(value.as_str()),
        };
        let keep_alive = Self::determine_keep_alive(version, header_text(&headers, "connection"));
        Ok(
            Request {
                method,
                path,
                version,
                host,
                query_string,
                headers,
                body: Vec::new(),
                form_data: FormTypes::Absent,
                keep_alive,
            },
        )
    }

    /// Parses the bytes that a buffer holds.
    pub fn from_bytes(request_bytes: Bytes) -> (result: Result<Request, Error>)
        ensures
            outcome(result) == parsed(contents(request_bytes)),
    {
        Self::parse(bytes_of(&request_bytes))
    }

    /// Parses a request given as a string.
    pub fn from_string(request_str: String) -> (result: Result<Request, Error>)
        ensures
            outcome(result) == parsed(encode_utf8(request_str@)),
    {
        Self::parse(request_str.as_str().as_bytes())
    }
}

/// The headers of the header block of a buffer.
pub open spec fn head_headers(buffer: Seq<u8>) -> Map<Seq<char>, Seq<char>> {
    headers_of(head_lines(buffer).subrange(1, head_lines(buffer).len() as int))
}

/// Parsing is a function of the bytes: two results of parsing the same
/// buffer hold the same request, or the same error.
pub proof fn lemma_reparse_is_same(
    buffer: Seq<u8>,
    first: Result<Request, Error>,
    second: Result<Request, Error>,
)
    requires
        outcome(first) == parsed(buffer),
        outcome(second) == parsed(buffer),
    ensures
        outcome(first) == outcome(second),
{
}

/// Lines of which none holds a header of this name make headers that do not
/// hold the name.
pub proof fn lemma_headers_lack(lines: Seq<Seq<u8>>, name: Seq<char>)
    requires
        forall|i: int|
            0 <= i < lines.len() ==> (#[trigger] header_of_line(lines[i]) matches Some(header)
                ==> header.0 != name),
    ensures
        !headers_of(lines).contains_key(name),
    decreases lines.len(),
{
    if lines.len() > 0 {
        assert forall|i: int| 0 <= i < lines.drop_last().len() implies (#[trigger] header_of_line(
            lines.drop_last()[i],
        ) matches Some(header) ==> header.0 != name) by {
            assert(lines.drop_last()[i] == lines[i]);
        }
        lemma_headers_lack(lines.drop_last(), name);
        assert(header_of_line(lines[lines.len() - 1]) matches Some(header) ==> header.0 != name);
    }
}

/// A buffer with a blank line and a well-formed request line, none of whose
/// header lines holds a `Host` header, is refused for the want of one.
pub proof fn lemma_host_is_required(buffer: Seq<u8>)
    requires
        buffer.len() > 0,
        after(buffer, encode_utf8("\r\n\r\n"@)) is Some,
        request_line_of(head_lines(buffer)[0]) is Ok,
        forall|i: int|
            1 <= i < head_lines(buffer).len() ==> (#[trigger] header_of_line(head_lines(buffer)[i])
                matches Some(header) ==> header.0 != "host"@),
    ensures
        parsed(buffer) == Err::<RequestView, Error>(Error::NoHostHeader),
{
    let lines = head_lines(buffer);
    lemma_pieces_len(
        before(buffer, encode_utf8("\r\n\r\n"@)),
        encode_utf8("\r\n"@),
    );
    let rest = lines.subrange(1, lines.len() as int);
    assert forall|i: int| 0 <= i < rest.len() implies (#[trigger] header_of_line(rest[i]) matches Some(
        header,
    ) ==> header.0 != "host"@) by {
        assert(rest[i] == lines[i + 1]);
        assert(header_of_line(lines[i + 1]) matches Some(header) ==> header.0 != "host"@);
    }
    lemma_headers_lack(rest, "host"@);
}

/// The body of a buffer is exactly as long as its headers declare; where
/// they declare no length, there is no body.
pub open spec fn body_as_declared(buffer: Seq<u8>) -> bool {
    match after(buffer, encode_utf8("\r\n\r\n"@)) {
        None => false,
        Some(body) => match lookup(head_headers(buffer), "content-length"@) {
            Some(value) => number(value) == Some(body.len()),
            None => body.len() == 0,
        },
    }
}

/// However the bytes of a request arrive, every buffer short of the whole
/// asks for more: where a buffer holds a request whose body is as long as
/// declared, each of its proper, non-empty prefixes parses to
/// `MissingBlankLine` or to `WaitingOnBody` with the number of bytes that
/// the prefix lacks.
pub proof fn lemma_prefixes_wait(buffer: Seq<u8>, len: int)
    requires
        parsed(buffer) is Ok,
        body_as_declared(buffer),
        0 < len < buffer.len(),
    ensures
        parsed(buffer.subrange(0, len)) matches Err(error) && error.wants_more(),
        parsed(buffer.subrange(0, len)) == Err::<RequestView, Error>(Error::MissingBlankLine)
            || parsed(buffer.subrange(0, len)) == Err::<RequestView, Error>(
            Error::WaitingOnBody(Some((buffer.len() - len) as usize)),
        ),
{
    let blank = encode_utf8("\r\n\r\n"@);
    let prefix = buffer.subrange(0, len);
    lemma_index_of(buffer, blank);
    let at = index_of(buffer, blank).unwrap();
    if len < at + blank.len() {
        assert forall|j: int| !occurs_at(prefix, blank, j) by {
            if occurs_at(prefix, blank, j) {
                lemma_occurs_in_prefix(buffer, blank, len, j);
            }
        }
        lemma_absent_has_no_index(prefix, blank);
    } else {
        lemma_occurs_in_prefix(buffer, blank, len, at);
        assert forall|j: int| 0 <= j < at implies !occurs_at(prefix, blank, j) by {
            lemma_occurs_in_prefix(buffer, blank, len, j);
        }
        lemma_first_occurrence_is_index(prefix, blank, at);
        assert(before(prefix, blank) =~= before(buffer, blank));
        assert(head_lines(prefix) == head_lines(buffer));
        let body = after(buffer, blank).unwrap();
        let part = after(prefix, blank).unwrap();
        assert(part.len() == len - at - blank.len());
        assert(body.len() == buffer.len() - at - blank.len());
    }
}

/// Whether two optional texts are the same.
pub fn same_text(left: &Option<String>, right: &Option<String>) -> (same: bool)
    ensures
        same == (optional_text(*left) == optional_text(*right)),
{
    match (left, right) {
        (Some(left_text), Some(right_text)) => left_text.alike(right_text),
        (None, None) => true,
        _ => false,
    }
}

impl Alike for MultiPartFormEntry {
    fn alike(&self, other: &Self) -> (same: bool) {
        self.name.alike(&other.name) && same_text(&self.file_name, &other.file_name) && same_text(
            &self.content_type,
            &other.content_type,
        ) && same_bytes(self.value.as_slice(), other.value.as_slice())
    }
}

impl Alike for FormTypes {
    fn alike(&self, other: &Self) -> (same: bool) {
        match (self, other) {
            (FormTypes::Absent, FormTypes::Absent) => true,
            (FormTypes::MultiPart(left), FormTypes::MultiPart(right)) => left.alike(right),
            (FormTypes::XUrlEncoded(left), FormTypes::XUrlEncoded(right)) => left.alike(right),
            _ => false,
        }
    }
}

impl Alike for Request {
    fn alike(&self, other: &Self) -> (same: bool) {
        self.method == other.method && self.path.alike(&other.path) && self.version
            == other.version && self.host.alike(&other.host) && same_text(
            &self.query_string,
            &other.query_string,
        ) && self.headers.alike(&other.headers) && same_bytes(
            self.body.as_slice(),
            other.body.as_slice(),
        ) && self.form_data.alike(&other.form_data) && self.keep_alive == other.keep_alive
    }
}

impl PartialEq for Request {
    fn eq(&self, other: &Self) -> (same: bool) {
        self.alike(other)
    }
}

impl PartialEqSpecImpl for Request {
    open spec fn obeys_eq_spec() -> bool {
        true
    }

    open spec fn eq_spec(&self, other: &Self) -> bool {
        self@ == other@
    }
}

impl PartialEq for FormTypes {
    fn eq(&self, other: &Self) -> (same: bool) {
        self.alike(other)
    }
}

impl PartialEqSpecImpl for FormTypes {
    open spec fn obeys_eq_spec() -> bool {
        true
    }

    open spec fn eq_spec(&self, other: &Self) -> bool {
        self@ == other@
    }
}

} // verus!
