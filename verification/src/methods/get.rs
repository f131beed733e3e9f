//! Answers to `GET` requests for files, as text.

use crate::request::{ok_line, Request};
use crate::text::{decimal, decimal_text};
use vstd::prelude::*;
use vstd::string::StringExecFns;
use vstd::utf8::encode_utf8;

verus! {

/// The text of a response: the status line, the length of the body in
/// bytes, a blank line, and the body.
pub open spec fn response_text(body: Seq<char>, status: Seq<char>) -> Seq<char> {
    status + "Content-Length: "@ + decimal(encode_utf8(body).len()) + "\r\n\r\n"@ + body
}

/// The file that answers a path: the index page for the root, and else the
/// path itself.
pub open spec fn file_for(path: Seq<char>) -> Seq<char> {
    if path == "/"@ {
        "index.html"@
    } else {
        path
    }
}

/// Makes the text of a response from a body and a status line.
pub fn response(body: String, status: String) -> (text: String)
    ensures
        text@ == response_text(body@, status@),
{
    let mut text = status;
    text.append("Content-Length: ");
    text.append(decimal_text(body.as_str().as_bytes().len()).as_str());
    text.append("\r\n\r\n");
    text.append(body.as_str());
    text
}

/// The name of the file that answers a request.
pub fn file_name<'a>(r: &'a Request) -> (name: &'a str)
    ensures
        name@ == file_for(r@.path),
{
    if r.path().eq("/") {
        "index.html"
    } else {
        r.path()
    }
}

/// The answer to a request, given what reading its file gave, and the
/// page to send where the file could not be read. Either way the status
/// line says that all went well.
pub fn handled(r: &Request, contents: Option<String>, missing_page: String) -> (text: String)
    ensures
        text@ == response_text(
            match contents {
                Some(page) => page@,
                None => missing_page@,
            },
            ok_line(r@.version),
        ),
{
    match contents {
        Some(page) => response(page, r.ok()),
        None => response(missing_page, r.ok()),
    }
}

/// The answer to a request for one file, given what reading it gave: the
/// file, or a `404` with a short text.
pub fn loaded(r: &Request, contents: Option<String>) -> (text: String)
    ensures
        text@ == match contents {
            Some(page) => response_text(page@, ok_line(r@.version)),
            None => response_text(
                "file Not found"@,
                r@.version.name() + " "@ + decimal(404) + " "@ + "Not Found"@ + "\r\n"@,
            ),
        },
{
    match contents {
        Some(page) => response(page, r.ok()),
        None => response(String::from_str("file Not found"), r.error(404, "Not Found")),
    }
}

} // verus!
