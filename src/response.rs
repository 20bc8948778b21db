//! The response writer: a status line, `Content-Type` and `Content-Length`
//! headers, and the body, all as the bytes that go on the wire.

use vstd::prelude::*;
use vstd::utf8::encode_utf8;
use crate::request::HttpError;
use crate::text::{decimal, push_decimal};

verus! {

/// A lower-case hex digit.
pub open spec fn hex_digit(n: u8) -> char {
    if n < 10 {
        (n + 48) as u8 as char
    } else {
        (n + 87) as u8 as char
    }
}

/// How `serde_json` writes one character inside a string: a quote and a
/// backslash escaped by a backslash; backspace, tab, line feed, form feed
/// and carriage return as `\b`, `\t`, `\n`, `\f`, `\r`; any other control
/// below U+0020 as `\u00` and two lower-case hex digits; all else as it is.
pub open spec fn json_escape_char(c: char) -> Seq<char> {
    if c == '"' {
        seq!['\\', '"']
    } else if c == '\\' {
        seq!['\\', '\\']
    } else if c == '\x08' {
        seq!['\\', 'b']
    } else if c == '\t' {
        seq!['\\', 't']
    } else if c == '\n' {
        seq!['\\', 'n']
    } else if c == '\x0c' {
        seq!['\\', 'f']
    } else if c == '\r' {
        seq!['\\', 'r']
    } else if (c as u32) < 0x20 {
        seq!['\\', 'u', '0', '0', hex_digit((c as u32 / 16) as u8), hex_digit((c as u32 % 16) as u8)]
    } else {
        seq![c]
    }
}

/// The characters of a string, each escaped as `serde_json` writes it.
pub open spec fn json_escaped(s: Seq<char>) -> Seq<char>
    decreases s.len(),
{
    if s.len() == 0 {
        seq![]
    } else {
        json_escaped(s.drop_last()) + json_escape_char(s.last())
    }
}

/// What `serde_json` writes for a string: the escaped text in quotes.
pub open spec fn json_quoted(s: Seq<char>) -> Seq<char> {
    seq!['"'] + json_escaped(s) + seq!['"']
}

/// The MIME type that `mime_guess` gives a path, by its extension.
pub uninterp spec fn mime_of(path: Seq<char>) -> Seq<char>;

/// Relies on `serde_json::to_string` on a `str`: the text in quotes, each
/// character escaped by serde_json's table as `json_escape_char` states it.
/// Writing a `str` into memory cannot fail.
#[verifier::external_body]
pub(crate) fn json_quote(s: &str) -> (r: String)
    ensures
        r@ == json_quoted(s@),
{
    serde_json::to_string(s).unwrap_or_default()
}

/// Relies on `mime_guess::from_path` and `MimeGuess::first_or_octet_stream`:
/// the MIME type of a path by its extension, `application/octet-stream`
/// where none is known.
#[verifier::external_body]
fn mime_for(path: &str) -> (r: String)
    ensures
        r@ == mime_of(path@),
{
    mime_guess::from_path(path).first_or_octet_stream().to_string()
}

/// Appends the UTF-8 bytes of a text.
pub fn push_text(out: &mut Vec<u8>, s: &str)
    ensures
        final(out)@ == old(out)@ + encode_utf8(s@),
{
    let b = s.as_bytes();
    out.extend_from_slice(b);
}

/// A whole response: status line, content type, length and body.
pub open spec fn response_bytes(status: Seq<char>, content_type: Seq<char>, body: Seq<u8>) -> Seq<u8> {
    encode_utf8("HTTP/1.1 "@) + encode_utf8(status) + encode_utf8("\r\nContent-Type: "@)
        + encode_utf8(content_type) + encode_utf8("\r\nContent-Length: "@) + decimal(body.len())
        + encode_utf8("\r\n\r\n"@) + body
}

/// Writes a response with the given status (such as `200 OK`), content
/// type and body.
pub fn response(status: &str, content_type: &str, body: &[u8]) -> (r: Vec<u8>)
    ensures
        r@ == response_bytes(status@, content_type@, body@),
{
    let mut r: Vec<u8> = Vec::new();
    push_text(&mut r, "HTTP/1.1 ");
    push_text(&mut r, status);
    push_text(&mut r, "\r\nContent-Type: ");
    push_text(&mut r, content_type);
    push_text(&mut r, "\r\nContent-Length: ");
    push_decimal(&mut r, body.len());
    push_text(&mut r, "\r\n\r\n");
    r.extend_from_slice(body);
    r
}

/// The numeric status of an error.
pub open spec fn code_of(e: HttpError) -> nat {
    match e {
        HttpError::BadRequest => 400,
        HttpError::Forbidden => 403,
        HttpError::NotFound => 404,
        HttpError::LengthRequired => 411,
        HttpError::InternalServerError => 500,
    }
}

/// The status text of an error, as its status line shows it.
pub open spec fn status_of(e: HttpError) -> Seq<char> {
    match e {
        HttpError::BadRequest => "400 Bad Request"@,
        HttpError::Forbidden => "403 Forbidden"@,
        HttpError::NotFound => "404 Not Found"@,
        HttpError::LengthRequired => "411 Length Required"@,
        HttpError::InternalServerError => "500 Internal Server Error"@,
    }
}

impl HttpError {
    /// The numeric status.
    pub fn code(&self) -> (r: usize)
        ensures
            r == code_of(*self),
    {
        match self {
            HttpError::BadRequest => 400,
            HttpError::Forbidden => 403,
            HttpError::NotFound => 404,
            HttpError::LengthRequired => 411,
            HttpError::InternalServerError => 500,
        }
    }

    /// The status text, code first.
    pub fn status(&self) -> (r: &'static str)
        ensures
            r@ == status_of(*self),
    {
        match self {
            HttpError::BadRequest => "400 Bad Request",
            HttpError::Forbidden => "403 Forbidden",
            HttpError::NotFound => "404 Not Found",
            HttpError::LengthRequired => "411 Length Required",
            HttpError::InternalServerError => "500 Internal Server Error",
        }
    }
}

/// The body of an error response: the status code, its text, and a text
/// for the one who runs the server.
pub struct JsonError {
    pub message: &'static str,
    pub code: usize,
    pub internal: String,
}

/// The JSON envelope of an error:
/// `{"error":{"code":N,"message":"...","internalMessage":"..."}}`.
pub open spec fn error_envelope(code: nat, message: Seq<char>, internal: Seq<char>) -> Seq<u8> {
    encode_utf8("{\"error\":{\"code\":"@) + decimal(code) + encode_utf8(",\"message\":"@)
        + encode_utf8(json_quoted(message)) + encode_utf8(",\"internalMessage\":"@)
        + encode_utf8(json_quoted(internal)) + encode_utf8("}}"@)
}

impl JsonError {
    /// The error body for `error`.
    pub fn new(error: HttpError, internal: String) -> (r: JsonError)
        ensures
            r.message@ == status_of(error),
            r.code == code_of(error),
            r.internal == internal,
    {
        JsonError { message: error.status(), code: error.code(), internal }
    }

    /// The JSON text of the error body.
    pub fn to_json(&self) -> (r: Vec<u8>)
        ensures
            r@ == error_envelope(self.code as nat, self.message@, self.internal@),
    {
        let mut r: Vec<u8> = Vec::new();
        push_text(&mut r, "{\"error\":{\"code\":");
        push_decimal(&mut r, self.code);
        push_text(&mut r, ",\"message\":");
        let m = json_quote(self.message);
        push_text(&mut r, m.as_str());
        push_text(&mut r, ",\"internalMessage\":");
        let i = json_quote(self.internal.as_str());
        push_text(&mut r, i.as_str());
        push_text(&mut r, "}}");
        r
    }
}

/// The response for an error: its status line and its JSON envelope.
pub open spec fn error_response(e: HttpError, internal: Seq<char>) -> Seq<u8> {
    response_bytes(status_of(e), "application/json"@, error_envelope(code_of(e), status_of(e), internal))
}

/// Writes the response for an error, with `internal` as its internal
/// message.
pub fn serve_error_json(error: HttpError, internal: &str) -> (r: Vec<u8>)
    ensures
        r@ == error_response(error, internal@),
{
    let body = JsonError::new(error, internal.to_owned());
    let json = body.to_json();
    response(body.message, "application/json", json.as_slice())
}

/// A `200 OK` response with a JSON body.
pub fn serve_200_json(body: &[u8]) -> (r: Vec<u8>)
    ensures
        r@ == response_bytes("200 OK"@, "application/json"@, body@),
{
    response("200 OK", "application/json", body)
}

pub const NOT_FOUND_PAGE_HEAD: &'static str = "<!DOCTYPE html>\n<html lang=\"en\">\n  <head>\n    <meta charset=\"utf-8\">\n    <title>Hello!</title>\n  </head>\n  <body>\n    <h1>Oops!</h1>\n    <p>Sorry, I don't know what you're asking for.</p>\n    <div>\n    <p style=\"background-color: beige; padding: 4px;\">\n    ";

pub const NOT_FOUND_PAGE_TAIL: &'static str = "\n    </p>\n    </div>\n  </body>\n</html>\n";

/// The 404 page around a message, which stands in it as it is.
pub open spec fn not_found_page(message: Seq<char>) -> Seq<u8> {
    encode_utf8(NOT_FOUND_PAGE_HEAD@) + encode_utf8(message) + encode_utf8(NOT_FOUND_PAGE_TAIL@)
}

/// A `404 Not Found` HTML page that shows `message`.
pub fn serve_404_html(message: &str) -> (r: Vec<u8>)
    ensures
        r@ == response_bytes("404 Not Found"@, "text/html; charset=utf-8"@, not_found_page(message@)),
{
    let mut page: Vec<u8> = Vec::new();
    push_text(&mut page, NOT_FOUND_PAGE_HEAD);
    push_text(&mut page, message);
    push_text(&mut page, NOT_FOUND_PAGE_TAIL);
    response("404 Not Found", "text/html; charset=utf-8", page.as_slice())
}

/// A `200 OK` response that carries a file read from `path`, typed by the
/// path's extension.
pub fn serve_file(path: &str, data: &[u8]) -> (r: Vec<u8>)
    ensures
        r@ == response_bytes("200 OK"@, mime_of(path@), data@),
{
    let mime = mime_for(path);
    response("200 OK", mime.as_str(), data)
}

} // verus!
