//! Responses and how they are written out.
//!
//! `rendered` gives, character by character, the text that stands for a
//! response; `Response::make_response` is proved to return exactly that text.
use vstd::prelude::*;
use vstd::string::StringExecFns;
use std::collections::HashMap;
use crate::text::{decimal, push_decimal};

verus! {

/// What kind of content a response carries.
#[derive(Debug, Clone, Copy, PartialEq, Eq, Structural)]
pub enum ContentType {
    Html,
    Json,
    Text,
}

impl ContentType {
    /// The value of the `Content-Type` header for this kind of content.
    pub open spec fn mime(self) -> Seq<char> {
        match self {
            ContentType::Html => "text/html; charset=utf-8"@,
            ContentType::Json => "application/json; charset=utf-8"@,
            ContentType::Text => "text/plain; charset=utf-8"@,
        }
    }

    /// The value of the `Content-Type` header for this kind of content.
    pub fn as_str(&self) -> (s: &'static str)
        ensures
            s@ == self.mime(),
    {
        match self {
            ContentType::Html => "text/html; charset=utf-8",
            ContentType::Json => "application/json; charset=utf-8",
            ContentType::Text => "text/plain; charset=utf-8",
        }
    }
}

/// What a response holds, as plain values.
pub struct ResponseView {
    pub status_code: u16,
    pub status: Seq<char>,
    pub content_type: ContentType,
    pub body: Seq<char>,
}

/// Number of bytes that `body` takes in UTF-8.
pub open spec fn byte_len(body: Seq<char>) -> nat {
    vstd::utf8::encode_utf8(body).len()
}

/// The text that stands for a response: the status line, the content type,
/// the length of the body in bytes, an empty line, and the body.
pub open spec fn rendered(r: ResponseView) -> Seq<char> {
    "HTTP/1.1 "@ + decimal(r.status_code as nat) + " "@ + r.status + "\r\nContent-Type: "@
        + r.content_type.mime() + "\r\nContent-Length: "@ + decimal(byte_len(r.body))
        + "\r\n\r\n"@ + r.body
}

/// The response that a context starts with: `200 OK`, plain text, no body.
pub open spec fn initial_response() -> ResponseView {
    ResponseView {
        status_code: 200,
        status: "OK"@,
        content_type: ContentType::Text,
        body: Seq::<char>::empty(),
    }
}

/// The error of the JSON encoder.
#[verifier::external_type_specification]
#[verifier::external_body]
pub struct ExJsonError(serde_json::Error);

/// Writes a map of strings as a JSON object.
///
/// Trusted: the body is `serde_json::to_string`. It always succeeds on such
/// a map: keys and values are strings, which the encoder writes as JSON
/// strings, and it writes into a vector of bytes, so neither of the two
/// ways to fail that it has (a key that is no string, a writer that fails)
/// can occur. Nothing is claimed of the text: the members come in the order
/// in which the map hands them out, which is not the same from one run to
/// the next.
#[verifier::external_body]
fn encode_json(data: &HashMap<&str, &str>) -> (r: Result<String, serde_json::Error>)
    ensures
        r is Ok,
{
    serde_json::to_string(data)
}

/// A response: a status, a kind of content, and a body.
#[derive(Debug)]
pub struct Response {
    status_code: u16,
    status: String,
    content_type: ContentType,
    body: String,
}

impl View for Response {
    type V = ResponseView;

    closed spec fn view(&self) -> ResponseView {
        ResponseView {
            status_code: self.status_code,
            status: self.status@,
            content_type: self.content_type,
            body: self.body@,
        }
    }
}

impl Default for Response {
    /// The response that a context starts with.
    fn default() -> (r: Self)
        ensures
            r@ == initial_response(),
    {
        Response {
            status_code: 200,
            status: String::from_str("OK"),
            content_type: ContentType::Text,
            body: String::new(),
        }
    }
}

impl Response {
    /// An HTML response.
    pub fn html(status_code: u16, status: String, html: &str) -> (r: Self)
        ensures
            r@ == (ResponseView {
                status_code,
                status: status@,
                content_type: ContentType::Html,
                body: html@,
            }),
    {
        Response {
            status_code,
            status,
            content_type: ContentType::Html,
            body: String::from_str(html),
        }
    }

    /// A plain-text response.
    pub fn text(status_code: u16, status: String, text: String) -> (r: Self)
        ensures
            r@ == (ResponseView {
                status_code,
                status: status@,
                content_type: ContentType::Text,
                body: text@,
            }),
    {
        Response { status_code, status, content_type: ContentType::Text, body: text }
    }

    /// A JSON response around a text that an encoder returned.
    pub fn from_encoded(status_code: u16, status: String, encoded: String) -> (r: Self)
        ensures
            r@ == (ResponseView {
                status_code,
                status: status@,
                content_type: ContentType::Json,
                body: encoded@,
            }),
    {
        Response { status_code, status, content_type: ContentType::Json, body: encoded }
    }

    /// A JSON response whose body is `data` written as a JSON object: what
    /// `from_encoded` makes of the text that the encoder returns for `data`.
    pub fn json(status_code: u16, status: String, data: HashMap<&str, &str>) -> (r: Self)
        ensures
            r@.status_code == status_code,
            r@.status == status@,
            r@.content_type == ContentType::Json,
    {
        match encode_json(&data) {
            Ok(text) => Self::from_encoded(status_code, status, text),
            Err(_) => vstd::pervasive::unreached(),
        }
    }

    /// The status code.
    pub fn status_code(&self) -> (code: u16)
        ensures
            code == self@.status_code,
    {
        self.status_code
    }

    /// The status text.
    pub fn status(&self) -> (s: &str)
        ensures
            s@ == self@.status,
    {
        self.status.as_str()
    }

    /// The kind of content.
    pub fn content_type(&self) -> (kind: ContentType)
        ensures
            kind == self@.content_type,
    {
        self.content_type
    }

    /// The body.
    pub fn body(&self) -> (s: &str)
        ensures
            s@ == self@.body,
    {
        self.body.as_str()
    }

    /// Writes the response out: the status line, the content type, the
    /// length of the body in bytes, an empty line, and the body.
    pub fn make_response(&self) -> (out: String)
        ensures
            out@ == rendered(self@),
    {
        let mut out: String = String::from_str("HTTP/1.1 ");
        push_decimal(&mut out, self.status_code as usize);
        out.append(" ");
        out.append(self.status.as_str());
        out.append("\r\nContent-Type: ");
        out.append(self.content_type.as_str());
        out.append("\r\nContent-Length: ");
        push_decimal(&mut out, self.body.as_str().as_bytes().len());
        out.append("\r\n\r\n");
        out.append(self.body.as_str());
        out
    }
}

} // verus!
