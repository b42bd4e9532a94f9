//! Building an HTTP response and writing it out in wire format.
use vstd::prelude::*;
use vstd::utf8::encode_utf8;
use crate::text::{decimal, push_decimal};

verus! {

/// A response: its status line, the optional `Content-Type` and
/// `Content-Encoding` values (empty when absent) and its body.
pub struct Response {
    pub status_line: String,
    pub content_encoding: String,
    pub content_type: String,
    pub content: String,
}

/// The status line for a status code: `200` and `201` have their own, any
/// other code reads as `404`.
pub open spec fn status_line_of(status_code: u16) -> Seq<char> {
    if status_code == 200 {
        "HTTP/1.1 200 OK"@
    } else if status_code == 201 {
        "HTTP/1.1 201 Created"@
    } else {
        "HTTP/1.1 404 Not Found"@
    }
}

/// The number of bytes in the UTF-8 encoding of `s`.
pub open spec fn byte_len(s: Seq<char>) -> nat {
    encode_utf8(s).len()
}

/// `line` when `present`, else nothing.
pub open spec fn optional(present: bool, line: Seq<char>) -> Seq<char> {
    if present {
        line
    } else {
        seq![]
    }
}

/// The wire form of a response: the status line, then a `Content-Type`, a
/// `Content-Encoding` and a `Content-Length` line each only when its value
/// (for the last, the body) is not empty, then a blank line and the body.
pub open spec fn wire(
    status_line: Seq<char>,
    content_type: Seq<char>,
    content_encoding: Seq<char>,
    content: Seq<char>,
) -> Seq<char> {
    status_line
        + optional(content_type.len() > 0, "\r\nContent-Type: "@ + content_type)
        + optional(content_encoding.len() > 0, "\r\nContent-Encoding: "@ + content_encoding)
        + optional(content.len() > 0, "\r\nContent-Length: "@ + decimal(byte_len(content)))
        + "\r\n\r\n"@ + content
}

/// What a response holds, as character sequences.
pub struct ResponseView {
    pub status_line: Seq<char>,
    pub content_type: Seq<char>,
    pub content_encoding: Seq<char>,
    pub content: Seq<char>,
}

impl View for Response {
    type V = ResponseView;

    open spec fn view(&self) -> ResponseView {
        ResponseView {
            status_line: self.status_line@,
            content_type: self.content_type@,
            content_encoding: self.content_encoding@,
            content: self.content@,
        }
    }
}

/// The response that `Response::new` builds from these values.
pub open spec fn response_of(
    status_code: u16,
    content_type: Seq<char>,
    content_encoding: Seq<char>,
    content: Seq<char>,
) -> ResponseView {
    ResponseView { status_line: status_line_of(status_code), content_type, content_encoding, content }
}

/// The `404 Not Found` response with no headers and an empty body.
pub open spec fn not_found() -> ResponseView {
    response_of(404, seq![], seq![], seq![])
}

impl ResponseView {
    /// The wire form of this response.
    pub open spec fn wire(self) -> Seq<char> {
        wire(self.status_line, self.content_type, self.content_encoding, self.content)
    }
}

impl Response {
    /// A `404 Not Found` response with no headers and an empty body.
    pub fn new_not_found() -> (r: Response)
        ensures
            r@ == not_found(),
    {
        Response {
            status_line: String::from_str("HTTP/1.1 404 Not Found"),
            content_encoding: String::new(),
            content_type: String::new(),
            content: String::new(),
        }
    }

    /// A response with the status line for `status_code` and the given values.
    pub fn new(
        status_code: u16,
        content_type: String,
        content_encoding: String,
        content: String,
    ) -> (r: Response)
        ensures
            r@ == response_of(status_code, content_type@, content_encoding@, content@),
    {
        let status_line = if status_code == 200 {
            String::from_str("HTTP/1.1 200 OK")
        } else if status_code == 201 {
            String::from_str("HTTP/1.1 201 Created")
        } else {
            String::from_str("HTTP/1.1 404 Not Found")
        };
        Response { status_line, content_encoding, content_type, content }
    }

    /// This response in wire format.
    pub fn to_string(&self) -> (r: String)
        ensures
            r@ == self@.wire(),
    {
        let mut out = self.status_line.clone();
        if !self.content_type.as_str().is_empty() {
            out.append("\r\nContent-Type: ");
            out.append(self.content_type.as_str());
        }
        if !self.content_encoding.as_str().is_empty() {
            out.append("\r\nContent-Encoding: ");
            out.append(self.content_encoding.as_str());
        }
        if !self.content.as_str().is_empty() {
            let n: usize = self.content.as_str().as_bytes().len();
            out.append("\r\nContent-Length: ");
            push_decimal(&mut out, n);
        }
        out.append("\r\n\r\n");
        out.append(self.content.as_str());
        assert(out@ =~= self@.wire());
        out
    }
}

} // verus!
