//! Deciding what to do with a parsed request: answer it, read a file, or
//! write one. Reading and writing files is left to the caller, who reports
//! back through `file_found_head` and `write_outcome`.
use vstd::prelude::*;
use crate::request::Request;
use crate::response::{not_found, response_of, Response, ResponseView};
use crate::text::{chars_of, decimal, has_prefix, push_decimal, starts_with, substring};

verus! {

/// What the server does next for one request.
pub enum Action {
    /// Send this response.
    Respond(Response),
    /// Read the file of this name under the serve directory, and send it, or
    /// `404 Not Found` when it cannot be read.
    ReadFile { name: String },
    /// Write `content` to the file at `path`, then send `write_outcome`.
    WriteFile { path: String, content: String },
}

/// What an action holds, as character sequences.
pub enum ActionView {
    Respond(ResponseView),
    ReadFile { name: Seq<char> },
    WriteFile { path: Seq<char>, content: Seq<char> },
}

impl View for Action {
    type V = ActionView;

    open spec fn view(&self) -> ActionView {
        match self {
            Action::Respond(r) => ActionView::Respond(r@),
            Action::ReadFile { name } => ActionView::ReadFile { name: name@ },
            Action::WriteFile { path, content } => ActionView::WriteFile {
                path: path@,
                content: content@,
            },
        }
    }
}

/// The `Content-Encoding` to send back: `gzip` when the client's
/// `Accept-Encoding` is exactly `gzip`, else none.
pub open spec fn encoding_for(accept_encoding: Seq<char>) -> Seq<char> {
    if accept_encoding == "gzip"@ {
        "gzip"@
    } else {
        seq![]
    }
}

/// The first `length` characters of `content`, or all of it when it is shorter.
pub open spec fn truncated(content: Seq<char>, length: u32) -> Seq<char> {
    if length < content.len() {
        content.take(length as int)
    } else {
        content
    }
}

/// The action for a request with these fields, given the serve directory, if any.
pub open spec fn route_spec(
    method: Seq<char>,
    target: Seq<char>,
    user_agent: Seq<char>,
    accept_encoding: Seq<char>,
    content: Seq<char>,
    content_length: u32,
    directory: Option<Seq<char>>,
) -> ActionView {
    if method == "GET"@ {
        if target == "/"@ {
            ActionView::Respond(response_of(200, seq![], encoding_for(accept_encoding), seq![]))
        } else if target == "/user-agent"@ {
            ActionView::Respond(response_of(200, "text/plain"@, seq![], user_agent))
        } else if starts_with(target, "/echo/"@) {
            ActionView::Respond(
                response_of(200, "text/plain"@, encoding_for(accept_encoding), target.skip(6)),
            )
        } else if starts_with(target, "/files/"@) && directory is Some {
            ActionView::ReadFile { name: target.skip(7) }
        } else {
            ActionView::Respond(not_found())
        }
    } else if method == "POST"@ && starts_with(target, "/files/"@) && directory is Some {
        ActionView::WriteFile {
            path: directory.unwrap() + target.skip(7),
            content: truncated(content, content_length),
        }
    } else {
        ActionView::Respond(not_found())
    }
}

/// The action for `request`.
pub open spec fn route_of(request: &Request, directory: Option<Seq<char>>) -> ActionView {
    route_spec(
        request.method@,
        request.target@,
        request.user_agent@,
        request.accept_encoding@,
        request.content@,
        request.content_length,
        directory,
    )
}

/// The directory's characters, if there is one.
pub open spec fn directory_view(directory: &Option<String>) -> Option<Seq<char>> {
    match directory {
        Some(d) => Some(d@),
        None => None,
    }
}

/// The first `length` characters of `content`; all of it when it has no more.
/// Cuts at a character, never inside one.
pub fn truncate_content(content: String, length: u32) -> (r: String)
    ensures
        r@ == truncated(content@, length),
{
    let n: usize = content.as_str().unicode_len();
    let l: usize = length as usize;
    if l < n {
        String::from_str(content.as_str().substring_char(0, l))
    } else {
        assert(content@.subrange(0, n as int) =~= content@);
        content
    }
}

/// The `Content-Encoding` to answer with for a client's `Accept-Encoding`.
pub fn negotiate_encoding(accept_encoding: &String) -> (r: String)
    ensures
        r@ == encoding_for(accept_encoding@),
{
    let gzip = String::from_str("gzip");
    if *accept_encoding == gzip {
        gzip
    } else {
        String::new()
    }
}

/// Decides what to do with `request`, given the serve directory, if any.
/// `GET /` and `GET /echo/<text>` answer `200`, the latter with `<text>` as
/// body; `GET /user-agent` answers with the client's `User-Agent`;
/// `GET /files/<name>` reads a file and `POST /files/<name>` writes the body,
/// cut to `Content-Length` characters, to the directory's path followed by
/// `<name>`. Everything else, and the file routes without a directory,
/// answer `404 Not Found`.
pub fn route(request: &Request, directory: &Option<String>) -> (r: Action)
    ensures
        r@ == route_of(request, directory_view(directory)),
{
    let t = chars_of(request.target.as_str());
    let echo = chars_of("/echo/");
    let files = chars_of("/files/");
    proof {
        reveal_strlit("/echo/");
        reveal_strlit("/files/");
    }
    let n: usize = t.len();
    if request.method == String::from_str("GET") {
        if request.target == String::from_str("/") {
            Action::Respond(
                Response::new(
                    200,
                    String::new(),
                    negotiate_encoding(&request.accept_encoding),
                    String::new(),
                ),
            )
        } else if request.target == String::from_str("/user-agent") {
            Action::Respond(
                Response::new(
                    200,
                    String::from_str("text/plain"),
                    String::new(),
                    request.user_agent.clone(),
                ),
            )
        } else if has_prefix(&t, &echo) {
            let text = substring(request.target.as_str(), 6, n);
            assert(text@ =~= request.target@.skip(6));
            Action::Respond(
                Response::new(
                    200,
                    String::from_str("text/plain"),
                    negotiate_encoding(&request.accept_encoding),
                    text,
                ),
            )
        } else if has_prefix(&t, &files) && directory.is_some() {
            let name = substring(request.target.as_str(), 7, n);
            assert(name@ =~= request.target@.skip(7));
            Action::ReadFile { name }
        } else {
            Action::Respond(Response::new_not_found())
        }
    } else if request.method == String::from_str("POST") && has_prefix(&t, &files) {
        match directory {
            Some(d) => {
                let name = substring(request.target.as_str(), 7, n);
                let mut path = d.clone();
                path.append(name.as_str());
                assert(path@ =~= d@ + request.target@.skip(7));
                let content = truncate_content(request.content.clone(), request.content_length);
                Action::WriteFile { path, content }
            },
            None => Action::Respond(Response::new_not_found()),
        }
    } else {
        Action::Respond(Response::new_not_found())
    }
}

/// The head of a `200 OK` response that carries a file of `len` bytes; the
/// file's bytes follow it as the body.
pub open spec fn file_head(len: nat) -> Seq<char> {
    "HTTP/1.1 200 OK\r\nContent-Type: application/octet-stream\r\nContent-Length: "@
        + decimal(len) + "\r\n\r\n"@
}

/// The head to send before a file of `len` bytes that was read for `ReadFile`.
pub fn file_found_head(len: usize) -> (r: String)
    ensures
        r@ == file_head(len as nat),
{
    let mut out = String::from_str(
        "HTTP/1.1 200 OK\r\nContent-Type: application/octet-stream\r\nContent-Length: ",
    );
    push_decimal(&mut out, len);
    out.append("\r\n\r\n");
    out
}

/// The answer once `WriteFile` was carried out: `201 Created` when the file
/// was written, else `404 Not Found`; no headers and no body either way.
pub fn write_outcome(written: bool) -> (r: Response)
    ensures
        r@ == (if written {
            response_of(201, seq![], seq![], seq![])
        } else {
            not_found()
        }),
{
    if written {
        Response::new(201, String::new(), String::new(), String::new())
    } else {
        Response::new_not_found()
    }
}

} // verus!
