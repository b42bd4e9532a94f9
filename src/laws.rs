//! Properties that relate the parser, the router and the response builder.
use vstd::prelude::*;
use crate::request::Request;
use crate::response::{byte_len, optional, response_of, ResponseView};
use crate::router::{encoding_for, route_of, truncated, ActionView};
use crate::text::{decimal, starts_with};

verus! {

/// Every `GET /` is answered `200 OK` with an empty body, and its wire form
/// holds no `Content-Length` line: only the status line, the optional
/// `Content-Encoding` line and the blank line.
pub proof fn lemma_root_answers_empty_ok(request: Request, directory: Option<Seq<char>>)
    requires
        request.method@ == "GET"@,
        request.target@ == "/"@,
    ensures
        route_of(&request, directory) matches ActionView::Respond(r) && r.status_line
            == "HTTP/1.1 200 OK"@ && r.content.len() == 0 && r.wire() == "HTTP/1.1 200 OK"@
            + optional(
            encoding_for(request.accept_encoding@).len() > 0,
            "\r\nContent-Encoding: "@ + encoding_for(request.accept_encoding@),
        ) + "\r\n\r\n"@,
{
    let r = response_of(200, seq![], encoding_for(request.accept_encoding@), seq![]);
    assert(r.wire() =~= "HTTP/1.1 200 OK"@ + optional(
        encoding_for(request.accept_encoding@).len() > 0,
        "\r\nContent-Encoding: "@ + encoding_for(request.accept_encoding@),
    ) + "\r\n\r\n"@);
}

/// `GET /echo/<s>` with `<s>` not empty is answered `200 OK` as `text/plain`
/// with body `<s>` exactly, and a `Content-Length` of the UTF-8 byte length of `<s>`.
pub proof fn lemma_echo_answers_text(request: Request, s: Seq<char>, directory: Option<Seq<char>>)
    requires
        request.method@ == "GET"@,
        request.target@ == "/echo/"@ + s,
        s.len() > 0,
    ensures
        route_of(&request, directory) matches ActionView::Respond(r) && r.status_line
            == "HTTP/1.1 200 OK"@ && r.content_type == "text/plain"@ && r.content == s
            && r.wire() == "HTTP/1.1 200 OK"@ + "\r\nContent-Type: text/plain"@ + optional(
            encoding_for(request.accept_encoding@).len() > 0,
            "\r\nContent-Encoding: "@ + encoding_for(request.accept_encoding@),
        ) + "\r\nContent-Length: "@ + decimal(byte_len(s)) + "\r\n\r\n"@ + s,
{
    reveal_strlit("/echo/");
    reveal_strlit("/");
    reveal_strlit("/user-agent");
    reveal_strlit("text/plain");
    reveal_strlit("\r\nContent-Type: ");
    reveal_strlit("\r\nContent-Type: text/plain");
    let t = request.target@;
    assert(t.take(6) =~= "/echo/"@);
    assert(t.skip(6) =~= s);
    assert(t.len() != 1);
    assert(t[1] != "/user-agent"@[1]);
    assert(starts_with(t, "/echo/"@));
    let r = response_of(200, "text/plain"@, encoding_for(request.accept_encoding@), s);
    assert("\r\nContent-Type: "@ + "text/plain"@ =~= "\r\nContent-Type: text/plain"@);
    assert(r.wire() =~= "HTTP/1.1 200 OK"@ + "\r\nContent-Type: text/plain"@ + optional(
        encoding_for(request.accept_encoding@).len() > 0,
        "\r\nContent-Encoding: "@ + encoding_for(request.accept_encoding@),
    ) + "\r\nContent-Length: "@ + decimal(byte_len(s)) + "\r\n\r\n"@ + s);
}

/// A `POST /files/<name>` whose body is longer than its `Content-Length`
/// writes exactly the first `Content-Length` characters of the body.
pub proof fn lemma_post_truncates_body(request: Request, directory: Seq<char>)
    requires
        request.method@ == "POST"@,
        starts_with(request.target@, "/files/"@),
        request.content@.len() > request.content_length,
    ensures
        route_of(&request, Some(directory)) matches ActionView::WriteFile { path, content }
            && path == directory + request.target@.skip(7) && content.len()
            == request.content_length && content == request.content@.take(
            request.content_length as int,
        ),
{
    reveal_strlit("GET");
    reveal_strlit("POST");
    assert(request.method@[0] != "GET"@[0]);
    assert(truncated(request.content@, request.content_length) == request.content@.take(
        request.content_length as int,
    ));
}

/// Building a response twice from the same status code, content type,
/// encoding and body gives the same wire form.
pub proof fn lemma_build_is_deterministic(
    status_code: u16,
    content_type: Seq<char>,
    content_encoding: Seq<char>,
    content: Seq<char>,
    first: ResponseView,
    second: ResponseView,
)
    requires
        first == response_of(status_code, content_type, content_encoding, content),
        second == response_of(status_code, content_type, content_encoding, content),
    ensures
        first.wire() == second.wire(),
{
}

} // verus!
