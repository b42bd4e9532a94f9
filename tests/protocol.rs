use http_server::request::{get_from_map, parse_first_line, parse_headers, Request};
use http_server::response::Response;
use http_server::router::{
    file_found_head, negotiate_encoding, route, truncate_content, write_outcome, Action,
};

fn parse(raw: &str) -> Request {
    Request::from_string(raw)
}

fn respond(action: Action) -> String {
    match action {
        Action::Respond(r) => r.to_string(),
        _ => panic!("expected a response"),
    }
}

#[test]
fn parses_request_line_and_headers() {
    let r = parse(
        "GET /echo/abc HTTP/1.1\r\nHost: localhost:4221\r\nUser-Agent: foo/1.0\r\nAccept: */*\r\n\r\n",
    );
    assert_eq!(r.method, "GET");
    assert_eq!(r.target, "/echo/abc");
    assert_eq!(r.version, "HTTP/1.1");
    assert_eq!(r.user_agent, "foo/1.0");
    assert_eq!(r.accept, "*/*");
    assert_eq!(r.content_type, "");
    assert_eq!(r.accept_encoding, "");
    assert_eq!(r.content_length, 0);
    assert_eq!(r.content, "");
}

#[test]
fn parses_body_and_content_length() {
    let r = parse(
        "POST /files/a.txt HTTP/1.1\r\nContent-Type: application/octet-stream\r\nContent-Length: 5\r\n\r\nhello",
    );
    assert_eq!(r.method, "POST");
    assert_eq!(r.content_type, "application/octet-stream");
    assert_eq!(r.content_length, 5);
    assert_eq!(r.content, "hello");
}

#[test]
fn content_length_defaults_to_zero() {
    assert_eq!(parse("GET / HTTP/1.1\r\nContent-Length: abc\r\n\r\n").content_length, 0);
    assert_eq!(parse("GET / HTTP/1.1\r\nContent-Length: 4294967296\r\n\r\n").content_length, 0);
    assert_eq!(parse("GET / HTTP/1.1\r\nContent-Length: -1\r\n\r\n").content_length, 0);
    assert_eq!(parse("GET / HTTP/1.1\r\nContent-Length: \r\n\r\n").content_length, 0);
}

#[test]
fn content_length_reads_unsigned_numbers() {
    assert_eq!(parse("GET / HTTP/1.1\r\nContent-Length: 4294967295\r\n\r\n").content_length, 4294967295);
    assert_eq!(parse("GET / HTTP/1.1\r\nContent-Length: +7\r\n\r\n").content_length, 7);
    assert_eq!(parse("GET / HTTP/1.1\r\nContent-Length:  12  \r\n\r\n").content_length, 12);
}

#[test]
fn malformed_requests_are_refused() {
    assert!(Request::try_from_string("GET / HTTP/1.1\r\nHost: x\r\n").is_none());
    assert!(Request::try_from_string("GET /\r\n\r\n").is_none());
    assert!(Request::try_from_string("").is_none());
    assert!(Request::try_from_string("GET / HTTP/1.1\r\n\r\n").is_some());
}

#[test]
fn first_line_takes_three_words() {
    let (m, t, v) = parse_first_line("  GET\t/x   HTTP/1.1 extra").unwrap();
    assert_eq!((m.as_str(), t.as_str(), v.as_str()), ("GET", "/x", "HTTP/1.1"));
    assert!(parse_first_line("GET /x").is_none());
}

#[test]
fn header_lines_are_split_and_trimmed() {
    let h = parse_headers("Host:  a b \r\nNoValue\r\nX: 1: 2");
    let pairs: Vec<(&str, &str)> = h.iter().map(|(k, v)| (k.as_str(), v.as_str())).collect();
    assert_eq!(pairs, vec![("Host", "a b"), ("NoValue", ""), ("X", "1: 2")]);
}

#[test]
fn later_header_wins_and_names_are_exact() {
    let h = parse_headers("User-Agent: a\r\nuser-agent: b\r\nUser-Agent: c");
    assert_eq!(get_from_map("User-Agent", &h), "c");
    assert_eq!(get_from_map("user-agent", &h), "b");
    assert_eq!(get_from_map("Accept", &h), "");
}

#[test]
fn body_lines_are_read_as_headers_too() {
    let r = parse("POST /files/x HTTP/1.1\r\nContent-Length: 2\r\n\r\nUser-Agent: z");
    assert_eq!(r.user_agent, "z");
    assert_eq!(r.content, "User-Agent: z");
}

#[test]
fn response_wire_format() {
    let r = Response::new(200, "text/plain".to_string(), "gzip".to_string(), "abc".to_string());
    assert_eq!(
        r.to_string(),
        "HTTP/1.1 200 OK\r\nContent-Type: text/plain\r\nContent-Encoding: gzip\r\nContent-Length: 3\r\n\r\nabc"
    );
    let created = Response::new(201, String::new(), String::new(), String::new());
    assert_eq!(created.to_string(), "HTTP/1.1 201 Created\r\n\r\n");
}

#[test]
fn other_status_codes_read_as_not_found() {
    let r = Response::new(500, String::new(), String::new(), String::new());
    assert_eq!(r.to_string(), "HTTP/1.1 404 Not Found\r\n\r\n");
    assert_eq!(Response::new_not_found().to_string(), "HTTP/1.1 404 Not Found\r\n\r\n");
}

#[test]
fn content_length_counts_bytes() {
    let r = Response::new(200, String::new(), String::new(), "héllo€".to_string());
    assert_eq!(r.to_string(), "HTTP/1.1 200 OK\r\nContent-Length: 9\r\n\r\nhéllo€");
    let long = "x".repeat(1234);
    let r = Response::new(200, String::new(), String::new(), long.clone());
    assert_eq!(r.to_string(), format!("HTTP/1.1 200 OK\r\nContent-Length: 1234\r\n\r\n{}", long));
}

#[test]
fn building_twice_gives_the_same_bytes() {
    let a = Response::new(200, "text/plain".to_string(), String::new(), "hi".to_string());
    let b = Response::new(200, "text/plain".to_string(), String::new(), "hi".to_string());
    assert_eq!(a.to_string().into_bytes(), b.to_string().into_bytes());
}

#[test]
fn root_is_empty_ok() {
    let r = parse("GET / HTTP/1.1\r\nHost: x\r\n\r\n");
    let wire = respond(route(&r, &None));
    assert_eq!(wire, "HTTP/1.1 200 OK\r\n\r\n");
    assert!(!wire.contains("Content-Length"));
    let r = parse("GET / HTTP/1.1\r\nAccept-Encoding: gzip\r\n\r\n");
    assert_eq!(respond(route(&r, &None)), "HTTP/1.1 200 OK\r\nContent-Encoding: gzip\r\n\r\n");
}

#[test]
fn echo_returns_text() {
    let r = parse("GET /echo/héllo HTTP/1.1\r\n\r\n");
    assert_eq!(
        respond(route(&r, &None)),
        "HTTP/1.1 200 OK\r\nContent-Type: text/plain\r\nContent-Length: 6\r\n\r\nhéllo"
    );
}

#[test]
fn echo_negotiates_gzip_only_exactly() {
    let gz = parse("GET /echo/abc HTTP/1.1\r\nAccept-Encoding: gzip\r\n\r\n");
    assert_eq!(
        respond(route(&gz, &None)),
        "HTTP/1.1 200 OK\r\nContent-Type: text/plain\r\nContent-Encoding: gzip\r\nContent-Length: 3\r\n\r\nabc"
    );
    let plain = "HTTP/1.1 200 OK\r\nContent-Type: text/plain\r\nContent-Length: 3\r\n\r\nabc";
    let id = parse("GET /echo/abc HTTP/1.1\r\nAccept-Encoding: identity\r\n\r\n");
    assert_eq!(respond(route(&id, &None)), plain);
    let none = parse("GET /echo/abc HTTP/1.1\r\n\r\n");
    assert_eq!(respond(route(&none, &None)), plain);
    let list = parse("GET /echo/abc HTTP/1.1\r\nAccept-Encoding: gzip, deflate\r\n\r\n");
    assert_eq!(respond(route(&list, &None)), plain);
}

#[test]
fn negotiation_is_exact() {
    assert_eq!(negotiate_encoding(&"gzip".to_string()), "gzip");
    assert_eq!(negotiate_encoding(&"GZIP".to_string()), "");
    assert_eq!(negotiate_encoding(&String::new()), "");
}

#[test]
fn user_agent_is_reflected() {
    let r = parse("GET /user-agent HTTP/1.1\r\nUser-Agent: foo/1.0\r\n\r\n");
    assert_eq!(
        respond(route(&r, &None)),
        "HTTP/1.1 200 OK\r\nContent-Type: text/plain\r\nContent-Length: 7\r\n\r\nfoo/1.0"
    );
}

#[test]
fn post_file_writes_body_then_created() {
    let r = parse("POST /files/test.txt HTTP/1.1\r\nContent-Length: 5\r\n\r\nhello");
    match route(&r, &Some("/tmp/".to_string())) {
        Action::WriteFile { path, content } => {
            assert_eq!(path, "/tmp/test.txt");
            assert_eq!(content, "hello");
        }
        _ => panic!("expected a write"),
    }
    assert_eq!(write_outcome(true).to_string(), "HTTP/1.1 201 Created\r\n\r\n");
    assert_eq!(write_outcome(false).to_string(), "HTTP/1.1 404 Not Found\r\n\r\n");
}

#[test]
fn get_file_reads_then_serves_octets() {
    let r = parse("GET /files/test.txt HTTP/1.1\r\n\r\n");
    match route(&r, &Some("/tmp/".to_string())) {
        Action::ReadFile { name } => assert_eq!(name, "test.txt"),
        _ => panic!("expected a read"),
    }
    assert_eq!(
        file_found_head(5),
        "HTTP/1.1 200 OK\r\nContent-Type: application/octet-stream\r\nContent-Length: 5\r\n\r\n"
    );
    assert_eq!(
        file_found_head(0),
        "HTTP/1.1 200 OK\r\nContent-Type: application/octet-stream\r\nContent-Length: 0\r\n\r\n"
    );
}

#[test]
fn missing_file_is_not_found() {
    let r = parse("GET /files/missing.txt HTTP/1.1\r\n\r\n");
    assert!(matches!(route(&r, &Some("/tmp/".to_string())), Action::ReadFile { .. }));
    assert_eq!(Response::new_not_found().to_string(), "HTTP/1.1 404 Not Found\r\n\r\n");
}

#[test]
fn file_routes_without_directory_are_not_found() {
    let get = parse("GET /files/a HTTP/1.1\r\n\r\n");
    assert_eq!(respond(route(&get, &None)), "HTTP/1.1 404 Not Found\r\n\r\n");
    let post = parse("POST /files/a HTTP/1.1\r\nContent-Length: 1\r\n\r\nx");
    assert_eq!(respond(route(&post, &None)), "HTTP/1.1 404 Not Found\r\n\r\n");
}

#[test]
fn unknown_targets_are_not_found() {
    let r = parse("GET /nonexistent HTTP/1.1\r\n\r\n");
    assert_eq!(respond(route(&r, &None)), "HTTP/1.1 404 Not Found\r\n\r\n");
    let r = parse("DELETE / HTTP/1.1\r\n\r\n");
    assert_eq!(respond(route(&r, &None)), "HTTP/1.1 404 Not Found\r\n\r\n");
    let r = parse("POST /echo/x HTTP/1.1\r\n\r\n");
    assert_eq!(respond(route(&r, &Some("/tmp/".to_string()))), "HTTP/1.1 404 Not Found\r\n\r\n");
}

#[test]
fn post_body_is_truncated_to_content_length() {
    let r = parse("POST /files/t HTTP/1.1\r\nContent-Length: 3\r\n\r\nhéllo\0\0\0");
    match route(&r, &Some("d/".to_string())) {
        Action::WriteFile { path, content } => {
            assert_eq!(path, "d/t");
            assert_eq!(content, "hél");
        }
        _ => panic!("expected a write"),
    }
}

#[test]
fn truncation_cuts_at_characters() {
    assert_eq!(truncate_content("héllo".to_string(), 2), "hé");
    assert_eq!(truncate_content("€€€".to_string(), 1), "€");
    assert_eq!(truncate_content("abc".to_string(), 10), "abc");
    assert_eq!(truncate_content("abc".to_string(), 0), "");
    assert_eq!(truncate_content(String::new(), 3), "");
}
