use http_server::request::{split_header, Request, RequestError};
use http_server::response::{ContentType, Response, Status};
use http_server::server::{file_response, handle_head, route, Action, Route};
use http_server::text::{decimal_string, split_words};

fn lines(ls: &[&str]) -> Vec<String> {
    ls.iter().map(|l| l.to_string()).collect()
}

fn respond(ls: &[&str], directory: Option<&str>) -> Response {
    match handle_head(lines(ls), directory.map(|d| d.to_string())) {
        Action::Respond(r) => r,
        Action::ReadFile(p) => panic!("unexpected file read of {}", p),
    }
}

fn wire_text(r: &Response) -> String {
    String::from_utf8(r.to_bytes()).unwrap()
}

#[test]
fn unknown_paths_are_not_found() {
    for p in ["/abc", "/ech", "/user-agent/x", "/user-agen", "/file", "/index.html", "//"] {
        assert_eq!(route(p), Route::NotFound);
        let req = format!("GET {} HTTP/1.1", p);
        let r = respond(&[req.as_str()], Some("/tmp"));
        assert_eq!(r.status.code(), 404);
        assert_eq!(wire_text(&r), "HTTP/1.1 404 NOT FOUND\r\n\r\n");
    }
}

#[test]
fn root_is_ok_with_empty_body() {
    let r = respond(&["GET / HTTP/1.1", "Host: localhost"], None);
    assert_eq!(r.status, Status::Success);
    assert_eq!(wire_text(&r), "HTTP/1.1 200 OK\r\n\r\n");
}

#[test]
fn echo_returns_rest_of_path() {
    let r = respond(&["GET /echo/hello HTTP/1.1"], None);
    assert_eq!(r.status.code(), 200);
    assert_eq!(r.body, b"hello".to_vec());
    assert_eq!(
        wire_text(&r),
        "HTTP/1.1 200 OK\r\nContent-Type: text/plain\r\nContent-Length: 5\r\n\r\nhello"
    );
}

#[test]
fn echo_with_nothing_after_prefix() {
    let r = respond(&["GET /echo/ HTTP/1.1"], None);
    assert_eq!(r.status.code(), 200);
    assert!(r.body.is_empty());
    assert_eq!(
        wire_text(&r),
        "HTTP/1.1 200 OK\r\nContent-Type: text/plain\r\nContent-Length: 0\r\n\r\n"
    );
}

#[test]
fn echo_without_slash_echoes_whole_path() {
    let r = respond(&["GET /echoes HTTP/1.1"], None);
    assert_eq!(r.body, b"/echoes".to_vec());
}

#[test]
fn echo_removes_only_first_prefix() {
    let r = respond(&["GET /echo/a/echo/b HTTP/1.1"], None);
    assert_eq!(r.body, b"a/echo/b".to_vec());
}

#[test]
fn echo_length_counts_bytes() {
    let r = respond(&["GET /echo/h\u{e9}llo HTTP/1.1"], None);
    assert_eq!(r.body, "h\u{e9}llo".as_bytes().to_vec());
    assert!(wire_text(&r).contains("Content-Length: 6\r\n"));
}

#[test]
fn user_agent_is_reflected() {
    let r = respond(
        &["GET /user-agent HTTP/1.1", "Host: localhost:4221", "User-Agent: test-client/1.0"],
        None,
    );
    assert_eq!(r.status.code(), 200);
    assert_eq!(r.body, b"test-client/1.0".to_vec());
    assert_eq!(
        wire_text(&r),
        "HTTP/1.1 200 OK\r\nContent-Type: text/plain\r\nContent-Length: 15\r\n\r\ntest-client/1.0"
    );
}

#[test]
fn user_agent_missing_is_bad_request() {
    let r = respond(&["GET /user-agent HTTP/1.1", "Host: localhost"], None);
    assert_eq!(r.status.code(), 400);
    assert_eq!(wire_text(&r), "HTTP/1.1 400 Bad Request\r\n\r\n");
}

#[test]
fn last_duplicate_header_wins() {
    let r = respond(
        &["GET /user-agent HTTP/1.1", "User-Agent: first", "User-Agent: second"],
        None,
    );
    assert_eq!(r.body, b"second".to_vec());
}

#[test]
fn files_read_the_named_file() {
    match handle_head(lines(&["GET /files/name.txt HTTP/1.1"]), Some("/srv/data".to_string())) {
        Action::ReadFile(p) => assert_eq!(p, "/srv/data/name.txt"),
        Action::Respond(_) => panic!("expected a file read"),
    }
}

#[test]
fn file_contents_are_sent_byte_for_byte() {
    let b: Vec<u8> = vec![0x00, 0xff, 0xfe, b'a', 0x80, b'\n'];
    let r = file_response(Some(b.clone()));
    assert_eq!(r.status.code(), 200);
    assert_eq!(r.content_type, Some(ContentType::OctetStream));
    let mut expected =
        b"HTTP/1.1 200 OK\r\nContent-Type: application/octet-stream\r\nContent-Length: 6\r\n\r\n"
            .to_vec();
    expected.extend_from_slice(&b);
    assert_eq!(r.to_bytes(), expected);
}

#[test]
fn missing_file_is_not_found() {
    match handle_head(lines(&["GET /files/doesnotexist HTTP/1.1"]), Some("/tmp".to_string())) {
        Action::ReadFile(p) => assert_eq!(p, "/tmp/doesnotexist"),
        Action::Respond(_) => panic!("expected a file read"),
    }
    let r = file_response(None);
    assert_eq!(r.status.code(), 404);
    assert_eq!(wire_text(&r), "HTTP/1.1 404 NOT FOUND\r\n\r\n");
}

#[test]
fn files_without_directory_is_server_error() {
    let r = respond(&["GET /files/anything HTTP/1.1"], None);
    assert_eq!(r.status.code(), 500);
    assert_eq!(wire_text(&r), "HTTP/1.1 500 INTERNAL SERVER ERROR\r\n\r\n");
}

#[test]
fn files_path_without_slash_is_not_found() {
    let r = respond(&["GET /filesabc HTTP/1.1"], Some("/tmp"));
    assert_eq!(r.status.code(), 404);
}

#[test]
fn header_value_keeps_later_separators() {
    let h = split_header("Header-Name: value: with colon").unwrap();
    assert_eq!(h.0, "Header-Name");
    assert_eq!(h.1, "value: with colon");
    let req = Request::from_http_request(
        lines(&["GET / HTTP/1.1", "Header-Name: value: with colon"]),
        None,
    )
    .unwrap();
    assert_eq!(req.get_header("Header-Name").unwrap(), "value: with colon");
}

#[test]
fn header_lines_without_separator_are_ignored() {
    let req = Request::from_http_request(
        lines(&["GET / HTTP/1.1", "NoSeparator", "Colon:NoSpace", "A: b"]),
        None,
    )
    .unwrap();
    assert_eq!(req.headers.len(), 1);
    assert!(req.get_header("NoSeparator").is_none());
    assert!(req.get_header("Colon").is_none());
    assert_eq!(req.get_header("A").unwrap(), "b");
}

#[test]
fn request_line_is_split_on_whitespace() {
    let req = Request::from_http_request(lines(&["  POST\t/echo/x   HTTP/1.1 "]), None).unwrap();
    assert_eq!(req.method, "POST");
    assert_eq!(req.path, "/echo/x");
    assert_eq!(
        split_words(" a\u{3000}b  c\t"),
        vec!["a".to_string(), "b".to_string(), "c".to_string()]
    );
}

#[test]
fn malformed_heads_are_rejected() {
    assert_eq!(
        Request::from_http_request(Vec::new(), None).err(),
        Some(RequestError::Malformed)
    );
    assert_eq!(
        Request::from_http_request(lines(&["GET"]), None).err(),
        Some(RequestError::Malformed)
    );
    let r = respond(&["   "], None);
    assert_eq!(wire_text(&r), "HTTP/1.1 400 Bad Request\r\n\r\n");
    let r = respond(&[], None);
    assert_eq!(r.status.code(), 400);
}

#[test]
fn decimal_numerals() {
    assert_eq!(decimal_string(0), "0");
    assert_eq!(decimal_string(7), "7");
    assert_eq!(decimal_string(10), "10");
    assert_eq!(decimal_string(1234567890), "1234567890");
}

#[test]
fn routes_in_priority_order() {
    assert_eq!(route("/"), Route::Root);
    assert_eq!(route("/echo"), Route::Echo);
    assert_eq!(route("/echo/files"), Route::Echo);
    assert_eq!(route("/user-agent"), Route::UserAgent);
    assert_eq!(route("/files"), Route::Files);
    assert_eq!(route("/files/a"), Route::Files);
}
