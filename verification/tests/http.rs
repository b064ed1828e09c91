use webserver::FileRoute;
use webserver::RequestKind;
use webserver::build_page;
use webserver::classify_request;
use webserver::http_header;
use webserver::http_response;
use webserver::parse_request_line;
use webserver::relative_path;
use webserver::route_file;

#[test]
fn parses_the_root_request() {
    let line = b"GET / HTTP/1.1".to_vec();
    assert_eq!(parse_request_line(&line), Some(Vec::new()));
}

#[test]
fn parses_a_file_request() {
    let line = b"GET /notes.txt HTTP/1.1".to_vec();
    assert_eq!(parse_request_line(&line), Some(b"notes.txt".to_vec()));
}

#[test]
fn rejects_other_methods_and_versions() {
    assert_eq!(parse_request_line(&b"POST / HTTP/1.1".to_vec()), None);
    assert_eq!(parse_request_line(&b"GET / HTTP/1.0".to_vec()), None);
    assert_eq!(parse_request_line(&b"GET /".to_vec()), None);
    assert_eq!(parse_request_line(&Vec::new()), None);
}

#[test]
fn classifies_the_index_route() {
    let r = classify_request(&b"GET / HTTP/1.1".to_vec());
    assert!(matches!(r, RequestKind::Index));
}

#[test]
fn classifies_a_plain_path() {
    match classify_request(&b"GET /dir/file HTTP/1.1".to_vec()) {
        RequestKind::Path { path } => assert_eq!(path, b"dir/file".to_vec()),
        _ => panic!("expected a path"),
    }
}

#[test]
fn decodes_percent_escapes_in_the_target() {
    match classify_request(&b"GET /a%20b.txt HTTP/1.1".to_vec()) {
        RequestKind::Path { path } => assert_eq!(path, b"a b.txt".to_vec()),
        _ => panic!("expected a path"),
    }
}

#[test]
fn reports_undecodable_targets() {
    let r = classify_request(&b"GET /%FF HTTP/1.1".to_vec());
    assert!(matches!(r, RequestKind::BadEncoding));
}

#[test]
fn reports_bad_request_lines() {
    let r = classify_request(&b"HELLO".to_vec());
    assert!(matches!(r, RequestKind::BadRequest));
}

#[test]
fn routes_by_what_the_filesystem_reported() {
    assert_eq!(route_file(false, false), FileRoute::NotFound);
    assert_eq!(route_file(false, true), FileRoute::NotFound);
    assert_eq!(route_file(true, true), FileRoute::Directory);
    assert_eq!(route_file(true, false), FileRoute::File);
}

#[test]
fn formats_the_response_head() {
    let head = http_header(&b"HTTP/1.1 200 OK".to_vec(), 1234);
    assert_eq!(head, b"HTTP/1.1 200 OK\r\nContent-Length: 1234\r\n\r\n".to_vec());
}

#[test]
fn formats_a_full_response() {
    let response = http_response(&b"HTTP/1.1 200 OK".to_vec(), &b"hello".to_vec());
    assert_eq!(response, b"HTTP/1.1 200 OK\r\nContent-Length: 5\r\n\r\nhello".to_vec());
}

#[test]
fn strips_the_served_base_from_entry_paths() {
    let r = relative_path(&b"/srv/files/a.txt".to_vec(), &b"/srv/files".to_vec());
    assert_eq!(r, b"/a.txt".to_vec());
    let unchanged = relative_path(&b"/elsewhere/a.txt".to_vec(), &b"/srv/files".to_vec());
    assert_eq!(unchanged, b"/elsewhere/a.txt".to_vec());
    let short = relative_path(&b"/a".to_vec(), &b"/srv/files".to_vec());
    assert_eq!(short, b"/a".to_vec());
}

#[test]
fn renders_the_listing_template() {
    let (status, page) = build_page("A{{#if missing}}B{{/if}}C");
    assert_eq!(status, "HTTP/1.1 200 OK");
    assert_eq!(page, "AC");
}

#[test]
fn reports_a_broken_template() {
    let (status, page) = build_page("{{#if x}}never closed");
    assert_eq!(status, "HTTP/1.1 500 Internal Server Error");
    assert_eq!(page, "");
}
