use in_mem_db::decode::{extract_json_field, parse_request};
use in_mem_db::dispatch::handle_request;
use in_mem_db::encode::build_response;
use in_mem_db::store::InMemSetDB;

fn run(store: &mut InMemSetDB, raw: &str) -> (u16, String) {
    let (method, path, body) = parse_request(raw).expect("request should decode");
    handle_request(store, &method, &path, body)
}

#[test]
fn parse_splits_method_path_and_body() {
    let raw = "POST /add HTTP/1.1\r\nHost: localhost\r\n\r\n{\"item\":\"apple\"}";
    let (method, path, body) = parse_request(raw).unwrap();
    assert_eq!(method, "POST");
    assert_eq!(path, "/add");
    assert_eq!(body.as_deref(), Some("{\"item\":\"apple\"}"));
}

#[test]
fn parse_ignores_extra_tokens_and_missing_version() {
    let (method, path, body) = parse_request("GET /size\r\n\r\n").unwrap();
    assert_eq!(method, "GET");
    assert_eq!(path, "/size");
    assert!(body.is_none());
}

#[test]
fn parse_gives_no_body_to_a_read_verb() {
    let (_, _, body) = parse_request("GET /size HTTP/1.1\r\n\r\ntrailing bytes").unwrap();
    assert!(body.is_none());
}

#[test]
fn parse_without_separator_gives_no_body() {
    let (method, _, body) = parse_request("POST /add HTTP/1.1").unwrap();
    assert_eq!(method, "POST");
    assert!(body.is_none());
}

#[test]
fn parse_fails_on_fewer_than_two_tokens() {
    assert!(parse_request("POST").is_none());
    assert!(parse_request("").is_none());
    assert!(parse_request("   \r\nHost: x\r\n\r\n").is_none());
}

#[test]
fn extract_finds_a_quoted_field() {
    assert_eq!(
        extract_json_field("{\"item\":\"apple\"}", "item"),
        Some("apple".to_string())
    );
}

#[test]
fn extract_reports_an_absent_field() {
    assert_eq!(extract_json_field("{\"other\":\"x\"}", "item"), None);
    assert_eq!(extract_json_field("{}", "item"), None);
}

#[test]
fn extract_needs_a_closing_quote() {
    assert_eq!(extract_json_field("{\"item\":\"open", "item"), None);
}

#[test]
fn extract_is_a_literal_first_match_scan() {
    // The first occurrence wins, and the value stops at the next quote:
    // no escaping is understood.
    assert_eq!(
        extract_json_field("{\"item\":\"a\",\"item\":\"b\"}", "item"),
        Some("a".to_string())
    );
    assert_eq!(
        extract_json_field("{\"item\":\"a\\\"b\"}", "item"),
        Some("a\\".to_string())
    );
}

#[test]
fn scenario_add_then_size() {
    let mut store = InMemSetDB::new();
    let (status, body) = run(
        &mut store,
        "POST /add HTTP/1.1\r\nHost: localhost\r\n\r\n{\"item\":\"apple\"}",
    );
    assert_eq!(status, 200);
    assert_eq!(body, "{\"success\":true}");
    let (status, body) = run(&mut store, "GET /size HTTP/1.1\r\n\r\n");
    assert_eq!(status, 200);
    assert_eq!(body, "{\"size\":1}");
}

#[test]
fn scenario_contains_before_any_add() {
    let mut store = InMemSetDB::new();
    let (status, body) = run(
        &mut store,
        "POST /contains HTTP/1.1\r\n\r\n{\"item\":\"banana\"}",
    );
    assert_eq!(status, 200);
    assert_eq!(body, "{\"exists\":false}");
}

#[test]
fn scenario_add_without_body() {
    let mut store = InMemSetDB::new();
    let (status, body) = run(&mut store, "POST /add HTTP/1.1");
    assert_eq!(status, 400);
    assert_eq!(body, "{\"error\":\"Missing body\"}");
}

#[test]
fn scenario_add_without_item_field() {
    let mut store = InMemSetDB::new();
    let (status, body) = run(&mut store, "POST /add HTTP/1.1\r\n\r\n{\"other\":\"x\"}");
    assert_eq!(status, 400);
    assert_eq!(body, "{\"error\":\"Missing item\"}");
}

#[test]
fn scenario_unknown_route() {
    let mut store = InMemSetDB::new();
    let (status, body) = run(&mut store, "GET /unknown HTTP/1.1\r\n\r\n");
    assert_eq!(status, 404);
    assert_eq!(body, "{\"error\":\"Not found\"}");
}

#[test]
fn scenario_clear_then_size() {
    let mut store = InMemSetDB::new();
    run(
        &mut store,
        "POST /add HTTP/1.1\r\n\r\n{\"item\":\"apple\"}",
    );
    let (status, body) = run(&mut store, "POST /clear HTTP/1.1\r\n\r\n");
    assert_eq!(status, 200);
    assert_eq!(body, "{\"success\":true}");
    let (status, body) = run(&mut store, "GET /size HTTP/1.1\r\n\r\n");
    assert_eq!(status, 200);
    assert_eq!(body, "{\"size\":0}");
}

#[test]
fn response_has_exact_wire_shape() {
    let response = build_response(200, "{\"size\":3}".to_string());
    assert_eq!(
        response,
        "HTTP/1.1 200 OK\r\nContent-Type: application/json\r\nContent-Length: 10\r\nConnection: close\r\n\r\n{\"size\":3}"
    );
}

#[test]
fn content_length_round_trips() {
    let body = "{\"size\":3}";
    let response = build_response(200, body.to_string());
    let marker = "Content-Length: ";
    let start = response.find(marker).unwrap() + marker.len();
    let end = start + response[start..].find('\r').unwrap();
    let length: usize = response[start..end].parse().unwrap();
    assert_eq!(length, body.len());
}

#[test]
fn response_phrases_follow_the_status() {
    assert!(build_response(400, "x".to_string()).starts_with("HTTP/1.1 400 Bad Request\r\n"));
    assert!(build_response(404, "x".to_string()).starts_with("HTTP/1.1 404 Not Found\r\n"));
    assert!(build_response(302, "x".to_string()).starts_with("HTTP/1.1 302 Unknown\r\n"));
}

#[test]
fn content_length_counts_bytes_not_characters() {
    let body = "{\"item\":\"héllo\"}";
    let response = build_response(200, body.to_string());
    let marker = "Content-Length: ";
    let start = response.find(marker).unwrap() + marker.len();
    let end = start + response[start..].find('\r').unwrap();
    let length: usize = response[start..end].parse().unwrap();
    assert_eq!(length, body.len());
}
