use std::collections::HashMap;
use tinyhttp::response::{ContentType, Response};

#[test]
fn text_response_written_out() {
    let resp = Response::text(200, "OK".to_string(), "Hello World".to_string());
    assert_eq!(
        resp.make_response(),
        "HTTP/1.1 200 OK\r\nContent-Type: text/plain; charset=utf-8\r\nContent-Length: 11\r\n\r\nHello World"
    );
}

#[test]
fn html_response_written_out() {
    let resp = Response::html(201, "Created".to_string(), "<p>hi</p>");
    assert_eq!(
        resp.make_response(),
        "HTTP/1.1 201 Created\r\nContent-Type: text/html; charset=utf-8\r\nContent-Length: 9\r\n\r\n<p>hi</p>"
    );
}

#[test]
fn json_response_written_out() {
    let resp = Response::from_encoded(200, "OK".to_string(), "{\"a\":\"b\"}".to_string());
    assert_eq!(
        resp.make_response(),
        "HTTP/1.1 200 OK\r\nContent-Type: application/json; charset=utf-8\r\nContent-Length: 9\r\n\r\n{\"a\":\"b\"}"
    );
}

#[test]
fn content_length_counts_bytes() {
    let resp = Response::text(200, "OK".to_string(), "h\u{e9}llo \u{4e2d}\u{1f600}".to_string());
    assert_eq!(
        resp.make_response(),
        "HTTP/1.1 200 OK\r\nContent-Type: text/plain; charset=utf-8\r\nContent-Length: 14\r\n\r\nh\u{e9}llo \u{4e2d}\u{1f600}"
    );
}

#[test]
fn empty_body_has_length_zero() {
    let resp = Response::text(204, "No Content".to_string(), String::new());
    assert_eq!(
        resp.make_response(),
        "HTTP/1.1 204 No Content\r\nContent-Type: text/plain; charset=utf-8\r\nContent-Length: 0\r\n\r\n"
    );
}

#[test]
fn status_codes_in_decimal() {
    let r0 = Response::text(0, "".to_string(), "".to_string());
    assert!(r0.make_response().starts_with("HTTP/1.1 0 \r\n"));
    let r9 = Response::text(9, "x".to_string(), "".to_string());
    assert!(r9.make_response().starts_with("HTTP/1.1 9 x\r\n"));
    let r10 = Response::text(10, "x".to_string(), "".to_string());
    assert!(r10.make_response().starts_with("HTTP/1.1 10 x\r\n"));
    let r = Response::text(65535, "Max".to_string(), "".to_string());
    assert!(r.make_response().starts_with("HTTP/1.1 65535 Max\r\n"));
    let r = Response::text(1007, "x".to_string(), "".to_string());
    assert!(r.make_response().starts_with("HTTP/1.1 1007 x\r\n"));
}

#[test]
fn long_body_length_in_decimal() {
    let body = "x".repeat(12345);
    let resp = Response::text(200, "OK".to_string(), body.clone());
    let out = resp.make_response();
    assert!(out.contains("\r\nContent-Length: 12345\r\n\r\n"));
    assert!(out.ends_with(&body));
}

#[test]
fn content_type_values() {
    assert_eq!(ContentType::Html.as_str(), "text/html; charset=utf-8");
    assert_eq!(ContentType::Json.as_str(), "application/json; charset=utf-8");
    assert_eq!(ContentType::Text.as_str(), "text/plain; charset=utf-8");
}

#[test]
fn response_parts() {
    let resp = Response::html(404, "Not Found".to_string(), "<h1>gone</h1>");
    assert_eq!(resp.status_code(), 404);
    assert_eq!(resp.status(), "Not Found");
    assert_eq!(resp.content_type(), ContentType::Html);
    assert_eq!(resp.body(), "<h1>gone</h1>");
}

#[test]
fn default_response_is_empty_ok() {
    let resp = Response::default();
    assert_eq!(resp.status_code(), 200);
    assert_eq!(resp.status(), "OK");
    assert_eq!(resp.content_type(), ContentType::Text);
    assert_eq!(resp.body(), "");
}

#[test]
fn json_body_holds_the_pairs() {
    let mut data = HashMap::new();
    data.insert("name", "bob");
    data.insert("age", "18");
    let resp = Response::json(200, "OK".to_string(), data);
    assert_eq!(resp.status_code(), 200);
    assert_eq!(resp.status(), "OK");
    assert_eq!(resp.content_type(), ContentType::Json);
    let back: HashMap<String, String> = serde_json::from_str(resp.body()).unwrap();
    assert_eq!(back.len(), 2);
    assert_eq!(back.get("name"), Some(&"bob".to_string()));
    assert_eq!(back.get("age"), Some(&"18".to_string()));
}

#[test]
fn json_body_of_one_pair() {
    let mut data = HashMap::new();
    data.insert("k", "a \"quoted\" v");
    let resp = Response::json(200, "OK".to_string(), data);
    assert_eq!(resp.body(), "{\"k\":\"a \\\"quoted\\\" v\"}");
}

#[test]
fn json_body_of_empty_map() {
    let resp = Response::json(200, "OK".to_string(), HashMap::new());
    assert_eq!(resp.body(), "{}");
    assert!(resp.make_response().ends_with("Content-Length: 2\r\n\r\n{}"));
}

#[test]
fn json_body_escapes_what_json_escapes() {
    let mut data = HashMap::new();
    data.insert("line\nbreak", "tab\there \\ \u{1}");
    let resp = Response::json(200, "OK".to_string(), data);
    assert_eq!(resp.body(), "{\"line\\nbreak\":\"tab\\there \\\\ \\u0001\"}");
    let back: HashMap<String, String> = serde_json::from_str(resp.body()).unwrap();
    assert_eq!(back.get("line\nbreak"), Some(&"tab\there \\ \u{1}".to_string()));
}
