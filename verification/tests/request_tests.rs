use ovelha::request::{content_length, header_length, Request};

fn pair(name: &str, value: &str) -> (String, String) {
    (name.to_string(), value.to_string())
}

#[test]
fn request_line_gives_method_and_path() {
    let request = Request::parse("POST /payments HTTP/1.1\r\n");
    assert_eq!(request.route, "POST /payments");
    assert!(request.params.is_empty());
    assert_eq!(request.body, None);
}

#[test]
fn query_is_split_from_the_path() {
    let request = Request::parse(
        "GET /payments-summary?from=2025-01-01T00:00:00Z&to=2025-01-02T00:00:00Z HTTP/1.1",
    );
    assert_eq!(request.route, "GET /payments-summary");
    assert_eq!(
        request.params,
        vec![pair("from", "2025-01-01T00:00:00Z"), pair("to", "2025-01-02T00:00:00Z")]
    );
    assert_eq!(request.param("from"), Some("2025-01-01T00:00:00Z"));
    assert_eq!(request.param("to"), Some("2025-01-02T00:00:00Z"));
    assert_eq!(request.param("other"), None);
}

#[test]
fn pieces_without_equals_are_left_out() {
    let request = Request::parse("GET /x?a&b=1&&c=&=d&e=f=g");
    assert_eq!(request.route, "GET /x");
    assert_eq!(
        request.params,
        vec![pair("b", "1"), pair("c", ""), pair("", "d"), pair("e", "f=g")]
    );
}

#[test]
fn query_ends_at_a_second_question_mark() {
    let request = Request::parse("GET /x?a=1?b=2");
    assert_eq!(request.route, "GET /x");
    assert_eq!(request.params, vec![pair("a", "1")]);
    let request = Request::parse("GET /x?");
    assert_eq!(request.route, "GET /x");
    assert!(request.params.is_empty());
    let request = Request::parse("GET ?a=1");
    assert_eq!(request.route, "GET ");
    assert_eq!(request.params, vec![pair("a", "1")]);
}

#[test]
fn last_occurrence_of_a_parameter_wins() {
    let request = Request::parse("GET /x?a=1&b=2&a=3");
    assert_eq!(request.param("a"), Some("3"));
    assert_eq!(request.param("b"), Some("2"));
}

#[test]
fn fewer_than_two_words_give_the_empty_request() {
    for line in ["", "   ", "GET", "  GET  \r\n", "\t\n"] {
        let request = Request::parse(line);
        assert_eq!(request, Request::new());
        assert_eq!(request.route, "");
    }
}

#[test]
fn white_space_of_any_kind_and_amount_separates_words() {
    let request = Request::parse(" \t GET\u{a0}\u{2003}/a/b?x=y\u{3000}HTTP/1.1");
    assert_eq!(request.route, "GET /a/b");
    assert_eq!(request.params, vec![pair("x", "y")]);
}

#[test]
fn text_beyond_ascii_is_kept_whole() {
    let request = Request::parse("GET /caf\u{e9}?n\u{e3}o=\u{2713}");
    assert_eq!(request.route, "GET /caf\u{e9}");
    assert_eq!(request.params, vec![pair("n\u{e3}o", "\u{2713}")]);
}

#[test]
fn header_length_reads_the_number_behind_the_name() {
    assert_eq!(header_length("Content-Length: 42"), Some(42));
    assert_eq!(header_length("content-length:7\r\n"), Some(7));
    assert_eq!(header_length("CONTENT-LENGTH:\t 0012 "), Some(12));
    assert_eq!(header_length("Content-Length: +5"), Some(5));
    assert_eq!(header_length("Content-Length: 18446744073709551615"), Some(u64::MAX));
}

#[test]
fn header_length_is_zero_where_no_number_stands() {
    assert_eq!(header_length("Content-Length:"), Some(0));
    assert_eq!(header_length("Content-Length: abc"), Some(0));
    assert_eq!(header_length("Content-Length: -1"), Some(0));
    assert_eq!(header_length("Content-Length: 1 2"), Some(0));
    assert_eq!(header_length("Content-Length: +"), Some(0));
    assert_eq!(header_length("Content-Length: 18446744073709551616"), Some(0));
    assert_eq!(header_length("Content-Length: 12:34"), Some(12));
    assert_eq!(header_length("Content-Length: :34"), Some(0));
}

#[test]
fn other_headers_give_no_length() {
    assert_eq!(header_length(""), None);
    assert_eq!(header_length("Content-Type: application/json"), None);
    assert_eq!(header_length("Content-Length"), None);
    assert_eq!(header_length(" Content-Length: 3"), None);
    assert_eq!(header_length("X-Content-Length: 3"), None);
    assert_eq!(header_length("Content\u{2010}Length: 3"), None);
}

#[test]
fn last_length_header_wins() {
    let lines = vec![
        "Host: localhost".to_string(),
        "Content-Length: 10".to_string(),
        "Content-Type: application/json".to_string(),
        "content-length: 20".to_string(),
        "Accept: */*".to_string(),
    ];
    assert_eq!(content_length(&lines), 20);
    assert_eq!(content_length(&vec![]), 0);
    assert_eq!(content_length(&vec!["Host: x".to_string()]), 0);
    assert_eq!(
        content_length(&vec!["Content-Length: 9".to_string(), "Content-Length: x".to_string()]),
        0
    );
}
