use rust_http_framework::{parse_headers, Headers, StatusCodes};

#[test]
fn headers_are_read_line_by_line() {
    let headers = parse_headers("Host: example.org\r\nContent-Length: 10").unwrap();
    assert_eq!(headers.len(), 2);
    assert_eq!(headers.get("host"), Some(&"example.org".to_string()));
    assert_eq!(headers.get("content-length"), Some(&"10".to_string()));
}

#[test]
fn header_names_are_put_in_lower_case() {
    let headers = parse_headers("Content-TYPE: Text/HTML").unwrap();
    assert_eq!(headers.get("content-type"), Some(&"Text/HTML".to_string()));
    assert_eq!(headers.get("Content-TYPE"), None);
    assert!(headers.contains_key("content-type"));
    assert!(!headers.contains_key("Content-Type"));
}

#[test]
fn header_names_and_values_are_trimmed() {
    let headers = parse_headers("  Accept \t:  text/plain  \r\nX-Empty:").unwrap();
    assert_eq!(headers.get("accept"), Some(&"text/plain".to_string()));
    assert_eq!(headers.get("x-empty"), Some(&"".to_string()));
}

#[test]
fn a_header_is_parted_at_its_first_colon() {
    let headers = parse_headers("Host: localhost:3000").unwrap();
    assert_eq!(headers.get("host"), Some(&"localhost:3000".to_string()));
}

#[test]
fn a_later_header_replaces_an_earlier_one_of_the_same_name() {
    let headers = parse_headers("A: 1\r\nB: 2\r\na: 3").unwrap();
    assert_eq!(headers.len(), 2);
    assert_eq!(headers.get("a"), Some(&"3".to_string()));
    assert_eq!(headers.get("b"), Some(&"2".to_string()));
    let entries: Vec<(String, String)> = headers.as_vec().clone();
    assert_eq!(
        entries,
        vec![("a".to_string(), "3".to_string()), ("b".to_string(), "2".to_string())]
    );
}

#[test]
fn a_line_without_colon_is_a_bad_request() {
    assert_eq!(parse_headers("Host example.org").err(), Some(StatusCodes::BadRequest));
    assert_eq!(parse_headers("A: 1\r\nnonsense\r\nB: 2").err(), Some(StatusCodes::BadRequest));
    assert_eq!(parse_headers("").err(), Some(StatusCodes::BadRequest));
    assert_eq!(parse_headers("A: 1\r\n").err(), Some(StatusCodes::BadRequest));
}

#[test]
fn a_lone_line_feed_does_not_end_a_header_line() {
    let headers = parse_headers("A: 1\nB: 2").unwrap();
    assert_eq!(headers.len(), 1);
    assert_eq!(headers.get("a"), Some(&"1\nB: 2".to_string()));
}

#[test]
fn a_table_takes_and_gives_headers() {
    let mut headers = Headers::new();
    assert_eq!(headers.len(), 0);
    assert_eq!(headers.get("a"), None);
    headers.insert("a".to_string(), "1".to_string());
    headers.insert("b".to_string(), "2".to_string());
    headers.insert("a".to_string(), "3".to_string());
    assert_eq!(headers.len(), 2);
    assert_eq!(headers.get("a"), Some(&"3".to_string()));
    assert_eq!(headers.get("b"), Some(&"2".to_string()));
    assert!(headers.contains_key("a"));
    assert!(!headers.contains_key("c"));
    let copy = headers.clone();
    assert_eq!(copy.as_vec(), headers.as_vec());
}
