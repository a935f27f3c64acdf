use rust_http_framework::{decode_stream, HTTPMethod, StatusCodes};

#[test]
fn a_stream_that_closes_in_the_body_is_a_bad_request() {
    let stream = b"POST /x HTTP/1.1\r\ncontent-length: 10\r\n\r\n12345";
    assert_eq!(decode_stream(stream).err(), Some(StatusCodes::BadRequest));
}

#[test]
fn a_stream_without_stated_length_and_without_body_is_decoded() {
    let request = decode_stream(b"GET /x HTTP/1.1\r\nHost: h\r\n\r\n").unwrap();
    assert_eq!(request.method, HTTPMethod::GET);
    assert_eq!(request.uri, "/x");
    assert_eq!(request.body, "");
    assert_eq!(request.headers.get("host"), Some(&"h".to_string()));
    assert_eq!(request.headers.get("content-length"), None);
}

#[test]
fn the_body_has_the_stated_length() {
    let request = decode_stream(b"POST /x HTTP/1.1\r\nContent-Length: 5\r\n\r\n12345").unwrap();
    assert_eq!(request.body, "12345");
    let request = decode_stream(b"POST /x HTTP/1.1\r\nContent-Length: 3\r\n\r\n12345").unwrap();
    assert_eq!(request.body, "123");
    let request = decode_stream(b"POST /x HTTP/1.1\r\nContent-Length: 0\r\n\r\n12345").unwrap();
    assert_eq!(request.body, "");
    let request = decode_stream(b"POST /x HTTP/1.1\r\nHost: h\r\n\r\n12345").unwrap();
    assert_eq!(request.body, "");
}

#[test]
fn the_body_may_hold_line_ends_and_terminators() {
    let request =
        decode_stream(b"POST /x HTTP/1.1\r\nContent-Length: 8\r\n\r\na\r\n\r\nb\nc").unwrap();
    assert_eq!(request.body, "a\r\n\r\nb\nc");
}

#[test]
fn each_verb_is_decoded_from_a_stream() {
    let verbs = vec![
        ("OPTIONS", HTTPMethod::OPTIONS),
        ("GET", HTTPMethod::GET),
        ("HEAD", HTTPMethod::HEAD),
        ("POST", HTTPMethod::POST),
        ("PUT", HTTPMethod::PUT),
        ("DELETE", HTTPMethod::DELETE),
        ("TRACE", HTTPMethod::TRACE),
        ("CONNECT", HTTPMethod::CONNECT),
    ];
    for (token, verb) in verbs {
        let stream = format!("{} /x HTTP/1.1\r\nHost: h\r\n\r\n", token);
        let request = decode_stream(stream.as_bytes()).unwrap();
        assert_eq!(request.method, verb);
    }
}

#[test]
fn another_token_in_a_stream_is_a_method_not_allowed() {
    assert_eq!(
        decode_stream(b"BREW /x HTTP/1.1\r\nHost: h\r\n\r\n").err(),
        Some(StatusCodes::MethodNotAllowed)
    );
    assert_eq!(
        decode_stream(b"BREW /x HTTP/1.1\r\nno colon\r\n\r\n").err(),
        Some(StatusCodes::MethodNotAllowed)
    );
    assert_eq!(
        decode_stream(b"BREW /x HTTP/1.1\r\nContent-Length: 10\r\n\r\n123").err(),
        Some(StatusCodes::MethodNotAllowed)
    );
}

#[test]
fn a_stream_without_terminator_is_a_bad_request() {
    assert_eq!(decode_stream(b"").err(), Some(StatusCodes::BadRequest));
    assert_eq!(decode_stream(b"GET /x HTTP/1.1\r\n").err(), Some(StatusCodes::BadRequest));
    assert_eq!(decode_stream(b"GET /x HTTP/1.1\r\nHost: h\r\n").err(), Some(StatusCodes::BadRequest));
    assert_eq!(decode_stream(b"GET /x HTTP/1.1\nHost: h\n\n").err(), Some(StatusCodes::BadRequest));
    assert_eq!(decode_stream(b"GET /x HTTP/1.1\r\nHost: h\r\n\r").err(), Some(StatusCodes::BadRequest));
    assert_eq!(decode_stream(b"BREW /x HTTP/1.1\r\nHost: h\r\n").err(), Some(StatusCodes::BadRequest));
}

#[test]
fn a_stream_with_a_malformed_head_is_a_bad_request() {
    assert_eq!(decode_stream(b"GET /x HTTP/1.1\r\n\r\n").err(), Some(StatusCodes::BadRequest));
    assert_eq!(decode_stream(b"\r\n\r\n").err(), Some(StatusCodes::BadRequest));
    assert_eq!(decode_stream(b"GET /x\r\nHost: h\r\n\r\n").err(), Some(StatusCodes::BadRequest));
    assert_eq!(
        decode_stream(b"GET /x HTTP/1.1\r\nContent-Length: x\r\n\r\n").err(),
        Some(StatusCodes::BadRequest)
    );
    assert_eq!(
        decode_stream(b"GET /x HTTP/1.1\r\nA: \xff\r\n\r\n").err(),
        Some(StatusCodes::BadRequest)
    );
    assert_eq!(
        decode_stream(b"GET /x HTTP/1.1\r\nContent-Length: 1\r\n\r\n\xff").err(),
        Some(StatusCodes::BadRequest)
    );
}

#[test]
fn the_last_of_two_lengths_counts() {
    let request =
        decode_stream(b"POST /x HTTP/1.1\r\nContent-Length: 1\r\nCONTENT-LENGTH: 2\r\n\r\nabc").unwrap();
    assert_eq!(request.body, "ab");
}

#[test]
fn a_stream_is_decoded_as_its_text_is_read() {
    let request = decode_stream("PUT /ü?k=v#f HTTP/1.1\r\nX-Ä: ö\r\nContent-Length: 3\r\n\r\n€".as_bytes())
        .unwrap();
    assert_eq!(request.method, HTTPMethod::PUT);
    assert_eq!(request.uri, "/ü?k=v");
    assert_eq!(request.search_params.get("k"), Some("v"));
    assert_eq!(request.headers.get("x-ä"), Some(&"ö".to_string()));
    assert_eq!(request.body, "€");
}
