use parser::MessageBody;
use parser::Method;
use parser::Version;
use parser::fragment;
use parser::header_line;
use parser::parse_headers;
use parser::parse_request;
use parser::parse_request_body;
use parser::request_line;

#[test]
fn test_it_should_parse_request_line_with_version() {
    let src = b"GET /index.html HTTP/1.1";
    let result = request_line(src, 0);

    assert!(result.is_ok());
    let (line, _rest) = result.unwrap();

    assert_eq!(fragment(src, &line.method), b"GET".to_vec());
    assert_eq!(line.method.off, 0);
    assert_eq!(line.version, Version::V11);
    assert_eq!(fragment(src, &line.target), b"/index.html".to_vec());
}

#[test]
fn test_it_should_parse_request_line_even_if_version_not_given() {
    let src = b"GET /index.html";
    let (line, _) = request_line(src, 0).unwrap();

    assert_eq!(line.version, Version::V11);
}

#[test]
fn test_it_should_parse_header() {
    let src = b"Content-type: application/json\n";

    let (header, _rest) = header_line(src, 0).expect("header parse failed");

    assert_eq!(fragment(src, &header.name), b"Content-type".to_vec());
    assert_eq!(fragment(src, &header.value), b"application/json".to_vec());
}

#[test]
fn it_should_return_err_if_header_not_ends_with_new_line() {
    let src = b"Header: value";

    assert!(header_line(src, 0).is_err())
}

#[test]
fn test_it_should_parse_multiple_headers() {
    let src = b"Content-type: application/json\nAuthorization: bearer token\n";

    let (headers, rest) = parse_headers(src, 0).expect("header parse failed");

    assert_eq!(rest, src.len());
    assert_eq!(headers.len(), 2);
    assert_eq!(fragment(src, &headers[0].name), b"Content-type".to_vec());
    assert_eq!(fragment(src, &headers[0].value), b"application/json".to_vec());
    assert_eq!(fragment(src, &headers[1].name), b"Authorization".to_vec());
    assert_eq!(fragment(src, &headers[1].value), b"bearer token".to_vec());
}

#[test]
fn it_should_parse_request_with_title_and_body() {
    let src = b"###My request\nGET /index.html HTTP/1.1\nContent-type: application/json\nAuthorization: bearer token\n\n{\"foo\": \"bar\"}";

    let (result, _rest) = parse_request(src, 0).unwrap();

    assert_eq!(fragment(src, &result.title.unwrap()), b"My request".to_vec());
    assert_eq!(result.method, Method::Get);
    assert_eq!(result.target, b"/index.html".to_vec());
    assert_eq!(result.version, Version::V11);

    assert_eq!(result.headers.len(), 2);

    if let MessageBody::Bytes(span) = &result.body {
        assert_eq!(fragment(src, span), b"{\"foo\": \"bar\"}".to_vec());
    } else {
        assert!(false, "message body not matches");
    }
}

#[test]
fn test_it_should_parse_request_without_body() {
    let src = b"GET /index.html";
    let (result, _) = parse_request(src, 0).unwrap();

    assert_eq!(result.body, MessageBody::Empty);
}

#[test]
fn test_it_should_parse_request_body_with_multiple_lines() {
    let src = b"{\n    1: 1,\n\n    \"foo\": \"bar\"\n\n}";

    let (_, rest) = parse_request_body(src, 0);

    assert_eq!(rest, src.len());
}
