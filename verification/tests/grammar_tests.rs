use parser::ErrKind;
use parser::MessageBody;
use parser::Method;
use parser::ScriptHandler;
use parser::Version;
use parser::fragment;
use parser::header_line;
use parser::parse_external_script;
use parser::parse_header;
use parser::parse_headers;
use parser::parse_inline_script;
use parser::parse_input_file_ref;
use parser::parse_multiple_request;
use parser::parse_request;
use parser::parse_request_body;
use parser::parse_script;
use parser::request_line;

#[test]
fn tests_it_should_parse_request_line_with_version() {
    let src = b"GET /index.html HTTP/1.1";
    let result = request_line(src, 0);

    assert!(result.is_ok());
    let (line, _rest) = result.unwrap();

    assert_eq!(fragment(src, &line.method), b"GET".to_vec());
    assert_eq!(line.method.off, 0);
    assert_eq!(line.version, Version::V11);
    assert_eq!(fragment(src, &line.target), b"/index.html".to_vec());
}

#[test]
fn tests_it_should_parse_request_line_even_if_version_not_given() {
    let src = b"GET /index.html";
    let (line, _) = request_line(src, 0).unwrap();

    assert_eq!(line.version, Version::V11);
}

#[test]
fn tests_it_should_parse_header() {
    let src = b"Content-type: application/json\n";

    let (header, _rest) = parse_header(src, 0).expect("header parse failed");

    assert_eq!(fragment(src, &header.name), b"Content-type".to_vec());
    assert_eq!(fragment(src, &header.value), b"application/json".to_vec());
}

#[test]
fn it_should_not_parse_if_there_is_no_newline_at_end_of_the_header() {
    let src = b"Content-type: application/json";

    let result = parse_header(src, 0);
    assert!(result.is_err());
}

#[test]
fn it_should_parse_header_with_newline() {
    let src = b"Content-type: application/json\n\n";

    let (header, _rest) = parse_header(src, 0).expect("header parse failed");

    assert_eq!(fragment(src, &header.name), b"Content-type".to_vec());
    assert_eq!(fragment(src, &header.value), b"application/json".to_vec());
}

#[test]
fn tests_it_should_parse_multiple_headers() {
    let src = b"Content-type: application/json\nAuthorization: bearer token\n";

    let (headers, rest) = parse_headers(src, 0).expect("header parse failed");

    assert_eq!(rest, src.len());
    assert_eq!(headers.len(), 2);
    assert_eq!(fragment(src, &headers[0].name), b"Content-type".to_vec());
    assert_eq!(fragment(src, &headers[0].value), b"application/json".to_vec());
    assert_eq!(fragment(src, &headers[1].name), b"Authorization".to_vec());
    assert_eq!(fragment(src, &headers[1].value), b"bearer token".to_vec());
}

#[test]
fn it_should_parse_a_full_featured_request() {
    let src = b"### My request\nGET /index.html HTTP/1.1\nContent-type: application/json\nAuthorization: bearer token\n\n{\"foo\": \"bar\"}";

    let (result, _rest) = parse_request(src, 0).unwrap();

    assert_eq!(fragment(src, &result.title.unwrap()), b"My request".to_vec());
    assert_eq!(result.method, Method::Get);
    assert_eq!(result.target, b"/index.html".to_vec());
    assert_eq!(result.version, Version::V11);

    assert_eq!(result.headers.len(), 2);
    assert_eq!(
        fragment(src, result.body.get_span().unwrap()),
        b"{\"foo\": \"bar\"}".to_vec()
    );
}

#[test]
fn parse_multiline_body() {
    let body = "{\n\n  \"foo\": \"bar\"\n\n}";
    let input = format!("GET /index.html HTTP/1.1\n\n{}", body);
    let src = input.as_bytes();

    let (result, rest) = parse_request(src, 0).unwrap();

    assert_eq!(rest, src.len());
    assert_eq!(
        fragment(src, result.body.get_span().unwrap()),
        body.as_bytes().to_vec()
    );
}

#[test]
fn it_should_parse_request_without_body() {
    let src = b"GET /index.html";
    let (result, _) = parse_request(src, 0).unwrap();

    assert_eq!(result.body, MessageBody::Empty);
}

#[test]
fn multiple_request_parser_test() {
    let src = b"### Request 1\nGET /first.html\n\n{foo: bar}\n\n> ./foo.js\n\n### Request 2\nGET /last.html";
    let result = parse_multiple_request(src).unwrap();

    assert_eq!(result.len(), 2);
    let first_req = result.get(0).unwrap();
    assert_eq!(
        fragment(src, first_req.title.as_ref().unwrap()),
        b"Request 1".to_vec()
    );
    assert_eq!(first_req.headers.len(), 0);
    if let ScriptHandler::File(path) = &first_req.script {
        assert_eq!(fragment(src, path), b"./foo.js".to_vec());
    } else {
        assert!(false, "script not matches");
    }
    if let MessageBody::Bytes(body) = &first_req.body {
        assert_eq!(fragment(src, body), b"{foo: bar}\n\n".to_vec());
    } else {
        assert!(false, "body not matches");
    }

    let second_req = result.get(1).unwrap();
    assert_eq!(
        fragment(src, second_req.title.as_ref().unwrap()),
        b"Request 2".to_vec()
    );
    assert_eq!(second_req.headers.len(), 0);
    assert_eq!(second_req.body, MessageBody::Empty);
    assert_eq!(second_req.script, ScriptHandler::Empty);
}

#[test]
fn should_parse_body_until_next_request_title() {
    let src = b"### Request 1\nGET /first.html\n\n{foo: bar}\n\n### Request 2\nGET /last.html";
    let result = parse_multiple_request(src).unwrap();

    assert_eq!(result.len(), 2);
    if let MessageBody::Bytes(body) = &result.get(0).unwrap().body {
        assert_eq!(fragment(src, body), b"{foo: bar}\n\n".to_vec());
    } else {
        assert!(false, "body not matches");
    }
}

#[test]
fn it_should_parse_request_if_request_starts_or_ends_with_newlines() {
    let src = b"\n\n### Request 1\nGET /last.html\n\n";
    let (_result, rest) = parse_request(src, 0).unwrap();
    assert_eq!(rest, src.len());
}

#[test]
fn tests_it_should_parse_if_input_file_ref_given_as_body() {
    let src = b"< ./input.json";

    let (body, rest) = parse_input_file_ref(src, 0).unwrap();

    assert_eq!(rest, src.len());
    assert_eq!(
        fragment(src, body.get_span().unwrap()),
        b"./input.json".to_vec()
    );
}

#[test]
fn tests_it_should_parse_request_body_with_multiple_lines() {
    let src = b"{\n    1: 1,\n\n    \"foo\": \"bar\"\n\n}";

    let (_body, rest) = parse_request_body(src, 0);

    assert_eq!(rest, src.len());
}

#[test]
fn it_should_parse_inline_script_handler() {
    let src = b"> {% my script %}\n";
    let (h, rest) = parse_inline_script(src, 0).unwrap();

    assert_eq!(rest, src.len());
    if let ScriptHandler::Inline(script) = &h {
        assert_eq!(fragment(src, script), b" my script ".to_vec());
    } else {
        assert!(false, "script not matches");
    }
}

#[test]
fn it_should_parse_external_script_handler() {
    let src = b"> ./my-script.js";
    let (h, rest) = parse_external_script(src, 0).unwrap();

    assert_eq!(rest, src.len());
    if let ScriptHandler::File(path) = &h {
        assert_eq!(fragment(src, path), b"./my-script.js".to_vec());
    } else {
        assert!(false, "script not matches");
    }
}

#[test]
fn it_should_parse_script_handle() {
    let src1 = b"> ./foo.js\n";
    let src2 = b"> {% my inline script %}\n";
    let (s1, _i1) = parse_script(src1, 0);
    let (s2, _i2) = parse_script(src2, 0);

    if let ScriptHandler::File(path) = &s1 {
        assert_eq!(fragment(src1, path), b"./foo.js".to_vec());
    } else {
        assert!(false, "script not matches");
    }
    if let ScriptHandler::Inline(script) = &s2 {
        assert_eq!(fragment(src2, script), b" my inline script ".to_vec());
    } else {
        assert!(false, "script not matches");
    }
}

#[test]
fn header_line_reports_its_error_kind() {
    let src = b"Header-no-colon";
    let err = header_line(src, 0).unwrap_err();
    assert_eq!(err.kind, ErrKind::HeaderLineInvalid);
    assert_eq!(err.offset(), 0);
}
