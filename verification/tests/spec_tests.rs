use parser::ErrKind;
use parser::MessageBody;
use parser::Method;
use parser::ScriptHandler;
use parser::Version;
use parser::fragment;
use parser::parse;
use parser::parse_headers;
use parser::parse_multiple_request;
use parser::parse_one;
use parser::parse_request_title;
use parser::parse_script;

#[test]
fn full_request_scenario() {
    let src = b"GET /index.html HTTP/1.1\nContent-type: application/json\n\n{\"a\":1}";
    let (req, _rest) = parse_one(src).unwrap();

    assert_eq!(req.method, Method::Get);
    assert_eq!(req.target, b"/index.html".to_vec());
    assert_eq!(req.version, Version::V11);
    assert_eq!(req.headers.len(), 1);
    assert_eq!(fragment(src, &req.headers[0].name), b"Content-type".to_vec());
    assert_eq!(
        fragment(src, &req.headers[0].value),
        b"application/json".to_vec()
    );
    if let MessageBody::Bytes(span) = &req.body {
        assert_eq!(fragment(src, span), b"{\"a\":1}".to_vec());
    } else {
        assert!(false, "body not matches");
    }
    assert_eq!(req.script, ScriptHandler::Empty);
    assert!(req.title.is_none());
}

#[test]
fn two_records_leading_edge_trimmed_only() {
    let src = b"### First\nGET /a\n\nbody-a\n\n### Second\nGET /b\n";
    let requests = parse_multiple_request(src).unwrap();

    assert_eq!(requests.len(), 2);
    assert_eq!(
        fragment(src, requests[0].title.as_ref().unwrap()),
        b"First".to_vec()
    );
    if let MessageBody::Bytes(span) = &requests[0].body {
        assert_eq!(fragment(src, span), b"body-a\n\n".to_vec());
    } else {
        assert!(false, "body not matches");
    }
    assert_eq!(
        fragment(src, requests[1].title.as_ref().unwrap()),
        b"Second".to_vec()
    );
    assert_eq!(requests[1].body, MessageBody::Empty);
}

#[test]
fn external_script_with_empty_body() {
    let src = b"GET /x\n\n> ./handler.js\n";
    let (req, _rest) = parse_one(src).unwrap();

    assert_eq!(req.body, MessageBody::Empty);
    if let ScriptHandler::File(path) = &req.script {
        assert_eq!(fragment(src, path), b"./handler.js".to_vec());
    } else {
        assert!(false, "script not matches");
    }
}

#[test]
fn inline_script_with_empty_body() {
    let src = b"GET /x\n\n> {% return 1 %}\n";
    let (req, _rest) = parse_one(src).unwrap();

    assert_eq!(req.body, MessageBody::Empty);
    if let ScriptHandler::Inline(text) = &req.script {
        assert_eq!(fragment(src, text), b" return 1 ".to_vec());
    } else {
        assert!(false, "script not matches");
    }
}

#[test]
fn header_line_without_colon_or_terminator_is_an_error() {
    let src = b"GET /x\nHeader-no-colon-or-terminator";
    let err = parse_multiple_request(src).unwrap_err();

    assert_eq!(err.kind, ErrKind::HeaderLineInvalid);
    assert_eq!(err.offset(), 7);
    assert_eq!(err.line(), 2);
    assert_eq!(err.span().col, 1);
}

#[test]
fn version_defaults_to_v11() {
    let src = b"GET /x\n";
    let (req, _rest) = parse_one(src).unwrap();
    assert_eq!(req.version, Version::V11);
}

#[test]
fn version_suffix_is_honoured() {
    let src = b"GET /x HTTP/1.0\n";
    let (req, _) = parse_one(src).unwrap();
    assert_eq!(req.version, Version::V10);

    let src11 = b"GET /x HTTP/1.1\n";
    let (req11, _) = parse_one(src11).unwrap();
    assert_eq!(req11.version, Version::V11);
}

#[test]
fn unknown_version_minor_is_a_request_line_error() {
    let src = b"GET /x HTTP/1.2\n";
    let err = parse_one(src).unwrap_err();
    assert_eq!(err.kind, ErrKind::RequestLineInvalid);
    assert_eq!(err.offset(), 0);
}

#[test]
fn missing_separator_space_is_a_request_line_error() {
    let src = b"GET\n";
    let err = parse_one(src).unwrap_err();
    assert_eq!(err.kind, ErrKind::RequestLineInvalid);
}

#[test]
fn empty_input_is_a_request_line_error() {
    let err = parse("empty.http", b"").unwrap_err();
    assert_eq!(err.kind, ErrKind::RequestLineInvalid);
    assert_eq!(err.offset(), 0);
    assert_eq!(err.line(), 1);
}

#[test]
fn untitled_request_has_no_title() {
    let src = b"GET /x\n\nhello world";
    let (req, _rest) = parse_one(src).unwrap();
    assert!(req.title.is_none());
}

#[test]
fn remainder_reparses_to_the_same_next_request() {
    let src = b"### First\nGET /a\n\nbody-a\n\n### Second\nGET /b HTTP/1.0\nX-k: v\n";
    let all = parse_multiple_request(src).unwrap();
    assert_eq!(all.len(), 2);

    let (_first, rest) = parse_one(src).unwrap();
    let tail = fragment(src, &rest);
    let (second, _) = parse_one(&tail).unwrap();

    assert_eq!(second.method, all[1].method);
    assert_eq!(second.target, all[1].target);
    assert_eq!(second.version, all[1].version);
    assert_eq!(second.headers.len(), all[1].headers.len());
    assert_eq!(
        fragment(&tail, second.title.as_ref().unwrap()),
        fragment(src, all[1].title.as_ref().unwrap())
    );
    assert_eq!(
        fragment(&tail, &second.headers[0].name),
        fragment(src, &all[1].headers[0].name)
    );
    assert_eq!(
        fragment(&tail, &second.headers[0].value),
        fragment(src, &all[1].headers[0].value)
    );
}

#[test]
fn built_header_lines_parse_back_in_order() {
    let src = b"Alpha: one\nBeta-2:\ttwo words\nGamma:\n";
    let (headers, rest) = parse_headers(src, 0).unwrap();

    assert_eq!(rest, src.len());
    assert_eq!(headers.len(), 3);
    assert_eq!(fragment(src, &headers[0].name), b"Alpha".to_vec());
    assert_eq!(fragment(src, &headers[0].value), b"one".to_vec());
    assert_eq!(fragment(src, &headers[1].name), b"Beta-2".to_vec());
    assert_eq!(fragment(src, &headers[1].value), b"\ttwo words".to_vec());
    assert_eq!(fragment(src, &headers[2].name), b"Gamma".to_vec());
    assert_eq!(fragment(src, &headers[2].value), b"".to_vec());
}

#[test]
fn body_stops_at_script_marker_even_before_title_marker() {
    let src = b"GET /x\n\nbody ### not a marker here\n> s.js\n### T\nGET /y\n";
    let requests = parse_multiple_request(src).unwrap();

    assert_eq!(requests.len(), 2);
    if let MessageBody::Bytes(span) = &requests[0].body {
        assert_eq!(fragment(src, span), b"body ### not a marker here\n".to_vec());
    } else {
        assert!(false, "body not matches");
    }
    if let ScriptHandler::File(path) = &requests[0].script {
        assert_eq!(fragment(src, path), b"s.js".to_vec());
    } else {
        assert!(false, "script not matches");
    }
}

#[test]
fn inline_shape_is_never_an_external_file() {
    let src = b"> {% x %}\n";
    let (script, _rest) = parse_script(src, 0);

    if let ScriptHandler::Inline(text) = &script {
        assert_eq!(fragment(src, text), b" x ".to_vec());
    } else {
        assert!(false, "script not matches");
    }
}

#[test]
fn malformed_script_is_no_failure() {
    // an unterminated inline opener still has a path to its line end
    let src = b"GET /x\n\n> {% broken\n";
    let (req, _rest) = parse_one(src).unwrap();
    if let ScriptHandler::File(path) = &req.script {
        assert_eq!(fragment(src, path), b"{% broken".to_vec());
    } else {
        assert!(false, "script not matches");
    }

    // a bare marker with nothing after it is simply no script
    let src2 = b"GET /x\n\n> ";
    let (req2, _) = parse_one(src2).unwrap();
    assert_eq!(req2.script, ScriptHandler::Empty);
}

#[test]
fn file_body_after_headers() {
    let src = b"GET /x\nH: v\n\n< ./data.bin\n";
    let (req, _rest) = parse_one(src).unwrap();

    if let MessageBody::File(path) = &req.body {
        assert_eq!(fragment(src, path), b"./data.bin".to_vec());
    } else {
        assert!(false, "body not matches");
    }
}

#[test]
fn blank_body_is_empty_not_zero_length_bytes() {
    let src = b"GET /x\n\n\n\n";
    let (req, _rest) = parse_one(src).unwrap();
    assert_eq!(req.body, MessageBody::Empty);
}

#[test]
fn title_marker_without_space_keeps_all_text() {
    let src = b"###X\nGET /x\n";
    let (title, _rest) = parse_request_title(src, 0);
    assert_eq!(fragment(src, &title.unwrap()), b"X".to_vec());
}

#[test]
fn every_known_method_is_classified() {
    let cases: Vec<(&[u8], Method)> = vec![
        (b"GET /x\n", Method::Get),
        (b"POST /x\n", Method::Post),
        (b"HEAD /x\n", Method::Head),
        (b"OPTIONS /x\n", Method::Options),
        (b"PUT /x\n", Method::Put),
        (b"PATCH /x\n", Method::Patch),
        (b"DELETE /x\n", Method::Delete),
    ];
    for (src, want) in cases {
        let (req, _) = parse_one(src).unwrap();
        assert_eq!(req.method, want);
    }

    let (custom, _) = parse_one(b"FROB /x\n").unwrap();
    assert_eq!(custom.method, Method::Custom(b"FROB".to_vec()));
    // matching is case-sensitive and exact
    let (lower, _) = parse_one(b"get /x\n").unwrap();
    assert_eq!(lower.method, Method::Custom(b"get".to_vec()));
}

#[test]
fn spans_carry_line_and_column() {
    let src = b"### T\nGET /abc\nName: value\n";
    let (req, _rest) = parse_one(src).unwrap();

    let title = req.title.unwrap();
    assert_eq!(title.line, 1);
    assert_eq!(title.col, 5);
    let name = &req.headers[0].name;
    assert_eq!(name.off, 15);
    assert_eq!(name.line, 3);
    assert_eq!(name.col, 1);
    let value = &req.headers[0].value;
    assert_eq!(value.line, 3);
    assert_eq!(value.col, 7);
}

#[test]
fn document_keeps_its_source_name() {
    let doc = parse("requests.http", b"GET /x\n").unwrap();
    assert_eq!(doc.source_name, "requests.http".to_string());
    assert_eq!(doc.requests.len(), 1);
}

#[test]
fn input_file_ref_without_marker_is_unexpected() {
    let src = b"plain body";
    let err = parser::parse_input_file_ref(src, 0).unwrap_err();
    assert_eq!(err.kind, ErrKind::Unexpected);
}

#[test]
fn header_equality_is_on_captured_text_only() {
    let src = b"A: x\nA: x\nB: x\n";
    let (headers, _rest) = parse_headers(src, 0).unwrap();

    assert_eq!(headers.len(), 3);
    // duplicates at different offsets carry the same text
    assert_ne!(headers[0].name.off, headers[1].name.off);
    assert!(headers[0].same_text(src, &headers[1], src));
    assert!(!headers[0].same_text(src, &headers[2], src));

    // across two buffers as well
    let other = b"A: x\n";
    let (others, _) = parse_headers(other, 0).unwrap();
    assert!(headers[1].same_text(src, &others[0], other));
}

#[test]
fn get_span_returns_the_captured_span() {
    let src = b"GET /x\n\npayload";
    let (req, _) = parse_one(src).unwrap();
    let span = req.body.get_span().unwrap();
    assert_eq!(fragment(src, span), b"payload".to_vec());
    assert!(MessageBody::Empty.get_span().is_none());
}
