use button_automation::event::BridgeEvent;
use button_automation::reply::{format_response, route_request, Reply, Route};
use button_automation::request::{find_header_end, parse_head, ReadStep, Request, RequestReader};
use button_automation::runtime::RuntimeState;

fn read(reads: &[&[u8]]) -> Result<(String, String, Vec<u8>), String> {
    let mut reader = RequestReader::new();
    for bytes in reads.iter().chain([&&b""[..]]) {
        match reader.feed(bytes) {
            ReadStep::More(next) => reader = next,
            ReadStep::Done(request) => return Ok((request.method, request.path, request.body)),
            ReadStep::Failed(error) => return Err(error),
        }
    }
    panic!("the reader wants more of a closed connection");
}

fn request(method: &str, path: &str, body: &[u8]) -> Result<Request, String> {
    Ok(Request { method: method.to_string(), path: path.to_string(), body: body.to_vec() })
}

fn reply(route: Route) -> (u16, &'static str) {
    match route {
        Route::Respond(Reply { status, body }) => (status, body),
        Route::Event(_) => panic!("the request brings an event"),
    }
}

#[test]
fn the_head_ends_at_the_first_empty_line() {
    assert_eq!(find_header_end(b""), None);
    assert_eq!(find_header_end(b"\r\n\r"), None);
    assert_eq!(find_header_end(b"\r\n\r\n"), Some(0));
    assert_eq!(find_header_end(b"GET /\r\n\r\nx\r\n\r\n"), Some(5));
    assert_eq!(find_header_end(b"a\r\n\r\r\n\r\n"), Some(4));
    assert_eq!(find_header_end(b"a\n\nb"), None);
}

#[test]
fn more_bytes_keep_the_end_of_the_head() {
    let whole = b"GET /\r\n\r\nx\r\n\r\n";
    for end in 0..9 {
        assert_eq!(find_header_end(&whole[..end]), None);
    }
    for end in 9..=whole.len() {
        assert_eq!(find_header_end(&whole[..end]), Some(5));
    }
}

#[test]
fn a_head_says_method_path_and_length() {
    let head = parse_head("POST /event HTTP/1.1\r\nHost: x\r\nCONTENT-length:  17 ").unwrap();
    assert_eq!((head.method.as_str(), head.path.as_str(), head.content_length), ("POST", "/event", 17));
    let head = parse_head("  GET\t/x").unwrap();
    assert_eq!((head.method.as_str(), head.path.as_str(), head.content_length), ("GET", "/x", 0));
}

#[test]
fn the_first_content_length_counts_even_if_it_is_no_number() {
    let head = parse_head("POST /event\r\nContent-Length: many\r\nContent-Length: 5").unwrap();
    assert_eq!(head.content_length, 0);
    let head = parse_head("POST /event\r\nContent-Length: 4\r\nContent-Length: 5").unwrap();
    assert_eq!(head.content_length, 4);
    let head = parse_head("POST /event\r\nno colon\r\nContent-Length: +6").unwrap();
    assert_eq!(head.content_length, 6);
}

#[test]
fn what_is_wrong_with_a_head_is_told() {
    assert_eq!(parse_head("").unwrap_err(), "missing request line");
    assert_eq!(parse_head("\r\nHost: x").unwrap_err(), "missing method");
    assert_eq!(parse_head("  \t").unwrap_err(), "missing method");
    assert_eq!(parse_head("GET").unwrap_err(), "missing path");
    assert_eq!(
        parse_head("POST /event\r\nContent-Length: 12582913").unwrap_err(),
        "request body is too large"
    );
    assert!(parse_head("POST /event\r\nContent-Length: 12582912").is_ok());
}

#[test]
fn a_request_is_read_however_it_is_cut() {
    let whole = b"POST /event HTTP/1.1\r\nContent-Length: 11\r\n\r\nhello\r\n\r\nxxsurplus";
    let expected = Ok(("POST".to_string(), "/event".to_string(), b"hello\r\n\r\nxx".to_vec()));
    assert_eq!(read(&[whole]), expected);
    for size in 1..whole.len() {
        let reads: Vec<&[u8]> = whole.chunks(size).collect();
        assert_eq!(read(&reads), expected, "{size}");
    }
}

#[test]
fn a_written_request_gives_back_its_body() {
    for body in ["", "x", "{\"type\":\"log\"}", "버튼"] {
        let text = format!("POST /event HTTP/1.1\r\nContent-Length: {}\r\n\r\n{body}", body.len());
        assert_eq!(
            read(&[text.as_bytes()]),
            Ok(("POST".to_string(), "/event".to_string(), body.as_bytes().to_vec()))
        );
    }
}

#[test]
fn a_body_that_is_cut_off_is_kept_as_it_came() {
    assert_eq!(
        read(&[b"POST /event\r\nContent-Length: 9\r\n\r\nabc", b"d"]),
        Ok(("POST".to_string(), "/event".to_string(), b"abcd".to_vec()))
    );
}

#[test]
fn a_connection_without_a_request_fails() {
    assert_eq!(read(&[]), Err("connection closed".to_string()));
    assert_eq!(read(&[b"GET /x\r\n"]), Err("connection closed".to_string()));
    assert_eq!(read(&[b"\r\n\r\n"]), Err("missing request line".to_string()));
    let long = vec![b'a'; 65_536];
    assert_eq!(read(&[&long]), Err("connection closed".to_string()));
    assert_eq!(read(&[&long, b"b"]), Err("request headers are too large".to_string()));
    assert_eq!(
        read(&[&long, b"b", b" c\r\n\r\n"]),
        Err("request headers are too large".to_string())
    );
    assert!(read(&[&long, b" c\r\n\r\n"]).is_ok());
}

#[test]
fn a_head_that_is_not_utf8_is_read_with_replacements() {
    assert_eq!(
        read(&[b"GET /\xff\xc3\xa4\r\n\r\n"]),
        Ok(("GET".to_string(), "/\u{fffd}ä".to_string(), Vec::new()))
    );
}

#[test]
fn only_a_post_to_event_brings_an_event() {
    assert_eq!(reply(route_request(Err("connection closed".to_string()))), (400, "{}"));
    assert_eq!(reply(route_request(request("OPTIONS", "/anything", b""))), (204, ""));
    assert_eq!(reply(route_request(request("GET", "/event", b""))), (404, "{}"));
    assert_eq!(reply(route_request(request("POST", "/events", b""))), (404, "{}"));
    assert_eq!(reply(route_request(request("post", "/event", b""))), (404, "{}"));
    match route_request(request("POST", "/event", b"body")) {
        Route::Event(body) => assert_eq!(body, b"body"),
        Route::Respond(_) => panic!("the request brings an event"),
    }
}

#[test]
fn events_are_answered() {
    let mut state = RuntimeState::default();
    let event = BridgeEvent {
        event_type: "log".to_string(),
        level: None,
        message: None,
        selected: None,
        snapshot: None,
    };
    let answer = state.answer_event(Ok(event));
    assert_eq!((answer.status, answer.body), (200, "{\"ok\":true}"));
    let answer = state.answer_event_at(7, Err("no".to_string()));
    assert_eq!((answer.status, answer.body), (400, "{}"));
    let logs = state.client_state().logs;
    assert_eq!(logs.len(), 2);
    assert_eq!((logs[0].level.as_str(), logs[0].message.as_str()), ("info", "이벤트"));
    assert_eq!(
        (logs[1].ts, logs[1].level.as_str(), logs[1].message.as_str()),
        (7, "error", "브리지 이벤트 파싱 실패: no")
    );
}

#[test]
fn a_reply_goes_over_the_wire() {
    assert_eq!(
        format_response(200, "{\"ok\":true}"),
        "HTTP/1.1 200 OK\r\n\
         Access-Control-Allow-Origin: *\r\n\
         Access-Control-Allow-Methods: POST, OPTIONS\r\n\
         Access-Control-Allow-Headers: content-type\r\n\
         Content-Type: application/json\r\n\
         Content-Length: 11\r\n\
         Connection: close\r\n\r\n{\"ok\":true}"
    );
    assert!(format_response(204, "").starts_with("HTTP/1.1 204 No Content\r\n"));
    assert!(format_response(400, "{}").starts_with("HTTP/1.1 400 Bad Request\r\n"));
    assert!(format_response(404, "{}").starts_with("HTTP/1.1 404 Not Found\r\n"));
    assert!(format_response(500, "{}").starts_with("HTTP/1.1 500 OK\r\n"));
}

#[test]
fn a_reply_announces_the_bytes_of_its_body() {
    let response = format_response(200, "버튼");
    let end = find_header_end(response.as_bytes()).unwrap();
    assert_eq!(&response[end + 4..], "버튼");
    assert_eq!(parse_head(&response[..end]).unwrap().content_length, 6);
}

#[test]
fn a_posted_event_arrives() {
    let body = "{\"type\":\"log\",\"message\":\"눌렀다\"}";
    let text = format!("POST /event HTTP/1.1\r\nContent-Length: {}\r\n\r\n{body}", body.len());
    let reads: Vec<&[u8]> = text.as_bytes().chunks(7).collect();
    let (method, path, body_read) = read(&reads).unwrap();
    match route_request(request(&method, &path, &body_read)) {
        Route::Event(bytes) => assert_eq!(bytes, body.as_bytes()),
        Route::Respond(_) => panic!("the request brings an event"),
    }
}
