use nucleus_http::connection::{
    after_refusal, after_response, bad_request, decide, on_bytes, peer_closed, reserve_for, Next,
    ReceiveBuffer, Step,
};
use nucleus_http::http::{Header, IntoHeader, Method, MimeType, StatusCode, Version};
use nucleus_http::methods::get::{file_name, handled, loaded, response};
use nucleus_http::request::{Error, Request};
use nucleus_http::response::{respond, IntoResponse, Response};
use nucleus_http::search::{
    cut_bytes, cut_chars, find_byte, find_bytes, find_chars, split_bytes, split_chars,
};
use nucleus_http::text::{chars_of, decimal_text, parse_usize, same_bytes};

#[test]
fn response_on_the_wire() {
    let mut response = Response::new(StatusCode::OK, b"hello".to_vec(), MimeType::HTML);
    response.add_header(("X-One", "1"));
    response.add_header(Header::new("X-Two", "2"));
    let expected = "HTTP/1.1 200 OK\r\n\
        Content-Length: 5\r\n\
        Content-Type: text/html; charset=utf-8\r\n\
        x-one: 1\r\n\
        x-two: 2\r\n\
        \r\n\
        hello";
    assert_eq!(expected.as_bytes(), response.to_send_buffer().as_slice());
    assert_eq!(expected, response.to_text());
    assert_eq!(expected.len() - 5, response.head().len());
}

#[test]
fn response_without_headers_or_body() {
    let response = Response::error(StatusCode::ErrNotFound, Vec::new());
    assert_eq!(
        b"HTTP/1.1 404 Not Found\r\nContent-Length: 0\r\nContent-Type: text/plain; charset=utf-8\r\n\r\n"
            .as_slice(),
        response.to_send_buffer().as_slice()
    );
    let mut binary = Response::from(vec![0u8, 159, 146, 150]);
    assert_eq!(MimeType::Binary, binary.mime());
    assert_eq!(
        b"HTTP/1.1 200 OK\r\nContent-Length: 4\r\nContent-Type: application/octet-stream;\r\n\r\n\x00\x9f\x92\x96"
            .as_slice(),
        binary.to_send_buffer().as_slice()
    );
    binary.set_mime(MimeType::Custom("application/x-own"));
    assert_eq!(MimeType::Custom("application/x-own"), binary.mime());
    assert!(binary
        .to_text()
        .contains("Content-Type: application/x-own; charset=utf-8\r\n"));
    assert_eq!(Version::V1_1, binary.version());
}

#[test]
fn responses_from_values() {
    let page = Response::from("<p>".to_string());
    assert_eq!(StatusCode::OK, page.status());
    assert_eq!(MimeType::HTML, page.mime());
    assert_eq!(b"<p>", page.body());
    assert_eq!(page, "<p>".into_response());
    assert_eq!(page, Response::from("<p>"));
    let failed = Response::internal_error();
    assert_eq!(StatusCode::InternalServerError, failed.status());
    assert_eq!(500, failed.status().code());
    assert_eq!(b"<h1>Error 500 Internal Server Error</h1>\r\n", failed.body());
    let good: Result<&str, Vec<u8>> = Ok("fine");
    assert_eq!(MimeType::HTML, respond(good).mime());
    let bad: Result<&str, Vec<u8>> = Err(vec![1]);
    assert_eq!(MimeType::Binary, respond(bad).mime());
}

#[test]
fn status_codes_and_names() {
    assert_eq!("200 OK", StatusCode::OK.as_str());
    assert_eq!("301 Moved Permanently", StatusCode::MovedPermanetly.as_str());
    assert_eq!("302 Found", StatusCode::Found.as_str());
    assert_eq!(302, StatusCode::Found.code());
    assert_eq!("400 Bad Request", StatusCode::BadRequest.as_str());
    assert_eq!(400, StatusCode::BadRequest.code());
    assert_eq!("403 Forbidden", StatusCode::ErrForbidden.as_str());
    assert_eq!(403, StatusCode::ErrForbidden.code());
    assert_eq!("500 Internal Server Error", StatusCode::InternalServerError.as_str());
    assert_eq!("GET", Method::GET.as_str());
    assert_eq!("POST", Method::POST.as_str());
    assert_eq!(Some(Method::POST), Method::from_token(b"POST"));
    assert_eq!(None, Method::from_token(b"post"));
    assert_eq!(Some(Method::GET), Method::from_word("GET"));
    assert_eq!(Ok(Method::GET), Method::try_from(b"GET".as_slice()));
    assert_eq!(Err("Invalid Method".to_string()), Method::try_from(b"GE".as_slice()));
    assert_eq!(Ok(Version::V1_0), Version::try_from(b"HTTP/1.0".as_slice()));
    assert_eq!(Err("invalid version".to_string()), Version::try_from(b"HTTP/1".as_slice()));
    assert_eq!(Some(Version::V2_0), Version::from_word("HTTP/2.2"));
    assert_eq!("", Version::V0_9.as_str());
    assert_eq!("HTTP/2", Version::V2_0.as_str());
}

#[test]
fn media_types() {
    assert_eq!("text/html; charset=utf-8", MimeType::HTML.to_content_type());
    assert_eq!("image/png; charset=utf-8", MimeType::PNG.to_content_type());
    assert_eq!("image/jpeg;", MimeType::JPEG.to_content_type());
    assert_eq!("image/svg+xml;", MimeType::SVG.to_content_type());
    assert_eq!("image/vnd.microsoft.icon", MimeType::Icon.media_type());
    assert_eq!("application/json", MimeType::Json.media_type());
    assert_eq!("text/javascript", MimeType::JavaScript.media_type());
    assert_eq!("text/css", MimeType::CSS.media_type());
    assert_eq!("x/y", MimeType::Custom("x/y").media_type());
    assert_eq!(Some("utf-8"), MimeType::PlainText.charset());
    assert_eq!(None, MimeType::Binary.charset());
    assert_eq!(None, MimeType::HTML.boundary());
    assert!(MimeType::Custom("x/y").same_as(&MimeType::Custom("x/y")));
    assert!(!MimeType::Custom("x/y").same_as(&MimeType::Custom("x/z")));
    assert!(!MimeType::HTML.same_as(&MimeType::PlainText));
    assert!(MimeType::CSS.same_as(&MimeType::CSS));
}

#[test]
fn headers_from_values() {
    let header = Header::new("Content-Language", "EN");
    assert_eq!("content-language", header.key);
    assert_eq!("EN", header.value);
    assert_eq!(header, (&header).into_header());
    assert_eq!(header, ("CONTENT-LANGUAGE", &"EN".to_string()).into_header());
    assert_eq!(header.clone(), header.into_header());
    assert_eq!("stra\u{df}e", Header::new("STRA\u{df}E", "").key);
}

#[test]
fn steps_of_the_connection_loop() {
    assert!(matches!(on_bytes(b"GET / HTTP/1.1\r\n", 0), Step::Wait { reserve: 0 }));
    let waiting = b"POST / HTTP/1.1\r\nHost: a\r\nContent-Length: 5000\r\n\r\nabc";
    assert!(matches!(on_bytes(waiting, 1000), Step::Wait { reserve: 3997 }));
    assert!(matches!(on_bytes(waiting, 4997), Step::Wait { reserve: 0 }));
    assert!(matches!(on_bytes(waiting, 9000), Step::Wait { reserve: 0 }));
    match on_bytes(b"GET / HTTP/1.1\r\nHost: a\r\n\r\n", 10) {
        Step::Dispatch(request) => assert_eq!("/", request.path()),
        _ => panic!("not dispatched"),
    }
    match on_bytes(b"", 10) {
        Step::Reject(response) => {
            assert_eq!(StatusCode::BadRequest, response.status());
            assert_eq!(MimeType::PlainText, response.mime());
            assert_eq!(b"400 bad request: Invalid String", response.body());
        }
        _ => panic!("not refused"),
    }
    match decide(Err(Error::NoHostHeader), 0) {
        Step::Reject(response) => {
            assert_eq!(b"400 bad request: No VHost Specified", response.body())
        }
        _ => panic!("not refused"),
    }
    assert_eq!(
        b"400 bad request: Invalid Method Requested",
        bad_request(Error::InvalidMethod).body()
    );
    assert_eq!(0, reserve_for(Error::WaitingOnBody(None), 5));
    assert_eq!(0, reserve_for(Error::MissingBlankLine, 5));
    assert_eq!(2, reserve_for(Error::WaitingOnBody(Some(7)), 5));
    assert_eq!(0, reserve_for(Error::WaitingOnBody(Some(5)), 5));
    assert!(peer_closed(0));
    assert!(!peer_closed(1));
    assert_eq!(Next::ClearAndReadOn, after_response(true, true));
    assert_eq!(Next::Close, after_response(false, true));
    assert_eq!(Next::ReadOn, after_response(true, false));
    assert_eq!(Next::ReadOn, after_response(false, false));
    assert_eq!(Next::ClearAndReadOn, after_refusal(true));
    assert_eq!(Next::ReadOn, after_refusal(false));
}

#[test]
fn answers_as_text() {
    assert_eq!(
        "HTTP/1.1 200 OK\r\nContent-Length: 5\r\n\r\nb\u{f6}dy",
        response("b\u{f6}dy".to_string(), "HTTP/1.1 200 OK\r\n".to_string())
    );
    let root = Request::parse(b"GET / HTTP/1.1\r\nHost: a\r\n\r\n").unwrap();
    assert_eq!("index.html", file_name(&root));
    let other = Request::parse(b"GET /a.txt HTTP/1.0\r\nHost: a\r\n\r\n").unwrap();
    assert_eq!("/a.txt", file_name(&other));
    assert_eq!(
        "HTTP/1.0 200 OK\r\nContent-Length: 1\r\n\r\nx",
        handled(&other, Some("x".to_string()), "gone".to_string())
    );
    assert_eq!(
        "HTTP/1.0 200 OK\r\nContent-Length: 4\r\n\r\ngone",
        handled(&other, None, "gone".to_string())
    );
    assert_eq!(
        "HTTP/1.0 200 OK\r\nContent-Length: 1\r\n\r\nx",
        loaded(&other, Some("x".to_string()))
    );
    assert_eq!(
        "HTTP/1.0 404 Not Found\r\nContent-Length: 14\r\n\r\nfile Not found",
        loaded(&other, None)
    );
}

#[test]
fn numbers_and_text() {
    assert_eq!("0", decimal_text(0));
    assert_eq!("7", decimal_text(7));
    assert_eq!("10", decimal_text(10));
    assert_eq!("1234567890", decimal_text(1234567890));
    assert_eq!(usize::MAX.to_string(), decimal_text(usize::MAX));
    let parse = |text: &str| parse_usize(&chars_of(text));
    assert_eq!(Some(0), parse("0"));
    assert_eq!(Some(27), parse("27"));
    assert_eq!(Some(27), parse("+0027"));
    assert_eq!(Some(usize::MAX), parse(&usize::MAX.to_string()));
    assert_eq!(None, parse(&format!("{}0", usize::MAX)));
    assert_eq!(None, parse(""));
    assert_eq!(None, parse("+"));
    assert_eq!(None, parse("-1"));
    assert_eq!(None, parse("1 "));
    assert_eq!(None, parse("++1"));
    assert_eq!(None, parse("\u{663}"));
    assert_eq!(vec!['a', '\u{e9}', '\u{1f600}'], chars_of("a\u{e9}\u{1f600}"));
    assert!(same_bytes(b"ab", b"ab"));
    assert!(!same_bytes(b"ab", b"ac"));
    assert!(!same_bytes(b"ab", b"abc"));
}

#[test]
fn searching_and_splitting() {
    assert_eq!(Some(1), find_bytes(b"a\r\n\r\n\r\n", b"\r\n\r\n"));
    assert_eq!(None, find_bytes(b"a\r\n\r", b"\r\n\r\n"));
    assert_eq!(Some(0), find_bytes(b"abc", b""));
    assert_eq!(Some(2), find_byte(b"abcabc", b'c'));
    assert_eq!(None, find_byte(b"abcabc", b'd'));
    let text: Vec<char> = "a; b; ; c".chars().collect();
    let mark: Vec<char> = "; ".chars().collect();
    assert_eq!(Some(1), find_chars(&text, &mark));
    assert_eq!(None, find_chars(&mark, &text));
    let parts: Vec<String> =
        split_chars(&text, &mark).iter().map(|part| part.iter().collect()).collect();
    assert_eq!(vec!["a", "b", "", "c"], parts);
    assert_eq!(vec![b"".as_slice(), b"", b"", b""], split_bytes(b"aaaaaa", b"aa"));
    assert_eq!(vec![b"".as_slice(), b"", b"a"], split_bytes(b"aaaaa", b"aa"));
    assert_eq!(vec![b"abc".as_slice()], split_bytes(b"abc", b"x"));
    assert_eq!((b"k".as_slice(), Some(b"v=w".as_slice())), cut_bytes(b"k=v=w", b"="));
    assert_eq!((b"k".as_slice(), None), cut_bytes(b"k", b"="));
    let (first, rest) = cut_chars(&text, &mark);
    assert_eq!(vec!['a'], first);
    assert_eq!(Some("b; ; c".chars().collect::<Vec<char>>().as_slice()), rest);
}

#[test]
fn request_in_chunks_is_dispatched_once_whole() {
    let whole = b"POST /p HTTP/1.1\r\nHost: a\r\nContent-Length: 6\r\n\r\nabcdef";
    for size in 1..whole.len() {
        let mut buffer = ReceiveBuffer::new();
        let chunks: Vec<&[u8]> = whole.chunks(size).collect();
        for (i, chunk) in chunks.iter().enumerate() {
            let step = buffer.receive(chunk);
            if i + 1 < chunks.len() {
                assert!(matches!(step, Step::Wait { .. }), "chunks of {}", size);
            } else {
                match step {
                    Step::Dispatch(request) => assert_eq!(b"abcdef", request.body().as_slice()),
                    _ => panic!("not dispatched with chunks of {}", size),
                }
            }
        }
        assert_eq!(whole.as_slice(), buffer.bytes());
        buffer.advance(Next::ReadOn);
        assert_eq!(whole.as_slice(), buffer.bytes());
        buffer.advance(Next::ClearAndReadOn);
        assert!(buffer.bytes().is_empty());
        assert!(matches!(buffer.receive(b"GET / HTTP/1.1\r\n"), Step::Wait { reserve: 0 }));
    }
}

#[test]
fn declared_length_beyond_any_memory_does_not_stop_the_buffer() {
    let mut buffer = ReceiveBuffer::new();
    let head = format!("POST / HTTP/1.1\r\nHost: a\r\nContent-Length: {}\r\n\r\n", usize::MAX);
    match buffer.receive(head.as_bytes()) {
        Step::Wait { reserve } => assert_eq!(usize::MAX, reserve),
        _ => panic!("not waiting"),
    }
    assert!(matches!(buffer.receive(b"x"), Step::Wait { .. }));
    let mut refused = ReceiveBuffer::new();
    assert!(matches!(refused.receive(b"BREW / HTTP/1.1\r\nHost: a\r\n\r\n"), Step::Reject(_)));
    refused.advance(Next::Close);
    assert!(!refused.bytes().is_empty());
}
