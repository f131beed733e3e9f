use bytes::Bytes;
use nucleus_http::http::{Method, Version};
use nucleus_http::request::{Error, FormTypes, MultiPartFormEntry, Request};
use nucleus_http::table::TextMap;

fn assert_headers(headers: &TextMap<String>, expected: &[(&str, &str)]) {
    assert_eq!(expected.len(), headers.len());
    for (key, value) in expected {
        assert_eq!(Some(&value.to_string()), headers.get(key), "header {}", key);
    }
}

fn assert_request(
    request: &Request,
    method: Method,
    path: &str,
    host: &str,
    query_string: Option<&str>,
    headers: &[(&str, &str)],
) {
    assert_eq!(method, *request.method());
    assert_eq!(Version::V1_1, request.version());
    assert_eq!(path, request.path());
    assert_eq!(host, request.hostname());
    assert_eq!(query_string.map(|q| q.to_string()).as_ref(), request.query_string());
    assert_headers(request.headers(), headers);
    assert_eq!(&Vec::<u8>::new(), request.body());
    assert!(request.keep_alive());
}

#[test]
fn x_url_encoded_form() {
    let request_str = Bytes::from_static(
        b"POST /test HTTP/1.1\r\n\
            Host: foo.example\r\n\
            Content-Type: application/x-www-form-urlencoded\r\n\
            Content-Length: 27\r\n\r\n\
            field1=value1&field2=value2",
    );
    let request = Request::from_bytes(request_str).expect("Could not build request");
    assert_request(
        &request,
        Method::POST,
        "/test",
        "foo.example",
        None,
        &[
            ("host", "foo.example"),
            ("content-type", "application/x-www-form-urlencoded"),
            ("content-length", "27"),
        ],
    );
    match request.form_data() {
        FormTypes::XUrlEncoded(map) => {
            assert_eq!(2, map.len());
            assert_eq!(Some(&"value1".to_string()), map.get("field1"));
            assert_eq!(Some(&"value2".to_string()), map.get("field2"));
        }
        other => panic!("wrong form: {:?}", other),
    }
}

#[test]
fn multipart_form() {
    let field1 = MultiPartFormEntry::name_value("field1", "value1");
    let field2 = MultiPartFormEntry::file("field2", "example.txt", "value2");
    let request_str = Bytes::from_static(
        b"POST /test HTTP/1.1\r\n\
        Host: foo.example\r\n\
        Content-Type: multipart/form-data;boundary=\"boundary\"\r\n\
        \r\n\
        --boundary\r\n\
        Content-Disposition: form-data; name=\"field1\"\r\n\
        \r\n\
        value1\r\n\
        --boundary\r\n\
        Content-Disposition: form-data; name=\"field2\"; filename=\"example.txt\"\r\n\
        \r\n\
        value2\r\n\
        --boundary--",
    );

    let request = Request::from_bytes(request_str).expect("Could not build request");
    assert_request(
        &request,
        Method::POST,
        "/test",
        "foo.example",
        None,
        &[
            ("host", "foo.example"),
            ("content-type", "multipart/form-data;boundary=\"boundary\""),
        ],
    );
    match request.form_data() {
        FormTypes::MultiPart(map) => {
            assert_eq!(2, map.len());
            assert_eq!(Some(&field1), map.get("field1"));
            assert_eq!(Some(&field2), map.get("field2"));
        }
        other => panic!("wrong form: {:?}", other),
    }
}

#[test]
fn get_wrong_version_new() {
    let expected = Error::InvalidHTTPVersion;
    let request = Request::from_bytes(Bytes::from_static(b"GET / HTTP1.1\r\nHost: test\r\n\r\n"));
    assert_eq!(Some(expected), request.err());
}

#[test]
fn no_blank_line_new() {
    let expected = Error::MissingBlankLine;
    let req_str = Bytes::from_static(b"GET / HTTP/1.1");
    let request = Request::from_bytes(req_str);
    assert_eq!(Some(expected), request.err());
}

#[test]
fn new() {
    let request = Request::from_bytes(Bytes::from_static(b"GET / HTTP/1.1\r\nHost: test\r\n\r\n"))
        .expect("Error Parsing");
    assert_request(&request, Method::GET, "/", "test", None, &[("host", "test")]);
    assert!(matches!(request.form_data(), FormTypes::Absent));
}

#[test]
fn new_query_string() {
    let request = Request::from_bytes(Bytes::from_static(
        b"GET /index.html?test=true HTTP/1.1\r\nHost: test\r\n\r\n",
    ))
    .expect("Error Parsing");
    assert_request(
        &request,
        Method::GET,
        "/index.html",
        "test",
        Some("test=true"),
        &[("host", "test")],
    );
    assert!(matches!(request.form_data(), FormTypes::Absent));
}

#[test]
fn new_headers() {
    let request = Request::from_string(
        "GET / HTTP/1.1\r\nhost: test\r\nheader1: hi\r\nheader2: Bye\r\n\r\n".to_owned(),
    )
    .expect("Error Parsing");
    assert_request(
        &request,
        Method::GET,
        "/",
        "test",
        None,
        &[("host", "test"), ("header1", "hi"), ("header2", "Bye")],
    );
    assert!(matches!(request.form_data(), FormTypes::Absent));
}

#[test]
fn empty_string() {
    let request = Request::from_string("".to_owned());
    if let Err(error) = request {
        assert!(error == Error::InvalidString);
    } else {
        panic!("No error");
    }
}
