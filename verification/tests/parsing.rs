use pico_http::kvmap::{GetAs, GetStr};
use pico_http::request::{HttpRequest, Method};
use pico_http::response::StatusCode;

#[test]
fn parses_plain_get_request() {
    let req = HttpRequest::parse(b"GET /data HTTP/1.1\r\nHost: h\r\n\r\n").unwrap();
    assert_eq!(req.method, Method::GET);
    assert_eq!(req.path.as_slice(), b"/data");
    assert!(req.parameters.is_none());
    assert!(req.payload.is_none());
}

#[test]
fn parses_each_method_token() {
    let cases: Vec<(&[u8], Method)> = vec![
        (b"GET", Method::GET),
        (b"POST", Method::POST),
        (b"PUT", Method::PUT),
        (b"DELETE", Method::DELETE),
        (b"PATCH", Method::PATCH),
        (b"HEAD", Method::HEAD),
        (b"OPTIONS", Method::OPTIONS),
        (b"TRACE", Method::TRACE),
    ];
    for (token, expected) in cases {
        assert_eq!(Method::try_from(token), Ok(expected));
    }
}

#[test]
fn unknown_method_token_is_bad_request() {
    assert_eq!(Method::try_from(b"FETCH"), Err(StatusCode::BadRequest));
    assert_eq!(Method::try_from(b"get"), Err(StatusCode::BadRequest));
    assert_eq!(Method::try_from(b""), Err(StatusCode::BadRequest));
}

#[test]
fn missing_blank_line_is_bad_request() {
    let r = HttpRequest::parse(b"GET /data HTTP/1.1\r\nHost: h\r\n");
    assert_eq!(r.err().unwrap(), StatusCode::BadRequest);
}

#[test]
fn missing_line_break_after_start_line_is_bad_request() {
    // the blank line opens the buffer: the header block is empty
    let r = HttpRequest::parse(b"\r\n\r\nGET /data HTTP/1.1");
    assert_eq!(r.err().unwrap(), StatusCode::BadRequest);
}

#[test]
fn missing_version_token_is_bad_request() {
    let r = HttpRequest::parse(b"GET /data\r\nHost: h\r\n\r\n");
    assert_eq!(r.err().unwrap(), StatusCode::BadRequest);
}

#[test]
fn query_parameters_are_parsed() {
    let req = HttpRequest::parse(b"GET /data?t=1&h=2 HTTP/1.1\r\nHost: h\r\n\r\n").unwrap();
    assert_eq!(req.method, Method::GET);
    assert_eq!(req.path.as_slice(), b"/data");
    let params = req.parameters.as_ref().unwrap();
    assert_eq!(params.get(b"t").unwrap().as_slice(), b"1");
    assert_eq!(params.get(b"h").unwrap().as_slice(), b"2");
    assert!(params.get(b"x").is_none());
}

#[test]
fn malformed_second_pair_is_unprocessable() {
    let r = HttpRequest::parse(b"GET /data?t=1&h HTTP/1.1\r\nHost: h\r\n\r\n");
    assert_eq!(r.err().unwrap(), StatusCode::UnprocessableContent);
}

#[test]
fn path_of_length_33_is_uri_too_long() {
    // the path "/aaa...a" holds exactly 33 bytes and must be rejected,
    // never truncated to 32
    let mut request = b"GET /".to_vec();
    request.extend_from_slice(&[b'a'; 32]);
    request.extend_from_slice(b" HTTP/1.1\r\nHost: h\r\n\r\n");
    let r = HttpRequest::parse(&request);
    assert_eq!(r.err().unwrap(), StatusCode::UriTooLong);
}

#[test]
fn path_of_length_32_is_accepted() {
    let mut request = b"GET /".to_vec();
    request.extend_from_slice(&[b'a'; 31]);
    request.extend_from_slice(b" HTTP/1.1\r\nHost: h\r\n\r\n");
    let req = HttpRequest::parse(&request).unwrap();
    assert_eq!(req.path.len(), 32);
}

#[test]
fn body_is_parsed_as_payload() {
    let req =
        HttpRequest::parse(b"POST /rtc HTTP/1.1\r\nHost: h\r\n\r\ny=2024&mo=11&d=23").unwrap();
    assert_eq!(req.method, Method::POST);
    assert!(req.parameters.is_none());
    let payload = req.payload.as_ref().unwrap();
    assert_eq!(payload.get(b"y").unwrap().as_slice(), b"2024");
    assert_eq!(payload.get(b"mo").unwrap().as_slice(), b"11");
    assert_eq!(payload.get(b"d").unwrap().as_slice(), b"23");
}

#[test]
fn empty_body_means_no_payload() {
    let req = HttpRequest::parse(b"POST /rtc HTTP/1.1\r\nHost: h\r\n\r\n").unwrap();
    assert!(req.payload.is_none());
}

#[test]
fn overlong_key_is_uri_too_long() {
    // a key of 17 bytes exceeds the entry bound
    let r = HttpRequest::parse(b"GET /d?aaaaaaaaaaaaaaaaa=1 HTTP/1.1\r\nH: h\r\n\r\n");
    assert_eq!(r.err().unwrap(), StatusCode::UriTooLong);
}

#[test]
fn overlong_value_is_uri_too_long() {
    let r = HttpRequest::parse(b"GET /d?a=bbbbbbbbbbbbbbbbb HTTP/1.1\r\nH: h\r\n\r\n");
    assert_eq!(r.err().unwrap(), StatusCode::UriTooLong);
}

#[test]
fn key_and_value_of_16_bytes_are_accepted() {
    let req =
        HttpRequest::parse(b"GET /d?aaaaaaaaaaaaaaaa=bbbbbbbbbbbbbbbb HTTP/1.1\r\nH: h\r\n\r\n")
            .unwrap();
    let params = req.parameters.as_ref().unwrap();
    assert_eq!(
        params.get(b"aaaaaaaaaaaaaaaa").unwrap().as_slice(),
        b"bbbbbbbbbbbbbbbb"
    );
}

#[test]
fn ninth_pair_is_uri_too_long() {
    let r = HttpRequest::parse(b"GET /d?a=1&b=2&c=3&d=4&e=5&f=6&g=7&h=8&i=9 HTTP/1.1\r\nH: h\r\n\r\n");
    assert_eq!(r.err().unwrap(), StatusCode::UriTooLong);
}

#[test]
fn eight_pairs_are_accepted() {
    let req =
        HttpRequest::parse(b"GET /d?a=1&b=2&c=3&d=4&e=5&f=6&g=7&h=8 HTTP/1.1\r\nH: h\r\n\r\n")
            .unwrap();
    let params = req.parameters.as_ref().unwrap();
    assert_eq!(params.get(b"a").unwrap().as_slice(), b"1");
    assert_eq!(params.get(b"h").unwrap().as_slice(), b"8");
}

#[test]
fn duplicate_key_last_write_wins() {
    let req = HttpRequest::parse(b"GET /d?a=1&a=2 HTTP/1.1\r\nH: h\r\n\r\n").unwrap();
    let params = req.parameters.as_ref().unwrap();
    assert_eq!(params.get(b"a").unwrap().as_slice(), b"2");
}

#[test]
fn get_identification_returns_path_and_method() {
    let req = HttpRequest::parse(b"POST /rtc HTTP/1.1\r\nHost: h\r\n\r\n").unwrap();
    let (path, method) = req.get_identification();
    assert_eq!(path.as_slice(), b"/rtc");
    assert_eq!(method, Method::POST);
}

#[test]
fn get_str_returns_stored_value() {
    let req = HttpRequest::parse(b"GET /d?name=pico HTTP/1.1\r\nH: h\r\n\r\n").unwrap();
    let params = req.parameters.as_ref().unwrap();
    assert_eq!(params.get_str(b"name").unwrap().as_slice(), b"pico");
    assert!(params.get_str(b"missing").is_err());
}

#[test]
fn get_as_reads_numbers() {
    let req = HttpRequest::parse(b"GET /d?y=2024&mo=11 HTTP/1.1\r\nH: h\r\n\r\n").unwrap();
    let params = req.parameters.as_ref().unwrap();
    let year: u16 = params.get_as(b"y").unwrap();
    assert_eq!(year, 2024);
    let month: u8 = params.get_as(b"mo").unwrap();
    assert_eq!(month, 11);
}

#[test]
fn get_as_accepts_leading_plus_sign() {
    let req = HttpRequest::parse(b"GET /d?y=+7 HTTP/1.1\r\nH: h\r\n\r\n").unwrap();
    let params = req.parameters.as_ref().unwrap();
    let v: u8 = params.get_as(b"y").unwrap();
    assert_eq!(v, 7);
}

#[test]
fn get_as_rejects_out_of_range_and_malformed() {
    let req = HttpRequest::parse(b"GET /d?a=256&b=12x&c=&e=65536 HTTP/1.1\r\nH: h\r\n\r\n").unwrap();
    let params = req.parameters.as_ref().unwrap();
    let a: Result<u8, ()> = params.get_as(b"a");
    assert!(a.is_err());
    let b: Result<u8, ()> = params.get_as(b"b");
    assert!(b.is_err());
    let c: Result<u8, ()> = params.get_as(b"c");
    assert!(c.is_err());
    let e: Result<u16, ()> = params.get_as(b"e");
    assert!(e.is_err());
    let missing: Result<u8, ()> = params.get_as(b"zz");
    assert!(missing.is_err());
}
