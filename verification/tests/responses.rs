use pico_http::response::{HttpResponse, HttpResponseHeader, StatusCode};

#[test]
fn build_ok_abc_has_exact_header() {
    let resp: HttpResponse<4096> = HttpResponse::from_slice(StatusCode::Okay, b"abc").unwrap();
    assert_eq!(resp.header.content_length(), 3);
    assert_eq!(resp.header.status(), StatusCode::Okay);
    let header = resp.header.to_bytes();
    assert_eq!(
        header.as_slice(),
        b"HTTP/1.1 200 OK\r\nContent-Type: text/html\r\n\r\nContent-Length: 3\r\n\r\n".as_slice()
    );
}

#[test]
fn whole_response_is_header_then_body() {
    let resp: HttpResponse<4096> = HttpResponse::from_slice(StatusCode::Okay, b"abc").unwrap();
    let wire = resp.to_bytes();
    assert_eq!(
        wire.as_slice(),
        b"HTTP/1.1 200 OK\r\nContent-Type: text/html\r\n\r\nContent-Length: 3\r\n\r\nabc"
            .as_slice()
    );
}

#[test]
fn status_codes_and_reasons_are_fixed() {
    let cases: Vec<(StatusCode, u16, &[u8])> = vec![
        (StatusCode::Okay, 200, b"OK"),
        (StatusCode::BadRequest, 400, b"Bad Request"),
        (StatusCode::NotFound, 404, b"Not Found"),
        (StatusCode::MethodNotAllowed, 405, b"Method Not Allowed"),
        (StatusCode::UriTooLong, 414, b"URI Too Long"),
        (StatusCode::UnprocessableContent, 422, b"Unprocessable Content"),
        (StatusCode::InternalServerError, 500, b"Internal Server Error"),
        (StatusCode::NotImplemented, 501, b"Not Implemented"),
    ];
    for (status, code, reason) in cases {
        assert_eq!(status.code(), code);
        assert_eq!(status.reason().as_slice(), reason);
    }
}

#[test]
fn content_length_is_recomputed_from_body() {
    let body = vec![7u8; 100];
    let resp: HttpResponse<4096> = HttpResponse::new(StatusCode::Okay, body);
    assert_eq!(resp.header.content_length(), 100);
    assert_eq!(resp.content.len(), 100);
}

#[test]
fn from_slice_rejects_body_over_capacity() {
    let body = [0u8; 17];
    let r: Result<HttpResponse<16>, ()> = HttpResponse::from_slice(StatusCode::Okay, &body);
    assert!(r.is_err());
    let ok: Result<HttpResponse<16>, ()> = HttpResponse::from_slice(StatusCode::Okay, &body[..16]);
    assert!(ok.is_ok());
}

#[test]
fn empty_response_has_no_body() {
    let resp: HttpResponse<4096> = HttpResponse::empty(StatusCode::NotFound);
    assert_eq!(resp.header.content_length(), 0);
    assert!(resp.content.is_empty());
    let header = resp.header.to_bytes();
    assert_eq!(
        header.as_slice(),
        b"HTTP/1.1 404 Not Found\r\nContent-Type: text/html\r\n\r\nContent-Length: 0\r\n\r\n"
            .as_slice()
    );
}

#[test]
fn header_new_stores_status_and_length() {
    let h = HttpResponseHeader::new(StatusCode::UriTooLong, 12);
    assert_eq!(h.status(), StatusCode::UriTooLong);
    assert_eq!(h.content_length(), 12);
    assert_eq!(
        h.to_bytes().as_slice(),
        b"HTTP/1.1 414 URI Too Long\r\nContent-Type: text/html\r\n\r\nContent-Length: 12\r\n\r\n"
            .as_slice()
    );
}
