use pico_http::handlers::StaticPageHandler;
use pico_http::request::{HttpRequest, Method};
use pico_http::response::{HttpResponse, StatusCode};
use pico_http::router::Router;

fn page(text: &[u8]) -> StaticPageHandler {
    StaticPageHandler { page: text.to_vec() }
}

#[test]
fn dispatch_miss_is_not_found_with_empty_body() {
    let router: Router<StaticPageHandler> =
        Router::empty().route(b"/", Method::GET, page(b"index")).unwrap();
    let req = HttpRequest::parse(b"GET /absent HTTP/1.1\r\nHost: h\r\n\r\n").unwrap();
    let resp: HttpResponse<4096> = router.handle(req);
    assert_eq!(resp.header.status(), StatusCode::NotFound);
    assert_eq!(resp.header.content_length(), 0);
    assert!(resp.content.is_empty());
}

#[test]
fn dispatch_hit_invokes_registered_handler() {
    let router: Router<StaticPageHandler> =
        Router::empty().route(b"/", Method::GET, page(b"index")).unwrap();
    let req = HttpRequest::parse(b"GET / HTTP/1.1\r\nHost: h\r\n\r\n").unwrap();
    let resp: HttpResponse<4096> = router.handle(req);
    assert_eq!(resp.header.status(), StatusCode::Okay);
    assert_eq!(resp.content.as_slice(), b"index");
}

#[test]
fn lookup_is_over_the_full_path_method_pair() {
    // a path registered only for GET and requested with POST falls through
    // to a not-found response, not to a method-not-allowed one
    let router: Router<StaticPageHandler> =
        Router::empty().route(b"/", Method::GET, page(b"index")).unwrap();
    let req = HttpRequest::parse(b"POST / HTTP/1.1\r\nHost: h\r\n\r\n").unwrap();
    let resp: HttpResponse<4096> = router.handle(req);
    assert_eq!(resp.header.status(), StatusCode::NotFound);
}

#[test]
fn routes_differing_only_in_method_are_distinct() {
    let router: Router<StaticPageHandler> = Router::empty()
        .route(b"/rtc", Method::GET, page(b"get"))
        .unwrap()
        .route(b"/rtc", Method::POST, page(b"post"))
        .unwrap();
    let get = HttpRequest::parse(b"GET /rtc HTTP/1.1\r\nHost: h\r\n\r\n").unwrap();
    let post = HttpRequest::parse(b"POST /rtc HTTP/1.1\r\nHost: h\r\n\r\n").unwrap();
    let get_resp: HttpResponse<4096> = router.handle(get);
    let post_resp: HttpResponse<4096> = router.handle(post);
    assert_eq!(get_resp.content.as_slice(), b"get");
    assert_eq!(post_resp.content.as_slice(), b"post");
}

#[test]
fn thirty_third_route_fails_at_registration() {
    // the table holds 32 routes; the 33rd is reported, never dropped
    let mut router: Router<u32> = Router::empty();
    let mut names: Vec<Vec<u8>> = Vec::new();
    for i in 0..33u32 {
        names.push(format!("/route{}", i).into_bytes());
    }
    for i in 0..32usize {
        router = router.route(&names[i], Method::GET, i as u32).unwrap();
    }
    let r = router.route(&names[32], Method::GET, 32);
    assert!(r.is_err());
}

#[test]
fn registering_the_same_key_twice_fails() {
    let router: Router<u32> = Router::empty().route(b"/", Method::GET, 1).unwrap();
    let r = router.route(b"/", Method::GET, 2);
    assert!(r.is_err());
}

#[test]
fn lookup_returns_registered_handler() {
    let router: Router<u32> = Router::empty()
        .route(b"/a", Method::GET, 10)
        .unwrap()
        .route(b"/b", Method::POST, 20)
        .unwrap();
    assert_eq!(router.lookup(b"/a", Method::GET), Some(&10));
    assert_eq!(router.lookup(b"/b", Method::POST), Some(&20));
    assert_eq!(router.lookup(b"/a", Method::POST), None);
    assert_eq!(router.lookup(b"/c", Method::GET), None);
}
