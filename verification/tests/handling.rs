use pico_http::handlers::{
    parse_day_of_week, set_time, set_time_response, write_temperature, write_time, ClockReadHandler,
    DateTime, DayOfWeek, SensorReadHandler, SensorReading, StaticPageHandler,
};
use pico_http::request::HttpRequest;
use pico_http::response::{HttpResponse, StatusCode};
use pico_http::router::RequestHandler;

fn sample_datetime() -> DateTime {
    DateTime {
        year: 2024,
        month: 11,
        day: 23,
        day_of_week: DayOfWeek::Saturday,
        hour: 9,
        minute: 5,
        second: 30,
    }
}

#[test]
fn time_is_rendered_with_padded_clock_fields() {
    let mut buffer: Vec<u8> = Vec::new();
    write_time(&mut buffer, Some(sample_datetime()));
    assert_eq!(buffer.as_slice(), b"2024-11-23 09:05:30");
}

#[test]
fn absent_clock_renders_nothing() {
    let mut buffer: Vec<u8> = Vec::new();
    write_time(&mut buffer, None);
    assert!(buffer.is_empty());
}

#[test]
fn temperature_is_rendered_with_humidity() {
    let mut buffer: Vec<u8> = Vec::new();
    write_temperature(&mut buffer, Some(SensorReading { temperature: 21, humidity: 40 }));
    assert_eq!(buffer.as_slice(), b"T: 21 Rh: 40");
}

#[test]
fn negative_temperature_keeps_its_sign() {
    let mut buffer: Vec<u8> = Vec::new();
    write_temperature(&mut buffer, Some(SensorReading { temperature: -3, humidity: 87 }));
    assert_eq!(buffer.as_slice(), b"T: -3 Rh: 87");
}

#[test]
fn day_names_parse_to_days() {
    let cases: Vec<(&[u8], DayOfWeek)> = vec![
        (b"Mon", DayOfWeek::Monday),
        (b"Tue", DayOfWeek::Tuesday),
        (b"Wed", DayOfWeek::Wednesday),
        (b"Thu", DayOfWeek::Thursday),
        (b"Fri", DayOfWeek::Friday),
        (b"Sat", DayOfWeek::Saturday),
        (b"Sun", DayOfWeek::Sunday),
    ];
    for (token, day) in cases {
        assert_eq!(parse_day_of_week(token), Some(day));
    }
    assert_eq!(parse_day_of_week(b"mon"), None);
    assert_eq!(parse_day_of_week(b"Monday"), None);
    assert_eq!(parse_day_of_week(b""), None);
}

#[test]
fn set_time_reads_all_fields() {
    let req = HttpRequest::parse(
        b"POST /rtc HTTP/1.1\r\nHost: h\r\n\r\ny=2024&mo=11&d=23&h=9&m=5&day_of_week=Sat",
    )
    .unwrap();
    let dt = set_time(req.payload.as_ref()).unwrap();
    assert_eq!(
        dt,
        DateTime {
            year: 2024,
            month: 11,
            day: 23,
            day_of_week: DayOfWeek::Saturday,
            hour: 9,
            minute: 5,
            second: 0,
        }
    );
}

#[test]
fn set_time_without_body_is_bad_request() {
    assert_eq!(set_time(None), Err(StatusCode::BadRequest));
}

#[test]
fn set_time_with_missing_field_is_bad_request() {
    let req = HttpRequest::parse(
        b"POST /rtc HTTP/1.1\r\nHost: h\r\n\r\ny=2024&mo=11&d=23&h=9&day_of_week=Sat",
    )
    .unwrap();
    assert_eq!(set_time(req.payload.as_ref()), Err(StatusCode::BadRequest));
}

#[test]
fn set_time_with_malformed_number_is_bad_request() {
    let req = HttpRequest::parse(
        b"POST /rtc HTTP/1.1\r\nHost: h\r\n\r\ny=2024&mo=x&d=23&h=9&m=5&day_of_week=Sat",
    )
    .unwrap();
    assert_eq!(set_time(req.payload.as_ref()), Err(StatusCode::BadRequest));
}

#[test]
fn set_time_with_unknown_day_name_is_bad_request() {
    let req = HttpRequest::parse(
        b"POST /rtc HTTP/1.1\r\nHost: h\r\n\r\ny=2024&mo=11&d=23&h=9&m=5&day_of_week=Zzz",
    )
    .unwrap();
    assert_eq!(set_time(req.payload.as_ref()), Err(StatusCode::BadRequest));
}

#[test]
fn set_time_response_carries_back_link() {
    let resp: HttpResponse<4096> = set_time_response(StatusCode::Okay);
    assert_eq!(resp.header.status(), StatusCode::Okay);
    assert_eq!(resp.content.as_slice(), b"<a href='/'>back</a>");
    let err: HttpResponse<4096> = set_time_response(StatusCode::InternalServerError);
    assert_eq!(err.header.status(), StatusCode::InternalServerError);
    assert_eq!(err.content.as_slice(), b"<a href='/'>back</a>");
}

#[test]
fn clock_handler_serves_the_snapshot() {
    let handler = ClockReadHandler { now: Some(sample_datetime()) };
    let resp: HttpResponse<4096> = handler.call(None, None);
    assert_eq!(resp.header.status(), StatusCode::Okay);
    assert_eq!(resp.content.as_slice(), b"2024-11-23 09:05:30");
}

#[test]
fn sensor_handler_serves_the_snapshot() {
    let handler = SensorReadHandler { reading: Some(SensorReading { temperature: 21, humidity: 40 }) };
    let resp: HttpResponse<4096> = handler.call(None, None);
    assert_eq!(resp.header.status(), StatusCode::Okay);
    assert_eq!(resp.content.as_slice(), b"T: 21 Rh: 40");
}

#[test]
fn sensor_handler_without_reading_serves_empty_body() {
    let handler = SensorReadHandler { reading: None };
    let resp: HttpResponse<4096> = handler.call(None, None);
    assert_eq!(resp.header.status(), StatusCode::Okay);
    assert!(resp.content.is_empty());
}

#[test]
fn oversized_page_is_internal_server_error() {
    // a page that cannot fit the response capacity is resource exhaustion:
    // an internal error with an empty body, never a truncated page
    let handler = StaticPageHandler { page: b"oversized page".to_vec() };
    let resp: HttpResponse<4> = handler.call(None, None);
    assert_eq!(resp.header.status(), StatusCode::InternalServerError);
    assert!(resp.content.is_empty());
}
