//! The reference handlers: a static page, the clock rendered as text, the
//! clock set from form fields, and the sensor reading rendered as text.
//!
//! Handlers are pure functions of the request's entries and of the snapshot
//! of collaborator state they were built with; the embedding program reads
//! the clock and sensor, builds the handlers, and applies a parsed
//! [`DateTime`] to its clock after a set request.

use vstd::prelude::*;

use crate::kvmap::{numeral_within, GetAs, GetStr, KeyValueMap};
use crate::numerals::{dec2_rep, dec_rep, push_dec2_u64, push_dec_i64, push_dec_u64, sdec_rep};
use crate::response::{HttpResponse, ResponseModel, StatusCode};
use crate::router::{opt_ref_map_view, opt_ref_map_wf, RequestHandler};

verus! {

/// A day of the week, as the clock tracks it.
#[derive(Clone, Copy, Debug, PartialEq, Eq, Structural)]
pub enum DayOfWeek {
    Sunday,
    Monday,
    Tuesday,
    Wednesday,
    Thursday,
    Friday,
    Saturday,
}

/// A point in calendar time, as the clock reports and accepts it.
#[derive(Clone, Copy, Debug, PartialEq, Eq, Structural)]
pub struct DateTime {
    pub year: u16,
    pub month: u8,
    pub day: u8,
    pub day_of_week: DayOfWeek,
    pub hour: u8,
    pub minute: u8,
    pub second: u8,
}

/// A temperature and relative-humidity snapshot, with no freshness
/// guarantee beyond "most recent successful read".
#[derive(Clone, Copy, Debug, PartialEq, Eq, Structural)]
pub struct SensorReading {
    pub temperature: i8,
    pub humidity: u8,
}

/// The clock rendered as `Y-M-D HH:MM:SS`: unpadded date fields, two-digit
/// time fields.
pub open spec fn time_text(dt: DateTime) -> Seq<u8> {
    dec_rep(dt.year as nat).add(seq![45u8]).add(dec_rep(dt.month as nat)).add(seq![45u8]).add(
        dec_rep(dt.day as nat),
    ).add(seq![32u8]).add(dec2_rep(dt.hour as nat)).add(seq![58u8]).add(
        dec2_rep(dt.minute as nat),
    ).add(seq![58u8]).add(dec2_rep(dt.second as nat))
}

/// Appends the clock text for `now` to `buffer`; a clock that has no
/// reading appends nothing.
pub fn write_time(buffer: &mut Vec<u8>, now: Option<DateTime>)
    ensures
        final(buffer)@ == old(buffer)@.add(
            match now {
                Some(dt) => time_text(dt),
                None => Seq::<u8>::empty(),
            },
        ),
{
    match now {
        None => {
            assert(final(buffer)@ =~= old(buffer)@.add(Seq::<u8>::empty()));
        },
        Some(dt) => {
            push_dec_u64(buffer, dt.year as u64);
            buffer.push(45);  // '-'
            push_dec_u64(buffer, dt.month as u64);
            buffer.push(45);  // '-'
            push_dec_u64(buffer, dt.day as u64);
            buffer.push(32);  // ' '
            push_dec2_u64(buffer, dt.hour as u64);
            buffer.push(58);  // ':'
            push_dec2_u64(buffer, dt.minute as u64);
            buffer.push(58);  // ':'
            push_dec2_u64(buffer, dt.second as u64);
            assert(final(buffer)@ =~= old(buffer)@.add(time_text(dt)));
        },
    }
}

/// The sensor snapshot rendered as `T: <temperature> Rh: <humidity>`.
pub open spec fn temperature_text(r: SensorReading) -> Seq<u8> {
    seq![84u8, 58, 32].add(sdec_rep(r.temperature as int)).add(seq![32u8, 82, 104, 58, 32]).add(
        dec_rep(r.humidity as nat),
    )
}

/// Appends the sensor text for `reading` to `buffer`; a sensor that has no
/// reading appends nothing.
pub fn write_temperature(buffer: &mut Vec<u8>, reading: Option<SensorReading>)
    ensures
        final(buffer)@ == old(buffer)@.add(
            match reading {
                Some(r) => temperature_text(r),
                None => Seq::<u8>::empty(),
            },
        ),
{
    match reading {
        None => {
            assert(final(buffer)@ =~= old(buffer)@.add(Seq::<u8>::empty()));
        },
        Some(r) => {
            buffer.push(84);  // 'T'
            buffer.push(58);  // ':'
            buffer.push(32);  // ' '
            push_dec_i64(buffer, r.temperature as i64);
            buffer.push(32);  // ' '
            buffer.push(82);  // 'R'
            buffer.push(104);  // 'h'
            buffer.push(58);  // ':'
            buffer.push(32);  // ' '
            push_dec_u64(buffer, r.humidity as u64);
            assert(final(buffer)@ =~= old(buffer)@.add(temperature_text(r)));
        },
    }
}

/// The day the three-letter token names, if any.
pub open spec fn spec_day_of_week(token: Seq<u8>) -> Option<DayOfWeek> {
    if token == seq![77u8, 111, 110] {  // "Mon"
        Some(DayOfWeek::Monday)
    } else if token == seq![84u8, 117, 101] {  // "Tue"
        Some(DayOfWeek::Tuesday)
    } else if token == seq![87u8, 101, 100] {  // "Wed"
        Some(DayOfWeek::Wednesday)
    } else if token == seq![84u8, 104, 117] {  // "Thu"
        Some(DayOfWeek::Thursday)
    } else if token == seq![70u8, 114, 105] {  // "Fri"
        Some(DayOfWeek::Friday)
    } else if token == seq![83u8, 97, 116] {  // "Sat"
        Some(DayOfWeek::Saturday)
    } else if token == seq![83u8, 117, 110] {  // "Sun"
        Some(DayOfWeek::Sunday)
    } else {
        None
    }
}

/// Reads a three-letter day name.
pub fn parse_day_of_week(token: &[u8]) -> (r: Option<DayOfWeek>)
    ensures
        r == spec_day_of_week(token@),
{
    if token.len() != 3 {
        return None;
    }
    if token[0] == 77 && token[1] == 111 && token[2] == 110 {
        assert(token@ =~= seq![77u8, 111, 110]);
        Some(DayOfWeek::Monday)
    } else if token[0] == 84 && token[1] == 117 && token[2] == 101 {
        assert(token@ =~= seq![84u8, 117, 101]);
        Some(DayOfWeek::Tuesday)
    } else if token[0] == 87 && token[1] == 101 && token[2] == 100 {
        assert(token@ =~= seq![87u8, 101, 100]);
        Some(DayOfWeek::Wednesday)
    } else if token[0] == 84 && token[1] == 104 && token[2] == 117 {
        assert(token@ =~= seq![84u8, 104, 117]);
        Some(DayOfWeek::Thursday)
    } else if token[0] == 70 && token[1] == 114 && token[2] == 105 {
        assert(token@ =~= seq![70u8, 114, 105]);
        Some(DayOfWeek::Friday)
    } else if token[0] == 83 && token[1] == 97 && token[2] == 116 {
        assert(token@ =~= seq![83u8, 97, 116]);
        Some(DayOfWeek::Saturday)
    } else if token[0] == 83 && token[1] == 117 && token[2] == 110 {
        assert(token@ =~= seq![83u8, 117, 110]);
        Some(DayOfWeek::Sunday)
    } else {
        None
    }
}

/// The number the entry under `key` denotes within `u16`, if present and
/// well formed.
pub open spec fn field_u16(m: Map<Seq<u8>, Seq<u8>>, key: Seq<u8>) -> Option<u16> {
    if m.dom().contains(key) {
        match numeral_within(m[key], u16::MAX as nat) {
            Some(n) => Some(n as u16),
            None => None,
        }
    } else {
        None
    }
}

/// The number the entry under `key` denotes within `u8`, if present and
/// well formed.
pub open spec fn field_u8(m: Map<Seq<u8>, Seq<u8>>, key: Seq<u8>) -> Option<u8> {
    if m.dom().contains(key) {
        match numeral_within(m[key], u8::MAX as nat) {
            Some(n) => Some(n as u8),
            None => None,
        }
    } else {
        None
    }
}

/// The clock setting a form body requests: the fields `y`, `mo`, `d`, `h`,
/// `m` read as numbers and `day_of_week` read as a three-letter day name,
/// the second fixed at zero; a missing body or any missing or malformed
/// field is rejected.
pub open spec fn spec_set_time(content: Option<Map<Seq<u8>, Seq<u8>>>) -> Result<
    DateTime,
    StatusCode,
> {
    match content {
        None => Err(StatusCode::BadRequest),
        Some(m) => match field_u16(m, seq![121u8]) {  // "y"
            None => Err(StatusCode::BadRequest),
            Some(year) => match field_u8(m, seq![109u8, 111]) {  // "mo"
                None => Err(StatusCode::BadRequest),
                Some(month) => match field_u8(m, seq![100u8]) {  // "d"
                    None => Err(StatusCode::BadRequest),
                    Some(day) => match field_u8(m, seq![104u8]) {  // "h"
                        None => Err(StatusCode::BadRequest),
                        Some(hour) => match field_u8(m, seq![109u8]) {  // "m"
                            None => Err(StatusCode::BadRequest),
                            Some(minute) => {
                                // "day_of_week"
                                let dow_key = seq![
                                    100u8,
                                    97,
                                    121,
                                    95,
                                    111,
                                    102,
                                    95,
                                    119,
                                    101,
                                    101,
                                    107,
                                ];
                                if !m.dom().contains(dow_key) {
                                    Err(StatusCode::BadRequest)
                                } else {
                                    match spec_day_of_week(m[dow_key]) {
                                        None => Err(StatusCode::BadRequest),
                                        Some(day_of_week) => Ok(
                                            DateTime {
                                                year,
                                                month,
                                                day,
                                                day_of_week,
                                                hour,
                                                minute,
                                                second: 0,
                                            },
                                        ),
                                    }
                                }
                            },
                        },
                    },
                },
            },
        },
    }
}

/// Reads the clock setting a form body requests: the fields `y`, `mo`, `d`,
/// `h`, `m` as numbers and `day_of_week` as a three-letter day name, the
/// second fixed at zero. The embedding program applies the returned value
/// to its clock.
pub fn set_time(content: Option<&KeyValueMap>) -> (r: Result<DateTime, StatusCode>)
    requires
        opt_ref_map_wf(content),
    ensures
        match r {
            Ok(dt) => spec_set_time(opt_ref_map_view(content)) == Ok::<_, StatusCode>(dt),
            Err(e) => spec_set_time(opt_ref_map_view(content)) == Err::<DateTime, _>(e),
        },
{
    let content = match content {
        None => {
            return Err(StatusCode::BadRequest);
        },
        Some(m) => m,
    };
    let mut key: Vec<u8> = Vec::new();
    key.push(121);  // "y"
    assert(key@ =~= seq![121u8]);
    let year: u16 = match content.get_as(key.as_slice()) {
        Err(()) => {
            return Err(StatusCode::BadRequest);
        },
        Ok(v) => v,
    };
    let mut key: Vec<u8> = Vec::new();
    key.push(109);
    key.push(111);  // "mo"
    assert(key@ =~= seq![109u8, 111]);
    let month: u8 = match content.get_as(key.as_slice()) {
        Err(()) => {
            return Err(StatusCode::BadRequest);
        },
        Ok(v) => v,
    };
    let mut key: Vec<u8> = Vec::new();
    key.push(100);  // "d"
    assert(key@ =~= seq![100u8]);
    let day: u8 = match content.get_as(key.as_slice()) {
        Err(()) => {
            return Err(StatusCode::BadRequest);
        },
        Ok(v) => v,
    };
    let mut key: Vec<u8> = Vec::new();
    key.push(104);  // "h"
    assert(key@ =~= seq![104u8]);
    let hour: u8 = match content.get_as(key.as_slice()) {
        Err(()) => {
            return Err(StatusCode::BadRequest);
        },
        Ok(v) => v,
    };
    let mut key: Vec<u8> = Vec::new();
    key.push(109);  // "m"
    assert(key@ =~= seq![109u8]);
    let minute: u8 = match content.get_as(key.as_slice()) {
        Err(()) => {
            return Err(StatusCode::BadRequest);
        },
        Ok(v) => v,
    };
    let mut key: Vec<u8> = Vec::new();
    key.push(100);
    key.push(97);
    key.push(121);
    key.push(95);
    key.push(111);
    key.push(102);
    key.push(95);
    key.push(119);
    key.push(101);
    key.push(101);
    key.push(107);  // "day_of_week"
    assert(key@ =~= seq![100u8, 97, 121, 95, 111, 102, 95, 119, 101, 101, 107]);
    let dow_value = match content.get_str(key.as_slice()) {
        Err(()) => {
            return Err(StatusCode::BadRequest);
        },
        Ok(v) => v,
    };
    let day_of_week = match parse_day_of_week(dow_value.as_slice()) {
        None => {
            return Err(StatusCode::BadRequest);
        },
        Some(d) => d,
    };
    Ok(DateTime { year, month, day, day_of_week, hour, minute, second: 0 })
}

/// Serves an immutable page verbatim.
pub struct StaticPageHandler {
    pub page: Vec<u8>,
}

impl<const CAPACITY: usize> RequestHandler<CAPACITY> for StaticPageHandler {
    /// The page with status `Okay`; a page over the response capacity is an
    /// internal error with an empty body.
    open spec fn response_model(
        &self,
        parameters: Option<Map<Seq<u8>, Seq<u8>>>,
        payload: Option<Map<Seq<u8>, Seq<u8>>>,
    ) -> ResponseModel {
        if self.page@.len() <= CAPACITY {
            ResponseModel { status: StatusCode::Okay, content: self.page@ }
        } else {
            ResponseModel { status: StatusCode::InternalServerError, content: Seq::empty() }
        }
    }

    fn call(&self, parameters: Option<&KeyValueMap>, payload: Option<&KeyValueMap>) -> (r:
        HttpResponse<CAPACITY>) {
        match HttpResponse::from_slice(StatusCode::Okay, self.page.as_slice()) {
            Ok(resp) => resp,
            Err(()) => HttpResponse::empty(StatusCode::InternalServerError),
        }
    }
}

/// Serves the clock snapshot it was built with, rendered as text.
pub struct ClockReadHandler {
    pub now: Option<DateTime>,
}

impl<const CAPACITY: usize> RequestHandler<CAPACITY> for ClockReadHandler {
    /// The clock text with status `Okay`; an empty body when the clock has
    /// no reading; an internal error when the text exceeds the capacity.
    open spec fn response_model(
        &self,
        parameters: Option<Map<Seq<u8>, Seq<u8>>>,
        payload: Option<Map<Seq<u8>, Seq<u8>>>,
    ) -> ResponseModel {
        let text = match self.now {
            Some(dt) => time_text(dt),
            None => Seq::<u8>::empty(),
        };
        if text.len() <= CAPACITY {
            ResponseModel { status: StatusCode::Okay, content: text }
        } else {
            ResponseModel { status: StatusCode::InternalServerError, content: Seq::empty() }
        }
    }

    fn call(&self, parameters: Option<&KeyValueMap>, payload: Option<&KeyValueMap>) -> (r:
        HttpResponse<CAPACITY>) {
        let mut buffer: Vec<u8> = Vec::new();
        write_time(&mut buffer, self.now);
        assert(buffer@ =~= (match self.now {
            Some(dt) => time_text(dt),
            None => Seq::<u8>::empty(),
        }));
        match HttpResponse::from_slice(StatusCode::Okay, buffer.as_slice()) {
            Ok(resp) => resp,
            Err(()) => HttpResponse::empty(StatusCode::InternalServerError),
        }
    }
}

/// Serves the sensor snapshot it was built with, rendered as text.
pub struct SensorReadHandler {
    pub reading: Option<SensorReading>,
}

impl<const CAPACITY: usize> RequestHandler<CAPACITY> for SensorReadHandler {
    /// The sensor text with status `Okay`; an empty body when the sensor
    /// has no reading; an internal error when the text exceeds the
    /// capacity.
    open spec fn response_model(
        &self,
        parameters: Option<Map<Seq<u8>, Seq<u8>>>,
        payload: Option<Map<Seq<u8>, Seq<u8>>>,
    ) -> ResponseModel {
        let text = match self.reading {
            Some(r) => temperature_text(r),
            None => Seq::<u8>::empty(),
        };
        if text.len() <= CAPACITY {
            ResponseModel { status: StatusCode::Okay, content: text }
        } else {
            ResponseModel { status: StatusCode::InternalServerError, content: Seq::empty() }
        }
    }

    fn call(&self, parameters: Option<&KeyValueMap>, payload: Option<&KeyValueMap>) -> (r:
        HttpResponse<CAPACITY>) {
        let mut buffer: Vec<u8> = Vec::new();
        write_temperature(&mut buffer, self.reading);
        assert(buffer@ =~= (match self.reading {
            Some(r) => temperature_text(r),
            None => Seq::<u8>::empty(),
        }));
        match HttpResponse::from_slice(StatusCode::Okay, buffer.as_slice()) {
            Ok(resp) => resp,
            Err(()) => HttpResponse::empty(StatusCode::InternalServerError),
        }
    }
}

/// The fixed body of the clock-set response: a link back to the index page,
/// `<a href='/'>back</a>`.
pub open spec fn back_link_text() -> Seq<u8> {
    seq![60u8, 97, 32, 104, 114, 101, 102, 61, 39, 47, 39, 62, 98, 97, 99, 107, 60, 47, 97, 62]
}

/// Builds the clock-set response: the back link with the given outcome
/// status, or an internal error with an empty body when the link exceeds
/// the capacity.
pub fn set_time_response<const CAPACITY: usize>(status: StatusCode) -> (r: HttpResponse<CAPACITY>)
    ensures
        r.wf(),
        r.model() == (if back_link_text().len() <= CAPACITY {
            ResponseModel { status, content: back_link_text() }
        } else {
            ResponseModel { status: StatusCode::InternalServerError, content: Seq::empty() }
        }),
{
    let mut body: Vec<u8> = Vec::new();
    body.push(60);  // '<'
    body.push(97);  // 'a'
    body.push(32);  // ' '
    body.push(104);  // 'h'
    body.push(114);  // 'r'
    body.push(101);  // 'e'
    body.push(102);  // 'f'
    body.push(61);  // '='
    body.push(39);  // '\''
    body.push(47);  // '/'
    body.push(39);  // '\''
    body.push(62);  // '>'
    body.push(98);  // 'b'
    body.push(97);  // 'a'
    body.push(99);  // 'c'
    body.push(107);  // 'k'
    body.push(60);  // '<'
    body.push(47);  // '/'
    body.push(97);  // 'a'
    body.push(62);  // '>'
    assert(body@ =~= back_link_text());
    match HttpResponse::from_slice(status, body.as_slice()) {
        Ok(resp) => resp,
        Err(()) => HttpResponse::empty(StatusCode::InternalServerError),
    }
}

} // verus!
