//! HTTP responses: status codes with their reason phrases, the response
//! header, and their serialization to wire bytes.
//!
//! The header is serialized from a fixed template:
//! `HTTP/1.1 {code} {reason}\r\nContent-Type: {mime}\r\n\r\nContent-Length: {length}\r\n\r\n`,
//! with exact ordering and exact `\r\n` line endings.

use vstd::prelude::*;

use crate::numerals::{dec_rep, push_dec_u64};

verus! {

/// The status codes a response can carry, each with a fixed reason phrase.
#[derive(Clone, Copy, Debug, PartialEq, Eq, Structural)]
pub enum StatusCode {
    Okay,
    BadRequest,
    NotFound,
    MethodNotAllowed,
    UriTooLong,
    UnprocessableContent,
    InternalServerError,
    NotImplemented,
}

impl StatusCode {
    /// The numeric wire code of the status.
    pub open spec fn spec_code(self) -> u16 {
        match self {
            StatusCode::Okay => 200,
            StatusCode::BadRequest => 400,
            StatusCode::NotFound => 404,
            StatusCode::MethodNotAllowed => 405,
            StatusCode::UriTooLong => 414,
            StatusCode::UnprocessableContent => 422,
            StatusCode::InternalServerError => 500,
            StatusCode::NotImplemented => 501,
        }
    }

    /// The fixed reason phrase of the status, as ASCII bytes.
    pub open spec fn spec_reason(self) -> Seq<u8> {
        match self {
            StatusCode::Okay => seq![79u8, 75],
            StatusCode::BadRequest => seq![66u8, 97, 100, 32, 82, 101, 113, 117, 101, 115, 116],
            StatusCode::NotFound => seq![78u8, 111, 116, 32, 70, 111, 117, 110, 100],
            StatusCode::MethodNotAllowed => seq![77u8, 101, 116, 104, 111, 100, 32, 78, 111, 116, 32, 65, 108, 108, 111, 119, 101, 100],
            StatusCode::UriTooLong => seq![85u8, 82, 73, 32, 84, 111, 111, 32, 76, 111, 110, 103],
            StatusCode::UnprocessableContent => seq![85u8, 110, 112, 114, 111, 99, 101, 115, 115, 97, 98, 108, 101, 32, 67, 111, 110, 116, 101, 110, 116],
            StatusCode::InternalServerError => seq![73u8, 110, 116, 101, 114, 110, 97, 108, 32, 83, 101, 114, 118, 101, 114, 32, 69, 114, 114, 111, 114],
            StatusCode::NotImplemented => seq![78u8, 111, 116, 32, 73, 109, 112, 108, 101, 109, 101, 110, 116, 101, 100],
        }
    }

    /// Returns the numeric wire code of the status.
    pub fn code(&self) -> (r: u16)
        ensures
            r == self.spec_code(),
    {
        match self {
            StatusCode::Okay => 200,
            StatusCode::BadRequest => 400,
            StatusCode::NotFound => 404,
            StatusCode::MethodNotAllowed => 405,
            StatusCode::UriTooLong => 414,
            StatusCode::UnprocessableContent => 422,
            StatusCode::InternalServerError => 500,
            StatusCode::NotImplemented => 501,
        }
    }

    /// Appends the reason phrase of the status to `out`.
    pub fn push_reason(&self, out: &mut Vec<u8>)
        ensures
            final(out)@ == old(out)@.add(self.spec_reason()),
    {
        match self {
            StatusCode::Okay => {
                out.push(79);
                out.push(75);
            },
            StatusCode::BadRequest => {
                out.push(66);
                out.push(97);
                out.push(100);
                out.push(32);
                out.push(82);
                out.push(101);
                out.push(113);
                out.push(117);
                out.push(101);
                out.push(115);
                out.push(116);
            },
            StatusCode::NotFound => {
                out.push(78);
                out.push(111);
                out.push(116);
                out.push(32);
                out.push(70);
                out.push(111);
                out.push(117);
                out.push(110);
                out.push(100);
            },
            StatusCode::MethodNotAllowed => {
                out.push(77);
                out.push(101);
                out.push(116);
                out.push(104);
                out.push(111);
                out.push(100);
                out.push(32);
                out.push(78);
                out.push(111);
                out.push(116);
                out.push(32);
                out.push(65);
                out.push(108);
                out.push(108);
                out.push(111);
                out.push(119);
                out.push(101);
                out.push(100);
            },
            StatusCode::UriTooLong => {
                out.push(85);
                out.push(82);
                out.push(73);
                out.push(32);
                out.push(84);
                out.push(111);
                out.push(111);
                out.push(32);
                out.push(76);
                out.push(111);
                out.push(110);
                out.push(103);
            },
            StatusCode::UnprocessableContent => {
                out.push(85);
                out.push(110);
                out.push(112);
                out.push(114);
                out.push(111);
                out.push(99);
                out.push(101);
                out.push(115);
                out.push(115);
                out.push(97);
                out.push(98);
                out.push(108);
                out.push(101);
                out.push(32);
                out.push(67);
                out.push(111);
                out.push(110);
                out.push(116);
                out.push(101);
                out.push(110);
                out.push(116);
            },
            StatusCode::InternalServerError => {
                out.push(73);
                out.push(110);
                out.push(116);
                out.push(101);
                out.push(114);
                out.push(110);
                out.push(97);
                out.push(108);
                out.push(32);
                out.push(83);
                out.push(101);
                out.push(114);
                out.push(118);
                out.push(101);
                out.push(114);
                out.push(32);
                out.push(69);
                out.push(114);
                out.push(114);
                out.push(111);
                out.push(114);
            },
            StatusCode::NotImplemented => {
                out.push(78);
                out.push(111);
                out.push(116);
                out.push(32);
                out.push(73);
                out.push(109);
                out.push(112);
                out.push(108);
                out.push(101);
                out.push(109);
                out.push(101);
                out.push(110);
                out.push(116);
                out.push(101);
                out.push(100);
            },
        }
        assert(final(out)@ =~= old(out)@.add(self.spec_reason()));
    }

    /// Returns the reason phrase of the status, as ASCII bytes.
    pub fn reason(&self) -> (r: Vec<u8>)
        ensures
            r@ == self.spec_reason(),
    {
        let mut out: Vec<u8> = Vec::new();
        self.push_reason(&mut out);
        out
    }
}

/// The media type a response declares; a single fixed value in the current
/// scope.
#[derive(Clone, Copy, Debug, PartialEq, Eq, Structural)]
pub enum ContentType {
    TextHtml,
}

impl ContentType {
    /// The MIME name of the content type, as ASCII bytes.
    pub open spec fn spec_mime(self) -> Seq<u8> {
        match self {
            ContentType::TextHtml => seq![116u8, 101, 120, 116, 47, 104, 116, 109, 108],
        }
    }

    /// Appends the MIME name of the content type to `out`.
    pub fn push_mime(&self, out: &mut Vec<u8>)
        ensures
            final(out)@ == old(out)@.add(self.spec_mime()),
    {
        match self {
            ContentType::TextHtml => {
                out.push(116);
                out.push(101);
                out.push(120);
                out.push(116);
                out.push(47);
                out.push(104);
                out.push(116);
                out.push(109);
                out.push(108);
            },
        }
        assert(final(out)@ =~= old(out)@.add(self.spec_mime()));
    }
}

/// The serialized header for status `status` and body length `length`:
/// the fixed template with the code, reason phrase, MIME name and length
/// filled in.
pub open spec fn header_bytes(status: StatusCode, length: nat) -> Seq<u8> {
    seq![72u8, 84, 84, 80, 47, 49, 46, 49, 32].add(dec_rep(status.spec_code() as nat)).add(seq![32u8]).add(status.spec_reason()).add(
        seq![13u8, 10, 67, 111, 110, 116, 101, 110, 116, 45, 84, 121, 112, 101, 58, 32],
    ).add(ContentType::TextHtml.spec_mime()).add(seq![13u8, 10, 13, 10, 67, 111, 110, 116, 101, 110, 116, 45, 76, 101, 110, 103, 116, 104, 58, 32]).add(dec_rep(length)).add(
        seq![13u8, 10, 13, 10],
    )
}

/// A response header: a status code, the fixed content type, and the length
/// in bytes of the body that follows.
pub struct HttpResponseHeader {
    status_code: StatusCode,
    content_type: ContentType,
    content_length: usize,
}

impl HttpResponseHeader {
    /// The status the header carries.
    pub closed spec fn spec_status(self) -> StatusCode {
        self.status_code
    }

    /// The body length the header declares.
    pub closed spec fn spec_length(self) -> nat {
        self.content_length as nat
    }

    /// Creates a header with the given status and body length; the content
    /// type is the fixed MIME value.
    pub fn new(status_code: StatusCode, content_length: usize) -> (h: HttpResponseHeader)
        ensures
            h.spec_status() == status_code,
            h.spec_length() == content_length as nat,
    {
        HttpResponseHeader { status_code, content_type: ContentType::TextHtml, content_length }
    }

    /// Returns the status the header carries.
    pub fn status(&self) -> (r: StatusCode)
        ensures
            r == self.spec_status(),
    {
        self.status_code
    }

    /// Returns the body length the header declares.
    pub fn content_length(&self) -> (r: usize)
        ensures
            r as nat == self.spec_length(),
    {
        self.content_length
    }

    /// Serializes the header to its exact wire bytes.
    pub fn to_bytes(&self) -> (out: Vec<u8>)
        ensures
            out@ == header_bytes(self.spec_status(), self.spec_length()),
    {
        let mut out: Vec<u8> = Vec::new();
        out.push(72);
        out.push(84);
        out.push(84);
        out.push(80);
        out.push(47);
        out.push(49);
        out.push(46);
        out.push(49);
        out.push(32);
        push_dec_u64(&mut out, self.status_code.code() as u64);
        out.push(32);
        self.status_code.push_reason(&mut out);
        out.push(13);
        out.push(10);
        out.push(67);
        out.push(111);
        out.push(110);
        out.push(116);
        out.push(101);
        out.push(110);
        out.push(116);
        out.push(45);
        out.push(84);
        out.push(121);
        out.push(112);
        out.push(101);
        out.push(58);
        out.push(32);
        self.content_type.push_mime(&mut out);
        out.push(13);
        out.push(10);
        out.push(13);
        out.push(10);
        out.push(67);
        out.push(111);
        out.push(110);
        out.push(116);
        out.push(101);
        out.push(110);
        out.push(116);
        out.push(45);
        out.push(76);
        out.push(101);
        out.push(110);
        out.push(103);
        out.push(116);
        out.push(104);
        out.push(58);
        out.push(32);
        push_dec_u64(&mut out, self.content_length as u64);
        out.push(13);
        out.push(10);
        out.push(13);
        out.push(10);
        assert(out@ =~= header_bytes(self.spec_status(), self.spec_length()));
        out
    }
}

/// What a response amounts to: its status and the bytes of its body. The
/// content type is fixed and the declared body length always equals the
/// body's actual length.
pub struct ResponseModel {
    pub status: StatusCode,
    pub content: Seq<u8>,
}

/// A response: a header and a body of at most `CAPACITY` bytes. The header's
/// declared length is always computed from the body, never supplied
/// independently.
pub struct HttpResponse<const CAPACITY: usize> {
    pub header: HttpResponseHeader,
    pub content: Vec<u8>,
}

impl<const CAPACITY: usize> HttpResponse<CAPACITY> {
    /// The response's declared length equals its body's length, and the body
    /// fits the capacity.
    pub open spec fn wf(self) -> bool {
        self.header.spec_length() == self.content@.len() && self.content@.len() <= CAPACITY
    }

    /// The status and body of the response.
    pub open spec fn model(self) -> ResponseModel {
        ResponseModel { status: self.header.spec_status(), content: self.content@ }
    }

    /// Packages a status and a body, computing the declared length from the
    /// body.
    pub fn new(status_code: StatusCode, content: Vec<u8>) -> (r: HttpResponse<CAPACITY>)
        requires
            content@.len() <= CAPACITY,
        ensures
            r.wf(),
            r.model() == (ResponseModel { status: status_code, content: content@ }),
    {
        let header = HttpResponseHeader::new(status_code, content.len());
        HttpResponse { header, content }
    }

    /// Packages a status and a copy of the given body; fails exactly when
    /// the body exceeds the capacity.
    pub fn from_slice(status_code: StatusCode, content: &[u8]) -> (r: Result<
        HttpResponse<CAPACITY>,
        (),
    >)
        ensures
            match r {
                Ok(resp) => content@.len() <= CAPACITY && resp.wf() && resp.model() == (
                ResponseModel { status: status_code, content: content@ }),
                Err(()) => content@.len() > CAPACITY,
            },
    {
        if content.len() > CAPACITY {
            return Err(());
        }
        let owned = vstd::slice::slice_to_vec(content);
        Ok(Self::new(status_code, owned))
    }

    /// Packages a status with an empty body.
    pub fn empty(status_code: StatusCode) -> (r: HttpResponse<CAPACITY>)
        ensures
            r.wf(),
            r.model().status == status_code,
            r.model().content =~= Seq::<u8>::empty(),
    {
        Self::new(status_code, Vec::new())
    }

    /// The exact wire bytes of the response for a model: the serialized
    /// header followed by the body.
    pub open spec fn spec_wire_bytes(m: ResponseModel) -> Seq<u8> {
        header_bytes(m.status, m.content.len()).add(m.content)
    }

    /// Serializes the whole response: the header's bytes followed by the
    /// body's bytes.
    pub fn to_bytes(&self) -> (out: Vec<u8>)
        requires
            self.wf(),
        ensures
            out@ == Self::spec_wire_bytes(self.model()),
    {
        let mut out = self.header.to_bytes();
        crate::bytes::push_all(&mut out, self.content.as_slice());
        out
    }
}

} // verus!
