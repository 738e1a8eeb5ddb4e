//! HTTP requests: the method, the request line, and the parser that turns a
//! raw byte buffer into a structured request.
//!
//! A request buffer is split at the first blank line into a header block and
//! a body; the header block's first line is split on spaces into a method
//! token and a target token; the target is split at the first `?` into the
//! path and the query string. Query strings and bodies are `k=v` pairs
//! joined by `&`.

use vstd::prelude::*;

use crate::bytes::{find, find_byte, find_sub, index_of_byte, lemma_find_byte, lemma_find_sub};
use crate::kvmap::{KeyValueMap, MAX_ENTRY_LEN, MAX_PAIRS};
use crate::response::StatusCode;

verus! {

/// Greatest length, in bytes, of a request path.
pub const MAX_PATH_LEN: usize = 32;

/// The request methods the parser recognizes. An unrecognized method token
/// is an error, never a default.
#[derive(Clone, Copy, Debug, PartialEq, Eq, Structural)]
pub enum Method {
    GET,
    POST,
    PUT,
    DELETE,
    PATCH,
    HEAD,
    OPTIONS,
    TRACE,
}

impl Method {
    /// The ASCII token of the method on the request line.
    pub open spec fn spec_token(self) -> Seq<u8> {
        match self {
            Method::GET => seq![71u8, 69, 84],
            Method::POST => seq![80u8, 79, 83, 84],
            Method::PUT => seq![80u8, 85, 84],
            Method::DELETE => seq![68u8, 69, 76, 69, 84, 69],
            Method::PATCH => seq![80u8, 65, 84, 67, 72],
            Method::HEAD => seq![72u8, 69, 65, 68],
            Method::OPTIONS => seq![79u8, 80, 84, 73, 79, 78, 83],
            Method::TRACE => seq![84u8, 82, 65, 67, 69],
        }
    }

    /// Reads a method token: the method whose token the bytes are, if any.
    pub fn try_from(token: &[u8]) -> (r: Result<Method, StatusCode>)
        ensures
            match spec_parse_method(token@) {
                Some(m) => r == Ok::<Method, StatusCode>(m),
                None => r == Err::<Method, StatusCode>(StatusCode::BadRequest),
            },
    {
        if token.len() == 3 && token[0] == 71 && token[1] == 69 && token[2] == 84 {
            assert(token@ =~= Method::GET.spec_token());
            Ok(Method::GET)
        } else if token.len() == 4 && token[0] == 80 && token[1] == 79 && token[2] == 83
            && token[3] == 84 {
            assert(token@ =~= Method::POST.spec_token());
            Ok(Method::POST)
        } else if token.len() == 3 && token[0] == 80 && token[1] == 85 && token[2] == 84 {
            assert(token@ =~= Method::PUT.spec_token());
            Ok(Method::PUT)
        } else if token.len() == 6 && token[0] == 68 && token[1] == 69 && token[2] == 76
            && token[3] == 69 && token[4] == 84 && token[5] == 69 {
            assert(token@ =~= Method::DELETE.spec_token());
            Ok(Method::DELETE)
        } else if token.len() == 5 && token[0] == 80 && token[1] == 65 && token[2] == 84
            && token[3] == 67 && token[4] == 72 {
            assert(token@ =~= Method::PATCH.spec_token());
            Ok(Method::PATCH)
        } else if token.len() == 4 && token[0] == 72 && token[1] == 69 && token[2] == 65
            && token[3] == 68 {
            assert(token@ =~= Method::HEAD.spec_token());
            Ok(Method::HEAD)
        } else if token.len() == 7 && token[0] == 79 && token[1] == 80 && token[2] == 84
            && token[3] == 73 && token[4] == 79 && token[5] == 78 && token[6] == 83 {
            assert(token@ =~= Method::OPTIONS.spec_token());
            Ok(Method::OPTIONS)
        } else if token.len() == 5 && token[0] == 84 && token[1] == 82 && token[2] == 65
            && token[3] == 67 && token[4] == 69 {
            assert(token@ =~= Method::TRACE.spec_token());
            Ok(Method::TRACE)
        } else {
            Err(StatusCode::BadRequest)
        }
    }
}

/// The method whose request-line token the bytes are, if any.
pub open spec fn spec_parse_method(token: Seq<u8>) -> Option<Method> {
    if token == Method::GET.spec_token() {
        Some(Method::GET)
    } else if token == Method::POST.spec_token() {
        Some(Method::POST)
    } else if token == Method::PUT.spec_token() {
        Some(Method::PUT)
    } else if token == Method::DELETE.spec_token() {
        Some(Method::DELETE)
    } else if token == Method::PATCH.spec_token() {
        Some(Method::PATCH)
    } else if token == Method::HEAD.spec_token() {
        Some(Method::HEAD)
    } else if token == Method::OPTIONS.spec_token() {
        Some(Method::OPTIONS)
    } else if token == Method::TRACE.spec_token() {
        Some(Method::TRACE)
    } else {
        None
    }
}

/// Reading one `k=v` pair into the entries `m`: the pair is split at its
/// first `=` (a pair without `=` cannot be processed); an overlong key or
/// value, or a new key when the entries are full, exceeds the bounds.
pub open spec fn spec_insert_pair(m: Map<Seq<u8>, Seq<u8>>, pair: Seq<u8>) -> Result<
    Map<Seq<u8>, Seq<u8>>,
    StatusCode,
> {
    match find_byte(pair, 61) {
        None => Err(StatusCode::UnprocessableContent),
        Some(e) => {
            let k = pair.take(e);
            let v = pair.skip(e + 1);
            if k.len() > MAX_ENTRY_LEN || v.len() > MAX_ENTRY_LEN {
                Err(StatusCode::UriTooLong)
            } else if !m.dom().contains(k) && m.dom().len() >= MAX_PAIRS {
                Err(StatusCode::UriTooLong)
            } else {
                Ok(m.insert(k, v))
            }
        },
    }
}

/// Reading the `&`-separated pairs of `s` into the entries `m`, left to
/// right, the last write to a key winning.
pub open spec fn spec_parse_kv_from(m: Map<Seq<u8>, Seq<u8>>, s: Seq<u8>) -> Result<
    Map<Seq<u8>, Seq<u8>>,
    StatusCode,
>
    decreases s.len(),
{
    match find_byte(s, 38) {
        None => spec_insert_pair(m, s),
        Some(a) => if 0 <= a < s.len() {
            match spec_insert_pair(m, s.take(a)) {
                Err(e) => Err(e),
                Ok(m2) => spec_parse_kv_from(m2, s.skip(a + 1)),
            }
        } else {
            // a found index always lies within the sequence; not reached
            spec_insert_pair(m, s)
        },
    }
}

/// The key-value entries the text `s` denotes, or the error its first
/// failing pair raises.
pub open spec fn spec_parse_kv(s: Seq<u8>) -> Result<Map<Seq<u8>, Seq<u8>>, StatusCode> {
    spec_parse_kv_from(Map::empty(), s)
}

/// The outcome of parsing a header block: a method, a path, and the query
/// entries when the target carried a query string.
pub open spec fn spec_parse_header(h: Seq<u8>) -> Result<
    (Method, Seq<u8>, Option<Map<Seq<u8>, Seq<u8>>>),
    StatusCode,
> {
    match find_sub(h, seq![13u8, 10]) {
        None => Err(StatusCode::BadRequest),
        Some(l) => {
            let start = h.take(l);
            match find_byte(start, 32) {
                None => Err(StatusCode::BadRequest),
                Some(sp1) => {
                    let mtok = start.take(sp1);
                    let rest = start.skip(sp1 + 1);
                    match find_byte(rest, 32) {
                        None => Err(StatusCode::BadRequest),
                        Some(sp2) => {
                            let target = rest.take(sp2);
                            match spec_parse_method(mtok) {
                                None => Err(StatusCode::BadRequest),
                                Some(method) => match find_byte(target, 63) {
                                    None => if target.len() > MAX_PATH_LEN {
                                        Err(StatusCode::UriTooLong)
                                    } else {
                                        Ok((method, target, None))
                                    },
                                    Some(q) => {
                                        let path = target.take(q);
                                        let query = target.skip(q + 1);
                                        if path.len() > MAX_PATH_LEN {
                                            Err(StatusCode::UriTooLong)
                                        } else {
                                            match spec_parse_kv(query) {
                                                Err(e) => Err(e),
                                                Ok(m) => Ok((method, path, Some(m))),
                                            }
                                        }
                                    },
                                },
                            }
                        },
                    }
                },
            }
        },
    }
}

/// What a request amounts to: its method, path, query entries and body
/// entries.
pub struct RequestModel {
    pub method: Method,
    pub path: Seq<u8>,
    pub parameters: Option<Map<Seq<u8>, Seq<u8>>>,
    pub payload: Option<Map<Seq<u8>, Seq<u8>>>,
}

/// The request the byte buffer `s` denotes, or the error its first failing
/// part raises: the buffer is split at the first blank line into a header
/// block and a body, and a non-empty body is read as key-value pairs.
pub open spec fn spec_parse_request(s: Seq<u8>) -> Result<RequestModel, StatusCode> {
    match find_sub(s, seq![13u8, 10, 13, 10]) {
        None => Err(StatusCode::BadRequest),
        Some(h) => {
            let header = s.take(h);
            let body = s.skip(h + 4);
            match spec_parse_header(header) {
                Err(e) => Err(e),
                Ok((method, path, parameters)) => if body.len() == 0 {
                    Ok(RequestModel { method, path, parameters, payload: None })
                } else {
                    match spec_parse_kv(body) {
                        Err(e) => Err(e),
                        Ok(m) => Ok(
                            RequestModel { method, path, parameters, payload: Some(m) },
                        ),
                    }
                },
            }
        },
    }
}

/// The entries of an optional map.
pub open spec fn opt_map_view(o: Option<KeyValueMap>) -> Option<Map<Seq<u8>, Seq<u8>>> {
    match o {
        Some(m) => Some(m@),
        None => None,
    }
}

/// An optional map is within its bounds.
pub open spec fn opt_map_wf(o: Option<KeyValueMap>) -> bool {
    match o {
        Some(m) => m.wf(),
        None => true,
    }
}

/// A parsed request: a method, a bounded path, and the query and body
/// entries when the request carried them. Created once per request cycle
/// and immutable thereafter.
pub struct HttpRequest {
    pub method: Method,
    pub path: Vec<u8>,
    pub parameters: Option<KeyValueMap>,
    pub payload: Option<KeyValueMap>,
}

impl View for HttpRequest {
    type V = RequestModel;

    open spec fn view(&self) -> RequestModel {
        RequestModel {
            method: self.method,
            path: self.path@,
            parameters: opt_map_view(self.parameters),
            payload: opt_map_view(self.payload),
        }
    }
}

impl HttpRequest {
    /// The path is within its bound and the maps within theirs.
    pub open spec fn wf(self) -> bool {
        self.path@.len() <= MAX_PATH_LEN && opt_map_wf(self.parameters) && opt_map_wf(
            self.payload,
        )
    }

    /// Reads one `k=v` pair into `map`.
    fn insert_pair(map: &mut KeyValueMap, pair: &[u8]) -> (r: Result<(), StatusCode>)
        requires
            old(map).wf(),
        ensures
            final(map).wf(),
            match r {
                Ok(()) => spec_insert_pair(old(map)@, pair@) == Ok::<_, StatusCode>(final(map)@),
                Err(e) => spec_insert_pair(old(map)@, pair@) == Err::<Map<Seq<u8>, Seq<u8>>, _>(e)
                    && final(map)@ == old(map)@,
            },
    {
        proof {
            lemma_find_byte(pair@, 61);
        }
        match index_of_byte(pair, 61) {
            None => Err(StatusCode::UnprocessableContent),
            Some(e) => {
                let n = pair.len();
                let key = vstd::slice::slice_subrange(pair, 0, e);
                let value = vstd::slice::slice_subrange(pair, e + 1, n);
                if key.len() > MAX_ENTRY_LEN || value.len() > MAX_ENTRY_LEN {
                    return Err(StatusCode::UriTooLong);
                }
                proof {
                    map.lemma_len_is_dom_len();
                }
                match map.insert(key, value) {
                    Ok(()) => Ok(()),
                    Err(()) => Err(StatusCode::UriTooLong),
                }
            },
        }
    }

    /// Reads the `&`-separated pairs of `text` into `map`, left to right.
    fn parse_kv_into(map: &mut KeyValueMap, text: &[u8]) -> (r: Result<(), StatusCode>)
        requires
            old(map).wf(),
        ensures
            final(map).wf(),
            match r {
                Ok(()) => spec_parse_kv_from(old(map)@, text@) == Ok::<_, StatusCode>(
                    final(map)@,
                ),
                Err(e) => spec_parse_kv_from(old(map)@, text@) == Err::<
                    Map<Seq<u8>, Seq<u8>>,
                    _,
                >(e),
            },
        decreases text@.len(),
    {
        proof {
            lemma_find_byte(text@, 38);
        }
        match index_of_byte(text, 38) {
            None => Self::insert_pair(map, text),
            Some(a) => {
                let n = text.len();
                let head = vstd::slice::slice_subrange(text, 0, a);
                match Self::insert_pair(map, head) {
                    Err(e) => Err(e),
                    Ok(()) => {
                        let tail = vstd::slice::slice_subrange(text, a + 1, n);
                        Self::parse_kv_into(map, tail)
                    },
                }
            },
        }
    }

    /// Reads a whole query string or body into a fresh map.
    pub fn parse_key_value(text: &[u8]) -> (r: Result<KeyValueMap, StatusCode>)
        ensures
            match r {
                Ok(map) => map.wf() && spec_parse_kv(text@) == Ok::<_, StatusCode>(map@),
                Err(e) => spec_parse_kv(text@) == Err::<Map<Seq<u8>, Seq<u8>>, _>(e),
            },
    {
        let mut map = KeyValueMap::new();
        match Self::parse_kv_into(&mut map, text) {
            Ok(()) => Ok(map),
            Err(e) => Err(e),
        }
    }

    /// Splits a header block into its parts: the start line's method token
    /// and target, the target's path and optional query entries.
    fn parse_header(header: &[u8]) -> (r: Result<
        (Method, Vec<u8>, Option<KeyValueMap>),
        StatusCode,
    >)
        ensures
            match r {
                Ok(parts) => spec_parse_header(header@) == Ok::<_, StatusCode>(
                    (parts.0, parts.1@, opt_map_view(parts.2)),
                ) && parts.1@.len() <= MAX_PATH_LEN && opt_map_wf(parts.2),
                Err(e) => spec_parse_header(header@) == Err::<
                    (Method, Seq<u8>, Option<Map<Seq<u8>, Seq<u8>>>),
                    _,
                >(e),
            },
    {
        let mut crlf: Vec<u8> = Vec::new();
        crlf.push(13);
        crlf.push(10);
        assert(crlf@ =~= seq![13u8, 10]);
        let l = match find(header, crlf.as_slice()) {
            None => {
                return Err(StatusCode::BadRequest);
            },
            Some(l) => l,
        };
        proof {
            lemma_find_sub(header@, crlf@);
        }
        let start = vstd::slice::slice_subrange(header, 0, l);
        proof {
            lemma_find_byte(start@, 32);
        }
        let sp1 = match index_of_byte(start, 32) {
            None => {
                return Err(StatusCode::BadRequest);
            },
            Some(i) => i,
        };
        let mtok = vstd::slice::slice_subrange(start, 0, sp1);
        let rest = vstd::slice::slice_subrange(start, sp1 + 1, start.len());
        proof {
            lemma_find_byte(rest@, 32);
        }
        let sp2 = match index_of_byte(rest, 32) {
            None => {
                return Err(StatusCode::BadRequest);
            },
            Some(i) => i,
        };
        let target = vstd::slice::slice_subrange(rest, 0, sp2);
        let method = match Method::try_from(mtok) {
            Err(e) => {
                return Err(e);
            },
            Ok(m) => m,
        };
        proof {
            lemma_find_byte(target@, 63);
        }
        match index_of_byte(target, 63) {
            None => {
                if target.len() > MAX_PATH_LEN {
                    Err(StatusCode::UriTooLong)
                } else {
                    let path = vstd::slice::slice_to_vec(target);
                    Ok((method, path, None))
                }
            },
            Some(q) => {
                let path_part = vstd::slice::slice_subrange(target, 0, q);
                let query = vstd::slice::slice_subrange(target, q + 1, target.len());
                if path_part.len() > MAX_PATH_LEN {
                    Err(StatusCode::UriTooLong)
                } else {
                    match Self::parse_key_value(query) {
                        Err(e) => Err(e),
                        Ok(m) => {
                            let path = vstd::slice::slice_to_vec(path_part);
                            Ok((method, path, Some(m)))
                        },
                    }
                }
            },
        }
    }

    /// Turns a raw byte buffer believed to hold one complete request into a
    /// structured request, or fails with the status the malformed part
    /// raises.
    pub fn parse(request: &[u8]) -> (r: Result<HttpRequest, StatusCode>)
        ensures
            match r {
                Ok(req) => req.wf() && spec_parse_request(request@) == Ok::<_, StatusCode>(req@),
                Err(e) => spec_parse_request(request@) == Err::<RequestModel, _>(e),
            },
    {
        let mut blank: Vec<u8> = Vec::new();
        blank.push(13);
        blank.push(10);
        blank.push(13);
        blank.push(10);
        assert(blank@ =~= seq![13u8, 10, 13, 10]);
        let h = match find(request, blank.as_slice()) {
            None => {
                return Err(StatusCode::BadRequest);
            },
            Some(h) => h,
        };
        proof {
            lemma_find_sub(request@, blank@);
        }
        let n = request.len();
        let header = vstd::slice::slice_subrange(request, 0, h);
        let body = vstd::slice::slice_subrange(request, h + 4, n);
        let (method, path, parameters) = match Self::parse_header(header) {
            Err(e) => {
                return Err(e);
            },
            Ok(parts) => parts,
        };
        let payload = if body.len() == 0 {
            None
        } else {
            match Self::parse_key_value(body) {
                Err(e) => {
                    return Err(e);
                },
                Ok(m) => Some(m),
            }
        };
        Ok(HttpRequest { method, path, parameters, payload })
    }

    /// The pair the routing table is keyed by: the request's path and
    /// method.
    pub fn get_identification(&self) -> (r: (&Vec<u8>, Method))
        ensures
            r.0@ == self@.path,
            r.1 == self@.method,
    {
        (&self.path, self.method)
    }
}

} // verus!
