//! Laws of the parser, stated and proved over the specification functions
//! that the executable functions' contracts are written against.

use vstd::prelude::*;

use crate::bytes::{find_byte, find_sub, is_match_at, lemma_find_byte, lemma_find_sub};
use crate::kvmap::{MAX_ENTRY_LEN, MAX_PAIRS};
use crate::request::{spec_insert_pair, spec_parse_kv, spec_parse_kv_from, MAX_PATH_LEN};
use crate::response::StatusCode;

verus! {

/// `s` holds no occurrence of the byte `b`.
pub open spec fn no_byte(s: Seq<u8>, b: u8) -> bool {
    forall|i: int| 0 <= i < s.len() ==> s[i] != b
}

/// A byte absent from `s` is never found.
proof fn lemma_find_byte_none(s: Seq<u8>, b: u8)
    requires
        no_byte(s, b),
    ensures
        find_byte(s, b) is None,
{
    lemma_find_byte(s, b);
}

/// A byte found nowhere earlier is found at its first position.
proof fn lemma_find_byte_at(s: Seq<u8>, b: u8, i: int)
    requires
        0 <= i < s.len(),
        s[i] == b,
        forall|j: int| 0 <= j < i ==> s[j] != b,
    ensures
        find_byte(s, b) == Some(i),
{
    lemma_find_byte(s, b);
}

/// The text of one `k=v` pair.
pub open spec fn pair_text(k: Seq<u8>, v: Seq<u8>) -> Seq<u8> {
    k.add(seq![61u8]).add(v)
}

/// The text of `k=v` pairs joined by `&`.
pub open spec fn query_text(pairs: Seq<(Seq<u8>, Seq<u8>)>) -> Seq<u8>
    decreases pairs.len(),
{
    if pairs.len() == 0 {
        Seq::empty()
    } else if pairs.len() == 1 {
        pair_text(pairs[0].0, pairs[0].1)
    } else {
        pair_text(pairs[0].0, pairs[0].1).add(seq![38u8]).add(query_text(pairs.drop_first()))
    }
}

/// A well-formed pair: the key and value are within the entry bound, the
/// key holds no `&` and no `=`, and the value holds no `&`.
pub open spec fn wf_pair(k: Seq<u8>, v: Seq<u8>) -> bool {
    k.len() <= MAX_ENTRY_LEN && v.len() <= MAX_ENTRY_LEN && no_byte(k, 38) && no_byte(k, 61)
        && no_byte(v, 38)
}

/// A well-formed query: one to `MAX_PAIRS` well-formed pairs with pairwise
/// distinct keys.
pub open spec fn wf_query(pairs: Seq<(Seq<u8>, Seq<u8>)>) -> bool {
    &&& 1 <= pairs.len() <= MAX_PAIRS
    &&& (forall|i: int| 0 <= i < pairs.len() ==> wf_pair(#[trigger] pairs[i].0, pairs[i].1))
    &&& (forall|i: int, j: int| 0 <= i < j < pairs.len() ==> pairs[i].0 != pairs[j].0)
}

/// The entries after inserting every pair in order.
pub open spec fn insert_all(m: Map<Seq<u8>, Seq<u8>>, pairs: Seq<(Seq<u8>, Seq<u8>)>) -> Map<
    Seq<u8>,
    Seq<u8>,
>
    decreases pairs.len(),
{
    if pairs.len() == 0 {
        m
    } else {
        insert_all(m.insert(pairs[0].0, pairs[0].1), pairs.drop_first())
    }
}

/// Inserting pairs neither touches nor shadows a key none of them uses.
proof fn lemma_insert_all_frame(m: Map<Seq<u8>, Seq<u8>>, pairs: Seq<(Seq<u8>, Seq<u8>)>, k: Seq<u8>)
    requires
        forall|i: int| 0 <= i < pairs.len() ==> (#[trigger] pairs[i].0) != k,
    ensures
        insert_all(m, pairs).dom().contains(k) == m.dom().contains(k),
        m.dom().contains(k) ==> insert_all(m, pairs)[k] == m[k],
    decreases pairs.len(),
{
    if pairs.len() > 0 {
        lemma_insert_all_frame(m.insert(pairs[0].0, pairs[0].1), pairs.drop_first(), k);
    }
}

/// After inserting pairs with distinct keys, each key maps to its value.
proof fn lemma_insert_all_lookup(
    m: Map<Seq<u8>, Seq<u8>>,
    pairs: Seq<(Seq<u8>, Seq<u8>)>,
    i: int,
)
    requires
        0 <= i < pairs.len(),
        forall|a: int, b: int| 0 <= a < b < pairs.len() ==> pairs[a].0 != pairs[b].0,
    ensures
        insert_all(m, pairs).dom().contains(pairs[i].0),
        insert_all(m, pairs)[pairs[i].0] == pairs[i].1,
    decreases pairs.len(),
{
    let rest = pairs.drop_first();
    if i == 0 {
        assert(forall|j: int| 0 <= j < rest.len() ==> (#[trigger] rest[j].0) != pairs[0].0);
        lemma_insert_all_frame(m.insert(pairs[0].0, pairs[0].1), rest, pairs[0].0);
    } else {
        lemma_insert_all_lookup(m.insert(pairs[0].0, pairs[0].1), rest, i - 1);
        assert(rest[i - 1] == pairs[i]);
    }
}

/// Reading the text of one well-formed pair into entries with room inserts
/// exactly that pair.
proof fn lemma_insert_pair_text(m: Map<Seq<u8>, Seq<u8>>, k: Seq<u8>, v: Seq<u8>)
    requires
        wf_pair(k, v),
        m.dom().finite(),
        m.dom().contains(k) || m.dom().len() < MAX_PAIRS,
    ensures
        spec_insert_pair(m, pair_text(k, v)) == Ok::<_, StatusCode>(m.insert(k, v)),
{
    let t = pair_text(k, v);
    assert(t[k.len() as int] == 61);
    lemma_find_byte_at(t, 61, k.len() as int);
    assert(t.take(k.len() as int) =~= k);
    assert(t.skip(k.len() as int + 1) =~= v);
}

/// Reading a well-formed query into entries with room for all its new keys
/// inserts every pair, left to right.
proof fn lemma_parse_kv_from_pairs(m: Map<Seq<u8>, Seq<u8>>, pairs: Seq<(Seq<u8>, Seq<u8>)>)
    requires
        1 <= pairs.len(),
        forall|i: int| 0 <= i < pairs.len() ==> wf_pair(#[trigger] pairs[i].0, pairs[i].1),
        forall|i: int, j: int| 0 <= i < j < pairs.len() ==> pairs[i].0 != pairs[j].0,
        forall|i: int| 0 <= i < pairs.len() ==> !m.dom().contains(#[trigger] pairs[i].0),
        m.dom().finite(),
        m.dom().len() + pairs.len() <= MAX_PAIRS,
    ensures
        spec_parse_kv_from(m, query_text(pairs)) == Ok::<_, StatusCode>(insert_all(m, pairs)),
    decreases pairs.len(),
{
    let k = pairs[0].0;
    let v = pairs[0].1;
    let t = query_text(pairs);
    if pairs.len() == 1 {
        assert(no_byte(t, 38)) by {
            assert forall|i: int| 0 <= i < t.len() implies t[i] != 38 by {
                if i < k.len() {
                    assert(t[i] == k[i]);
                } else if i == k.len() {
                    assert(t[i] == 61);
                } else {
                    assert(t[i] == v[i - k.len() - 1]);
                }
            }
        }
        lemma_find_byte_none(t, 38);
        lemma_insert_pair_text(m, k, v);
        assert(pairs.drop_first().len() == 0);
        assert(insert_all(m.insert(k, v), pairs.drop_first()) == m.insert(k, v));
        assert(insert_all(m, pairs) == m.insert(k, v));
    } else {
        let head = pair_text(k, v);
        let rest = pairs.drop_first();
        let a = head.len() as int;
        assert(t[a] == 38);
        assert(forall|j: int| 0 <= j < a ==> t[j] == head[j]);
        assert(no_byte(head, 38)) by {
            assert forall|i: int| 0 <= i < head.len() implies head[i] != 38 by {
                if i < k.len() {
                    assert(head[i] == k[i]);
                } else if i == k.len() {
                    assert(head[i] == 61);
                } else {
                    assert(head[i] == v[i - k.len() - 1]);
                }
            }
        }
        lemma_find_byte_at(t, 38, a);
        assert(t.take(a) =~= head);
        assert(t.skip(a + 1) =~= query_text(rest));
        lemma_insert_pair_text(m, k, v);
        let m2 = m.insert(k, v);
        assert(m2.dom() =~= m.dom().insert(k));
        vstd::set::axiom_set_insert_len(m.dom(), k);
        assert(forall|i: int| 0 <= i < rest.len() ==> rest[i] == pairs[i + 1]);
        lemma_parse_kv_from_pairs(m2, rest);
        assert(insert_all(m, pairs) == insert_all(m2, rest));
    }
}

/// Round trip of the key-value map: parsing the text of well-formed `k=v`
/// pairs joined by `&` — keys and values within the entry bound, at most
/// `MAX_PAIRS` pairs, keys distinct — succeeds, and looking each key up
/// returns its original value.
pub proof fn lemma_query_round_trip(pairs: Seq<(Seq<u8>, Seq<u8>)>)
    requires
        wf_query(pairs),
    ensures
        spec_parse_kv(query_text(pairs)) is Ok,
        forall|i: int|
            0 <= i < pairs.len() ==> {
                let m = spec_parse_kv(query_text(pairs)) ->Ok_0;
                m.dom().contains(#[trigger] pairs[i].0) && m[pairs[i].0] == pairs[i].1
            },
{
    let empty = Map::<Seq<u8>, Seq<u8>>::empty();
    lemma_parse_kv_from_pairs(empty, pairs);
    assert forall|i: int| 0 <= i < pairs.len() implies {
        let m = spec_parse_kv(query_text(pairs)) ->Ok_0;
        m.dom().contains(#[trigger] pairs[i].0) && m[pairs[i].0] == pairs[i].1
    } by {
        lemma_insert_all_lookup(empty, pairs, i);
    }
}

/// No byte of a method's request-line token is a space, carriage return or
/// line feed.
proof fn lemma_method_token_clean(method: crate::request::Method)
    ensures
        method.spec_token().len() >= 3,
        no_byte(method.spec_token(), 32),
        no_byte(method.spec_token(), 13),
        no_byte(method.spec_token(), 10),
{
    let tok = method.spec_token();
    match method {
        crate::request::Method::GET => {
            assert forall|i: int| 0 <= i < tok.len() implies tok[i] != 32 && tok[i]
                != 13 && tok[i] != 10 by {
                if i == 0 {
                    assert(tok[0] == 71);
                } else if i == 1 {
                    assert(tok[1] == 69);
                } else if i == 2 {
                    assert(tok[2] == 84);
                }
            }
        },
        crate::request::Method::POST => {
            assert forall|i: int| 0 <= i < tok.len() implies tok[i] != 32 && tok[i]
                != 13 && tok[i] != 10 by {
                if i == 0 {
                    assert(tok[0] == 80);
                } else if i == 1 {
                    assert(tok[1] == 79);
                } else if i == 2 {
                    assert(tok[2] == 83);
                } else if i == 3 {
                    assert(tok[3] == 84);
                }
            }
        },
        crate::request::Method::PUT => {
            assert forall|i: int| 0 <= i < tok.len() implies tok[i] != 32 && tok[i]
                != 13 && tok[i] != 10 by {
                if i == 0 {
                    assert(tok[0] == 80);
                } else if i == 1 {
                    assert(tok[1] == 85);
                } else if i == 2 {
                    assert(tok[2] == 84);
                }
            }
        },
        crate::request::Method::DELETE => {
            assert forall|i: int| 0 <= i < tok.len() implies tok[i] != 32 && tok[i]
                != 13 && tok[i] != 10 by {
                if i == 0 {
                    assert(tok[0] == 68);
                } else if i == 1 {
                    assert(tok[1] == 69);
                } else if i == 2 {
                    assert(tok[2] == 76);
                } else if i == 3 {
                    assert(tok[3] == 69);
                } else if i == 4 {
                    assert(tok[4] == 84);
                } else if i == 5 {
                    assert(tok[5] == 69);
                }
            }
        },
        crate::request::Method::PATCH => {
            assert forall|i: int| 0 <= i < tok.len() implies tok[i] != 32 && tok[i]
                != 13 && tok[i] != 10 by {
                if i == 0 {
                    assert(tok[0] == 80);
                } else if i == 1 {
                    assert(tok[1] == 65);
                } else if i == 2 {
                    assert(tok[2] == 84);
                } else if i == 3 {
                    assert(tok[3] == 67);
                } else if i == 4 {
                    assert(tok[4] == 72);
                }
            }
        },
        crate::request::Method::HEAD => {
            assert forall|i: int| 0 <= i < tok.len() implies tok[i] != 32 && tok[i]
                != 13 && tok[i] != 10 by {
                if i == 0 {
                    assert(tok[0] == 72);
                } else if i == 1 {
                    assert(tok[1] == 69);
                } else if i == 2 {
                    assert(tok[2] == 65);
                } else if i == 3 {
                    assert(tok[3] == 68);
                }
            }
        },
        crate::request::Method::OPTIONS => {
            assert forall|i: int| 0 <= i < tok.len() implies tok[i] != 32 && tok[i]
                != 13 && tok[i] != 10 by {
                if i == 0 {
                    assert(tok[0] == 79);
                } else if i == 1 {
                    assert(tok[1] == 80);
                } else if i == 2 {
                    assert(tok[2] == 84);
                } else if i == 3 {
                    assert(tok[3] == 73);
                } else if i == 4 {
                    assert(tok[4] == 79);
                } else if i == 5 {
                    assert(tok[5] == 78);
                } else if i == 6 {
                    assert(tok[6] == 83);
                }
            }
        },
        crate::request::Method::TRACE => {
            assert forall|i: int| 0 <= i < tok.len() implies tok[i] != 32 && tok[i]
                != 13 && tok[i] != 10 by {
                if i == 0 {
                    assert(tok[0] == 84);
                } else if i == 1 {
                    assert(tok[1] == 82);
                } else if i == 2 {
                    assert(tok[2] == 65);
                } else if i == 3 {
                    assert(tok[3] == 67);
                } else if i == 4 {
                    assert(tok[4] == 69);
                }
            }
        },
    }
}

/// A method's own token reads back as that method.
proof fn lemma_parse_method_token(method: crate::request::Method)
    ensures
        crate::request::spec_parse_method(method.spec_token()) == Some(method),
{
    assert(crate::request::Method::GET.spec_token()[0] == 71);
    assert(crate::request::Method::POST.spec_token()[0] == 80);
    assert(crate::request::Method::PUT.spec_token()[0] == 80);
    assert(crate::request::Method::PUT.spec_token()[1] == 85);
    assert(crate::request::Method::POST.spec_token()[1] == 79);
    assert(crate::request::Method::DELETE.spec_token()[0] == 68);
    assert(crate::request::Method::PATCH.spec_token()[0] == 80);
    assert(crate::request::Method::PATCH.spec_token()[1] == 65);
    assert(crate::request::Method::HEAD.spec_token()[0] == 72);
    assert(crate::request::Method::OPTIONS.spec_token()[0] == 79);
    assert(crate::request::Method::TRACE.spec_token()[0] == 84);
}

/// A pattern that occurs at `i` and nowhere earlier is found at `i`.
proof fn lemma_find_sub_at(s: Seq<u8>, pat: Seq<u8>, i: int)
    requires
        pat.len() > 0,
        is_match_at(s, pat, i),
        forall|j: int| 0 <= j < i ==> !is_match_at(s, pat, j),
    ensures
        find_sub(s, pat) == Some(i),
{
    lemma_find_sub(s, pat);
}

/// The text of a whole request: the start line `METHOD SP TARGET SP
/// VERSION`, one further header line, the blank line, and the body.
pub open spec fn request_text(
    method: crate::request::Method,
    target: Seq<u8>,
    version: Seq<u8>,
    extra: Seq<u8>,
    body: Seq<u8>,
) -> Seq<u8> {
    method.spec_token().add(seq![32u8]).add(target).add(seq![32u8]).add(version).add(
        seq![13u8, 10],
    ).add(extra).add(seq![13u8, 10, 13, 10]).add(body)
}

/// What a whole built request parses to: for a request text with a valid
/// method token, a path free of spaces, query marks and line breaks, a
/// version and one header line free of line breaks, parsing rejects an
/// overlong path with `UriTooLong` and otherwise returns exactly the built
/// method and path, with the body's entries as the payload.
proof fn lemma_request_text_parses(
    method: crate::request::Method,
    path: Seq<u8>,
    version: Seq<u8>,
    extra: Seq<u8>,
    body: Seq<u8>,
)
    requires
        no_byte(path, 32),
        no_byte(path, 63),
        no_byte(path, 13),
        no_byte(path, 10),
        no_byte(version, 13),
        no_byte(version, 10),
        extra.len() >= 1,
        no_byte(extra, 13),
        no_byte(extra, 10),
    ensures
        crate::request::spec_parse_request(request_text(method, path, version, extra, body)) == (
        if path.len() > MAX_PATH_LEN {
            Err::<crate::request::RequestModel, StatusCode>(StatusCode::UriTooLong)
        } else if body.len() == 0 {
            Ok::<crate::request::RequestModel, StatusCode>(
                crate::request::RequestModel { method, path, parameters: None, payload: None },
            )
        } else {
            match spec_parse_kv(body) {
                Err(e) => Err::<crate::request::RequestModel, StatusCode>(e),
                Ok(m) => Ok::<crate::request::RequestModel, StatusCode>(
                    crate::request::RequestModel {
                        method,
                        path,
                        parameters: None,
                        payload: Some(m),
                    },
                ),
            }
        }),
{
    lemma_method_token_clean(method);
    lemma_parse_method_token(method);
    let tok = method.spec_token();
    let start = tok.add(seq![32u8]).add(path).add(seq![32u8]).add(version);
    let s = request_text(method, path, version, extra, body);
    assert(s =~= start.add(seq![13u8, 10]).add(extra).add(seq![13u8, 10, 13, 10]).add(body));

    // the start line holds no line break
    assert(no_byte(start, 13) && no_byte(start, 10)) by {
        assert forall|i: int| 0 <= i < start.len() implies start[i] != 13 && start[i] != 10 by {
            if i < tok.len() {
                assert(start[i] == tok[i]);
            } else if i == tok.len() {
                assert(start[i] == 32);
            } else if i < tok.len() + 1 + path.len() {
                assert(start[i] == path[i - tok.len() - 1]);
            } else if i == tok.len() + 1 + path.len() {
                assert(start[i] == 32);
            } else {
                assert(start[i] == version[i - tok.len() - path.len() - 2]);
            }
        }
    }

    // the first blank line stands after the one header line
    let h0 = start.len() + 2 + extra.len() as int;
    let pat4 = seq![13u8, 10, 13, 10];
    assert(s[start.len() as int] == 13);
    assert(s[start.len() as int + 1] == 10);
    assert(forall|t: int| 0 <= t < extra.len() ==> s[start.len() as int + 2 + t] == extra[t]);
    assert(s[h0] == 13 && s[h0 + 1] == 10 && s[h0 + 2] == 13 && s[h0 + 3] == 10);
    assert(is_match_at(s, pat4, h0)) by {
        assert(s.subrange(h0, h0 + 4) =~= pat4);
    }
    assert forall|j: int| 0 <= j < h0 implies !is_match_at(s, pat4, j) by {
        if is_match_at(s, pat4, j) {
            assert(s.subrange(j, j + 4)[0] == s[j]);
            assert(s.subrange(j, j + 4)[2] == s[j + 2]);
            assert(s[j] == 13);
            if j < start.len() {
                assert(s[j] == start[j]);
            } else if j == start.len() + 1 {
                assert(s[j] == 10);
            } else if j > start.len() + 1 {
                assert(s[j] == extra[j - start.len() - 2]);
            } else {
                // j is the line break after the start line; two bytes on,
                // the header line's first byte is no carriage return
                assert(s[j + 2] == extra[0]);
            }
        }
    }
    lemma_find_sub_at(s, pat4, h0);
    assert(s.skip(h0 + 4) =~= body);

    // the header block splits at the line break after the start line
    let header = s.take(h0);
    assert(header =~= start.add(seq![13u8, 10]).add(extra));
    let pat2 = seq![13u8, 10];
    assert(is_match_at(header, pat2, start.len() as int)) by {
        assert(header.subrange(start.len() as int, start.len() as int + 2) =~= pat2);
    }
    assert forall|j: int| 0 <= j < start.len() implies !is_match_at(header, pat2, j) by {
        if is_match_at(header, pat2, j) {
            assert(header.subrange(j, j + 2)[0] == header[j]);
            assert(header[j] == 13);
            assert(header[j] == start[j]);
        }
    }
    lemma_find_sub_at(header, pat2, start.len() as int);
    assert(header.take(start.len() as int) =~= start);

    // the start line splits at its two spaces
    assert(start[tok.len() as int] == 32);
    assert(forall|j: int| 0 <= j < tok.len() ==> start[j] == tok[j]);
    lemma_find_byte_at(start, 32, tok.len() as int);
    assert(start.take(tok.len() as int) =~= tok);
    let rest = start.skip(tok.len() as int + 1);
    assert(rest =~= path.add(seq![32u8]).add(version));
    assert(rest[path.len() as int] == 32);
    assert(forall|j: int| 0 <= j < path.len() ==> rest[j] == path[j]);
    lemma_find_byte_at(rest, 32, path.len() as int);
    assert(rest.take(path.len() as int) =~= path);

    // the target holds no query mark; an overlong path is rejected here,
    // a fitting one is returned with the body's entries
    lemma_find_byte_none(path, 63);
}

/// An overlong path is rejected, never silently truncated: a request whose
/// target path exceeds `MAX_PATH_LEN` bytes — the method token valid, the
/// path free of spaces, query marks and line breaks, the version and the
/// header line free of line breaks — parses to `UriTooLong`, whatever the
/// body holds.
pub proof fn lemma_overlong_path_rejected(
    method: crate::request::Method,
    path: Seq<u8>,
    version: Seq<u8>,
    extra: Seq<u8>,
    body: Seq<u8>,
)
    requires
        path.len() > MAX_PATH_LEN,
        no_byte(path, 32),
        no_byte(path, 63),
        no_byte(path, 13),
        no_byte(path, 10),
        no_byte(version, 13),
        no_byte(version, 10),
        extra.len() >= 1,
        no_byte(extra, 13),
        no_byte(extra, 10),
    ensures
        crate::request::spec_parse_request(request_text(method, path, version, extra, body))
            == Err::<crate::request::RequestModel, StatusCode>(StatusCode::UriTooLong),
{
    lemma_request_text_parses(method, path, version, extra, body);
}

/// Parsing inverts building: a request built from a valid method, a path
/// within the bound and free of spaces, query marks and line breaks, a
/// clean version and header line, and an empty body parses back to exactly
/// that method and path, with no parameters and no payload.
pub proof fn lemma_parse_inverts_build(
    method: crate::request::Method,
    path: Seq<u8>,
    version: Seq<u8>,
    extra: Seq<u8>,
)
    requires
        path.len() <= MAX_PATH_LEN,
        no_byte(path, 32),
        no_byte(path, 63),
        no_byte(path, 13),
        no_byte(path, 10),
        no_byte(version, 13),
        no_byte(version, 10),
        extra.len() >= 1,
        no_byte(extra, 13),
        no_byte(extra, 10),
    ensures
        crate::request::spec_parse_request(
            request_text(method, path, version, extra, Seq::empty()),
        ) == Ok::<crate::request::RequestModel, StatusCode>(
            crate::request::RequestModel { method, path, parameters: None, payload: None },
        ),
{
    lemma_request_text_parses(method, path, version, extra, Seq::empty());
}

} // verus!
