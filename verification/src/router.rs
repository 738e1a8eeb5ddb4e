//! A bounded routing table mapping (path, method) pairs to handlers.
//!
//! Lookup is exact: two routes differing only in method are distinct
//! entries, and a path registered for one method and requested with another
//! falls through to a not-found response. The table is built once at
//! startup; registering into a full table, or registering a key twice, is a
//! reported error.

use vstd::prelude::*;

use crate::bytes::bytes_eq;
use crate::kvmap::KeyValueMap;
use crate::request::{HttpRequest, Method, RequestModel};
use crate::response::{HttpResponse, ResponseModel, StatusCode};

verus! {

/// Greatest number of routes a table can hold.
pub const MAX_ROUTES: usize = 32;

/// The entries of an optional borrowed map.
pub open spec fn opt_ref_map_view(o: Option<&KeyValueMap>) -> Option<Map<Seq<u8>, Seq<u8>>> {
    match o {
        Some(m) => Some(m@),
        None => None,
    }
}

/// An optional borrowed map is within its bounds.
pub open spec fn opt_ref_map_wf(o: Option<&KeyValueMap>) -> bool {
    match o {
        Some(m) => m.wf(),
        None => true,
    }
}

/// A request handler: a pure function of the optional parameter and payload
/// entries to a response. Stateless with respect to the HTTP layer.
pub trait RequestHandler<const CAPACITY: usize> {
    /// The response the handler computes from the given entries.
    spec fn response_model(
        &self,
        parameters: Option<Map<Seq<u8>, Seq<u8>>>,
        payload: Option<Map<Seq<u8>, Seq<u8>>>,
    ) -> ResponseModel;

    /// Computes the handler's response for the given entries.
    fn call(&self, parameters: Option<&KeyValueMap>, payload: Option<&KeyValueMap>) -> (r:
        HttpResponse<CAPACITY>)
        requires
            opt_ref_map_wf(parameters),
            opt_ref_map_wf(payload),
        ensures
            r.wf(),
            r.model() == self.response_model(
                opt_ref_map_view(parameters),
                opt_ref_map_view(payload),
            ),
    ;
}

/// The map holding, for each `i < n`, the entry `keys[i] -> handlers[i]`.
pub open spec fn routes_upto<H>(
    keys: Seq<(Seq<u8>, Method)>,
    handlers: Seq<H>,
    n: int,
) -> Map<(Seq<u8>, Method), H>
    decreases n,
{
    if n <= 0 {
        Map::empty()
    } else {
        routes_upto(keys, handlers, n - 1).insert(keys[n - 1], handlers[n - 1])
    }
}

/// No two of the first `n` route keys are equal.
pub open spec fn route_keys_distinct(keys: Seq<(Seq<u8>, Method)>, n: int) -> bool {
    forall|i: int, j: int| 0 <= i < j < n ==> keys[i] != keys[j]
}

/// What `routes_upto` holds: its domain is exactly the first `n` keys;
/// when those keys are distinct, each key maps to its parallel handler and
/// the domain's size is `n`.
pub proof fn lemma_routes_upto<H>(keys: Seq<(Seq<u8>, Method)>, handlers: Seq<H>, n: int)
    requires
        0 <= n,
    ensures
        routes_upto(keys, handlers, n).dom().finite(),
        forall|k: (Seq<u8>, Method)| #[trigger]
            routes_upto(keys, handlers, n).dom().contains(k) <==> exists|i: int|
                0 <= i < n && keys[i] == k,
        route_keys_distinct(keys, n) ==> (forall|i: int|
            0 <= i < n ==> routes_upto(keys, handlers, n)[#[trigger] keys[i]] == handlers[i]),
        route_keys_distinct(keys, n) ==> routes_upto(keys, handlers, n).dom().len() == n,
    decreases n,
{
    if n > 0 {
        lemma_routes_upto(keys, handlers, n - 1);
        let prev = routes_upto(keys, handlers, n - 1);
        let cur = routes_upto(keys, handlers, n);
        assert forall|k: (Seq<u8>, Method)| #[trigger] cur.dom().contains(k) implies exists|i: int|
            0 <= i < n && keys[i] == k by {
            if k == keys[n - 1] {
                assert(keys[n - 1] == k);
            } else {
                assert(prev.dom().contains(k));
            }
        }
        assert forall|k: (Seq<u8>, Method)| (exists|i: int| 0 <= i < n && keys[i] == k) implies
            cur.dom().contains(k) by {
            let i = choose|i: int| 0 <= i < n && keys[i] == k;
            if i == n - 1 {
            } else {
                assert(prev.dom().contains(k));
            }
        }
        if route_keys_distinct(keys, n) {
            assert forall|i: int| 0 <= i < n implies cur[#[trigger] keys[i]] == handlers[i] by {
                if i < n - 1 {
                    assert(keys[i] != keys[n - 1]);
                }
            }
            assert(!prev.dom().contains(keys[n - 1]));
            assert(cur.dom() =~= prev.dom().insert(keys[n - 1]));
            vstd::set::axiom_set_insert_len(prev.dom(), keys[n - 1]);
        }
    }
}

/// `routes_upto` reads only the first `n` keys and handlers.
pub proof fn lemma_routes_upto_congruent<H>(
    k1: Seq<(Seq<u8>, Method)>,
    h1: Seq<H>,
    k2: Seq<(Seq<u8>, Method)>,
    h2: Seq<H>,
    n: int,
)
    requires
        forall|i: int| 0 <= i < n ==> k1[i] == k2[i] && h1[i] == h2[i],
    ensures
        routes_upto(k1, h1, n) == routes_upto(k2, h2, n),
    decreases n,
{
    if n > 0 {
        lemma_routes_upto_congruent(k1, h1, k2, h2, n - 1);
    }
}

/// A bounded table of routes, stored as parallel vectors of paths, methods
/// and handlers. Built once at startup and read-only afterwards.
pub struct Router<H> {
    paths: Vec<Vec<u8>>,
    methods: Vec<Method>,
    handlers: Vec<H>,
}

impl<H> Router<H> {
    /// The route keys as (path, method) pairs, in storage order.
    pub closed spec fn key_seq(self) -> Seq<(Seq<u8>, Method)> {
        Seq::new(self.paths@.len() as nat, |i: int| (self.paths@[i]@, self.methods@[i]))
    }

    /// The handlers, in storage order.
    pub closed spec fn handler_seq(self) -> Seq<H> {
        self.handlers@
    }

    /// The table is within its bounds: at most `MAX_ROUTES` entries and no
    /// (path, method) pair registered twice.
    pub closed spec fn wf(self) -> bool {
        &&& self.paths@.len() == self.methods@.len()
        &&& self.paths@.len() == self.handlers@.len()
        &&& self.paths@.len() <= MAX_ROUTES
        &&& route_keys_distinct(self.key_seq(), self.paths@.len() as int)
    }

    /// The number of routes equals the size of the table's domain.
    pub proof fn lemma_len_is_dom_len(self)
        requires
            self.wf(),
        ensures
            self@.dom().finite(),
            self@.dom().len() == self.key_seq().len(),
    {
        lemma_routes_upto(self.key_seq(), self.handler_seq(), self.paths@.len() as int);
    }

    /// Creates a table with no routes.
    pub fn empty() -> (r: Router<H>)
        ensures
            r.wf(),
            r@ == Map::<(Seq<u8>, Method), H>::empty(),
    {
        Router { paths: Vec::new(), methods: Vec::new(), handlers: Vec::new() }
    }

    /// Index of the route key `(path, method)`, if registered.
    fn index_of(&self, path: &[u8], method: Method) -> (r: Option<usize>)
        requires
            self.wf(),
        ensures
            match r {
                Some(i) => 0 <= i < self.key_seq().len() && self.key_seq()[i as int] == (
                    path@,
                    method,
                ),
                None => forall|i: int|
                    0 <= i < self.key_seq().len() ==> self.key_seq()[i] != (path@, method),
            },
    {
        let n: usize = self.paths.len();
        let mut i: usize = 0;
        while i < n
            invariant
                n == self.paths@.len(),
                self.paths@.len() == self.methods@.len(),
                0 <= i <= n,
                forall|j: int| 0 <= j < i ==> self.key_seq()[j] != (path@, method),
            decreases n - i,
        {
            if self.methods[i] == method && bytes_eq(self.paths[i].as_slice(), path) {
                return Some(i);
            }
            assert(self.key_seq()[i as int] == (self.paths@[i as int]@, self.methods@[i as int]));
            i = i + 1;
        }
        None
    }

    /// Adds the route `(path, method) -> handler`. Fails exactly when the
    /// key is already registered or the table is full: a capacity violation
    /// at startup is reported, never a silently dropped route.
    pub fn route(self, path: &[u8], method: Method, handler: H) -> (r: Result<Router<H>, ()>)
        requires
            self.wf(),
        ensures
            r is Ok <==> (!self@.dom().contains((path@, method)) && self@.dom().len()
                < MAX_ROUTES),
            match r {
                Ok(r2) => r2.wf() && r2@ == self@.insert((path@, method), handler),
                Err(()) => true,
            },
    {
        proof {
            self.lemma_len_is_dom_len();
            lemma_routes_upto(self.key_seq(), self.handler_seq(), self.paths@.len() as int);
        }
        match self.index_of(path, method) {
            Some(_) => Err(()),
            None => {
                if self.paths.len() >= MAX_ROUTES {
                    return Err(());
                }
                let mut paths = self.paths;
                let mut methods = self.methods;
                let mut handlers = self.handlers;
                let owned_path = vstd::slice::slice_to_vec(path);
                paths.push(owned_path);
                methods.push(method);
                handlers.push(handler);
                let r2 = Router { paths, methods, handlers };
                proof {
                    assert(r2.key_seq() =~= self.key_seq().push((path@, method)));
                    assert(r2.handler_seq() =~= self.handler_seq().push(handler));
                    let n = self.paths@.len() as int;
                    lemma_routes_upto_congruent(
                        r2.key_seq(),
                        r2.handler_seq(),
                        self.key_seq(),
                        self.handler_seq(),
                        n,
                    );
                    assert(r2@ == routes_upto(r2.key_seq(), r2.handler_seq(), n).insert(
                        (path@, method),
                        handler,
                    ));
                    lemma_routes_upto(r2.key_seq(), r2.handler_seq(), r2.paths@.len() as int);
                }
                Ok(r2)
            },
        }
    }

    /// Looks the route key `(path, method)` up, returning its handler when
    /// registered.
    pub fn lookup(&self, path: &[u8], method: Method) -> (r: Option<&H>)
        requires
            self.wf(),
        ensures
            match r {
                Some(h) => self@.dom().contains((path@, method)) && *h == self@[(path@, method)],
                None => !self@.dom().contains((path@, method)),
            },
    {
        proof {
            lemma_routes_upto(self.key_seq(), self.handler_seq(), self.paths@.len() as int);
        }
        match self.index_of(path, method) {
            Some(i) => Some(&self.handlers[i]),
            None => None,
        }
    }
}

impl<H> View for Router<H> {
    type V = Map<(Seq<u8>, Method), H>;

    /// The mathematical map the routes amount to.
    closed spec fn view(&self) -> Map<(Seq<u8>, Method), H> {
        routes_upto(self.key_seq(), self.handler_seq(), self.paths@.len() as int)
    }
}

/// The response dispatch produces for a parsed request: the registered
/// handler's response on a hit, an empty not-found response on a miss.
pub open spec fn spec_dispatch<const CAPACITY: usize, H: RequestHandler<CAPACITY>>(
    router: Router<H>,
    req: RequestModel,
) -> ResponseModel {
    if router@.dom().contains((req.path, req.method)) {
        router@[(req.path, req.method)].response_model(req.parameters, req.payload)
    } else {
        ResponseModel { status: StatusCode::NotFound, content: Seq::empty() }
    }
}

/// A routing miss is a normal outcome, not an error: dispatch of a request
/// whose (path, method) pair is absent from the table is an empty response
/// with the not-found status. No method-not-allowed response is produced
/// here: a path registered for another method falls through to this case.
pub proof fn lemma_dispatch_miss_not_found<const CAPACITY: usize, H: RequestHandler<CAPACITY>>(
    router: Router<H>,
    req: RequestModel,
)
    requires
        !router@.dom().contains((req.path, req.method)),
    ensures
        spec_dispatch::<CAPACITY, H>(router, req).status == StatusCode::NotFound,
        spec_dispatch::<CAPACITY, H>(router, req).content == Seq::<u8>::empty(),
{
}

impl<H> Router<H> {
    /// Dispatches a parsed request: looks `(path, method)` up exactly and
    /// invokes the registered handler with the request's parameters and
    /// payload; a miss returns an empty not-found response.
    pub fn handle<const CAPACITY: usize>(&self, http_request: HttpRequest) -> (r: HttpResponse<
        CAPACITY,
    >) where H: RequestHandler<CAPACITY>
        requires
            self.wf(),
            http_request.wf(),
        ensures
            r.wf(),
            r.model() == spec_dispatch(*self, http_request@),
    {
        let (path, method) = http_request.get_identification();
        match self.lookup(path.as_slice(), method) {
            Some(handler) => handler.call(
                http_request.parameters.as_ref(),
                http_request.payload.as_ref(),
            ),
            None => HttpResponse::empty(StatusCode::NotFound),
        }
    }
}

} // verus!
