//! A bounded string-to-string map, used for query parameters and
//! form-encoded bodies.
//!
//! Keys and values are byte strings of at most [`MAX_ENTRY_LEN`] bytes; the
//! map holds at most [`MAX_PAIRS`] entries. Exceeding either bound is a
//! reported error, never silent truncation. Inserting an existing key
//! overwrites its value: last write wins.

use vstd::prelude::*;

use crate::numerals::{all_digits, dec_value, parse_dec_bounded};

verus! {

/// Greatest number of entries a map can hold.
pub const MAX_PAIRS: usize = 8;

/// Greatest length, in bytes, of one key or one value.
pub const MAX_ENTRY_LEN: usize = 16;

/// A bounded map from byte-string keys to byte-string values, stored as
/// parallel vectors of keys and values.
pub struct KeyValueMap {
    keys: Vec<Vec<u8>>,
    values: Vec<Vec<u8>>,
}

/// The map holding, for each `i < n`, the entry `keys[i] -> vals[i]`, later
/// entries overwriting earlier ones.
pub open spec fn map_upto(keys: Seq<Seq<u8>>, vals: Seq<Seq<u8>>, n: int) -> Map<
    Seq<u8>,
    Seq<u8>,
>
    decreases n,
{
    if n <= 0 {
        Map::empty()
    } else {
        map_upto(keys, vals, n - 1).insert(keys[n - 1], vals[n - 1])
    }
}

/// `map_upto` reads only the first `n` keys and values.
pub proof fn lemma_map_upto_congruent(
    k1: Seq<Seq<u8>>,
    v1: Seq<Seq<u8>>,
    k2: Seq<Seq<u8>>,
    v2: Seq<Seq<u8>>,
    n: int,
)
    requires
        forall|i: int| 0 <= i < n ==> k1[i] == k2[i] && v1[i] == v2[i],
    ensures
        map_upto(k1, v1, n) == map_upto(k2, v2, n),
    decreases n,
{
    if n > 0 {
        lemma_map_upto_congruent(k1, v1, k2, v2, n - 1);
    }
}

/// No two of the first `n` keys are equal.
pub open spec fn keys_distinct(keys: Seq<Seq<u8>>, n: int) -> bool {
    forall|i: int, j: int| 0 <= i < j < n ==> keys[i] != keys[j]
}

/// What `map_upto` holds: its domain is exactly the first `n` keys; when
/// those keys are distinct, each key maps to its parallel value and the
/// domain's size is `n`.
pub proof fn lemma_map_upto(keys: Seq<Seq<u8>>, vals: Seq<Seq<u8>>, n: int)
    requires
        0 <= n,
    ensures
        map_upto(keys, vals, n).dom().finite(),
        forall|k: Seq<u8>| #[trigger]
            map_upto(keys, vals, n).dom().contains(k) <==> exists|i: int|
                0 <= i < n && keys[i] == k,
        keys_distinct(keys, n) ==> (forall|i: int|
            0 <= i < n ==> map_upto(keys, vals, n)[#[trigger] keys[i]] == vals[i]),
        keys_distinct(keys, n) ==> map_upto(keys, vals, n).dom().len() == n,
    decreases n,
{
    if n > 0 {
        lemma_map_upto(keys, vals, n - 1);
        let prev = map_upto(keys, vals, n - 1);
        let cur = map_upto(keys, vals, n);
        assert forall|k: Seq<u8>| #[trigger] cur.dom().contains(k) implies exists|i: int|
            0 <= i < n && keys[i] == k by {
            if k == keys[n - 1] {
                assert(keys[n - 1] == k);
            } else {
                assert(prev.dom().contains(k));
            }
        }
        assert forall|k: Seq<u8>| (exists|i: int| 0 <= i < n && keys[i] == k) implies
            cur.dom().contains(k) by {
            let i = choose|i: int| 0 <= i < n && keys[i] == k;
            if i == n - 1 {
            } else {
                assert(prev.dom().contains(k));
            }
        }
        if keys_distinct(keys, n) {
            assert forall|i: int| 0 <= i < n implies cur[#[trigger] keys[i]] == vals[i] by {
                if i < n - 1 {
                    assert(keys[i] != keys[n - 1]);
                }
            }
            assert(!prev.dom().contains(keys[n - 1]));
            assert(cur.dom() =~= prev.dom().insert(keys[n - 1]));
            vstd::set::axiom_set_insert_len(prev.dom(), keys[n - 1]);
        }
    }
}

impl KeyValueMap {
    /// The keys as byte sequences, in storage order.
    pub closed spec fn key_seq(self) -> Seq<Seq<u8>> {
        Seq::new(self.keys@.len() as nat, |i: int| self.keys@[i]@)
    }

    /// The values as byte sequences, in storage order.
    pub closed spec fn val_seq(self) -> Seq<Seq<u8>> {
        Seq::new(self.values@.len() as nat, |i: int| self.values@[i]@)
    }

    /// The map is within its bounds: at most `MAX_PAIRS` entries, each key
    /// and value at most `MAX_ENTRY_LEN` bytes, and no key stored twice.
    pub closed spec fn wf(self) -> bool {
        &&& self.keys@.len() == self.values@.len()
        &&& self.keys@.len() <= MAX_PAIRS
        &&& (forall|i: int|
            0 <= i < self.keys@.len() ==> (#[trigger] self.keys@[i]@.len()) <= MAX_ENTRY_LEN
                && self.values@[i]@.len() <= MAX_ENTRY_LEN)
        &&& keys_distinct(self.key_seq(), self.keys@.len() as int)
    }

    /// The number of entries equals the size of the map's domain.
    pub proof fn lemma_len_is_dom_len(self)
        requires
            self.wf(),
        ensures
            self@.dom().finite(),
            self@.dom().len() == self.key_seq().len(),
    {
        lemma_map_upto(self.key_seq(), self.val_seq(), self.keys@.len() as int);
    }

    /// Creates an empty map.
    pub fn new() -> (r: KeyValueMap)
        ensures
            r.wf(),
            r@ == Map::<Seq<u8>, Seq<u8>>::empty(),
    {
        KeyValueMap { keys: Vec::new(), values: Vec::new() }
    }

    /// Index of `key` among the stored keys, if present.
    fn index_of(&self, key: &[u8]) -> (r: Option<usize>)
        ensures
            match r {
                Some(i) => 0 <= i < self.key_seq().len() && self.key_seq()[i as int] == key@,
                None => forall|i: int| 0 <= i < self.key_seq().len() ==> self.key_seq()[i] != key@,
            },
    {
        let n: usize = self.keys.len();
        let mut i: usize = 0;
        while i < n
            invariant
                n == self.keys@.len(),
                0 <= i <= n,
                forall|j: int| 0 <= j < i ==> self.key_seq()[j] != key@,
            decreases n - i,
        {
            if crate::bytes::bytes_eq(self.keys[i].as_slice(), key) {
                return Some(i);
            }
            assert(self.key_seq()[i as int] == self.keys@[i as int]@);
            i = i + 1;
        }
        None
    }

    /// Looks `key` up, returning its value when the map holds it.
    pub fn get(&self, key: &[u8]) -> (r: Option<&Vec<u8>>)
        requires
            self.wf(),
        ensures
            match r {
                Some(v) => self@.dom().contains(key@) && v@ == self@[key@],
                None => !self@.dom().contains(key@),
            },
    {
        proof {
            lemma_map_upto(self.key_seq(), self.val_seq(), self.keys@.len() as int);
        }
        match self.index_of(key) {
            Some(i) => Some(&self.values[i]),
            None => None,
        }
    }

    /// The number of entries.
    pub fn len(&self) -> (r: usize)
        requires
            self.wf(),
        ensures
            r == self@.dom().len(),
    {
        proof {
            self.lemma_len_is_dom_len();
        }
        self.keys.len()
    }

    /// Inserts `key -> value`, overwriting the value of an existing key.
    /// Fails, leaving the map unchanged, exactly when the key or the value
    /// exceeds `MAX_ENTRY_LEN` bytes, or when the key is new and the map
    /// already holds `MAX_PAIRS` entries.
    pub fn insert(&mut self, key: &[u8], value: &[u8]) -> (r: Result<(), ()>)
        requires
            old(self).wf(),
        ensures
            final(self).wf(),
            r is Ok <==> (key@.len() <= MAX_ENTRY_LEN && value@.len() <= MAX_ENTRY_LEN && (old(
                self,
            )@.dom().contains(key@) || old(self)@.dom().len() < MAX_PAIRS)),
            r is Ok ==> final(self)@ == old(self)@.insert(key@, value@),
            r is Err ==> final(self)@ == old(self)@,
    {
        proof {
            lemma_map_upto(old(self).key_seq(), old(self).val_seq(), old(self).keys@.len() as int);
        }
        if key.len() > MAX_ENTRY_LEN || value.len() > MAX_ENTRY_LEN {
            return Err(());
        }
        match self.index_of(key) {
            Some(i) => {
                let owned_value = vstd::slice::slice_to_vec(value);
                self.values.remove(i);
                self.values.insert(i, owned_value);
                proof {
                    assert(self.key_seq() =~= old(self).key_seq());
                    assert(self.val_seq() =~= old(self).val_seq().update(i as int, value@));
                    lemma_map_upto(self.key_seq(), self.val_seq(), self.keys@.len() as int);
                    assert(self@ =~= old(self)@.insert(key@, value@));
                }
                Ok(())
            },
            None => {
                if self.keys.len() >= MAX_PAIRS {
                    return Err(());
                }
                let owned_key = vstd::slice::slice_to_vec(key);
                let owned_value = vstd::slice::slice_to_vec(value);
                self.keys.push(owned_key);
                self.values.push(owned_value);
                proof {
                    assert(self.key_seq() =~= old(self).key_seq().push(key@));
                    assert(self.val_seq() =~= old(self).val_seq().push(value@));
                    let n = old(self).keys@.len() as int;
                    lemma_map_upto_congruent(
                        self.key_seq(),
                        self.val_seq(),
                        old(self).key_seq(),
                        old(self).val_seq(),
                        n,
                    );
                    assert(self.key_seq()[n] == key@);
                    assert(self.val_seq()[n] == value@);
                    assert(self@ == map_upto(self.key_seq(), self.val_seq(), n).insert(
                        key@,
                        value@,
                    ));
                    lemma_map_upto(self.key_seq(), self.val_seq(), self.keys@.len() as int);
                }
                Ok(())
            },
        }
    }
}

impl View for KeyValueMap {
    type V = Map<Seq<u8>, Seq<u8>>;

    /// The mathematical map the entries amount to.
    closed spec fn view(&self) -> Map<Seq<u8>, Seq<u8>> {
        map_upto(self.key_seq(), self.val_seq(), self.keys@.len() as int)
    }
}

/// Looking a key up as a byte string.
pub trait GetStr {
    /// The entries the lookup consults.
    spec fn entries(&self) -> Map<Seq<u8>, Seq<u8>>;

    /// The entries are within the container's bounds.
    spec fn entries_wf(&self) -> bool;

    /// Returns the value stored under `key`, or fails when the key is
    /// absent.
    fn get_str(&self, key: &[u8]) -> (r: Result<&Vec<u8>, ()>)
        requires
            self.entries_wf(),
        ensures
            match r {
                Ok(v) => self.entries().dom().contains(key@) && v@ == self.entries()[key@],
                Err(()) => !self.entries().dom().contains(key@),
            },
    ;
}

impl GetStr for KeyValueMap {
    open spec fn entries(&self) -> Map<Seq<u8>, Seq<u8>> {
        self@
    }

    open spec fn entries_wf(&self) -> bool {
        self.wf()
    }

    fn get_str(&self, key: &[u8]) -> (r: Result<&Vec<u8>, ()>) {
        match self.get(key) {
            Some(v) => Ok(v),
            None => Err(()),
        }
    }
}

/// The number a stored value denotes: an optional `+` sign followed by one
/// or more decimal digits, within `max`; `None` when the value is not such
/// a numeral.
pub open spec fn numeral_within(s: Seq<u8>, max: nat) -> Option<nat> {
    let body = if s.len() > 0 && s[0] == 43 {
        s.skip(1)
    } else {
        s
    };
    if body.len() > 0 && all_digits(body) && dec_value(body) <= max {
        Some(dec_value(body))
    } else {
        None
    }
}

/// Looking a key up and reading its value as a number.
pub trait GetAs<T> {
    /// The entries the lookup consults.
    spec fn num_entries(&self) -> Map<Seq<u8>, Seq<u8>>;

    /// The entries are within the container's bounds.
    spec fn num_entries_wf(&self) -> bool;

    /// The number a stored value denotes, if it is a well-formed numeral in
    /// the result type's range.
    spec fn numeral_value(&self, s: Seq<u8>) -> Option<T>;

    /// Returns the value stored under `key` read as a number; fails when the
    /// key is absent or its value is not a numeral in range.
    fn get_as(&self, key: &[u8]) -> (r: Result<T, ()>)
        requires
            self.num_entries_wf(),
        ensures
            match r {
                Ok(v) => self.num_entries().dom().contains(key@) && self.numeral_value(
                    self.num_entries()[key@],
                ) == Some(v),
                Err(()) => !self.num_entries().dom().contains(key@) || self.numeral_value(
                    self.num_entries()[key@],
                ) is None,
            },
    ;
}

/// Reads the numeral `s` denotes when it is within `max`, stripping one
/// optional leading `+` sign.
fn parse_numeral_within(s: &[u8], max: u32) -> (r: Option<u32>)
    requires
        max <= 100000000,
    ensures
        match r {
            Some(v) => numeral_within(s@, max as nat) == Some(v as nat),
            None => numeral_within(s@, max as nat) is None,
        },
{
    let body: &[u8] = if s.len() > 0 && s[0] == 43 {
        vstd::slice::slice_subrange(s, 1, s.len())
    } else {
        s
    };
    parse_dec_bounded(body, max)
}

impl GetAs<u16> for KeyValueMap {
    open spec fn num_entries(&self) -> Map<Seq<u8>, Seq<u8>> {
        self@
    }

    open spec fn num_entries_wf(&self) -> bool {
        self.wf()
    }

    open spec fn numeral_value(&self, s: Seq<u8>) -> Option<u16> {
        match numeral_within(s, u16::MAX as nat) {
            Some(n) => Some(n as u16),
            None => None,
        }
    }

    fn get_as(&self, key: &[u8]) -> (r: Result<u16, ()>) {
        match self.get(key) {
            Some(v) => match parse_numeral_within(v.as_slice(), 65535) {
                Some(n) => Ok(n as u16),
                None => Err(()),
            },
            None => Err(()),
        }
    }
}

impl GetAs<u8> for KeyValueMap {
    open spec fn num_entries(&self) -> Map<Seq<u8>, Seq<u8>> {
        self@
    }

    open spec fn num_entries_wf(&self) -> bool {
        self.wf()
    }

    open spec fn numeral_value(&self, s: Seq<u8>) -> Option<u8> {
        match numeral_within(s, u8::MAX as nat) {
            Some(n) => Some(n as u8),
            None => None,
        }
    }

    fn get_as(&self, key: &[u8]) -> (r: Result<u8, ()>) {
        match self.get(key) {
            Some(v) => match parse_numeral_within(v.as_slice(), 255) {
                Some(n) => Ok(n as u8),
                None => Err(()),
            },
            None => Err(()),
        }
    }
}

} // verus!
