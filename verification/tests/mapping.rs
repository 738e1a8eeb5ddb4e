use pico_http::kvmap::KeyValueMap;
use pico_http::request::HttpRequest;

#[test]
fn insert_and_get_round_trip() {
    let mut m = KeyValueMap::new();
    m.insert(b"alpha", b"1").unwrap();
    m.insert(b"beta", b"2").unwrap();
    assert_eq!(m.get(b"alpha").unwrap().as_slice(), b"1");
    assert_eq!(m.get(b"beta").unwrap().as_slice(), b"2");
    assert!(m.get(b"gamma").is_none());
    assert_eq!(m.len(), 2);
}

#[test]
fn insert_overwrites_existing_key() {
    let mut m = KeyValueMap::new();
    m.insert(b"k", b"old").unwrap();
    m.insert(b"k", b"new").unwrap();
    assert_eq!(m.get(b"k").unwrap().as_slice(), b"new");
    assert_eq!(m.len(), 1);
}

#[test]
fn insert_rejects_overlong_entries() {
    let mut m = KeyValueMap::new();
    assert!(m.insert(b"aaaaaaaaaaaaaaaaa", b"v").is_err());
    assert!(m.insert(b"k", b"bbbbbbbbbbbbbbbbb").is_err());
    assert_eq!(m.len(), 0);
    assert!(m.insert(b"aaaaaaaaaaaaaaaa", b"bbbbbbbbbbbbbbbb").is_ok());
}

#[test]
fn ninth_key_is_rejected_but_overwrite_still_works() {
    let mut m = KeyValueMap::new();
    let keys: Vec<Vec<u8>> = (0..9).map(|i| format!("key{}", i).into_bytes()).collect();
    for key in keys.iter().take(8) {
        m.insert(key, b"v").unwrap();
    }
    assert_eq!(m.len(), 8);
    assert!(m.insert(&keys[8], b"v").is_err());
    assert_eq!(m.len(), 8);
    // the full map still accepts a write to an existing key
    assert!(m.insert(&keys[0], b"w").is_ok());
    assert_eq!(m.get(&keys[0]).unwrap().as_slice(), b"w");
}

#[test]
fn query_round_trip_through_the_parser() {
    // parsing well-formed pairs and looking each key up returns the
    // original values
    let req = HttpRequest::parse(b"GET /d?one=uno&two=dos&three=tres HTTP/1.1\r\nH: h\r\n\r\n")
        .unwrap();
    let m = req.parameters.as_ref().unwrap();
    assert_eq!(m.get(b"one").unwrap().as_slice(), b"uno");
    assert_eq!(m.get(b"two").unwrap().as_slice(), b"dos");
    assert_eq!(m.get(b"three").unwrap().as_slice(), b"tres");
    assert_eq!(m.len(), 3);
}

#[test]
fn value_may_contain_equals_sign() {
    // a pair splits at its first equals sign; later ones belong to the value
    let req = HttpRequest::parse(b"GET /d?k=a=b HTTP/1.1\r\nH: h\r\n\r\n").unwrap();
    let m = req.parameters.as_ref().unwrap();
    assert_eq!(m.get(b"k").unwrap().as_slice(), b"a=b");
}
