use perigee::token_uri::{validate_uri, UriCache, UriError, DEFAULT_URI_TTL};

fn b(s: &str) -> Vec<u8> {
    s.as_bytes().to_vec()
}

#[test]
fn test_set_and_read_token_uri() {
    let mut c = UriCache::new();
    let uri = b("https://metadata.perigee.dev/tokens/1.json");
    assert_eq!(validate_uri(&uri), Ok(()));
    c.set_token_uri(&uri, 1);
    assert_eq!(c.token_uri(1), uri);
}

#[test]
fn test_ttl_expiry_marks_cache_stale() {
    let mut c = UriCache::new();
    c.set_token_uri_ttl(10);
    c.set_token_uri(&b("https://metadata.perigee.dev/tokens/2.json"), 1);
    assert!(!c.token_uri_info(1).expired);
    assert!(c.token_uri_info(21).expired);
}

#[test]
fn test_read_freshens_stale_cache() {
    let mut c = UriCache::new();
    c.set_token_uri_ttl(10);
    let uri = b("https://metadata.perigee.dev/tokens/3.json");
    c.set_token_uri(&uri, 1);
    assert!(c.token_uri_info(21).expired);
    assert_eq!(c.token_uri(21), uri);
    assert!(!c.token_uri_info(21).expired);
}

#[test]
fn test_invalidate_token_uri() {
    let mut c = UriCache::new();
    c.set_token_uri(&b("https://metadata.perigee.dev/tokens/4.json"), 1);
    c.invalidate_token_uri();
    assert_eq!(c.token_uri(1), Vec::<u8>::new());
    assert!(c.token_uri_info(1).expired);
}

#[test]
fn malformed_uris_are_refused_with_the_first_failing_check() {
    assert_eq!(validate_uri(&b("")), Err(UriError::Empty));
    assert_eq!(validate_uri(&b("file:///etc/passwd")), Err(UriError::BadScheme));
    assert_eq!(validate_uri(&b("https://metadata .perigee.dev/x.json")), Err(UriError::BadByte));
    let long = format!("https://metadata.perigee.dev/{}", "a".repeat(500));
    assert_eq!(validate_uri(&b(&long)), Err(UriError::TooLong));
    assert_eq!(validate_uri(&b("ipfs://bafy")), Ok(()));
    assert_eq!(validate_uri(&b("http://x")), Ok(()));
    assert_eq!(validate_uri(&b("https:/x")), Err(UriError::BadScheme));
}

#[test]
fn info_without_cache_and_default_ttl() {
    let c = UriCache::new();
    let info = c.token_uri_info(77);
    assert_eq!(info.uri.len(), 0);
    assert_eq!(info.cached_ledger, 77);
    assert_eq!(info.ttl, DEFAULT_URI_TTL);
    assert!(info.expired);
    // Exactly at the lifetime the entry is still fresh.
    let mut c = UriCache::new();
    c.set_token_uri_ttl(10);
    c.set_token_uri(&b("ipfs://x"), 100);
    assert!(!c.token_uri_info(110).expired);
    assert!(c.token_uri_info(111).expired);
    // A ledger before the anchor never counts as stale.
    assert!(!c.token_uri_info(50).expired);
}

#[test]
#[should_panic]
fn test_invalid_scheme_rejected() {
    validate_uri(&b("file:///etc/passwd")).unwrap();
}

#[test]
#[should_panic]
fn test_whitespace_rejected() {
    validate_uri(&b("https://metadata .perigee.dev/x.json")).unwrap();
}

#[test]
#[should_panic]
fn test_oversized_uri_rejected() {
    let uri = b(
        "https://metadata.perigee.dev/aaaaaaaaaaaaaaaaaaaaaaaaaaaaaaaaaaaaaaaaaaaaaaaaaaaaaaaaaaaaaaaaaaaaaaaaaaaaaaaaaaaaaaaaaaaaaaaaaaaaaaaaaaaaaaaaaaaaaaaaaaaaaaaaaaaaaaaaaaaaaaaaaaaaaaaaaaaaaaaaaaaaaaaaaaaaaaaaaaaaaaaaaaaaaaaaaaaaaaaaaaaaaaaaaaaaaaaaaaaaaaaaaaaaaaaaaaaaaaaaaaaaaaaaaaaaaaaaaaaaaaaaaaaaaaaaaaaaaaaaaaaaaaaaaaaaaaaaaaaaaaaaaaaaaaaaaaaaaaaaaaaaaaaaaaaaaaaaaaaaaaaaaaaaaaaaaaaaaaaaaaaaaaaaaaaaaaaaaaaaaaaaaaaaaaaaaaaaaaaaaaaaaaaaaaaaaaaaaaaaaaaaaaaaaaaaaaaaaaaaaaaaaaaaaaaaaaaaaaaaaaaaaaaaaaaaaaaaaaaaaaaaaaaaaaaaaaaaaaaaaaaaaaaaaaaa",
    );
    validate_uri(&uri).unwrap();
}
