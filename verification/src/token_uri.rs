//! The token's metadata URI cache: structural validation of a URI before it
//! is stored, and a ledger-based lifetime after which the cached entry is
//! stale (a read freshens it).
use vstd::prelude::*;
use crate::token_storage::{CachedUri, UriInfo};
use crate::address::bytes_copy;

verus! {

/// Maximum accepted URI length in bytes.
pub const MAX_URI_BYTES: u32 = 512;

/// Default cache lifetime in ledgers.
pub const DEFAULT_URI_TTL: u32 = 8_640;

/// Largest configurable cache lifetime (the maximum entry TTL).
pub const MAX_URI_TTL: u32 = 3_115_200;

/// Why a URI is refused.
#[derive(Debug, Clone, Copy, PartialEq, Eq, Structural)]
pub enum UriError {
    /// "uri is empty"
    Empty,
    /// "uri exceeds MAX_URI_BYTES"
    TooLong,
    /// "uri must start with http://, https://, or ipfs://"
    BadScheme,
    /// "uri contains whitespace, non-printable, or non-ASCII bytes"
    BadByte,
}

/// The cache's storage entries.
pub struct UriCache {
    pub cache: Option<CachedUri>,
    pub ttl: Option<u32>,
}

pub open spec fn http_prefix() -> Seq<u8> {
    seq![0x68u8, 0x74u8, 0x74u8, 0x70u8, 0x3au8, 0x2fu8, 0x2fu8]
}

pub open spec fn https_prefix() -> Seq<u8> {
    seq![0x68u8, 0x74u8, 0x74u8, 0x70u8, 0x73u8, 0x3au8, 0x2fu8, 0x2fu8]
}

pub open spec fn ipfs_prefix() -> Seq<u8> {
    seq![0x69u8, 0x70u8, 0x66u8, 0x73u8, 0x3au8, 0x2fu8, 0x2fu8]
}

pub open spec fn starts_with(s: Seq<u8>, p: Seq<u8>) -> bool {
    p.len() <= s.len() && s.subrange(0, p.len() as int) == p
}

/// Whether the URI names a supported scheme.
pub open spec fn has_scheme(s: Seq<u8>) -> bool {
    starts_with(s, http_prefix()) || starts_with(s, https_prefix()) || starts_with(s, ipfs_prefix())
}

/// Whether every byte is printable, non-space ASCII (`0x21..=0x7e`).
pub open spec fn all_printable(s: Seq<u8>) -> bool {
    forall|i: int| 0 <= i < s.len() ==> 0x21 <= #[trigger] s[i] <= 0x7e
}

/// The outcome of validating `s`: the first failing check, in the order
/// emptiness, size, scheme, bytes.
pub open spec fn validate_spec(s: Seq<u8>) -> Result<(), UriError> {
    if s.len() == 0 {
        Err(UriError::Empty)
    } else if s.len() > MAX_URI_BYTES {
        Err(UriError::TooLong)
    } else if !has_scheme(s) {
        Err(UriError::BadScheme)
    } else if !all_printable(s) {
        Err(UriError::BadByte)
    } else {
        Ok(())
    }
}

/// Whether a cached entry written at `cached_ledger` is stale at `now`.
pub open spec fn expired_spec(cached_ledger: u32, ttl: u32, now: u32) -> bool {
    (if now >= cached_ledger {
        now - cached_ledger
    } else {
        0
    }) > ttl
}

fn prefix_matches(s: &Vec<u8>, p: &Vec<u8>) -> (r: bool)
    ensures
        r == starts_with(s@, p@),
{
    if p.len() > s.len() {
        return false;
    }
    let mut i: usize = 0;
    while i < p.len()
        invariant
            p@.len() <= s@.len(),
            i <= p@.len(),
            forall|j: int| 0 <= j < i ==> s@[j] == p@[j],
        decreases p@.len() - i,
    {
        if s[i] != p[i] {
            assert(s@.subrange(0, p@.len() as int)[i as int] != p@[i as int]);
            return false;
        }
        i = i + 1;
    }
    assert(s@.subrange(0, p@.len() as int) =~= p@);
    true
}

/// Checks a URI's structure before it enters the cache: non-empty, at most
/// `MAX_URI_BYTES`, a `http://`, `https://` or `ipfs://` scheme, and only
/// printable non-space ASCII.
pub fn validate_uri(uri: &Vec<u8>) -> (r: Result<(), UriError>)
    ensures
        r == validate_spec(uri@),
{
    if uri.len() == 0 {
        return Err(UriError::Empty);
    }
    if uri.len() > MAX_URI_BYTES as usize {
        return Err(UriError::TooLong);
    }
    let http: Vec<u8> = vec![0x68u8, 0x74u8, 0x74u8, 0x70u8, 0x3au8, 0x2fu8, 0x2fu8];
    let https: Vec<u8> = vec![0x68u8, 0x74u8, 0x74u8, 0x70u8, 0x73u8, 0x3au8, 0x2fu8, 0x2fu8];
    let ipfs: Vec<u8> = vec![0x69u8, 0x70u8, 0x66u8, 0x73u8, 0x3au8, 0x2fu8, 0x2fu8];
    assert(http@ =~= http_prefix());
    assert(https@ =~= https_prefix());
    assert(ipfs@ =~= ipfs_prefix());
    if !(prefix_matches(uri, &http) || prefix_matches(uri, &https) || prefix_matches(uri, &ipfs)) {
        return Err(UriError::BadScheme);
    }
    let mut i: usize = 0;
    while i < uri.len()
        invariant
            i <= uri@.len(),
            0 < uri@.len() <= MAX_URI_BYTES,
            has_scheme(uri@),
            forall|j: int| 0 <= j < i ==> 0x21 <= #[trigger] uri@[j] <= 0x7e,
        decreases uri@.len() - i,
    {
        let c = uri[i];
        if c < 0x21 || c > 0x7e {
            assert(!(0x21 <= uri@[i as int] <= 0x7e));
            return Err(UriError::BadByte);
        }
        i = i + 1;
    }
    Ok(())
}

impl UriCache {
    /// A cache with nothing stored.
    pub fn new() -> (r: Self)
        ensures
            r.cache is None,
            r.ttl is None,
    {
        UriCache { cache: None, ttl: None }
    }

    /// The lifetime in effect (`DEFAULT_URI_TTL` when none is stored).
    pub open spec fn ttl_of(&self) -> u32 {
        match self.ttl {
            Some(t) => t,
            None => DEFAULT_URI_TTL,
        }
    }

    /// The lifetime in effect.
    pub fn read_ttl(&self) -> (r: u32)
        ensures
            r == self.ttl_of(),
    {
        match self.ttl {
            Some(t) => t,
            None => DEFAULT_URI_TTL,
        }
    }

    /// Whether `cache` is stale at ledger `now` under the lifetime in effect.
    pub fn is_expired(&self, cache: &CachedUri, now: u32) -> (r: bool)
        ensures
            r == expired_spec(cache.cached_ledger, self.ttl_of(), now),
    {
        let ttl = self.read_ttl();
        now.saturating_sub(cache.cached_ledger) > ttl
    }

    /// Stores a valid URI anchored at ledger `now`. An invalid URI is
    /// refused by the caller with the message of its `UriError`.
    pub fn set_token_uri(&mut self, uri: &Vec<u8>, now: u32)
        requires
            validate_spec(uri@) is Ok,
        ensures
            final(self).cache matches Some(c) && c.uri@ == uri@ && c.cached_ledger == now,
            final(self).ttl == old(self).ttl,
    {
        self.cache = Some(CachedUri { uri: bytes_copy(uri), cached_ledger: now });
    }

    /// The cached URI (empty when none is cached). A stale entry is
    /// re-anchored at `now`, keeping its URI.
    pub fn token_uri(&mut self, now: u32) -> (r: Vec<u8>)
        ensures
            final(self).ttl == old(self).ttl,
            old(self).cache is None ==> r@.len() == 0 && final(self).cache is None,
            old(self).cache matches Some(c) ==> r@ == c.uri@ && (final(self).cache matches Some(
                n,
            ) && n.uri@ == c.uri@ && n.cached_ledger == (if expired_spec(
                c.cached_ledger,
                old(self).ttl_of(),
                now,
            ) {
                now
            } else {
                c.cached_ledger
            })),
    {
        let (uri, anchored) = match &self.cache {
            None => {
                return Vec::new();
            },
            Some(cache) => {
                let expired = self.is_expired(cache, now);
                let anchored = if expired {
                    now
                } else {
                    cache.cached_ledger
                };
                (bytes_copy(&cache.uri), anchored)
            },
        };
        self.cache = Some(CachedUri { uri: bytes_copy(&uri), cached_ledger: anchored });
        uri
    }

    /// The cache view at ledger `now`: with no entry, an empty URI anchored
    /// at `now` and reported stale.
    pub fn token_uri_info(&self, now: u32) -> (r: UriInfo)
        ensures
            r.ttl == self.ttl_of(),
            self.cache is None ==> r.uri@.len() == 0 && r.cached_ledger == now && r.expired,
            self.cache matches Some(c) ==> r.uri@ == c.uri@ && r.cached_ledger == c.cached_ledger
                && r.expired == expired_spec(c.cached_ledger, self.ttl_of(), now),
    {
        let ttl = self.read_ttl();
        match &self.cache {
            Some(cache) => UriInfo {
                expired: self.is_expired(cache, now),
                uri: bytes_copy(&cache.uri),
                cached_ledger: cache.cached_ledger,
                ttl,
            },
            None => UriInfo { uri: Vec::new(), cached_ledger: now, ttl, expired: true },
        }
    }

    /// Overrides the lifetime; values outside `1..=MAX_URI_TTL` are refused
    /// by the caller ("uri ttl must be between 1 and MAX_URI_TTL").
    pub fn set_token_uri_ttl(&mut self, ttl: u32)
        requires
            1 <= ttl <= MAX_URI_TTL,
        ensures
            final(self).ttl == Some(ttl),
            final(self).cache == old(self).cache,
    {
        self.ttl = Some(ttl);
    }

    /// Drops the cached URI.
    pub fn invalidate_token_uri(&mut self)
        ensures
            final(self).cache is None,
            final(self).ttl == old(self).ttl,
    {
        self.cache = None;
    }
}

/// An entry is fresh at the ledger it was anchored at, whatever the
/// lifetime; so a write, or a read of a stale entry, at ledger `now` leaves a
/// fresh entry at `now`.
pub proof fn law_fresh_at_anchor(ledger: u32, ttl: u32)
    ensures
        !expired_spec(ledger, ttl, ledger),
{
}

/// Staleness only grows with time: an entry stale at `now` is stale at every
/// later ledger.
pub proof fn law_staleness_monotone(cached: u32, ttl: u32, now: u32, later: u32)
    requires
        now <= later,
        expired_spec(cached, ttl, now),
    ensures
        expired_spec(cached, ttl, later),
{
}

} // verus!
