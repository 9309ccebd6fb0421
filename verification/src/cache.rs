//! Template cache model: cache keys, entry freshness, and the policy
//! for using, revalidating, or refetching a cached template.
//!
//! The cache stores fetched template bytes under a file name derived
//! from a digest of the template descriptor, together with the fetch
//! time and any HTTP validators the server returned. The file I/O
//! itself is the caller's concern; this module decides names and
//! policy.

use vstd::prelude::*;
use sha2::Digest;

verus! {

/// The SHA-256 digest of a byte sequence: a function of the bytes
/// alone.
pub uninterp spec fn sha256_of(data: Seq<u8>) -> Seq<u8>;

/// Computes the SHA-256 digest.
///
/// Relies on `sha2::Sha256`: a 32-byte digest that depends on the input
/// bytes alone.
#[verifier::external_body]
fn sha256(data: &[u8]) -> (r: Vec<u8>)
    ensures
        r@ == sha256_of(data@),
        r@.len() == 32,
{
    let mut hasher = sha2::Sha256::new();
    hasher.update(data);
    hasher.finalize().to_vec()
}

/// The lowercase hexadecimal digit for `d` (0 ≤ d ≤ 15).
pub open spec fn hex_digit(d: int) -> char {
    if d == 0 {
        '0'
    } else if d == 1 {
        '1'
    } else if d == 2 {
        '2'
    } else if d == 3 {
        '3'
    } else if d == 4 {
        '4'
    } else if d == 5 {
        '5'
    } else if d == 6 {
        '6'
    } else if d == 7 {
        '7'
    } else if d == 8 {
        '8'
    } else if d == 9 {
        '9'
    } else if d == 10 {
        'a'
    } else if d == 11 {
        'b'
    } else if d == 12 {
        'c'
    } else if d == 13 {
        'd'
    } else if d == 14 {
        'e'
    } else {
        'f'
    }
}

/// The lowercase hexadecimal rendering of the bytes from index `i` on.
pub open spec fn hex_chars(bytes: Seq<u8>, i: int) -> Seq<char>
    decreases bytes.len() - i,
{
    if i < 0 || i >= bytes.len() {
        Seq::empty()
    } else {
        seq![hex_digit(bytes[i] as int / 16), hex_digit(bytes[i] as int % 16)] + hex_chars(
            bytes,
            i + 1,
        )
    }
}

/// Appends the hexadecimal digit for `d` to `s`.
fn push_hex_digit(s: &mut String, d: u8)
    requires
        d < 16,
    ensures
        final(s)@ == old(s)@ + seq![hex_digit(d as int)],
{
    proof {
        reveal_strlit("0");
        reveal_strlit("1");
        reveal_strlit("2");
        reveal_strlit("3");
        reveal_strlit("4");
        reveal_strlit("5");
        reveal_strlit("6");
        reveal_strlit("7");
        reveal_strlit("8");
        reveal_strlit("9");
        reveal_strlit("a");
        reveal_strlit("b");
        reveal_strlit("c");
        reveal_strlit("d");
        reveal_strlit("e");
        reveal_strlit("f");
    }
    if d == 0 {
        s.append("0");
    } else if d == 1 {
        s.append("1");
    } else if d == 2 {
        s.append("2");
    } else if d == 3 {
        s.append("3");
    } else if d == 4 {
        s.append("4");
    } else if d == 5 {
        s.append("5");
    } else if d == 6 {
        s.append("6");
    } else if d == 7 {
        s.append("7");
    } else if d == 8 {
        s.append("8");
    } else if d == 9 {
        s.append("9");
    } else if d == 10 {
        s.append("a");
    } else if d == 11 {
        s.append("b");
    } else if d == 12 {
        s.append("c");
    } else if d == 13 {
        s.append("d");
    } else if d == 14 {
        s.append("e");
    } else {
        s.append("f");
    }
    proof {
        assert(final(s)@ =~= old(s)@ + seq![hex_digit(d as int)]);
    }
}

/// The lowercase hexadecimal rendering of `bytes`.
fn to_hex(bytes: &Vec<u8>) -> (r: String)
    ensures
        r@ == hex_chars(bytes@, 0),
{
    let mut r = String::new();
    let mut i: usize = 0;
    while i < bytes.len()
        invariant
            i <= bytes@.len(),
            r@ + hex_chars(bytes@, i as int) == hex_chars(bytes@, 0),
        decreases bytes@.len() - i,
    {
        let b = bytes[i];
        push_hex_digit(&mut r, b / 16);
        push_hex_digit(&mut r, b % 16);
        proof {
            assert(r@ + hex_chars(bytes@, i as int + 1) =~= hex_chars(bytes@, 0));
        }
        i = i + 1;
    }
    proof {
        assert(hex_chars(bytes@, bytes@.len() as int) =~= Seq::<char>::empty());
        assert(r@ =~= hex_chars(bytes@, 0));
    }
    r
}

/// One cached template: its bytes, the Unix time it was fetched, and
/// the HTTP validators the server returned, if any.
#[derive(Debug, Clone)]
pub struct CacheEntry {
    pub template_bytes: Vec<u8>,
    /// Unix timestamp, in seconds, of the fetch.
    pub cached_at: i64,
    pub etag: Option<String>,
    pub last_modified: Option<String>,
}

impl CacheEntry {
    /// Whether the entry still holds server validators usable for a
    /// conditional revalidation.
    pub fn has_validators(&self) -> (r: bool)
        ensures
            r == (self.etag is Some || self.last_modified is Some),
    {
        self.etag.is_some() || self.last_modified.is_some()
    }

    /// Whether the entry is within its time-to-live at time `now`.
    pub fn is_fresh(&self, now: i64, ttl_seconds: i64) -> (r: bool)
        ensures
            r == (now - self.cached_at <= ttl_seconds),
    {
        (now as i128) - (self.cached_at as i128) <= ttl_seconds as i128
    }
}

/// What to do about a cached template before rendering.
#[derive(Debug, Clone, Copy, PartialEq, Eq)]
pub enum CacheAction {
    /// Use the cached bytes as they are.
    UseCached,
    /// Ask the server whether the cached bytes are still current.
    Revalidate,
    /// Fetch the template anew.
    Refetch,
}

/// The outcome of a revalidation attempt.
#[derive(Debug, Clone, Copy, PartialEq, Eq)]
pub enum ValidationOutcome {
    /// The server confirmed the cached bytes: use them.
    UseCached,
    /// The template changed: fetch it anew.
    Refetch,
    /// Revalidation failed: fall back to the cached bytes with a
    /// warning.
    UseCachedStale,
}

/// The template cache: a directory and a time-to-live for its entries.
pub struct TemplateCache {
    pub cache_dir: String,
    pub ttl_seconds: i64,
}

impl TemplateCache {
    /// A cache over `cache_dir` whose entries expire after
    /// `ttl_seconds` (one hour when unset).
    pub fn new(cache_dir: String, ttl_seconds: Option<i64>) -> (r: Self)
        ensures
            r.cache_dir@ == cache_dir@,
            r.ttl_seconds == match ttl_seconds {
                Some(t) => t,
                None => 3600,
            },
    {
        TemplateCache {
            cache_dir,
            ttl_seconds: match ttl_seconds {
                Some(t) => t,
                None => 3600,
            },
        }
    }

    /// The file path of the entry stored under `key`.
    pub fn cache_path(&self, key: &str) -> (r: String)
        ensures
            r@ == self.cache_dir@ + "/"@ + key@ + ".cache"@,
    {
        let mut r = String::new();
        r.append(self.cache_dir.as_str());
        r.append("/");
        r.append(key);
        r.append(".cache");
        proof {
            assert(r@ =~= self.cache_dir@ + "/"@ + key@ + ".cache"@);
        }
        r
    }

    /// The cache key of a template descriptor: the lowercase
    /// hexadecimal SHA-256 digest of its text.
    pub fn generate_key(source: &str) -> (r: String)
        ensures
            r@ == hex_chars(sha256_of(vstd::utf8::encode_utf8(source@)), 0),
    {
        let digest = sha256(source.as_bytes());
        to_hex(&digest)
    }

    /// Decides what to do with the cache before rendering: a forced
    /// refresh or a missing or expired entry means a fresh fetch; a
    /// fresh entry with server validators is revalidated; a fresh entry
    /// without them is used as it is.
    pub fn plan_use(&self, entry: Option<&CacheEntry>, now: i64, refresh: bool) -> (r: CacheAction)
        ensures
            r == (if refresh {
                CacheAction::Refetch
            } else {
                match entry {
                    None => CacheAction::Refetch,
                    Some(e) => {
                        if now - e.cached_at <= self.ttl_seconds {
                            if e.etag is Some || e.last_modified is Some {
                                CacheAction::Revalidate
                            } else {
                                CacheAction::UseCached
                            }
                        } else {
                            CacheAction::Refetch
                        }
                    },
                }
            }),
    {
        if refresh {
            return CacheAction::Refetch;
        }
        match entry {
            None => CacheAction::Refetch,
            Some(e) => {
                if e.is_fresh(now, self.ttl_seconds) {
                    if e.has_validators() {
                        CacheAction::Revalidate
                    } else {
                        CacheAction::UseCached
                    }
                } else {
                    CacheAction::Refetch
                }
            },
        }
    }
}

/// Maps a revalidation result to what the job does next: a confirmed
/// entry is used, a changed template is refetched, and a failed
/// revalidation falls back to the cached bytes.
pub fn after_validation(server_says_valid: Option<bool>) -> (r: ValidationOutcome)
    ensures
        server_says_valid == Some(true) ==> r == ValidationOutcome::UseCached,
        server_says_valid == Some(false) ==> r == ValidationOutcome::Refetch,
        server_says_valid is None ==> r == ValidationOutcome::UseCachedStale,
{
    match server_says_valid {
        Some(true) => ValidationOutcome::UseCached,
        Some(false) => ValidationOutcome::Refetch,
        None => ValidationOutcome::UseCachedStale,
    }
}

} // verus!
