//! Keys of the context cache. Tenant ids enter a key only as SHA-256 hex, so
//! a key never carries them in clear.

use vstd::prelude::*;
use crate::hashing::{sha256_hex, sha256_hex_text};
use crate::text::{trim, trim_str};

verus! {

/// What identifies one cached context: the tenant and the hashes of the
/// query and of the assembly options.
#[derive(Debug)]
pub struct ContextCacheKey {
    pub org_id: String,
    pub user_id: String,
    pub query_hash: String,
    pub options_hash: String,
}

/// The prefix a key starts with: the trimmed prefix, or `memcore` when
/// nothing but whitespace is given.
pub open spec fn key_prefix_text(prefix: Seq<char>) -> Seq<char> {
    if trim(prefix).len() == 0 {
        "memcore"@
    } else {
        trim(prefix)
    }
}

pub fn sanitize_key_prefix(prefix: &str) -> (r: String)
    ensures
        r@ == key_prefix_text(prefix@),
{
    let trimmed = trim_str(prefix);
    if trimmed.as_str().unicode_len() == 0 {
        String::from_str("memcore")
    } else {
        trimmed
    }
}

/// `{prefix}:context:{org hash}:{user hash}:{query hash}:{options hash}`.
pub open spec fn context_cache_key_text(prefix: Seq<char>, org_id: Seq<char>, user_id: Seq<char>, query_hash: Seq<char>, options_hash: Seq<char>) -> Seq<char> {
    key_prefix_text(prefix) + ":context:"@ + sha256_hex_text(org_id) + ":"@ + sha256_hex_text(user_id) + ":"@ + query_hash
        + ":"@ + options_hash
}

/// `{prefix}:context:index:{org hash}:{user hash}`.
pub open spec fn context_index_key_text(prefix: Seq<char>, org_id: Seq<char>, user_id: Seq<char>) -> Seq<char> {
    key_prefix_text(prefix) + ":context:index:"@ + sha256_hex_text(org_id) + ":"@ + sha256_hex_text(user_id)
}

/// The key a tenant's cached context is stored under.
pub fn redis_context_cache_key(prefix: &str, key: &ContextCacheKey) -> (r: String)
    ensures
        r@ == context_cache_key_text(prefix@, key.org_id@, key.user_id@, key.query_hash@, key.options_hash@),
{
    let mut r = sanitize_key_prefix(prefix);
    r.append(":context:");
    r.append(sha256_hex(key.org_id.as_str()).as_str());
    r.append(":");
    r.append(sha256_hex(key.user_id.as_str()).as_str());
    r.append(":");
    r.append(key.query_hash.as_str());
    r.append(":");
    r.append(key.options_hash.as_str());
    r
}

/// The key of the set that indexes a tenant's cached contexts.
pub fn redis_context_index_key(prefix: &str, org_id: &str, user_id: &str) -> (r: String)
    ensures
        r@ == context_index_key_text(prefix@, org_id@, user_id@),
{
    let mut r = sanitize_key_prefix(prefix);
    r.append(":context:index:");
    r.append(sha256_hex(org_id).as_str());
    r.append(":");
    r.append(sha256_hex(user_id).as_str());
    r
}

pub open spec fn max1(v: u64) -> u64 {
    if v < 1 {
        1
    } else {
        v
    }
}

/// Seconds an entry stays in the cache: whole seconds until it stops being
/// servable (at least one, at most `u64::MAX`), or the default (at least
/// one) when that moment has passed. Times are nanoseconds.
pub open spec fn entry_ttl(stale_until: i128, now: i128, default_ttl_seconds: u64) -> u64 {
    if stale_until > now {
        let secs = (stale_until - now) / 1_000_000_000;
        if secs > u64::MAX {
            u64::MAX
        } else {
            max1(secs as u64)
        }
    } else {
        max1(default_ttl_seconds)
    }
}

pub fn redis_entry_ttl_seconds(stale_until: i128, now: i128, default_ttl_seconds: u64) -> (r: u64)
    ensures
        r == entry_ttl(stale_until, now, default_ttl_seconds),
{
    if stale_until > now {
        let diff: u128 = if now >= 0 || stale_until < 0 {
            (stale_until - now) as u128
        } else {
            (stale_until as u128) + ((-(now + 1)) as u128) + 1
        };
        let secs: u128 = diff / 1_000_000_000;
        if secs > u64::MAX as u128 {
            u64::MAX
        } else {
            let s = secs as u64;
            if s < 1 {
                1
            } else {
                s
            }
        }
    } else {
        if default_ttl_seconds < 1 {
            1
        } else {
            default_ttl_seconds
        }
    }
}

/// Settings of the Redis-backed context cache: the key prefix and the
/// default lifetime of an entry.
#[derive(Debug)]
pub struct RedisContextCache {
    pub key_prefix: String,
    pub ttl_seconds: u64,
}

impl RedisContextCache {
    pub fn new(key_prefix: &str, ttl_seconds: u64) -> (c: RedisContextCache)
        ensures
            c.key_prefix@ == key_prefix@,
            c.ttl_seconds == ttl_seconds,
    {
        RedisContextCache { key_prefix: String::from_str(key_prefix), ttl_seconds }
    }

    pub fn entry_key(&self, key: &ContextCacheKey) -> (r: String)
        ensures
            r@ == context_cache_key_text(self.key_prefix@, key.org_id@, key.user_id@, key.query_hash@, key.options_hash@),
    {
        redis_context_cache_key(self.key_prefix.as_str(), key)
    }

    pub fn index_key(&self, org_id: &str, user_id: &str) -> (r: String)
        ensures
            r@ == context_index_key_text(self.key_prefix@, org_id@, user_id@),
    {
        redis_context_index_key(self.key_prefix.as_str(), org_id, user_id)
    }

    /// Lifetime in seconds of an entry servable until `stale_until`.
    pub fn entry_ttl_seconds(&self, stale_until: i128, now: i128) -> (r: u64)
        ensures
            r == entry_ttl(stale_until, now, self.ttl_seconds),
    {
        redis_entry_ttl_seconds(stale_until, now, self.ttl_seconds)
    }
}

/// What a read does with an entry it found and decoded.
#[derive(Clone, Copy, Debug, PartialEq, Eq, Structural)]
pub enum CacheRead {
    /// The entry is past any use: it is deleted and the read misses.
    Evict,
    /// The entry is kept but not served.
    Miss,
    /// The entry is served.
    Hit,
}

/// A fully expired entry is evicted. Otherwise a read that accepts stale
/// entries serves it, and one that does not serves it only while fresh.
pub open spec fn cache_read_of(fully_expired: bool, fresh: bool, accept_stale: bool) -> CacheRead {
    if fully_expired {
        CacheRead::Evict
    } else if accept_stale || fresh {
        CacheRead::Hit
    } else {
        CacheRead::Miss
    }
}

/// Decides a read of an entry from its own judgments at the time of the
/// read: whether it is fully expired and whether it is fresh.
pub fn cache_read(fully_expired: bool, fresh: bool, accept_stale: bool) -> (r: CacheRead)
    ensures
        r == cache_read_of(fully_expired, fresh, accept_stale),
{
    if fully_expired {
        CacheRead::Evict
    } else if accept_stale || fresh {
        CacheRead::Hit
    } else {
        CacheRead::Miss
    }
}

/// A read that refuses stale entries serves only fresh ones; no read serves
/// a fully expired entry; and a read that accepts stale entries serves
/// whatever a strict read serves.
pub proof fn law_cache_read_serves_only_live(fully_expired: bool, fresh: bool)
    ensures
        cache_read_of(fully_expired, fresh, false) == CacheRead::Hit ==> fresh && !fully_expired,
        cache_read_of(fully_expired, fresh, true) != CacheRead::Hit <==> fully_expired,
        cache_read_of(fully_expired, fresh, false) == CacheRead::Hit ==> cache_read_of(fully_expired, fresh, true) == CacheRead::Hit,
{
}

/// The keys an invalidation deletes: each indexed entry, then the index.
pub fn invalidation_keys(members: &Vec<String>, index_key: &str) -> (r: Vec<String>)
    ensures
        r@.len() == members@.len() + 1,
        forall|i: int| 0 <= i < members@.len() ==> (#[trigger] r@[i])@ == members@[i]@,
        r@[members@.len() as int]@ == index_key@,
{
    let mut r: Vec<String> = Vec::new();
    for i in 0..members.len()
        invariant
            r@.len() == i,
            forall|j: int| 0 <= j < i ==> (#[trigger] r@[j])@ == members@[j]@,
    {
        r.push(members[i].clone());
    }
    r.push(String::from_str(index_key));
    r
}

/// The tenant part of an entry key: the org hash and the user hash.
pub open spec fn tenant_key_part(org_id: Seq<char>, user_id: Seq<char>) -> Seq<char> {
    sha256_hex_text(org_id) + ":"@ + sha256_hex_text(user_id)
}

/// Entry keys built with one prefix are equal exactly when their tenant
/// parts, query hashes and options hashes are (hashes of one length, as hex
/// digests are): so a key is a function of its inputs, and keys of two
/// queries or two option sets differ. Whether two tenants' hashes differ is
/// the digest's matter.
pub proof fn law_cache_keys_separate(
    prefix: Seq<char>,
    o1: Seq<char>,
    u1: Seq<char>,
    q1: Seq<char>,
    x1: Seq<char>,
    o2: Seq<char>,
    u2: Seq<char>,
    q2: Seq<char>,
    x2: Seq<char>,
)
    requires
        q1.len() == q2.len(),
        x1.len() == x2.len(),
    ensures
        (context_cache_key_text(prefix, o1, u1, q1, x1) == context_cache_key_text(prefix, o2, u2, q2, x2)) <==> (
        tenant_key_part(o1, u1) == tenant_key_part(o2, u2) && q1 == q2 && x1 == x2),
{
    let head = key_prefix_text(prefix) + ":context:"@;
    let t1 = tenant_key_part(o1, u1);
    let t2 = tenant_key_part(o2, u2);
    let k1 = context_cache_key_text(prefix, o1, u1, q1, x1);
    let k2 = context_cache_key_text(prefix, o2, u2, q2, x2);
    assert(k1 =~= head + t1 + ":"@ + q1 + ":"@ + x1);
    assert(k2 =~= head + t2 + ":"@ + q2 + ":"@ + x2);
    if k1 == k2 {
        reveal_strlit(":");
        let n = k1.len();
        assert(t1.len() == t2.len());
        let a = head.len() as int;
        let b = a + t1.len();
        let c = b + 1 + q1.len();
        assert(t1 =~= k1.subrange(a, b));
        assert(t2 =~= k2.subrange(a, b));
        assert(q1 =~= k1.subrange(b + 1, c));
        assert(q2 =~= k2.subrange(b + 1, c));
        assert(x1 =~= k1.subrange(c + 1, n as int));
        assert(x2 =~= k2.subrange(c + 1, n as int));
    }
}

/// Every entry key of a tenant begins with the prefix its index key is
/// built from: both start with the sanitized prefix and `:context:`.
pub proof fn law_cache_keys_share_prefix(prefix: Seq<char>, org_id: Seq<char>, user_id: Seq<char>, q: Seq<char>, o: Seq<char>)
    ensures
        context_cache_key_text(prefix, org_id, user_id, q, o).take((key_prefix_text(prefix) + ":context:"@).len() as int)
            == key_prefix_text(prefix) + ":context:"@,
        context_index_key_text(prefix, org_id, user_id).take((key_prefix_text(prefix) + ":context:"@).len() as int)
            == key_prefix_text(prefix) + ":context:"@,
{
    let head = key_prefix_text(prefix) + ":context:"@;
    reveal_strlit(":context:");
    reveal_strlit(":context:index:");
    assert(context_cache_key_text(prefix, org_id, user_id, q, o).take(head.len() as int) =~= head);
    assert(context_index_key_text(prefix, org_id, user_id).take(head.len() as int) =~= head);
}

} // verus!
