use crate::text::str_equal;
use vstd::prelude::*;

verus! {

/// Largest response body, in bytes, that the interceptor will record.
/// A successful response over this cap passes through uncached.
pub const BODY_CAP: usize = 33554432;

/// Interceptor configuration: how long a recorded entry lives, in the same
/// time unit the caller's clock counts (the service counts milliseconds).
pub struct CacheConfig {
    pub ttl: u64,
}

/// One stored response: its key, body bytes, response headers, and the
/// absolute instant at which it expires.
pub struct CacheEntry {
    pub key: String,
    pub data: Vec<u8>,
    pub headers: Vec<(String, String)>,
    pub expires_at: u64,
}

#[verifier::ext_equal]
pub struct EntryView {
    pub key: Seq<char>,
    pub data: Seq<u8>,
    pub headers: Seq<(Seq<char>, Seq<char>)>,
    pub expires_at: u64,
}

impl View for CacheEntry {
    type V = EntryView;

    open spec fn view(&self) -> EntryView {
        EntryView {
            key: self.key@,
            data: self.data@,
            headers: self.headers.deep_view(),
            expires_at: self.expires_at,
        }
    }
}

impl DeepView for CacheEntry {
    type V = EntryView;

    open spec fn deep_view(&self) -> EntryView {
        self@
    }
}

/// The first entry stored under `k`, if any. `set` replaces every earlier
/// entry for its key, so a store built from the operations here holds at
/// most one entry per key.
pub open spec fn spec_lookup(s: Seq<EntryView>, k: Seq<char>) -> Option<EntryView>
    decreases s.len(),
{
    if s.len() == 0 {
        None
    } else if s[0].key == k {
        Some(s[0])
    } else {
        spec_lookup(s.skip(1), k)
    }
}

/// A reader at instant `now` sees the entry for `k` only while `now` is
/// strictly before its expiry.
pub open spec fn valid_at(s: Seq<EntryView>, k: Seq<char>, now: u64) -> bool {
    match spec_lookup(s, k) {
        Some(e) => e.expires_at > now,
        None => false,
    }
}

/// The store without any entry for `k`.
pub open spec fn remove_key(s: Seq<EntryView>, k: Seq<char>) -> Seq<EntryView>
    decreases s.len(),
{
    if s.len() == 0 {
        Seq::<EntryView>::empty()
    } else if s[0].key == k {
        remove_key(s.skip(1), k)
    } else {
        seq![s[0]] + remove_key(s.skip(1), k)
    }
}

/// What `set` leaves behind: any entry for the key replaced by the new one.
pub open spec fn spec_set(s: Seq<EntryView>, e: EntryView) -> Seq<EntryView> {
    remove_key(s, e.key).push(e)
}

/// What a sweep at instant `now` leaves behind: exactly the entries whose
/// expiry is strictly after `now`, in their stored order.
pub open spec fn spec_sweep(s: Seq<EntryView>, now: u64) -> Seq<EntryView>
    decreases s.len(),
{
    if s.len() == 0 {
        Seq::<EntryView>::empty()
    } else if s[0].expires_at > now {
        seq![s[0]] + spec_sweep(s.skip(1), now)
    } else {
        spec_sweep(s.skip(1), now)
    }
}

pub proof fn lemma_lookup_push(s: Seq<EntryView>, e: EntryView, k: Seq<char>)
    ensures
        spec_lookup(s.push(e), k) == if spec_lookup(s, k) is Some {
            spec_lookup(s, k)
        } else if e.key == k {
            Some(e)
        } else {
            None::<EntryView>
        },
    decreases s.len(),
{
    if s.len() == 0 {
        assert(s.push(e)[0] == e);
        assert(s.push(e).skip(1) =~= Seq::<EntryView>::empty());
        assert(spec_lookup(s.push(e).skip(1), k) is None);
        assert(spec_lookup(s, k) is None);
    } else {
        assert(s.push(e)[0] == s[0]);
        assert(s.push(e).skip(1) =~= s.skip(1).push(e));
        lemma_lookup_push(s.skip(1), e, k);
        assert(spec_lookup(s.push(e), k) == if s[0].key == k {
            Some(s[0])
        } else {
            spec_lookup(s.push(e).skip(1), k)
        });
        assert(spec_lookup(s, k) == if s[0].key == k {
            Some(s[0])
        } else {
            spec_lookup(s.skip(1), k)
        });
    }
}

pub proof fn lemma_remove_key_push(s: Seq<EntryView>, e: EntryView, k: Seq<char>)
    ensures
        remove_key(s.push(e), k) == if e.key == k {
            remove_key(s, k)
        } else {
            remove_key(s, k).push(e)
        },
    decreases s.len(),
{
    if s.len() == 0 {
        assert(s.push(e)[0] == e);
        assert(s.push(e).skip(1) =~= Seq::<EntryView>::empty());
        assert(remove_key(s.push(e).skip(1), k) =~= Seq::<EntryView>::empty());
        assert(remove_key(s, k) =~= Seq::<EntryView>::empty());
        if e.key != k {
            assert(seq![e] + Seq::<EntryView>::empty() =~= Seq::<EntryView>::empty().push(e));
        }
    } else {
        assert(s.push(e)[0] == s[0]);
        assert(s.push(e).skip(1) =~= s.skip(1).push(e));
        lemma_remove_key_push(s.skip(1), e, k);
        assert(remove_key(s.push(e), k) == if s[0].key == k {
            remove_key(s.push(e).skip(1), k)
        } else {
            seq![s[0]] + remove_key(s.push(e).skip(1), k)
        });
        assert(remove_key(s, k) == if s[0].key == k {
            remove_key(s.skip(1), k)
        } else {
            seq![s[0]] + remove_key(s.skip(1), k)
        });
        if s[0].key != k && e.key != k {
            assert(seq![s[0]] + remove_key(s.skip(1), k).push(e) =~= (seq![s[0]] + remove_key(
                s.skip(1),
                k,
            )).push(e));
        }
    }
}

pub proof fn lemma_sweep_push(s: Seq<EntryView>, e: EntryView, now: u64)
    ensures
        spec_sweep(s.push(e), now) == if e.expires_at > now {
            spec_sweep(s, now).push(e)
        } else {
            spec_sweep(s, now)
        },
    decreases s.len(),
{
    if s.len() == 0 {
        assert(s.push(e)[0] == e);
        assert(s.push(e).skip(1) =~= Seq::<EntryView>::empty());
        assert(spec_sweep(s.push(e).skip(1), now) =~= Seq::<EntryView>::empty());
        assert(spec_sweep(s, now) =~= Seq::<EntryView>::empty());
        if e.expires_at > now {
            assert(seq![e] + Seq::<EntryView>::empty() =~= Seq::<EntryView>::empty().push(e));
        }
    } else {
        assert(s.push(e)[0] == s[0]);
        assert(s.push(e).skip(1) =~= s.skip(1).push(e));
        lemma_sweep_push(s.skip(1), e, now);
        assert(spec_sweep(s.push(e), now) == if s[0].expires_at > now {
            seq![s[0]] + spec_sweep(s.push(e).skip(1), now)
        } else {
            spec_sweep(s.push(e).skip(1), now)
        });
        assert(spec_sweep(s, now) == if s[0].expires_at > now {
            seq![s[0]] + spec_sweep(s.skip(1), now)
        } else {
            spec_sweep(s.skip(1), now)
        });
        if s[0].expires_at > now && e.expires_at > now {
            assert(seq![s[0]] + spec_sweep(s.skip(1), now).push(e) =~= (seq![s[0]] + spec_sweep(
                s.skip(1),
                now,
            )).push(e));
        }
    }
}

/// Removing a key hides exactly that key and no other.
pub proof fn lemma_lookup_remove_key(s: Seq<EntryView>, k: Seq<char>, k2: Seq<char>)
    ensures
        spec_lookup(remove_key(s, k), k2) == if k2 == k {
            None::<EntryView>
        } else {
            spec_lookup(s, k2)
        },
    decreases s.len(),
{
    if s.len() == 0 {
    } else {
        lemma_lookup_remove_key(s.skip(1), k, k2);
        if s[0].key != k {
            let rest = remove_key(s.skip(1), k);
            assert((seq![s[0]] + rest)[0] == s[0]);
            assert((seq![s[0]] + rest).skip(1) =~= rest);
        }
    }
}

/// The in-memory TTL store: response bodies and headers under string keys,
/// each visible only until its expiry. The store is unbounded in entry count
/// and byte size; only the sweep and overwrites ever shrink it.
pub struct MemoryCache {
    pub entries: Vec<CacheEntry>,
}

impl View for MemoryCache {
    type V = Seq<EntryView>;

    open spec fn view(&self) -> Seq<EntryView> {
        self.entries.deep_view()
    }
}

fn clone_headers(h: &Vec<(String, String)>) -> (r: Vec<(String, String)>)
    ensures
        r.deep_view() == h.deep_view(),
{
    let mut r: Vec<(String, String)> = Vec::new();
    let mut i: usize = 0;
    while i < h.len()
        invariant
            0 <= i <= h@.len(),
            r@.len() == i,
            r.deep_view() =~= h.deep_view().take(i as int),
        decreases h@.len() - i,
    {
        let name = h[i].0.clone();
        let value = h[i].1.clone();
        proof {
            assert(name@ == h@[i as int].0@);
            assert(value@ == h@[i as int].1@);
        }
        r.push((name, value));
        proof {
            assert(r@[i as int].deep_view() == h.deep_view()[i as int]);
            assert(r.deep_view() =~= h.deep_view().take(i + 1));
        }
        i += 1;
    }
    assert(h.deep_view().take(h@.len() as int) =~= h.deep_view());
    r
}

fn clone_bytes(b: &Vec<u8>) -> (r: Vec<u8>)
    ensures
        r@ == b@,
{
    let mut r: Vec<u8> = Vec::new();
    let mut i: usize = 0;
    while i < b.len()
        invariant
            0 <= i <= b@.len(),
            r@ =~= b@.take(i as int),
        decreases b@.len() - i,
    {
        r.push(b[i]);
        assert(r@ =~= b@.take(i + 1));
        i += 1;
    }
    assert(b@.take(b@.len() as int) =~= b@);
    r
}

impl MemoryCache {
    /// A fresh, empty store. The caller runs the periodic sweep.
    pub fn new() -> (r: Self)
        ensures
            r@ == Seq::<EntryView>::empty(),
    {
        let r = MemoryCache { entries: Vec::new() };
        proof {
            assert(r@ =~= Seq::<EntryView>::empty());
        }
        r
    }

    /// Reads the entry under `key`: its headers and bytes, only while `now`
    /// is strictly before its expiry. An expired entry reads as absent but
    /// is not removed here.
    pub fn get(&self, key: &str, now: u64) -> (r: Option<(Vec<(String, String)>, Vec<u8>)>)
        ensures
            r is Some <==> valid_at(self@, key@, now),
            r matches Some(p) ==> spec_lookup(self@, key@) matches Some(e) && p.0.deep_view()
                == e.headers && p.1@ == e.data,
    {
        let n = self.entries.len();
        let mut i: usize = 0;
        while i < n
            invariant
                0 <= i <= n,
                n == self@.len(),
                self@ == self.entries.deep_view(),
                spec_lookup(self@.take(i as int), key@) is None,
            decreases n - i,
        {
            proof {
                lemma_lookup_push(self@.take(i as int), self@[i as int], key@);
                assert(self@.take(i + 1) =~= self@.take(i as int).push(self@[i as int]));
            }
            let e = &self.entries[i];
            if str_equal(e.key.as_str(), key) {
                proof {
                    assert(self@.take(self@.len() as int) =~= self@);
                    lemma_lookup_prefix(self@, key@, i + 1);
                }
                if e.expires_at > now {
                    return Some((clone_headers(&e.headers), clone_bytes(&e.data)));
                } else {
                    return None;
                }
            }
            i += 1;
        }
        proof {
            assert(self@.take(n as int) =~= self@);
        }
        None
    }

    /// Stores `value` and `headers` under `key` with expiry `now + ttl`,
    /// replacing any earlier entry for that key.
    pub fn set(&mut self, key: String, value: Vec<u8>, headers: Vec<(String, String)>, ttl: u64, now: u64)
        requires
            now + ttl <= u64::MAX,
        ensures
            final(self)@ == spec_set(
                old(self)@,
                EntryView {
                    key: key@,
                    data: value@,
                    headers: headers.deep_view(),
                    expires_at: (now + ttl) as u64,
                },
            ),
    {
        let n = self.entries.len();
        let mut kept: Vec<CacheEntry> = Vec::new();
        let mut i: usize = 0;
        while i < n
            invariant
                0 <= i <= n,
                n == old(self)@.len(),
                self@ == old(self)@,
                self@ == self.entries.deep_view(),
                kept.deep_view() =~= remove_key(old(self)@.take(i as int), key@),
            decreases n - i,
        {
            proof {
                lemma_remove_key_push(self@.take(i as int), self@[i as int], key@);
                assert(self@.take(i + 1) =~= self@.take(i as int).push(self@[i as int]));
            }
            let e = &self.entries[i];
            if !str_equal(e.key.as_str(), key.as_str()) {
                let kept_entry = CacheEntry {
                    key: e.key.clone(),
                    data: clone_bytes(&e.data),
                    headers: clone_headers(&e.headers),
                    expires_at: e.expires_at,
                };
                proof {
                    assert(kept_entry@ =~= self@[i as int]);
                }
                kept.push(kept_entry);
            }
            i += 1;
        }
        proof {
            assert(old(self)@.take(n as int) =~= old(self)@);
        }
        let entry = CacheEntry { key, data: value, headers, expires_at: now + ttl };
        kept.push(entry);
        self.entries = kept;
        proof {
            assert(final(self)@ =~= spec_set(
                old(self)@,
                EntryView {
                    key: key@,
                    data: value@,
                    headers: headers.deep_view(),
                    expires_at: (now + ttl) as u64,
                },
            ));
        }
    }

    /// Removes every entry whose expiry is at or before `now`; the only path
    /// that shrinks the store besides an overwrite.
    pub fn sweep(&mut self, now: u64)
        ensures
            final(self)@ == spec_sweep(old(self)@, now),
    {
        let n = self.entries.len();
        let mut kept: Vec<CacheEntry> = Vec::new();
        let mut i: usize = 0;
        while i < n
            invariant
                0 <= i <= n,
                n == old(self)@.len(),
                self@ == old(self)@,
                self@ == self.entries.deep_view(),
                kept.deep_view() =~= spec_sweep(old(self)@.take(i as int), now),
            decreases n - i,
        {
            proof {
                lemma_sweep_push(self@.take(i as int), self@[i as int], now);
                assert(self@.take(i + 1) =~= self@.take(i as int).push(self@[i as int]));
            }
            let e = &self.entries[i];
            if e.expires_at > now {
                let kept_entry = CacheEntry {
                    key: e.key.clone(),
                    data: clone_bytes(&e.data),
                    headers: clone_headers(&e.headers),
                    expires_at: e.expires_at,
                };
                proof {
                    assert(kept_entry@ =~= self@[i as int]);
                }
                kept.push(kept_entry);
            }
            i += 1;
        }
        proof {
            assert(old(self)@.take(n as int) =~= old(self)@);
        }
        self.entries = kept;
    }
}

/// When a prefix of the store already holds the key, the whole store's
/// lookup is the prefix's.
pub proof fn lemma_lookup_prefix(s: Seq<EntryView>, k: Seq<char>, n: int)
    requires
        0 <= n <= s.len(),
        spec_lookup(s.take(n), k) is Some,
    ensures
        spec_lookup(s, k) == spec_lookup(s.take(n), k),
    decreases s.len(),
{
    if s.len() == 0 {
    } else if n == 0 {
    } else {
        assert(s.take(n)[0] == s[0]);
        if s[0].key == k {
        } else {
            assert(s.take(n).skip(1) =~= s.skip(1).take(n - 1));
            lemma_lookup_prefix(s.skip(1), k, n - 1);
        }
    }
}

/// After `set(key, v, ttl)` the entry is there, and a `get` at any instant
/// strictly before its expiry sees exactly the stored headers and bytes:
/// the lookup is pinned to the stored entry, so `get`'s own contract forces
/// its result to be that entry's headers and data.
pub proof fn lemma_set_then_get(s: Seq<EntryView>, e: EntryView, t: u64)
    requires
        t < e.expires_at,
    ensures
        spec_lookup(spec_set(s, e), e.key) == Some(e),
        valid_at(spec_set(s, e), e.key, t),
{
    lemma_lookup_remove_key(s, e.key, e.key);
    lemma_lookup_push(remove_key(s, e.key), e, e.key);
}

/// A sweep never hides a still-unexpired entry: whatever it removes, the
/// entry a reader could see for a key is still the one it sees after, so
/// later sweeps cannot disturb what `lemma_set_then_get` promises.
pub proof fn lemma_sweep_preserves_entry(s: Seq<EntryView>, k: Seq<char>, now: u64)
    requires
        spec_lookup(s, k) matches Some(e) && e.expires_at > now,
    ensures
        spec_lookup(spec_sweep(s, now), k) == spec_lookup(s, k),
    decreases s.len(),
{
    if s.len() == 0 {
    } else if s[0].key == k {
        let rest = spec_sweep(s.skip(1), now);
        assert((seq![s[0]] + rest)[0] == s[0]);
    } else {
        lemma_sweep_preserves_entry(s.skip(1), k, now);
        if s[0].expires_at > now {
            let rest = spec_sweep(s.skip(1), now);
            assert((seq![s[0]] + rest)[0] == s[0]);
            assert((seq![s[0]] + rest).skip(1) =~= rest);
        }
    }
}

/// A `set` leaves every other key's entry exactly as it was.
pub proof fn lemma_set_other_keys(s: Seq<EntryView>, e: EntryView, k: Seq<char>)
    requires
        k != e.key,
    ensures
        spec_lookup(spec_set(s, e), k) == spec_lookup(s, k),
{
    lemma_lookup_remove_key(s, e.key, k);
    lemma_lookup_push(remove_key(s, e.key), e, k);
}

/// The exact, order-sensitive cache key: method, a colon, then the path and
/// query string, with no normalization.
pub open spec fn cache_key_of(method: Seq<char>, paq: Seq<char>) -> Seq<char> {
    method + ":"@ + paq
}

/// Derives the cache key for a request.
pub fn generate_cache_key(method: &str, path_and_query: &str) -> (r: String)
    ensures
        r@ == cache_key_of(method@, path_and_query@),
{
    let mut k = method.to_owned();
    k.append(":");
    k.append(path_and_query);
    k
}

/// The marker header that signals whether a response was served from the
/// store.
pub fn cache_marker(hit: bool) -> (r: (String, String))
    ensures
        r.0@ == "x-gizo-cache"@,
        hit ==> r.1@ == "HIT"@,
        !hit ==> r.1@ == "MISS"@,
{
    if hit {
        ("x-gizo-cache".to_owned(), "HIT".to_owned())
    } else {
        ("x-gizo-cache".to_owned(), "MISS".to_owned())
    }
}

/// What the interceptor decides before the handler runs: pass a non-GET
/// request through untouched, serve a hit from the store, or run the
/// handler on a miss.
pub enum CachePlan {
    Bypass,
    Hit(Vec<(String, String)>, Vec<u8>),
    Miss,
}

pub enum CachePlanView {
    Bypass,
    Hit(Seq<(Seq<char>, Seq<char>)>, Seq<u8>),
    Miss,
}

impl View for CachePlan {
    type V = CachePlanView;

    open spec fn view(&self) -> CachePlanView {
        match self {
            CachePlan::Bypass => CachePlanView::Bypass,
            CachePlan::Hit(h, d) => CachePlanView::Hit(h.deep_view(), d@),
            CachePlan::Miss => CachePlanView::Miss,
        }
    }
}

/// The plan for a request: non-GET requests bypass the store entirely; a
/// GET is a hit only while the stored entry is unexpired, and the hit
/// carries the stored headers plus the HIT marker.
pub open spec fn spec_plan(
    s: Seq<EntryView>,
    method: Seq<char>,
    paq: Seq<char>,
    now: u64,
) -> CachePlanView {
    if method != "GET"@ {
        CachePlanView::Bypass
    } else {
        match spec_lookup(s, cache_key_of(method, paq)) {
            Some(e) => if e.expires_at > now {
                CachePlanView::Hit(e.headers.push(("x-gizo-cache"@, "HIT"@)), e.data)
            } else {
                CachePlanView::Miss
            },
            None => CachePlanView::Miss,
        }
    }
}

/// Decides how the interceptor treats an incoming request against the
/// current store.
pub fn plan_request(cache: &MemoryCache, method: &str, path_and_query: &str, now: u64) -> (r:
    CachePlan)
    ensures
        r@ == spec_plan(cache@, method@, path_and_query@, now),
{
    if !str_equal(method, "GET") {
        return CachePlan::Bypass;
    }
    let key = generate_cache_key(method, path_and_query);
    match cache.get(key.as_str(), now) {
        Some((h, d)) => {
            let mut h2 = h;
            let ghost stored = h2.deep_view();
            h2.push(("x-gizo-cache".to_owned(), "HIT".to_owned()));
            proof {
                assert(h2.deep_view() =~= stored.push(("x-gizo-cache"@, "HIT"@)));
            }
            CachePlan::Hit(h2, d)
        },
        None => CachePlan::Miss,
    }
}

/// Whether a handler response is recorded: only a success status, and only
/// a body within the cap. A successful body over the cap passes through
/// uncached; that is this interceptor's explicit policy for the cap.
pub open spec fn spec_should_store(status: u16, body_len: nat) -> bool {
    200 <= status < 300 && body_len <= BODY_CAP
}

/// Records a handler response after a miss: stores it under `key` with
/// expiry `now + ttl` exactly when the status is a success and the body is
/// within the cap, and reports whether it did.
pub fn record_response(
    cache: &mut MemoryCache,
    key: String,
    status: u16,
    headers: Vec<(String, String)>,
    body: Vec<u8>,
    ttl: u64,
    now: u64,
) -> (stored: bool)
    requires
        now + ttl <= u64::MAX,
    ensures
        stored == spec_should_store(status, body@.len()),
        stored ==> final(cache)@ == spec_set(
            old(cache)@,
            EntryView {
                key: key@,
                data: body@,
                headers: headers.deep_view(),
                expires_at: (now + ttl) as u64,
            },
        ),
        !stored ==> final(cache)@ == old(cache)@,
{
    if 200 <= status && status < 300 && body.len() <= BODY_CAP {
        cache.set(key, body, headers, ttl, now);
        true
    } else {
        false
    }
}

/// Two successive GETs of one path and query: against a store where the key
/// is absent or expired, the interceptor plans a miss; the handler's fixed
/// response has a success status and a body within the cap, so recording it
/// stores it, and a second GET strictly before the entry's expiry plans a
/// hit that serves exactly the recorded payload with the HIT marker. The
/// two bounds are the cap's own condition and the machine limit on the
/// expiry instant.
pub proof fn lemma_miss_then_hit(
    s: Seq<EntryView>,
    paq: Seq<char>,
    status: u16,
    headers: Seq<(Seq<char>, Seq<char>)>,
    body: Seq<u8>,
    ttl: u64,
    now1: u64,
    now2: u64,
)
    requires
        !valid_at(s, cache_key_of("GET"@, paq), now1),
        200 <= status < 300,
        body.len() <= BODY_CAP,
        now1 + ttl <= u64::MAX,
        now2 < now1 + ttl,
    ensures
        spec_plan(s, "GET"@, paq, now1) == CachePlanView::Miss,
        spec_should_store(status, body.len()),
        spec_plan(
            spec_set(
                s,
                EntryView {
                    key: cache_key_of("GET"@, paq),
                    data: body,
                    headers,
                    expires_at: (now1 + ttl) as u64,
                },
            ),
            "GET"@,
            paq,
            now2,
        ) == CachePlanView::Hit(headers.push(("x-gizo-cache"@, "HIT"@)), body),
{
    let e = EntryView {
        key: cache_key_of("GET"@, paq),
        data: body,
        headers,
        expires_at: (now1 + ttl) as u64,
    };
    lemma_set_then_get(s, e, now2);
}

/// A non-GET request bypasses the store whatever the store holds: the plan
/// is the same against any two stores, so such a request neither reads nor
/// writes an entry.
pub proof fn lemma_non_get_bypasses(
    s1: Seq<EntryView>,
    s2: Seq<EntryView>,
    method: Seq<char>,
    paq: Seq<char>,
    now: u64,
)
    requires
        method != "GET"@,
    ensures
        spec_plan(s1, method, paq, now) == CachePlanView::Bypass,
        spec_plan(s1, method, paq, now) == spec_plan(s2, method, paq, now),
{
}

/// After a sweep at instant `now`, the store holds exactly the entries whose
/// expiry was strictly after `now`, and none whose expiry was at or before.
pub proof fn lemma_sweep_exact(s: Seq<EntryView>, now: u64, e: EntryView)
    ensures
        spec_sweep(s, now).contains(e) <==> s.contains(e) && e.expires_at > now,
    decreases s.len(),
{
    if s.len() == 0 {
    } else {
        lemma_sweep_exact(s.skip(1), now, e);
        assert(s.contains(e) <==> (s[0] == e || s.skip(1).contains(e))) by {
            if s.contains(e) {
                let i = choose|i: int| 0 <= i < s.len() && s[i] == e;
                if i > 0 {
                    assert(s.skip(1)[i - 1] == e);
                }
            }
            if s.skip(1).contains(e) {
                let i = choose|i: int| 0 <= i < s.skip(1).len() && s.skip(1)[i] == e;
                assert(s[i + 1] == e);
            }
        }
        if s[0].expires_at > now {
            let rest = spec_sweep(s.skip(1), now);
            assert((seq![s[0]] + rest)[0] == s[0]);
            assert(spec_sweep(s, now).contains(e) <==> (s[0] == e || rest.contains(e))) by {
                if spec_sweep(s, now).contains(e) {
                    let i = choose|i: int|
                        0 <= i < spec_sweep(s, now).len() && spec_sweep(s, now)[i] == e;
                    if i > 0 {
                        assert(rest[i - 1] == e);
                    }
                }
                if rest.contains(e) {
                    let i = choose|i: int| 0 <= i < rest.len() && rest[i] == e;
                    assert((seq![s[0]] + rest)[i + 1] == e);
                }
            }
        }
    }
}

} // verus!
