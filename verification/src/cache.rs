//! The response cache: a keyed store of upstream responses with
//! artifact-class lifetimes.  An entry is valid while `now − created_at`
//! stays under its time-to-live; expired entries are never observable.

use vstd::prelude::*;
use vstd::string::*;
use crate::strutil::{contains_str, ends_with, spec_contains, spec_ends_with, str_eq};

verus! {

/// Lifetimes by artifact class, in seconds.
#[derive(Debug, Clone)]
pub struct TtlConfig {
    pub release_ttl: u64,
    pub packages_ttl: u64,
    pub deb_ttl: u64,
}

/// The mathematical image of a `TtlConfig`.
pub ghost struct SpecTtlConfig {
    pub release_ttl: u64,
    pub packages_ttl: u64,
    pub deb_ttl: u64,
}

impl View for TtlConfig {
    type V = SpecTtlConfig;

    open spec fn view(&self) -> SpecTtlConfig {
        SpecTtlConfig {
            release_ttl: self.release_ttl,
            packages_ttl: self.packages_ttl,
            deb_ttl: self.deb_ttl,
        }
    }
}

impl Default for TtlConfig {
    /// The stock lifetimes: release indices six hours, package indices
    /// twelve hours, package payloads one year.
    fn default() -> (c: TtlConfig)
        ensures
            c@ == spec_default_ttl_config(),
    {
        TtlConfig {
            release_ttl: 6 * 3600,
            packages_ttl: 12 * 3600,
            deb_ttl: 365 * 24 * 3600,
        }
    }
}

pub open spec fn spec_default_ttl_config() -> SpecTtlConfig {
    SpecTtlConfig { release_ttl: 21600, packages_ttl: 43200, deb_ttl: 31536000 }
}

/// A cached upstream response: status, headers and body, kept verbatim.
#[derive(Debug, Clone)]
pub struct CachedResponse {
    pub status: u16,
    pub headers: Vec<(String, String)>,
    pub body: Vec<u8>,
}

/// The mathematical image of a cached response.
pub ghost struct SpecCachedResponse {
    pub status: u16,
    pub headers: Seq<(Seq<char>, Seq<char>)>,
    pub body: Seq<u8>,
}

pub open spec fn spec_headers(h: Seq<(String, String)>) -> Seq<(Seq<char>, Seq<char>)> {
    h.map_values(|p: (String, String)| (p.0@, p.1@))
}

impl View for CachedResponse {
    type V = SpecCachedResponse;

    open spec fn view(&self) -> SpecCachedResponse {
        SpecCachedResponse {
            status: self.status,
            headers: spec_headers(self.headers@),
            body: self.body@,
        }
    }
}

/// One cache slot: a response and its admission time and lifetime.
#[derive(Debug, Clone)]
pub struct CacheEntry {
    pub data: CachedResponse,
    pub created_at_ms: u64,
    pub ttl_secs: u64,
}

/// The mathematical image of a cache slot.
pub ghost struct SpecCacheEntry {
    pub data: SpecCachedResponse,
    pub created_at_ms: u64,
    pub ttl_secs: u64,
}

impl View for CacheEntry {
    type V = SpecCacheEntry;

    open spec fn view(&self) -> SpecCacheEntry {
        SpecCacheEntry {
            data: self.data@,
            created_at_ms: self.created_at_ms,
            ttl_secs: self.ttl_secs,
        }
    }
}

/// Whether an entry is still alive at `now_ms`: its age in milliseconds is
/// under its time-to-live.
pub open spec fn spec_entry_valid(e: SpecCacheEntry, now_ms: u64) -> bool {
    (now_ms as int) < e.created_at_ms + e.ttl_secs * 1000
}

/// The lifetime the cache gives a path: release indices, package indices,
/// package payloads, then everything else at one hour.
pub open spec fn spec_determine_ttl(cfg: SpecTtlConfig, path: Seq<char>) -> u64 {
    if spec_contains(path, "InRelease"@) || spec_contains(path, "Release"@) || spec_contains(
        path,
        "Release.gpg"@,
    ) {
        cfg.release_ttl
    } else if spec_contains(path, "Packages"@) || spec_contains(path, "Sources"@) {
        cfg.packages_ttl
    } else if spec_ends_with(path, ".deb"@) {
        cfg.deb_ttl
    } else {
        3600
    }
}

/// Whether `r` is the right answer for looking `path` up in map `m` at
/// `now_ms`: the stored response exactly when the entry exists and is
/// alive, and nothing otherwise.
pub open spec fn spec_get_result(
    m: Map<Seq<char>, SpecCacheEntry>,
    path: Seq<char>,
    now_ms: u64,
    r: Option<CachedResponse>,
) -> bool {
    match r {
        Some(resp) => m.dom().contains(path) && spec_entry_valid(m[path], now_ms) && resp@
            == m[path].data,
        None => !m.dom().contains(path) || !spec_entry_valid(m[path], now_ms),
    }
}

/// The part of a map still alive at `now_ms`, unchanged.
pub open spec fn spec_valid_restriction(
    m: Map<Seq<char>, SpecCacheEntry>,
    now_ms: u64,
) -> Map<Seq<char>, SpecCacheEntry> {
    Map::new(
        |k: Seq<char>| m.dom().contains(k) && spec_entry_valid(m[k], now_ms),
        |k: Seq<char>| m[k],
    )
}

/// The keyed store.  Its model is a map from paths to entries.
pub struct CacheManager {
    entries: Vec<(String, CacheEntry)>,
    ttl_config: TtlConfig,
}

impl CacheManager {
    /// The map the store stands for.
    pub closed spec fn spec_map(&self) -> Map<Seq<char>, SpecCacheEntry> {
        Map::new(
            |k: Seq<char>| exists|i: int| 0 <= i < self.entries@.len() && self.entries@[i].0@ == k,
            |k: Seq<char>|
                self.entries@[choose|i: int|
                    0 <= i < self.entries@.len() && self.entries@[i].0@ == k].1@,
        )
    }

    /// The configured lifetimes.
    pub closed spec fn spec_ttl(&self) -> SpecTtlConfig {
        self.ttl_config@
    }

    /// Keys are unique, so each path stands for at most one entry.
    pub closed spec fn wf(&self) -> bool {
        forall|i: int, j: int|
            0 <= i < j < self.entries@.len() ==> self.entries@[i].0@ != self.entries@[j].0@
    }

    proof fn lemma_key_at(&self, i: int)
        requires
            self.wf(),
            0 <= i < self.entries@.len(),
        ensures
            self.spec_map().dom().contains(self.entries@[i].0@),
            self.spec_map()[self.entries@[i].0@] == self.entries@[i].1@,
    {
        let k = self.entries@[i].0@;
        assert(self.spec_map().dom().contains(k));
        let j = choose|j: int| 0 <= j < self.entries@.len() && self.entries@[j].0@ == k;
        if i != j {
            assert(false);
        }
    }

    /// An empty cache with the stock lifetimes.
    pub fn new() -> (c: CacheManager)
        ensures
            c.wf(),
            c.spec_map() == Map::<Seq<char>, SpecCacheEntry>::empty(),
            c.spec_ttl() == spec_default_ttl_config(),
    {
        let c = CacheManager { entries: Vec::new(), ttl_config: TtlConfig::default() };
        proof {
            assert(c.spec_map() =~= Map::<Seq<char>, SpecCacheEntry>::empty());
        }
        c
    }

    /// The lifetime a path would be stored with.
    pub fn determine_ttl(&self, path: &str) -> (t: u64)
        ensures
            t == spec_determine_ttl(self.spec_ttl(), path@),
    {
        proof {
            reveal_strlit("InRelease");
            reveal_strlit("Release");
            reveal_strlit("Release.gpg");
            reveal_strlit("Packages");
            reveal_strlit("Sources");
            reveal_strlit(".deb");
        }
        if contains_str(path, "InRelease") || contains_str(path, "Release") || contains_str(
            path,
            "Release.gpg",
        ) {
            self.ttl_config.release_ttl
        } else if contains_str(path, "Packages") || contains_str(path, "Sources") {
            self.ttl_config.packages_ttl
        } else if ends_with(path, ".deb") {
            self.ttl_config.deb_ttl
        } else {
            3600
        }
    }

    /// Look a path up at time `now_ms`.  A hit returns the stored response
    /// exactly when the entry exists and is still alive; an expired or
    /// missing entry answers `None`.
    pub fn get_at(&self, path: &str, now_ms: u64) -> (r: Option<CachedResponse>)
        requires
            self.wf(),
        ensures
            match r {
                Some(resp) => self.spec_map().dom().contains(path@) && spec_entry_valid(
                    self.spec_map()[path@],
                    now_ms,
                ) && resp@ == self.spec_map()[path@].data,
                None => !self.spec_map().dom().contains(path@) || !spec_entry_valid(
                    self.spec_map()[path@],
                    now_ms,
                ),
            },
    {
        let n = self.entries.len();
        let mut i: usize = 0;
        while i < n
            invariant
                i <= n,
                n == self.entries@.len(),
                self.wf(),
                forall|k: int| 0 <= k < i ==> self.entries@[k].0@ != path@,
            decreases n - i,
        {
            if str_eq(self.entries[i].0.as_str(), path) {
                proof {
                    self.lemma_key_at(i as int);
                }
                let entry = &self.entries[i].1;
                let alive = (now_ms as u128) < (entry.created_at_ms as u128) + (
                entry.ttl_secs as u128) * 1000;
                if alive {
                    return Some(entry.data.clone_response());
                } else {
                    return None;
                }
            }
            i = i + 1;
        }
        proof {
            if self.spec_map().dom().contains(path@) {
                let j = choose|j: int|
                    0 <= j < self.entries@.len() && self.entries@[j].0@ == path@;
                assert(false);
            }
        }
        None
    }

    /// Admit a response under a path at time `now_ms`, with the lifetime the
    /// path's artifact class calls for.  Storing an existing key replaces
    /// the old entry.
    #[verifier::rlimit(50)]
    #[verifier::loop_isolation(false)]
    pub fn store_at(&mut self, path: &str, response: CachedResponse, now_ms: u64)
        requires
            old(self).wf(),
        ensures
            final(self).wf(),
            final(self).spec_ttl() == old(self).spec_ttl(),
            final(self).spec_map() == old(self).spec_map().insert(
                path@,
                SpecCacheEntry {
                    data: response@,
                    created_at_ms: now_ms,
                    ttl_secs: spec_determine_ttl(old(self).spec_ttl(), path@),
                },
            ),
    {
        let ttl = self.determine_ttl(path);
        let entry = CacheEntry { data: response, created_at_ms: now_ms, ttl_secs: ttl };
        let ghost target = SpecCacheEntry {
            data: entry.data@,
            created_at_ms: now_ms,
            ttl_secs: ttl,
        };
        let n = self.entries.len();
        let mut i: usize = 0;
        while i < n
            invariant
                i <= n,
                n == self.entries@.len(),
                *self == *old(self),
                self.wf(),
                forall|k: int| 0 <= k < i ==> self.entries@[k].0@ != path@,
            decreases n - i,
        {
            if str_eq(self.entries[i].0.as_str(), path) {
                proof {
                    assert(self.entries@[i as int].0@ == path@);
                    assert(entry@ == target);
                }
                let key_copy = self.entries[i].0.clone();
                let ghost keyv = key_copy@;
                let ghost ev = entry@;
                self.entries.set(i, (key_copy, entry));
                proof {
                    assert(old(self).entries@[i as int].0@ == path@);
                    assert(keyv == path@);
                    assert(self.entries@[i as int].0@ == keyv);
                    assert(self.entries@[i as int].1@ == ev);
                    assert(self.entries@[i as int].1@ == target);
                    assert forall|a: int, b: int|
                        0 <= a < b < self.entries@.len() implies self.entries@[a].0@
                        != self.entries@[b].0@ by {
                        assert(old(self).entries@[a].0@ != old(self).entries@[b].0@);
                    }
                    let m1 = self.spec_map();
                    let m2 = old(self).spec_map().insert(path@, target);
                    assert forall|k: Seq<char>| #![trigger m2.dom().contains(k)]
                        m2.dom().contains(k) implies m1.dom().contains(k) && m1[k] == m2[k] by {
                        if k == path@ {
                            self.lemma_key_at(i as int);
                            assert(m1.dom().contains(k));
                            assert(m1[k] == target);
                            assert(m2[k] == target);
                        } else {
                            assert(old(self).spec_map().dom().contains(k));
                            let j = choose|j: int|
                                0 <= j < old(self).entries@.len() && old(self).entries@[j].0@
                                    == k;
                            assert(0 <= j < old(self).entries@.len());
                            assert(old(self).entries@[j].0@ == k);
                            old(self).lemma_key_at(j);
                            assert(j != i);
                            assert(self.entries@[j].0@ == k);
                            self.lemma_key_at(j);
                            assert(m1.dom().contains(k));
                            assert(m1[k] == m2[k]);
                        }
                    }
                    assert forall|k: Seq<char>| #![trigger m1.dom().contains(k)]
                        m1.dom().contains(k) implies m2.dom().contains(k) by {
                        let j = choose|j: int|
                            0 <= j < self.entries@.len() && self.entries@[j].0@ == k;
                        if j != i {
                            old(self).lemma_key_at(j);
                            assert(m2.dom().contains(k));
                        } else {
                            assert(k == path@);
                            assert(m2.dom().contains(k));
                        }
                    }
                    assert(m1.dom() =~= m2.dom());
                    assert(m1 =~= m2);
                }
                return ;
            }
            i = i + 1;
        }
        let key = path.to_owned();
        proof {
            assert(key@ == path@);
            assert(entry@ == target);
        }
        let ghost keyv = key@;
        let ghost ev = entry@;
        self.entries.push((key, entry));
        proof {
            let m = self.entries@.len() - 1;
            assert(self.entries@[m].0@ == keyv);
            assert(self.entries@[m].1@ == ev);
            assert forall|a: int, b: int|
                0 <= a < b < self.entries@.len() implies self.entries@[a].0@
                != self.entries@[b].0@ by {
                if b < m {
                    assert(old(self).entries@[a].0@ != old(self).entries@[b].0@);
                }
            }
            let m1 = self.spec_map();
            let m2 = old(self).spec_map().insert(path@, target);
            assert forall|k: Seq<char>| #![trigger m2.dom().contains(k)]
                m2.dom().contains(k) implies m1.dom().contains(k) && m1[k] == m2[k] by {
                if k == path@ {
                    self.lemma_key_at(m);
                } else {
                    let j = choose|j: int|
                        0 <= j < old(self).entries@.len() && old(self).entries@[j].0@ == k;
                    old(self).lemma_key_at(j);
                    self.lemma_key_at(j);
                }
            }
            assert forall|k: Seq<char>| #![trigger m1.dom().contains(k)]
                m1.dom().contains(k) implies m2.dom().contains(k) by {
                let j = choose|j: int|
                    0 <= j < self.entries@.len() && self.entries@[j].0@ == k;
                if j < m {
                    old(self).lemma_key_at(j);
                }
            }
            assert(m1.dom() =~= m2.dom());
            assert(m1 =~= m2);
        }
    }

    /// Drop everything.
    pub fn clear(&mut self)
        ensures
            final(self).wf(),
            final(self).spec_ttl() == old(self).spec_ttl(),
            final(self).spec_map() == Map::<Seq<char>, SpecCacheEntry>::empty(),
    {
        self.entries.clear();
        proof {
            assert(self.spec_map() =~= Map::<Seq<char>, SpecCacheEntry>::empty());
        }
    }

    /// Evict every entry that is no longer alive at `now_ms`.  What stays is
    /// exactly the still-valid part of the map, unchanged.
    #[verifier::rlimit(80)]
    #[verifier::loop_isolation(false)]
    pub fn cleanup_expired_at(&mut self, now_ms: u64)
        requires
            old(self).wf(),
        ensures
            final(self).wf(),
            final(self).spec_ttl() == old(self).spec_ttl(),
            final(self).spec_map() == spec_valid_restriction(old(self).spec_map(), now_ms),
    {
        let n = self.entries.len();
        let mut kept: Vec<(String, CacheEntry)> = Vec::new();
        let mut i: usize = 0;
        while i < n
            invariant
                i <= n,
                n == self.entries@.len(),
                *self == *old(self),
                old(self).wf(),
                forall|a: int|
                    #![trigger kept@[a]]
                    0 <= a < kept@.len() ==> exists|b: int|
                        #![trigger self.entries@[b]]
                        0 <= b < i && kept@[a].0@ == self.entries@[b].0@ && kept@[a].1@
                            == self.entries@[b].1@ && spec_entry_valid(
                            self.entries@[b].1@,
                            now_ms,
                        ),
                forall|b: int|
                    0 <= b < i && spec_entry_valid(#[trigger] self.entries@[b].1@, now_ms)
                        ==> exists|a: int|
                        #![trigger kept@[a]]
                        0 <= a < kept@.len() && kept@[a].0@ == self.entries@[b].0@
                            && kept@[a].1@ == self.entries@[b].1@,
                forall|a1: int, a2: int|
                    0 <= a1 < a2 < kept@.len() ==> #[trigger] kept@[a1].0@ != #[trigger] kept@[a2].0@,
            decreases n - i,
        {
            let entry = &self.entries[i];
            let alive = (now_ms as u128) < (entry.1.created_at_ms as u128) + (
            entry.1.ttl_secs as u128) * 1000;
            if alive {
                let pair = (entry.0.clone(), entry.1.clone_entry());
                let ghost kept0 = kept@;
                kept.push(pair);
                proof {
                    let last = kept@.len() - 1;
                    assert(kept@[last].0@ == self.entries@[i as int].0@);
                    assert(kept@[last].1@ == self.entries@[i as int].1@);
                    assert forall|a: int| #![trigger kept@[a]] 0 <= a < kept@.len() implies exists|b: int|
                        #![trigger self.entries@[b]]
                        0 <= b < i + 1 && kept@[a].0@ == self.entries@[b].0@ && kept@[a].1@
                            == self.entries@[b].1@ && spec_entry_valid(
                            self.entries@[b].1@,
                            now_ms,
                        ) by {
                        if a < last {
                            assert(kept@[a] == kept0[a]);
                            let b = choose|b: int|
                                #![trigger self.entries@[b]]
                                0 <= b < i && kept0[a].0@ == self.entries@[b].0@ && kept0[a].1@
                                    == self.entries@[b].1@ && spec_entry_valid(
                                    self.entries@[b].1@,
                                    now_ms,
                                );
                            assert(0 <= b < i + 1 && kept@[a].0@ == self.entries@[b].0@
                                && kept@[a].1@ == self.entries@[b].1@ && spec_entry_valid(
                                self.entries@[b].1@,
                                now_ms,
                            ));
                        } else {
                            assert(0 <= i < i + 1 && kept@[a].0@ == self.entries@[i as int].0@
                                && kept@[a].1@ == self.entries@[i as int].1@
                                && spec_entry_valid(self.entries@[i as int].1@, now_ms));
                        }
                    }
                    assert forall|b: int|
                        0 <= b < i + 1 && spec_entry_valid(
                            #[trigger] self.entries@[b].1@,
                            now_ms,
                        ) implies exists|a: int|
                        #![trigger kept@[a]]
                        0 <= a < kept@.len() && kept@[a].0@ == self.entries@[b].0@
                            && kept@[a].1@ == self.entries@[b].1@ by {
                        if b < i {
                            let a = choose|a: int|
                                #![trigger kept0[a]]
                                0 <= a < kept0.len() && kept0[a].0@ == self.entries@[b].0@
                                    && kept0[a].1@ == self.entries@[b].1@;
                            assert(kept@[a] == kept0[a]);
                            assert(0 <= a < kept@.len() && kept@[a].0@ == self.entries@[b].0@
                                && kept@[a].1@ == self.entries@[b].1@);
                        } else {
                            assert(0 <= last < kept@.len() && kept@[last].0@
                                == self.entries@[b].0@ && kept@[last].1@
                                == self.entries@[b].1@);
                        }
                    }
                }
            }
            i = i + 1;
        }
        let ghost old_entries = self.entries@;
        self.entries = kept;
        proof {
            let m1 = self.spec_map();
            let m2 = spec_valid_restriction(old(self).spec_map(), now_ms);
            assert forall|k: Seq<char>| #![trigger m1.dom().contains(k)]
                m1.dom().contains(k) implies m2.dom().contains(k) && m1[k] == m2[k] by {
                let a = choose|a: int|
                    0 <= a < self.entries@.len() && self.entries@[a].0@ == k;
                self.lemma_key_at(a);
                let b = choose|b: int|
                    #![trigger old_entries[b]]
                    0 <= b < n && self.entries@[a].0@ == old_entries[b].0@
                        && self.entries@[a].1@ == old_entries[b].1@ && spec_entry_valid(
                        old_entries[b].1@,
                        now_ms,
                    );
                old(self).lemma_key_at(b);
            }
            assert forall|k: Seq<char>| #![trigger m2.dom().contains(k)]
                m2.dom().contains(k) implies m1.dom().contains(k) by {
                let b = choose|b: int|
                    0 <= b < old_entries.len() && old_entries[b].0@ == k;
                old(self).lemma_key_at(b);
                assert(spec_entry_valid(old_entries[b].1@, now_ms));
                let a = choose|a: int|
                    #![trigger self.entries@[a]]
                    0 <= a < self.entries@.len() && self.entries@[a].0@ == old_entries[b].0@
                        && self.entries@[a].1@ == old_entries[b].1@;
                self.lemma_key_at(a);
            }
            assert(m1.dom() =~= m2.dom());
            assert(m1 =~= m2);
        }
    }

    /// Look a path up at the clock's time now.
    pub fn get(&self, path: &str) -> (r: Option<CachedResponse>)
        requires
            self.wf(),
        ensures
            exists|now_ms: u64| #[trigger] spec_get_result(self.spec_map(), path@, now_ms, r),
    {
        let now_ms = crate::clock::now_millis();
        let r = self.get_at(path, now_ms);
        proof {
            assert(spec_get_result(self.spec_map(), path@, now_ms, r));
        }
        r
    }

    /// Admit a response under a path at the clock's time now.
    pub fn store(&mut self, path: &str, response: CachedResponse)
        requires
            old(self).wf(),
        ensures
            final(self).wf(),
            final(self).spec_ttl() == old(self).spec_ttl(),
            exists|now_ms: u64|
                final(self).spec_map() == #[trigger] old(self).spec_map().insert(
                    path@,
                    SpecCacheEntry {
                        data: response@,
                        created_at_ms: now_ms,
                        ttl_secs: spec_determine_ttl(old(self).spec_ttl(), path@),
                    },
                ),
    {
        let now_ms = crate::clock::now_millis();
        self.store_at(path, response, now_ms);
    }

    /// Evict expired entries at the clock's time now: what stays is the
    /// still-valid part of the map at the clock's value, unchanged.
    pub fn cleanup_expired(&mut self)
        requires
            old(self).wf(),
        ensures
            final(self).wf(),
            final(self).spec_ttl() == old(self).spec_ttl(),
            exists|now_ms: u64|
                final(self).spec_map() == #[trigger] spec_valid_restriction(
                    old(self).spec_map(),
                    now_ms,
                ),
    {
        let now_ms = crate::clock::now_millis();
        self.cleanup_expired_at(now_ms);
        proof {
            assert(self.spec_map() == spec_valid_restriction(old(self).spec_map(), now_ms));
        }
    }
}

impl CachedResponse {
    /// A field-for-field copy.
    pub fn clone_response(&self) -> (r: CachedResponse)
        ensures
            r@ == self@,
    {
        let mut headers: Vec<(String, String)> = Vec::new();
        let n = self.headers.len();
        let mut i: usize = 0;
        while i < n
            invariant
                i <= n,
                n == self.headers@.len(),
                headers@.len() == i,
                forall|k: int|
                    0 <= k < i ==> #[trigger] headers@[k].0@ == self.headers@[k].0@
                        && headers@[k].1@ == self.headers@[k].1@,
            decreases n - i,
        {
            let pair = (self.headers[i].0.clone(), self.headers[i].1.clone());
            headers.push(pair);
            i = i + 1;
        }
        let mut body: Vec<u8> = Vec::new();
        let bn = self.body.len();
        let mut j: usize = 0;
        while j < bn
            invariant
                j <= bn,
                bn == self.body@.len(),
                body@ =~= self.body@.take(j as int),
            decreases bn - j,
        {
            body.push(self.body[j]);
            j = j + 1;
        }
        proof {
            assert(body@ =~= self.body@);
            assert(spec_headers(headers@) =~= spec_headers(self.headers@));
        }
        CachedResponse { status: self.status, headers, body }
    }
}

impl CacheEntry {
    /// A field-for-field copy.
    pub fn clone_entry(&self) -> (r: CacheEntry)
        ensures
            r@ == self@,
    {
        CacheEntry {
            data: self.data.clone_response(),
            created_at_ms: self.created_at_ms,
            ttl_secs: self.ttl_secs,
        }
    }
}

} // verus!
