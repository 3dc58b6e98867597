//! The per-repository policy cache. Entries are keyed by `owner/repo` and
//! live for a fixed time; a failed fetch answers with the defaults and is
//! not cached. The fetch itself is the caller's: `cached_config` says
//! whether one is needed, and `record_fetch` takes its outcome.

use vstd::prelude::*;
use vstd::string::*;
use crate::policy::{RepoConfig, default_config};
use crate::text::str_eq;

verus! {

/// A cached policy and the time it was fetched.
#[derive(Debug, Clone, Copy)]
pub struct CachedConfig {
    pub config: RepoConfig,
    pub fetched_at: u64,
}

/// The cache key of a repository.
pub open spec fn cache_key(owner: Seq<char>, repo: Seq<char>) -> Seq<char> {
    owner + "/"@ + repo
}

/// Seconds from `then` to `now`; nothing when the clock reads earlier.
pub open spec fn elapsed(then: u64, now: u64) -> int {
    if now >= then { now - then } else { 0 }
}

/// The entry for `key` among `s`, if any.
spec fn entry_in(s: Seq<(String, CachedConfig)>, key: Seq<char>) -> Option<CachedConfig> {
    if exists|i: int| 0 <= i < s.len() && s[i].0@ == key {
        Some(s[choose|i: int| 0 <= i < s.len() && s[i].0@ == key].1)
    } else {
        None
    }
}

spec fn unique_keys(s: Seq<(String, CachedConfig)>) -> bool {
    forall|i: int, j: int| 0 <= i < s.len() && 0 <= j < s.len() && i != j ==> (#[trigger] s[i]).0@ != (
    #[trigger] s[j]).0@
}

/// Two entry lists that hold the same entries under every key but `key0`
/// (matched position by position through `to_old` and `to_new`) agree on
/// every other key.
proof fn lemma_entry_kept(
    s1: Seq<(String, CachedConfig)>,
    s2: Seq<(String, CachedConfig)>,
    key0: Seq<char>,
    k: Seq<char>,
    to_old: spec_fn(int) -> int,
    to_new: spec_fn(int) -> int,
)
    requires
        unique_keys(s1),
        unique_keys(s2),
        k != key0,
        forall|x: int| 0 <= x < s2.len() && (#[trigger] s2[x]).0@ != key0 ==> 0 <= to_old(x) < s1.len()
            && s1[to_old(x)] == s2[x],
        forall|y: int| 0 <= y < s1.len() && (#[trigger] s1[y]).0@ != key0 ==> 0 <= to_new(y) < s2.len()
            && s2[to_new(y)] == s1[y],
    ensures
        entry_in(s2, k) == entry_in(s1, k),
{
    if exists|x: int| 0 <= x < s2.len() && s2[x].0@ == k {
        let x = choose|x: int| 0 <= x < s2.len() && s2[x].0@ == k;
        let y0 = to_old(x);
        assert(s1[y0].0@ == k);
        let y = choose|y: int| 0 <= y < s1.len() && s1[y].0@ == k;
        if y != y0 {
            assert(s1[y].0@ == k);
        }
    } else if exists|y: int| 0 <= y < s1.len() && s1[y].0@ == k {
        let y = choose|y: int| 0 <= y < s1.len() && s1[y].0@ == k;
        assert(s2[to_new(y)].0@ == k);
    }
}

/// Read-through cache of repository policies.
pub struct RepoConfigLoader {
    entries: Vec<(String, CachedConfig)>,
    cache_ttl: u64,
}

impl RepoConfigLoader {
    pub closed spec fn keys(&self) -> Seq<Seq<char>> {
        self.entries@.map_values(|e: (String, CachedConfig)| e.0@)
    }

    pub closed spec fn ttl(&self) -> u64 {
        self.cache_ttl
    }

    /// The cached entry for `key`, if any.
    pub closed spec fn entry(&self, key: Seq<char>) -> Option<CachedConfig> {
        entry_in(self.entries@, key)
    }

    pub closed spec fn wf(&self) -> bool {
        forall|i: int, j: int|
            0 <= i < self.entries@.len() && 0 <= j < self.entries@.len() && i != j
                ==> (#[trigger] self.entries@[i]).0@ != (#[trigger] self.entries@[j]).0@
    }

    /// Number of cached entries.
    pub closed spec fn size(&self) -> nat {
        self.entries@.len()
    }

    /// An empty cache whose entries live `cache_ttl_seconds`.
    pub fn new(cache_ttl_seconds: u64) -> (r: RepoConfigLoader)
        ensures
            r.wf(),
            r.ttl() == cache_ttl_seconds,
            r.size() == 0,
            forall|k: Seq<char>| r.entry(k) is None,
    {
        RepoConfigLoader { entries: Vec::new(), cache_ttl: cache_ttl_seconds }
    }

    fn key_of(owner: &str, repo: &str) -> (r: String)
        ensures
            r@ == cache_key(owner@, repo@),
    {
        let mut k = String::from_str(owner);
        k.append("/");
        k.append(repo);
        k
    }

    fn position(&self, key: &str) -> (r: Option<usize>)
        requires
            self.wf(),
        ensures
            match r {
                Some(i) => i < self.entries@.len() && self.entries@[i as int].0@ == key@ && self.entry(key@)
                    == Some(self.entries@[i as int].1),
                None => self.entry(key@) is None,
            },
    {
        let n = self.entries.len();
        let mut i: usize = 0;
        while i < n
            invariant
                self.wf(),
                n == self.entries@.len(),
                i <= n,
                forall|k: int| 0 <= k < i ==> (#[trigger] self.entries@[k]).0@ != key@,
            decreases n - i,
        {
            if str_eq(self.entries[i].0.as_str(), key) {
                proof {
                    assert(self.entries@[i as int].0@ == key@);
                    let j = choose|j: int| 0 <= j < self.entries@.len() && self.entries@[j].0@ == key@;
                    if j != i {
                        assert(self.entries@[j].0@ == key@);
                    }
                }
                return Some(i);
            }
            i = i + 1;
        }
        None
    }

    /// The cached policy of `owner`/`repo` when it was fetched less than the
    /// time to live before `now`.
    pub fn cached_config(&self, owner: &str, repo: &str, now: u64) -> (r: Option<RepoConfig>)
        requires
            self.wf(),
        ensures
            ({
                let e = self.entry(cache_key(owner@, repo@));
                if e is Some && elapsed(e->0.fetched_at, now) < self.ttl() {
                    r == Some(e->0.config)
                } else {
                    r is None
                }
            }),
    {
        let key = Self::key_of(owner, repo);
        match self.position(key.as_str()) {
            Some(i) => {
                let e = self.entries[i].1;
                let age = if now >= e.fetched_at { now - e.fetched_at } else { 0 };
                if age < self.cache_ttl {
                    Some(e.config)
                } else {
                    None
                }
            },
            None => None,
        }
    }

    /// Take the outcome of a fetch made at `now`: a fetched policy is cached
    /// and returned; a failed fetch returns the defaults and caches nothing.
    pub fn record_fetch(&mut self, owner: &str, repo: &str, fetched: Option<RepoConfig>, now: u64) -> (r: RepoConfig)
        requires
            old(self).wf(),
        ensures
            final(self).wf(),
            final(self).ttl() == old(self).ttl(),
            fetched is None ==> r == default_config() && final(self).size() == old(self).size()
                && forall|k: Seq<char>| final(self).entry(k) == old(self).entry(k),
            fetched matches Some(c) ==> r == c && final(self).entry(cache_key(owner@, repo@))
                == Some(CachedConfig { config: c, fetched_at: now })
                && forall|k: Seq<char>| k != cache_key(owner@, repo@) ==> final(self).entry(k)
                    == old(self).entry(k),
    {
        match fetched {
            None => RepoConfig::defaults(),
            Some(c) => {
                let key = Self::key_of(owner, repo);
                let entry = CachedConfig { config: c, fetched_at: now };
                let ghost old_entries = self.entries@;
                match self.position(key.as_str()) {
                    Some(i) => {
                        self.entries.set(i, (key, entry));
                        proof {
                            let e = self.entries@;
                            assert(e =~= old_entries.update(i as int, e[i as int]));
                            assert forall|a: int, b: int| 0 <= a < e.len() && 0 <= b < e.len() && a != b
                                implies (#[trigger] e[a]).0@ != (#[trigger] e[b]).0@ by {
                                if a != i && b != i {
                                    assert(old_entries[a].0@ != old_entries[b].0@);
                                } else if a == i {
                                    assert(old_entries[a].0@ != old_entries[b].0@);
                                } else {
                                    assert(old_entries[a].0@ != old_entries[b].0@);
                                }
                            }
                            assert forall|k: Seq<char>| k != cache_key(owner@, repo@) implies self.entry(k)
                                == old(self).entry(k) by {
                                lemma_entry_kept(old_entries, e, cache_key(owner@, repo@), k, |x: int| x, |y: int| y);
                            }
                            assert(e[i as int].0@ == cache_key(owner@, repo@));
                            let z = choose|z: int| 0 <= z < e.len() && e[z].0@ == cache_key(owner@, repo@);
                            if z != i { assert(e[z].0@ == cache_key(owner@, repo@)); }
                        }
                    },
                    None => {
                        self.entries.push((key, entry));
                        proof {
                            let e = self.entries@;
                            let n = old_entries.len() as int;
                            assert(e =~= old_entries.push(e[n]));
                            assert forall|a: int, b: int| 0 <= a < e.len() && 0 <= b < e.len() && a != b
                                implies (#[trigger] e[a]).0@ != (#[trigger] e[b]).0@ by {
                                if a == n {
                                    assert(old_entries[b].0@ != cache_key(owner@, repo@));
                                } else if b == n {
                                    assert(old_entries[a].0@ != cache_key(owner@, repo@));
                                } else {
                                    assert(old_entries[a].0@ != old_entries[b].0@);
                                }
                            }
                            assert forall|k: Seq<char>| k != cache_key(owner@, repo@) implies self.entry(k)
                                == old(self).entry(k) by {
                                lemma_entry_kept(old_entries, e, cache_key(owner@, repo@), k, |x: int| x, |y: int| y);
                            }
                            assert(e[n].0@ == cache_key(owner@, repo@));
                            let z = choose|z: int| 0 <= z < e.len() && e[z].0@ == cache_key(owner@, repo@);
                            if z != n { assert(e[z].0@ == cache_key(owner@, repo@)); }
                        }
                    },
                }
                c
            },
        }
    }

    /// Number of cached entries, expired ones included.
    pub fn cache_size(&self) -> (r: usize)
        ensures
            r == self.size(),
    {
        self.entries.len()
    }

    /// Forget every entry.
    pub fn clear_cache(&mut self)
        ensures
            final(self).wf(),
            final(self).size() == 0,
            final(self).ttl() == old(self).ttl(),
            forall|k: Seq<char>| final(self).entry(k) is None,
    {
        self.entries = Vec::new();
    }

    /// Forget the entry of `owner`/`repo`, if any.
    pub fn invalidate_cache(&mut self, owner: &str, repo: &str)
        requires
            old(self).wf(),
        ensures
            final(self).wf(),
            final(self).ttl() == old(self).ttl(),
            final(self).entry(cache_key(owner@, repo@)) is None,
            forall|k: Seq<char>| k != cache_key(owner@, repo@) ==> final(self).entry(k) == old(self).entry(k),
    {
        let key = Self::key_of(owner, repo);
        match self.position(key.as_str()) {
            None => {},
            Some(i) => {
                let ghost old_entries = self.entries@;
                let _ = self.entries.remove(i);
                proof {
                    let e = self.entries@;
                    assert(e =~= old_entries.remove(i as int));
                    assert forall|a: int, b: int| 0 <= a < e.len() && 0 <= b < e.len() && a != b
                        implies (#[trigger] e[a]).0@ != (#[trigger] e[b]).0@ by {
                        let a2 = if a < i { a } else { a + 1 };
                        let b2 = if b < i { b } else { b + 1 };
                        assert(old_entries[a2].0@ != old_entries[b2].0@);
                    }
                    assert forall|k: Seq<char>| k != cache_key(owner@, repo@) implies self.entry(k)
                        == old(self).entry(k) by {
                        lemma_entry_kept(
                            old_entries,
                            e,
                            cache_key(owner@, repo@),
                            k,
                            |x: int| if x < i { x } else { x + 1 },
                            |y: int| if y < i { y } else { y - 1 },
                        );
                    }
                    if exists|x: int| 0 <= x < e.len() && e[x].0@ == cache_key(owner@, repo@) {
                        let x = choose|x: int| 0 <= x < e.len() && e[x].0@ == cache_key(owner@, repo@);
                        let x2 = if x < i { x } else { x + 1 };
                        assert(old_entries[x2].0@ == cache_key(owner@, repo@));
                        assert(old_entries[i as int].0@ == cache_key(owner@, repo@));
                    }
                }
            },
        }
    }
}

} // verus!
