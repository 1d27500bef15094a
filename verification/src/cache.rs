//! The lookup cache: results keyed by normalised champion/augment names.
use vstd::prelude::*;
use crate::text::{str_to_string, to_chars, chars_equal};
use crate::apexlol::ApexLolAugmentResult;

verus! {

/// The version of the cache file format.
pub const APEX_LOL_CACHE_VERSION: u32 = 1;

/// The cache file: a format version and results keyed by cache key.
pub struct ApexLolCacheFile {
    version: u32,
    entries: Vec<(String, ApexLolAugmentResult)>,
}

/// The map that a list of keyed entries stands for (a later entry wins).
pub open spec fn entries_map(entries: Seq<(String, ApexLolAugmentResult)>) -> Map<
    Seq<char>,
    ApexLolAugmentResult,
>
    decreases entries.len(),
{
    if entries.len() == 0 {
        Map::empty()
    } else {
        entries_map(entries.drop_last()).insert(entries.last().0@, entries.last().1)
    }
}

/// `r` with its `cache_hit` flag set to `hit`.
pub open spec fn with_cache_hit(r: ApexLolAugmentResult, hit: bool) -> ApexLolAugmentResult {
    ApexLolAugmentResult { cache_hit: hit, ..r }
}

proof fn lemma_entries_map_dom(entries: Seq<(String, ApexLolAugmentResult)>, k: Seq<char>)
    ensures
        entries_map(entries).dom().contains(k) <==> exists|i: int|
            0 <= i < entries.len() && (#[trigger] entries[i]).0@ == k,
    decreases entries.len(),
{
    if entries.len() > 0 {
        lemma_entries_map_dom(entries.drop_last(), k);
        if entries_map(entries.drop_last()).dom().contains(k) {
            let i = choose|i: int| 0 <= i < entries.drop_last().len() && (#[trigger] entries.drop_last()[i]).0@ == k;
            assert(entries[i] == entries.drop_last()[i]);
        }
        if exists|i: int| 0 <= i < entries.len() && (#[trigger] entries[i]).0@ == k {
            let i = choose|i: int| 0 <= i < entries.len() && (#[trigger] entries[i]).0@ == k;
            if i < entries.len() - 1 {
                assert(entries.drop_last()[i] == entries[i]);
            }
        }
    }
}

proof fn lemma_entries_map_at(entries: Seq<(String, ApexLolAugmentResult)>, i: int)
    requires
        0 <= i < entries.len(),
        forall|a: int, b: int| 0 <= a < b < entries.len() ==> entries[a].0@ != entries[b].0@,
    ensures
        entries_map(entries).dom().contains(entries[i].0@),
        entries_map(entries)[entries[i].0@] == entries[i].1,
    decreases entries.len(),
{
    if i < entries.len() - 1 {
        lemma_entries_map_at(entries.drop_last(), i);
        assert(entries.drop_last()[i] == entries[i]);
    }
}

proof fn lemma_entries_map_update(entries: Seq<(String, ApexLolAugmentResult)>, i: int, e: (String, ApexLolAugmentResult))
    requires
        0 <= i < entries.len(),
        e.0@ == entries[i].0@,
        forall|a: int, b: int| 0 <= a < b < entries.len() ==> entries[a].0@ != entries[b].0@,
    ensures
        entries_map(entries.update(i, e)) == entries_map(entries).insert(e.0@, e.1),
    decreases entries.len(),
{
    let u = entries.update(i, e);
    if i == entries.len() - 1 {
        assert(u.drop_last() =~= entries.drop_last());
        lemma_entries_map_dom(entries.drop_last(), e.0@);
        assert(entries_map(u) =~= entries_map(entries).insert(e.0@, e.1));
    } else {
        lemma_entries_map_update(entries.drop_last(), i, e);
        assert(u.drop_last() =~= entries.drop_last().update(i, e));
        assert(entries.last().0@ != e.0@);
        assert(entries_map(u) =~= entries_map(entries).insert(e.0@, e.1));
    }
}

impl ApexLolCacheFile {
    /// No two entries share a key.
    pub closed spec fn well_formed(self) -> bool {
        forall|a: int, b: int|
            0 <= a < b < self.entries@.len() ==> self.entries@[a].0@ != self.entries@[b].0@
    }

    /// The cached results by key.
    pub closed spec fn results(self) -> Map<Seq<char>, ApexLolAugmentResult> {
        entries_map(self.entries@)
    }

    pub closed spec fn spec_version(self) -> u32 {
        self.version
    }

    /// An empty cache of the given version.
    pub fn new(version: u32) -> (r: Self)
        ensures
            r.well_formed(),
            r.results() == Map::<Seq<char>, ApexLolAugmentResult>::empty(),
            r.spec_version() == version,
    {
        ApexLolCacheFile { version, entries: Vec::new() }
    }

    pub fn version(&self) -> (r: u32)
        ensures
            r == self.spec_version(),
    {
        self.version
    }

    /// Brings the version to the current one; the entries stay.
    pub fn normalize_version(&mut self)
        ensures
            final(self).spec_version() == APEX_LOL_CACHE_VERSION,
            final(self).results() == old(self).results(),
            final(self).well_formed() == old(self).well_formed(),
    {
        if self.version != APEX_LOL_CACHE_VERSION {
            self.version = APEX_LOL_CACHE_VERSION;
        }
    }

    /// The number of cached results.
    pub fn len(&self) -> (r: usize)
        requires
            self.well_formed(),
        ensures
            r == self.results().len(),
    {
        proof {
            lemma_entries_map_len(self.entries@);
        }
        self.entries.len()
    }

    /// The cached entries, one per key.
    pub fn entries(&self) -> (r: &Vec<(String, ApexLolAugmentResult)>)
        ensures
            entries_map(r@) == self.results(),
            forall|a: int, b: int| self.well_formed() && 0 <= a < b < r@.len() ==> r@[a].0@ != r@[b].0@,
    {
        &self.entries
    }

    fn position(&self, key: &str) -> (r: Option<usize>)
        requires
            self.well_formed(),
        ensures
            match r {
                Some(i) => i < self.entries@.len() && self.entries@[i as int].0@ == key@,
                None => !self.results().dom().contains(key@),
            },
    {
        let k = to_chars(key);
        let mut i: usize = 0;
        while i < self.entries.len()
            invariant
                i <= self.entries@.len(),
                k@ == key@,
                forall|j: int| 0 <= j < i ==> self.entries@[j].0@ != key@,
            decreases self.entries.len() - i,
        {
            if chars_equal(&to_chars(self.entries[i].0.as_str()), &k) {
                return Some(i);
            }
            i = i + 1;
        }
        proof {
            lemma_entries_map_dom(self.entries@, key@);
        }
        None
    }

    /// The result cached under `key`.
    pub fn get(&self, key: &str) -> (r: Option<&ApexLolAugmentResult>)
        requires
            self.well_formed(),
        ensures
            match r {
                Some(v) => self.results().dom().contains(key@) && *v == self.results()[key@],
                None => !self.results().dom().contains(key@),
            },
    {
        match self.position(key) {
            Some(i) => {
                proof {
                    lemma_entries_map_at(self.entries@, i as int);
                }
                Some(&self.entries[i].1)
            },
            None => None,
        }
    }

    /// Caches `value` under `key`, replacing what was there.
    pub fn insert(&mut self, key: String, value: ApexLolAugmentResult)
        requires
            old(self).well_formed(),
        ensures
            final(self).well_formed(),
            final(self).results() == old(self).results().insert(key@, value),
            final(self).spec_version() == old(self).spec_version(),
    {
        match self.position(key.as_str()) {
            Some(i) => {
                proof {
                    lemma_entries_map_update(self.entries@, i as int, (key, value));
                }
                self.entries.set(i, (key, value));
            },
            None => {
                proof {
                    lemma_entries_map_dom(self.entries@, key@);
                }
                self.entries.push((key, value));
                proof {
                    assert(self.entries@.drop_last() =~= old(self).entries@);
                }
            },
        }
    }
}

proof fn lemma_entries_map_len(entries: Seq<(String, ApexLolAugmentResult)>)
    requires
        forall|a: int, b: int| 0 <= a < b < entries.len() ==> entries[a].0@ != entries[b].0@,
    ensures
        entries_map(entries).len() == entries.len(),
        entries_map(entries).dom().finite(),
    decreases entries.len(),
{
    if entries.len() > 0 {
        lemma_entries_map_len(entries.drop_last());
        lemma_entries_map_dom(entries.drop_last(), entries.last().0@);
        if entries_map(entries.drop_last()).dom().contains(entries.last().0@) {
            let i = choose|i: int| 0 <= i < entries.drop_last().len() && (#[trigger] entries.drop_last()[i]).0@ == entries.last().0@;
            assert(entries[i] == entries.drop_last()[i]);
        }
    }
}

/// The cache a missing or unreadable cache file stands for.
pub fn empty_apex_lol_cache() -> (r: ApexLolCacheFile)
    ensures
        r.well_formed(),
        r.results() == Map::<Seq<char>, ApexLolAugmentResult>::empty(),
        r.spec_version() == APEX_LOL_CACHE_VERSION,
{
    ApexLolCacheFile::new(APEX_LOL_CACHE_VERSION)
}

/// What a lookup finds in the cache: the stored result, marked as a cache hit.
pub open spec fn cache_lookup(m: Map<Seq<char>, ApexLolAugmentResult>, key: Seq<char>) -> Option<
    ApexLolAugmentResult,
> {
    if m.dom().contains(key) {
        Some(with_cache_hit(m[key], true))
    } else {
        None
    }
}

/// What storing a result does to the cache: the result, marked as fetched, under its key.
pub open spec fn cache_store(
    m: Map<Seq<char>, ApexLolAugmentResult>,
    key: Seq<char>,
    r: ApexLolAugmentResult,
) -> Map<Seq<char>, ApexLolAugmentResult> {
    m.insert(key, with_cache_hit(r, false))
}

/// The cached result for `key`, marked as a cache hit.
pub fn cached_apex_lol_result(cache: &ApexLolCacheFile, key: &str) -> (r: Option<ApexLolAugmentResult>)
    requires
        cache.well_formed(),
    ensures
        r == cache_lookup(cache.results(), key@),
{
    match cache.get(key) {
        Some(v) => {
            let mut c = v.duplicate();
            c.cache_hit = true;
            Some(c)
        },
        None => None,
    }
}

/// Stores a result under `key`, marked as not coming from the cache.
pub fn store_apex_lol_result(cache: &mut ApexLolCacheFile, key: String, result: &ApexLolAugmentResult)
    requires
        old(cache).well_formed(),
    ensures
        final(cache).well_formed(),
        final(cache).results() == cache_store(old(cache).results(), key@, *result),
        final(cache).spec_version() == old(cache).spec_version(),
{
    let mut c = result.duplicate();
    c.cache_hit = false;
    cache.insert(key, c);
}

/// A result read back from the cache under the key it was stored under is the
/// stored result, marked as a cache hit.
pub proof fn lemma_cache_read_after_write(
    m: Map<Seq<char>, ApexLolAugmentResult>,
    key: Seq<char>,
    r: ApexLolAugmentResult,
)
    ensures
        cache_lookup(cache_store(m, key, r), key) == Some(with_cache_hit(r, true)),
{
}

/// Storing under one key leaves what is read under every other key unchanged.
pub proof fn lemma_cache_write_keeps_others(
    m: Map<Seq<char>, ApexLolAugmentResult>,
    key: Seq<char>,
    other: Seq<char>,
    r: ApexLolAugmentResult,
)
    requires
        key != other,
    ensures
        cache_lookup(cache_store(m, key, r), other) == cache_lookup(m, other),
{
}

} // verus!
