//! In-memory cache of threshold public keys, by derivation path.
use vstd::prelude::*;
use crate::assoc::{assoc_map, distinct_keys, lemma_assoc_contains, lemma_assoc_index, lemma_assoc_push_distinct, lemma_assoc_update};
use crate::bytes::{bytes_eq, clone_bytes};

verus! {

/// A cached public key and the derivation path it was fetched for.
pub struct CachedKey {
    pub path: Vec<Vec<u8>>,
    pub key: Vec<u8>,
}

/// Public keys already fetched, so that each derivation path is asked for once.
pub struct PublicKeyCache {
    entries: Vec<CachedKey>,
}

/// A derivation path as a sequence of byte strings.
pub open spec fn path_view(path: Vec<Vec<u8>>) -> Seq<Seq<u8>> {
    path@.map_values(|level: Vec<u8>| level@)
}

/// A cache entry as a (path, key) pair.
pub open spec fn cached_entry(e: CachedKey) -> (Seq<Seq<u8>>, Seq<u8>) {
    (path_view(e.path), e.key@)
}

/// Whether two derivation paths are the same.
pub fn paths_eq(a: &Vec<Vec<u8>>, b: &Vec<Vec<u8>>) -> (r: bool)
    ensures
        r == (path_view(*a) == path_view(*b)),
{
    if a.len() != b.len() {
        assert(path_view(*a).len() != path_view(*b).len());
        return false;
    }
    let n = a.len();
    let mut i: usize = 0;
    while i < n
        invariant
            n == a@.len(),
            n == b@.len(),
            i <= n,
            forall|j: int| 0 <= j < i ==> a@[j]@ == b@[j]@,
        decreases n - i,
    {
        if !bytes_eq(a[i].as_slice(), b[i].as_slice()) {
            assert(path_view(*a)[i as int] != path_view(*b)[i as int]);
            return false;
        }
        i = i + 1;
    }
    assert(path_view(*a) =~= path_view(*b));
    true
}

fn clone_path(path: &Vec<Vec<u8>>) -> (r: Vec<Vec<u8>>)
    ensures
        path_view(r) == path_view(*path),
{
    let n = path.len();
    let mut r: Vec<Vec<u8>> = Vec::new();
    let mut i: usize = 0;
    while i < n
        invariant
            n == path@.len(),
            i <= n,
            r@.len() == i,
            forall|j: int| 0 <= j < i ==> r@[j]@ == path@[j]@,
        decreases n - i,
    {
        r.push(clone_bytes(&path[i]));
        i = i + 1;
    }
    assert(path_view(r) =~= path_view(*path));
    r
}

/// The entries of a cache list as (path, key) pairs.
spec fn cache_pairs(entries: Seq<CachedKey>) -> Seq<(Seq<Seq<u8>>, Seq<u8>)> {
    entries.map_values(|e: CachedKey| cached_entry(e))
}

impl View for PublicKeyCache {
    type V = Map<Seq<Seq<u8>>, Seq<u8>>;

    /// The key cached for each path.
    closed spec fn view(&self) -> Map<Seq<Seq<u8>>, Seq<u8>> {
        assoc_map(self.pairs())
    }
}

impl PublicKeyCache {
    spec fn pairs(self) -> Seq<(Seq<Seq<u8>>, Seq<u8>)> {
        cache_pairs(self.entries@)
    }

    /// Each path is cached once.
    #[verifier::type_invariant]
    spec fn wf(self) -> bool {
        distinct_keys(self.pairs())
    }

    /// An empty cache.
    pub fn new() -> (r: Self)
        ensures
            r@ == Map::<Seq<Seq<u8>>, Seq<u8>>::empty(),
    {
        assert(cache_pairs(Seq::<CachedKey>::empty()) =~= Seq::<(Seq<Seq<u8>>, Seq<u8>)>::empty());
        let r = PublicKeyCache { entries: Vec::new() };
        assert(r.pairs() =~= Seq::<(Seq<Seq<u8>>, Seq<u8>)>::empty());
        r
    }

    fn find(&self, path: &Vec<Vec<u8>>) -> (r: Option<usize>)
        ensures
            match r {
                Some(j) => j < self.entries@.len() && path_view(self.entries@[j as int].path)
                    == path_view(*path),
                None => !self@.contains_key(path_view(*path)),
            },
    {
        proof {
            use_type_invariant(self);
        }
        let n = self.entries.len();
        let mut i: usize = 0;
        while i < n
            invariant
                n == self.entries@.len(),
                i <= n,
                forall|j: int|
                    0 <= j < i ==> path_view(self.entries@[j].path) != path_view(*path),
            decreases n - i,
        {
            if paths_eq(&self.entries[i].path, path) {
                return Some(i);
            }
            i = i + 1;
        }
        proof {
            lemma_assoc_contains(self.pairs(), path_view(*path));
            if self@.contains_key(path_view(*path)) {
                let j = choose|j: int|
                    0 <= j < self.pairs().len() && self.pairs()[j].0 == path_view(*path);
                assert(path_view(self.entries@[j].path) == path_view(*path));
            }
        }
        None
    }

    /// The cached key for `path`, if there is one.
    pub fn get(&self, path: &Vec<Vec<u8>>) -> (r: Option<Vec<u8>>)
        ensures
            match r {
                Some(k) => self@.contains_key(path_view(*path)) && self@[path_view(*path)] == k@,
                None => !self@.contains_key(path_view(*path)),
            },
    {
        proof {
            use_type_invariant(self);
        }
        match self.find(path) {
            Some(j) => {
                proof {
                    lemma_assoc_index(self.pairs(), j as int);
                }
                Some(clone_bytes(&self.entries[j].key))
            },
            None => None,
        }
    }

    /// Caches `key` for `path`, replacing any key cached for it before.
    pub fn insert(&mut self, path: Vec<Vec<u8>>, key: Vec<u8>)
        ensures
            final(self)@ == old(self)@.insert(path_view(path), key@),
    {
        proof {
            use_type_invariant(&*self);
        }
        let ghost old_pairs = self.pairs();
        let ghost pv = path_view(path);
        let ghost kv = key@;
        let found = self.find(&path);
        let mut entries: Vec<CachedKey> = Vec::new();
        assert(cache_pairs(entries@) =~= Seq::<(Seq<Seq<u8>>, Seq<u8>)>::empty());
        std::mem::swap(&mut entries, &mut self.entries);
        match found {
            Some(j) => {
                proof {
                    lemma_assoc_update(old_pairs, j as int, kv);
                }
                entries.set(j, CachedKey { path, key });
                assert(cache_pairs(entries@) =~= old_pairs.update(j as int, (old_pairs[j as int].0, kv)));
            },
            None => {
                proof {
                    lemma_assoc_push_distinct(old_pairs, pv, kv);
                }
                entries.push(CachedKey { path, key });
                assert(cache_pairs(entries@) =~= old_pairs.push((pv, kv)));
            },
        }
        self.entries = entries;
    }
}

/// Reading a path right after caching a key for it gives that key, and leaves what
/// is cached for every other path as it was.
pub proof fn lemma_cache_read_after_write(
    cache: Map<Seq<Seq<u8>>, Seq<u8>>,
    path: Seq<Seq<u8>>,
    key: Seq<u8>,
)
    ensures
        cache.insert(path, key).contains_key(path),
        cache.insert(path, key)[path] == key,
        forall|other: Seq<Seq<u8>>|
            other != path ==> (cache.insert(path, key).contains_key(other) == cache.contains_key(
                other,
            ) && (cache.contains_key(other) ==> cache.insert(path, key)[other] == cache[other])),
{
}

} // verus!
