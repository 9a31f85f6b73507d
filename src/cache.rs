//! Parsed sources kept by text, so that coming back to a text seen before
//! does not parse it again.
use vstd::prelude::*;
use crate::textmap::TextMap;

verus! {

/// The mathematical value of an [`AstCache`]: the trees kept by source text,
/// and the source text being shown.
pub struct CacheView<T> {
    pub store: Map<Seq<char>, T>,
    pub current: Option<Seq<char>>,
}

/// A cache that keeps nothing and shows nothing.
pub open spec fn fresh_cache<T>() -> CacheView<T> {
    CacheView { store: Map::empty(), current: None }
}

/// What a new source text does to the cache, and whether it has to be
/// parsed. The text being shown, once parsed, is never parsed again. Without
/// caching every other tree is dropped and a new text is parsed; with
/// caching every tree is kept and only a text never parsed is parsed.
pub open spec fn begun<T>(c: CacheView<T>, source: Seq<char>, caching: bool) -> (CacheView<T>, bool) {
    if c.current == Some(source) && c.store.contains_key(source) {
        (c, false)
    } else if !caching {
        (CacheView { store: Map::empty(), current: Some(source) }, true)
    } else {
        (CacheView { store: c.store, current: Some(source) }, !c.store.contains_key(source))
    }
}

/// The cache with `tree` kept as the parse of the text being shown.
pub open spec fn stored<T>(c: CacheView<T>, tree: T) -> CacheView<T> {
    match c.current {
        Some(s) => CacheView { store: c.store.insert(s, tree), current: c.current },
        None => c,
    }
}

/// Trees parsed from source texts, and the text being shown.
pub struct AstCache<T> {
    store: TextMap<T>,
    current: Option<String>,
}

impl<T> View for AstCache<T> {
    type V = CacheView<T>;

    closed spec fn view(&self) -> CacheView<T> {
        CacheView {
            store: self.store@,
            current: match self.current {
                Some(s) => Some(s@),
                None => None,
            },
        }
    }
}

impl<T> AstCache<T> {
    /// An empty cache.
    pub fn new() -> (r: AstCache<T>)
        ensures
            r@ == fresh_cache::<T>(),
    {
        AstCache { store: TextMap::new(), current: None }
    }

    /// Shows `source`; returns whether it has to be parsed, in which case
    /// the caller hands the tree over with [`AstCache::store`].
    pub fn begin(&mut self, source: &str, caching: bool) -> (parse: bool)
        ensures
            (final(self)@, parse) == begun(old(self)@, source@, caching),
    {
        let key = String::from_str(source);
        let same = match &self.current {
            Some(s) => *s == key,
            None => false,
        };
        if same && self.store.contains_key(source) {
            return false;
        }
        if !caching {
            self.store = TextMap::new();
            self.current = Some(key);
            return true;
        }
        let known = self.store.contains_key(source);
        self.current = Some(key);
        !known
    }

    /// Keeps `tree` as the parse of the text being shown.
    pub fn store(&mut self, tree: T)
        ensures
            final(self)@ == stored(old(self)@, tree),
    {
        match &self.current {
            Some(s) => {
                self.store.insert(s.as_str(), tree);
            },
            None => {},
        }
    }

    /// The tree of the text being shown, once it is kept.
    pub fn current(&self) -> (r: Option<&T>)
        ensures
            match r {
                Some(t) => self@.current matches Some(s) && self@.store.contains_key(s) && *t
                    == self@.store[s],
                None => !(self@.current matches Some(s) && self@.store.contains_key(s)),
            },
    {
        match &self.current {
            Some(s) => self.store.get(s.as_str()),
            None => None,
        }
    }
}

/// With caching, showing a text `a`, then another text `b`, then `a` again
/// parses `a` only once: the third showing is served from the cache.
pub proof fn lemma_cache_serves_return<T>(c: CacheView<T>, a: Seq<char>, b: Seq<char>, ta: T, tb: T)
    requires
        a != b,
    ensures
        ({
            let c2 = stored(begun(c, a, true).0, ta);
            let c4 = stored(begun(c2, b, true).0, tb);
            !begun(c4, a, true).1
        }),
{
}

/// Without caching, showing a text `a`, then another text `b`, then `a`
/// again from an empty cache parses every time.
pub proof fn lemma_no_cache_parses_each<T>(a: Seq<char>, b: Seq<char>, ta: T, tb: T)
    requires
        a != b,
    ensures
        ({
            let (c1, p1) = begun(fresh_cache::<T>(), a, false);
            let (c3, p2) = begun(stored(c1, ta), b, false);
            let (_, p3) = begun(stored(c3, tb), a, false);
            p1 && p2 && p3
        }),
{
}

} // verus!
