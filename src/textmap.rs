//! A map from texts to values, kept as a vector of entries.
use vstd::prelude::*;

verus! {

/// The value of the first entry named `name` among `entries[i..]`.
pub open spec fn lookup_from<C>(entries: Seq<(String, C)>, name: Seq<char>, i: int) -> Option<C>
    decreases entries.len() - i,
{
    if i < 0 || i >= entries.len() {
        None
    } else if entries[i].0@ == name {
        Some(entries[i].1)
    } else {
        lookup_from(entries, name, i + 1)
    }
}

/// Values by text.
#[derive(Clone)]
pub struct TextMap<C> {
    entries: Vec<(String, C)>,
}

impl<C> View for TextMap<C> {
    type V = Map<Seq<char>, C>;

    closed spec fn view(&self) -> Map<Seq<char>, C> {
        Map::new(
            |n: Seq<char>| lookup_from(self.entries@, n, 0) is Some,
            |n: Seq<char>| lookup_from(self.entries@, n, 0)->0,
        )
    }
}

proof fn lemma_lookup_skip<C>(entries: Seq<(String, C)>, name: Seq<char>, i: int)
    requires
        0 <= i <= entries.len(),
        forall|j: int| 0 <= j < i ==> (#[trigger] entries[j]).0@ != name,
    ensures
        lookup_from(entries, name, 0) == lookup_from(entries, name, i),
    decreases i,
{
    if i > 0 {
        lemma_lookup_skip(entries, name, i - 1);
    }
}

proof fn lemma_lookup_update<C>(entries: Seq<(String, C)>, name: Seq<char>, i: int, e: (String, C), k: int)
    requires
        0 <= i < entries.len(),
        0 <= k <= entries.len(),
        e.0@ == entries[i].0@,
        forall|j: int| 0 <= j < i ==> (#[trigger] entries[j]).0@ != entries[i].0@,
    ensures
        lookup_from(entries.update(i, e), name, k) == if k <= i && entries[i].0@ == name {
            Some(e.1)
        } else {
            lookup_from(entries, name, k)
        },
    decreases entries.len() - k,
{
    let u = entries.update(i, e);
    if k < entries.len() {
        lemma_lookup_update(entries, name, i, e, k + 1);
        if k != i {
            assert(u[k] == entries[k]);
        }
    }
}

proof fn lemma_lookup_push<C>(entries: Seq<(String, C)>, name: Seq<char>, e: (String, C), k: int)
    requires
        0 <= k <= entries.len(),
        forall|j: int| 0 <= j < entries.len() ==> (#[trigger] entries[j]).0@ != e.0@,
    ensures
        lookup_from(entries.push(e), name, k) == if name == e.0@ {
            Some(e.1)
        } else {
            lookup_from(entries, name, k)
        },
    decreases entries.len() - k,
{
    let p = entries.push(e);
    if k < entries.len() {
        assert(p[k] == entries[k]);
        lemma_lookup_push(entries, name, e, k + 1);
    } else {
        assert(p[k] == e);
        assert(lookup_from(p, name, k + 1) == None::<C>);
    }
}

proof fn lemma_lookup_some<C>(entries: Seq<(String, C)>, name: Seq<char>, i: int)
    requires
        0 <= i <= entries.len(),
    ensures
        lookup_from(entries, name, i) is Some <==> exists|j: int|
            i <= j < entries.len() && (#[trigger] entries[j]).0@ == name,
    decreases entries.len() - i,
{
    if i < entries.len() {
        lemma_lookup_some(entries, name, i + 1);
        if lookup_from(entries, name, i + 1) is Some {
            let j = choose|j: int| i + 1 <= j < entries.len() && (#[trigger] entries[j]).0@ == name;
            assert(i <= j < entries.len() && entries[j].0@ == name);
        }
    }
}

impl<C> TextMap<C> {
    /// The keys of the map.
    pub fn keys(&self) -> (r: Vec<String>)
        ensures
            forall|n: Seq<char>|
                r@.map_values(|x: String| x@).contains(n) <==> #[trigger] self@.contains_key(n),
    {
        let mut r: Vec<String> = Vec::new();
        let mut i: usize = 0;
        while i < self.entries.len()
            invariant
                i <= self.entries@.len(),
                r@.len() == i,
                forall|j: int| 0 <= j < i ==> (#[trigger] r@[j])@ == self.entries@[j].0@,
            decreases self.entries@.len() - i,
        {
            r.push(self.entries[i].0.clone());
            i = i + 1;
        }
        proof {
            assert forall|n: Seq<char>|
                r@.map_values(|x: String| x@).contains(n) <==> #[trigger] self@.contains_key(n) by {
                lemma_lookup_some(self.entries@, n, 0);
                let names = r@.map_values(|x: String| x@);
                if names.contains(n) {
                    let j = choose|j: int| 0 <= j < names.len() && #[trigger] names[j] == n;
                    assert(self.entries@[j].0@ == n);
                }
                if self@.contains_key(n) {
                    let j = choose|j: int| 0 <= j < self.entries@.len() && (#[trigger] self.entries@[j]).0@ == n;
                    assert(r@.map_values(|x: String| x@)[j] == n);
                }
            }
        }
        r
    }

    /// An empty map.
    pub fn new() -> (r: TextMap<C>)
        ensures
            r@ == Map::<Seq<char>, C>::empty(),
    {
        let r = TextMap { entries: Vec::new() };
        proof {
            assert(r@ =~= Map::<Seq<char>, C>::empty());
        }
        r
    }

    /// The index of the entry named `key`, if any.
    fn position(&self, key: &String) -> (r: Option<usize>)
        ensures
            match r {
                Some(i) => i < self.entries@.len() && self.entries@[i as int].0@ == key@
                    && lookup_from(self.entries@, key@, 0) == Some(self.entries@[i as int].1)
                    && forall|j: int| 0 <= j < i ==> (#[trigger] self.entries@[j]).0@ != key@,
                None => lookup_from(self.entries@, key@, 0) is None
                    && forall|j: int| 0 <= j < self.entries@.len() ==> (#[trigger] self.entries@[j]).0@ != key@,
            },
    {
        let mut i: usize = 0;
        while i < self.entries.len()
            invariant
                i <= self.entries@.len(),
                forall|j: int| 0 <= j < i ==> (#[trigger] self.entries@[j]).0@ != key@,
            decreases self.entries@.len() - i,
        {
            if self.entries[i].0 == *key {
                proof {
                    lemma_lookup_skip(self.entries@, key@, i as int);
                }
                return Some(i);
            }
            i = i + 1;
        }
        proof {
            lemma_lookup_skip(self.entries@, key@, i as int);
        }
        None
    }

    /// Maps `name` to `component`, in place of any earlier value.
    pub fn insert(&mut self, name: &str, component: C)
        ensures
            final(self)@ == old(self)@.insert(name@, component),
    {
        let key = String::from_str(name);
        match self.position(&key) {
            Some(i) => {
                let ghost before = self.entries@;
                self.entries.set(i, (key, component));
                proof {
                    assert forall|n: Seq<char>| #[trigger] lookup_from(self.entries@, n, 0) == if n == name@ {
                        Some(component)
                    } else {
                        lookup_from(before, n, 0)
                    } by {
                        lemma_lookup_update(before, n, i as int, (key, component), 0);
                    }
                    assert(self@ =~= old(self)@.insert(name@, component));
                }
            },
            None => {
                let ghost before = self.entries@;
                self.entries.push((key, component));
                proof {
                    assert forall|n: Seq<char>| #[trigger] lookup_from(self.entries@, n, 0) == if n == name@ {
                        Some(component)
                    } else {
                        lookup_from(before, n, 0)
                    } by {
                        lemma_lookup_push(before, n, (key, component), 0);
                    }
                    assert(self@ =~= old(self)@.insert(name@, component));
                }
            },
        }
    }

    /// Whether `name` has a value.
    pub fn contains_key(&self, name: &str) -> (r: bool)
        ensures
            r == self@.contains_key(name@),
    {
        let key = String::from_str(name);
        self.position(&key).is_some()
    }

    /// The value of `name`, if any.
    pub fn get(&self, name: &str) -> (r: Option<&C>)
        ensures
            match r {
                Some(c) => self@.contains_key(name@) && *c == self@[name@],
                None => !self@.contains_key(name@),
            },
    {
        let key = String::from_str(name);
        match self.position(&key) {
            Some(i) => Some(&self.entries[i].1),
            None => None,
        }
    }
}

} // verus!
