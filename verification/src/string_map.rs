//! A map from texts, compared by their characters.

use vstd::prelude::*;

use crate::text;

verus! {

/// A map from texts.
#[derive(Debug)]
pub struct StringMap<V> {
    entries: Vec<(String, V)>,
}

/// The value of the first entry at or after `i` with the key.
pub closed spec fn lookup<V>(entries: Seq<(String, V)>, key: Seq<char>, i: int) -> Option<V>
    decreases entries.len() - i,
{
    if i < 0 || i >= entries.len() {
        None
    } else if entries[i].0@ == key {
        Some(entries[i].1)
    } else {
        lookup(entries, key, i + 1)
    }
}

impl<V> View for StringMap<V> {
    type V = Map<Seq<char>, V>;

    closed spec fn view(&self) -> Map<Seq<char>, V> {
        Map::new(
            |k: Seq<char>| lookup(self.entries@, k, 0) is Some,
            |k: Seq<char>| lookup(self.entries@, k, 0)->0,
        )
    }
}

/// An entry that is taken out matters to its own key alone.
proof fn lemma_remove<V>(s: Seq<(String, V)>, i: int, key: Seq<char>, j: int)
    requires
        0 <= i < s.len(),
        s[i].0@ != key,
        0 <= j,
    ensures
        j <= i ==> lookup(s.remove(i), key, j) == lookup(s, key, j),
        j >= i ==> lookup(s.remove(i), key, j) == lookup(s, key, j + 1),
    decreases s.len() - j,
{
    if j < s.len() {
        lemma_remove(s, i, key, j + 1);
    }
}

/// An entry at the end counts where none before it has its key.
proof fn lemma_push<V>(s: Seq<(String, V)>, e: (String, V), key: Seq<char>, j: int)
    requires
        0 <= j <= s.len(),
    ensures
        lookup(s.push(e), key, j) == match lookup(s, key, j) {
            Some(v) => Some(v),
            None => if e.0@ == key {
                Some(e.1)
            } else {
                None
            },
        },
    decreases s.len() - j,
{
    if j < s.len() {
        lemma_push(s, e, key, j + 1);
    } else {
        assert(lookup(s.push(e), key, j + 1) is None);
    }
}

/// A key that no entry has is not found.
proof fn lemma_absent<V>(s: Seq<(String, V)>, key: Seq<char>, j: int)
    requires
        0 <= j,
        forall|k: int| j <= k < s.len() ==> (#[trigger] s[k]).0@ != key,
    ensures
        lookup(s, key, j) is None,
    decreases s.len() - j,
{
    if j < s.len() {
        lemma_absent(s, key, j + 1);
    }
}

/// A key that is not found is that of no entry.
proof fn lemma_not_found<V>(s: Seq<(String, V)>, key: Seq<char>, j: int, i: int)
    requires
        0 <= j <= i < s.len(),
        lookup(s, key, j) is None,
    ensures
        s[i].0@ != key,
    decreases i - j,
{
    if j < i {
        lemma_not_found(s, key, j + 1, i);
    }
}

/// A key that is found is that of some entry.
proof fn lemma_found<V>(s: Seq<(String, V)>, key: Seq<char>, j: int) -> (i: int)
    requires
        0 <= j,
        lookup(s, key, j) is Some,
    ensures
        j <= i < s.len(),
        s[i].0@ == key,
    decreases s.len() - j,
{
    if s[j].0@ == key {
        j
    } else {
        lemma_found(s, key, j + 1)
    }
}

impl<V> StringMap<V> {
    /// The empty map.
    pub fn new() -> (r: Self)
        ensures
            r@ == Map::<Seq<char>, V>::empty(),
    {
        let r = StringMap { entries: Vec::new() };
        assert(r@ =~= Map::<Seq<char>, V>::empty());
        r
    }

    /// What the key is mapped to.
    pub fn get(&self, key: &str) -> (r: Option<&V>)
        ensures
            match r {
                Some(v) => self@.contains_key(key@) && *v == self@[key@],
                None => !self@.contains_key(key@),
            },
    {
        let mut i: usize = 0;
        while i < self.entries.len()
            invariant
                i <= self.entries@.len(),
                lookup(self.entries@, key@, 0) == lookup(self.entries@, key@, i as int),
            decreases self.entries@.len() - i,
        {
            if text::str_eq(self.entries[i].0.as_str(), key) {
                return Some(&self.entries[i].1);
            }
            i = i + 1;
        }
        None
    }

    /// The keys.
    pub fn keys(&self) -> (r: Vec<String>)
        ensures
            forall|k: Seq<char>| #[trigger] self@.contains_key(k) <==> text::views(r@).contains(k),
    {
        let mut r: Vec<String> = Vec::new();
        let mut i: usize = 0;
        while i < self.entries.len()
            invariant
                i <= self.entries@.len(),
                r@.len() == i,
                forall|k: int| 0 <= k < i ==> (#[trigger] r@[k])@ == self.entries@[k].0@,
            decreases self.entries@.len() - i,
        {
            r.push(self.entries[i].0.clone());
            i = i + 1;
        }
        proof {
            assert forall|k: Seq<char>| #[trigger] self@.contains_key(k) implies text::views(
                r@,
            ).contains(k) by {
                let at = lemma_found(self.entries@, k, 0);
                assert(text::views(r@)[at] == k);
            }
            assert forall|k: Seq<char>| text::views(r@).contains(k) implies #[trigger] self@.contains_key(
                k,
            ) by {
                let at = choose|n: int| 0 <= n < text::views(r@).len() && text::views(r@)[n] == k;
                assert(r@[at]@ == self.entries@[at].0@);
                if lookup(self.entries@, k, 0) is None {
                    lemma_not_found(self.entries@, k, 0, at);
                }
            }
        }
        r
    }

    /// Whether the map has the key.
    pub fn contains_key(&self, key: &str) -> (r: bool)
        ensures
            r == self@.contains_key(key@),
    {
        self.get(key).is_some()
    }

    /// Takes the key out.
    pub fn remove(&mut self, key: &str)
        ensures
            final(self)@ == old(self)@.remove(key@),
    {
        let ghost first = self.entries@;
        let mut i: usize = 0;
        while i < self.entries.len()
            invariant
                i <= self.entries@.len(),
                forall|k: int| 0 <= k < i ==> (#[trigger] self.entries@[k]).0@ != key@,
                forall|q: Seq<char>|
                    q != key@ ==> #[trigger] lookup(self.entries@, q, 0) == lookup(first, q, 0),
            decreases self.entries@.len() - i,
        {
            if text::str_eq(self.entries[i].0.as_str(), key) {
                let ghost before = self.entries@;
                self.entries.remove(i);
                proof {
                    assert(self.entries@ =~= before.remove(i as int));
                    assert forall|q: Seq<char>| q != key@ implies #[trigger] lookup(
                        self.entries@,
                        q,
                        0,
                    ) == lookup(first, q, 0) by {
                        lemma_remove(before, i as int, q, 0);
                        assert(lookup(before, q, 0) == lookup(first, q, 0));
                    }
                }
            } else {
                i = i + 1;
            }
        }
        proof {
            lemma_absent(self.entries@, key@, 0);
            let old_view = old(self)@;
            assert forall|q: Seq<char>| #[trigger] self@.contains_key(q) == old_view.remove(
                key@,
            ).contains_key(q) by {
                if q != key@ {
                    assert(lookup(self.entries@, q, 0) == lookup(first, q, 0));
                }
            }
            assert forall|q: Seq<char>| self@.contains_key(q) implies #[trigger] self@[q]
                == old_view.remove(key@)[q] by {
                assert(lookup(self.entries@, q, 0) == lookup(first, q, 0));
            }
            assert(self@ =~= old_view.remove(key@));
        }
    }

    /// Maps the key to the value.
    pub fn insert(&mut self, key: String, value: V)
        ensures
            final(self)@ == old(self)@.insert(key@, value),
    {
        let ghost old_view = self@;
        self.remove(key.as_str());
        let ghost before = self.entries@;
        let ghost k = key@;
        assert(lookup(before, k, 0) is None) by {
            assert(!self@.contains_key(k));
        }
        let ghost bare = self@;
        self.entries.push((key, value));
        proof {
            assert(self.entries@ =~= before.push((key, value)));
            assert forall|q: Seq<char>| #[trigger] self@.contains_key(q) == old_view.insert(
                k,
                value,
            ).contains_key(q) by {
                lemma_push(before, (key, value), q, 0);
                assert(bare.contains_key(q) == (lookup(before, q, 0) is Some));
            }
            assert forall|q: Seq<char>| self@.contains_key(q) implies #[trigger] self@[q]
                == old_view.insert(k, value)[q] by {
                lemma_push(before, (key, value), q, 0);
                if q != k {
                    assert(bare.contains_key(q));
                    assert(bare[q] == lookup(before, q, 0)->0);
                }
            }
            assert(self@ =~= old_view.insert(k, value));
        }
    }
}

impl<V> Default for StringMap<V> {
    fn default() -> (r: Self)
        ensures
            r@ == Map::<Seq<char>, V>::empty(),
    {
        Self::new()
    }
}

} // verus!
