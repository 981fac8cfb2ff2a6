//! A set of words, compared by their characters.

use vstd::prelude::*;

use crate::text;

verus! {

/// A set of words.
#[derive(Debug, Clone, Default)]
pub struct WordSet {
    words: Vec<String>,
}

impl View for WordSet {
    type V = Set<Seq<char>>;

    closed spec fn view(&self) -> Set<Seq<char>> {
        text::views(self.words@).to_set()
    }
}

impl WordSet {
    /// The empty set.
    pub fn new() -> (r: Self)
        ensures
            r@ == Set::<Seq<char>>::empty(),
    {
        let r = WordSet { words: Vec::new() };
        assert(r@ =~= Set::<Seq<char>>::empty());
        r
    }

    /// The set of the given words.
    pub fn from_words(words: Vec<String>) -> (r: Self)
        ensures
            r@ == text::views(words@).to_set(),
    {
        WordSet { words }
    }

    /// Whether the word is in the set.
    pub fn contains(&self, word: &str) -> (r: bool)
        ensures
            r == self@.contains(word@),
    {
        let mut i: usize = 0;
        while i < self.words.len()
            invariant
                i <= self.words@.len(),
                forall|k: int| 0 <= k < i ==> (#[trigger] self.words@[k])@ != word@,
            decreases self.words@.len() - i,
        {
            if text::str_eq(self.words[i].as_str(), word) {
                assert(text::views(self.words@)[i as int] == word@);
                return true;
            }
            i = i + 1;
        }
        proof {
            let v = text::views(self.words@);
            if v.contains(word@) {
                let k = choose|k: int| 0 <= k < v.len() && v[k] == word@;
                assert(self.words@[k]@ == word@);
            }
        }
        false
    }

    /// Adds the word.
    pub fn insert(&mut self, word: String)
        ensures
            final(self)@ == old(self)@.insert(word@),
    {
        let ghost before = text::views(self.words@);
        self.words.push(word);
        let ghost after = text::views(self.words@);
        proof {
            assert(after =~= before.push(word@));
            assert forall|w: Seq<char>| after.contains(w) <==> before.contains(w) || w == word@ by {
                if before.contains(w) {
                    let k = choose|k: int| 0 <= k < before.len() && before[k] == w;
                    assert(after[k] == w);
                }
                if w == word@ {
                    assert(after[before.len() as int] == w);
                }
                if after.contains(w) && w != word@ {
                    let k = choose|k: int| 0 <= k < after.len() && after[k] == w;
                    assert(before[k] == w);
                }
            }
            assert(self@ =~= old(self)@.insert(word@));
        }
    }

    /// Takes the word out.
    pub fn remove(&mut self, word: &str)
        ensures
            final(self)@ == old(self)@.remove(word@),
    {
        let ghost first = self.words@;
        let mut i: usize = 0;
        while i < self.words.len()
            invariant
                i <= self.words@.len(),
                forall|k: int| 0 <= k < i ==> (#[trigger] self.words@[k])@ != word@,
                forall|q: Seq<char>|
                    q != word@ ==> #[trigger] text::views(self.words@).contains(q) == text::views(
                        first,
                    ).contains(q),
            decreases self.words@.len() - i,
        {
            if text::str_eq(self.words[i].as_str(), word) {
                let ghost before = self.words@;
                self.words.remove(i);
                proof {
                    let a = text::views(before);
                    let b = text::views(self.words@);
                    assert(b =~= a.remove(i as int));
                    assert forall|q: Seq<char>| q != word@ implies #[trigger] b.contains(q)
                        == text::views(first).contains(q) by {
                        if a.contains(q) {
                            let k = choose|k: int| 0 <= k < a.len() && a[k] == q;
                            if k < i {
                                assert(b[k] == q);
                            } else {
                                assert(b[k - 1] == q);
                            }
                        }
                        if b.contains(q) {
                            let k = choose|k: int| 0 <= k < b.len() && b[k] == q;
                            if k < i {
                                assert(a[k] == q);
                            } else {
                                assert(a[k + 1] == q);
                            }
                        }
                    }
                }
            } else {
                i = i + 1;
            }
        }
        proof {
            let v = text::views(self.words@);
            if v.contains(word@) {
                let k = choose|k: int| 0 <= k < v.len() && v[k] == word@;
                assert(self.words@[k]@ == word@);
            }
            assert(self@ =~= old(self)@.remove(word@));
        }
    }

    /// Whether the set has no word.
    pub fn is_empty(&self) -> (r: bool)
        ensures
            r == (self@ == Set::<Seq<char>>::empty()),
    {
        proof {
            let v = text::views(self.words@);
            if self.words@.len() > 0 {
                assert(v.contains(v[0]));
                assert(self@.contains(v[0]));
            } else {
                assert(self@ =~= Set::<Seq<char>>::empty());
            }
        }
        self.words.len() == 0
    }

    /// Whether every word of this set is in the other.
    fn within(&self, other: &WordSet) -> (r: bool)
        ensures
            r == self@.subset_of(other@),
    {
        let mut i: usize = 0;
        while i < self.words.len()
            invariant
                i <= self.words@.len(),
                forall|k: int| 0 <= k < i ==> other@.contains((#[trigger] self.words@[k])@),
            decreases self.words@.len() - i,
        {
            if !other.contains(self.words[i].as_str()) {
                assert(text::views(self.words@)[i as int] == self.words@[i as int]@);
                assert(self@.contains(self.words@[i as int]@));
                return false;
            }
            i = i + 1;
        }
        proof {
            let v = text::views(self.words@);
            assert forall|w: Seq<char>| self@.contains(w) implies other@.contains(w) by {
                let k = choose|k: int| 0 <= k < v.len() && v[k] == w;
                assert(self.words@[k]@ == w);
            }
        }
        true
    }

    /// Whether both sets hold the same words.
    pub fn same(&self, other: &WordSet) -> (r: bool)
        ensures
            r == (self@ == other@),
    {
        let r = self.within(other) && other.within(self);
        assert(r ==> self@ =~= other@);
        r
    }

    /// The same set again.
    pub fn copy(&self) -> (r: Self)
        ensures
            r@ == self@,
    {
        WordSet { words: text::clone_strings(&self.words) }
    }
}

} // verus!
