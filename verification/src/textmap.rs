//! Maps keyed by text, in the order in which the keys came.

use vstd::prelude::*;
use crate::text::same;

verus! {

/// A map from texts to values. Keys keep the place at which they were first put.
#[derive(Debug)]
pub struct TextMap<V> {
    pub entries: Vec<(String, V)>,
}

/// The index of the entry with key `k`, or the length where there is none.
pub open spec fn key_index<V>(s: Seq<(Seq<char>, V)>, k: Seq<char>) -> int
    decreases s.len(),
{
    if s.len() == 0 || s[0].0 == k {
        0
    } else {
        1 + key_index(s.skip(1), k)
    }
}

/// The value under the key `k`.
pub open spec fn lookup<V>(s: Seq<(Seq<char>, V)>, k: Seq<char>) -> Option<V> {
    let i = key_index(s, k);
    if i < s.len() {
        Some(s[i].1)
    } else {
        None
    }
}

/// The map with the value `v` under the key `k`.
pub open spec fn put<V>(s: Seq<(Seq<char>, V)>, k: Seq<char>, v: V) -> Seq<(Seq<char>, V)> {
    let i = key_index(s, k);
    if i < s.len() {
        s.update(i, (k, v))
    } else {
        s.push((k, v))
    }
}

/// The map without the key `k`.
pub open spec fn without<V>(s: Seq<(Seq<char>, V)>, k: Seq<char>) -> Seq<(Seq<char>, V)> {
    let i = key_index(s, k);
    if i < s.len() {
        s.remove(i)
    } else {
        s
    }
}

/// Whether no key occurs twice.
pub open spec fn keyed<V>(s: Seq<(Seq<char>, V)>) -> bool {
    forall|i: int, j: int| 0 <= i < j < s.len() ==> (#[trigger] s[i]).0 != (#[trigger] s[j]).0
}

impl<V> View for TextMap<V> {
    type V = Seq<(Seq<char>, V)>;

    open spec fn view(&self) -> Seq<(Seq<char>, V)> {
        Seq::new(self.entries@.len(), |i: int| (self.entries@[i].0@, self.entries@[i].1))
    }
}

/// Where `key_index` points.
pub proof fn lemma_key_index<V>(s: Seq<(Seq<char>, V)>, k: Seq<char>)
    ensures
        0 <= key_index(s, k) <= s.len(),
        forall|j: int| 0 <= j < key_index(s, k) ==> (#[trigger] s[j]).0 != k,
        key_index(s, k) < s.len() ==> s[key_index(s, k)].0 == k,
    decreases s.len(),
{
    if s.len() > 0 && s[0].0 != k {
        lemma_key_index(s.skip(1), k);
        assert forall|j: int| 0 <= j < key_index(s, k) implies (#[trigger] s[j]).0 != k by {
            if j > 0 {
                assert(s.skip(1)[j - 1] == s[j]);
            }
        }
    }
}

/// What was put under a key is found there, and nothing else changes.
pub proof fn law_put_then_lookup<V>(s: Seq<(Seq<char>, V)>, k: Seq<char>, v: V, j: Seq<char>)
    ensures
        lookup(put(s, k, v), k) == Some(v),
        j != k ==> lookup(put(s, k, v), j) == lookup(s, j),
        keyed(s) ==> keyed(put(s, k, v)),
{
    let t = put(s, k, v);
    lemma_key_index(s, k);
    lemma_key_index(t, k);
    lemma_key_index(s, j);
    lemma_key_index(t, j);
    let i = key_index(s, k);
    assert(t[i] == (k, v));
    if j != k {
        let a = key_index(s, j);
        let b = key_index(t, j);
        if a < s.len() {
            assert(t[a].0 == j);
            if b < a {
                assert(s[b].0 == j);
            }
        } else if b < t.len() {
            if b < s.len() {
                assert(s[b].0 == j);
            }
        }
    }
    if keyed(s) {
        assert forall|x: int, y: int| 0 <= x < y < t.len() implies (#[trigger] t[x]).0 != (
        #[trigger] t[y]).0 by {
            if i < s.len() {
                assert(s[x].0 != s[y].0);
            } else if y < s.len() {
                assert(s[x].0 != s[y].0);
            }
        }
    }
}

/// A removed key is gone, and nothing else changes.
pub proof fn law_remove_then_lookup<V>(s: Seq<(Seq<char>, V)>, k: Seq<char>, j: Seq<char>)
    requires
        keyed(s),
    ensures
        lookup(without(s, k), k) is None,
        j != k ==> lookup(without(s, k), j) == lookup(s, j),
        keyed(without(s, k)),
{
    let t = without(s, k);
    lemma_key_index(s, k);
    lemma_key_index(t, k);
    lemma_key_index(s, j);
    lemma_key_index(t, j);
    let i = key_index(s, k);
    if i < s.len() {
        assert forall|x: int| 0 <= x < t.len() implies #[trigger] t[x] == if x < i {
            s[x]
        } else {
            s[x + 1]
        } by {}
        assert forall|x: int| 0 <= x < t.len() implies (#[trigger] t[x]).0 != k by {
            if x >= i {
                assert(s[i].0 != s[x + 1].0);
            }
        }
        if j != k {
            let a = key_index(s, j);
            let b = key_index(t, j);
            if a < s.len() {
                let m = if a < i {
                    a
                } else {
                    a - 1
                };
                assert(t[m].0 == j);
                if b < t.len() {
                    let n = if b < i {
                        b
                    } else {
                        b + 1
                    };
                    assert(s[n].0 == j);
                    if n < a {
                    } else if a < n {
                        assert(s[a].0 != s[n].0);
                    }
                }
            } else if b < t.len() {
                let n = if b < i {
                    b
                } else {
                    b + 1
                };
                assert(s[n].0 == j);
            }
        }
        assert forall|x: int, y: int| 0 <= x < y < t.len() implies (#[trigger] t[x]).0 != (
        #[trigger] t[y]).0 by {
            let p = if x < i {
                x
            } else {
                x + 1
            };
            let q = if y < i {
                y
            } else {
                y + 1
            };
            assert(s[p].0 != s[q].0);
        }
    }
}

impl<V> TextMap<V> {
    /// An empty map.
    pub fn new() -> (r: Self)
        ensures
            r@ == Seq::<(Seq<char>, V)>::empty(),
            keyed(r@),
    {
        let r = TextMap { entries: Vec::new() };
        assert(r@ =~= Seq::<(Seq<char>, V)>::empty());
        r
    }

    /// How many keys there are.
    pub fn len(&self) -> (r: usize)
        ensures
            r == self@.len(),
    {
        self.entries.len()
    }

    fn index_of(&self, k: &str) -> (r: usize)
        ensures
            r == key_index(self@, k@),
            r <= self@.len(),
    {
        let mut i: usize = 0;
        proof {
            lemma_key_index(self@, k@);
        }
        while i < self.entries.len()
            invariant
                i <= self@.len(),
                self@.len() == self.entries@.len(),
                forall|j: int| 0 <= j < i ==> (#[trigger] self@[j]).0 != k@,
                0 <= key_index(self@, k@) <= self@.len(),
                forall|j: int| 0 <= j < key_index(self@, k@) ==> (#[trigger] self@[j]).0 != k@,
                key_index(self@, k@) < self@.len() ==> self@[key_index(self@, k@)].0 == k@,
            decreases self.entries@.len() - i,
        {
            assert(self@[i as int].0 == self.entries@[i as int].0@);
            if same(self.entries[i].0.as_str(), k) {
                return i;
            }
            i = i + 1;
        }
        i
    }

    /// The value under the key `k`.
    pub fn get(&self, k: &str) -> (r: Option<&V>)
        ensures
            match r {
                Some(v) => lookup(self@, k@) == Some(*v),
                None => lookup(self@, k@) is None,
            },
    {
        let i: usize = self.index_of(k);
        if i < self.entries.len() {
            Some(&self.entries[i].1)
        } else {
            None
        }
    }

    /// Whether there is a value under the key `k`.
    pub fn contains_key(&self, k: &str) -> (r: bool)
        ensures
            r == (lookup(self@, k@) is Some),
    {
        self.index_of(k) < self.entries.len()
    }

    /// Puts the value `v` under the key `k`.
    pub fn insert(&mut self, k: String, v: V)
        ensures
            final(self)@ == put(old(self)@, k@, v),
            keyed(old(self)@) ==> keyed(final(self)@),
    {
        proof {
            law_put_then_lookup(self@, k@, v, k@);
        }
        let ghost before = self@;
        let ghost key = k@;
        let i: usize = self.index_of(k.as_str());
        if i < self.entries.len() {
            self.entries.set(i, (k, v));
            assert(self@ =~= before.update(i as int, (key, v)));
        } else {
            self.entries.push((k, v));
            assert(self@ =~= before.push((key, v)));
        }
    }

    /// Removes the key `k`.
    pub fn remove(&mut self, k: &str)
        ensures
            final(self)@ == without(old(self)@, k@),
            keyed(old(self)@) ==> keyed(final(self)@),
    {
        let ghost before = self@;
        proof {
            if keyed(before) {
                law_remove_then_lookup(before, k@, k@);
            }
        }
        let i: usize = self.index_of(k);
        if i < self.entries.len() {
            let _gone = self.entries.remove(i);
            assert(self@ =~= before.remove(i as int));
        }
    }
}

} // verus!
