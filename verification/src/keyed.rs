//! A small map from string keys to values, kept as a list of pairs with
//! distinct keys in insertion order.
use vstd::prelude::*;
use crate::text::{owned, str_eq};

verus! {

/// Entry `i` of `s` has key `k`.
pub open spec fn key_at<V>(s: Seq<(String, V)>, k: Seq<char>, i: int) -> bool {
    0 <= i < s.len() && s[i].0@ == k
}

/// No key occurs twice.
pub open spec fn distinct_keys<V>(s: Seq<(String, V)>) -> bool {
    forall|i: int, j: int| key_at(s, s[i].0@, j) && 0 <= i < s.len() ==> i == j
}

/// The pairs as a map.
pub open spec fn pairs_map<V>(s: Seq<(String, V)>) -> Map<Seq<char>, V> {
    Map::new(
        |k: Seq<char>| exists|i: int| key_at(s, k, i),
        |k: Seq<char>| s[choose|i: int| key_at(s, k, i)].1,
    )
}

pub proof fn lemma_pairs_lookup<V>(s: Seq<(String, V)>, i: int)
    requires
        distinct_keys(s),
        0 <= i < s.len(),
    ensures
        pairs_map(s).contains_key(s[i].0@),
        pairs_map(s)[s[i].0@] == s[i].1,
{
    assert(key_at(s, s[i].0@, i));
    let k = choose|k: int| key_at(s, s[i].0@, k);
    assert(key_at(s, s[k].0@, i));
}

pub proof fn lemma_pairs_update<V>(s: Seq<(String, V)>, i: int, e: (String, V))
    requires
        distinct_keys(s),
        0 <= i < s.len(),
        e.0@ == s[i].0@,
    ensures
        distinct_keys(s.update(i, e)),
        pairs_map(s.update(i, e)) == pairs_map(s).insert(e.0@, e.1),
{
    let t = s.update(i, e);
    assert forall|a: int, b: int| key_at(t, t[a].0@, b) && 0 <= a < t.len() implies a == b by {
        assert(key_at(s, s[a].0@, b));
    }
    let m = pairs_map(s).insert(e.0@, e.1);
    assert forall|k: Seq<char>| #[trigger] pairs_map(t).contains_key(k) == m.contains_key(k) by {
        if m.contains_key(k) && k != e.0@ {
            let j = choose|j: int| key_at(s, k, j);
            assert(key_at(t, k, j));
        }
        if k == e.0@ {
            assert(key_at(t, k, i));
        }
        if pairs_map(t).contains_key(k) {
            let j = choose|j: int| key_at(t, k, j);
            if k != e.0@ {
                assert(key_at(s, k, j));
            }
        }
    }
    assert forall|k: Seq<char>| #[trigger] pairs_map(t).contains_key(k) implies pairs_map(t)[k] == m[k] by {
        let j = choose|j: int| key_at(t, k, j);
        assert(key_at(t, k, j));
        if k == e.0@ {
            assert(key_at(s, s[i].0@, j));
        } else {
            assert(key_at(s, k, j));
            lemma_pairs_lookup(s, j);
        }
    }
    assert(pairs_map(t) =~= m);
}

pub proof fn lemma_pairs_push<V>(s: Seq<(String, V)>, e: (String, V))
    requires
        distinct_keys(s),
        !pairs_map(s).contains_key(e.0@),
    ensures
        distinct_keys(s.push(e)),
        pairs_map(s.push(e)) == pairs_map(s).insert(e.0@, e.1),
{
    let t = s.push(e);
    assert forall|a: int, b: int| key_at(t, t[a].0@, b) && 0 <= a < t.len() implies a == b by {
        if a < s.len() && b < s.len() {
            assert(key_at(s, s[a].0@, b));
        } else if a < s.len() {
            assert(key_at(s, e.0@, a));
        } else if b < s.len() {
            assert(key_at(s, e.0@, b));
        }
    }
    let m = pairs_map(s).insert(e.0@, e.1);
    assert forall|k: Seq<char>| #[trigger] pairs_map(t).contains_key(k) == m.contains_key(k) by {
        if m.contains_key(k) {
            if k == e.0@ {
                assert(key_at(t, k, s.len() as int));
            } else {
                let j = choose|j: int| key_at(s, k, j);
                assert(key_at(t, k, j));
            }
        }
        if pairs_map(t).contains_key(k) {
            let j = choose|j: int| key_at(t, k, j);
            if j < s.len() {
                assert(key_at(s, k, j));
            }
        }
    }
    assert forall|k: Seq<char>| #[trigger] pairs_map(t).contains_key(k) implies pairs_map(t)[k] == m[k] by {
        let j = choose|j: int| key_at(t, k, j);
        assert(key_at(t, k, j));
        if k == e.0@ {
            if j < s.len() {
                assert(key_at(s, e.0@, j));
            }
        } else {
            assert(key_at(s, k, j));
            lemma_pairs_lookup(s, j);
        }
    }
    assert(pairs_map(t) =~= m);
}

pub proof fn lemma_pairs_remove<V>(s: Seq<(String, V)>, i: int)
    requires
        distinct_keys(s),
        0 <= i < s.len(),
    ensures
        distinct_keys(s.remove(i)),
        pairs_map(s.remove(i)) == pairs_map(s).remove(s[i].0@),
{
    let t = s.remove(i);
    let gone = s[i].0@;
    assert forall|a: int, b: int| key_at(t, t[a].0@, b) && 0 <= a < t.len() implies a == b by {
        let sa = if a < i { a } else { a + 1 };
        let sb = if b < i { b } else { b + 1 };
        assert(t[a] == s[sa]);
        assert(t[b] == s[sb]);
        assert(key_at(s, s[sa].0@, sb));
    }
    let m = pairs_map(s).remove(gone);
    assert forall|k: Seq<char>| #[trigger] pairs_map(t).contains_key(k) == m.contains_key(k) by {
        if m.contains_key(k) {
            let j = choose|j: int| key_at(s, k, j);
            assert(j != i);
            let tj = if j < i { j } else { j - 1 };
            assert(t[tj] == s[j]);
            assert(key_at(t, k, tj));
        }
        if pairs_map(t).contains_key(k) {
            let j = choose|j: int| key_at(t, k, j);
            let sj = if j < i { j } else { j + 1 };
            assert(t[j] == s[sj]);
            assert(key_at(s, k, sj));
            if k == gone {
                assert(key_at(s, s[i].0@, sj));
            }
        }
    }
    assert forall|k: Seq<char>| #[trigger] pairs_map(t).contains_key(k) implies pairs_map(t)[k] == m[k] by {
        let j = choose|j: int| key_at(t, k, j);
        assert(key_at(t, k, j));
        let sj = if j < i { j } else { j + 1 };
        assert(t[j] == s[sj]);
        assert(key_at(s, k, sj));
        lemma_pairs_lookup(s, sj);
    }
    assert(pairs_map(t) =~= m);
}

/// With distinct keys the map has one entry per pair.
pub proof fn lemma_pairs_len<V>(s: Seq<(String, V)>)
    requires
        distinct_keys(s),
    ensures
        pairs_map(s).dom().finite(),
        pairs_map(s).len() == s.len(),
    decreases s.len(),
{
    if s.len() == 0 {
        assert(pairs_map(s) =~= Map::<Seq<char>, V>::empty());
    } else {
        let init = s.drop_last();
        let e = s.last();
        assert forall|a: int, b: int| key_at(init, init[a].0@, b) && 0 <= a < init.len() implies a == b by {
            assert(key_at(s, s[a].0@, b));
        }
        lemma_pairs_len(init);
        if pairs_map(init).contains_key(e.0@) {
            let k = choose|k: int| key_at(init, e.0@, k);
            assert(key_at(s, s[s.len() - 1].0@, k));
        }
        lemma_pairs_push(init, e);
        assert(init.push(e) =~= s);
    }
}

/// String keys and their values; each key at most once.
pub struct Keyed<V> {
    entries: Vec<(String, V)>,
}

impl<V> Keyed<V> {
    /// The pairs as a map.
    pub closed spec fn view(&self) -> Map<Seq<char>, V> {
        pairs_map(self.entries@)
    }

    /// The pairs in the order their keys were first inserted.
    pub closed spec fn pairs(&self) -> Seq<(String, V)> {
        self.entries@
    }

    /// No key is held twice.
    pub closed spec fn wf(&self) -> bool {
        distinct_keys(self.entries@)
    }

    /// An empty map.
    pub fn new() -> (r: Self)
        ensures
            r.wf(),
            r.view() == Map::<Seq<char>, V>::empty(),
    {
        let r = Keyed { entries: Vec::new() };
        assert(r.view() =~= Map::<Seq<char>, V>::empty());
        r
    }

    /// The number of keys held.
    pub fn len(&self) -> (r: usize)
        requires
            self.wf(),
        ensures
            r == self.view().len(),
    {
        proof {
            lemma_pairs_len(self.entries@);
        }
        self.entries.len()
    }

    /// Where `key` is held.
    fn position(&self, key: &str) -> (r: Option<usize>)
        requires
            self.wf(),
        ensures
            r matches Some(i) ==> key_at(self.entries@, key@, i as int),
            r is None <==> !self.view().contains_key(key@),
    {
        let mut i: usize = 0;
        while i < self.entries.len()
            invariant
                i <= self.entries@.len(),
                forall|l: int| 0 <= l < i ==> self.entries@[l].0@ != key@,
            decreases self.entries@.len() - i,
        {
            if str_eq(self.entries[i].0.as_str(), key) {
                proof {
                    assert(key_at(self.entries@, key@, i as int));
                }
                return Some(i);
            }
            i = i + 1;
        }
        proof {
            if self.view().contains_key(key@) {
                let k = choose|k: int| key_at(self.entries@, key@, k);
                assert(self.entries@[k].0@ == key@);
            }
        }
        None
    }

    /// The value held for `key`.
    pub fn get(&self, key: &str) -> (r: Option<&V>)
        requires
            self.wf(),
        ensures
            r matches Some(v) ==> self.view().contains_key(key@) && self.view()[key@] == *v,
            r is None <==> !self.view().contains_key(key@),
    {
        match self.position(key) {
            Some(i) => {
                proof {
                    lemma_pairs_lookup(self.entries@, i as int);
                }
                Some(&self.entries[i].1)
            },
            None => None,
        }
    }

    /// Holds `value` for `key`, replacing what it held before.
    pub fn insert(&mut self, key: &str, value: V)
        requires
            old(self).wf(),
        ensures
            final(self).wf(),
            final(self).view() == old(self).view().insert(key@, value),
    {
        let e = (owned(key), value);
        match self.position(key) {
            Some(i) => {
                proof {
                    lemma_pairs_update(self.entries@, i as int, e);
                }
                self.entries.set(i, e);
            },
            None => {
                proof {
                    lemma_pairs_push(self.entries@, e);
                }
                self.entries.push(e);
            },
        }
    }

    /// Drops `key`.
    pub fn remove(&mut self, key: &str)
        requires
            old(self).wf(),
        ensures
            final(self).wf(),
            final(self).view() == old(self).view().remove(key@),
    {
        match self.position(key) {
            Some(i) => {
                proof {
                    lemma_pairs_remove(self.entries@, i as int);
                }
                self.entries.remove(i);
            },
            None => {
                assert(self.view().remove(key@) =~= self.view());
            },
        }
    }

    /// The pairs, for reading.
    pub fn entries(&self) -> (r: &Vec<(String, V)>)
        ensures
            r@ == self.pairs(),
    {
        &self.entries
    }

    pub proof fn lemma_pairs_view(&self)
        requires
            self.wf(),
        ensures
            distinct_keys(self.pairs()),
            pairs_map(self.pairs()) == self.view(),
    {
    }
}

} // verus!
