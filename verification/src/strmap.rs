//! A map from text to values, kept as a list of pairs.

use vstd::prelude::*;

verus! {

/// Pairs of a key and its value, no key twice, in the order of first insertion.
#[derive(Debug)]
pub struct StrMap<V> {
    entries: Vec<(String, V)>,
}

/// No two pairs have the same key.
pub open spec fn keys_distinct<V>(s: Seq<(String, V)>) -> bool {
    forall|i: int, j: int| 0 <= i < j < s.len() ==> #[trigger] s[i].0@ != #[trigger] s[j].0@
}

/// Some pair has key `k`.
pub open spec fn has_key<V>(s: Seq<(String, V)>, k: Seq<char>) -> bool {
    exists|i: int| 0 <= i < s.len() && #[trigger] s[i].0@ == k
}

/// The map that a list of pairs stands for.
pub open spec fn pairs_map<V>(s: Seq<(String, V)>) -> Map<Seq<char>, V> {
    Map::new(
        |k: Seq<char>| has_key(s, k),
        |k: Seq<char>| s[choose|i: int| 0 <= i < s.len() && #[trigger] s[i].0@ == k].1,
    )
}

proof fn lemma_pairs_map_at<V>(s: Seq<(String, V)>, i: int)
    requires
        keys_distinct(s),
        0 <= i < s.len(),
    ensures
        pairs_map(s).contains_key(s[i].0@),
        pairs_map(s)[s[i].0@] == s[i].1,
{
    let k = s[i].0@;
    let j = choose|j: int| 0 <= j < s.len() && #[trigger] s[j].0@ == k;
    assert(0 <= j < s.len() && s[j].0@ == k);
    assert(i == j);
}

proof fn lemma_pairs_map_push<V>(s: Seq<(String, V)>, e: (String, V))
    requires
        keys_distinct(s),
        !has_key(s, e.0@),
    ensures
        keys_distinct(s.push(e)),
        pairs_map(s.push(e)) == pairs_map(s).insert(e.0@, e.1),
{
    let t = s.push(e);
    assert(keys_distinct(t));
    assert forall|k: Seq<char>| has_key(t, k) == (has_key(s, k) || k == e.0@) by {
        if has_key(s, k) {
            let i = choose|i: int| 0 <= i < s.len() && #[trigger] s[i].0@ == k;
            assert(t[i].0@ == k);
        }
        if k == e.0@ {
            assert(t[s.len() as int].0@ == k);
        }
        if has_key(t, k) && k != e.0@ {
            let i = choose|i: int| 0 <= i < t.len() && #[trigger] t[i].0@ == k;
            assert(s[i].0@ == k);
        }
    }
    assert forall|k: Seq<char>| has_key(t, k) implies pairs_map(t)[k] == pairs_map(s).insert(
        e.0@,
        e.1,
    )[k] by {
        let i = choose|i: int| 0 <= i < t.len() && #[trigger] t[i].0@ == k;
        lemma_pairs_map_at(t, i);
        if i < s.len() {
            assert(s[i] == t[i]);
            assert(has_key(s, s[i].0@));
            lemma_pairs_map_at(s, i);
        }
    }
    assert(pairs_map(t) =~= pairs_map(s).insert(e.0@, e.1));
}

proof fn lemma_pairs_map_update<V>(s: Seq<(String, V)>, i: int, e: (String, V))
    requires
        keys_distinct(s),
        0 <= i < s.len(),
        e.0@ == s[i].0@,
    ensures
        keys_distinct(s.update(i, e)),
        pairs_map(s.update(i, e)) == pairs_map(s).insert(e.0@, e.1),
{
    let t = s.update(i, e);
    assert forall|a: int, b: int| 0 <= a < b < t.len() implies #[trigger] t[a].0@ != #[trigger] t[b].0@ by {
        assert(s[a].0@ != s[b].0@);
    }
    assert forall|k: Seq<char>| has_key(t, k) == has_key(s, k) by {
        if has_key(s, k) {
            let j = choose|j: int| 0 <= j < s.len() && #[trigger] s[j].0@ == k;
            assert(t[j].0@ == k);
        }
        if has_key(t, k) {
            let j = choose|j: int| 0 <= j < t.len() && #[trigger] t[j].0@ == k;
            assert(s[j].0@ == k);
        }
    }
    assert(has_key(s, e.0@)) by {
        assert(s[i].0@ == e.0@);
    }
    assert forall|k: Seq<char>| has_key(t, k) implies pairs_map(t)[k] == pairs_map(s).insert(
        e.0@,
        e.1,
    )[k] by {
        let j = choose|j: int| 0 <= j < t.len() && #[trigger] t[j].0@ == k;
        lemma_pairs_map_at(t, j);
        if j != i {
            assert(s[j] == t[j]);
            assert(s[j].0@ != s[i].0@);
            lemma_pairs_map_at(s, j);
        }
    }
    assert(pairs_map(t) =~= pairs_map(s).insert(e.0@, e.1));
}

proof fn lemma_pairs_map_remove<V>(s: Seq<(String, V)>, i: int)
    requires
        keys_distinct(s),
        0 <= i < s.len(),
    ensures
        keys_distinct(s.remove(i)),
        pairs_map(s.remove(i)) == pairs_map(s).remove(s[i].0@),
{
    let t = s.remove(i);
    let key = s[i].0@;
    assert forall|a: int| 0 <= a < t.len() implies #[trigger] t[a] == s[if a < i { a } else { a + 1 }] by {}
    assert forall|a: int, b: int| 0 <= a < b < t.len() implies #[trigger] t[a].0@ != #[trigger] t[b].0@ by {
        let a0 = if a < i { a } else { a + 1 };
        let b0 = if b < i { b } else { b + 1 };
        assert(s[a0].0@ != s[b0].0@);
    }
    assert forall|k: Seq<char>| has_key(t, k) == (has_key(s, k) && k != key) by {
        if has_key(s, k) && k != key {
            let j = choose|j: int| 0 <= j < s.len() && #[trigger] s[j].0@ == k;
            let j0 = if j < i { j } else { j - 1 };
            assert(t[j0].0@ == k);
        }
        if has_key(t, k) {
            let j = choose|j: int| 0 <= j < t.len() && #[trigger] t[j].0@ == k;
            let j0 = if j < i { j } else { j + 1 };
            assert(s[j0].0@ == k);
            assert(s[j0].0@ != s[i].0@);
        }
    }
    assert forall|k: Seq<char>| has_key(t, k) implies pairs_map(t)[k] == pairs_map(s)[k] by {
        let j = choose|j: int| 0 <= j < t.len() && #[trigger] t[j].0@ == k;
        let j0 = if j < i { j } else { j + 1 };
        lemma_pairs_map_at(t, j);
        assert(s[j0] == t[j]);
        lemma_pairs_map_at(s, j0);
    }
    assert(pairs_map(t) =~= pairs_map(s).remove(key));
}

impl<V> View for StrMap<V> {
    type V = Map<Seq<char>, V>;

    closed spec fn view(&self) -> Map<Seq<char>, V> {
        pairs_map(self.entries@)
    }
}

impl<V> StrMap<V> {
    #[verifier::type_invariant]
    spec fn wf(self) -> bool {
        keys_distinct(self.entries@)
    }

    /// An empty map.
    pub fn new() -> (m: StrMap<V>)
        ensures
            m@ == Map::<Seq<char>, V>::empty(),
    {
        let m = StrMap { entries: Vec::new() };
        assert(m@ =~= Map::<Seq<char>, V>::empty());
        m
    }

    /// Where `key` stands among the pairs.
    fn position(&self, key: &str) -> (r: Option<usize>)
        ensures
            match r {
                Some(i) => i < self.entries@.len() && self.entries@[i as int].0@ == key@,
                None => !has_key(self.entries@, key@),
            },
    {
        let want: String = key.to_owned();
        let n: usize = self.entries.len();
        let mut i: usize = 0;
        while i < n
            invariant
                i <= n,
                n == self.entries@.len(),
                want@ == key@,
                forall|j: int| 0 <= j < i ==> #[trigger] self.entries@[j].0@ != key@,
            decreases n - i,
        {
            if self.entries[i].0 == want {
                return Some(i);
            }
            i += 1;
        }
        None
    }

    /// The value under `key`.
    pub fn get(&self, key: &str) -> (r: Option<&V>)
        ensures
            match r {
                Some(v) => self@.contains_key(key@) && *v == self@[key@],
                None => !self@.contains_key(key@),
            },
    {
        proof {
            use_type_invariant(self);
        }
        match self.position(key) {
            Some(i) => {
                proof {
                    lemma_pairs_map_at(self.entries@, i as int);
                }
                Some(&self.entries[i].1)
            },
            None => None,
        }
    }

    /// Whether there is a value under `key`.
    pub fn contains_key(&self, key: &str) -> (r: bool)
        ensures
            r == self@.contains_key(key@),
    {
        self.get(key).is_some()
    }

    /// Put `value` under `key`, in place of what was there.
    pub fn insert(&mut self, key: String, value: V)
        ensures
            final(self)@ == old(self)@.insert(key@, value),
    {
        proof {
            use_type_invariant(&*self);
        }
        let at = self.position(key.as_str());
        let mut entries: Vec<(String, V)> = Vec::new();
        std::mem::swap(&mut entries, &mut self.entries);
        match at {
            Some(i) => {
                proof {
                    lemma_pairs_map_update(entries@, i as int, (key, value));
                }
                entries.set(i, (key, value));
            },
            None => {
                proof {
                    lemma_pairs_map_push(entries@, (key, value));
                }
                entries.push((key, value));
            },
        }
        self.entries = entries;
    }

    /// Take out what is under `key`.
    pub fn remove(&mut self, key: &str) -> (r: Option<V>)
        ensures
            final(self)@ == old(self)@.remove(key@),
            match r {
                Some(v) => old(self)@.contains_key(key@) && v == old(self)@[key@],
                None => !old(self)@.contains_key(key@),
            },
    {
        proof {
            use_type_invariant(&*self);
        }
        match self.position(key) {
            Some(i) => {
                let mut entries: Vec<(String, V)> = Vec::new();
                std::mem::swap(&mut entries, &mut self.entries);
                proof {
                    lemma_pairs_map_at(entries@, i as int);
                    lemma_pairs_map_remove(entries@, i as int);
                }
                let (_, v) = entries.remove(i);
                self.entries = entries;
                Some(v)
            },
            None => {
                assert(self@ =~= self@.remove(key@));
                None
            },
        }
    }

    /// The pairs, no key twice.
    pub(crate) fn pairs(&self) -> (r: &Vec<(String, V)>)
        ensures
            keys_distinct(r@),
            pairs_map(r@) == self@,
    {
        proof {
            use_type_invariant(self);
        }
        &self.entries
    }

    /// A map of pairs that have no key twice.
    pub(crate) fn of_pairs(entries: Vec<(String, V)>) -> (r: StrMap<V>)
        requires
            keys_distinct(entries@),
        ensures
            r@ == pairs_map(entries@),
    {
        StrMap { entries }
    }

    /// The keys, each once.
    pub fn keys(&self) -> (r: Vec<String>)
        ensures
            crate::jobs::texts(r@).no_duplicates(),
            crate::jobs::texts(r@).to_set() == self@.dom(),
    {
        proof {
            use_type_invariant(self);
        }
        let n: usize = self.entries.len();
        let mut r: Vec<String> = Vec::new();
        let mut i: usize = 0;
        while i < n
            invariant
                i <= n,
                n == self.entries@.len(),
                r@.len() == i,
                forall|j: int| 0 <= j < i ==> #[trigger] r@[j] == self.entries@[j].0,
            decreases n - i,
        {
            r.push(self.entries[i].0.clone());
            i += 1;
        }
        proof {
            let t = crate::jobs::texts(r@);
            let s = self.entries@;
            assert forall|a: int, b: int| 0 <= a < t.len() && 0 <= b < t.len() && a != b implies t[a] != t[b] by {
                if a < b {
                    assert(s[a].0@ != s[b].0@);
                } else {
                    assert(s[b].0@ != s[a].0@);
                }
            }
            assert forall|k: Seq<char>| t.to_set().contains(k) == self@.dom().contains(k) by {
                if t.contains(k) {
                    let a = choose|a: int| 0 <= a < t.len() && t[a] == k;
                    assert(s[a].0@ == k);
                }
                if has_key(s, k) {
                    let a = choose|a: int| 0 <= a < s.len() && #[trigger] s[a].0@ == k;
                    assert(t[a] == k);
                }
            }
            assert(t.to_set() =~= self@.dom());
        }
        r
    }
}

} // verus!
