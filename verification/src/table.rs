//! A finite map from text keys to text values, the shape of the maps a
//! generated record keeps (its data, its changes and its errors).
//!
//! Entries are kept in a vector; no key occurs twice.

use vstd::prelude::*;

verus! {

/// The map that a sequence of entries denotes, the later entry winning.
pub open spec fn map_of(s: Seq<(String, String)>) -> Map<Seq<char>, Seq<char>>
    decreases s.len(),
{
    if s.len() == 0 {
        Map::empty()
    } else {
        map_of(s.drop_last()).insert(s.last().0@, s.last().1@)
    }
}

/// No key occurs twice among the entries.
pub open spec fn keys_distinct(s: Seq<(String, String)>) -> bool {
    forall|i: int, j: int| 0 <= i < j < s.len() ==> s[i].0@ != s[j].0@
}

/// With distinct keys, the map holds exactly the entries' keys, each with its
/// entry's value.
pub proof fn lemma_map_of(s: Seq<(String, String)>)
    requires
        keys_distinct(s),
    ensures
        forall|k: Seq<char>| #[trigger]
            map_of(s).contains_key(k) <==> exists|i: int| 0 <= i < s.len() && s[i].0@ == k,
        forall|i: int| 0 <= i < s.len() ==> #[trigger] map_of(s)[s[i].0@] == s[i].1@,
        map_of(s).dom().finite(),
        map_of(s).dom().len() == s.len(),
    decreases s.len(),
{
    if s.len() > 0 {
        let t = s.drop_last();
        assert(keys_distinct(t));
        lemma_map_of(t);
        let n = s.len() - 1;
        assert forall|k: Seq<char>| #[trigger]
            map_of(s).contains_key(k) <==> exists|i: int| 0 <= i < s.len() && s[i].0@ == k by {
            if map_of(s).contains_key(k) && k != s.last().0@ {
                assert(map_of(t).contains_key(k));
                let i = choose|i: int| 0 <= i < t.len() && t[i].0@ == k;
                assert(s[i].0@ == k);
            }
            if exists|i: int| 0 <= i < s.len() && s[i].0@ == k {
                let i = choose|i: int| 0 <= i < s.len() && s[i].0@ == k;
                if i < n {
                    assert(t[i].0@ == k);
                }
            }
        }
        assert forall|i: int| 0 <= i < s.len() implies #[trigger] map_of(s)[s[i].0@] == s[i].1@ by {
            if i < n {
                assert(t[i] == s[i]);
                assert(s[i].0@ != s[n].0@);
            }
        }
        assert(!map_of(t).contains_key(s.last().0@)) by {
            if map_of(t).contains_key(s.last().0@) {
                let i = choose|i: int| 0 <= i < t.len() && t[i].0@ == s.last().0@;
                assert(s[i].0@ == s[n].0@);
            }
        }
    }
}

/// A map from text keys to text values.
pub struct Table {
    entries: Vec<(String, String)>,
}

impl View for Table {
    type V = Map<Seq<char>, Seq<char>>;

    closed spec fn view(&self) -> Map<Seq<char>, Seq<char>> {
        map_of(self.entries@)
    }
}

impl Table {
    #[verifier::type_invariant]
    spec fn well_formed(self) -> bool {
        keys_distinct(self.entries@)
    }

    /// The position of `key` among the entries, if it is there.
    fn position(&self, key: &String) -> (r: Option<usize>)
        ensures
            match r {
                Some(i) => i < self.entries@.len() && self.entries@[i as int].0@ == key@,
                None => forall|i: int|
                    0 <= i < self.entries@.len() ==> self.entries@[i].0@ != key@,
            },
    {
        let n = self.entries.len();
        let mut i: usize = 0;
        while i < n
            invariant
                n == self.entries@.len(),
                i <= n,
                forall|j: int| 0 <= j < i ==> self.entries@[j].0@ != key@,
            decreases n - i,
        {
            if self.entries[i].0 == *key {
                return Some(i);
            }
            i = i + 1;
        }
        None
    }

    /// The empty map.
    pub fn new() -> (r: Table)
        ensures
            r@ == Map::<Seq<char>, Seq<char>>::empty(),
    {
        Table { entries: Vec::new() }
    }

    /// The number of keys.
    pub fn len(&self) -> (r: usize)
        ensures
            r == self@.dom().len(),
            self@.dom().finite(),
    {
        proof {
            use_type_invariant(self);
            lemma_map_of(self.entries@);
        }
        self.entries.len()
    }

    /// Whether `key` has a value.
    pub fn contains_key(&self, key: &String) -> (r: bool)
        ensures
            r == self@.contains_key(key@),
    {
        proof {
            use_type_invariant(self);
            lemma_map_of(self.entries@);
        }
        match self.position(key) {
            Some(_) => true,
            None => false,
        }
    }

    /// The value of `key`, if it has one.
    pub fn get(&self, key: &String) -> (r: Option<String>)
        ensures
            match r {
                Some(v) => self@.contains_key(key@) && v@ == self@[key@],
                None => !self@.contains_key(key@),
            },
    {
        proof {
            use_type_invariant(self);
            lemma_map_of(self.entries@);
        }
        match self.position(key) {
            Some(i) => Some(self.entries[i].1.clone()),
            None => None,
        }
    }

    /// Gives `key` the value `value`, replacing the value it had.
    pub fn insert(&mut self, key: String, value: String)
        ensures
            final(self)@ == old(self)@.insert(key@, value@),
    {
        proof {
            use_type_invariant(&*self);
            lemma_map_of(self.entries@);
        }
        let ghost before = self.entries@;
        let ghost k = key@;
        let ghost v = value@;
        match self.position(&key) {
            Some(i) => {
                let mut e: Vec<(String, String)> = Vec::new();
                std::mem::swap(&mut e, &mut self.entries);
                e.set(i, (key, value));
                proof {
                    let after = e@;
                    assert(keys_distinct(after));
                    lemma_map_of(after);
                    assert(map_of(after) =~= map_of(before).insert(k, v)) by {
                        assert forall|q: Seq<char>| #[trigger]
                            map_of(after).contains_key(q) == map_of(before).insert(k, v).contains_key(q) by {
                            assert(after[i as int].0@ == k);
                            assert(before[i as int].0@ == k);
                            if exists|j: int| 0 <= j < before.len() && before[j].0@ == q {
                                let j = choose|j: int| 0 <= j < before.len() && before[j].0@ == q;
                                if j != i {
                                    assert(after[j] == before[j]);
                                }
                            }
                            if exists|j: int| 0 <= j < after.len() && after[j].0@ == q {
                                let j = choose|j: int| 0 <= j < after.len() && after[j].0@ == q;
                                if j != i {
                                    assert(after[j] == before[j]);
                                }
                            }
                        }
                        assert forall|q: Seq<char>| #[trigger] map_of(after).contains_key(q) implies
                            map_of(after)[q] == map_of(before).insert(k, v)[q] by {
                            let j = choose|j: int| 0 <= j < after.len() && after[j].0@ == q;
                            if j != i {
                                assert(after[j] == before[j]);
                            }
                        }
                    }
                }
                self.entries = e;
            },
            None => {
                let mut e: Vec<(String, String)> = Vec::new();
                std::mem::swap(&mut e, &mut self.entries);
                e.push((key, value));
                proof {
                    let after = e@;
                    assert(after.drop_last() =~= before);
                    assert(keys_distinct(after));
                }
                self.entries = e;
            },
        }
    }

    /// Takes `key` out of the map.
    pub fn remove(&mut self, key: &String)
        ensures
            final(self)@ == old(self)@.remove(key@),
    {
        proof {
            use_type_invariant(&*self);
            lemma_map_of(self.entries@);
        }
        let ghost before = self.entries@;
        let ghost k = key@;
        match self.position(key) {
            Some(i) => {
                let mut e: Vec<(String, String)> = Vec::new();
                std::mem::swap(&mut e, &mut self.entries);
                e.remove(i);
                proof {
                    let after = e@;
                    assert(after =~= before.remove(i as int));
                    assert(keys_distinct(after)) by {
                        assert forall|a: int, b: int| 0 <= a < b < after.len() implies
                            after[a].0@ != after[b].0@ by {
                            let a2 = if a < i { a } else { a + 1 };
                            let b2 = if b < i { b } else { b + 1 };
                            assert(after[a] == before[a2]);
                            assert(after[b] == before[b2]);
                        }
                    }
                    lemma_map_of(after);
                    assert(map_of(after) =~= map_of(before).remove(k)) by {
                        assert forall|q: Seq<char>| #[trigger]
                            map_of(after).contains_key(q) == map_of(before).remove(k).contains_key(q) by {
                            if exists|j: int| 0 <= j < before.len() && before[j].0@ == q {
                                let j = choose|j: int| 0 <= j < before.len() && before[j].0@ == q;
                                if j < i {
                                    assert(after[j] == before[j]);
                                } else if j > i {
                                    assert(after[j - 1] == before[j]);
                                }
                            }
                            if exists|j: int| 0 <= j < after.len() && after[j].0@ == q {
                                let j = choose|j: int| 0 <= j < after.len() && after[j].0@ == q;
                                let j2 = if j < i { j } else { j + 1 };
                                assert(after[j] == before[j2]);
                            }
                        }
                        assert forall|q: Seq<char>| #[trigger] map_of(after).contains_key(q) implies
                            map_of(after)[q] == map_of(before).remove(k)[q] by {
                            let j = choose|j: int| 0 <= j < after.len() && after[j].0@ == q;
                            let j2 = if j < i { j } else { j + 1 };
                            assert(after[j] == before[j2]);
                        }
                    }
                }
                self.entries = e;
            },
            None => {
                assert(map_of(before) =~= map_of(before).remove(k));
            },
        }
    }

    /// The entries, each key once, in no promised order.
    pub fn entries(&self) -> (r: Vec<(String, String)>)
        ensures
            keys_distinct(r@),
            map_of(r@) == self@,
            r@.len() == self@.dom().len(),
    {
        proof {
            use_type_invariant(self);
            lemma_map_of(self.entries@);
        }
        let n = self.entries.len();
        let mut out: Vec<(String, String)> = Vec::new();
        let mut i: usize = 0;
        while i < n
            invariant
                n == self.entries@.len(),
                i <= n,
                out@ == self.entries@.subrange(0, i as int),
            decreases n - i,
        {
            let k = self.entries[i].0.clone();
            let v = self.entries[i].1.clone();
            out.push((k, v));
            proof {
                assert(out@ =~= self.entries@.subrange(0, i + 1));
            }
            i = i + 1;
        }
        assert(out@ =~= self.entries@);
        out
    }

    /// The keys, each once, in no promised order.
    pub fn keys(&self) -> (r: Vec<String>)
        ensures
            r@.len() == self@.dom().len(),
            forall|i: int| 0 <= i < r@.len() ==> #[trigger] self@.contains_key(r@[i]@),
            forall|k: Seq<char>| #[trigger] self@.contains_key(k) ==> exists|i: int|
                0 <= i < r@.len() && r@[i]@ == k,
            forall|i: int, j: int| 0 <= i < j < r@.len() ==> r@[i]@ != r@[j]@,
    {
        proof {
            use_type_invariant(self);
            lemma_map_of(self.entries@);
        }
        let n = self.entries.len();
        let mut out: Vec<String> = Vec::new();
        let mut i: usize = 0;
        while i < n
            invariant
                n == self.entries@.len(),
                i <= n,
                out@.len() == i,
                forall|j: int| 0 <= j < i ==> #[trigger] out@[j]@ == self.entries@[j].0@,
            decreases n - i,
        {
            out.push(self.entries[i].0.clone());
            i = i + 1;
        }
        proof {
            assert forall|k: Seq<char>| #[trigger] self@.contains_key(k) implies exists|i: int|
                0 <= i < out@.len() && out@[i]@ == k by {
                let j = choose|j: int| 0 <= j < self.entries@.len() && self.entries@[j].0@ == k;
                assert(out@[j]@ == k);
            }
            assert forall|i: int| 0 <= i < out@.len() implies #[trigger] self@.contains_key(out@[i]@) by {
                assert(self.entries@[i].0@ == out@[i]@);
            }
        }
        out
    }

    /// A copy of the map.
    pub fn duplicate(&self) -> (r: Table)
        ensures
            r@ == self@,
    {
        proof {
            use_type_invariant(self);
        }
        let e = self.entries();
        Table { entries: e }
    }
}

} // verus!
