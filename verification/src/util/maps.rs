//! Maps and sets keyed by strings, kept as association lists with unique keys.
use vstd::prelude::*;
use crate::util::strs::str_eq;

verus! {

pub open spec fn keys_unique<V>(s: Seq<(String, V)>) -> bool {
    forall|i: int, j: int| 0 <= i < j < s.len() ==> s[i].0@ != s[j].0@
}

/// The map that an association list denotes.
pub open spec fn to_map<V>(s: Seq<(String, V)>) -> Map<Seq<char>, V>
    decreases s.len(),
{
    if s.len() == 0 {
        Map::empty()
    } else {
        to_map(s.drop_last()).insert(s.last().0@, s.last().1)
    }
}

pub proof fn lemma_to_map<V>(s: Seq<(String, V)>)
    requires
        keys_unique(s),
    ensures
        forall|k: Seq<char>| #[trigger] to_map(s).contains_key(k) <==> exists|i: int| 0 <= i < s.len() && s[i].0@ == k,
        forall|i: int| 0 <= i < s.len() ==> #[trigger] to_map(s)[s[i].0@] == s[i].1,
        to_map(s).dom().finite(),
        to_map(s).dom().len() == s.len(),
    decreases s.len(),
{
    if s.len() > 0 {
        let t = s.drop_last();
        assert(keys_unique(t));
        lemma_to_map(t);
        let k = s.last().0@;
        assert(!to_map(t).contains_key(k)) by {
            if to_map(t).contains_key(k) {
                let i = choose|i: int| 0 <= i < t.len() && t[i].0@ == k;
                assert(s[i].0@ == s[s.len() - 1].0@);
            }
        }
        assert forall|k2: Seq<char>| #[trigger] to_map(s).contains_key(k2) <==> exists|i: int| 0 <= i < s.len() && s[i].0@ == k2 by {
            if to_map(s).contains_key(k2) {
                if k2 == k {
                    assert(s[s.len() - 1].0@ == k2);
                } else {
                    let i = choose|i: int| 0 <= i < t.len() && t[i].0@ == k2;
                    assert(s[i].0@ == k2);
                }
            }
            if exists|i: int| 0 <= i < s.len() && s[i].0@ == k2 {
                let i = choose|i: int| 0 <= i < s.len() && s[i].0@ == k2;
                if i < s.len() - 1 {
                    assert(t[i].0@ == k2);
                }
            }
        }
        assert forall|i: int| 0 <= i < s.len() implies #[trigger] to_map(s)[s[i].0@] == s[i].1 by {
            if i < s.len() - 1 {
                assert(t[i] == s[i]);
                assert(s[i].0@ != k);
            }
        }
    }
}

/// A map from strings to values.
#[derive(Debug, PartialEq)]
pub struct StrMap<V> {
    entries: Vec<(String, V)>,
}

impl<V> StrMap<V> {
    #[verifier::type_invariant]
    spec fn inv(self) -> bool {
        keys_unique(self.entries@)
    }

    /// The key/value pairs, in the order they were first inserted.
    pub closed spec fn entries(self) -> Seq<(String, V)> {
        self.entries@
    }

    pub closed spec fn view(self) -> Map<Seq<char>, V> {
        to_map(self.entries@)
    }

    /// What the pairs say of the map: each key once, and the map holds exactly them.
    pub fn facts(&self)
        ensures
            keys_unique(self.entries()),
            forall|k: Seq<char>| #[trigger] self.view().contains_key(k) <==> exists|i: int| 0 <= i < self.entries().len() && self.entries()[i].0@ == k,
            forall|i: int| 0 <= i < self.entries().len() ==> #[trigger] self.view()[self.entries()[i].0@] == self.entries()[i].1,
            self.view().dom().finite(),
            self.view().dom().len() == self.entries().len(),
    {
        proof {
            use_type_invariant(self);
            lemma_to_map(self.entries@);
        }
    }

    pub fn new() -> (m: Self)
        ensures
            m.view() == Map::<Seq<char>, V>::empty(),
            m.entries().len() == 0,
    {
        StrMap { entries: Vec::new() }
    }

    fn position(&self, k: &str) -> (r: Option<usize>)
        ensures
            r matches Some(i) ==> i < self.entries@.len() && self.entries@[i as int].0@ == k@,
            r is None ==> forall|i: int| 0 <= i < self.entries@.len() ==> self.entries@[i].0@ != k@,
    {
        let mut i: usize = 0;
        while i < self.entries.len()
            invariant
                i <= self.entries.len(),
                forall|j: int| 0 <= j < i ==> self.entries@[j].0@ != k@,
            decreases self.entries.len() - i,
        {
            if str_eq(self.entries[i].0.as_str(), k) {
                return Some(i);
            }
            i += 1;
        }
        None
    }

    /// Number of keys.
    pub fn len(&self) -> (n: usize)
        ensures
            n == self.view().len(),
            n == self.entries().len(),
    {
        proof {
            use_type_invariant(self);
            lemma_to_map(self.entries@);
        }
        self.entries.len()
    }

    pub fn is_empty(&self) -> (b: bool)
        ensures
            b == (self.view().len() == 0),
            b == (self.view() == Map::<Seq<char>, V>::empty()),
    {
        proof {
            use_type_invariant(self);
            lemma_to_map(self.entries@);
            if self.entries@.len() > 0 {
                assert(self.view().contains_key(self.entries@[0].0@));
            } else {
                assert(self.view() =~= Map::<Seq<char>, V>::empty());
            }
        }
        self.entries.len() == 0
    }

    pub fn contains_key(&self, k: &str) -> (b: bool)
        ensures
            b == self.view().contains_key(k@),
    {
        proof {
            use_type_invariant(self);
            lemma_to_map(self.entries@);
        }
        self.position(k).is_some()
    }

    /// The value stored under `k`.
    pub fn get(&self, k: &str) -> (r: Option<&V>)
        ensures
            r matches Some(v) ==> self.view().contains_key(k@) && self.view()[k@] == *v,
            r is None ==> !self.view().contains_key(k@),
    {
        proof {
            use_type_invariant(self);
            lemma_to_map(self.entries@);
        }
        match self.position(k) {
            Some(i) => Some(&self.entries[i].1),
            None => None,
        }
    }

    /// All pairs, in insertion order.
    pub fn pairs(&self) -> (r: &Vec<(String, V)>)
        ensures
            r@ == self.entries(),
    {
        &self.entries
    }

    /// The `i`-th pair.
    pub fn entry_at(&self, i: usize) -> (r: &(String, V))
        requires
            i < self.entries().len(),
        ensures
            *r == self.entries()[i as int],
    {
        &self.entries[i]
    }

    /// Stores `v` under `k`, replacing any value that was there.
    pub fn insert(&mut self, k: String, v: V)
        ensures
            final(self).view() == old(self).view().insert(k@, v),
    {
        proof {
            use_type_invariant(&*self);
            lemma_to_map(self.entries@);
        }
        let ghost old_entries = self.entries@;
        let ghost mut pos: int = 0;
        match self.position(k.as_str()) {
            Some(i) => {
                proof {
                    pos = i as int;
                }
                let mut e: Vec<(String, V)> = Vec::new();
                std::mem::swap(&mut e, &mut self.entries);
                e.set(i, (k, v));
                proof {
                    assert(keys_unique(e@)) by {
                        assert forall|a: int, b: int| 0 <= a < b < e@.len() implies e@[a].0@ != e@[b].0@ by {
                            assert(old_entries[a].0@ != old_entries[b].0@);
                        }
                    }
                }
                self.entries = e;
                proof {
                    assert(keys_unique(self.entries@)) by {
                        assert forall|a: int, b: int| 0 <= a < b < self.entries@.len() implies self.entries@[a].0@ != self.entries@[b].0@ by {
                            if a != i && b != i {
                                assert(old_entries[a].0@ != old_entries[b].0@);
                            } else if a == i {
                                assert(old_entries[a].0@ != old_entries[b].0@);
                            } else {
                                assert(old_entries[a].0@ != old_entries[b].0@);
                            }
                        }
                    }
                }
            },
            None => {
                proof {
                    pos = old_entries.len() as int;
                }
                let mut e: Vec<(String, V)> = Vec::new();
                std::mem::swap(&mut e, &mut self.entries);
                e.push((k, v));
                proof {
                    assert(keys_unique(e@)) by {
                        assert forall|a: int, b: int| 0 <= a < b < e@.len() implies e@[a].0@ != e@[b].0@ by {
                            if b < old_entries.len() {
                                assert(old_entries[a].0@ != old_entries[b].0@);
                            }
                        }
                    }
                }
                self.entries = e;
            },
        }
        proof {
            lemma_to_map(self.entries@);
            let m1 = to_map(self.entries@);
            let m2 = to_map(old_entries).insert(k@, v);
            assert forall|key: Seq<char>| #[trigger] m1.contains_key(key) <==> m2.contains_key(key) by {
                if m1.contains_key(key) {
                    let j = choose|j: int| 0 <= j < self.entries@.len() && self.entries@[j].0@ == key;
                    if key != k@ {
                        assert(old_entries[j].0@ == key);
                    }
                }
                if m2.contains_key(key) && key != k@ {
                    let j = choose|j: int| 0 <= j < old_entries.len() && old_entries[j].0@ == key;
                    assert(self.entries@[j].0@ == key);
                }
                if key == k@ {
                    assert(self.entries@[pos].0@ == k@);
                }
            }
            assert forall|key: Seq<char>| m1.contains_key(key) implies #[trigger] m1[key] == m2[key] by {
                let j = choose|j: int| 0 <= j < self.entries@.len() && self.entries@[j].0@ == key;
                assert(m1[self.entries@[j].0@] == self.entries@[j].1);
                if key != k@ {
                    assert(old_entries[j] == self.entries@[j]);
                    assert(to_map(old_entries)[old_entries[j].0@] == old_entries[j].1);
                }
            }
            assert(m1 =~= m2);
        }
    }

    /// Removes `k`, returning what was stored under it.
    pub fn remove(&mut self, k: &str) -> (r: Option<V>)
        ensures
            final(self).view() == old(self).view().remove(k@),
            r matches Some(v) ==> old(self).view().contains_key(k@) && old(self).view()[k@] == v,
            r is None ==> !old(self).view().contains_key(k@),
    {
        proof {
            use_type_invariant(&*self);
            lemma_to_map(self.entries@);
        }
        let ghost old_entries = self.entries@;
        match self.position(k) {
            Some(i) => {
                let mut e: Vec<(String, V)> = Vec::new();
                std::mem::swap(&mut e, &mut self.entries);
                let (_, v) = e.remove(i);
                proof {
                    assert(e@ =~= old_entries.remove(i as int));
                    assert(keys_unique(e@)) by {
                        assert forall|a: int, b: int| 0 <= a < b < e@.len() implies e@[a].0@ != e@[b].0@ by {
                            let a2 = if a < i { a } else { a + 1 };
                            let b2 = if b < i { b } else { b + 1 };
                            assert(old_entries[a2].0@ != old_entries[b2].0@);
                        }
                    }
                }
                self.entries = e;
                proof {
                    lemma_to_map(self.entries@);
                    let m1 = to_map(self.entries@);
                    let m2 = to_map(old_entries).remove(k@);
                    assert forall|key: Seq<char>| #[trigger] m1.contains_key(key) <==> m2.contains_key(key) by {
                        if m1.contains_key(key) {
                            let j = choose|j: int| 0 <= j < self.entries@.len() && self.entries@[j].0@ == key;
                            let j2 = if j < i { j } else { j + 1 };
                            assert(old_entries[j2].0@ == key);
                            assert(old_entries[j2].0@ != old_entries[i as int].0@);
                        }
                        if m2.contains_key(key) {
                            let j = choose|j: int| 0 <= j < old_entries.len() && old_entries[j].0@ == key;
                            assert(j != i);
                            let j2 = if j < i { j } else { j - 1 };
                            assert(self.entries@[j2].0@ == key);
                        }
                    }
                    assert forall|key: Seq<char>| m1.contains_key(key) implies #[trigger] m1[key] == m2[key] by {
                        let j = choose|j: int| 0 <= j < self.entries@.len() && self.entries@[j].0@ == key;
                        let j2 = if j < i { j } else { j + 1 };
                        assert(self.entries@[j] == old_entries[j2]);
                        assert(to_map(old_entries)[old_entries[j2].0@] == old_entries[j2].1);
                    }
                    assert(m1 =~= m2);
                }
                Some(v)
            },
            None => {
                proof {
                    assert(!to_map(old_entries).contains_key(k@));
                    assert(to_map(old_entries).remove(k@) =~= to_map(old_entries));
                }
                None
            },
        }
    }

    /// Removes every key.
    pub fn clear(&mut self)
        ensures
            final(self).view() == Map::<Seq<char>, V>::empty(),
    {
        self.entries = Vec::new();
    }
}

/// A finite set of strings.
#[derive(Debug, PartialEq)]
pub struct StrSet {
    items: Vec<String>,
}

pub open spec fn strs_unique(s: Seq<String>) -> bool {
    forall|i: int, j: int| 0 <= i < j < s.len() ==> s[i]@ != s[j]@
}

pub open spec fn strs_view(s: Seq<String>) -> Seq<Seq<char>> {
    Seq::new(s.len(), |i: int| s[i]@)
}

impl StrSet {
    #[verifier::type_invariant]
    spec fn inv(self) -> bool {
        strs_unique(self.items@)
    }

    /// The members, in the order they were inserted.
    pub closed spec fn items(self) -> Seq<Seq<char>> {
        strs_view(self.items@)
    }

    pub closed spec fn view(self) -> Set<Seq<char>> {
        self.items().to_set()
    }

    pub fn facts(&self)
        ensures
            self.items().no_duplicates(),
            self.view().finite(),
            self.view().len() == self.items().len(),
            forall|x: Seq<char>| #[trigger] self.view().contains(x) <==> self.items().contains(x),
    {
        proof {
            use_type_invariant(self);
            assert(self.items().no_duplicates());
            self.items().unique_seq_to_set();
        }
    }

    pub fn new() -> (s: Self)
        ensures
            s.view() == Set::<Seq<char>>::empty(),
            s.items().len() == 0,
    {
        let s = StrSet { items: Vec::new() };
        assert(s.items().to_set() =~= Set::<Seq<char>>::empty());
        s
    }

    fn position(&self, x: &str) -> (r: Option<usize>)
        ensures
            r matches Some(i) ==> i < self.items@.len() && self.items@[i as int]@ == x@,
            r is None ==> !self.items().contains(x@),
    {
        let mut i: usize = 0;
        while i < self.items.len()
            invariant
                i <= self.items.len(),
                forall|j: int| 0 <= j < i ==> self.items@[j]@ != x@,
            decreases self.items.len() - i,
        {
            if str_eq(self.items[i].as_str(), x) {
                return Some(i);
            }
            i += 1;
        }
        proof {
            if self.items().contains(x@) {
                let j = choose|j: int| 0 <= j < self.items().len() && self.items()[j] == x@;
                assert(self.items@[j]@ == x@);
            }
        }
        None
    }

    pub fn contains(&self, x: &str) -> (b: bool)
        ensures
            b == self.view().contains(x@),
    {
        proof {
            use_type_invariant(self);
            self.items().unique_seq_to_set();
        }
        let r = self.position(x);
        proof {
            if let Some(i) = r {
                assert(self.items()[i as int] == x@);
            }
        }
        r.is_some()
    }

    pub fn len(&self) -> (n: usize)
        ensures
            n == self.view().len(),
    {
        proof {
            use_type_invariant(self);
            self.items().unique_seq_to_set();
        }
        self.items.len()
    }

    pub fn is_empty(&self) -> (b: bool)
        ensures
            b == (self.view() == Set::<Seq<char>>::empty()),
    {
        proof {
            use_type_invariant(self);
            self.items().unique_seq_to_set();
            if self.items@.len() > 0 {
                assert(self.items().contains(self.items()[0]));
            } else {
                assert(self.view() =~= Set::<Seq<char>>::empty());
            }
        }
        self.items.len() == 0
    }

    /// Adds `x`.
    pub fn insert(&mut self, x: String)
        ensures
            final(self).view() == old(self).view().insert(x@),
    {
        let ghost old_items = self.items();
        proof {
            use_type_invariant(&*self);
        }
        match self.position(x.as_str()) {
            Some(i) => {
                proof {
                    assert(old_items[i as int] == x@);
                    assert(old_items.to_set().insert(x@) =~= old_items.to_set());
                }
            },
            None => {
                let mut e: Vec<String> = Vec::new();
                std::mem::swap(&mut e, &mut self.items);
                e.push(x);
                proof {
                    assert(strs_unique(e@)) by {
                        assert forall|a: int, b: int| 0 <= a < b < e@.len() implies e@[a]@ != e@[b]@ by {
                            if b < old_items.len() {
                                assert(old_items[a] != old_items[b]);
                            } else {
                                assert(old_items[a] == e@[a]@);
                            }
                        }
                    }
                }
                self.items = e;
                proof {
                    assert(self.items() =~= old_items.push(x@));
                    assert forall|y: Seq<char>| #[trigger] self.items().to_set().contains(y) <==> old_items.to_set().insert(x@).contains(y) by {
                        if self.items().contains(y) && y != x@ {
                            let j = choose|j: int| 0 <= j < self.items().len() && self.items()[j] == y;
                            assert(old_items[j] == y);
                        }
                        if old_items.contains(y) {
                            let j = choose|j: int| 0 <= j < old_items.len() && old_items[j] == y;
                            assert(self.items()[j] == y);
                        }
                        if y == x@ {
                            assert(self.items()[old_items.len() as int] == y);
                        }
                    }
                    assert(self.items().to_set() =~= old_items.to_set().insert(x@));
                }
            },
        }
    }

    /// Removes `x`.
    pub fn remove(&mut self, x: &str)
        ensures
            final(self).view() == old(self).view().remove(x@),
    {
        let ghost old_items = self.items();
        proof {
            use_type_invariant(&*self);
        }
        match self.position(x) {
            Some(i) => {
                let mut e: Vec<String> = Vec::new();
                std::mem::swap(&mut e, &mut self.items);
                e.remove(i);
                proof {
                    assert(strs_unique(e@)) by {
                        assert forall|a: int, b: int| 0 <= a < b < e@.len() implies e@[a]@ != e@[b]@ by {
                            let a2 = if a < i { a } else { a + 1 };
                            let b2 = if b < i { b } else { b + 1 };
                            assert(old_items[a2] != old_items[b2]);
                        }
                    }
                }
                self.items = e;
                proof {
                    assert(self.items() =~= old_items.remove(i as int));
                    assert forall|y: Seq<char>| #[trigger] self.items().to_set().contains(y) <==> old_items.to_set().remove(x@).contains(y) by {
                        if self.items().contains(y) {
                            let j = choose|j: int| 0 <= j < self.items().len() && self.items()[j] == y;
                            let j2 = if j < i { j } else { j + 1 };
                            assert(old_items[j2] == y);
                            assert(j2 != i);
                        }
                        if old_items.contains(y) && y != x@ {
                            let j = choose|j: int| 0 <= j < old_items.len() && old_items[j] == y;
                            assert(j != i);
                            let j2 = if j < i { j } else { j - 1 };
                            assert(self.items()[j2] == y);
                        }
                    }
                    assert(self.items().to_set() =~= old_items.to_set().remove(x@));
                }
            },
            None => {
                assert(old_items.to_set().remove(x@) =~= old_items.to_set());
            },
        }
    }

    pub fn clear(&mut self)
        ensures
            final(self).view() == Set::<Seq<char>>::empty(),
    {
        self.items = Vec::new();
        assert(self.items().to_set() =~= Set::<Seq<char>>::empty());
    }

    /// The `i`-th member in insertion order.
    pub fn item_at(&self, i: usize) -> (r: &String)
        requires
            i < self.items().len(),
        ensures
            r@ == self.items()[i as int],
    {
        &self.items[i]
    }
}


} // verus!
