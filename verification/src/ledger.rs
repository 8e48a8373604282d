use vstd::prelude::*;

verus! {

/// A map from account ids to values, kept as a list of entries with
/// distinct keys.
///
/// It holds what a storage namespace of the contract holds: one value per
/// account id. Its view is the map from the account id's characters to the
/// value.
pub struct AccountMap<V> {
    entries: Vec<(String, V)>,
    contents: Ghost<Map<Seq<char>, V>>,
}

impl<V> View for AccountMap<V> {
    type V = Map<Seq<char>, V>;

    closed spec fn view(&self) -> Map<Seq<char>, V> {
        self.contents@
    }
}

/// The map that a list of entries describes when they are inserted in order:
/// where a key occurs twice, the later entry wins.
pub open spec fn entries_map<V>(s: Seq<(String, V)>) -> Map<Seq<char>, V>
    decreases s.len(),
{
    if s.len() == 0 {
        Map::empty()
    } else {
        entries_map(s.drop_last()).insert(s.last().0@, s.last().1)
    }
}

impl<V: Copy> AccountMap<V> {
    /// Well-formedness: the entries have distinct keys and describe the view,
    /// which has a finite domain.
    pub closed spec fn wf(&self) -> bool {
        &&& self.contents@.dom().finite()
        &&& forall|i: int, j: int|
            0 <= i < j < self.entries@.len() ==> #[trigger] self.entries@[i].0@
                != #[trigger] self.entries@[j].0@
        &&& forall|i: int|
            0 <= i < self.entries@.len() ==> {
                &&& self.contents@.contains_key(#[trigger] self.entries@[i].0@)
                &&& self.contents@[self.entries@[i].0@] == self.entries@[i].1
            }
        &&& forall|k: Seq<char>|
            #[trigger] self.contents@.contains_key(k) ==> exists|i: int|
                0 <= i < self.entries@.len() && #[trigger] self.entries@[i].0@ == k
    }

    /// The view of a well-formed map has finitely many keys.
    pub proof fn lemma_finite(&self)
        requires
            self.wf(),
        ensures
            self@.dom().finite(),
    {
    }

    /// An empty map.
    pub fn new() -> (r: Self)
        ensures
            r.wf(),
            r@ == Map::<Seq<char>, V>::empty(),
    {
        AccountMap { entries: Vec::new(), contents: Ghost(Map::empty()) }
    }

    /// The position of `key` among the entries, if it has one.
    fn position(&self, key: &String) -> (r: Option<usize>)
        requires
            self.wf(),
        ensures
            match r {
                Some(i) => i < self.entries@.len() && self.entries@[i as int].0@ == key@,
                None => !self@.contains_key(key@),
            },
    {
        let mut i: usize = 0;
        while i < self.entries.len()
            invariant
                self.wf(),
                i <= self.entries@.len(),
                forall|j: int| 0 <= j < i ==> #[trigger] self.entries@[j].0@ != key@,
            decreases self.entries@.len() - i,
        {
            if self.entries[i].0 == *key {
                return Some(i);
            }
            i = i + 1;
        }
        None
    }

    /// The value stored under `key`, if there is one.
    pub fn get(&self, key: &String) -> (r: Option<V>)
        requires
            self.wf(),
        ensures
            r == (if self@.contains_key(key@) {
                Some(self@[key@])
            } else {
                None::<V>
            }),
    {
        match self.position(key) {
            Some(i) => Some(self.entries[i].1),
            None => None,
        }
    }

    /// Stores `value` under `key`, replacing what was stored there.
    pub fn insert(&mut self, key: String, value: V)
        requires
            old(self).wf(),
        ensures
            final(self).wf(),
            final(self)@ == old(self)@.insert(key@, value),
    {
        let ghost k = key@;
        let ghost old_entries = self.entries@;
        let ghost mut idx: int = 0;
        match self.position(&key) {
            Some(i) => {
                self.entries.set(i, (key, value));
                proof {
                    idx = i as int;
                }
            },
            None => {
                self.entries.push((key, value));
                proof {
                    idx = old_entries.len() as int;
                }
            },
        }
        self.contents = Ghost(self.contents@.insert(k, value));
        assert(0 <= idx < self.entries@.len() && self.entries@[idx].0@ == k);
        assert forall|j: int| 0 <= j < self.entries@.len() && j != idx implies #[trigger] self.entries@[j]
            == old_entries[j] by {}
        assert forall|k2: Seq<char>| #[trigger] self.contents@.contains_key(k2) implies exists|
            i: int,
        |
            0 <= i < self.entries@.len() && #[trigger] self.entries@[i].0@ == k2 by {
            if k2 == k {
                assert(self.entries@[idx].0@ == k2);
            } else {
                assert(old(self).contents@.contains_key(k2));
                let j = choose|j: int|
                    0 <= j < old_entries.len() && #[trigger] old_entries[j].0@ == k2;
                assert(self.entries@[j] == old_entries[j]);
                assert(self.entries@[j].0@ == k2);
            }
        }
    }

    /// The entries, each key once.
    pub fn entries(&self) -> (r: &Vec<(String, V)>)
        requires
            self.wf(),
        ensures
            forall|i: int, j: int| 0 <= i < j < r@.len() ==> #[trigger] r@[i].0@ != #[trigger] r@[j].0@,
            entries_map(r@) == self@,
    {
        proof {
            self.lemma_entries_map();
        }
        &self.entries
    }

    /// The map that `entries` describes when they are inserted in order.
    pub fn from_entries(entries: &Vec<(String, V)>) -> (r: Self)
        ensures
            r.wf(),
            r@ == entries_map(entries@),
    {
        let mut m = AccountMap::new();
        let mut i: usize = 0;
        while i < entries.len()
            invariant
                i <= entries@.len(),
                m.wf(),
                m@ == entries_map(entries@.take(i as int)),
            decreases entries@.len() - i,
        {
            let key = entries[i].0.clone();
            m.insert(key, entries[i].1);
            assert(entries@.take(i + 1).drop_last() =~= entries@.take(i as int));
            i = i + 1;
        }
        assert(entries@.take(entries@.len() as int) =~= entries@);
        m
    }

    proof fn lemma_entries_map(&self)
        requires
            self.wf(),
        ensures
            entries_map(self.entries@) == self@,
    {
        let s = self.entries@;
        lemma_entries_map_distinct(s);
        assert(entries_map(s) =~= self@) by {
            assert forall|k: Seq<char>| #[trigger] entries_map(s).contains_key(k) implies self@.contains_key(k)
                by {
                let i = choose|i: int| 0 <= i < s.len() && #[trigger] s[i].0@ == k;
                assert(self.contents@.contains_key(s[i].0@));
            }
            assert forall|k: Seq<char>| #[trigger] self@.contains_key(k) implies entries_map(s).contains_key(k)
                && entries_map(s)[k] == self@[k] by {
                let i = choose|i: int| 0 <= i < s.len() && #[trigger] s[i].0@ == k;
                assert(s[i].0@ == k);
            }
        }
    }
}

/// For entries with distinct keys, the described map holds exactly their keys,
/// each with its entry's value.
proof fn lemma_entries_map_distinct<V>(s: Seq<(String, V)>)
    requires
        forall|i: int, j: int| 0 <= i < j < s.len() ==> #[trigger] s[i].0@ != #[trigger] s[j].0@,
    ensures
        forall|k: Seq<char>|
            #[trigger] entries_map(s).contains_key(k) <==> exists|i: int|
                0 <= i < s.len() && #[trigger] s[i].0@ == k,
        forall|i: int| 0 <= i < s.len() ==> #[trigger] entries_map(s)[s[i].0@] == s[i].1,
    decreases s.len(),
{
    if s.len() > 0 {
        let p = s.drop_last();
        let n = s.len() - 1;
        assert forall|i: int, j: int| 0 <= i < j < p.len() implies #[trigger] p[i].0@ != #[trigger] p[j].0@ by {
            assert(s[i].0@ != s[j].0@);
        }
        lemma_entries_map_distinct(p);
        assert forall|k: Seq<char>|
            #[trigger] entries_map(s).contains_key(k) <==> exists|i: int|
                0 <= i < s.len() && #[trigger] s[i].0@ == k by {
            if k == s[n].0@ {
                assert(s[n].0@ == k);
            } else if entries_map(p).contains_key(k) {
                let i = choose|i: int| 0 <= i < p.len() && #[trigger] p[i].0@ == k;
                assert(s[i].0@ == k);
            } else {
                assert forall|i: int| 0 <= i < s.len() implies #[trigger] s[i].0@ != k by {
                    if i < n {
                        assert(p[i].0@ == s[i].0@);
                    }
                }
            }
        }
        assert(entries_map(s) == entries_map(p).insert(s[n].0@, s[n].1));
        assert forall|i: int| 0 <= i < s.len() implies #[trigger] entries_map(s)[s[i].0@] == s[i].1 by {
            if i < n {
                assert(p[i] == s[i]);
                assert(entries_map(p)[p[i].0@] == p[i].1);
                assert(s[i].0@ != s[n].0@);
            }
        }
    }
}


/// A set of pairs of account ids, kept as a list of entries.
///
/// Its view is the set of pairs of the account ids' characters.
pub struct PairSet {
    entries: Vec<(String, String)>,
    contents: Ghost<Set<(Seq<char>, Seq<char>)>>,
}

impl View for PairSet {
    type V = Set<(Seq<char>, Seq<char>)>;

    closed spec fn view(&self) -> Set<(Seq<char>, Seq<char>)> {
        self.contents@
    }
}

/// The pairs that a list of entries holds.
pub open spec fn entries_set(s: Seq<(String, String)>) -> Set<(Seq<char>, Seq<char>)> {
    Set::new(|p: (Seq<char>, Seq<char>)| exists|i: int| 0 <= i < s.len() && #[trigger] s[i].0@ == p.0 && s[i].1@ == p.1)
}

impl PairSet {
    /// Well-formedness: the entries hold exactly the pairs of the view.
    pub closed spec fn wf(&self) -> bool {
        self.contents@ == entries_set(self.entries@)
    }

    /// An empty set.
    pub fn new() -> (r: Self)
        ensures
            r.wf(),
            r@ == Set::<(Seq<char>, Seq<char>)>::empty(),
    {
        let r = PairSet { entries: Vec::new(), contents: Ghost(Set::empty()) };
        assert(entries_set(r.entries@) =~= Set::empty());
        r
    }

    /// Whether the set holds the pair `(a, b)`.
    pub fn contains(&self, a: &String, b: &String) -> (r: bool)
        requires
            self.wf(),
        ensures
            r == self@.contains((a@, b@)),
    {
        let mut i: usize = 0;
        while i < self.entries.len()
            invariant
                self.wf(),
                i <= self.entries@.len(),
                forall|j: int|
                    0 <= j < i ==> !(#[trigger] self.entries@[j].0@ == a@ && self.entries@[j].1@ == b@),
            decreases self.entries@.len() - i,
        {
            if self.entries[i].0 == *a && self.entries[i].1 == *b {
                assert(entries_set(self.entries@).contains((a@, b@)));
                return true;
            }
            i = i + 1;
        }
        false
    }

    /// Adds the pair `(a, b)`.
    pub fn insert(&mut self, a: String, b: String)
        requires
            old(self).wf(),
        ensures
            final(self).wf(),
            final(self)@ == old(self)@.insert((a@, b@)),
    {
        let ghost p = (a@, b@);
        self.entries.push((a, b));
        self.contents = Ghost(self.contents@.insert(p));
        assert(self.contents@ =~= entries_set(self.entries@)) by {
            let s = self.entries@;
            let n = s.len() - 1;
            assert(s[n].0@ == p.0 && s[n].1@ == p.1);
            assert forall|q: (Seq<char>, Seq<char>)| #[trigger] entries_set(s).contains(q)
                implies self.contents@.contains(q) by {
                let i = choose|i: int| 0 <= i < s.len() && #[trigger] s[i].0@ == q.0 && s[i].1@ == q.1;
                if i < n {
                    assert(old(self).entries@[i] == s[i]);
                    assert(entries_set(old(self).entries@).contains(q));
                }
            }
            assert forall|q: (Seq<char>, Seq<char>)| #[trigger] self.contents@.contains(q)
                implies entries_set(s).contains(q) by {
                if q != p {
                    assert(entries_set(old(self).entries@).contains(q));
                    let i = choose|i: int|
                        0 <= i < old(self).entries@.len() && #[trigger] old(self).entries@[i].0@ == q.0
                            && old(self).entries@[i].1@ == q.1;
                    assert(s[i] == old(self).entries@[i]);
                }
            }
        }
    }

    /// The entries.
    pub fn entries(&self) -> (r: &Vec<(String, String)>)
        requires
            self.wf(),
        ensures
            entries_set(r@) == self@,
    {
        &self.entries
    }

    /// The set of the pairs in `entries`.
    pub fn from_entries(entries: &Vec<(String, String)>) -> (r: Self)
        ensures
            r.wf(),
            r@ == entries_set(entries@),
    {
        let mut copy: Vec<(String, String)> = Vec::new();
        let mut i: usize = 0;
        while i < entries.len()
            invariant
                i <= entries@.len(),
                copy@.len() == i,
                forall|j: int| 0 <= j < i ==> #[trigger] copy@[j].0@ == entries@[j].0@ && copy@[j].1@ == entries@[j].1@,
            decreases entries@.len() - i,
        {
            copy.push((entries[i].0.clone(), entries[i].1.clone()));
            i = i + 1;
        }
        let r = PairSet { entries: copy, contents: Ghost(entries_set(entries@)) };
        assert(entries_set(copy@) =~= entries_set(entries@)) by {
            assert forall|q: (Seq<char>, Seq<char>)| #[trigger] entries_set(copy@).contains(q)
                implies entries_set(entries@).contains(q) by {
                let k = choose|k: int| 0 <= k < copy@.len() && #[trigger] copy@[k].0@ == q.0 && copy@[k].1@ == q.1;
                assert(entries@[k].0@ == q.0);
            }
            assert forall|q: (Seq<char>, Seq<char>)| #[trigger] entries_set(entries@).contains(q)
                implies entries_set(copy@).contains(q) by {
                let k = choose|k: int| 0 <= k < entries@.len() && #[trigger] entries@[k].0@ == q.0 && entries@[k].1@ == q.1;
                assert(copy@[k].0@ == q.0);
            }
        }
        r
    }
}

} // verus!
