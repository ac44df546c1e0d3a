use crate::config::ImageSet;
use crate::order::{
    compare_text, lemma_text_less_irreflexive, lemma_text_less_transitive, text_less, TextOrder,
};
use vstd::prelude::*;

verus! {

/// Entries whose keys strictly increase: no key occurs twice.
pub open spec fn sorted_keys(s: Seq<(String, ImageSet)>) -> bool {
    forall|i: int, j: int| 0 <= i < j < s.len() ==> text_less(#[trigger] s[i].0@, #[trigger] s[j].0@)
}

pub open spec fn has_key_at(s: Seq<(String, ImageSet)>, k: Seq<char>, i: int) -> bool {
    0 <= i < s.len() && s[i].0@ == k
}

/// The map that a list of entries with distinct keys stands for.
pub open spec fn entries_map(s: Seq<(String, ImageSet)>) -> Map<Seq<char>, ImageSet> {
    Map::new(
        |k: Seq<char>| exists|i: int| has_key_at(s, k, i),
        |k: Seq<char>| s[choose|i: int| has_key_at(s, k, i)].1,
    )
}

proof fn lemma_sorted_distinct(s: Seq<(String, ImageSet)>, i: int, j: int)
    requires
        sorted_keys(s),
        0 <= i < s.len(),
        0 <= j < s.len(),
        i != j,
    ensures
        s[i].0@ != s[j].0@,
{
    if i < j {
        assert(text_less(s[i].0@, s[j].0@));
        lemma_text_less_irreflexive(s[i].0@);
    } else {
        assert(text_less(s[j].0@, s[i].0@));
        lemma_text_less_irreflexive(s[j].0@);
    }
}

proof fn lemma_entries_map_at(s: Seq<(String, ImageSet)>, i: int)
    requires
        sorted_keys(s),
        0 <= i < s.len(),
    ensures
        entries_map(s).contains_key(s[i].0@),
        entries_map(s)[s[i].0@] == s[i].1,
{
    let k = s[i].0@;
    assert(has_key_at(s, k, i));
    let j = choose|j: int| has_key_at(s, k, j);
    if j != i {
        lemma_sorted_distinct(s, i, j);
    }
}

proof fn lemma_entries_map_insert(s: Seq<(String, ImageSet)>, p: int, key: String, v: ImageSet)
    requires
        sorted_keys(s),
        0 <= p <= s.len(),
        forall|i: int| 0 <= i < p ==> text_less(#[trigger] s[i].0@, key@),
        forall|i: int| p <= i < s.len() ==> text_less(key@, #[trigger] s[i].0@),
    ensures
        sorted_keys(s.insert(p, (key, v))),
        entries_map(s.insert(p, (key, v))) == entries_map(s).insert(key@, v),
{
    let t = s.insert(p, (key, v));
    assert forall|i: int, j: int| 0 <= i < j < t.len() implies text_less(
        #[trigger] t[i].0@,
        #[trigger] t[j].0@,
    ) by {
        if i < p && j > p {
            lemma_text_less_transitive(s[i].0@, key@, s[j - 1].0@);
        } else if i < p && j < p {
            assert(text_less(s[i].0@, s[j].0@));
        } else if i > p {
            assert(text_less(s[i - 1].0@, s[j - 1].0@));
        }
    }
    let m = entries_map(s).insert(key@, v);
    let mt = entries_map(t);
    assert forall|k: Seq<char>| #[trigger] mt.contains_key(k) == m.contains_key(k) by {
        if k == key@ {
            lemma_entries_map_at(t, p);
        } else if m.contains_key(k) {
            let j = choose|j: int| has_key_at(s, k, j);
            if j < p {
                assert(has_key_at(t, k, j));
            } else {
                assert(has_key_at(t, k, j + 1));
            }
        } else if mt.contains_key(k) {
            let j = choose|j: int| has_key_at(t, k, j);
            if j < p {
                assert(has_key_at(s, k, j));
            } else {
                assert(has_key_at(s, k, j - 1));
            }
        }
    }
    assert forall|k: Seq<char>| #[trigger] mt.contains_key(k) implies mt[k] == m[k] by {
        if k == key@ {
            lemma_entries_map_at(t, p);
        } else {
            let j = choose|j: int| has_key_at(t, k, j);
            lemma_entries_map_at(t, j);
            if j < p {
                lemma_entries_map_at(s, j);
            } else {
                lemma_entries_map_at(s, j - 1);
            }
        }
    }
    assert(mt =~= m);
}

proof fn lemma_entries_map_update(s: Seq<(String, ImageSet)>, p: int, key: String, v: ImageSet)
    requires
        sorted_keys(s),
        0 <= p < s.len(),
        s[p].0@ == key@,
    ensures
        sorted_keys(s.update(p, (key, v))),
        entries_map(s.update(p, (key, v))) == entries_map(s).insert(key@, v),
{
    let t = s.update(p, (key, v));
    assert forall|i: int, j: int| 0 <= i < j < t.len() implies text_less(
        #[trigger] t[i].0@,
        #[trigger] t[j].0@,
    ) by {
        assert(text_less(s[i].0@, s[j].0@));
    }
    let m = entries_map(s).insert(key@, v);
    let mt = entries_map(t);
    assert forall|k: Seq<char>| #[trigger] mt.contains_key(k) == m.contains_key(k) by {
        if k == key@ {
            lemma_entries_map_at(t, p);
        } else if m.contains_key(k) {
            let j = choose|j: int| has_key_at(s, k, j);
            assert(has_key_at(t, k, j));
        } else if mt.contains_key(k) {
            let j = choose|j: int| has_key_at(t, k, j);
            assert(has_key_at(s, k, j));
        }
    }
    assert forall|k: Seq<char>| #[trigger] mt.contains_key(k) implies mt[k] == m[k] by {
        if k == key@ {
            lemma_entries_map_at(t, p);
        } else {
            let j = choose|j: int| has_key_at(t, k, j);
            lemma_entries_map_at(t, j);
            lemma_entries_map_at(s, j);
        }
    }
    assert(mt =~= m);
}

proof fn lemma_entries_map_remove(s: Seq<(String, ImageSet)>, p: int)
    requires
        sorted_keys(s),
        0 <= p < s.len(),
    ensures
        sorted_keys(s.remove(p)),
        entries_map(s.remove(p)) == entries_map(s).remove(s[p].0@),
{
    let t = s.remove(p);
    let key = s[p].0@;
    assert forall|i: int, j: int| 0 <= i < j < t.len() implies text_less(
        #[trigger] t[i].0@,
        #[trigger] t[j].0@,
    ) by {
        if j < p {
            assert(text_less(s[i].0@, s[j].0@));
        } else if i < p {
            assert(text_less(s[i].0@, s[j + 1].0@));
        } else {
            assert(text_less(s[i + 1].0@, s[j + 1].0@));
        }
    }
    let m = entries_map(s).remove(key);
    let mt = entries_map(t);
    assert forall|k: Seq<char>| #[trigger] mt.contains_key(k) == m.contains_key(k) by {
        if k == key {
            if mt.contains_key(k) {
                let j = choose|j: int| has_key_at(t, k, j);
                if j < p {
                    lemma_sorted_distinct(s, j, p);
                } else {
                    lemma_sorted_distinct(s, j + 1, p);
                }
            }
        } else if m.contains_key(k) {
            let j = choose|j: int| has_key_at(s, k, j);
            if j < p {
                assert(has_key_at(t, k, j));
            } else {
                assert(has_key_at(t, k, j - 1));
            }
        } else if mt.contains_key(k) {
            let j = choose|j: int| has_key_at(t, k, j);
            if j < p {
                assert(has_key_at(s, k, j));
            } else {
                assert(has_key_at(s, k, j + 1));
            }
        }
    }
    assert forall|k: Seq<char>| #[trigger] mt.contains_key(k) implies mt[k] == m[k] by {
        let j = choose|j: int| has_key_at(t, k, j);
        lemma_entries_map_at(t, j);
        if j < p {
            lemma_entries_map_at(s, j);
        } else {
            lemma_entries_map_at(s, j + 1);
        }
    }
    assert(mt =~= m);
}


/// The map that inserting the pairs one after the other, from first to last,
/// makes from an empty map: a later pair wins over an earlier one with the
/// same key.
pub open spec fn pairs_map(s: Seq<(String, ImageSet)>) -> Map<Seq<char>, ImageSet>
    decreases s.len(),
{
    if s.len() == 0 {
        Map::empty()
    } else {
        pairs_map(s.drop_last()).insert(s.last().0@, s.last().1)
    }
}

/// The saved image sets by name, kept in increasing name order with no name
/// twice.
#[derive(Debug)]
pub struct SetMap {
    entries: Vec<(String, ImageSet)>,
}

impl View for SetMap {
    type V = Map<Seq<char>, ImageSet>;

    closed spec fn view(&self) -> Map<Seq<char>, ImageSet> {
        entries_map(self.entries@)
    }
}

impl SetMap {
    #[verifier::type_invariant]
    spec fn keys_increase(self) -> bool {
        sorted_keys(self.entries@)
    }

    /// The entries in the order in which they are listed.
    pub closed spec fn listing(&self) -> Seq<(String, ImageSet)> {
        self.entries@
    }

    pub fn new() -> (m: Self)
        ensures
            m@ == Map::<Seq<char>, ImageSet>::empty(),
            m.listing().len() == 0,
    {
        let m = SetMap { entries: Vec::new() };
        assert(entries_map(m.entries@) =~= Map::<Seq<char>, ImageSet>::empty());
        m
    }

    /// The entries, in increasing name order; they are exactly the map's.
    pub fn entries(&self) -> (r: &Vec<(String, ImageSet)>)
        ensures
            r@ == self.listing(),
            sorted_keys(r@),
            entries_map(r@) == self@,
    {
        proof {
            use_type_invariant(self);
        }
        &self.entries
    }

    /// Where `key` stands, or would stand, in the listing.
    fn find(&self, key: &str) -> (r: (usize, bool))
        ensures
            r.0 <= self.entries@.len(),
            r.1 ==> r.0 < self.entries@.len() && self.entries@[r.0 as int].0@ == key@,
            !r.1 ==> (forall|i: int| 0 <= i < r.0 ==> text_less(#[trigger] self.entries@[i].0@, key@)),
            !r.1 ==> (forall|i: int|
                r.0 <= i < self.entries@.len() ==> text_less(key@, #[trigger] self.entries@[i].0@)),
    {
        proof {
            use_type_invariant(self);
        }
        let n = self.entries.len();
        let mut i: usize = 0;
        while i < n
            invariant
                i <= n,
                n == self.entries@.len(),
                sorted_keys(self.entries@),
                forall|j: int| 0 <= j < i ==> text_less(#[trigger] self.entries@[j].0@, key@),
            decreases n - i,
        {
            match compare_text(self.entries[i].0.as_str(), key) {
                TextOrder::Less => {},
                TextOrder::Equal => {
                    return (i, true);
                },
                TextOrder::Greater => {
                    assert forall|j: int| i <= j < n implies text_less(
                        key@,
                        #[trigger] self.entries@[j].0@,
                    ) by {
                        if j > i {
                            assert(text_less(self.entries@[i as int].0@, self.entries@[j].0@));
                            lemma_text_less_transitive(
                                key@,
                                self.entries@[i as int].0@,
                                self.entries@[j].0@,
                            );
                        }
                    }
                    return (i, false);
                },
            }
            i = i + 1;
        }
        (n, false)
    }

    proof fn lemma_absent(&self, pos: int, key: Seq<char>)
        requires
            sorted_keys(self.entries@),
            0 <= pos <= self.entries@.len(),
            forall|i: int| 0 <= i < pos ==> text_less(#[trigger] self.entries@[i].0@, key),
            forall|i: int| pos <= i < self.entries@.len() ==> text_less(key, #[trigger] self.entries@[i].0@),
        ensures
            !self@.contains_key(key),
    {
        if self@.contains_key(key) {
            let j = choose|j: int| has_key_at(self.entries@, key, j);
            lemma_text_less_irreflexive(key);
            if j < pos {
                assert(text_less(self.entries@[j].0@, key));
            } else {
                assert(text_less(key, self.entries@[j].0@));
            }
        }
    }

    pub fn contains_key(&self, key: &str) -> (r: bool)
        ensures
            r == self@.contains_key(key@),
    {
        proof {
            use_type_invariant(self);
        }
        let (pos, found) = self.find(key);
        proof {
            if found {
                lemma_entries_map_at(self.entries@, pos as int);
            } else {
                self.lemma_absent(pos as int, key@);
            }
        }
        found
    }

    pub fn get(&self, key: &str) -> (r: Option<&ImageSet>)
        ensures
            r matches Some(v) ==> self@.contains_key(key@) && *v == self@[key@],
            r is None ==> !self@.contains_key(key@),
    {
        proof {
            use_type_invariant(self);
        }
        let (pos, found) = self.find(key);
        if found {
            proof {
                lemma_entries_map_at(self.entries@, pos as int);
            }
            Some(&self.entries[pos].1)
        } else {
            proof {
                self.lemma_absent(pos as int, key@);
            }
            None
        }
    }

    /// Sets the set stored under `key`, replacing any set stored there before.
    pub fn insert(&mut self, key: String, value: ImageSet)
        ensures
            final(self)@ == old(self)@.insert(key@, value),
    {
        proof {
            use_type_invariant(&*self);
        }
        let (pos, found) = self.find(key.as_str());
        let mut entries = Vec::new();
        std::mem::swap(&mut entries, &mut self.entries);
        if found {
            proof {
                lemma_entries_map_update(entries@, pos as int, key, value);
            }
            entries.set(pos, (key, value));
        } else {
            proof {
                lemma_entries_map_insert(entries@, pos as int, key, value);
            }
            entries.insert(pos, (key, value));
        }
        self.entries = entries;
    }

    /// Removes the set stored under `key` and hands it back, if there is one.
    pub fn remove(&mut self, key: &str) -> (r: Option<ImageSet>)
        ensures
            final(self)@ == old(self)@.remove(key@),
            r matches Some(v) ==> old(self)@.contains_key(key@) && v == old(self)@[key@],
            r is None ==> !old(self)@.contains_key(key@),
    {
        proof {
            use_type_invariant(&*self);
        }
        let (pos, found) = self.find(key);
        if !found {
            proof {
                self.lemma_absent(pos as int, key@);
                assert(self@.remove(key@) =~= self@);
            }
            return None;
        }
        let mut entries = Vec::new();
        std::mem::swap(&mut entries, &mut self.entries);
        proof {
            lemma_entries_map_remove(entries@, pos as int);
            lemma_entries_map_at(entries@, pos as int);
        }
        let (_k, v) = entries.remove(pos);
        self.entries = entries;
        Some(v)
    }

    /// Builds the map by inserting the pairs in order.
    pub fn from_pairs(pairs: Vec<(String, ImageSet)>) -> (m: Self)
        ensures
            m@ == pairs_map(pairs@),
    {
        let ghost all = pairs@;
        let total = pairs.len();
        let mut rest = pairs;
        let mut m = SetMap::new();
        let mut k: usize = 0;
        assert(all.skip(0) =~= all);
        assert(all.take(0) =~= Seq::<(String, ImageSet)>::empty());
        while rest.len() > 0
            invariant
                k <= all.len(),
                total == all.len(),
                rest@ == all.skip(k as int),
                m@ == pairs_map(all.take(k as int)),
            decreases rest@.len(),
        {
            let (key, value) = rest.remove(0);
            assert(all.take(k + 1).drop_last() =~= all.take(k as int));
            assert(all.take(k + 1).last() == all[k as int]);
            assert(rest@ =~= all.skip(k + 1));
            m.insert(key, value);
            k = k + 1;
        }
        assert(all.take(k as int) =~= all);
        m
    }
}

} // verus!
