use vstd::prelude::*;

verus! {

/// The map that a list of key/value pairs stands for when the pairs are put in
/// one after another: a later pair with a key that came before replaces it.
pub open spec fn map_of_pairs<W>(pairs: Seq<(Seq<char>, W)>) -> Map<Seq<char>, W>
    decreases pairs.len(),
{
    if pairs.len() == 0 {
        Map::empty()
    } else {
        map_of_pairs(pairs.drop_last()).insert(pairs.last().0, pairs.last().1)
    }
}

/// The pairs with each key and each value taken by its view.
pub open spec fn pair_views<V: View>(pairs: Seq<(String, V)>) -> Seq<(Seq<char>, V::V)> {
    pairs.map_values(|p: (String, V)| (p.0@, p.1@))
}

/// No key stands twice among the pairs.
pub open spec fn distinct_keys<W>(pairs: Seq<(Seq<char>, W)>) -> bool {
    forall|i: int, j: int|
        0 <= i < pairs.len() && 0 <= j < pairs.len() && i != j ==> pairs[i].0 != pairs[j].0
}

/// A key stands among the pairs.
pub open spec fn has_key<W>(pairs: Seq<(Seq<char>, W)>, k: Seq<char>) -> bool {
    exists|i: int| 0 <= i < pairs.len() && pairs[i].0 == k
}

/// The keys of the map are exactly those that stand among the pairs, and its
/// domain is finite.
pub proof fn lemma_map_of_pairs_dom<W>(pairs: Seq<(Seq<char>, W)>)
    ensures
        map_of_pairs(pairs).dom().finite(),
        forall|k: Seq<char>| #[trigger]
            map_of_pairs(pairs).contains_key(k) <==> has_key(pairs, k),
    decreases pairs.len(),
{
    if pairs.len() > 0 {
        let rest = pairs.drop_last();
        lemma_map_of_pairs_dom(rest);
        assert forall|k: Seq<char>| #[trigger]
            map_of_pairs(pairs).contains_key(k) <==> has_key(pairs, k) by {
            if has_key(pairs, k) {
                let i = choose|i: int| 0 <= i < pairs.len() && pairs[i].0 == k;
                if i < pairs.len() - 1 {
                    assert(rest[i].0 == k);
                    assert(has_key(rest, k));
                }
            }
            if has_key(rest, k) {
                let i = choose|i: int| 0 <= i < rest.len() && rest[i].0 == k;
                assert(pairs[i].0 == k);
            }
            if k == pairs.last().0 {
                assert(pairs[pairs.len() - 1].0 == k);
            }
        }
    }
}

/// Where no key stands twice, the map gives each key the value that stands beside it.
pub proof fn lemma_map_of_pairs_at<W>(pairs: Seq<(Seq<char>, W)>, i: int)
    requires
        distinct_keys(pairs),
        0 <= i < pairs.len(),
    ensures
        map_of_pairs(pairs).contains_key(pairs[i].0),
        map_of_pairs(pairs)[pairs[i].0] == pairs[i].1,
    decreases pairs.len(),
{
    let rest = pairs.drop_last();
    if i < pairs.len() - 1 {
        assert(distinct_keys(rest));
        lemma_map_of_pairs_at(rest, i);
        assert(rest[i] == pairs[i]);
        assert(pairs[i].0 != pairs[pairs.len() - 1].0);
    }
}

/// Where no key stands twice, the map has as many keys as there are pairs.
pub proof fn lemma_map_of_pairs_len<W>(pairs: Seq<(Seq<char>, W)>)
    requires
        distinct_keys(pairs),
    ensures
        map_of_pairs(pairs).dom().finite(),
        map_of_pairs(pairs).len() == pairs.len(),
    decreases pairs.len(),
{
    lemma_map_of_pairs_dom(pairs);
    if pairs.len() > 0 {
        let rest = pairs.drop_last();
        assert(distinct_keys(rest));
        lemma_map_of_pairs_len(rest);
        lemma_map_of_pairs_dom(rest);
        let k = pairs.last().0;
        if has_key(rest, k) {
            let i = choose|i: int| 0 <= i < rest.len() && rest[i].0 == k;
            assert(pairs[i].0 == pairs[pairs.len() - 1].0);
        }
        assert(!map_of_pairs(rest).contains_key(k));
        assert(map_of_pairs(pairs).dom() =~= map_of_pairs(rest).dom().insert(k));
    }
}

/// Where no key stands twice, giving the pair at `j` a new value gives its key
/// that value in the map and changes nothing else.
pub proof fn lemma_map_of_pairs_update<W>(pairs: Seq<(Seq<char>, W)>, j: int, v: W)
    requires
        distinct_keys(pairs),
        0 <= j < pairs.len(),
    ensures
        map_of_pairs(pairs.update(j, (pairs[j].0, v))) == map_of_pairs(pairs).insert(pairs[j].0, v),
    decreases pairs.len(),
{
    let k = pairs[j].0;
    let updated = pairs.update(j, (k, v));
    let rest = pairs.drop_last();
    if j == pairs.len() - 1 {
        assert(updated.drop_last() =~= rest);
        assert(map_of_pairs(updated) =~= map_of_pairs(pairs).insert(k, v));
    } else {
        assert(distinct_keys(rest));
        lemma_map_of_pairs_update(rest, j, v);
        assert(updated.drop_last() =~= rest.update(j, (k, v)));
        let last = pairs.last();
        assert(updated.last() == last);
        assert(last.0 != k);
        assert(map_of_pairs(updated) =~= map_of_pairs(pairs).insert(k, v));
    }
}

/// A map from strings to values, kept as a list of pairs in which no key
/// stands twice.
#[derive(Debug)]
pub struct StringMap<V> {
    entries: Vec<(String, V)>,
}

impl<V> StringMap<V> {
    /// The keys of the pairs, by their views.
    pub closed spec fn key_seq(self) -> Seq<Seq<char>> {
        self.entries@.map_values(|p: (String, V)| p.0@)
    }

    #[verifier::type_invariant]
    closed spec fn keys_distinct(self) -> bool {
        self.key_seq().no_duplicates()
    }
}

impl<V: View> View for StringMap<V> {
    type V = Map<Seq<char>, V::V>;

    closed spec fn view(&self) -> Map<Seq<char>, V::V> {
        map_of_pairs(pair_views(self.entries@))
    }
}

impl<V: View> StringMap<V> {
    proof fn lemma_distinct(self)
        requires
            self.keys_distinct(),
        ensures
            distinct_keys(pair_views(self.entries@)),
    {
        let pv = pair_views(self.entries@);
        assert forall|i: int, j: int|
            0 <= i < pv.len() && 0 <= j < pv.len() && i != j implies pv[i].0 != pv[j].0 by {
            assert(self.key_seq()[i] == pv[i].0);
            assert(self.key_seq()[j] == pv[j].0);
        }
    }

    /// The position of `key` among the pairs, if it stands there.
    fn position(&self, key: &String) -> (r: Option<usize>)
        ensures
            match r {
                Some(i) => i < self.entries@.len() && self.entries@[i as int].0@ == key@,
                None => !has_key(pair_views(self.entries@), key@),
            },
    {
        let n = self.entries.len();
        let mut i: usize = 0;
        while i < n
            invariant
                n == self.entries@.len(),
                i <= n,
                forall|j: int| 0 <= j < i ==> self.entries@[j].0@ != key@,
            decreases n - i,
        {
            if self.entries[i].0 == *key {
                return Some(i);
            }
            i = i + 1;
        }
        proof {
            let pv = pair_views(self.entries@);
            if has_key(pv, key@) {
                let j = choose|j: int| 0 <= j < pv.len() && pv[j].0 == key@;
                assert(self.entries@[j].0@ == key@);
            }
        }
        None
    }

    /// A map holds finitely many keys.
    pub proof fn lemma_finite(&self)
        ensures
            self@.dom().finite(),
    {
        lemma_map_of_pairs_dom(pair_views(self.entries@));
    }

    /// An empty map.
    pub fn new() -> (r: Self)
        ensures
            r@ == Map::<Seq<char>, V::V>::empty(),
    {
        let r = StringMap { entries: Vec::new() };
        assert(r.key_seq() =~= Seq::empty());
        assert(pair_views(r.entries@) =~= Seq::empty());
        r
    }

    /// Puts `value` under `key`, replacing what stood there.
    pub fn insert(&mut self, key: String, value: V)
        ensures
            final(self)@ == old(self)@.insert(key@, value@),
    {
        proof {
            use_type_invariant(&*self);
            self.lemma_distinct();
        }
        let pos = self.position(&key);
        let mut entries: Vec<(String, V)> = Vec::new();
        std::mem::swap(&mut entries, &mut self.entries);
        let ghost before = entries@;
        let ghost kv = key@;
        let ghost vv = value@;
        match pos {
            Some(j) => {
                entries.set(j, (key, value));
                proof {
                    let pv = pair_views(before);
                    assert(pair_views(entries@) =~= pv.update(j as int, (pv[j as int].0, vv)));
                    lemma_map_of_pairs_update(pv, j as int, vv);
                    let ks = entries@.map_values(|p: (String, V)| p.0@);
                    let old_ks = before.map_values(|p: (String, V)| p.0@);
                    assert(ks =~= old_ks);
                }
            },
            None => {
                entries.push((key, value));
                proof {
                    let pv = pair_views(before);
                    assert(pair_views(entries@) =~= pv.push((kv, vv)));
                    assert(pair_views(entries@).drop_last() =~= pv);
                    let ks = entries@.map_values(|p: (String, V)| p.0@);
                    let old_ks = before.map_values(|p: (String, V)| p.0@);
                    assert(ks =~= old_ks.push(kv));
                    assert forall|a: int, b: int|
                        0 <= a < ks.len() && 0 <= b < ks.len() && a != b implies ks[a] != ks[b] by {
                        if a == ks.len() - 1 {
                            assert(pv[b].0 == old_ks[b]);
                        } else if b == ks.len() - 1 {
                            assert(pv[a].0 == old_ks[a]);
                        }
                    }
                }
            },
        }
        self.entries = entries;
    }

    /// The value under `key`, if there is one.
    pub fn get(&self, key: &String) -> (r: Option<&V>)
        ensures
            match r {
                Some(v) => self@.contains_key(key@) && v@ == self@[key@],
                None => !self@.contains_key(key@),
            },
    {
        proof {
            use_type_invariant(self);
            self.lemma_distinct();
            lemma_map_of_pairs_dom(pair_views(self.entries@));
        }
        match self.position(key) {
            Some(i) => {
                proof {
                    lemma_map_of_pairs_at(pair_views(self.entries@), i as int);
                }
                Some(&self.entries[i].1)
            },
            None => None,
        }
    }

    /// Whether a value stands under `key`.
    pub fn contains_key(&self, key: &String) -> (r: bool)
        ensures
            r == self@.contains_key(key@),
    {
        proof {
            lemma_map_of_pairs_dom(pair_views(self.entries@));
        }
        match self.position(key) {
            Some(i) => {
                proof {
                    assert(pair_views(self.entries@)[i as int].0 == key@);
                }
                true
            },
            None => false,
        }
    }

    /// The number of keys.
    pub fn len(&self) -> (r: usize)
        ensures
            self@.dom().finite(),
            r == self@.len(),
    {
        proof {
            use_type_invariant(self);
            self.lemma_distinct();
            lemma_map_of_pairs_len(pair_views(self.entries@));
        }
        self.entries.len()
    }

    /// The map that `pairs` stands for: each pair is put in in turn, so that of
    /// two pairs with one key the later one stays.
    pub fn from_pairs(pairs: Vec<(String, V)>) -> (r: Self)
        ensures
            r@ == map_of_pairs(pair_views(pairs@)),
    {
        let ghost all = pairs@;
        let mut m = StringMap::new();
        assert(pair_views(all.take(0)) =~= Seq::empty());
        for p in it: pairs.into_iter()
            invariant
                it.seq() == all,
                m@ == map_of_pairs(pair_views(all.take(it.index() as int))),
        {
            let ghost i = it.index() as int;
            let (k, v) = p;
            m.insert(k, v);
            proof {
                assert(pair_views(all.take(i + 1)).drop_last() =~= pair_views(all.take(i)));
                assert(pair_views(all.take(i + 1)).last() == (all[i].0@, all[i].1@));
            }
        }
        assert(all.take(all.len() as int) =~= all);
        m
    }

    /// The pairs of the map, each key once, in no promised order.
    pub fn pairs(&self) -> (r: &[(String, V)])
        ensures
            distinct_keys(pair_views(r@)),
            map_of_pairs(pair_views(r@)) == self@,
            r@.len() == self@.len(),
    {
        proof {
            use_type_invariant(self);
            self.lemma_distinct();
            lemma_map_of_pairs_len(pair_views(self.entries@));
        }
        self.entries.as_slice()
    }

    /// Whether the map has no key.
    pub fn is_empty(&self) -> (r: bool)
        ensures
            self@.dom().finite(),
            r == (self@.len() == 0),
    {
        self.len() == 0
    }
}

impl StringMap<String> {
    /// Whether the two maps hold the same keys with the same values.
    pub fn same_as(&self, other: &StringMap<String>) -> (r: bool)
        ensures
            r == (self@ == other@),
    {
        proof {
            use_type_invariant(self);
            self.lemma_distinct();
            lemma_map_of_pairs_dom(pair_views(self.entries@));
            lemma_map_of_pairs_len(pair_views(self.entries@));
        }
        let n = self.len();
        if n != other.len() {
            return false;
        }
        let mut i: usize = 0;
        while i < n
            invariant
                n == self.entries@.len(),
                n == self@.len(),
                n == other@.len(),
                self@.dom().finite(),
                other@.dom().finite(),
                distinct_keys(pair_views(self.entries@)),
                i <= n,
                forall|j: int|
                    0 <= j < i ==> #[trigger] other@.contains_key(self.entries@[j].0@)
                        && other@[self.entries@[j].0@] == self.entries@[j].1@,
            decreases n - i,
        {
            match other.get(&self.entries[i].0) {
                Some(w) => {
                    if *w != self.entries[i].1 {
                        proof {
                            lemma_map_of_pairs_at(pair_views(self.entries@), i as int);
                        }
                        return false;
                    }
                },
                None => {
                    proof {
                        lemma_map_of_pairs_at(pair_views(self.entries@), i as int);
                    }
                    return false;
                },
            }
            i = i + 1;
        }
        proof {
            let pv = pair_views(self.entries@);
            assert forall|k: Seq<char>| #[trigger] self@.contains_key(k) implies other@.contains_key(k)
                && other@[k] == self@[k] by {
                assert(has_key(pv, k));
                let j = choose|j: int| 0 <= j < pv.len() && pv[j].0 == k;
                lemma_map_of_pairs_at(pv, j);
                assert(self.entries@[j].0@ == k);
            }
            assert(self@.dom().subset_of(other@.dom()));
            vstd::set_lib::lemma_subset_equality(self@.dom(), other@.dom());
            assert(self@ =~= other@);
        }
        true
    }
}

} // verus!
