//! A small map from text keys to text values, kept as a list of pairs with
//! no key twice.

use vstd::prelude::*;

verus! {

/// Key/value pairs as plain character sequences.
pub type Pairs = Seq<(Seq<char>, Seq<char>)>;

pub open spec fn pair_views(e: Seq<(String, String)>) -> Pairs {
    e.map_values(|p: (String, String)| (p.0@, p.1@))
}

/// No key occurs twice.
pub open spec fn distinct_keys(p: Pairs) -> bool {
    forall|i: int, j: int| 0 <= i < p.len() && 0 <= j < p.len() && i != j ==> p[i].0 != p[j].0
}

pub open spec fn has_key(p: Pairs, k: Seq<char>) -> bool {
    exists|i: int| 0 <= i < p.len() && p[i].0 == k
}

/// The map that a list of pairs with distinct keys stands for.
pub open spec fn map_of(p: Pairs) -> Map<Seq<char>, Seq<char>> {
    Map::new(
        |k: Seq<char>| has_key(p, k),
        |k: Seq<char>| p[choose|i: int| 0 <= i < p.len() && p[i].0 == k].1,
    )
}

pub proof fn lemma_map_of_at(p: Pairs, i: int)
    requires
        distinct_keys(p),
        0 <= i < p.len(),
    ensures
        map_of(p).dom().contains(p[i].0),
        map_of(p)[p[i].0] == p[i].1,
{
    let k = p[i].0;
    assert(has_key(p, k));
    let j = choose|j: int| 0 <= j < p.len() && p[j].0 == k;
    assert(j == i);
}

/// A map from text to text, its view a `Map`. It is kept as pairs with
/// distinct keys rather than as std's `HashMap`: vstd specifies a `HashMap`'s
/// contents only for keys whose hashing it models (`bool` and the integer
/// types, through `obeys_key_model`), and `String` is not among them.
pub struct StringMap {
    entries: Vec<(String, String)>,
}

impl View for StringMap {
    type V = Map<Seq<char>, Seq<char>>;

    closed spec fn view(&self) -> Map<Seq<char>, Seq<char>> {
        map_of(pair_views(self.entries@))
    }
}

impl StringMap {
    #[verifier::type_invariant]
    spec fn keys_distinct(&self) -> bool {
        distinct_keys(pair_views(self.entries@))
    }

    /// The pairs, in the order they were first inserted.
    pub closed spec fn pairs(&self) -> Pairs {
        pair_views(self.entries@)
    }

    /// The empty map.
    pub fn new() -> (m: Self)
        ensures
            m@ == Map::<Seq<char>, Seq<char>>::empty(),
            m.pairs().len() == 0,
    {
        let m = StringMap { entries: Vec::new() };
        assert(m@ =~= Map::<Seq<char>, Seq<char>>::empty());
        m
    }

    fn index_of(&self, key: &String) -> (res: Option<usize>)
        ensures
            match res {
                Some(i) => i < self.pairs().len() && self.pairs()[i as int].0 == key@,
                None => !has_key(self.pairs(), key@),
            },
    {
        let n = self.entries.len();
        for i in 0..n
            invariant
                n == self.entries@.len(),
                forall|j: int| 0 <= j < i ==> self.pairs()[j].0 != key@,
        {
            if self.entries[i].0 == *key {
                return Some(i);
            }
        }
        None
    }

    /// The value stored under `key`.
    pub fn get(&self, key: &String) -> (res: Option<String>)
        ensures
            match res {
                Some(v) => self@.dom().contains(key@) && self@[key@] == v@,
                None => !self@.dom().contains(key@),
            },
    {
        proof {
            use_type_invariant(self);
        }
        match self.index_of(key) {
            Some(i) => {
                proof {
                    lemma_map_of_at(self.pairs(), i as int);
                }
                Some(self.entries[i].1.clone())
            },
            None => None,
        }
    }

    /// Stores `value` under `key`, replacing what was there.
    pub fn insert(&mut self, key: String, value: String)
        ensures
            final(self)@ == old(self)@.insert(key@, value@),
            has_key(old(self).pairs(), key@) ==> final(self).pairs().len() == old(self).pairs().len(),
            !has_key(old(self).pairs(), key@) ==> final(self).pairs() == old(self).pairs().push(
                (key@, value@),
            ),
    {
        proof {
            use_type_invariant(&*self);
        }
        let ghost old_p = self.pairs();
        let ghost old_v = self@;
        let ghost k = key@;
        let ghost v = value@;
        match self.index_of(&key) {
            Some(i) => {
                let mut entries: Vec<(String, String)> = Vec::new();
                std::mem::swap(&mut entries, &mut self.entries);
                entries.set(i, (key, value));
                let ghost new_p = pair_views(entries@);
                assert(new_p =~= old_p.update(i as int, (k, v)));
                assert(distinct_keys(new_p));
                proof {
                    assert forall|q: Seq<char>| #![auto]
                        map_of(new_p).dom().contains(q) <==> old_v.insert(k, v).dom().contains(q) by {
                        if has_key(old_p, q) {
                            let j = choose|j: int| 0 <= j < old_p.len() && old_p[j].0 == q;
                            assert(new_p[j].0 == q);
                        }
                        if has_key(new_p, q) {
                            let j = choose|j: int| 0 <= j < new_p.len() && new_p[j].0 == q;
                            assert(old_p[j].0 == q || j == i);
                        }
                    }
                    assert forall|q: Seq<char>| #[trigger]
                        map_of(new_p).dom().contains(q) implies map_of(new_p)[q] == old_v.insert(
                        k,
                        v,
                    )[q] by {
                        let j = choose|j: int| 0 <= j < new_p.len() && new_p[j].0 == q;
                        lemma_map_of_at(new_p, j);
                        if j != i {
                            lemma_map_of_at(old_p, j);
                        }
                    }
                    assert(map_of(new_p) =~= old_v.insert(k, v));
                }
                self.entries = entries;
            },
            None => {
                let mut entries: Vec<(String, String)> = Vec::new();
                std::mem::swap(&mut entries, &mut self.entries);
                entries.push((key, value));
                let ghost new_p = pair_views(entries@);
                assert(new_p =~= old_p.push((k, v)));
                assert(distinct_keys(new_p));
                proof {
                    assert forall|q: Seq<char>| #![auto]
                        map_of(new_p).dom().contains(q) <==> old_v.insert(k, v).dom().contains(q) by {
                        if has_key(old_p, q) {
                            let j = choose|j: int| 0 <= j < old_p.len() && old_p[j].0 == q;
                            assert(new_p[j].0 == q);
                        }
                        if q == k {
                            assert(new_p[old_p.len() as int].0 == q);
                        }
                    }
                    assert forall|q: Seq<char>| #[trigger]
                        map_of(new_p).dom().contains(q) implies map_of(new_p)[q] == old_v.insert(
                        k,
                        v,
                    )[q] by {
                        let j = choose|j: int| 0 <= j < new_p.len() && new_p[j].0 == q;
                        lemma_map_of_at(new_p, j);
                        if j < old_p.len() {
                            lemma_map_of_at(old_p, j);
                        }
                    }
                    assert(map_of(new_p) =~= old_v.insert(k, v));
                }
                self.entries = entries;
            },
        }
    }

    /// The number of keys.
    pub fn len(&self) -> (n: usize)
        ensures
            n == self.pairs().len(),
            distinct_keys(self.pairs()),
            self@ == map_of(self.pairs()),
    {
        proof {
            use_type_invariant(self);
        }
        self.entries.len()
    }

    /// The pairs, in the order they were first inserted.
    pub fn to_pairs(&self) -> (res: Vec<(String, String)>)
        ensures
            pair_views(res@) == self.pairs(),
            distinct_keys(pair_views(res@)),
            self@ == map_of(pair_views(res@)),
    {
        proof {
            use_type_invariant(self);
        }
        let mut res: Vec<(String, String)> = Vec::new();
        let n = self.entries.len();
        for i in 0..n
            invariant
                n == self.entries@.len(),
                pair_views(res@) == self.pairs().take(i as int),
        {
            let p = (self.entries[i].0.clone(), self.entries[i].1.clone());
            let ghost before = pair_views(res@);
            res.push(p);
            assert(pair_views(res@) =~= before.push(self.pairs()[i as int]));
            assert(self.pairs().take(i + 1) =~= self.pairs().take(i as int).push(
                self.pairs()[i as int],
            ));
        }
        assert(self.pairs().take(n as int) =~= self.pairs());
        res
    }

    /// The map of a list of pairs with distinct keys.
    pub fn from_pairs(pairs: Vec<(String, String)>) -> (m: Self)
        requires
            distinct_keys(pair_views(pairs@)),
        ensures
            m@ == map_of(pair_views(pairs@)),
    {
        let ghost all = pair_views(pairs@);
        let mut m = StringMap::new();
        let mut rest = pairs;
        let ghost mut k: int = 0;
        while rest.len() > 0
            invariant
                0 <= k <= all.len(),
                distinct_keys(all),
                pair_views(rest@) == all.skip(k),
                rest@.len() == all.len() - k,
                m.pairs() == all.take(k),
                m@ == map_of(all.take(k)),
            decreases rest@.len(),
        {
            let ghost old_rest = rest@;
            let p = rest.remove(0);
            proof {
                assert(all.skip(k)[0] == (p.0@, p.1@));
                assert forall|j: int| 0 <= j < rest@.len() implies #[trigger] pair_views(rest@)[j]
                    == all.skip(k + 1)[j] by {
                    assert(rest@[j] == old_rest[j + 1]);
                    assert(pair_views(old_rest)[j + 1] == all.skip(k)[j + 1]);
                }
                assert(pair_views(rest@) =~= all.skip(k + 1));
                assert(all.take(k + 1) =~= all.take(k).push(all[k]));
                assert(!has_key(all.take(k), all[k].0)) by {
                    if has_key(all.take(k), all[k].0) {
                        let j = choose|j: int| 0 <= j < k && all.take(k)[j].0 == all[k].0;
                        assert(all[j].0 == all[k].0);
                    }
                }
            }
            m.insert(p.0, p.1);
            proof {
                k = k + 1;
            }
        }
        assert(all.take(k) =~= all);
        m
    }

    /// The pair at position `i`.
    pub fn pair_at(&self, i: usize) -> (res: (String, String))
        requires
            i < self.pairs().len(),
        ensures
            (res.0@, res.1@) == self.pairs()[i as int],
    {
        (self.entries[i].0.clone(), self.entries[i].1.clone())
    }
}

/// A value stored under a key is read back; other keys keep theirs.
pub proof fn lemma_insert_then_get(
    m: Map<Seq<char>, Seq<char>>,
    k: Seq<char>,
    v: Seq<char>,
    other: Seq<char>,
)
    ensures
        m.insert(k, v).dom().contains(k),
        m.insert(k, v)[k] == v,
        other != k ==> (m.insert(k, v).dom().contains(other) == m.dom().contains(other)),
        other != k && m.dom().contains(other) ==> m.insert(k, v)[other] == m[other],
{
}

} // verus!
