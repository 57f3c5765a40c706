//! A map from text to text that remembers the order in which its keys came.
//!
//! Requests keep their headers and query parameters in it, responses their headers.
//! A key occurs once: writing a key again replaces its value and leaves its place.

use vstd::prelude::*;

verus! {

/// The map that a list of pairs stands for when a later pair replaces an earlier one
/// with the same key.
pub open spec fn pairs_map(p: Seq<(Seq<char>, Seq<char>)>) -> Map<Seq<char>, Seq<char>>
    decreases p.len(),
{
    if p.len() == 0 {
        Map::empty()
    } else {
        pairs_map(p.drop_last()).insert(p.last().0, p.last().1)
    }
}

/// No key occurs twice in `p`.
pub open spec fn distinct_keys(p: Seq<(Seq<char>, Seq<char>)>) -> bool {
    forall|i: int, j: int| 0 <= i < j < p.len() ==> p[i].0 != p[j].0
}

/// The index of the pair with key `k` in `p`, or `p.len()` when there is none.
pub open spec fn key_index(p: Seq<(Seq<char>, Seq<char>)>, k: Seq<char>) -> int
    decreases p.len(),
{
    if p.len() == 0 {
        0
    } else if p[0].0 == k {
        0
    } else {
        1 + key_index(p.skip(1), k)
    }
}

/// `p` with `v` written under `k`: in the place of the first pair with that key, or at
/// the end when no pair has it.
pub open spec fn upsert(p: Seq<(Seq<char>, Seq<char>)>, k: Seq<char>, v: Seq<char>) -> Seq<
    (Seq<char>, Seq<char>),
> {
    let i = key_index(p, k);
    if 0 <= i < p.len() {
        p.update(i, (k, v))
    } else {
        p.push((k, v))
    }
}

/// [`key_index`] is the first place of the key, and the length if the key is absent.
pub proof fn lemma_key_index(p: Seq<(Seq<char>, Seq<char>)>, k: Seq<char>)
    ensures
        0 <= key_index(p, k) <= p.len(),
        forall|j: int| 0 <= j < key_index(p, k) ==> p[j].0 != k,
        key_index(p, k) < p.len() ==> p[key_index(p, k)].0 == k,
    decreases p.len(),
{
    if p.len() != 0 && p[0].0 != k {
        let t = p.skip(1);
        lemma_key_index(t, k);
        let i = key_index(p, k);
        assert forall|j: int| 0 <= j < i implies p[j].0 != k by {
            if j > 0 {
                assert(t[j - 1] == p[j]);
            }
        }
        if i < p.len() {
            assert(t[i - 1] == p[i]);
        }
    }
}

/// A place before which the key does not occur, and which holds it or is the end, is
/// [`key_index`].
pub proof fn lemma_key_index_unique(p: Seq<(Seq<char>, Seq<char>)>, k: Seq<char>, i: int)
    requires
        0 <= i <= p.len(),
        forall|j: int| 0 <= j < i ==> p[j].0 != k,
        i < p.len() ==> p[i].0 == k,
    ensures
        key_index(p, k) == i,
{
    lemma_key_index(p, k);
    let n = key_index(p, k);
    if n < i {
        assert(p[n].0 != k);
    } else if i < n {
        assert(p[i].0 == k);
    }
}

/// The keys of the map are the keys of the pairs.
pub proof fn lemma_pairs_map_keys(p: Seq<(Seq<char>, Seq<char>)>, k: Seq<char>)
    ensures
        pairs_map(p).contains_key(k) <==> key_index(p, k) < p.len(),
    decreases p.len(),
{
    lemma_key_index(p, k);
    if p.len() != 0 {
        let q = p.drop_last();
        lemma_pairs_map_keys(q, k);
        lemma_key_index(q, k);
        if key_index(q, k) < q.len() {
            assert(p[key_index(q, k)] == q[key_index(q, k)]);
        }
        if key_index(p, k) < q.len() {
            assert(q[key_index(p, k)] == p[key_index(p, k)]);
        }
    }
}

/// Where no key occurs twice, each pair's key maps to that pair's value.
pub proof fn lemma_pairs_map_value(p: Seq<(Seq<char>, Seq<char>)>, i: int)
    requires
        distinct_keys(p),
        0 <= i < p.len(),
    ensures
        pairs_map(p).contains_key(p[i].0),
        pairs_map(p)[p[i].0] == p[i].1,
    decreases p.len(),
{
    let q = p.drop_last();
    if i < p.len() - 1 {
        assert(q[i] == p[i]);
        assert(distinct_keys(q)) by {
            assert forall|a: int, b: int| 0 <= a < b < q.len() implies q[a].0 != q[b].0 by {
                assert(q[a] == p[a] && q[b] == p[b]);
            }
        }
        lemma_pairs_map_value(q, i);
        assert(p[i].0 != p[p.len() - 1].0);
    }
}

/// Writing a key with [`upsert`] is inserting it into the map, and leaves no key twice.
pub proof fn lemma_upsert(p: Seq<(Seq<char>, Seq<char>)>, k: Seq<char>, v: Seq<char>)
    requires
        distinct_keys(p),
    ensures
        distinct_keys(upsert(p, k, v)),
        pairs_map(upsert(p, k, v)) == pairs_map(p).insert(k, v),
    decreases p.len(),
{
    lemma_key_index(p, k);
    let i = key_index(p, k);
    let r = upsert(p, k, v);
    if i < p.len() {
        assert forall|a: int, b: int| 0 <= a < b < r.len() implies r[a].0 != r[b].0 by {
            assert(r[a].0 == p[a].0 && r[b].0 == p[b].0);
        }
        let q = p.drop_last();
        assert(distinct_keys(q)) by {
            assert forall|a: int, b: int| 0 <= a < b < q.len() implies q[a].0 != q[b].0 by {
                assert(q[a] == p[a] && q[b] == p[b]);
            }
        }
        if i == p.len() - 1 {
            assert(r.drop_last() =~= q);
            assert(pairs_map(r) =~= pairs_map(p).insert(k, v));
        } else {
            assert(q[i] == p[i]);
            lemma_key_index_unique(q, k, i);
            lemma_upsert(q, k, v);
            assert(r.drop_last() =~= upsert(q, k, v));
            assert(p.last().0 != k);
            assert(pairs_map(r) =~= pairs_map(p).insert(k, v));
        }
    } else {
        assert forall|a: int, b: int| 0 <= a < b < r.len() implies r[a].0 != r[b].0 by {
            if b < p.len() {
                assert(r[a] == p[a] && r[b] == p[b]);
            } else {
                assert(r[a] == p[a]);
            }
        }
        assert(r.drop_last() =~= p);
    }
}

/// A map from text to text that keeps its keys in the order in which they first came.
#[derive(Debug)]
pub struct StringMap {
    entries: Vec<(String, String)>,
}

impl View for StringMap {
    type V = Map<Seq<char>, Seq<char>>;

    open spec fn view(&self) -> Map<Seq<char>, Seq<char>> {
        pairs_map(self.pairs())
    }
}

impl StringMap {
    /// The keys with their values, in the order in which the keys first came.
    pub closed spec fn pairs(&self) -> Seq<(Seq<char>, Seq<char>)> {
        self.entries@.map_values(|e: (String, String)| (e.0@, e.1@))
    }

    #[verifier::type_invariant]
    spec fn keys_are_distinct(&self) -> bool {
        distinct_keys(self.pairs())
    }

    /// A map without keys.
    pub fn new() -> (m: StringMap)
        ensures
            m@ == Map::<Seq<char>, Seq<char>>::empty(),
            m.pairs() == Seq::<(Seq<char>, Seq<char>)>::empty(),
    {
        let m = StringMap { entries: Vec::new() };
        assert(m.pairs() =~= Seq::empty());
        m
    }

    /// The number of keys.
    pub fn len(&self) -> (n: usize)
        ensures
            n == self.pairs().len(),
            n == self@.len(),
            distinct_keys(self.pairs()),
    {
        proof {
            use_type_invariant(self);
            lemma_len(self.pairs());
        }
        self.entries.len()
    }

    /// Whether the map has no key.
    pub fn is_empty(&self) -> (b: bool)
        ensures
            b == (self.pairs().len() == 0),
            b == (self@ == Map::<Seq<char>, Seq<char>>::empty()),
    {
        proof {
            use_type_invariant(self);
            lemma_len(self.pairs());
            if self.pairs().len() == 0 {
                assert(self@ =~= Map::empty());
            }
        }
        self.entries.len() == 0
    }

    /// The key and the value in place `i`.
    pub fn entry(&self, i: usize) -> (e: (&String, &String))
        requires
            i < self.pairs().len(),
        ensures
            (e.0@, e.1@) == self.pairs()[i as int],
    {
        let e = &self.entries[i];
        (&e.0, &e.1)
    }

    /// Where `key` stands among the pairs.
    fn position(&self, key: &str) -> (i: usize)
        ensures
            i == key_index(self.pairs(), key@),
            i <= self.pairs().len(),
    {
        let wanted = key.to_owned();
        let mut i: usize = 0;
        while i < self.entries.len() && !(self.entries[i].0 == wanted)
            invariant
                i <= self.entries.len(),
                wanted@ == key@,
                forall|j: int| 0 <= j < i ==> self.pairs()[j].0 != key@,
            decreases self.entries.len() - i,
        {
            i += 1;
        }
        proof {
            lemma_key_index_unique(self.pairs(), key@, i as int);
        }
        i
    }

    /// Whether `key` is in the map.
    pub fn contains_key(&self, key: &str) -> (b: bool)
        ensures
            b == self@.contains_key(key@),
    {
        proof {
            lemma_pairs_map_keys(self.pairs(), key@);
        }
        self.position(key) < self.entries.len()
    }

    /// The value under `key`, if the key is in the map.
    pub fn get(&self, key: &str) -> (r: Option<&String>)
        ensures
            match r {
                Some(v) => self@.contains_key(key@) && v@ == self@[key@],
                None => !self@.contains_key(key@),
            },
    {
        let i = self.position(key);
        proof {
            use_type_invariant(self);
            lemma_pairs_map_keys(self.pairs(), key@);
            lemma_key_index(self.pairs(), key@);
            if i < self.pairs().len() {
                lemma_pairs_map_value(self.pairs(), i as int);
            }
        }
        if i < self.entries.len() {
            Some(&self.entries[i].1)
        } else {
            None
        }
    }

    /// Writes `value` under `key`. A key that is in the map keeps its place and gets the
    /// new value; a new key goes to the end.
    pub fn insert(&mut self, key: String, value: String)
        ensures
            final(self)@ == old(self)@.insert(key@, value@),
            final(self).pairs() == upsert(old(self).pairs(), key@, value@),
    {
        let i = self.position(key.as_str());
        proof {
            use_type_invariant(&*self);
            lemma_upsert(self.pairs(), key@, value@);
        }
        let ghost before = self.pairs();
        let mut taken = StringMap::new();
        std::mem::swap(self, &mut taken);
        let mut entries = taken.entries;
        if i < entries.len() {
            entries[i] = (key, value);
        } else {
            entries.push((key, value));
        }
        assert(entries@.map_values(|e: (String, String)| (e.0@, e.1@)) =~= upsert(
            before,
            key@,
            value@,
        ));
        *self = StringMap { entries };
    }
}

impl Clone for StringMap {
    /// A map with the same keys and values, in the same order.
    fn clone(&self) -> (copy: StringMap)
        ensures
            copy.pairs() == self.pairs(),
            copy@ == self@,
    {
        proof {
            use_type_invariant(self);
        }
        let mut entries: Vec<(String, String)> = Vec::new();
        let mut i: usize = 0;
        while i < self.entries.len()
            invariant
                i <= self.entries.len(),
                entries@.len() == i,
                entries@.map_values(|e: (String, String)| (e.0@, e.1@)) == self.pairs().take(
                    i as int,
                ),
            decreases self.entries.len() - i,
        {
            let e = &self.entries[i];
            let ghost before = entries@;
            entries.push((e.0.clone(), e.1.clone()));
            proof {
                let f = |e: (String, String)| (e.0@, e.1@);
                let now = entries@.map_values(f);
                let want = self.pairs().take(i + 1);
                assert forall|j: int| 0 <= j < now.len() implies now[j] == want[j] by {
                    if j < i {
                        assert(before.map_values(f)[j] == self.pairs().take(i as int)[j]);
                        assert(entries@[j] == before[j]);
                    }
                }
                assert(now =~= want);
            }
            i += 1;
        }
        assert(self.pairs().take(i as int) =~= self.pairs());
        StringMap { entries }
    }
}

/// Where no key occurs twice, the map has as many keys as there are pairs.
pub proof fn lemma_len(p: Seq<(Seq<char>, Seq<char>)>)
    requires
        distinct_keys(p),
    ensures
        pairs_map(p).dom().finite(),
        pairs_map(p).len() == p.len(),
    decreases p.len(),
{
    if p.len() != 0 {
        let q = p.drop_last();
        assert(distinct_keys(q)) by {
            assert forall|a: int, b: int| 0 <= a < b < q.len() implies q[a].0 != q[b].0 by {
                assert(q[a] == p[a] && q[b] == p[b]);
            }
        }
        lemma_len(q);
        lemma_pairs_map_keys(q, p.last().0);
        lemma_key_index(q, p.last().0);
        if key_index(q, p.last().0) < q.len() {
            assert(q[key_index(q, p.last().0)] == p[key_index(q, p.last().0)]);
        }
    }
}

} // verus!
