//! The options of a tunnel: the names and values after the `?` of its text.

use crate::weburl::pairs_view;
use vstd::prelude::*;

verus! {

/// Names with their values, both as texts.
pub type Pairs = Seq<(Seq<char>, Seq<char>)>;

/// The least index at or after `from` where `p` holds the name `key`, or the length of `p`.
pub open spec fn key_index(p: Pairs, key: Seq<char>, from: int) -> int
    decreases p.len() - from,
{
    if from < 0 || from >= p.len() {
        p.len() as int
    } else if p[from].0 == key {
        from
    } else {
        key_index(p, key, from + 1)
    }
}

/// The value that `p` holds for `key`.
pub open spec fn lookup(p: Pairs, key: Seq<char>) -> Option<Seq<char>> {
    let at = key_index(p, key, 0);
    if at < p.len() {
        Some(p[at].1)
    } else {
        None
    }
}

/// `p` with `value` for `key`: in place of the value that `p` held for it, or at the end.
pub open spec fn put(p: Pairs, key: Seq<char>, value: Seq<char>) -> Pairs {
    let at = key_index(p, key, 0);
    if at < p.len() {
        p.update(at, (key, value))
    } else {
        p.push((key, value))
    }
}

/// The pairs `q` put one after the other: of two values for one name the later one stays.
pub open spec fn collect(q: Pairs) -> Pairs
    decreases q.len(),
{
    if q.len() == 0 {
        Seq::empty()
    } else {
        put(collect(q.drop_last()), q.last().0, q.last().1)
    }
}

/// Whether no name occurs twice in `p`.
pub open spec fn distinct_keys(p: Pairs) -> bool {
    forall|i: int, j: int| 0 <= i < j < p.len() ==> (#[trigger] p[i]).0 != (#[trigger] p[j]).0
}

/// The map from each name in `p` to its value.
pub open spec fn as_map(p: Pairs) -> Map<Seq<char>, Seq<char>> {
    Map::new(|k: Seq<char>| lookup(p, k) is Some, |k: Seq<char>| lookup(p, k)->0)
}

/// `key_index` is in range, names `key` unless it is the length, and nothing between `from`
/// and it does.
pub proof fn lemma_key_index(p: Pairs, key: Seq<char>, from: int)
    requires
        0 <= from <= p.len(),
    ensures
        from <= key_index(p, key, from) <= p.len(),
        key_index(p, key, from) < p.len() ==> p[key_index(p, key, from)].0 == key,
        forall|j: int| from <= j < key_index(p, key, from) ==> (#[trigger] p[j]).0 != key,
    decreases p.len() - from,
{
    if from < p.len() && p[from].0 != key {
        lemma_key_index(p, key, from + 1);
    }
}

/// An index `at` that names `key`, with no index between `from` and `at` that does, is
/// what `key_index` returns; so is the length, where no index from `from` on names `key`.
pub proof fn lemma_key_index_is(p: Pairs, key: Seq<char>, from: int, at: int)
    requires
        0 <= from <= at <= p.len(),
        at < p.len() ==> p[at].0 == key,
        forall|j: int| from <= j < at ==> (#[trigger] p[j]).0 != key,
    ensures
        key_index(p, key, from) == at,
    decreases at - from,
{
    if from < at {
        assert(p[from].0 != key);
        lemma_key_index_is(p, key, from + 1, at);
    }
}

/// After `put`, the name put has the value put, and every other name has the value it had.
pub proof fn lemma_lookup_put(p: Pairs, key: Seq<char>, value: Seq<char>, other: Seq<char>)
    ensures
        lookup(put(p, key, value), other) == if other == key {
            Some(value)
        } else {
            lookup(p, other)
        },
{
    let at = key_index(p, key, 0);
    let q = put(p, key, value);
    lemma_key_index(p, key, 0);
    lemma_key_index(p, other, 0);
    let was = key_index(p, other, 0);
    if other == key {
        lemma_key_index_is(q, key, 0, at);
    } else {
        assert forall|j: int| 0 <= j < was implies (#[trigger] q[j]).0 != other by {
            assert(p[j].0 != other);
        }
        if was < p.len() {
            assert(q[was] == p[was]);
            lemma_key_index_is(q, other, 0, was);
        } else {
            lemma_key_index_is(q, other, 0, q.len() as int);
        }
    }
}

/// `put` keeps names from occurring twice.
pub proof fn lemma_put_distinct(p: Pairs, key: Seq<char>, value: Seq<char>)
    requires
        distinct_keys(p),
    ensures
        distinct_keys(put(p, key, value)),
{
    let at = key_index(p, key, 0);
    let q = put(p, key, value);
    lemma_key_index(p, key, 0);
    assert forall|i: int, j: int| 0 <= i < j < q.len() implies (#[trigger] q[i]).0 != (
    #[trigger] q[j]).0 by {
        if at < p.len() {
            assert(q[i].0 == p[i].0);
            assert(q[j].0 == p[j].0);
        } else if j == p.len() {
            assert(q[i] == p[i]);
        } else {
            assert(q[i] == p[i]);
            assert(q[j] == p[j]);
        }
    }
}

/// As maps, `put` is the insertion of a key with its value.
pub proof fn lemma_put_is_insert(p: Pairs, key: Seq<char>, value: Seq<char>)
    ensures
        as_map(put(p, key, value)) == as_map(p).insert(key, value),
{
    assert forall|k: Seq<char>|
        lookup(put(p, key, value), k) == (if k == key {
            Some(value)
        } else {
            #[trigger] lookup(p, k)
        }) by {
        lemma_lookup_put(p, key, value, k);
    }
    assert(as_map(put(p, key, value)) =~= as_map(p).insert(key, value));
}

/// Of two values that pairs give to one name, the later one stays: after the pairs `q`
/// and one more pair, the name of that pair has the value of that pair, and every other
/// name has the value that `q` gave it.
pub proof fn lemma_collect_later_stays(q: Pairs, key: Seq<char>, value: Seq<char>, other: Seq<char>)
    ensures
        lookup(collect(q.push((key, value))), other) == if other == key {
            Some(value)
        } else {
            lookup(collect(q), other)
        },
{
    assert(q.push((key, value)).drop_last() == q);
    lemma_lookup_put(collect(q), key, value, other);
}

/// The options of a tunnel: names with their values, no name twice.
#[derive(Clone, Debug, PartialEq, Eq)]
pub struct TunnelOptions {
    pairs: Vec<(String, String)>,
}

impl View for TunnelOptions {
    type V = Map<Seq<char>, Seq<char>>;

    closed spec fn view(&self) -> Map<Seq<char>, Seq<char>> {
        as_map(pairs_view(self.pairs@))
    }
}

impl TunnelOptions {
    /// The names with their values, in the order in which the names first came.
    pub closed spec fn entries(&self) -> Pairs {
        pairs_view(self.pairs@)
    }

    /// No name occurs twice.
    pub closed spec fn wf(&self) -> bool {
        distinct_keys(pairs_view(self.pairs@))
    }

    /// The map is the one of the entries.
    pub proof fn lemma_view(&self)
        ensures
            self@ == as_map(self.entries()),
    {
    }

    /// No options.
    pub fn new() -> (out: TunnelOptions)
        ensures
            out.wf(),
            out.entries() == Seq::<(Seq<char>, Seq<char>)>::empty(),
            out@ == Map::<Seq<char>, Seq<char>>::empty(),
    {
        let out = TunnelOptions { pairs: Vec::new() };
        assert(pairs_view(out.pairs@) =~= Seq::<(Seq<char>, Seq<char>)>::empty());
        assert(out@ =~= Map::<Seq<char>, Seq<char>>::empty());
        out
    }

    /// How many names have a value.
    pub fn len(&self) -> (n: usize)
        ensures
            n == self.entries().len(),
    {
        self.pairs.len()
    }

    /// Where `key` stands among the pairs, or their count.
    fn position(&self, key: &String) -> (at: usize)
        ensures
            at == key_index(self.entries(), key@, 0),
            at <= self.pairs.len(),
    {
        let ghost p = pairs_view(self.pairs@);
        let mut i: usize = 0;
        while i < self.pairs.len()
            invariant
                i <= self.pairs.len(),
                p == pairs_view(self.pairs@),
                key_index(p, key@, i as int) == key_index(p, key@, 0),
            decreases self.pairs.len() - i,
        {
            assert(p[i as int].0 == self.pairs@[i as int].0@);
            if self.pairs[i].0 == *key {
                return i;
            }
            i += 1;
        }
        i
    }

    /// Gives `key` the value `value`, in place of the one it had.
    pub fn insert(&mut self, key: String, value: String)
        requires
            old(self).wf(),
        ensures
            final(self).wf(),
            final(self).entries() == put(old(self).entries(), key@, value@),
            final(self)@ == old(self)@.insert(key@, value@),
    {
        let ghost before = pairs_view(self.pairs@);
        let at = self.position(&key);
        proof {
            lemma_put_distinct(before, key@, value@);
            lemma_put_is_insert(before, key@, value@);
        }
        if at < self.pairs.len() {
            self.pairs[at] = (key, value);
        } else {
            self.pairs.push((key, value));
        }
        assert(pairs_view(self.pairs@) =~= put(before, key@, value@));
    }

    /// The value of `key`, where it has one.
    pub fn get(&self, key: &str) -> (r: Option<&String>)
        ensures
            match r {
                Some(v) => self@.contains_key(key@) && self@[key@] == v@,
                None => !self@.contains_key(key@),
            },
            match r {
                Some(v) => lookup(self.entries(), key@) == Some(v@),
                None => lookup(self.entries(), key@) is None,
            },
    {
        let name: String = key.to_owned();
        let at = self.position(&name);
        if at < self.pairs.len() {
            assert(pairs_view(self.pairs@)[at as int].1 == self.pairs@[at as int].1@);
            Some(&self.pairs[at].1)
        } else {
            None
        }
    }

    /// Whether `key` has a value.
    pub fn contains_key(&self, key: &str) -> (r: bool)
        ensures
            r == self@.contains_key(key@),
            r == lookup(self.entries(), key@) is Some,
    {
        self.get(key).is_some()
    }

    /// The options that the pairs `query` give one after the other: of two values for one
    /// name the later one stays.
    pub fn from_pairs(query: Vec<(String, String)>) -> (out: TunnelOptions)
        ensures
            out.wf(),
            out.entries() == collect(pairs_view(query@)),
    {
        let mut out = TunnelOptions::new();
        let ghost q = pairs_view(query@);
        let mut i: usize = 0;
        while i < query.len()
            invariant
                i <= query.len(),
                q == pairs_view(query@),
                out.wf(),
                out.entries() == collect(q.take(i as int)),
            decreases query.len() - i,
        {
            let key = query[i].0.clone();
            let value = query[i].1.clone();
            proof {
                assert(q.take(i + 1).drop_last() == q.take(i as int));
                assert(q.take(i + 1).last() == (key@, value@));
            }
            out.insert(key, value);
            i += 1;
        }
        assert(q.take(query.len() as int) == q);
        out
    }
}

} // verus!
