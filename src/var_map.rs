//! An insertion-ordered map from names to string values.
//!
//! Template variables, defaults and file rules are kept in the order in
//! which they were first written, so that everything computed from them is
//! reproducible from one run to the next.
use vstd::prelude::*;

verus! {

/// The value of the first entry whose key is `k`.
pub open spec fn lookup<V>(es: Seq<(Seq<char>, V)>, k: Seq<char>) -> Option<V>
    decreases es.len(),
{
    if es.len() == 0 {
        None
    } else if es[0].0 == k {
        Some(es[0].1)
    } else {
        lookup(es.drop_first(), k)
    }
}

/// Index of the first entry whose key is `k`, if any.
pub open spec fn position<V>(es: Seq<(Seq<char>, V)>, k: Seq<char>) -> Option<int>
    decreases es.len(),
{
    if es.len() == 0 {
        None
    } else if es[0].0 == k {
        Some(0)
    } else {
        match position(es.drop_first(), k) {
            Some(i) => Some(i + 1),
            None => None,
        }
    }
}

/// `es` after setting `k` to `v`: the first entry with key `k` takes the new
/// value in place; without one, the pair is appended.
pub open spec fn insert_spec<V>(es: Seq<(Seq<char>, V)>, k: Seq<char>, v: V) -> Seq<(Seq<char>, V)> {
    match position(es, k) {
        Some(i) => es.update(i, (k, v)),
        None => es.push((k, v)),
    }
}

pub proof fn lemma_position<V>(es: Seq<(Seq<char>, V)>, k: Seq<char>)
    ensures
        match position(es, k) {
            Some(i) => 0 <= i < es.len() && es[i].0 == k && lookup(es, k) == Some(es[i].1)
                && forall|j: int| 0 <= j < i ==> es[j].0 != k,
            None => lookup(es, k) is None && forall|j: int| 0 <= j < es.len() ==> es[j].0 != k,
        },
    decreases es.len(),
{
    if es.len() > 0 {
        lemma_position(es.drop_first(), k);
        if es[0].0 != k {
            assert forall|j: int| 0 < j < es.len() implies es[j] == es.drop_first()[j - 1] by {}
        }
    }
}

pub proof fn lemma_lookup_first<V>(es: Seq<(Seq<char>, V)>, k: Seq<char>, i: int)
    requires
        0 <= i < es.len(),
        es[i].0 == k,
        forall|j: int| 0 <= j < i ==> es[j].0 != k,
    ensures
        lookup(es, k) == Some(es[i].1),
        position(es, k) == Some(i),
    decreases es.len(),
{
    if i > 0 {
        lemma_lookup_first(es.drop_first(), k, i - 1);
    }
}

pub proof fn lemma_lookup_absent<V>(es: Seq<(Seq<char>, V)>, k: Seq<char>)
    requires
        forall|j: int| 0 <= j < es.len() ==> es[j].0 != k,
    ensures
        lookup(es, k) is None,
        position(es, k) is None,
    decreases es.len(),
{
    if es.len() > 0 {
        lemma_lookup_absent(es.drop_first(), k);
    }
}

/// `es` after setting each pair of `more`, in order.
pub open spec fn insert_all<V>(es: Seq<(Seq<char>, V)>, more: Seq<(Seq<char>, V)>) -> Seq<(Seq<char>, V)>
    decreases more.len(),
{
    if more.len() == 0 {
        es
    } else {
        insert_spec(insert_all(es, more.drop_last()), more.last().0, more.last().1)
    }
}

/// Names mapped to string values, in the order in which they were added.
#[derive(Debug, Clone)]
pub struct VarMap {
    entries: Vec<(String, String)>,
}

impl View for VarMap {
    type V = Seq<(Seq<char>, Seq<char>)>;

    closed spec fn view(&self) -> Self::V {
        self.entries@.map_values(|e: (String, String)| (e.0@, e.1@))
    }
}

impl VarMap {
    pub open spec fn get_spec(&self, k: Seq<char>) -> Option<Seq<char>> {
        lookup(self@, k)
    }

    pub fn new() -> (r: Self)
        ensures
            r@ == Seq::<(Seq<char>, Seq<char>)>::empty(),
    {
        let r = VarMap { entries: Vec::new() };
        assert(r@ =~= Seq::<(Seq<char>, Seq<char>)>::empty());
        r
    }

    pub fn len(&self) -> (r: usize)
        ensures
            r == self@.len(),
    {
        self.entries.len()
    }

    pub fn is_empty(&self) -> (r: bool)
        ensures
            r == (self@.len() == 0),
    {
        self.entries.len() == 0
    }

    fn find(&self, key: &String) -> (r: Option<usize>)
        ensures
            match r {
                Some(i) => position(self@, key@) == Some(i as int),
                None => position(self@, key@) is None,
            },
    {
        let mut i: usize = 0;
        while i < self.entries.len()
            invariant
                0 <= i <= self@.len(),
                self@.len() == self.entries@.len(),
                forall|j: int| 0 <= j < i ==> self@[j].0 != key@,
            decreases self@.len() - i,
        {
            if self.entries[i].0 == *key {
                proof {
                    lemma_lookup_first(self@, key@, i as int);
                }
                return Some(i);
            }
            i = i + 1;
        }
        proof {
            lemma_lookup_absent(self@, key@);
        }
        None
    }

    /// The value of `key`, if it is present.
    pub fn get(&self, key: &str) -> (r: Option<&String>)
        ensures
            match r {
                Some(v) => self.get_spec(key@) == Some(v@),
                None => self.get_spec(key@) is None,
            },
    {
        let k = key.to_owned();
        proof {
            lemma_position(self@, key@);
        }
        match self.find(&k) {
            Some(i) => Some(&self.entries[i].1),
            None => None,
        }
    }

    pub fn contains_key(&self, key: &str) -> (r: bool)
        ensures
            r == (self.get_spec(key@) is Some),
    {
        let k = key.to_owned();
        proof {
            lemma_position(self@, key@);
        }
        self.find(&k).is_some()
    }

    /// Sets `key` to `value`: an existing entry keeps its place, a new one
    /// goes last.
    pub fn insert(&mut self, key: String, value: String)
        ensures
            final(self)@ == insert_spec(old(self)@, key@, value@),
    {
        proof {
            lemma_position(self@, key@);
        }
        match self.find(&key) {
            Some(i) => {
                let ghost kv = (key@, value@);
                self.entries.set(i, (key, value));
                assert(self@ =~= old(self)@.update(i as int, kv));
            },
            None => {
                let ghost kv = (key@, value@);
                self.entries.push((key, value));
                assert(self@ =~= old(self)@.push(kv));
            },
        }
    }

    /// Sets every entry of `other`, in its order.
    pub fn extend_from(&mut self, other: &VarMap)
        ensures
            final(self)@ == insert_all(old(self)@, other@),
    {
        let mut i: usize = 0;
        while i < other.len()
            invariant
                0 <= i <= other@.len(),
                self@ == insert_all(old(self)@, other@.take(i as int)),
            decreases other@.len() - i,
        {
            let (k, v) = other.entry(i);
            proof {
                assert(other@.take(i + 1).drop_last() =~= other@.take(i as int));
            }
            self.insert(k.clone(), v.clone());
            i = i + 1;
        }
        assert(other@.take(other@.len() as int) =~= other@);
    }

    /// The key and value of entry `i`, in insertion order.
    pub fn entry(&self, i: usize) -> (r: (&String, &String))
        requires
            i < self@.len(),
        ensures
            r.0@ == self@[i as int].0,
            r.1@ == self@[i as int].1,
    {
        let e = &self.entries[i];
        (&e.0, &e.1)
    }
}

} // verus!
