//! Typed options of template variables, keyed by variable name.
use vstd::prelude::*;

verus! {

/// What the manifest says of one variable: its kind (`boolean`, `enum`,
/// `string`, or empty), its allowed values, its description.
#[derive(Debug, Clone, Default)]
pub struct VariableOption {
    pub var_type: String,
    pub possible_values: Vec<String>,
    pub description: String,
}

pub open spec fn strings_view(v: Seq<String>) -> Seq<Seq<char>> {
    v.map_values(|s: String| s@)
}

impl View for VariableOption {
    type V = (Seq<char>, Seq<Seq<char>>, Seq<char>);

    open spec fn view(&self) -> Self::V {
        (self.var_type@, strings_view(self.possible_values@), self.description@)
    }
}

pub open spec fn empty_option() -> (Seq<char>, Seq<Seq<char>>, Seq<char>) {
    (Seq::empty(), Seq::empty(), Seq::empty())
}

pub type OptionView = (Seq<char>, Seq<Seq<char>>, Seq<char>);

/// Index of the entry for `k`, if any.
pub open spec fn opt_position(es: Seq<(Seq<char>, OptionView)>, k: Seq<char>) -> Option<int>
    decreases es.len(),
{
    if es.len() == 0 {
        None
    } else if es[0].0 == k {
        Some(0)
    } else {
        match opt_position(es.drop_first(), k) {
            Some(i) => Some(i + 1),
            None => None,
        }
    }
}

/// The option of `k`, or the empty option where none was written yet.
pub open spec fn opt_current(es: Seq<(Seq<char>, OptionView)>, k: Seq<char>) -> OptionView {
    match opt_position(es, k) {
        Some(i) => es[i].1,
        None => empty_option(),
    }
}

/// `es` with the option of `k` replaced by `o`, in place, or appended.
pub open spec fn opt_put(es: Seq<(Seq<char>, OptionView)>, k: Seq<char>, o: OptionView) -> Seq<(Seq<char>, OptionView)> {
    match opt_position(es, k) {
        Some(i) => es.update(i, (k, o)),
        None => es.push((k, o)),
    }
}

pub open spec fn opt_lookup(es: Seq<(Seq<char>, OptionView)>, k: Seq<char>) -> Option<OptionView> {
    match opt_position(es, k) {
        Some(i) => Some(es[i].1),
        None => None,
    }
}

proof fn lemma_opt_position(es: Seq<(Seq<char>, OptionView)>, k: Seq<char>)
    ensures
        match opt_position(es, k) {
            Some(i) => 0 <= i < es.len() && es[i].0 == k && forall|j: int| 0 <= j < i ==> es[j].0 != k,
            None => forall|j: int| 0 <= j < es.len() ==> es[j].0 != k,
        },
    decreases es.len(),
{
    if es.len() > 0 {
        lemma_opt_position(es.drop_first(), k);
        if es[0].0 != k {
            assert forall|j: int| 0 < j < es.len() implies es[j] == es.drop_first()[j - 1] by {}
        }
    }
}

proof fn lemma_opt_first(es: Seq<(Seq<char>, OptionView)>, k: Seq<char>, i: int)
    requires
        0 <= i < es.len(),
        es[i].0 == k,
        forall|j: int| 0 <= j < i ==> es[j].0 != k,
    ensures
        opt_position(es, k) == Some(i),
    decreases es.len(),
{
    if i > 0 {
        lemma_opt_first(es.drop_first(), k, i - 1);
    }
}

proof fn lemma_opt_absent(es: Seq<(Seq<char>, OptionView)>, k: Seq<char>)
    requires
        forall|j: int| 0 <= j < es.len() ==> es[j].0 != k,
    ensures
        opt_position(es, k) is None,
    decreases es.len(),
{
    if es.len() > 0 {
        lemma_opt_absent(es.drop_first(), k);
    }
}

/// Variable options in the order in which their variables first appeared.
#[derive(Debug, Clone)]
pub struct OptionMap {
    entries: Vec<(String, VariableOption)>,
}

impl View for OptionMap {
    type V = Seq<(Seq<char>, OptionView)>;

    closed spec fn view(&self) -> Self::V {
        self.entries@.map_values(|e: (String, VariableOption)| (e.0@, e.1@))
    }
}

impl OptionMap {
    pub fn new() -> (r: Self)
        ensures
            r@ == Seq::<(Seq<char>, OptionView)>::empty(),
    {
        let r = OptionMap { entries: Vec::new() };
        assert(r@ =~= Seq::<(Seq<char>, OptionView)>::empty());
        r
    }

    pub fn len(&self) -> (r: usize)
        ensures
            r == self@.len(),
    {
        self.entries.len()
    }

    pub fn is_empty(&self) -> (r: bool)
        ensures
            r == (self@.len() == 0),
    {
        self.entries.len() == 0
    }

    fn find(&self, key: &String) -> (r: Option<usize>)
        ensures
            match r {
                Some(i) => opt_position(self@, key@) == Some(i as int),
                None => opt_position(self@, key@) is None,
            },
    {
        let mut i: usize = 0;
        while i < self.entries.len()
            invariant
                0 <= i <= self@.len(),
                self@.len() == self.entries@.len(),
                forall|j: int| 0 <= j < i ==> self@[j].0 != key@,
            decreases self@.len() - i,
        {
            if self.entries[i].0 == *key {
                proof {
                    lemma_opt_first(self@, key@, i as int);
                }
                return Some(i);
            }
            i = i + 1;
        }
        proof {
            lemma_opt_absent(self@, key@);
        }
        None
    }

    /// The option of `key`, if the manifest wrote one.
    pub fn get(&self, key: &str) -> (r: Option<&VariableOption>)
        ensures
            match r {
                Some(o) => opt_lookup(self@, key@) == Some(o@),
                None => opt_lookup(self@, key@) is None,
            },
    {
        let k = key.to_owned();
        proof {
            lemma_opt_position(self@, key@);
        }
        match self.find(&k) {
            Some(i) => Some(&self.entries[i].1),
            None => None,
        }
    }

    pub fn contains_key(&self, key: &str) -> (r: bool)
        ensures
            r == (opt_lookup(self@, key@) is Some),
    {
        let k = key.to_owned();
        self.find(&k).is_some()
    }

    /// The variable name and option of entry `i`.
    pub fn entry(&self, i: usize) -> (r: (&String, &VariableOption))
        requires
            i < self@.len(),
        ensures
            r.0@ == self@[i as int].0,
            r.1@ == self@[i as int].1,
    {
        let e = &self.entries[i];
        (&e.0, &e.1)
    }

    /// The option of `key` as it stands, or an empty one.
    pub fn current(&self, key: &String) -> (r: VariableOption)
        ensures
            r@ == opt_current(self@, key@),
    {
        proof {
            lemma_opt_position(self@, key@);
        }
        match self.find(key) {
            Some(i) => {
                let o = &self.entries[i].1;
                let values = clone_strings(&o.possible_values);
                VariableOption {
                    var_type: o.var_type.clone(),
                    possible_values: values,
                    description: o.description.clone(),
                }
            },
            None => {
                let r = VariableOption {
                    var_type: String::new(),
                    possible_values: Vec::new(),
                    description: String::new(),
                };
                assert(strings_view(r.possible_values@) =~= Seq::<Seq<char>>::empty());
                r
            },
        }
    }

    /// Stores `option` as the option of `key`.
    pub fn put(&mut self, key: String, option: VariableOption)
        ensures
            final(self)@ == opt_put(old(self)@, key@, option@),
    {
        proof {
            lemma_opt_position(self@, key@);
        }
        let ghost kv = (key@, option@);
        match self.find(&key) {
            Some(i) => {
                self.entries.set(i, (key, option));
                assert(self@ =~= old(self)@.update(i as int, kv));
            },
            None => {
                self.entries.push((key, option));
                assert(self@ =~= old(self)@.push(kv));
            },
        }
    }
}

pub fn clone_strings(v: &Vec<String>) -> (r: Vec<String>)
    ensures
        strings_view(r@) == strings_view(v@),
{
    let mut out: Vec<String> = Vec::new();
    let mut i: usize = 0;
    while i < v.len()
        invariant
            0 <= i <= v@.len(),
            out@.len() == i,
            forall|k: int| 0 <= k < i ==> out@[k]@ == v@[k]@,
        decreases v@.len() - i,
    {
        out.push(v[i].clone());
        i = i + 1;
    }
    assert(strings_view(out@) =~= strings_view(v@));
    out
}

} // verus!
