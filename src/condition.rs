//! File-inclusion conditions of template manifests.
//!
//! A condition is `always` / `default`, `var_X` (the variable `X` is truthy),
//! or `var_X_Y` (the variable `X` equals `Y`, compared both as written and
//! with `_` read as `-`). An exact variable name takes priority over the
//! split at the first underscore. Anything else is unrecognised: the file is
//! skipped and the run goes on.
use vstd::prelude::*;
use crate::case::{dash, dash_chars};
use crate::text::{chars_eq, chars_of, lower_str, str_to_lowercase, trim_chars, trim_spec};
use crate::var_map::{lookup, VarMap};
use crate::words::sub_chars;

verus! {

pub open spec fn true_word() -> Seq<char> {
    seq!['t', 'r', 'u', 'e']
}

pub open spec fn yes_word() -> Seq<char> {
    seq!['y', 'e', 's']
}

pub open spec fn one_word() -> Seq<char> {
    seq!['1']
}

pub open spec fn always_word() -> Seq<char> {
    seq!['a', 'l', 'w', 'a', 'y', 's']
}

pub open spec fn default_word() -> Seq<char> {
    seq!['d', 'e', 'f', 'a', 'u', 'l', 't']
}

pub open spec fn var_prefix() -> Seq<char> {
    seq!['v', 'a', 'r', '_']
}

/// `true`, `yes` or `1`, in any case.
pub open spec fn truthy_spec(v: Seq<char>) -> bool {
    let l = lower_str(v);
    l == true_word() || l == yes_word() || l == one_word()
}

/// Index of the first `c` in `s`.
pub open spec fn index_of(s: Seq<char>, c: char) -> Option<int>
    decreases s.len(),
{
    if s.len() == 0 {
        None
    } else if s[0] == c {
        Some(0)
    } else {
        match index_of(s.drop_first(), c) {
            Some(i) => Some(i + 1),
            None => None,
        }
    }
}

/// A parsed condition.
#[derive(Debug, Clone, PartialEq, Eq)]
pub enum Condition {
    /// `always` or `default`.
    Always,
    /// `var_` followed by this text: a variable name, or a name, `_` and a
    /// value.
    Variable(String),
    /// Any other text.
    Unrecognized(String),
}

/// Whether a `var_` condition whose text after the prefix is `part` holds.
pub open spec fn variable_rule(part: Seq<char>, vars: Seq<(Seq<char>, Seq<char>)>) -> bool {
    match lookup(vars, part) {
        Some(v) => truthy_spec(v),
        None => match index_of(part, '_') {
            Some(p) => {
                let raw = part.skip(p + 1);
                match lookup(vars, part.take(p)) {
                    Some(v) => v == dash(raw) || v == raw,
                    None => false,
                }
            },
            None => false,
        },
    }
}

/// Whether the condition text `c` holds of the variables `vars`.
pub open spec fn condition_holds(c: Seq<char>, vars: Seq<(Seq<char>, Seq<char>)>) -> bool {
    let t = trim_spec(c);
    if t == always_word() || t == default_word() {
        true
    } else if t.len() >= 4 && t.take(4) == var_prefix() {
        variable_rule(t.skip(4), vars)
    } else {
        false
    }
}

/// Whether the condition text `c` has one of the recognised shapes.
pub open spec fn condition_recognized(c: Seq<char>) -> bool {
    let t = trim_spec(c);
    t == always_word() || t == default_word() || (t.len() >= 4 && t.take(4) == var_prefix())
}

pub proof fn lemma_index_of(s: Seq<char>, c: char)
    ensures
        match index_of(s, c) {
            Some(i) => 0 <= i < s.len() && s[i] == c && forall|j: int| 0 <= j < i ==> s[j] != c,
            None => forall|j: int| 0 <= j < s.len() ==> s[j] != c,
        },
    decreases s.len(),
{
    if s.len() > 0 {
        lemma_index_of(s.drop_first(), c);
        if s[0] != c {
            assert forall|j: int| 0 < j < s.len() implies s[j] == s.drop_first()[j - 1] by {}
        }
    }
}

proof fn lemma_index_of_first(s: Seq<char>, c: char, i: int)
    requires
        0 <= i < s.len(),
        s[i] == c,
        forall|j: int| 0 <= j < i ==> s[j] != c,
    ensures
        index_of(s, c) == Some(i),
    decreases s.len(),
{
    if i > 0 {
        lemma_index_of_first(s.drop_first(), c, i - 1);
    }
}

proof fn lemma_index_of_absent(s: Seq<char>, c: char)
    requires
        forall|j: int| 0 <= j < s.len() ==> s[j] != c,
    ensures
        index_of(s, c) is None,
    decreases s.len(),
{
    if s.len() > 0 {
        lemma_index_of_absent(s.drop_first(), c);
    }
}

pub fn find_char(s: &[char], c: char) -> (r: Option<usize>)
    ensures
        match r {
            Some(i) => index_of(s@, c) == Some(i as int),
            None => index_of(s@, c) is None,
        },
{
    let mut i: usize = 0;
    while i < s.len()
        invariant
            0 <= i <= s@.len(),
            forall|j: int| 0 <= j < i ==> s@[j] != c,
        decreases s@.len() - i,
    {
        if s[i] == c {
            proof {
                lemma_index_of_first(s@, c, i as int);
            }
            return Some(i);
        }
        i = i + 1;
    }
    proof {
        lemma_index_of_absent(s@, c);
    }
    None
}

/// Whether `value` reads as true: `true`, `yes` or `1`, in any case.
pub fn is_truthy(value: &str) -> (r: bool)
    ensures
        r == truthy_spec(value@),
{
    let v = chars_of(value);
    let l = str_to_lowercase(v.as_slice());
    let t: Vec<char> = vec!['t', 'r', 'u', 'e'];
    let y: Vec<char> = vec!['y', 'e', 's'];
    let o: Vec<char> = vec!['1'];
    assert(t@ =~= true_word());
    assert(y@ =~= yes_word());
    assert(o@ =~= one_word());
    chars_eq(l.as_slice(), t.as_slice()) || chars_eq(l.as_slice(), y.as_slice()) || chars_eq(
        l.as_slice(),
        o.as_slice(),
    )
}

fn lookup_chars<'a>(vars: &'a VarMap, key: &[char]) -> (r: Option<&'a String>)
    ensures
        match r {
            Some(v) => lookup(vars@, key@) == Some(v@),
            None => lookup(vars@, key@) is None,
        },
{
    let k = crate::text::string_of(key);
    vars.get(k.as_str())
}

fn variable_rule_chars(part: &[char], vars: &VarMap) -> (r: bool)
    ensures
        r == variable_rule(part@, vars@),
{
    match lookup_chars(vars, part) {
        Some(v) => is_truthy(v.as_str()),
        None => {
            proof {
                lemma_index_of(part@, '_');
            }
            match find_char(part, '_') {
                Some(p) => {
                    assert(index_of(part@, '_') == Some(p as int));
                    let n = part.len();
                    assert(p < n);
                    let name = sub_chars(part, 0, p);
                    let raw = sub_chars(part, p + 1, n);
                    assert(name@ =~= part@.take(p as int));
                    assert(raw@ =~= part@.skip(p + 1));
                    match lookup_chars(vars, name.as_slice()) {
                        Some(v) => {
                            let expected = dash_chars(raw.as_slice());
                            let vv = chars_of(v.as_str());
                            chars_eq(vv.as_slice(), expected.as_slice()) || chars_eq(
                                vv.as_slice(),
                                raw.as_slice(),
                            )
                        },
                        None => false,
                    }
                },
                None => false,
            }
        },
    }
}

fn condition_kind(t: &[char]) -> (r: u8)
    ensures
        r == 0 ==> (t@ == always_word() || t@ == default_word()),
        r == 1 ==> !(t@ == always_word() || t@ == default_word()) && t@.len() >= 4 && t@.take(4)
            == var_prefix(),
        r == 2 ==> !(t@ == always_word() || t@ == default_word()) && !(t@.len() >= 4 && t@.take(4)
            == var_prefix()),
        r <= 2,
{
    let a: Vec<char> = vec!['a', 'l', 'w', 'a', 'y', 's'];
    let d: Vec<char> = vec!['d', 'e', 'f', 'a', 'u', 'l', 't'];
    let p: Vec<char> = vec!['v', 'a', 'r', '_'];
    assert(a@ =~= always_word());
    assert(d@ =~= default_word());
    assert(p@ =~= var_prefix());
    if chars_eq(t, a.as_slice()) || chars_eq(t, d.as_slice()) {
        return 0;
    }
    if t.len() >= 4 {
        let head = sub_chars(t, 0, 4);
        assert(head@ =~= t@.take(4));
        if chars_eq(head.as_slice(), p.as_slice()) {
            return 1;
        }
    }
    2
}

/// Parses a condition once, so that it can be evaluated against any
/// variables later.
pub fn parse_condition(condition: &str) -> (r: Condition)
    ensures
        match r {
            Condition::Always => trim_spec(condition@) == always_word() || trim_spec(condition@)
                == default_word(),
            Condition::Variable(part) => {
                let t = trim_spec(condition@);
                &&& !(t == always_word() || t == default_word())
                &&& t.len() >= 4 && t.take(4) == var_prefix()
                &&& part@ == t.skip(4)
            },
            Condition::Unrecognized(text) => !condition_recognized(condition@) && text@
                == condition@,
        },
{
    let v = chars_of(condition);
    let t = trim_chars(v.as_slice());
    let kind = condition_kind(t.as_slice());
    if kind == 0 {
        Condition::Always
    } else if kind == 1 {
        let part = sub_chars(t.as_slice(), 4, t.len());
        assert(part@ =~= t@.skip(4));
        Condition::Variable(crate::text::string_of(part.as_slice()))
    } else {
        Condition::Unrecognized(crate::text::string_of(v.as_slice()))
    }
}

impl Condition {
    pub open spec fn holds(&self, vars: Seq<(Seq<char>, Seq<char>)>) -> bool {
        match self {
            Condition::Always => true,
            Condition::Variable(part) => variable_rule(part@, vars),
            Condition::Unrecognized(_) => false,
        }
    }

    /// Whether the condition holds of `variables`.
    pub fn evaluate(&self, variables: &VarMap) -> (r: bool)
        ensures
            r == self.holds(variables@),
    {
        match self {
            Condition::Always => true,
            Condition::Variable(part) => {
                let pv = chars_of(part.as_str());
                variable_rule_chars(pv.as_slice(), variables)
            },
            Condition::Unrecognized(_) => false,
        }
    }

    pub fn is_recognized(&self) -> (r: bool)
        ensures
            r == !(self is Unrecognized),
    {
        match self {
            Condition::Unrecognized(_) => false,
            _ => true,
        }
    }
}

/// Whether a file whose rule is `condition` is generated, given the merged
/// variables. Defined for every text: an unrecognised one gives `false`.
pub fn evaluate_file_condition(condition: &str, variables: &VarMap) -> (r: bool)
    ensures
        r == condition_holds(condition@, variables@),
{
    let c = parse_condition(condition);
    c.evaluate(variables)
}

} // verus!
