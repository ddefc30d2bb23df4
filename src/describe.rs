//! What is shown when a template is described: how a file rule reads as a
//! command-line flag, which usage examples are offered, and which
//! timestamp format a template asks for.
use vstd::prelude::*;
use crate::plan::{find_last, last_index_of};
use crate::text::{chars_eq, chars_of, ends_with, ends_with_chars, extend_chars, starts_with, starts_with_chars, string_of};
use crate::words::sub_chars;
use crate::options::{OptionMap, OptionView};
use crate::var_map::{lookup, VarMap};
use crate::listing::{pairs_of, sort_pairs, sort_names, sorted_by_key, sorted_names};
use crate::options::strings_view;
use crate::text::{replace_chars, replace_spec};

verus! {

pub open spec fn var_flag(name: Seq<char>, value: Seq<char>) -> Seq<char> {
    "(--var "@ + name + "="@ + value + ")"@
}

pub open spec fn strip_suffix_spec(s: Seq<char>, suf: Seq<char>) -> Seq<char> {
    s.take(s.len() - suf.len())
}

/// A file rule as the flag that turns it on: `var_X_Y` reads as
/// `(--var X=Y)`, split at the last underscore, except for the known
/// multi-word endings `_styled_components`, `_tests` and `_stories`;
/// a single word reads as `=true`; anything else is shown in parentheses.
pub open spec fn format_condition_spec(c: Seq<char>) -> Seq<char> {
    if !starts_with(c, "var_"@) {
        "("@ + c + ")"@
    } else {
        let w = c.skip(4);
        if ends_with(w, "_styled_components"@) {
            var_flag(strip_suffix_spec(w, "_styled_components"@), "styled-components"@)
        } else if ends_with(w, "_tests"@) {
            var_flag(strip_suffix_spec(w, "_tests"@), "true"@)
        } else if ends_with(w, "_stories"@) {
            var_flag(strip_suffix_spec(w, "_stories"@), "true"@)
        } else {
            match last_index_of(w, '_') {
                Some(i) => var_flag(w.take(i), w.skip(i + 1)),
                None => var_flag(w, "true"@),
            }
        }
    }
}

fn flag_text(name: &[char], value: &str) -> (r: String)
    ensures
        r@ == var_flag(name@, value@),
{
    let mut out = chars_of("(--var ");
    extend_chars(&mut out, name);
    extend_chars(&mut out, chars_of("=").as_slice());
    extend_chars(&mut out, chars_of(value).as_slice());
    extend_chars(&mut out, chars_of(")").as_slice());
    string_of(out.as_slice())
}

fn flag_text_chars(name: &[char], value: &[char]) -> (r: String)
    ensures
        r@ == var_flag(name@, value@),
{
    let mut out = chars_of("(--var ");
    extend_chars(&mut out, name);
    extend_chars(&mut out, chars_of("=").as_slice());
    extend_chars(&mut out, value);
    extend_chars(&mut out, chars_of(")").as_slice());
    string_of(out.as_slice())
}

/// How the file rule `condition` is shown to a user.
pub fn format_condition(condition: &str) -> (r: String)
    ensures
        r@ == format_condition_spec(condition@),
{
    let c = chars_of(condition);
    if !starts_with_chars(c.as_slice(), chars_of("var_").as_slice()) {
        let mut out = chars_of("(");
        extend_chars(&mut out, c.as_slice());
        extend_chars(&mut out, chars_of(")").as_slice());
        return string_of(out.as_slice());
    }
    proof {
        reveal_strlit("var_");
    }
    let w = sub_chars(c.as_slice(), 4, c.len());
    assert(w@ =~= c@.skip(4));
    let styled = chars_of("_styled_components");
    let tests = chars_of("_tests");
    let stories = chars_of("_stories");
    if ends_with_chars(w.as_slice(), styled.as_slice()) {
        let name = sub_chars(w.as_slice(), 0, w.len() - styled.len());
        flag_text(name.as_slice(), "styled-components")
    } else if ends_with_chars(w.as_slice(), tests.as_slice()) {
        let name = sub_chars(w.as_slice(), 0, w.len() - tests.len());
        flag_text(name.as_slice(), "true")
    } else if ends_with_chars(w.as_slice(), stories.as_slice()) {
        let name = sub_chars(w.as_slice(), 0, w.len() - stories.len());
        flag_text(name.as_slice(), "true")
    } else {
        match find_last(w.as_slice(), '_') {
            Some(i) => {
                let n = w.len();
                let name = sub_chars(w.as_slice(), 0, i);
                let value = sub_chars(w.as_slice(), i + 1, n);
                flag_text_chars(name.as_slice(), value.as_slice())
            },
            None => flag_text(w.as_slice(), "true"),
        }
    }
}

/// The timestamp formats a template can ask for.
#[derive(Debug, Clone, Copy, PartialEq, Eq)]
pub enum TimestampFormat {
    Iso,
    Date,
    Time,
    DateTime,
    Unix,
}

/// The format named by `name`: `ISO`, `date`, `time`, `datetime` or
/// `unix`; any other name, or none, is ISO.
pub open spec fn timestamp_format_spec(name: Option<Seq<char>>) -> TimestampFormat {
    match name {
        Some(n) => if n == "date"@ {
            TimestampFormat::Date
        } else if n == "time"@ {
            TimestampFormat::Time
        } else if n == "datetime"@ {
            TimestampFormat::DateTime
        } else if n == "unix"@ {
            TimestampFormat::Unix
        } else {
            TimestampFormat::Iso
        },
        None => TimestampFormat::Iso,
    }
}

pub fn timestamp_format(name: Option<&str>) -> (r: TimestampFormat)
    ensures
        r == timestamp_format_spec(
            match name {
                Some(n) => Some(n@),
                None => None,
            },
        ),
{
    match name {
        Some(n) => {
            let v = chars_of(n);
            if chars_eq(v.as_slice(), chars_of("date").as_slice()) {
                TimestampFormat::Date
            } else if chars_eq(v.as_slice(), chars_of("time").as_slice()) {
                TimestampFormat::Time
            } else if chars_eq(v.as_slice(), chars_of("datetime").as_slice()) {
                TimestampFormat::DateTime
            } else if chars_eq(v.as_slice(), chars_of("unix").as_slice()) {
                TimestampFormat::Unix
            } else {
                TimestampFormat::Iso
            }
        },
        None => TimestampFormat::Iso,
    }
}

/// The most examples shown for single variables.
pub const MAX_EXAMPLES: usize = 3;

/// The first allowed value other than the current one, else the first.
pub open spec fn other_value(values: Seq<Seq<char>>, current: Option<Seq<char>>) -> Seq<char>
    decreases values.len(),
{
    if values.len() == 0 {
        Seq::empty()
    } else if Some(values[0]) != current {
        values[0]
    } else if values.len() == 1 {
        values[0]
    } else {
        let rest = other_value(values.drop_first(), current);
        if exists|i: int| 1 <= i < values.len() && Some(#[trigger] values[i]) != current {
            rest
        } else {
            values[0]
        }
    }
}

/// Examples for boolean variables: the value opposite to the default.
pub open spec fn boolean_examples(
    os: Seq<(Seq<char>, OptionView)>,
    vars: Seq<(Seq<char>, Seq<char>)>,
) -> Seq<(Seq<char>, Seq<char>)>
    decreases os.len(),
{
    if os.len() == 0 {
        Seq::empty()
    } else {
        let acc = boolean_examples(os.drop_last(), vars);
        let (n, o) = os.last();
        if acc.len() < 3 && o.0 == "boolean"@ {
            acc.push((n, if lookup(vars, n) == Some("true"@) { "false"@ } else { "true"@ }))
        } else {
            acc
        }
    }
}

/// Then examples for enumerated variables with more than one value: a
/// value other than the current one.
pub open spec fn enum_examples(
    acc0: Seq<(Seq<char>, Seq<char>)>,
    os: Seq<(Seq<char>, OptionView)>,
    vars: Seq<(Seq<char>, Seq<char>)>,
) -> Seq<(Seq<char>, Seq<char>)>
    decreases os.len(),
{
    if os.len() == 0 {
        acc0
    } else {
        let acc = enum_examples(acc0, os.drop_last(), vars);
        let (n, o) = os.last();
        if acc.len() < 3 && o.1.len() > 1 {
            acc.push((n, other_value(o.1, lookup(vars, n))))
        } else {
            acc
        }
    }
}

/// The single-variable examples of a template: at most three, booleans
/// first.
pub open spec fn usage_examples_spec(
    os: Seq<(Seq<char>, OptionView)>,
    vars: Seq<(Seq<char>, Seq<char>)>,
) -> Seq<(Seq<char>, Seq<char>)> {
    enum_examples(boolean_examples(os, vars), os, vars)
}

/// The full example: for each of the first three typed variables, its
/// first allowed value, or `true` for a boolean; none with fewer than two
/// typed variables.
pub open spec fn full_example_spec(os: Seq<(Seq<char>, OptionView)>) -> Seq<(Seq<char>, Seq<char>)> {
    if os.len() < 2 {
        Seq::empty()
    } else {
        full_pairs(os.take(if os.len() < 3 { os.len() as int } else { 3 }))
    }
}

pub open spec fn full_pairs(os: Seq<(Seq<char>, OptionView)>) -> Seq<(Seq<char>, Seq<char>)>
    decreases os.len(),
{
    if os.len() == 0 {
        Seq::empty()
    } else {
        let acc = full_pairs(os.drop_last());
        let (n, o) = os.last();
        if o.1.len() > 0 {
            acc.push((n, o.1[0]))
        } else if o.0 == "boolean"@ {
            acc.push((n, "true"@))
        } else {
            acc
        }
    }
}


fn first_other_value(values: &Vec<String>, current: Option<&String>) -> (r: String)
    ensures
        r@ == other_value(
            crate::options::strings_view(values@),
            match current {
                Some(c) => Some(c@),
                None => None,
            },
        ),
{
    let ghost vs = crate::options::strings_view(values@);
    let ghost cur = match current {
        Some(c) => Some(c@),
        None => None,
    };
    if values.len() == 0 {
        return String::new();
    }
    let mut i: usize = 0;
    while i < values.len()
        invariant
            0 <= i <= values@.len(),
            vs == crate::options::strings_view(values@),
            vs.len() == values@.len(),
            cur == (match current {
                Some(c) => Some(c@),
                None => None::<Seq<char>>,
            }),
            other_value(vs, cur) == other_value(vs.skip(i as int), cur) || (forall|j: int| 0 <= j < i ==> Some(#[trigger] vs[j]) == cur),
            forall|j: int| 0 <= j < i ==> Some(#[trigger] vs[j]) == cur,
        decreases values@.len() - i,
    {
        let same = match current {
            Some(c) => chars_eq(chars_of(values[i].as_str()).as_slice(), chars_of(c.as_str()).as_slice()),
            None => false,
        };
        proof {
            assert(vs[i as int] == values@[i as int]@);
            assert(same <==> Some(vs[i as int]) == cur);
        }
        if !same {
            proof {
                lemma_other_value_first_differs(vs, cur, i as int);
            }
            return values[i].clone();
        }
        i = i + 1;
    }
    proof {
        lemma_other_value_all_same(vs, cur);
    }
    values[0].clone()
}

proof fn lemma_other_value_first_differs(vs: Seq<Seq<char>>, cur: Option<Seq<char>>, i: int)
    requires
        0 <= i < vs.len(),
        Some(vs[i]) != cur,
        forall|j: int| 0 <= j < i ==> Some(#[trigger] vs[j]) == cur,
    ensures
        other_value(vs, cur) == vs[i],
    decreases i,
{
    if i > 0 {
        let t = vs.drop_first();
        assert forall|j: int| 0 <= j < i - 1 implies Some(#[trigger] t[j]) == cur by {
            assert(t[j] == vs[j + 1]);
        }
        lemma_other_value_first_differs(t, cur, i - 1);
        assert(Some(vs[i]) != cur && 1 <= i < vs.len());
    }
}

proof fn lemma_other_value_all_same(vs: Seq<Seq<char>>, cur: Option<Seq<char>>)
    requires
        vs.len() > 0,
        forall|j: int| 0 <= j < vs.len() ==> Some(#[trigger] vs[j]) == cur,
    ensures
        other_value(vs, cur) == vs[0],
{
}

/// The single-variable usage examples of a template, as (variable,
/// value) pairs: at most three, booleans first.
pub fn usage_examples(options: &OptionMap, variables: &VarMap) -> (r: Vec<(String, String)>)
    ensures
        pairs_of(r@) == usage_examples_spec(options@, variables@),
{
    let mut out: Vec<(String, String)> = Vec::new();
    let mut i: usize = 0;
    assert(pairs_of(out@) =~= boolean_examples(options@.take(0), variables@));
    while i < options.len()
        invariant
            0 <= i <= options@.len(),
            pairs_of(out@) == boolean_examples(options@.take(i as int), variables@),
        decreases options@.len() - i,
    {
        let (n, o) = options.entry(i);
        proof {
            assert(options@.take(i + 1).drop_last() =~= options@.take(i as int));
        }
        if out.len() < MAX_EXAMPLES && chars_eq(chars_of(o.var_type.as_str()).as_slice(), chars_of("boolean").as_slice()) {
            let default_true = match variables.get(n.as_str()) {
                Some(v) => chars_eq(chars_of(v.as_str()).as_slice(), chars_of("true").as_slice()),
                None => false,
            };
            let value = if default_true { "false" } else { "true" };
            let ghost before = pairs_of(out@);
            out.push((n.clone(), string_of(chars_of(value).as_slice())));
            assert(pairs_of(out@) =~= before.push((n@, value@)));
        }
        i = i + 1;
    }
    assert(options@.take(options@.len() as int) =~= options@);
    let ghost acc0 = pairs_of(out@);
    let mut k: usize = 0;
    assert(pairs_of(out@) =~= enum_examples(acc0, options@.take(0), variables@));
    while k < options.len()
        invariant
            0 <= k <= options@.len(),
            pairs_of(out@) == enum_examples(acc0, options@.take(k as int), variables@),
        decreases options@.len() - k,
    {
        let (n, o) = options.entry(k);
        proof {
            assert(options@.take(k + 1).drop_last() =~= options@.take(k as int));
        }
        if out.len() < MAX_EXAMPLES && o.possible_values.len() > 1 {
            let value = first_other_value(&o.possible_values, variables.get(n.as_str()));
            let ghost before = pairs_of(out@);
            out.push((n.clone(), value));
            assert(pairs_of(out@) =~= before.push((out@.last().0@, out@.last().1@)));
        }
        k = k + 1;
    }
    assert(options@.take(options@.len() as int) =~= options@);
    out
}

/// The variables of the full usage example, as (variable, value) pairs.
pub fn full_example(options: &OptionMap) -> (r: Vec<(String, String)>)
    ensures
        pairs_of(r@) == full_example_spec(options@),
{
    let mut out: Vec<(String, String)> = Vec::new();
    if options.len() < 2 {
        assert(pairs_of(out@) =~= Seq::<(Seq<char>, Seq<char>)>::empty());
        return out;
    }
    let limit: usize = if options.len() < 3 { options.len() } else { 3 };
    let ghost os = options@.take(limit as int);
    let mut i: usize = 0;
    assert(pairs_of(out@) =~= full_pairs(os.take(0)));
    while i < limit
        invariant
            0 <= i <= limit <= options@.len(),
            os == options@.take(limit as int),
            pairs_of(out@) == full_pairs(os.take(i as int)),
        decreases limit - i,
    {
        let (n, o) = options.entry(i);
        proof {
            assert(os.take(i + 1).drop_last() =~= os.take(i as int));
            assert(os.take(i + 1).last() == options@[i as int]);
        }
        let ghost before = pairs_of(out@);
        if o.possible_values.len() > 0 {
            out.push((n.clone(), o.possible_values[0].clone()));
            assert(pairs_of(out@) =~= before.push((n@, o@.1[0])));
        } else if chars_eq(chars_of(o.var_type.as_str()).as_slice(), chars_of("boolean").as_slice()) {
            out.push((n.clone(), string_of(chars_of("true").as_slice())));
            assert(pairs_of(out@) =~= before.push((n@, "true"@)));
        }
        i = i + 1;
    }
    assert(os.take(limit as int) =~= os);
    out
}

/// A file pattern as shown: the bare sentinel reads `ComponentName`.
pub open spec fn display_name(f: Seq<char>) -> Seq<char> {
    replace_spec(f, "$FILE_NAME"@, "ComponentName"@)
}

/// The file rules, grouped: files always generated, files generated by
/// default, and the others with their conditions as flags; each in rule
/// order.
pub open spec fn rule_groups(
    rules: Seq<(Seq<char>, Seq<char>)>,
) -> (Seq<Seq<char>>, Seq<Seq<char>>, Seq<(Seq<char>, Seq<char>)>)
    decreases rules.len(),
{
    if rules.len() == 0 {
        (Seq::empty(), Seq::empty(), Seq::empty())
    } else {
        let (a, d, c) = rule_groups(rules.drop_last());
        let (f, cond) = rules.last();
        if cond == "always"@ {
            (a.push(display_name(f)), d, c)
        } else if cond == "default"@ {
            (a, d.push(display_name(f)), c)
        } else {
            (a, d, c.push((display_name(f), format_condition_spec(cond))))
        }
    }
}

/// The file rules as shown when a template is described: the three groups
/// of [`rule_groups`], each sorted by file name.
pub fn describe_file_rules(filters: &VarMap) -> (r: (Vec<String>, Vec<String>, Vec<(String, String)>))
    ensures
        sorted_names(strings_view(r.0@)),
        sorted_names(strings_view(r.1@)),
        sorted_by_key(pairs_of(r.2@)),
        strings_view(r.0@).to_multiset() == rule_groups(filters@).0.to_multiset(),
        strings_view(r.1@).to_multiset() == rule_groups(filters@).1.to_multiset(),
        pairs_of(r.2@).to_multiset() == rule_groups(filters@).2.to_multiset(),
{
    let mut always: Vec<String> = Vec::new();
    let mut default: Vec<String> = Vec::new();
    let mut conditional: Vec<(String, String)> = Vec::new();
    let token = chars_of("$FILE_NAME");
    let shown = chars_of("ComponentName");
    proof {
        reveal_strlit("$FILE_NAME");
    }
    let mut i: usize = 0;
    assert(strings_view(always@) =~= rule_groups(filters@.take(0)).0);
    assert(strings_view(default@) =~= rule_groups(filters@.take(0)).1);
    assert(pairs_of(conditional@) =~= rule_groups(filters@.take(0)).2);
    while i < filters.len()
        invariant
            0 <= i <= filters@.len(),
            token@ == "$FILE_NAME"@,
            token@.len() > 0,
            shown@ == "ComponentName"@,
            strings_view(always@) == rule_groups(filters@.take(i as int)).0,
            strings_view(default@) == rule_groups(filters@.take(i as int)).1,
            pairs_of(conditional@) == rule_groups(filters@.take(i as int)).2,
        decreases filters@.len() - i,
    {
        let (f, cond) = filters.entry(i);
        proof {
            assert(filters@.take(i + 1).drop_last() =~= filters@.take(i as int));
            assert(filters@.take(i + 1).last() == (f@, cond@));
        }
        let name = string_of(replace_chars(chars_of(f.as_str()).as_slice(), token.as_slice(), shown.as_slice()).as_slice());
        let cv = chars_of(cond.as_str());
        if chars_eq(cv.as_slice(), chars_of("always").as_slice()) {
            let ghost before = strings_view(always@);
            always.push(name);
            assert(strings_view(always@) =~= before.push(display_name(f@)));
        } else if chars_eq(cv.as_slice(), chars_of("default").as_slice()) {
            let ghost before = strings_view(default@);
            default.push(name);
            assert(strings_view(default@) =~= before.push(display_name(f@)));
        } else {
            let shown_cond = format_condition(cond.as_str());
            let ghost before = pairs_of(conditional@);
            conditional.push((name, shown_cond));
            assert(pairs_of(conditional@) =~= before.push((display_name(f@), format_condition_spec(cond@))));
        }
        i = i + 1;
    }
    assert(filters@.take(filters@.len() as int) =~= filters@);
    (sort_names(always), sort_names(default), sort_pairs(conditional))
}

} // verus!
