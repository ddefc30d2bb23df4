//! Listings of templates and architectures, from directory entries read
//! elsewhere, sorted by name.
use vstd::prelude::*;
use crate::options::strings_view;
use crate::text::{chars_eq, chars_of, ends_with, ends_with_chars, string_of};
use crate::words::sub_chars;

verus! {

broadcast use vstd::seq_lib::to_multiset_insert, vstd::seq_lib::to_multiset_build;

/// Lexicographic order of character sequences.
pub open spec fn lex_le(a: Seq<char>, b: Seq<char>) -> bool
    decreases a.len(),
{
    if a.len() == 0 {
        true
    } else if b.len() == 0 {
        false
    } else if a[0] != b[0] {
        a[0] < b[0]
    } else {
        lex_le(a.drop_first(), b.drop_first())
    }
}

pub open spec fn sorted_names(s: Seq<Seq<char>>) -> bool {
    forall|i: int| 0 <= i < s.len() - 1 ==> lex_le(#[trigger] s[i], s[i + 1])
}

proof fn lemma_lex_total(a: Seq<char>, b: Seq<char>)
    ensures
        lex_le(a, b) || lex_le(b, a),
    decreases a.len(),
{
    if a.len() > 0 && b.len() > 0 && a[0] == b[0] {
        lemma_lex_total(a.drop_first(), b.drop_first());
    }
}

pub fn lex_le_exec(a: &[char], b: &[char]) -> (r: bool)
    ensures
        r == lex_le(a@, b@),
{
    let mut i: usize = 0;
    assert(a@.skip(0) =~= a@);
    assert(b@.skip(0) =~= b@);
    while i < a.len()
        invariant
            0 <= i <= a@.len(),
            i <= b@.len(),
            lex_le(a@, b@) == lex_le(a@.skip(i as int), b@.skip(i as int)),
        decreases a@.len() - i,
    {
        let ghost sa = a@.skip(i as int);
        let ghost sb = b@.skip(i as int);
        if i >= b.len() {
            return false;
        }
        if a[i] != b[i] {
            return a[i] < b[i];
        }
        assert(sa.drop_first() =~= a@.skip(i + 1));
        assert(sb.drop_first() =~= b@.skip(i + 1));
        i = i + 1;
    }
    true
}

/// The names, sorted; the same names, each as often.
pub fn sort_names(v: Vec<String>) -> (r: Vec<String>)
    ensures
        sorted_names(strings_view(r@)),
        strings_view(r@).to_multiset() == strings_view(v@).to_multiset(),
{
    let mut out: Vec<String> = Vec::new();
    let mut i: usize = 0;
    assert(strings_view(v@.take(0)) =~= Seq::<Seq<char>>::empty());
    assert(strings_view(out@) =~= Seq::<Seq<char>>::empty());
    while i < v.len()
        invariant
            0 <= i <= v@.len(),
            sorted_names(strings_view(out@)),
            strings_view(out@).to_multiset() == strings_view(v@.take(i as int)).to_multiset(),
        decreases v@.len() - i,
    {
        let x = v[i].clone();
        let xv = chars_of(x.as_str());
        let mut k: usize = 0;
        while k < out.len() && !lex_le_exec(xv.as_slice(), chars_of(out[k].as_str()).as_slice())
            invariant
                0 <= k <= out@.len(),
                xv@ == x@,
                forall|j: int| 0 <= j < k ==> !lex_le(x@, #[trigger] out@[j]@),
            decreases out@.len() - k,
        {
            k = k + 1;
        }
        let ghost before = strings_view(out@);
        out.insert(k, x);
        proof {
            let after = strings_view(out@);
            assert(after =~= before.insert(k as int, xv@));
            assert(strings_view(v@.take(i + 1)) =~= strings_view(v@.take(i as int)).push(xv@));
            assert forall|j: int| 0 <= j < after.len() - 1 implies lex_le(#[trigger] after[j], after[j + 1]) by {
                if j + 1 < k {
                    assert(after[j] == before[j] && after[j + 1] == before[j + 1]);
                } else if j + 1 == k {
                    assert(after[j] == before[j]);
                    assert(!lex_le(xv@, before[j]));
                    lemma_lex_total(xv@, before[j]);
                } else if j == k {
                    assert(after[j + 1] == before[j]);
                } else {
                    assert(after[j] == before[j - 1] && after[j + 1] == before[j]);
                }
            }
        }
        i = i + 1;
    }
    assert(v@.take(v@.len() as int) =~= v@);
    out
}

/// Pairs sorted by their first component.
pub open spec fn sorted_by_key(s: Seq<(Seq<char>, Seq<char>)>) -> bool {
    forall|i: int| 0 <= i < s.len() - 1 ==> lex_le((#[trigger] s[i]).0, s[i + 1].0)
}

pub open spec fn pairs_of(v: Seq<(String, String)>) -> Seq<(Seq<char>, Seq<char>)> {
    v.map_values(|e: (String, String)| (e.0@, e.1@))
}

/// The pairs, sorted by their first component; the same pairs, each as
/// often.
pub fn sort_pairs(v: Vec<(String, String)>) -> (r: Vec<(String, String)>)
    ensures
        sorted_by_key(pairs_of(r@)),
        pairs_of(r@).to_multiset() == pairs_of(v@).to_multiset(),
{
    let mut out: Vec<(String, String)> = Vec::new();
    let mut i: usize = 0;
    assert(pairs_of(v@.take(0)) =~= Seq::<(Seq<char>, Seq<char>)>::empty());
    assert(pairs_of(out@) =~= Seq::<(Seq<char>, Seq<char>)>::empty());
    while i < v.len()
        invariant
            0 <= i <= v@.len(),
            sorted_by_key(pairs_of(out@)),
            pairs_of(out@).to_multiset() == pairs_of(v@.take(i as int)).to_multiset(),
        decreases v@.len() - i,
    {
        let x = (v[i].0.clone(), v[i].1.clone());
        let ghost xv = (x.0@, x.1@);
        let kv = chars_of(x.0.as_str());
        let mut k: usize = 0;
        while k < out.len() && !lex_le_exec(kv.as_slice(), chars_of(out[k].0.as_str()).as_slice())
            invariant
                0 <= k <= out@.len(),
                kv@ == x.0@,
                forall|j: int| 0 <= j < k ==> !lex_le(x.0@, #[trigger] out@[j].0@),
            decreases out@.len() - k,
        {
            k = k + 1;
        }
        let ghost before = pairs_of(out@);
        out.insert(k, x);
        proof {
            let after = pairs_of(out@);
            assert(after =~= before.insert(k as int, xv));
            assert(pairs_of(v@.take(i + 1)) =~= pairs_of(v@.take(i as int)).push(xv));
            assert forall|j: int| 0 <= j < after.len() - 1 implies lex_le((#[trigger] after[j]).0, after[j + 1].0) by {
                if j + 1 < k {
                    assert(after[j] == before[j] && after[j + 1] == before[j + 1]);
                } else if j + 1 == k {
                    assert(after[j] == before[j]);
                    assert(!lex_le(xv.0, before[j].0));
                    lemma_lex_total(xv.0, before[j].0);
                } else if j == k {
                    assert(after[j + 1] == before[j]);
                } else {
                    assert(after[j] == before[j - 1] && after[j + 1] == before[j]);
                }
            }
        }
        i = i + 1;
    }
    assert(v@.take(v@.len() as int) =~= v@);
    out
}

/// One entry of a directory: its file name, and whether it is a directory.
#[derive(Debug, Clone)]
pub struct DirEntryInfo {
    pub name: String,
    pub is_dir: bool,
}

/// A template directory: a directory whose name does not start with `.`.
pub open spec fn template_dir_entry(name: Seq<char>, is_dir: bool) -> bool {
    is_dir && !(name.len() > 0 && name[0] == '.')
}

/// The template directories of a listing, sorted.
pub open spec fn template_names_spec(es: Seq<DirEntryInfo>) -> Seq<Seq<char>>
    decreases es.len(),
{
    if es.len() == 0 {
        Seq::empty()
    } else {
        let rest = template_names_spec(es.drop_last());
        let e = es.last();
        if template_dir_entry(e.name@, e.is_dir) {
            rest.push(e.name@)
        } else {
            rest
        }
    }
}

/// An architecture file: not a directory, name ending in `.json` and not
/// starting with `.`, and not `default.json`; the name without `.json`.
pub open spec fn architecture_entry(name: Seq<char>, is_dir: bool) -> bool {
    !is_dir && ends_with(name, ".json"@) && !(name.len() > 0 && name[0] == '.') && name.take(
        name.len() - 5,
    ) != "default"@
}

pub open spec fn architecture_names_spec(es: Seq<DirEntryInfo>) -> Seq<Seq<char>>
    decreases es.len(),
{
    if es.len() == 0 {
        Seq::empty()
    } else {
        let rest = architecture_names_spec(es.drop_last());
        let e = es.last();
        if architecture_entry(e.name@, e.is_dir) {
            rest.push(e.name@.take(e.name@.len() - 5))
        } else {
            rest
        }
    }
}

fn starts_with_dot(name: &String) -> (r: bool)
    ensures
        r == (name@.len() > 0 && name@[0] == '.'),
{
    let v = chars_of(name.as_str());
    v.len() > 0 && v[0] == '.'
}

/// The template directories among `entries`, in listing order.
pub fn template_names(entries: &Vec<DirEntryInfo>) -> (r: Vec<String>)
    ensures
        strings_view(r@) == template_names_spec(entries@),
{
    let mut out: Vec<String> = Vec::new();
    let mut i: usize = 0;
    assert(strings_view(out@) =~= template_names_spec(entries@.take(0)));
    while i < entries.len()
        invariant
            0 <= i <= entries@.len(),
            strings_view(out@) == template_names_spec(entries@.take(i as int)),
        decreases entries@.len() - i,
    {
        let e = &entries[i];
        proof {
            assert(entries@.take(i + 1).drop_last() =~= entries@.take(i as int));
        }
        if e.is_dir && !starts_with_dot(&e.name) {
            let ghost before = strings_view(out@);
            out.push(e.name.clone());
            assert(strings_view(out@) =~= before.push(e.name@));
        }
        i = i + 1;
    }
    assert(entries@.take(entries@.len() as int) =~= entries@);
    out
}

/// The architecture names among `entries`, in listing order.
pub fn architecture_names(entries: &Vec<DirEntryInfo>) -> (r: Vec<String>)
    ensures
        strings_view(r@) == architecture_names_spec(entries@),
{
    let json = chars_of(".json");
    let default = chars_of("default");
    let mut out: Vec<String> = Vec::new();
    let mut i: usize = 0;
    assert(strings_view(out@) =~= architecture_names_spec(entries@.take(0)));
    while i < entries.len()
        invariant
            0 <= i <= entries@.len(),
            json@ == ".json"@,
            default@ == "default"@,
            strings_view(out@) == architecture_names_spec(entries@.take(i as int)),
        decreases entries@.len() - i,
    {
        let e = &entries[i];
        proof {
            reveal_strlit(".json");
            assert(entries@.take(i + 1).drop_last() =~= entries@.take(i as int));
        }
        let nv = chars_of(e.name.as_str());
        if !e.is_dir && ends_with_chars(nv.as_slice(), json.as_slice()) && !starts_with_dot(&e.name) {
            let stem = sub_chars(nv.as_slice(), 0, nv.len() - 5);
            assert(stem@ =~= e.name@.take(e.name@.len() - 5));
            if !chars_eq(stem.as_slice(), default.as_slice()) {
                let ghost before = strings_view(out@);
                out.push(string_of(stem.as_slice()));
                assert(strings_view(out@) =~= before.push(stem@));
            }
        }
        i = i + 1;
    }
    assert(entries@.take(entries@.len() as int) =~= entries@);
    out
}

/// `ws` without the occurrences of `x`.
pub open spec fn drop_name(ws: Seq<Seq<char>>, x: Seq<char>) -> Seq<Seq<char>>
    decreases ws.len(),
{
    if ws.len() == 0 {
        ws
    } else {
        let rest = drop_name(ws.drop_last(), x);
        if ws.last() == x {
            rest
        } else {
            rest.push(ws.last())
        }
    }
}

/// The template types on offer: the template directories other than
/// `architectures`, and `feature`.
pub open spec fn offered_templates(es: Seq<DirEntryInfo>) -> Seq<Seq<char>> {
    drop_name(template_names_spec(es), "architectures"@).push("feature"@)
}

/// The template types on offer, sorted.
pub fn discover_templates(entries: &Vec<DirEntryInfo>) -> (r: Vec<String>)
    ensures
        sorted_names(strings_view(r@)),
        strings_view(r@).to_multiset() == offered_templates(entries@).to_multiset(),
{
    let names = template_names(entries);
    let arch = chars_of("architectures");
    let mut kept: Vec<String> = Vec::new();
    let mut i: usize = 0;
    let ghost ns = strings_view(names@);
    assert(strings_view(kept@) =~= drop_name(ns.take(0), "architectures"@));
    while i < names.len()
        invariant
            0 <= i <= names@.len(),
            ns == strings_view(names@),
            arch@ == "architectures"@,
            strings_view(kept@) == drop_name(ns.take(i as int), "architectures"@),
        decreases names@.len() - i,
    {
        proof {
            assert(ns.take(i + 1).drop_last() =~= ns.take(i as int));
        }
        if !chars_eq(chars_of(names[i].as_str()).as_slice(), arch.as_slice()) {
            let ghost before = strings_view(kept@);
            kept.push(names[i].clone());
            assert(strings_view(kept@) =~= before.push(ns[i as int]));
        }
        i = i + 1;
    }
    assert(ns.take(ns.len() as int) =~= ns);
    let ghost before = strings_view(kept@);
    kept.push(string_of(chars_of("feature").as_slice()));
    assert(strings_view(kept@) =~= before.push("feature"@));
    sort_names(kept)
}

/// The architectures on offer, sorted.
pub fn discover_architectures(entries: &Vec<DirEntryInfo>) -> (r: Vec<String>)
    ensures
        sorted_names(strings_view(r@)),
        strings_view(r@).to_multiset() == architecture_names_spec(entries@).to_multiset(),
{
    sort_names(architecture_names(entries))
}

/// The template directories, sorted.
pub fn list_templates(entries: &Vec<DirEntryInfo>) -> (r: Vec<String>)
    ensures
        sorted_names(strings_view(r@)),
        strings_view(r@).to_multiset() == template_names_spec(entries@).to_multiset(),
{
    sort_names(template_names(entries))
}

} // verus!
