//! Generation plans: which files of a template are generated, and under
//! which output paths.
//!
//! The walk of the template directory, the reads, the renders and the
//! writes happen outside; here the enumerated relative paths are filtered by
//! the manifest's file rules and given their output names.
use vstd::prelude::*;
use crate::condition::{condition_holds, evaluate_file_condition};
use crate::manifest::TemplateConfig;
use crate::naming::{
    apply_smart_filename_replacements, apply_smart_replacements, context_spec, hook_spec,
    page_spec, process_smart_names, provider_spec, sentinel_spec,
};
use crate::case::pascal_spec;
use crate::text::{chars_of, extend_chars, string_of};
use crate::var_map::lookup;
use crate::words::sub_chars;

verus! {

/// Index of the last `c` in `s`.
pub open spec fn last_index_of(s: Seq<char>, c: char) -> Option<int>
    decreases s.len(),
{
    if s.len() == 0 {
        None
    } else if s.last() == c {
        Some(s.len() - 1)
    } else {
        last_index_of(s.drop_last(), c)
    }
}

/// The last component of a `/`-separated path.
pub open spec fn file_name_of(p: Seq<char>) -> Seq<char> {
    match last_index_of(p, '/') {
        Some(i) => p.skip(i + 1),
        None => p,
    }
}

/// What precedes the last component, separator included.
pub open spec fn parent_of(p: Seq<char>) -> Seq<char> {
    match last_index_of(p, '/') {
        Some(i) => p.take(i + 1),
        None => Seq::empty(),
    }
}

/// `\` read as `/`.
pub open spec fn normalize_spec(p: Seq<char>) -> Seq<char> {
    p.map_values(|c: char| if c == '\\' { '/' } else { c })
}

/// A file name with its sentinel tokens replaced by the names derived from
/// `name`; the bare token becomes the PascalCase form.
pub open spec fn output_file_name(f: Seq<char>, name: Seq<char>) -> Seq<char> {
    sentinel_spec(
        f,
        pascal_spec(name),
        hook_spec(false, name),
        context_spec(false, name),
        provider_spec(false, name),
        page_spec(false, name),
    )
}

/// The output path of the template file at relative path `p`: same
/// directory, file name with sentinels replaced.
pub open spec fn output_path_spec(p: Seq<char>, name: Seq<char>) -> Seq<char> {
    parent_of(p) + output_file_name(file_name_of(p), name)
}

/// Whether the file rules let the file at `p` through: with no rules, or
/// no rule for `p`, it is; else its condition decides.
pub open spec fn included_spec(
    p: Seq<char>,
    filters: Seq<(Seq<char>, Seq<char>)>,
    vars: Seq<(Seq<char>, Seq<char>)>,
) -> bool {
    if filters.len() == 0 {
        true
    } else {
        match lookup(filters, p) {
            Some(c) => condition_holds(c, vars),
            None => true,
        }
    }
}

/// Whether the file at `p` is generated: not the manifest, and included.
pub open spec fn planned_spec(
    p: Seq<char>,
    filters: Seq<(Seq<char>, Seq<char>)>,
    vars: Seq<(Seq<char>, Seq<char>)>,
) -> bool {
    file_name_of(p) != ".conf"@ && included_spec(p, filters, vars)
}

/// The planned (source, output) pairs of the paths `ps`, in order.
pub open spec fn plan_spec(
    ps: Seq<Seq<char>>,
    filters: Seq<(Seq<char>, Seq<char>)>,
    vars: Seq<(Seq<char>, Seq<char>)>,
    name: Seq<char>,
) -> Seq<(Seq<char>, Seq<char>)>
    decreases ps.len(),
{
    if ps.len() == 0 {
        Seq::empty()
    } else {
        let rest = plan_spec(ps.drop_last(), filters, vars, name);
        let p = normalize_spec(ps.last());
        if planned_spec(p, filters, vars) {
            rest.push((p, output_path_spec(p, name)))
        } else {
            rest
        }
    }
}

/// One file to generate: its path in the template, and its output path,
/// both relative and `/`-separated.
#[derive(Debug, Clone, PartialEq, Eq)]
pub struct PlannedFile {
    pub source: String,
    pub output: String,
}

pub open spec fn planned_view(v: Seq<PlannedFile>) -> Seq<(Seq<char>, Seq<char>)> {
    v.map_values(|f: PlannedFile| (f.source@, f.output@))
}

proof fn lemma_last_index_of(s: Seq<char>, c: char)
    ensures
        match last_index_of(s, c) {
            Some(i) => 0 <= i < s.len() && s[i] == c && forall|j: int| i < j < s.len() ==> s[j] != c,
            None => forall|j: int| 0 <= j < s.len() ==> s[j] != c,
        },
    decreases s.len(),
{
    if s.len() > 0 {
        let t = s.drop_last();
        lemma_last_index_of(t, c);
        assert forall|j: int| 0 <= j < t.len() implies t[j] == s[j] by {}
    }
}

pub fn find_last(s: &[char], c: char) -> (r: Option<usize>)
    ensures
        match r {
            Some(i) => last_index_of(s@, c) == Some(i as int) && i < s@.len(),
            None => last_index_of(s@, c) is None,
        },
{
    let mut j: usize = s.len();
    assert(s@.take(j as int) =~= s@);
    while j > 0
        invariant
            0 <= j <= s@.len(),
            last_index_of(s@, c) == last_index_of(s@.take(j as int), c),
        decreases j,
    {
        let ghost t = s@.take(j as int);
        assert(t.drop_last() =~= s@.take(j - 1));
        if s[j - 1] == c {
            return Some(j - 1);
        }
        j = j - 1;
    }
    None
}

/// `\` replaced by `/`.
pub fn normalize_path(p: &str) -> (r: String)
    ensures
        r@ == normalize_spec(p@),
{
    let v = chars_of(p);
    let mut out: Vec<char> = Vec::new();
    let mut i: usize = 0;
    while i < v.len()
        invariant
            0 <= i <= v@.len(),
            out@ == normalize_spec(v@.take(i as int)),
        decreases v@.len() - i,
    {
        let c = v[i];
        out.push(if c == '\\' { '/' } else { c });
        i = i + 1;
        assert(out@ =~= normalize_spec(v@.take(i as int)));
    }
    assert(v@.take(v@.len() as int) =~= v@);
    string_of(out.as_slice())
}

/// Splits a relative path into its directory part (with the separator)
/// and its file name.
pub fn split_file_name(p: &str) -> (r: (String, String))
    ensures
        r.0@ == parent_of(p@),
        r.1@ == file_name_of(p@),
{
    let v = chars_of(p);
    match find_last(v.as_slice(), '/') {
        Some(i) => {
            proof {
                lemma_last_index_of(v@, '/');
            }
            let n = v.len();
            let dir = sub_chars(v.as_slice(), 0, i + 1);
            let file = sub_chars(v.as_slice(), i + 1, n);
            assert(dir@ =~= v@.take(i + 1));
            assert(file@ =~= v@.skip(i + 1));
            (string_of(dir.as_slice()), string_of(file.as_slice()))
        },
        None => (String::new(), string_of(v.as_slice())),
    }
}

/// The output path of the template file at relative path `relative`.
pub fn determine_output_path(relative: &str, name: &str) -> (r: String)
    ensures
        r@ == output_path_spec(relative@, name@),
{
    let (dir, file) = split_file_name(relative);
    let names = process_smart_names(name);
    let replaced = apply_smart_filename_replacements(file.as_str(), name, &names);
    let mut out = chars_of(dir.as_str());
    extend_chars(&mut out, chars_of(replaced.as_str()).as_slice());
    string_of(out.as_slice())
}

/// Template content with its sentinel tokens replaced by the names derived
/// from `name`; the bare token becomes `name` itself.
pub fn prepare_content(content: &str, name: &str) -> (r: String)
    ensures
        r@ == sentinel_spec(
            content@,
            name@,
            hook_spec(false, name@),
            context_spec(false, name@),
            provider_spec(false, name@),
            page_spec(false, name@),
        ),
{
    let names = process_smart_names(name);
    apply_smart_replacements(content, name, &names)
}

/// Whether the file rules let the file at `relative` through.
pub fn file_included(relative: &str, config: &TemplateConfig) -> (r: bool)
    ensures
        r == included_spec(relative@, config.file_filters@, config.variables@),
{
    if config.file_filters.is_empty() {
        return true;
    }
    match config.file_filters.get(relative) {
        Some(c) => evaluate_file_condition(c.as_str(), &config.variables),
        None => true,
    }
}

/// The files of a template run, in the order enumerated: each relative
/// path normalised to `/`, the manifest itself left out, the file rules
/// applied, and the output path derived.
pub fn plan_template_files(files: &Vec<String>, config: &TemplateConfig, name: &str) -> (r: Vec<PlannedFile>)
    ensures
        planned_view(r@) == plan_spec(
            files@.map_values(|f: String| f@),
            config.file_filters@,
            config.variables@,
            name@,
        ),
{
    let ghost ps = files@.map_values(|f: String| f@);
    let mut out: Vec<PlannedFile> = Vec::new();
    let mut i: usize = 0;
    let conf = chars_of(".conf");
    assert(planned_view(out@) =~= plan_spec(ps.take(0), config.file_filters@, config.variables@, name@));
    while i < files.len()
        invariant
            0 <= i <= files@.len(),
            ps == files@.map_values(|f: String| f@),
            conf@ == ".conf"@,
            planned_view(out@) == plan_spec(ps.take(i as int), config.file_filters@, config.variables@, name@),
        decreases files@.len() - i,
    {
        let p = normalize_path(files[i].as_str());
        let (_, file) = split_file_name(p.as_str());
        proof {
            assert(ps.take(i + 1).drop_last() =~= ps.take(i as int));
            assert(ps.take(i + 1).last() == files@[i as int]@);
        }
        let is_manifest = crate::text::chars_eq(chars_of(file.as_str()).as_slice(), conf.as_slice());
        if !is_manifest && file_included(p.as_str(), config) {
            let output = determine_output_path(p.as_str(), name);
            let ghost before = out@;
            out.push(PlannedFile { source: p, output });
            assert(planned_view(out@) =~= planned_view(before).push((out@.last().source@, out@.last().output@)));
        }
        i = i + 1;
    }
    assert(ps.take(files@.len() as int) =~= ps);
    out
}

} // verus!
