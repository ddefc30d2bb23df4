//! Architecture manifests: an ordered list of template partials, each bound
//! to a sub-directory of the generated feature.
use vstd::prelude::*;
use crate::plan::{file_name_of, normalize_path, normalize_spec, output_file_name, split_file_name, PlannedFile, planned_view};
use crate::naming::{apply_smart_filename_replacements, process_smart_names};
use crate::text::{chars_eq, chars_of, extend_chars, string_of};

verus! {

/// One part of an architecture: the sub-directory it fills, the template
/// it is generated from, its file-name pattern and a description.
#[derive(Debug, Clone)]
pub struct ArchitectureStructure {
    pub path: String,
    pub template: String,
    pub filename_pattern: String,
    pub description: String,
}

/// A named architecture: what it is for, and its parts in order.
#[derive(Debug, Clone)]
pub struct ArchitectureConfig {
    pub name: String,
    pub description: String,
    pub benefits: Vec<String>,
    pub limitations: Vec<String>,
    pub structure: Vec<ArchitectureStructure>,
}

/// The manifest file of the architecture `name`.
pub open spec fn architecture_file_spec(name: Seq<char>) -> Seq<char> {
    if name == "default"@ {
        "default.json"@
    } else {
        name + ".json"@
    }
}

pub fn architecture_file_name(name: &str) -> (r: String)
    ensures
        r@ == architecture_file_spec(name@),
{
    let nv = chars_of(name);
    if chars_eq(nv.as_slice(), chars_of("default").as_slice()) {
        string_of(chars_of("default.json").as_slice())
    } else {
        let mut out = nv;
        extend_chars(&mut out, chars_of(".json").as_slice());
        string_of(out.as_slice())
    }
}

/// Which manifest an architecture is read from.
#[derive(Debug, Clone, Copy, PartialEq, Eq)]
pub enum ArchitectureSource {
    /// The manifest of the architecture asked for.
    Requested,
    /// The default manifest, as the one asked for is absent.
    Default,
}

/// Neither the architecture asked for nor the default one exists.
#[derive(Debug, Clone, PartialEq, Eq)]
pub struct ArchitectureNotFound {
    pub architecture: String,
}

/// The manifest to read: the one asked for where it exists, else the
/// default one where that exists; with neither, not found.
pub fn choose_architecture_source(
    name: &str,
    requested_exists: bool,
    default_exists: bool,
) -> (r: Result<ArchitectureSource, ArchitectureNotFound>)
    ensures
        requested_exists ==> r == Ok::<ArchitectureSource, ArchitectureNotFound>(ArchitectureSource::Requested),
        !requested_exists && default_exists ==> r == Ok::<ArchitectureSource, ArchitectureNotFound>(ArchitectureSource::Default),
        !requested_exists && !default_exists ==> (r matches Err(e) && e.architecture@ == name@),
{
    if requested_exists {
        Ok(ArchitectureSource::Requested)
    } else if default_exists {
        Ok(ArchitectureSource::Default)
    } else {
        Err(ArchitectureNotFound { architecture: string_of(chars_of(name).as_slice()) })
    }
}

/// Whether a template type asks for a whole feature from an architecture.
pub fn is_feature_template(template_type: &str) -> (r: bool)
    ensures
        r == (template_type@ == "feature"@),
{
    chars_eq(chars_of(template_type).as_slice(), chars_of("feature").as_slice())
}

/// The output path, inside the part's sub-directory, of a template file of
/// that part: its file name with the sentinel tokens replaced.
pub open spec fn feature_output_spec(dir: Seq<char>, p: Seq<char>, name: Seq<char>) -> Seq<char> {
    (if dir.len() == 0 {
        Seq::empty()
    } else {
        dir + "/"@
    }) + output_file_name(file_name_of(normalize_spec(p)), name)
}

/// The files of one part, in the order enumerated, the manifest left out;
/// architecture templates have no file rules.
pub open spec fn feature_plan_spec(dir: Seq<char>, ps: Seq<Seq<char>>, name: Seq<char>) -> Seq<(Seq<char>, Seq<char>)>
    decreases ps.len(),
{
    if ps.len() == 0 {
        Seq::empty()
    } else {
        let rest = feature_plan_spec(dir, ps.drop_last(), name);
        let p = normalize_spec(ps.last());
        if file_name_of(p) != ".conf"@ {
            rest.push((p, feature_output_spec(dir, ps.last(), name)))
        } else {
            rest
        }
    }
}

/// The files one part of an architecture generates.
pub fn plan_feature_files(entry: &ArchitectureStructure, files: &Vec<String>, name: &str) -> (r: Vec<PlannedFile>)
    ensures
        planned_view(r@) == feature_plan_spec(entry.path@, files@.map_values(|f: String| f@), name@),
{
    let ghost ps = files@.map_values(|f: String| f@);
    let names = process_smart_names(name);
    let dir = chars_of(entry.path.as_str());
    let conf = chars_of(".conf");
    let mut out: Vec<PlannedFile> = Vec::new();
    let mut i: usize = 0;
    assert(planned_view(out@) =~= feature_plan_spec(entry.path@, ps.take(0), name@));
    while i < files.len()
        invariant
            0 <= i <= files@.len(),
            ps == files@.map_values(|f: String| f@),
            dir@ == entry.path@,
            conf@ == ".conf"@,
            crate::naming::derived_names(&names, false, name@),
            planned_view(out@) == feature_plan_spec(entry.path@, ps.take(i as int), name@),
        decreases files@.len() - i,
    {
        let p = normalize_path(files[i].as_str());
        let (_, file) = split_file_name(p.as_str());
        proof {
            assert(ps.take(i + 1).drop_last() =~= ps.take(i as int));
            assert(ps.take(i + 1).last() == files@[i as int]@);
        }
        if !chars_eq(chars_of(file.as_str()).as_slice(), conf.as_slice()) {
            let replaced = apply_smart_filename_replacements(file.as_str(), name, &names);
            let mut o: Vec<char> = Vec::new();
            if dir.len() > 0 {
                extend_chars(&mut o, dir.as_slice());
                o.push('/');
            }
            extend_chars(&mut o, chars_of(replaced.as_str()).as_slice());
            proof {
                reveal_strlit("/");
            }
            let output = string_of(o.as_slice());
            assert(output@ =~= feature_output_spec(entry.path@, files@[i as int]@, name@));
            let ghost before = out@;
            out.push(PlannedFile { source: p, output });
            assert(planned_view(out@) =~= planned_view(before).push((out@.last().source@, out@.last().output@)));
        }
        i = i + 1;
    }
    assert(ps.take(files@.len() as int) =~= ps);
    out
}

} // verus!
