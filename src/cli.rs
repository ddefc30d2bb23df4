//! The command-line request, as values: what to generate, and the
//! `KEY=VALUE` variable overrides.
use vstd::prelude::*;
use std::path::PathBuf;
use crate::condition::{find_char, index_of, lemma_index_of};
use crate::listing::{self, DirEntryInfo};
use crate::text::{chars_of, string_of, trim_chars, trim_spec};
use crate::var_map::{insert_spec, VarMap};
use crate::words::sub_chars;

verus! {

/// A `KEY=VALUE` override, split at the first `=` and trimmed; `None` for
/// an entry without `=`.
pub open spec fn var_override(a: Seq<char>) -> Option<(Seq<char>, Seq<char>)> {
    match index_of(a, '=') {
        Some(p) => Some((trim_spec(a.take(p)), trim_spec(a.skip(p + 1)))),
        None => None,
    }
}

/// The overrides in order, a later one for the same key replacing the
/// earlier value; malformed entries are dropped.
pub open spec fn overrides_spec(args: Seq<Seq<char>>) -> Seq<(Seq<char>, Seq<char>)>
    decreases args.len(),
{
    if args.len() == 0 {
        Seq::empty()
    } else {
        let rest = overrides_spec(args.drop_last());
        match var_override(args.last()) {
            Some(kv) => insert_spec(rest, kv.0, kv.1),
            None => rest,
        }
    }
}

/// The entries that are not `KEY=VALUE`, in order.
pub open spec fn malformed_spec(args: Seq<Seq<char>>) -> Seq<Seq<char>>
    decreases args.len(),
{
    if args.len() == 0 {
        Seq::empty()
    } else {
        let rest = malformed_spec(args.drop_last());
        if var_override(args.last()) is None {
            rest.push(args.last())
        } else {
            rest
        }
    }
}

/// What was asked for on the command line.
#[derive(Debug, Clone)]
pub struct Args {
    pub name: Option<String>,
    pub template_type: Option<String>,
    pub architecture: Option<String>,
    pub no_folder: bool,
    pub output_dir: Option<PathBuf>,
    pub config: Option<PathBuf>,
    pub list: bool,
    pub vars: Vec<String>,
    pub describe: Option<String>,
}

impl Args {
    pub open spec fn vars_view(&self) -> Seq<Seq<char>> {
        self.vars@.map_values(|s: String| s@)
    }

    /// The variable overrides; entries without `=` are left out (see
    /// [`Args::malformed_vars`]).
    pub fn parse_vars(&self) -> (r: VarMap)
        ensures
            r@ == overrides_spec(self.vars_view()),
    {
        let ghost args = self.vars_view();
        let mut out = VarMap::new();
        let mut i: usize = 0;
        assert(args.take(0) =~= Seq::<Seq<char>>::empty());
        while i < self.vars.len()
            invariant
                0 <= i <= self.vars@.len(),
                args == self.vars_view(),
                out@ == overrides_spec(args.take(i as int)),
            decreases self.vars@.len() - i,
        {
            let a = chars_of(self.vars[i].as_str());
            proof {
                assert(args.take(i + 1).drop_last() =~= args.take(i as int));
                assert(args.take(i + 1).last() == a@);
                lemma_index_of(a@, '=');
            }
            match find_char(a.as_slice(), '=') {
                Some(p) => {
                    let n = a.len();
                    let k = sub_chars(a.as_slice(), 0, p);
                    let v = sub_chars(a.as_slice(), p + 1, n);
                    assert(k@ =~= a@.take(p as int));
                    assert(v@ =~= a@.skip(p + 1));
                    let kt = trim_chars(k.as_slice());
                    let vt = trim_chars(v.as_slice());
                    out.insert(string_of(kt.as_slice()), string_of(vt.as_slice()));
                },
                None => {},
            }
            i = i + 1;
        }
        assert(args.take(args.len() as int) =~= args);
        out
    }

    /// The variable entries that are not `KEY=VALUE`, to be reported.
    pub fn malformed_vars(&self) -> (r: Vec<String>)
        ensures
            r@.map_values(|s: String| s@) == malformed_spec(self.vars_view()),
    {
        let ghost args = self.vars_view();
        let mut out: Vec<String> = Vec::new();
        let mut i: usize = 0;
        assert(out@.map_values(|s: String| s@) =~= malformed_spec(args.take(0)));
        while i < self.vars.len()
            invariant
                0 <= i <= self.vars@.len(),
                args == self.vars_view(),
                out@.map_values(|s: String| s@) == malformed_spec(args.take(i as int)),
            decreases self.vars@.len() - i,
        {
            let a = chars_of(self.vars[i].as_str());
            proof {
                assert(args.take(i + 1).drop_last() =~= args.take(i as int));
                assert(args.take(i + 1).last() == a@);
            }
            if find_char(a.as_slice(), '=').is_none() {
                let ghost before = out@.map_values(|s: String| s@);
                out.push(string_of(a.as_slice()));
                assert(out@.map_values(|s: String| s@) =~= before.push(a@));
            }
            i = i + 1;
        }
        assert(args.take(args.len() as int) =~= args);
        out
    }

    /// The template types on offer in a listing of the templates
    /// directory, sorted, with `feature` among them.
    pub fn discover_templates(entries: &Vec<DirEntryInfo>) -> (r: Vec<String>)
        ensures
            listing::sorted_names(crate::options::strings_view(r@)),
            crate::options::strings_view(r@).to_multiset() == listing::offered_templates(entries@).to_multiset(),
    {
        listing::discover_templates(entries)
    }

    /// The architectures on offer in a listing of the architectures
    /// directory, sorted.
    pub fn discover_architectures(entries: &Vec<DirEntryInfo>) -> (r: Vec<String>)
        ensures
            listing::sorted_names(crate::options::strings_view(r@)),
            crate::options::strings_view(r@).to_multiset() == listing::architecture_names_spec(entries@).to_multiset(),
    {
        listing::discover_architectures(entries)
    }
}

} // verus!
