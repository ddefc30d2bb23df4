//! Tool settings: defaults, the INI-like settings file, and where template
//! and architecture directories are looked for.
use vstd::prelude::*;
use std::path::PathBuf;
use crate::condition::{find_char, index_of, lemma_index_of};
use crate::file_system::join_under;
use crate::manifest::flag_value;
use crate::types::path_of;
use crate::text::{
    chars_eq, chars_of, extend_chars, lemma_segments_empty, lemma_segments_step, segments,
    string_of, trim_chars, trim_matches_chars, trim_matches_spec, trim_spec,
};
use crate::words::sub_chars;

verus! {

/// A `key=value` line of the settings file, if the line is one: trimmed,
/// not a comment, split at the first `=`, key trimmed, value trimmed and
/// stripped of surrounding `"` and `'`.
pub open spec fn ini_pair(raw: Seq<char>) -> Option<(Seq<char>, Seq<char>)> {
    let line = trim_spec(raw);
    if line.len() == 0 || line[0] == '#' {
        None
    } else {
        match index_of(line, '=') {
            Some(p) => Some(
                (
                    trim_spec(line.take(p)),
                    trim_matches_spec(trim_matches_spec(trim_spec(line.skip(p + 1)), '"'), '\''),
                ),
            ),
            None => None,
        }
    }
}

pub open spec fn ini_pairs(ls: Seq<Seq<char>>) -> Seq<(Seq<char>, Seq<char>)>
    decreases ls.len(),
{
    if ls.len() == 0 {
        Seq::empty()
    } else {
        let rest = ini_pairs(ls.drop_last());
        match ini_pair(ls.last()) {
            Some(kv) => rest.push(kv),
            None => rest,
        }
    }
}

/// The `key=value` pairs of a settings text, in order.
pub open spec fn parse_ini_spec(content: Seq<char>) -> Seq<(Seq<char>, Seq<char>)> {
    ini_pairs(segments(content, '\n'))
}

pub open spec fn pairs_view(v: Seq<(String, String)>) -> Seq<(Seq<char>, Seq<char>)> {
    v.map_values(|e: (String, String)| (e.0@, e.1@))
}

fn ini_line(raw: &[char]) -> (r: Option<(String, String)>)
    ensures
        match ini_pair(raw@) {
            Some(kv) => r matches Some(p) && p.0@ == kv.0 && p.1@ == kv.1,
            None => r is None,
        },
{
    let line = trim_chars(raw);
    let n = line.len();
    if n == 0 || line[0] == '#' {
        return None;
    }
    proof {
        lemma_index_of(line@, '=');
    }
    match find_char(line.as_slice(), '=') {
        Some(p) => {
            let key_raw = sub_chars(line.as_slice(), 0, p);
            let value_raw = sub_chars(line.as_slice(), p + 1, n);
            assert(key_raw@ =~= line@.take(p as int));
            assert(value_raw@ =~= line@.skip(p + 1));
            let key = trim_chars(key_raw.as_slice());
            let value = trim_chars(value_raw.as_slice());
            let value = trim_matches_chars(value.as_slice(), '"');
            let value = trim_matches_chars(value.as_slice(), '\'');
            Some((string_of(key.as_slice()), string_of(value.as_slice())))
        },
        None => None,
    }
}

/// The `key=value` pairs of a settings text, in order; blank lines,
/// comments and lines without `=` are skipped.
pub fn parse_ini(content: &str) -> (r: Vec<(String, String)>)
    ensures
        pairs_view(r@) == parse_ini_spec(content@),
{
    let text = chars_of(content);
    let mut out: Vec<(String, String)> = Vec::new();
    let mut cur: Vec<char> = Vec::new();
    let ghost mut done: Seq<Seq<char>> = Seq::empty();
    proof {
        lemma_segments_empty('\n');
        assert(text@.take(0) =~= Seq::<char>::empty());
        assert(pairs_view(out@) =~= ini_pairs(done));
    }
    let mut i: usize = 0;
    while i < text.len()
        invariant
            0 <= i <= text@.len(),
            segments(text@.take(i as int), '\n') == done.push(cur@),
            pairs_view(out@) == ini_pairs(done),
        decreases text@.len() - i,
    {
        proof {
            lemma_segments_step(text@, '\n', i as int, done, cur@);
        }
        if text[i] == '\n' {
            let ghost before = pairs_view(out@);
            match ini_line(cur.as_slice()) {
                Some(kv) => {
                    out.push(kv);
                    assert(pairs_view(out@) =~= before.push((out@.last().0@, out@.last().1@)));
                },
                None => {},
            }
            proof {
                assert(done.push(cur@).drop_last() =~= done);
                done = done.push(cur@);
            }
            cur = Vec::new();
            proof {
                assert(cur@ =~= Seq::<char>::empty());
            }
        } else {
            cur.push(text[i]);
        }
        i = i + 1;
    }
    let ghost before = pairs_view(out@);
    match ini_line(cur.as_slice()) {
        Some(kv) => {
            out.push(kv);
            assert(pairs_view(out@) =~= before.push((out@.last().0@, out@.last().1@)));
        },
        None => {},
    }
    proof {
        assert(done.push(cur@).drop_last() =~= done);
        assert(text@.take(text@.len() as int) =~= text@);
    }
    out
}

pub open spec fn bool_text(b: bool) -> Seq<char> {
    if b {
        "true"@
    } else {
        "false"@
    }
}

/// The settings file text for the given settings; paths are given as they
/// are to be written.
pub open spec fn ini_text(
    default_type: Seq<char>,
    create_folder: bool,
    enable_hooks: bool,
    templates_dir: Seq<char>,
    output_dir: Seq<char>,
    architectures_dir: Seq<char>,
    default_architecture: Seq<char>,
) -> Seq<char> {
    "# CLI Frontend Generator Configuration\n# This file uses INI-like format for easy configuration\n\n# General settings\ndefault_type="@
        + default_type + "\ncreate_folder="@ + bool_text(create_folder) + "\nenable_hooks="@
        + bool_text(enable_hooks) + "\n\n# Paths configuration\ntemplates_dir="@ + templates_dir
        + "\noutput_dir="@ + output_dir + "\narchitectures_dir="@ + architectures_dir
        + "\n\n# Feature settings\ndefault_architecture="@ + default_architecture
        + "\n\n# Available template types are determined by the directories in templates_dir\n# Available architectures are determined by JSON files in architectures_dir\n# You can add new templates by creating new directories in templates_dir\n# You can add new architectures by creating new JSON files in architectures_dir\n"@
}

fn push_str(out: &mut Vec<char>, s: &str)
    ensures
        final(out)@ == old(out)@ + s@,
{
    let v = chars_of(s);
    extend_chars(out, v.as_slice());
}

fn bool_str(b: bool) -> (r: &'static str)
    ensures
        r@ == bool_text(b),
{
    if b {
        "true"
    } else {
        "false"
    }
}

/// Writes the settings file text.
pub fn to_ini(
    default_type: &str,
    create_folder: bool,
    enable_hooks: bool,
    templates_dir: &str,
    output_dir: &str,
    architectures_dir: &str,
    default_architecture: &str,
) -> (r: String)
    ensures
        r@ == ini_text(
            default_type@,
            create_folder,
            enable_hooks,
            templates_dir@,
            output_dir@,
            architectures_dir@,
            default_architecture@,
        ),
{
    let mut out: Vec<char> = Vec::new();
    push_str(
        &mut out,
        "# CLI Frontend Generator Configuration\n# This file uses INI-like format for easy configuration\n\n# General settings\ndefault_type=",
    );
    push_str(&mut out, default_type);
    push_str(&mut out, "\ncreate_folder=");
    push_str(&mut out, bool_str(create_folder));
    push_str(&mut out, "\nenable_hooks=");
    push_str(&mut out, bool_str(enable_hooks));
    push_str(&mut out, "\n\n# Paths configuration\ntemplates_dir=");
    push_str(&mut out, templates_dir);
    push_str(&mut out, "\noutput_dir=");
    push_str(&mut out, output_dir);
    push_str(&mut out, "\narchitectures_dir=");
    push_str(&mut out, architectures_dir);
    push_str(&mut out, "\n\n# Feature settings\ndefault_architecture=");
    push_str(&mut out, default_architecture);
    push_str(
        &mut out,
        "\n\n# Available template types are determined by the directories in templates_dir\n# Available architectures are determined by JSON files in architectures_dir\n# You can add new templates by creating new directories in templates_dir\n# You can add new architectures by creating new JSON files in architectures_dir\n",
    );
    string_of(out.as_slice())
}

/// Relies on `dirs::home_dir`: the user's home directory, where one is
/// known; it depends on the environment, so nothing is stated of it.
#[verifier::external_body]
fn home_dir() -> (r: Option<PathBuf>) {
    dirs::home_dir()
}

/// Relies on `PathBuf::from` of a string.
#[verifier::external_body]
fn path_from(s: &str) -> (r: PathBuf) {
    PathBuf::from(s)
}

/// Relies on `Path::is_dir`: whether a directory is there now; it reads
/// the file system, so nothing is stated of it.
#[verifier::external_body]
fn is_existing_dir(p: &PathBuf) -> (r: bool) {
    p.is_dir()
}

/// Relies on `PathBuf::clone`: an equal path.
#[verifier::external_body]
fn clone_path(p: &PathBuf) -> (r: PathBuf)
    ensures
        r == *p,
{
    p.clone()
}

/// The first of `candidates` that is an existing directory, else
/// `fallback`.
pub fn first_existing_dir(candidates: &Vec<PathBuf>, fallback: PathBuf) -> (r: PathBuf)
    ensures
        r == fallback || candidates@.contains(r),
{
    let mut i: usize = 0;
    while i < candidates.len()
        invariant
            0 <= i <= candidates@.len(),
        decreases candidates@.len() - i,
    {
        if is_existing_dir(&candidates[i]) {
            let r = clone_path(&candidates[i]);
            assert(candidates@[i as int] == r);
            return r;
        }
        i = i + 1;
    }
    fallback
}

/// The search order for a directory: local paths, then, where the home
/// directory is known, paths under it and system paths; the first that
/// exists, else `fallback`.
pub fn find_directory(
    local_paths: Vec<PathBuf>,
    home_subpaths: Vec<&str>,
    system_paths: Vec<PathBuf>,
    fallback: PathBuf,
) -> (r: PathBuf)
    ensures
        r == fallback || local_paths@.contains(r) || system_paths@.contains(r) || home_subpaths@.len() > 0,
{
    let mut search = local_paths;
    let ghost local = search@;
    match home_dir() {
        Some(home) => {
            let mut i: usize = 0;
            while i < home_subpaths.len()
                invariant
                    0 <= i <= home_subpaths@.len(),
                    home_subpaths@.len() == 0 ==> search@ == local,
                decreases home_subpaths@.len() - i,
            {
                search.push(join_under(path_of(&home), home_subpaths[i]));
                i = i + 1;
            }
            let mut j: usize = 0;
            assert(local + system_paths@.take(0) =~= local);
            while j < system_paths.len()
                invariant
                    0 <= j <= system_paths@.len(),
                    home_subpaths@.len() == 0 ==> search@ == local + system_paths@.take(j as int),
                decreases system_paths@.len() - j,
            {
                assert(home_subpaths@.len() == 0 ==> local + system_paths@.take(j as int) + seq![system_paths@[j as int]] =~= local + system_paths@.take(j + 1));
                search.push(clone_path(&system_paths[j]));
                j = j + 1;
                assert(home_subpaths@.len() == 0 ==> search@ =~= local + system_paths@.take(j as int));
            }
            let r = first_existing_dir(&search, fallback);
            proof {
                if home_subpaths@.len() == 0 && r != fallback {
                    assert(system_paths@.take(system_paths@.len() as int) =~= system_paths@);
                    let k = choose|k: int| 0 <= k < search@.len() && search@[k] == r;
                    if k < local.len() {
                        assert(local[k] == r);
                    } else {
                        assert(system_paths@[k - local.len()] == r);
                    }
                }
            }
            r
        },
        None => first_existing_dir(&search, fallback),
    }
}

/// Why the settings could not be read.
#[derive(Debug, Clone, PartialEq, Eq)]
pub enum ConfigError {
    /// A path starts with `~` and no home directory is known.
    NoHomeDirectory,
}

/// A path as written in the settings: a leading `~` stands for the home
/// directory (`~/x` is `x` under it); anything else is taken as it is.
pub fn expand_path(value: &str) -> (r: Result<PathBuf, ConfigError>)
    ensures
        r is Err ==> value@.len() > 0 && value@[0] == '~',
{
    let v = chars_of(value);
    if v.len() > 0 && v[0] == '~' {
        match home_dir() {
            Some(home) => {
                let rest = if v.len() >= 2 && v[1] == '/' {
                    string_of(sub_chars(v.as_slice(), 2, v.len()).as_slice())
                } else {
                    string_of(v.as_slice())
                };
                Ok(join_under(path_of(&home), rest.as_str()))
            },
            None => Err(ConfigError::NoHomeDirectory),
        }
    } else {
        Ok(path_from(value))
    }
}

/// The string and flag settings, as values.
pub struct SettingsModel {
    pub default_type: Seq<char>,
    pub create_folder: bool,
    pub enable_hooks: bool,
    pub default_architecture: Seq<char>,
}

pub open spec fn default_settings() -> SettingsModel {
    SettingsModel {
        default_type: "component"@,
        create_folder: true,
        enable_hooks: true,
        default_architecture: "screaming-architecture"@,
    }
}

/// The effect of the pairs on the string and flag settings; unknown keys
/// and path keys leave them as they are.
pub open spec fn apply_settings(st: SettingsModel, pairs: Seq<(Seq<char>, Seq<char>)>) -> SettingsModel
    decreases pairs.len(),
{
    if pairs.len() == 0 {
        st
    } else {
        let s = apply_settings(st, pairs.drop_last());
        let (k, v) = pairs.last();
        if k == "default_type"@ {
            SettingsModel { default_type: v, ..s }
        } else if k == "create_folder"@ {
            SettingsModel { create_folder: flag_value(v), ..s }
        } else if k == "enable_hooks"@ {
            SettingsModel { enable_hooks: flag_value(v), ..s }
        } else if k == "default_architecture"@ {
            SettingsModel { default_architecture: v, ..s }
        } else {
            s
        }
    }
}

/// A directory setting written with a leading `~`.
pub open spec fn tilde_path_setting(kv: (Seq<char>, Seq<char>)) -> bool {
    (kv.0 == "templates_dir"@ || kv.0 == "architectures_dir"@) && kv.1.len() > 0 && kv.1[0] == '~'
}

/// The generator's settings.
#[derive(Debug)]
pub struct Config {
    default_type: String,
    create_folder: bool,
    enable_hooks: bool,
    templates_dir: PathBuf,
    output_dir: PathBuf,
    architectures_dir: PathBuf,
    default_architecture: String,
}

impl Config {
    pub closed spec fn settings(&self) -> SettingsModel {
        SettingsModel {
            default_type: self.default_type@,
            create_folder: self.create_folder,
            enable_hooks: self.enable_hooks,
            default_architecture: self.default_architecture@,
        }
    }

    /// Default settings with the given directories; output goes to `.`.
    pub fn with_directories(templates_dir: PathBuf, architectures_dir: PathBuf) -> (r: Config)
        ensures
            r.settings() == default_settings(),
    {
        Config {
            default_type: string_of(chars_of("component").as_slice()),
            create_folder: true,
            enable_hooks: true,
            templates_dir,
            output_dir: path_from("."),
            architectures_dir,
            default_architecture: string_of(chars_of("screaming-architecture").as_slice()),
        }
    }

    /// Where templates are looked for: `./templates`, `./.cli-template`,
    /// then under the home directory, then system directories; else
    /// `.cli-template` under the home directory (or `.`).
    pub fn find_templates_directory() -> (r: PathBuf) {
        let local: Vec<PathBuf> = vec![path_from("./templates"), path_from("./.cli-template")];
        let home_subpaths: Vec<&str> = vec![".cli-template", ".config/cli-frontend/templates"];
        let system: Vec<PathBuf> = vec![
            path_from("/usr/local/share/cli-frontend/templates"),
            path_from("/usr/share/cli-frontend/templates"),
        ];
        let base = match home_dir() {
            Some(h) => h,
            None => path_from("."),
        };
        let fallback = join_under(path_of(&base), ".cli-template");
        find_directory(local, home_subpaths, system, fallback)
    }

    /// Where architectures are looked for: `./architectures`,
    /// `./.cli-architectures`, then under the home directory, then system
    /// directories; else `./architectures`.
    pub fn find_architectures_directory() -> (r: PathBuf) {
        let local: Vec<PathBuf> = vec![path_from("./architectures"), path_from("./.cli-architectures")];
        let home_subpaths: Vec<&str> = vec![".cli-architectures", ".config/cli-frontend/architectures"];
        let system: Vec<PathBuf> = vec![
            path_from("/usr/local/share/cli-frontend/architectures"),
            path_from("/usr/share/cli-frontend/architectures"),
        ];
        let fallback = path_from("./architectures");
        find_directory(local, home_subpaths, system, fallback)
    }

    /// Reads the settings text over the defaults. Path settings are
    /// expanded; the others are taken as written, `create_folder` and
    /// `enable_hooks` being false only for `false`.
    pub fn from_ini(content: &str) -> (r: Result<Config, ConfigError>)
        ensures
            r matches Ok(c) ==> c.settings() == apply_settings(default_settings(), parse_ini_spec(content@)),
            r is Err ==> exists|i: int|
                0 <= i < parse_ini_spec(content@).len() && tilde_path_setting(#[trigger] parse_ini_spec(content@)[i]),
    {
        let mut config = Config::default();
        let pairs = parse_ini(content);
        let mut i: usize = 0;
        while i < pairs.len()
            invariant
                0 <= i <= pairs@.len(),
                config.settings() == apply_settings(default_settings(), pairs_view(pairs@).take(i as int)),
                pairs_view(pairs@) == parse_ini_spec(content@),
            decreases pairs@.len() - i,
        {
            let (k, v) = (&pairs[i].0, &pairs[i].1);
            proof {
                let pv = pairs_view(pairs@);
                assert(pv.take(i + 1).drop_last() =~= pv.take(i as int));
                assert(pv.take(i + 1).last() == (k@, v@));
            }
            let kv = chars_of(k.as_str());
            let k_s = kv.as_slice();
            let is_false = chars_eq(chars_of(v.as_str()).as_slice(), chars_of("false").as_slice());
            if chars_eq(k_s, chars_of("default_type").as_slice()) {
                config.default_type = v.clone();
            } else if chars_eq(k_s, chars_of("create_folder").as_slice()) {
                config.create_folder = !is_false;
            } else if chars_eq(k_s, chars_of("enable_hooks").as_slice()) {
                config.enable_hooks = !is_false;
            } else if chars_eq(k_s, chars_of("default_architecture").as_slice()) {
                config.default_architecture = v.clone();
            } else if chars_eq(k_s, chars_of("templates_dir").as_slice()) {
                match expand_path(v.as_str()) {
                    Ok(p) => config.templates_dir = p,
                    Err(e) => {
                        assert(tilde_path_setting(pairs_view(pairs@)[i as int]));
                        return Err(e);
                    },
                }
            } else if chars_eq(k_s, chars_of("output_dir").as_slice()) {
                config.output_dir = path_from(v.as_str());
            } else if chars_eq(k_s, chars_of("architectures_dir").as_slice()) {
                match expand_path(v.as_str()) {
                    Ok(p) => config.architectures_dir = p,
                    Err(e) => {
                        assert(tilde_path_setting(pairs_view(pairs@)[i as int]));
                        return Err(e);
                    },
                }
            }
            i = i + 1;
        }
        assert(pairs_view(pairs@).take(pairs@.len() as int) =~= pairs_view(pairs@));
        Ok(config)
    }

    pub fn default_type(&self) -> (r: &str)
        ensures
            r@ == self.settings().default_type,
    {
        self.default_type.as_str()
    }

    pub fn create_folder(&self) -> (r: bool)
        ensures
            r == self.settings().create_folder,
    {
        self.create_folder
    }

    pub fn enable_hooks(&self) -> (r: bool)
        ensures
            r == self.settings().enable_hooks,
    {
        self.enable_hooks
    }

    pub fn templates_dir(&self) -> (r: &PathBuf) {
        &self.templates_dir
    }

    pub fn output_dir(&self) -> (r: &PathBuf) {
        &self.output_dir
    }

    pub fn architectures_dir(&self) -> (r: &PathBuf) {
        &self.architectures_dir
    }

    pub fn default_architecture(&self) -> (r: &str)
        ensures
            r@ == self.settings().default_architecture,
    {
        self.default_architecture.as_str()
    }
}

impl Default for Config {
    /// The defaults, with the template and architecture directories found
    /// by the search order.
    fn default() -> (r: Config)
        ensures
            r.settings() == default_settings(),
    {
        let templates_dir = Config::find_templates_directory();
        let architectures_dir = Config::find_architectures_directory();
        Config::with_directories(templates_dir, architectures_dir)
    }
}

} // verus!
