//! Template manifests: the `.conf` file of a template, read into variables
//! with defaults, typed options, file rules and metadata.
//!
//! The text is read line by line. Blank lines and lines starting with `#`
//! are skipped; `[name]` opens a section; `key=value` lines are read within
//! the current section. A value loses what follows its first `#`, then
//! surrounding white space, then surrounding `"` and `'` quotes.
//!
//! - `[metadata]`: `name` and `description`; the first one written wins.
//! - `[options]`: `X_options` lists the allowed values of `X` (comma
//!   separated), `X_type` its kind, `X_description` its description; any
//!   other key is a variable default.
//! - `[files]`: file name pattern to condition.
//! - any other section, or none: `environment`, `enable_timestamps`,
//!   `enable_uuid`, and `var_X` as the default of `X`.
//!
//! Unknown keys and sections are ignored.
use vstd::prelude::*;
use crate::condition::{find_char, index_of};
use crate::options::{opt_current, opt_put, strings_view, OptionMap, OptionView, VariableOption};
use crate::text::{
    chars_eq, chars_of, ends_with, ends_with_chars, lemma_segments_empty, lemma_segments_step,
    segments, starts_with, starts_with_chars, string_of, trim_chars, trim_matches_chars,
    trim_matches_spec, trim_spec,
};
use crate::var_map::{insert_spec, VarMap};
use crate::words::sub_chars;

verus! {

/// Name and description of a template.
#[derive(Debug, Clone, Default)]
pub struct TemplateMetadata {
    pub name: String,
    pub description: String,
}

/// The configuration a template manifest describes.
#[derive(Debug, Clone)]
pub struct TemplateConfig {
    pub variables: VarMap,
    pub environment: String,
    pub enable_timestamps: bool,
    pub enable_uuid: bool,
    pub file_filters: VarMap,
    pub metadata: TemplateMetadata,
    pub options_metadata: OptionMap,
}

/// What a manifest says, as values.
pub struct ManifestModel {
    pub variables: Seq<(Seq<char>, Seq<char>)>,
    pub environment: Seq<char>,
    pub enable_timestamps: bool,
    pub enable_uuid: bool,
    pub file_filters: Seq<(Seq<char>, Seq<char>)>,
    pub name: Seq<char>,
    pub description: Seq<char>,
    pub options: Seq<(Seq<char>, OptionView)>,
}

impl TemplateConfig {
    pub open spec fn model(&self) -> ManifestModel {
        ManifestModel {
            variables: self.variables@,
            environment: self.environment@,
            enable_timestamps: self.enable_timestamps,
            enable_uuid: self.enable_uuid,
            file_filters: self.file_filters@,
            name: self.metadata.name@,
            description: self.metadata.description@,
            options: self.options_metadata@,
        }
    }
}

/// The environment of a configuration that does not name one.
pub open spec fn default_environment() -> Seq<char> {
    "development"@
}

pub open spec fn default_model() -> ManifestModel {
    ManifestModel {
        variables: Seq::empty(),
        environment: default_environment(),
        enable_timestamps: true,
        enable_uuid: true,
        file_filters: Seq::empty(),
        name: Seq::empty(),
        description: Seq::empty(),
        options: Seq::empty(),
    }
}

impl Default for TemplateConfig {
    /// No variables, rules or options; timestamps and UUIDs enabled; the
    /// `development` environment.
    fn default() -> (r: Self)
        ensures
            r.model() == default_model(),
    {
        TemplateConfig {
            variables: VarMap::new(),
            environment: string_of(chars_of("development").as_slice()),
            enable_timestamps: true,
            enable_uuid: true,
            file_filters: VarMap::new(),
            metadata: TemplateMetadata { name: String::new(), description: String::new() },
            options_metadata: OptionMap::new(),
        }
    }
}

/// The state of the reader between two lines.
pub struct ParseModel {
    pub cfg: ManifestModel,
    pub section: Seq<char>,
    pub name_seen: bool,
    pub description_seen: bool,
}

/// The text before the first `c`, or all of `s`.
pub open spec fn before_char(s: Seq<char>, c: char) -> Seq<char> {
    match index_of(s, c) {
        Some(h) => s.take(h),
        None => s,
    }
}

/// A value as written after `=`: comment cut, trimmed, quotes removed.
pub open spec fn clean_value(v: Seq<char>) -> Seq<char> {
    trim_matches_spec(trim_matches_spec(trim_spec(before_char(v, '#')), '"'), '\'')
}

/// The trimmed, non-empty pieces, in order.
pub open spec fn non_empty_trimmed(ps: Seq<Seq<char>>) -> Seq<Seq<char>>
    decreases ps.len(),
{
    if ps.len() == 0 {
        Seq::empty()
    } else {
        let rest = non_empty_trimmed(ps.drop_last());
        let t = trim_spec(ps.last());
        if t.len() > 0 {
            rest.push(t)
        } else {
            rest
        }
    }
}

/// The allowed values of an enumerated option: comma separated, trimmed,
/// empty ones dropped.
pub open spec fn option_values(v: Seq<char>) -> Seq<Seq<char>> {
    non_empty_trimmed(segments(v, ','))
}

/// `"false"` reads as false; anything else as true.
pub open spec fn flag_value(v: Seq<char>) -> bool {
    v != "false"@
}

pub open spec fn strip_suffix(s: Seq<char>, suf: Seq<char>) -> Seq<char> {
    s.take(s.len() - suf.len())
}

pub open spec fn with_cfg(st: ParseModel, cfg: ManifestModel) -> ParseModel {
    ParseModel { cfg, ..st }
}

pub open spec fn apply_options_pair(cfg: ManifestModel, key: Seq<char>, value: Seq<char>) -> ManifestModel {
    if ends_with(key, "_options"@) {
        let n = strip_suffix(key, "_options"@);
        let o = opt_current(cfg.options, n);
        ManifestModel { options: opt_put(cfg.options, n, (o.0, option_values(value), o.2)), ..cfg }
    } else if ends_with(key, "_type"@) {
        let n = strip_suffix(key, "_type"@);
        let o = opt_current(cfg.options, n);
        ManifestModel { options: opt_put(cfg.options, n, (value, o.1, o.2)), ..cfg }
    } else if ends_with(key, "_description"@) {
        let n = strip_suffix(key, "_description"@);
        let o = opt_current(cfg.options, n);
        ManifestModel { options: opt_put(cfg.options, n, (o.0, o.1, value)), ..cfg }
    } else {
        ManifestModel { variables: insert_spec(cfg.variables, key, value), ..cfg }
    }
}

pub open spec fn apply_root_pair(cfg: ManifestModel, key: Seq<char>, value: Seq<char>) -> ManifestModel {
    if key == "environment"@ {
        ManifestModel { environment: value, ..cfg }
    } else if key == "enable_timestamps"@ {
        ManifestModel { enable_timestamps: flag_value(value), ..cfg }
    } else if key == "enable_uuid"@ {
        ManifestModel { enable_uuid: flag_value(value), ..cfg }
    } else if starts_with(key, "var_"@) {
        ManifestModel { variables: insert_spec(cfg.variables, key.skip(4), value), ..cfg }
    } else {
        cfg
    }
}

pub open spec fn apply_pair(st: ParseModel, key: Seq<char>, value: Seq<char>) -> ParseModel {
    if st.section == "metadata"@ {
        if key == "name"@ && !st.name_seen {
            ParseModel {
                cfg: ManifestModel { name: value, ..st.cfg },
                name_seen: true,
                ..st
            }
        } else if key == "description"@ && !st.description_seen {
            ParseModel {
                cfg: ManifestModel { description: value, ..st.cfg },
                description_seen: true,
                ..st
            }
        } else {
            st
        }
    } else if st.section == "options"@ {
        with_cfg(st, apply_options_pair(st.cfg, key, value))
    } else if st.section == "files"@ {
        with_cfg(st, ManifestModel { file_filters: insert_spec(st.cfg.file_filters, key, value), ..st.cfg })
    } else {
        with_cfg(st, apply_root_pair(st.cfg, key, value))
    }
}

/// The effect of one line of the manifest.
pub open spec fn apply_line(st: ParseModel, raw: Seq<char>) -> ParseModel {
    let line = trim_spec(raw);
    if line.len() == 0 || line[0] == '#' {
        st
    } else if line.len() >= 2 && line[0] == '[' && line.last() == ']' {
        ParseModel { section: line.subrange(1, line.len() - 1), ..st }
    } else {
        match index_of(line, '=') {
            Some(p) => apply_pair(st, trim_spec(line.take(p)), clean_value(line.skip(p + 1))),
            None => st,
        }
    }
}

/// The effect of the lines `ls`, in order, from the start state.
pub open spec fn apply_lines(ls: Seq<Seq<char>>) -> ParseModel
    decreases ls.len(),
{
    if ls.len() == 0 {
        ParseModel {
            cfg: default_model(),
            section: Seq::empty(),
            name_seen: false,
            description_seen: false,
        }
    } else {
        apply_line(apply_lines(ls.drop_last()), ls.last())
    }
}

/// What the manifest text `content` describes.
pub open spec fn manifest_spec(content: Seq<char>) -> ManifestModel {
    apply_lines(segments(content, '\n')).cfg
}

fn option_values_chars(v: &[char]) -> (r: Vec<String>)
    ensures
        strings_view(r@) == option_values(v@),
{
    let mut out: Vec<String> = Vec::new();
    let mut cur: Vec<char> = Vec::new();
    let ghost mut done: Seq<Seq<char>> = Seq::empty();
    proof {
        lemma_segments_empty(',');
        assert(v@.take(0) =~= Seq::<char>::empty());
        assert(strings_view(out@) =~= Seq::<Seq<char>>::empty());
    }
    let mut i: usize = 0;
    while i < v.len()
        invariant
            0 <= i <= v@.len(),
            segments(v@.take(i as int), ',') == done.push(cur@),
            strings_view(out@) == non_empty_trimmed(done),
        decreases v@.len() - i,
    {
        proof {
            lemma_segments_step(v@, ',', i as int, done, cur@);
        }
        if v[i] == ',' {
            let t = trim_chars(cur.as_slice());
            proof {
                assert(done.push(cur@).drop_last() =~= done);
            }
            if t.len() > 0 {
                out.push(string_of(t.as_slice()));
            }
            proof {
                done = done.push(cur@);
                assert(strings_view(out@) =~= non_empty_trimmed(done));
            }
            cur = Vec::new();
            proof {
                assert(cur@ =~= Seq::<char>::empty());
            }
        } else {
            cur.push(v[i]);
        }
        i = i + 1;
    }
    let t = trim_chars(cur.as_slice());
    proof {
        assert(done.push(cur@).drop_last() =~= done);
    }
    if t.len() > 0 {
        out.push(string_of(t.as_slice()));
    }
    proof {
        assert(v@.take(v@.len() as int) =~= v@);
        assert(strings_view(out@) =~= non_empty_trimmed(done.push(cur@)));
    }
    out
}

fn clean_value_chars(v: &[char]) -> (r: Vec<char>)
    ensures
        r@ == clean_value(v@),
{
    let cut = match find_char(v, '#') {
        Some(h) => {
            proof {
                crate::condition::lemma_index_of(v@, '#');
            }
            sub_chars(v, 0, h)
        },
        None => sub_chars(v, 0, v.len()),
    };
    assert(cut@ =~= before_char(v@, '#'));
    let t = trim_chars(cut.as_slice());
    let q = trim_matches_chars(t.as_slice(), '"');
    trim_matches_chars(q.as_slice(), '\'')
}

/// The reader: a configuration being filled, the current section, and
/// whether the metadata name and description were already written.
struct Reader {
    config: TemplateConfig,
    section: Vec<char>,
    name_seen: bool,
    description_seen: bool,
}

impl Reader {
    spec fn model(&self) -> ParseModel {
        ParseModel {
            cfg: self.config.model(),
            section: self.section@,
            name_seen: self.name_seen,
            description_seen: self.description_seen,
        }
    }

    fn options_pair(&mut self, key: &[char], value: &[char])
        ensures
            final(self).model() == with_cfg(old(self).model(), apply_options_pair(old(self).model().cfg, key@, value@)),
    {
        let opts = chars_of("_options");
        let typ = chars_of("_type");
        let desc = chars_of("_description");
        if ends_with_chars(key, opts.as_slice()) {
            let name = string_of(sub_chars(key, 0, key.len() - opts.len()).as_slice());
            let cur = self.config.options_metadata.current(&name);
            let values = option_values_chars(value);
            let o = VariableOption { var_type: cur.var_type, possible_values: values, description: cur.description };
            self.config.options_metadata.put(name, o);
        } else if ends_with_chars(key, typ.as_slice()) {
            let name = string_of(sub_chars(key, 0, key.len() - typ.len()).as_slice());
            let cur = self.config.options_metadata.current(&name);
            let o = VariableOption { var_type: string_of(value), possible_values: cur.possible_values, description: cur.description };
            self.config.options_metadata.put(name, o);
        } else if ends_with_chars(key, desc.as_slice()) {
            let name = string_of(sub_chars(key, 0, key.len() - desc.len()).as_slice());
            let cur = self.config.options_metadata.current(&name);
            let o = VariableOption { var_type: cur.var_type, possible_values: cur.possible_values, description: string_of(value) };
            self.config.options_metadata.put(name, o);
        } else {
            self.config.variables.insert(string_of(key), string_of(value));
        }
    }

    fn root_pair(&mut self, key: &[char], value: &[char])
        ensures
            final(self).model() == with_cfg(old(self).model(), apply_root_pair(old(self).model().cfg, key@, value@)),
    {
        let env = chars_of("environment");
        let ts = chars_of("enable_timestamps");
        let uu = chars_of("enable_uuid");
        let var = chars_of("var_");
        let fl = chars_of("false");
        if chars_eq(key, env.as_slice()) {
            self.config.environment = string_of(value);
        } else if chars_eq(key, ts.as_slice()) {
            self.config.enable_timestamps = !chars_eq(value, fl.as_slice());
        } else if chars_eq(key, uu.as_slice()) {
            self.config.enable_uuid = !chars_eq(value, fl.as_slice());
        } else if starts_with_chars(key, var.as_slice()) {
            proof {
                reveal_strlit("var_");
            }
            let name = sub_chars(key, var.len(), key.len());
            assert(name@ =~= key@.skip(4));
            self.config.variables.insert(string_of(name.as_slice()), string_of(value));
        }
    }

    fn pair(&mut self, key: &[char], value: &[char])
        ensures
            final(self).model() == apply_pair(old(self).model(), key@, value@),
    {
        let metadata = chars_of("metadata");
        let options = chars_of("options");
        let files = chars_of("files");
        let name = chars_of("name");
        let description = chars_of("description");
        if chars_eq(self.section.as_slice(), metadata.as_slice()) {
            if chars_eq(key, name.as_slice()) && !self.name_seen {
                self.config.metadata.name = string_of(value);
                self.name_seen = true;
            } else if chars_eq(key, description.as_slice()) && !self.description_seen {
                self.config.metadata.description = string_of(value);
                self.description_seen = true;
            }
        } else if chars_eq(self.section.as_slice(), options.as_slice()) {
            self.options_pair(key, value);
        } else if chars_eq(self.section.as_slice(), files.as_slice()) {
            self.config.file_filters.insert(string_of(key), string_of(value));
        } else {
            self.root_pair(key, value);
        }
    }

    fn line(&mut self, raw: &[char])
        ensures
            final(self).model() == apply_line(old(self).model(), raw@),
    {
        let line = trim_chars(raw);
        let n = line.len();
        if n == 0 || line[0] == '#' {
            return;
        }
        if n >= 2 && line[0] == '[' && line[n - 1] == ']' {
            let section = sub_chars(line.as_slice(), 1, n - 1);
            self.section = section;
            return;
        }
        proof {
            crate::condition::lemma_index_of(line@, '=');
        }
        match find_char(line.as_slice(), '=') {
            Some(p) => {
                let key_raw = sub_chars(line.as_slice(), 0, p);
                let value_raw = sub_chars(line.as_slice(), p + 1, n);
                assert(key_raw@ =~= line@.take(p as int));
                assert(value_raw@ =~= line@.skip(p + 1));
                let key = trim_chars(key_raw.as_slice());
                let value = clean_value_chars(value_raw.as_slice());
                self.pair(key.as_slice(), value.as_slice());
            },
            None => {},
        }
    }
}

/// Reads a template manifest. Every text is accepted: what does not fit
/// the format is ignored.
pub fn parse_template_config(content: &str) -> (r: TemplateConfig)
    ensures
        r.model() == manifest_spec(content@),
{
    let text = chars_of(content);
    let mut reader = Reader {
        config: TemplateConfig::default(),
        section: Vec::new(),
        name_seen: false,
        description_seen: false,
    };
    let mut cur: Vec<char> = Vec::new();
    let ghost mut done: Seq<Seq<char>> = Seq::empty();
    proof {
        lemma_segments_empty('\n');
        assert(text@.take(0) =~= Seq::<char>::empty());
        assert(reader.section@ =~= Seq::<char>::empty());
        assert(reader.model() == apply_lines(done));
    }
    let mut i: usize = 0;
    while i < text.len()
        invariant
            0 <= i <= text@.len(),
            segments(text@.take(i as int), '\n') == done.push(cur@),
            reader.model() == apply_lines(done),
        decreases text@.len() - i,
    {
        proof {
            lemma_segments_step(text@, '\n', i as int, done, cur@);
        }
        if text[i] == '\n' {
            reader.line(cur.as_slice());
            proof {
                assert(done.push(cur@).drop_last() =~= done);
                done = done.push(cur@);
            }
            cur = Vec::new();
            proof {
                assert(cur@ =~= Seq::<char>::empty());
            }
        } else {
            cur.push(text[i]);
        }
        i = i + 1;
    }
    reader.line(cur.as_slice());
    proof {
        assert(done.push(cur@).drop_last() =~= done);
        assert(text@.take(text@.len() as int) =~= text@);
    }
    reader.config
}

} // verus!
