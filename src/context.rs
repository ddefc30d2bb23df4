//! The render context: the flat key/value map a template is rendered with.
//!
//! It holds the name and its derived forms, the environment, the stamp of
//! the run, the template variables, and the flags synthesised from typed
//! options (`{var}_is_{value}` for enumerated values, `{var}_bool` for
//! boolean variables), because the markup language tests truthiness, not
//! equality. Variables override computed fields, except the name fields,
//! which no variable may replace.
use vstd::prelude::*;
use crate::case::{kebab_chars, kebab_spec, plain_kebab_chars, plain_kebab_spec, plain_snake_chars, plain_snake_spec, snake_chars, snake_spec, camel_chars, camel_spec, plain_camel_chars, plain_camel_spec};
use crate::clock::GenerationStamp;
use crate::condition::{is_truthy, truthy_spec};
use crate::manifest::TemplateConfig;
use crate::naming::{context_chars, context_spec, hook_chars, hook_spec, page_chars, page_spec, pascal_by, provider_chars, provider_spec};
use crate::options::{OptionMap, OptionView};
use crate::case::{pascal_chars, plain_pascal_chars};
use crate::text::{chars_eq, chars_of, extend_chars, str_to_uppercase, string_of, upper_str};
use crate::var_map::{insert_spec, lemma_lookup_absent, lemma_lookup_first, lemma_position, lookup, position, VarMap};

verus! {

/// A context value, as the contracts see it.
pub enum Val {
    Text(Seq<char>),
    Flag(bool),
}

/// A context value: text, or a flag.
#[derive(Debug, Clone, PartialEq, Eq)]
pub enum ContextValue {
    Text(String),
    Flag(bool),
}

impl View for ContextValue {
    type V = Val;

    open spec fn view(&self) -> Val {
        match self {
            ContextValue::Text(s) => Val::Text(s@),
            ContextValue::Flag(b) => Val::Flag(*b),
        }
    }
}

/// Keys mapped to context values, in the order in which they were set.
#[derive(Debug, Clone)]
pub struct RenderContext {
    entries: Vec<(String, ContextValue)>,
}

impl View for RenderContext {
    type V = Seq<(Seq<char>, Val)>;

    closed spec fn view(&self) -> Self::V {
        self.entries@.map_values(|e: (String, ContextValue)| (e.0@, e.1@))
    }
}

impl RenderContext {
    pub fn new() -> (r: Self)
        ensures
            r@ == Seq::<(Seq<char>, Val)>::empty(),
    {
        let r = RenderContext { entries: Vec::new() };
        assert(r@ =~= Seq::<(Seq<char>, Val)>::empty());
        r
    }

    pub fn len(&self) -> (r: usize)
        ensures
            r == self@.len(),
    {
        self.entries.len()
    }

    fn find(&self, key: &String) -> (r: Option<usize>)
        ensures
            match r {
                Some(i) => position(self@, key@) == Some(i as int),
                None => position(self@, key@) is None,
            },
    {
        let mut i: usize = 0;
        while i < self.entries.len()
            invariant
                0 <= i <= self@.len(),
                self@.len() == self.entries@.len(),
                forall|j: int| 0 <= j < i ==> self@[j].0 != key@,
            decreases self@.len() - i,
        {
            if self.entries[i].0 == *key {
                proof {
                    lemma_lookup_first(self@, key@, i as int);
                }
                return Some(i);
            }
            i = i + 1;
        }
        proof {
            lemma_lookup_absent(self@, key@);
        }
        None
    }

    /// Sets `key` to `value`: an existing entry keeps its place, a new one
    /// goes last.
    pub fn insert(&mut self, key: String, value: ContextValue)
        ensures
            final(self)@ == insert_spec(old(self)@, key@, value@),
    {
        proof {
            lemma_position(self@, key@);
        }
        let ghost kv = (key@, value@);
        match self.find(&key) {
            Some(i) => {
                self.entries.set(i, (key, value));
                assert(self@ =~= old(self)@.update(i as int, kv));
            },
            None => {
                self.entries.push((key, value));
                assert(self@ =~= old(self)@.push(kv));
            },
        }
    }

    /// Appends an entry whose key is not present yet.
    fn push_new(&mut self, key: &str, value: ContextValue)
        ensures
            final(self)@ == old(self)@.push((key@, value@)),
    {
        let ghost kv = (key@, value@);
        self.entries.push((key.to_owned(), value));
        assert(self@ =~= old(self)@.push(kv));
    }

    /// The value of `key`, if set.
    pub fn get(&self, key: &str) -> (r: Option<&ContextValue>)
        ensures
            match r {
                Some(v) => lookup(self@, key@) == Some(v@),
                None => lookup(self@, key@) is None,
            },
    {
        let k = key.to_owned();
        proof {
            lemma_position(self@, key@);
        }
        match self.find(&k) {
            Some(i) => Some(&self.entries[i].1),
            None => None,
        }
    }

    /// The text of `key`, if it is set to text.
    pub fn get_text(&self, key: &str) -> (r: Option<&String>)
        ensures
            match r {
                Some(v) => lookup(self@, key@) == Some(Val::Text(v@)),
                None => !(lookup(self@, key@) matches Some(Val::Text(_))),
            },
    {
        match self.get(key) {
            Some(ContextValue::Text(s)) => Some(s),
            _ => None,
        }
    }

    /// The flag of `key`, if it is set to a flag.
    pub fn get_flag(&self, key: &str) -> (r: Option<bool>)
        ensures
            match r {
                Some(b) => lookup(self@, key@) == Some(Val::Flag(b)),
                None => !(lookup(self@, key@) matches Some(Val::Flag(_))),
            },
    {
        match self.get(key) {
            Some(ContextValue::Flag(b)) => Some(*b),
            _ => None,
        }
    }

    /// The key and value of entry `i`, in order.
    pub fn entry(&self, i: usize) -> (r: (&String, &ContextValue))
        requires
            i < self@.len(),
        ensures
            r.0@ == self@[i as int].0,
            r.1@ == self@[i as int].1,
    {
        let e = &self.entries[i];
        (&e.0, &e.1)
    }
}

/// The generator's name, as given to templates.
pub open spec fn generator_name() -> Seq<char> {
    "CLI Frontend Generator"@
}

/// The generator's version, as given to templates.
pub open spec fn generator_version() -> Seq<char> {
    "0.1.0"@
}

/// The fields that only the name decides; no variable may replace them.
pub open spec fn protected_key(k: Seq<char>) -> bool {
    k == "name"@ || k == "pascal_name"@ || k == "snake_name"@ || k == "kebab_name"@ || k
        == "camel_name"@ || k == "upper_name"@ || k == "hook_name"@ || k == "context_name"@ || k
        == "provider_name"@ || k == "page_name"@
}

pub open spec fn snake_by(plain: bool, s: Seq<char>) -> Seq<char> {
    if plain {
        plain_snake_spec(s)
    } else {
        snake_spec(s)
    }
}

pub open spec fn kebab_by(plain: bool, s: Seq<char>) -> Seq<char> {
    if plain {
        plain_kebab_spec(s)
    } else {
        kebab_spec(s)
    }
}

pub open spec fn camel_by(plain: bool, s: Seq<char>) -> Seq<char> {
    if plain {
        plain_camel_spec(s)
    } else {
        camel_spec(s)
    }
}

pub open spec fn if_on(on: bool, s: Seq<char>) -> Seq<char> {
    if on {
        s
    } else {
        Seq::empty()
    }
}

/// The computed fields, in order.
pub open spec fn base_context(
    plain: bool,
    name: Seq<char>,
    environment: Seq<char>,
    stamp: GenerationStamp,
    with_time: bool,
    with_uuid: bool,
) -> Seq<(Seq<char>, Val)> {
    seq![
        ("name"@, Val::Text(name)),
        ("pascal_name"@, Val::Text(pascal_by(plain, name))),
        ("snake_name"@, Val::Text(snake_by(plain, name))),
        ("kebab_name"@, Val::Text(kebab_by(plain, name))),
        ("camel_name"@, Val::Text(camel_by(plain, name))),
        ("upper_name"@, Val::Text(upper_str(name))),
        ("hook_name"@, Val::Text(hook_spec(plain, name))),
        ("context_name"@, Val::Text(context_spec(plain, name))),
        ("provider_name"@, Val::Text(provider_spec(plain, name))),
        ("page_name"@, Val::Text(page_spec(plain, name))),
        ("environment"@, Val::Text(environment)),
        ("timestamp"@, Val::Text(if_on(with_time, stamp.timestamp@))),
        ("timestamp_iso"@, Val::Text(if_on(with_time, stamp.timestamp_iso@))),
        ("date"@, Val::Text(if_on(with_time, stamp.date@))),
        ("time"@, Val::Text(if_on(with_time, stamp.time@))),
        ("year"@, Val::Text(if_on(with_time, stamp.year@))),
        ("uuid"@, Val::Text(if_on(with_uuid, stamp.uuid@))),
        ("uuid_simple"@, Val::Text(if_on(with_uuid, stamp.uuid_simple@))),
        ("version"@, Val::Text(generator_version())),
        ("generator_name"@, Val::Text(generator_name())),
        ("generated"@, Val::Flag(true)),
    ]
}

/// `ctx` with the variables set in order, protected keys left out.
pub open spec fn with_variables(ctx: Seq<(Seq<char>, Val)>, vars: Seq<(Seq<char>, Seq<char>)>) -> Seq<(Seq<char>, Val)>
    decreases vars.len(),
{
    if vars.len() == 0 {
        ctx
    } else {
        let c = with_variables(ctx, vars.drop_last());
        let kv = vars.last();
        if protected_key(kv.0) {
            c
        } else {
            insert_spec(c, kv.0, Val::Text(kv.1))
        }
    }
}

/// `-` read as `_`, so that a value can be part of a key.
pub open spec fn underscored(s: Seq<char>) -> Seq<char> {
    s.map_values(|c: char| if c == '-' { '_' } else { c })
}

/// One `{var}_is_{value}` flag per allowed value, true for the current one.
pub open spec fn enum_flags(
    ctx: Seq<(Seq<char>, Val)>,
    var: Seq<char>,
    values: Seq<Seq<char>>,
    current: Seq<char>,
) -> Seq<(Seq<char>, Val)>
    decreases values.len(),
{
    if values.len() == 0 {
        ctx
    } else {
        let c = enum_flags(ctx, var, values.drop_last(), current);
        let pv = values.last();
        insert_spec(c, var + "_is_"@ + underscored(pv), Val::Flag(current == pv))
    }
}

/// The flags one typed option gives, where its variable has a value.
pub open spec fn option_flags(
    ctx: Seq<(Seq<char>, Val)>,
    var: Seq<char>,
    o: OptionView,
    vars: Seq<(Seq<char>, Seq<char>)>,
) -> Seq<(Seq<char>, Val)> {
    let c1 = match lookup(vars, var) {
        Some(cur) => enum_flags(ctx, var, o.1, cur),
        None => ctx,
    };
    if o.0 == "boolean"@ {
        match lookup(vars, var) {
            Some(v) => insert_spec(c1, var + "_bool"@, Val::Flag(truthy_spec(v))),
            None => c1,
        }
    } else {
        c1
    }
}

/// The flags of all typed options, in order.
pub open spec fn with_flags(
    ctx: Seq<(Seq<char>, Val)>,
    options: Seq<(Seq<char>, OptionView)>,
    vars: Seq<(Seq<char>, Seq<char>)>,
) -> Seq<(Seq<char>, Val)>
    decreases options.len(),
{
    if options.len() == 0 {
        ctx
    } else {
        let c = with_flags(ctx, options.drop_last(), vars);
        option_flags(c, options.last().0, options.last().1, vars)
    }
}

fn text_of(v: &Vec<char>) -> (r: ContextValue)
    ensures
        r@ == Val::Text(v@),
{
    ContextValue::Text(string_of(v.as_slice()))
}

fn text_if(on: bool, s: &String) -> (r: ContextValue)
    ensures
        r@ == Val::Text(if_on(on, s@)),
{
    if on {
        ContextValue::Text(s.clone())
    } else {
        ContextValue::Text(String::new())
    }
}

/// The computed fields of a context.
pub fn base_fields(
    plain: bool,
    name: &str,
    environment: &str,
    stamp: &GenerationStamp,
    with_time: bool,
    with_uuid: bool,
) -> (r: RenderContext)
    ensures
        r@ == base_context(plain, name@, environment@, *stamp, with_time, with_uuid),
{
    let v = chars_of(name);
    let n = v.as_slice();
    let pascal = if plain { plain_pascal_chars(n) } else { pascal_chars(n) };
    let snake = if plain { plain_snake_chars(n) } else { snake_chars(n) };
    let kebab = if plain { plain_kebab_chars(n) } else { kebab_chars(n) };
    let camel = if plain { plain_camel_chars(n) } else { camel_chars(n) };
    let upper = str_to_uppercase(n);
    let hook = hook_chars(plain, n);
    let context = context_chars(plain, n);
    let provider = provider_chars(plain, n);
    let page = page_chars(plain, n);
    let mut ctx = RenderContext::new();
    ctx.push_new("name", text_of(&v));
    ctx.push_new("pascal_name", text_of(&pascal));
    ctx.push_new("snake_name", text_of(&snake));
    ctx.push_new("kebab_name", text_of(&kebab));
    ctx.push_new("camel_name", text_of(&camel));
    ctx.push_new("upper_name", text_of(&upper));
    ctx.push_new("hook_name", text_of(&hook));
    ctx.push_new("context_name", text_of(&context));
    ctx.push_new("provider_name", text_of(&provider));
    ctx.push_new("page_name", text_of(&page));
    ctx.push_new("environment", ContextValue::Text(string_of(chars_of(environment).as_slice())));
    ctx.push_new("timestamp", text_if(with_time, &stamp.timestamp));
    ctx.push_new("timestamp_iso", text_if(with_time, &stamp.timestamp_iso));
    ctx.push_new("date", text_if(with_time, &stamp.date));
    ctx.push_new("time", text_if(with_time, &stamp.time));
    ctx.push_new("year", text_if(with_time, &stamp.year));
    ctx.push_new("uuid", text_if(with_uuid, &stamp.uuid));
    ctx.push_new("uuid_simple", text_if(with_uuid, &stamp.uuid_simple));
    ctx.push_new("version", ContextValue::Text(string_of(chars_of("0.1.0").as_slice())));
    ctx.push_new(
        "generator_name",
        ContextValue::Text(string_of(chars_of("CLI Frontend Generator").as_slice())),
    );
    ctx.push_new("generated", ContextValue::Flag(true));
    assert(ctx@ =~= base_context(plain, name@, environment@, *stamp, with_time, with_uuid));
    ctx
}

pub fn is_protected_key(k: &str) -> (r: bool)
    ensures
        r == protected_key(k@),
{
    let kv = chars_of(k);
    chars_eq(kv.as_slice(), chars_of("name").as_slice()) || chars_eq(
        kv.as_slice(),
        chars_of("pascal_name").as_slice(),
    ) || chars_eq(kv.as_slice(), chars_of("snake_name").as_slice()) || chars_eq(
        kv.as_slice(),
        chars_of("kebab_name").as_slice(),
    ) || chars_eq(kv.as_slice(), chars_of("camel_name").as_slice()) || chars_eq(
        kv.as_slice(),
        chars_of("upper_name").as_slice(),
    ) || chars_eq(kv.as_slice(), chars_of("hook_name").as_slice()) || chars_eq(
        kv.as_slice(),
        chars_of("context_name").as_slice(),
    ) || chars_eq(kv.as_slice(), chars_of("provider_name").as_slice()) || chars_eq(
        kv.as_slice(),
        chars_of("page_name").as_slice(),
    )
}

/// Sets each variable in order, leaving the protected keys as they are.
pub fn add_variables(ctx: &mut RenderContext, vars: &VarMap)
    ensures
        final(ctx)@ == with_variables(old(ctx)@, vars@),
{
    let mut i: usize = 0;
    while i < vars.len()
        invariant
            0 <= i <= vars@.len(),
            ctx@ == with_variables(old(ctx)@, vars@.take(i as int)),
        decreases vars@.len() - i,
    {
        let (k, v) = vars.entry(i);
        proof {
            assert(vars@.take(i + 1).drop_last() =~= vars@.take(i as int));
        }
        if !is_protected_key(k.as_str()) {
            ctx.insert(k.clone(), ContextValue::Text(v.clone()));
        }
        i = i + 1;
    }
    assert(vars@.take(vars@.len() as int) =~= vars@);
}

fn underscored_chars(s: &[char]) -> (r: Vec<char>)
    ensures
        r@ == underscored(s@),
{
    let mut out: Vec<char> = Vec::new();
    let mut i: usize = 0;
    while i < s.len()
        invariant
            0 <= i <= s@.len(),
            out@ == underscored(s@.take(i as int)),
        decreases s@.len() - i,
    {
        let c = s[i];
        out.push(if c == '-' { '_' } else { c });
        i = i + 1;
        assert(out@ =~= underscored(s@.take(i as int)));
    }
    assert(s@.take(s@.len() as int) =~= s@);
    out
}

fn flag_key(var: &[char], tail: &str, value: &[char]) -> (r: String)
    ensures
        r@ == var@ + tail@ + value@,
{
    let mut out: Vec<char> = Vec::new();
    extend_chars(&mut out, var);
    extend_chars(&mut out, chars_of(tail).as_slice());
    extend_chars(&mut out, value);
    string_of(out.as_slice())
}

fn add_option_flags(ctx: &mut RenderContext, var: &String, o: &crate::options::VariableOption, vars: &VarMap)
    ensures
        final(ctx)@ == option_flags(old(ctx)@, var@, o@, vars@),
{
    let vv = chars_of(var.as_str());
    match vars.get(var.as_str()) {
        Some(cur) => {
            let cur_v = chars_of(cur.as_str());
            let mut i: usize = 0;
            while i < o.possible_values.len()
                invariant
                    0 <= i <= o.possible_values@.len(),
                    lookup(vars@, var@) == Some(cur_v@),
                    vv@ == var@,
                    ctx@ == enum_flags(old(ctx)@, var@, o@.1.take(i as int), cur_v@),
                decreases o.possible_values@.len() - i,
            {
                let pv = chars_of(o.possible_values[i].as_str());
                let key = flag_key(vv.as_slice(), "_is_", underscored_chars(pv.as_slice()).as_slice());
                let same = chars_eq(cur_v.as_slice(), pv.as_slice());
                proof {
                    assert(o@.1.take(i + 1).drop_last() =~= o@.1.take(i as int));
                    assert(o@.1[i as int] == pv@);
                }
                ctx.insert(key, ContextValue::Flag(same));
                i = i + 1;
            }
            assert(o@.1.take(o@.1.len() as int) =~= o@.1);
        },
        None => {},
    }
    let boolean = chars_of("boolean");
    if chars_eq(chars_of(o.var_type.as_str()).as_slice(), boolean.as_slice()) {
        match vars.get(var.as_str()) {
            Some(v) => {
                let key = flag_key(vv.as_slice(), "_bool", &[]);
                assert(key@ =~= var@ + "_bool"@);
                ctx.insert(key, ContextValue::Flag(is_truthy(v.as_str())));
            },
            None => {},
        }
    }
}

/// Adds the flags of every typed option, in order.
pub fn add_flags(ctx: &mut RenderContext, options: &OptionMap, vars: &VarMap)
    ensures
        final(ctx)@ == with_flags(old(ctx)@, options@, vars@),
{
    let mut i: usize = 0;
    while i < options.len()
        invariant
            0 <= i <= options@.len(),
            ctx@ == with_flags(old(ctx)@, options@.take(i as int), vars@),
        decreases options@.len() - i,
    {
        let (n, o) = options.entry(i);
        proof {
            assert(options@.take(i + 1).drop_last() =~= options@.take(i as int));
        }
        add_option_flags(ctx, n, o, vars);
        i = i + 1;
    }
    assert(options@.take(options@.len() as int) =~= options@);
}

/// The context of one template run: computed fields from the detecting case
/// conversions, then the configuration's variables, then the flags of its
/// typed options. The stamp fields are empty where the configuration
/// disables them.
pub fn create_template_data(name: &str, config: &TemplateConfig, stamp: &GenerationStamp) -> (r: RenderContext)
    ensures
        r@ == with_flags(
            with_variables(
                base_context(false, name@, config.environment@, *stamp, config.enable_timestamps, config.enable_uuid),
                config.variables@,
            ),
            config.options_metadata@,
            config.variables@,
        ),
{
    let mut ctx = base_fields(
        false,
        name,
        config.environment.as_str(),
        stamp,
        config.enable_timestamps,
        config.enable_uuid,
    );
    add_variables(&mut ctx, &config.variables);
    add_flags(&mut ctx, &config.options_metadata, &config.variables);
    ctx
}

/// Sets `{var}_is_{value}` and `{var}_bool` flags for the typed options of
/// `options` whose variables have values in `variables`.
pub fn generate_boolean_helpers(variables: &VarMap, options: &OptionMap, data: &mut RenderContext)
    ensures
        final(data)@ == with_flags(old(data)@, options@, variables@),
{
    add_flags(data, options, variables);
}

/// Why a context could not be built.
#[derive(Debug, Clone, PartialEq, Eq)]
pub enum TemplateDataError {
    MissingName,
    MissingSmartNames,
}

/// Assembles a render context step by step.
#[derive(Debug)]
pub struct TemplateDataBuilder {
    name: Option<String>,
    environment: Option<String>,
    enable_timestamps: bool,
    enable_uuid: bool,
    custom_variables: VarMap,
}

impl TemplateDataBuilder {
    pub closed spec fn name_spec(&self) -> Option<Seq<char>> {
        match self.name {
            Some(n) => Some(n@),
            None => None,
        }
    }

    pub closed spec fn environment_spec(&self) -> Seq<char> {
        match self.environment {
            Some(e) => e@,
            None => "development"@,
        }
    }

    pub closed spec fn timestamps_on(&self) -> bool {
        self.enable_timestamps
    }

    pub closed spec fn uuid_on(&self) -> bool {
        self.enable_uuid
    }

    pub closed spec fn variables_spec(&self) -> Seq<(Seq<char>, Seq<char>)> {
        self.custom_variables@
    }

    /// No name, the `development` environment, timestamps and UUIDs on, no
    /// variables.
    pub fn new() -> (r: Self)
        ensures
            r.name_spec() is None,
            r.environment_spec() == "development"@,
            r.timestamps_on(),
            r.uuid_on(),
            r.variables_spec() == Seq::<(Seq<char>, Seq<char>)>::empty(),
    {
        TemplateDataBuilder {
            name: None,
            environment: None,
            enable_timestamps: true,
            enable_uuid: true,
            custom_variables: VarMap::new(),
        }
    }

    pub fn with_name(self, name: &str) -> (r: Self)
        ensures
            r.name_spec() == Some(name@),
            r.environment_spec() == self.environment_spec(),
            r.timestamps_on() == self.timestamps_on(),
            r.uuid_on() == self.uuid_on(),
            r.variables_spec() == self.variables_spec(),
    {
        TemplateDataBuilder { name: Some(name.to_owned()), ..self }
    }

    pub fn with_environment(self, environment: &str) -> (r: Self)
        ensures
            r.name_spec() == self.name_spec(),
            r.environment_spec() == environment@,
            r.timestamps_on() == self.timestamps_on(),
            r.uuid_on() == self.uuid_on(),
            r.variables_spec() == self.variables_spec(),
    {
        TemplateDataBuilder { environment: Some(environment.to_owned()), ..self }
    }

    pub fn with_timestamps(self, enable: bool) -> (r: Self)
        ensures
            r.name_spec() == self.name_spec(),
            r.environment_spec() == self.environment_spec(),
            r.timestamps_on() == enable,
            r.uuid_on() == self.uuid_on(),
            r.variables_spec() == self.variables_spec(),
    {
        TemplateDataBuilder { enable_timestamps: enable, ..self }
    }

    pub fn with_uuid(self, enable: bool) -> (r: Self)
        ensures
            r.name_spec() == self.name_spec(),
            r.environment_spec() == self.environment_spec(),
            r.timestamps_on() == self.timestamps_on(),
            r.uuid_on() == enable,
            r.variables_spec() == self.variables_spec(),
    {
        TemplateDataBuilder { enable_uuid: enable, ..self }
    }

    /// Adds `variables`, in their order; a name already present takes the
    /// new value.
    pub fn with_variables(self, variables: VarMap) -> (r: Self)
        ensures
            r.name_spec() == self.name_spec(),
            r.environment_spec() == self.environment_spec(),
            r.timestamps_on() == self.timestamps_on(),
            r.uuid_on() == self.uuid_on(),
            r.variables_spec() == crate::var_map::insert_all(self.variables_spec(), variables@),
    {
        let mut vars = self.custom_variables;
        vars.extend_from(&variables);
        TemplateDataBuilder { custom_variables: vars, ..self }
    }

    /// The context with the given stamp: the computed fields from the plain
    /// case conversions, then the variables.
    pub fn build_with_stamp(&self, stamp: &GenerationStamp) -> (r: Result<RenderContext, TemplateDataError>)
        ensures
            match self.name_spec() {
                None => r == Err::<RenderContext, TemplateDataError>(TemplateDataError::MissingName),
                Some(n) => r matches Ok(ctx) && ctx@ == with_variables(
                    base_context(true, n, self.environment_spec(), *stamp, self.timestamps_on(), self.uuid_on()),
                    self.variables_spec(),
                ),
            },
    {
        match &self.name {
            None => Err(TemplateDataError::MissingName),
            Some(n) => {
                let env = match &self.environment {
                    Some(e) => e.clone(),
                    None => string_of(chars_of("development").as_slice()),
                };
                let mut ctx = base_fields(
                    true,
                    n.as_str(),
                    env.as_str(),
                    stamp,
                    self.enable_timestamps,
                    self.enable_uuid,
                );
                add_variables(&mut ctx, &self.custom_variables);
                Ok(ctx)
            },
        }
    }

    /// The context, with the clock read and an identifier drawn once, each
    /// only where enabled.
    pub fn build(self) -> (r: Result<RenderContext, TemplateDataError>)
        ensures
            self.name_spec() is None <==> r == Err::<RenderContext, TemplateDataError>(TemplateDataError::MissingName),
            self.name_spec() is Some <==> r is Ok,
            r matches Ok(ctx) ==> exists|s: GenerationStamp|
                ctx@ == with_variables(
                    base_context(
                        true,
                        self.name_spec().unwrap(),
                        self.environment_spec(),
                        s,
                        self.timestamps_on(),
                        self.uuid_on(),
                    ),
                    self.variables_spec(),
                ),
    {
        let stamp = GenerationStamp::now(self.enable_timestamps, self.enable_uuid);
        let r = self.build_with_stamp(&stamp);
        proof {
            if r is Ok {
                assert(self.name_spec() is Some);
            }
        }
        r
    }
}

} // verus!
