//! Name forms derived from one base name, and the sentinel substitutions
//! that put them into template text and file names.
//!
//! Suffix and prefix checks ignore ASCII case: `"authcontext"` already ends
//! with `context`, `"UseAuth"` already starts with `use`.
use vstd::prelude::*;
use crate::case::{
    camel_chars, camel_spec, is_camel_spec, is_kebab_spec, is_pascal_spec, is_snake_spec,
    kebab_chars, kebab_spec, pascal_chars, pascal_spec, plain_pascal_chars, plain_pascal_spec,
    snake_chars, snake_spec, check_joined_lower, check_no_separators,
};
use crate::text::{
    ascii_lower, ascii_lower_seq, char_is_lowercase, char_is_uppercase, chars_of, extend_chars,
    replace_chars, replace_spec, string_of, upper_char,
};
use crate::words::sub_chars;

verus! {

pub open spec fn use_word() -> Seq<char> {
    seq!['u', 's', 'e']
}

pub open spec fn context_word() -> Seq<char> {
    seq!['c', 'o', 'n', 't', 'e', 'x', 't']
}

pub open spec fn provider_word() -> Seq<char> {
    seq!['p', 'r', 'o', 'v', 'i', 'd', 'e', 'r']
}

pub open spec fn page_word() -> Seq<char> {
    seq!['p', 'a', 'g', 'e']
}

pub open spec fn context_suffix() -> Seq<char> {
    seq!['C', 'o', 'n', 't', 'e', 'x', 't']
}

pub open spec fn provider_suffix() -> Seq<char> {
    seq!['P', 'r', 'o', 'v', 'i', 'd', 'e', 'r']
}

pub open spec fn page_suffix() -> Seq<char> {
    seq!['P', 'a', 'g', 'e']
}

/// `s` ends with the lowercase word `suf`, ignoring ASCII case.
pub open spec fn ends_with_ci(s: Seq<char>, suf: Seq<char>) -> bool {
    s.len() >= suf.len() && ascii_lower_seq(s.skip(s.len() - suf.len())) == suf
}

/// `s` starts with the lowercase word `pre`, ignoring ASCII case.
pub open spec fn starts_with_ci(s: Seq<char>, pre: Seq<char>) -> bool {
    s.len() >= pre.len() && ascii_lower_seq(s.take(pre.len() as int)) == pre
}

/// A name that already reads as a hook: `use`, then an uppercase character.
pub open spec fn keeps_hook(s: Seq<char>) -> bool {
    starts_with_ci(s, use_word()) && s.len() > 3 && upper_char(s[3])
}

/// The PascalCase form used for derivation: the plain conversion when
/// `plain` holds, else the detecting one.
pub open spec fn pascal_by(plain: bool, s: Seq<char>) -> Seq<char> {
    if plain {
        plain_pascal_spec(s)
    } else {
        pascal_spec(s)
    }
}

pub open spec fn hook_spec(plain: bool, s: Seq<char>) -> Seq<char> {
    if keeps_hook(s) {
        s
    } else {
        use_word() + pascal_by(plain, s)
    }
}

pub open spec fn context_spec(plain: bool, s: Seq<char>) -> Seq<char> {
    if ends_with_ci(s, context_word()) {
        s
    } else {
        pascal_by(plain, s) + context_suffix()
    }
}

pub open spec fn provider_spec(plain: bool, s: Seq<char>) -> Seq<char> {
    if ends_with_ci(s, provider_word()) {
        s
    } else if ends_with_ci(s, context_word()) {
        pascal_by(plain, s.take(s.len() - 7)) + provider_suffix()
    } else {
        pascal_by(plain, s) + provider_suffix()
    }
}

pub open spec fn page_spec(plain: bool, s: Seq<char>) -> Seq<char> {
    if ends_with_ci(s, page_word()) {
        s
    } else {
        pascal_by(plain, s) + page_suffix()
    }
}

/// The sentinel substitution: the specific tokens first, then the bare
/// token, which becomes `generic`.
pub open spec fn sentinel_spec(
    text: Seq<char>,
    generic: Seq<char>,
    hook: Seq<char>,
    context: Seq<char>,
    provider: Seq<char>,
    page: Seq<char>,
) -> Seq<char> {
    let t1 = replace_spec(text, "use$FILE_NAME"@, hook);
    let t2 = replace_spec(t1, "$FILE_NAMEContext"@, context);
    let t3 = replace_spec(t2, "$FILE_NAMEProvider"@, provider);
    let t4 = replace_spec(t3, "$FILE_NAMEPage"@, page);
    replace_spec(t4, "$FILE_NAME"@, generic)
}

/// The `{name}` pattern substitution of architecture file names.
pub open spec fn pattern_spec(
    text: Seq<char>,
    generic: Seq<char>,
    hook: Seq<char>,
    context: Seq<char>,
    provider: Seq<char>,
    page: Seq<char>,
) -> Seq<char> {
    let t1 = replace_spec(text, "use{name}"@, hook);
    let t2 = replace_spec(t1, "{name}Context"@, context);
    let t3 = replace_spec(t2, "{name}Provider"@, provider);
    let t4 = replace_spec(t3, "{name}Page"@, page);
    replace_spec(t4, "{name}"@, generic)
}

pub fn ascii_lower_char(c: char) -> (r: char)
    ensures
        r == ascii_lower(c),
{
    if 'A' <= c && c <= 'Z' {
        let b: u8 = c as u8;
        assert(b as u32 == c as u32);
        ((b + 32) as u8) as char
    } else {
        c
    }
}

pub fn ends_with_ci_chars(s: &[char], suf: &[char]) -> (r: bool)
    ensures
        r == ends_with_ci(s@, suf@),
{
    if s.len() < suf.len() {
        return false;
    }
    let off = s.len() - suf.len();
    let ghost tail = s@.skip(off as int);
    let mut k: usize = 0;
    while k < suf.len()
        invariant
            off + suf@.len() == s.len(),
            tail == s@.skip(off as int),
            0 <= k <= suf@.len(),
            forall|j: int| 0 <= j < k ==> ascii_lower(tail[j]) == suf@[j],
        decreases suf@.len() - k,
    {
        if ascii_lower_char(s[off + k]) != suf[k] {
            assert(ascii_lower_seq(tail)[k as int] != suf@[k as int]);
            return false;
        }
        k = k + 1;
    }
    assert(ascii_lower_seq(tail) =~= suf@);
    true
}

pub fn starts_with_ci_chars(s: &[char], pre: &[char]) -> (r: bool)
    ensures
        r == starts_with_ci(s@, pre@),
{
    if s.len() < pre.len() {
        return false;
    }
    let ghost head = s@.take(pre@.len() as int);
    let mut k: usize = 0;
    while k < pre.len()
        invariant
            pre@.len() <= s@.len(),
            head == s@.take(pre@.len() as int),
            0 <= k <= pre@.len(),
            forall|j: int| 0 <= j < k ==> ascii_lower(head[j]) == pre@[j],
        decreases pre@.len() - k,
    {
        if ascii_lower_char(s[k]) != pre[k] {
            assert(ascii_lower_seq(head)[k as int] != pre@[k as int]);
            return false;
        }
        k = k + 1;
    }
    assert(ascii_lower_seq(head) =~= pre@);
    true
}

fn pascal_by_chars(plain: bool, s: &[char]) -> (r: Vec<char>)
    ensures
        r@ == pascal_by(plain, s@),
{
    if plain {
        plain_pascal_chars(s)
    } else {
        pascal_chars(s)
    }
}

fn concat_chars(a: &[char], b: &[char]) -> (r: Vec<char>)
    ensures
        r@ == a@ + b@,
{
    let mut out = sub_chars(a, 0, a.len());
    assert(a@.subrange(0, a@.len() as int) =~= a@);
    extend_chars(&mut out, b);
    out
}

pub fn hook_chars(plain: bool, s: &[char]) -> (r: Vec<char>)
    ensures
        r@ == hook_spec(plain, s@),
{
    let use_v: Vec<char> = vec!['u', 's', 'e'];
    assert(use_v@ =~= use_word());
    if starts_with_ci_chars(s, use_v.as_slice()) && s.len() > 3 && char_is_uppercase(s[3]) {
        concat_chars(s, &[])
    } else {
        let p = pascal_by_chars(plain, s);
        concat_chars(use_v.as_slice(), p.as_slice())
    }
}

pub fn context_chars(plain: bool, s: &[char]) -> (r: Vec<char>)
    ensures
        r@ == context_spec(plain, s@),
{
    let word: Vec<char> = vec!['c', 'o', 'n', 't', 'e', 'x', 't'];
    let suffix: Vec<char> = vec!['C', 'o', 'n', 't', 'e', 'x', 't'];
    assert(word@ =~= context_word());
    assert(suffix@ =~= context_suffix());
    if ends_with_ci_chars(s, word.as_slice()) {
        concat_chars(s, &[])
    } else {
        let p = pascal_by_chars(plain, s);
        concat_chars(p.as_slice(), suffix.as_slice())
    }
}

pub fn provider_chars(plain: bool, s: &[char]) -> (r: Vec<char>)
    ensures
        r@ == provider_spec(plain, s@),
{
    let word: Vec<char> = vec!['p', 'r', 'o', 'v', 'i', 'd', 'e', 'r'];
    let ctx: Vec<char> = vec!['c', 'o', 'n', 't', 'e', 'x', 't'];
    let suffix: Vec<char> = vec!['P', 'r', 'o', 'v', 'i', 'd', 'e', 'r'];
    assert(word@ =~= provider_word());
    assert(ctx@ =~= context_word());
    assert(suffix@ =~= provider_suffix());
    if ends_with_ci_chars(s, word.as_slice()) {
        concat_chars(s, &[])
    } else if ends_with_ci_chars(s, ctx.as_slice()) {
        let base = sub_chars(s, 0, s.len() - 7);
        assert(base@ =~= s@.take(s@.len() - 7));
        let p = pascal_by_chars(plain, base.as_slice());
        concat_chars(p.as_slice(), suffix.as_slice())
    } else {
        let p = pascal_by_chars(plain, s);
        concat_chars(p.as_slice(), suffix.as_slice())
    }
}

pub fn page_chars(plain: bool, s: &[char]) -> (r: Vec<char>)
    ensures
        r@ == page_spec(plain, s@),
{
    let word: Vec<char> = vec!['p', 'a', 'g', 'e'];
    let suffix: Vec<char> = vec!['P', 'a', 'g', 'e'];
    assert(word@ =~= page_word());
    assert(suffix@ =~= page_suffix());
    if ends_with_ci_chars(s, word.as_slice()) {
        concat_chars(s, &[])
    } else {
        let p = pascal_by_chars(plain, s);
        concat_chars(p.as_slice(), suffix.as_slice())
    }
}

/// Replaces one literal token; the token must not be empty.
fn replace_token(text: &[char], token: &str, to: &[char]) -> (r: Vec<char>)
    requires
        token@.len() > 0,
    ensures
        r@ == replace_spec(text@, token@, to@),
{
    let tv = chars_of(token);
    replace_chars(text, tv.as_slice(), to)
}

pub fn sentinel_chars(
    text: &[char],
    generic: &[char],
    hook: &[char],
    context: &[char],
    provider: &[char],
    page: &[char],
) -> (r: Vec<char>)
    ensures
        r@ == sentinel_spec(text@, generic@, hook@, context@, provider@, page@),
{
    proof {
        reveal_strlit("use$FILE_NAME");
        reveal_strlit("$FILE_NAMEContext");
        reveal_strlit("$FILE_NAMEProvider");
        reveal_strlit("$FILE_NAMEPage");
        reveal_strlit("$FILE_NAME");
    }
    let t1 = replace_token(text, "use$FILE_NAME", hook);
    let t2 = replace_token(t1.as_slice(), "$FILE_NAMEContext", context);
    let t3 = replace_token(t2.as_slice(), "$FILE_NAMEProvider", provider);
    let t4 = replace_token(t3.as_slice(), "$FILE_NAMEPage", page);
    replace_token(t4.as_slice(), "$FILE_NAME", generic)
}

pub fn pattern_chars(
    text: &[char],
    generic: &[char],
    hook: &[char],
    context: &[char],
    provider: &[char],
    page: &[char],
) -> (r: Vec<char>)
    ensures
        r@ == pattern_spec(text@, generic@, hook@, context@, provider@, page@),
{
    proof {
        reveal_strlit("use{name}");
        reveal_strlit("{name}Context");
        reveal_strlit("{name}Provider");
        reveal_strlit("{name}Page");
        reveal_strlit("{name}");
    }
    let t1 = replace_token(text, "use{name}", hook);
    let t2 = replace_token(t1.as_slice(), "{name}Context", context);
    let t3 = replace_token(t2.as_slice(), "{name}Provider", provider);
    let t4 = replace_token(t3.as_slice(), "{name}Page", page);
    replace_token(t4.as_slice(), "{name}", generic)
}

/// Name forms derived from one base name (hook, context, provider, page).
#[derive(Debug)]
pub struct SmartNames {
    pub hook_name: String,
    pub context_name: String,
    pub provider_name: String,
    pub page_name: String,
}

pub open spec fn derived_names(names: &SmartNames, plain: bool, name: Seq<char>) -> bool {
    &&& names.hook_name@ == hook_spec(plain, name)
    &&& names.context_name@ == context_spec(plain, name)
    &&& names.provider_name@ == provider_spec(plain, name)
    &&& names.page_name@ == page_spec(plain, name)
}

/// Converts to PascalCase; an input already in PascalCase is returned as is.
pub fn to_pascal_case(s: &str) -> (r: String)
    ensures
        r@ == pascal_spec(s@),
{
    let v = chars_of(s);
    let out = pascal_chars(v.as_slice());
    string_of(out.as_slice())
}

/// Converts to camelCase; an input already in camelCase is returned as is.
pub fn to_camel_case(s: &str) -> (r: String)
    ensures
        r@ == camel_spec(s@),
{
    let v = chars_of(s);
    let out = camel_chars(v.as_slice());
    string_of(out.as_slice())
}

/// Converts to snake_case; an input already in snake_case is returned as is.
pub fn to_snake_case(s: &str) -> (r: String)
    ensures
        r@ == snake_spec(s@),
{
    let v = chars_of(s);
    let out = snake_chars(v.as_slice());
    string_of(out.as_slice())
}

/// Converts to kebab-case; an input already in kebab-case is returned as is.
pub fn to_kebab_case(s: &str) -> (r: String)
    ensures
        r@ == kebab_spec(s@),
{
    let v = chars_of(s);
    let out = kebab_chars(v.as_slice());
    string_of(out.as_slice())
}

pub fn is_pascal_case(s: &str) -> (r: bool)
    ensures
        r == is_pascal_spec(s@),
{
    let v = chars_of(s);
    v.len() > 0 && char_is_uppercase(v[0]) && check_no_separators(v.as_slice())
}

pub fn is_camel_case(s: &str) -> (r: bool)
    ensures
        r == is_camel_spec(s@),
{
    let v = chars_of(s);
    v.len() > 0 && char_is_lowercase(v[0]) && check_no_separators(v.as_slice())
}

pub fn is_snake_case(s: &str) -> (r: bool)
    ensures
        r == is_snake_spec(s@),
{
    let v = chars_of(s);
    check_joined_lower(v.as_slice(), '_')
}

pub fn is_kebab_case(s: &str) -> (r: bool)
    ensures
        r == is_kebab_spec(s@),
{
    let v = chars_of(s);
    check_joined_lower(v.as_slice(), '-')
}

/// Derives the hook, context, provider and page names of `name`.
pub fn process_smart_names(name: &str) -> (r: SmartNames)
    ensures
        derived_names(&r, false, name@),
{
    let v = chars_of(name);
    let hook = hook_chars(false, v.as_slice());
    let context = context_chars(false, v.as_slice());
    let provider = provider_chars(false, v.as_slice());
    let page = page_chars(false, v.as_slice());
    SmartNames {
        hook_name: string_of(hook.as_slice()),
        context_name: string_of(context.as_slice()),
        provider_name: string_of(provider.as_slice()),
        page_name: string_of(page.as_slice()),
    }
}

/// Replaces the sentinel tokens of template content; the bare token becomes
/// the name as given.
pub fn apply_smart_replacements(content: &str, name: &str, smart_names: &SmartNames) -> (r: String)
    ensures
        r@ == sentinel_spec(
            content@,
            name@,
            smart_names.hook_name@,
            smart_names.context_name@,
            smart_names.provider_name@,
            smart_names.page_name@,
        ),
{
    let text = chars_of(content);
    let generic = chars_of(name);
    let hook = chars_of(smart_names.hook_name.as_str());
    let context = chars_of(smart_names.context_name.as_str());
    let provider = chars_of(smart_names.provider_name.as_str());
    let page = chars_of(smart_names.page_name.as_str());
    let out = sentinel_chars(
        text.as_slice(),
        generic.as_slice(),
        hook.as_slice(),
        context.as_slice(),
        provider.as_slice(),
        page.as_slice(),
    );
    string_of(out.as_slice())
}

/// Replaces the sentinel tokens of a file name; the bare token becomes the
/// PascalCase form of the name.
pub fn apply_smart_filename_replacements(
    filename: &str,
    name: &str,
    smart_names: &SmartNames,
) -> (r: String)
    ensures
        r@ == sentinel_spec(
            filename@,
            pascal_spec(name@),
            smart_names.hook_name@,
            smart_names.context_name@,
            smart_names.provider_name@,
            smart_names.page_name@,
        ),
{
    let text = chars_of(filename);
    let nv = chars_of(name);
    let generic = pascal_chars(nv.as_slice());
    let hook = chars_of(smart_names.hook_name.as_str());
    let context = chars_of(smart_names.context_name.as_str());
    let provider = chars_of(smart_names.provider_name.as_str());
    let page = chars_of(smart_names.page_name.as_str());
    let out = sentinel_chars(
        text.as_slice(),
        generic.as_slice(),
        hook.as_slice(),
        context.as_slice(),
        provider.as_slice(),
        page.as_slice(),
    );
    string_of(out.as_slice())
}

} // verus!
