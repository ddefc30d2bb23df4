//! The naming service: plain case conversions, derived name forms and the
//! sentinel and `{name}` substitutions, gathered on one value.
use vstd::prelude::*;
use crate::case::{
    plain_camel_chars, plain_camel_spec, plain_kebab_chars, plain_kebab_spec, plain_pascal_chars,
    plain_pascal_spec, plain_snake_chars, plain_snake_spec,
};
use crate::naming::{
    context_chars, context_spec, hook_chars, hook_spec, page_chars, page_spec, pattern_chars,
    pattern_spec, provider_chars, provider_spec, sentinel_chars, sentinel_spec,
};
use crate::text::{chars_of, ends_with, ends_with_chars, extend_chars, lower_str, str_to_lowercase, string_of};

verus! {

/// Name forms derived from one base name (hook, context, provider, page).
#[derive(Debug, Clone, PartialEq, Eq)]
pub struct ProcessedNames {
    pub hook_name: String,
    pub context_name: String,
    pub provider_name: String,
    pub page_name: String,
}

pub open spec fn processed_names_of(names: &ProcessedNames, name: Seq<char>) -> bool {
    &&& names.hook_name@ == hook_spec(true, name)
    &&& names.context_name@ == context_spec(true, name)
    &&& names.provider_name@ == provider_spec(true, name)
    &&& names.page_name@ == page_spec(true, name)
}

pub open spec fn ensure_suffix_spec(text: Seq<char>, suffix: Seq<char>) -> Seq<char> {
    if ends_with(lower_str(text), lower_str(suffix)) {
        text
    } else {
        text + suffix
    }
}

/// Naming conventions of frontend code: case forms and derived names.
#[derive(Debug, Default)]
pub struct SmartNaming;

impl SmartNaming {
    pub fn new() -> (r: Self) {
        SmartNaming
    }

    /// Derives the hook, context, provider and page names of `name`.
    pub fn process_smart_names(&self, name: &str) -> (r: ProcessedNames)
        ensures
            processed_names_of(&r, name@),
    {
        let v = chars_of(name);
        let hook = hook_chars(true, v.as_slice());
        let context = context_chars(true, v.as_slice());
        let provider = provider_chars(true, v.as_slice());
        let page = page_chars(true, v.as_slice());
        ProcessedNames {
            hook_name: string_of(hook.as_slice()),
            context_name: string_of(context.as_slice()),
            provider_name: string_of(provider.as_slice()),
            page_name: string_of(page.as_slice()),
        }
    }

    /// `text` when it already ends with `suffix` in any case, else `text`
    /// followed by `suffix`.
    pub fn ensure_suffix(&self, text: &str, suffix: &str) -> (r: String)
        ensures
            r@ == ensure_suffix_spec(text@, suffix@),
    {
        let t = chars_of(text);
        let s = chars_of(suffix);
        let tl = str_to_lowercase(t.as_slice());
        let sl = str_to_lowercase(s.as_slice());
        if ends_with_chars(tl.as_slice(), sl.as_slice()) {
            string_of(t.as_slice())
        } else {
            let mut out = t;
            extend_chars(&mut out, s.as_slice());
            string_of(out.as_slice())
        }
    }

    /// PascalCase; an input with an uppercase letter and no separator only
    /// has its first character raised.
    pub fn to_pascal_case(&self, s: &str) -> (r: String)
        ensures
            r@ == plain_pascal_spec(s@),
    {
        let v = chars_of(s);
        let out = plain_pascal_chars(v.as_slice());
        string_of(out.as_slice())
    }

    /// camelCase: the PascalCase form with its first character lowered.
    pub fn to_camel_case(&self, s: &str) -> (r: String)
        ensures
            r@ == plain_camel_spec(s@),
    {
        let v = chars_of(s);
        let out = plain_camel_chars(v.as_slice());
        string_of(out.as_slice())
    }

    /// snake_case: `_` before each inner uppercase letter, everything
    /// lowered, words joined by `_`.
    pub fn to_snake_case(&self, s: &str) -> (r: String)
        ensures
            r@ == plain_snake_spec(s@),
    {
        let v = chars_of(s);
        let out = plain_snake_chars(v.as_slice());
        string_of(out.as_slice())
    }

    /// kebab-case: the snake_case form with `-` for `_`.
    pub fn to_kebab_case(&self, s: &str) -> (r: String)
        ensures
            r@ == plain_kebab_spec(s@),
    {
        let v = chars_of(s);
        let out = plain_kebab_chars(v.as_slice());
        string_of(out.as_slice())
    }

    /// Replaces the sentinel tokens of template content; the bare token
    /// becomes the name as given.
    pub fn apply_smart_replacements(
        &self,
        content: &str,
        name: &str,
        smart_names: &ProcessedNames,
    ) -> (r: String)
        ensures
            r@ == sentinel_spec(
                content@,
                name@,
                smart_names.hook_name@,
                smart_names.context_name@,
                smart_names.provider_name@,
                smart_names.page_name@,
            ),
    {
        let text = chars_of(content);
        let generic = chars_of(name);
        let hook = chars_of(smart_names.hook_name.as_str());
        let context = chars_of(smart_names.context_name.as_str());
        let provider = chars_of(smart_names.provider_name.as_str());
        let page = chars_of(smart_names.page_name.as_str());
        let out = sentinel_chars(
            text.as_slice(),
            generic.as_slice(),
            hook.as_slice(),
            context.as_slice(),
            provider.as_slice(),
            page.as_slice(),
        );
        string_of(out.as_slice())
    }

    /// Replaces the sentinel tokens of a file name; the bare token becomes
    /// the PascalCase form of the name.
    pub fn apply_smart_filename_replacements(
        &self,
        filename: &str,
        name: &str,
        smart_names: &ProcessedNames,
    ) -> (r: String)
        ensures
            r@ == sentinel_spec(
                filename@,
                plain_pascal_spec(name@),
                smart_names.hook_name@,
                smart_names.context_name@,
                smart_names.provider_name@,
                smart_names.page_name@,
            ),
    {
        let text = chars_of(filename);
        let nv = chars_of(name);
        let generic = plain_pascal_chars(nv.as_slice());
        let hook = chars_of(smart_names.hook_name.as_str());
        let context = chars_of(smart_names.context_name.as_str());
        let provider = chars_of(smart_names.provider_name.as_str());
        let page = chars_of(smart_names.page_name.as_str());
        let out = sentinel_chars(
            text.as_slice(),
            generic.as_slice(),
            hook.as_slice(),
            context.as_slice(),
            provider.as_slice(),
            page.as_slice(),
        );
        string_of(out.as_slice())
    }

    /// Expands the `{name}` tokens of an architecture file-name pattern with
    /// the names derived from `name`; the bare token becomes `name` itself.
    pub fn process_filename_pattern(&self, pattern: &str, name: &str) -> (r: String)
        ensures
            r@ == pattern_spec(
                pattern@,
                name@,
                hook_spec(true, name@),
                context_spec(true, name@),
                provider_spec(true, name@),
                page_spec(true, name@),
            ),
    {
        let text = chars_of(pattern);
        let nv = chars_of(name);
        let hook = hook_chars(true, nv.as_slice());
        let context = context_chars(true, nv.as_slice());
        let provider = provider_chars(true, nv.as_slice());
        let page = page_chars(true, nv.as_slice());
        let out = pattern_chars(
            text.as_slice(),
            nv.as_slice(),
            hook.as_slice(),
            context.as_slice(),
            provider.as_slice(),
            page.as_slice(),
        );
        string_of(out.as_slice())
    }
}

} // verus!
