//! Small value types: validated template names, template kinds, output
//! paths, template content, and file-system errors.
use vstd::prelude::*;
use std::path::{Path, PathBuf};
use crate::text::{alnum_char, char_is_alphanumeric, chars_eq, chars_of, lower_str, str_to_lowercase, string_of};

verus! {

#[verifier::external_type_specification]
#[verifier::external_body]
pub struct ExPathBuf(PathBuf);

#[verifier::external_type_specification]
#[verifier::external_body]
pub struct ExPath(Path);

#[verifier::external_type_specification]
#[verifier::external_body]
pub struct ExIoError(std::io::Error);

/// A character allowed in a template name: letter, digit, `-` or `_`.
pub open spec fn name_char(c: char) -> bool {
    alnum_char(c) || c == '-' || c == '_'
}

pub open spec fn valid_template_name(s: Seq<char>) -> bool {
    s.len() > 0 && forall|i: int| 0 <= i < s.len() ==> name_char(#[trigger] s[i])
}

/// Why a template name was refused.
#[derive(Debug, Clone, PartialEq, Eq)]
pub enum TemplateNameError {
    Empty,
    InvalidCharacters(String),
}

/// A template name: non-empty, of letters, digits, `-` and `_`.
#[derive(Debug, Clone, PartialEq, Eq, Hash)]
pub struct TemplateName(String);

impl View for TemplateName {
    type V = Seq<char>;

    closed spec fn view(&self) -> Seq<char> {
        self.0@
    }
}

impl TemplateName {
    /// Accepts `name` if it is non-empty and all its characters are
    /// letters, digits, `-` or `_`.
    pub fn new(name: &str) -> (r: Result<TemplateName, TemplateNameError>)
        ensures
            match r {
                Ok(n) => valid_template_name(name@) && n@ == name@,
                Err(TemplateNameError::Empty) => name@.len() == 0,
                Err(TemplateNameError::InvalidCharacters(s)) => name@.len() > 0
                    && !valid_template_name(name@) && s@ == name@,
            },
    {
        let v = chars_of(name);
        if v.len() == 0 {
            return Err(TemplateNameError::Empty);
        }
        let mut i: usize = 0;
        while i < v.len()
            invariant
                0 <= i <= v@.len(),
                v@ == name@,
                forall|k: int| 0 <= k < i ==> name_char(#[trigger] v@[k]),
            decreases v@.len() - i,
        {
            let c = v[i];
            if !(char_is_alphanumeric(c) || c == '-' || c == '_') {
                return Err(TemplateNameError::InvalidCharacters(string_of(v.as_slice())));
            }
            i = i + 1;
        }
        Ok(TemplateName(string_of(v.as_slice())))
    }

    pub fn as_str(&self) -> (r: &str)
        ensures
            r@ == self@,
    {
        self.0.as_str()
    }

    pub fn as_ref(&self) -> (r: &str)
        ensures
            r@ == self@,
    {
        self.0.as_str()
    }

    pub fn into_string(self) -> (r: String)
        ensures
            r@ == self@,
    {
        self.0
    }

    /// The name as text.
    pub fn to_string(&self) -> (r: String)
        ensures
            r@ == self@,
    {
        self.0.clone()
    }
}

impl From<TemplateName> for String {
    fn from(name: TemplateName) -> (r: String) {
        name.0
    }
}

impl vstd::std_specs::convert::FromSpecImpl<TemplateName> for String {
    open spec fn obeys_from_spec() -> bool {
        false
    }

    closed spec fn from_spec(v: TemplateName) -> String {
        v.0
    }
}

/// The kinds of template the generator knows by name, and any other.
#[derive(Debug, Clone, PartialEq, Eq)]
pub enum TemplateType {
    Component,
    Hook,
    Service,
    Context,
    Page,
    Feature,
    Store,
    Custom(String),
}

/// The kind named by the lowercase text `l`, if it is one of the known
/// names.
pub open spec fn known_type(l: Seq<char>) -> Option<TemplateType> {
    if l == "component"@ {
        Some(TemplateType::Component)
    } else if l == "hook"@ {
        Some(TemplateType::Hook)
    } else if l == "service"@ {
        Some(TemplateType::Service)
    } else if l == "context"@ {
        Some(TemplateType::Context)
    } else if l == "page"@ {
        Some(TemplateType::Page)
    } else if l == "feature"@ {
        Some(TemplateType::Feature)
    } else if l == "store"@ {
        Some(TemplateType::Store)
    } else {
        None
    }
}

pub open spec fn template_type_name(t: TemplateType) -> Seq<char> {
    match t {
        TemplateType::Component => "component"@,
        TemplateType::Hook => "hook"@,
        TemplateType::Service => "service"@,
        TemplateType::Context => "context"@,
        TemplateType::Page => "page"@,
        TemplateType::Feature => "feature"@,
        TemplateType::Store => "store"@,
        TemplateType::Custom(s) => s@,
    }
}

impl TemplateType {
    /// The kind named by `s`, in any case; any other name is custom.
    pub fn parse(s: &str) -> (r: TemplateType)
        ensures
            match known_type(lower_str(s@)) {
                Some(t) => r == t,
                None => r matches TemplateType::Custom(c) && c@ == s@,
            },
    {
        let v = chars_of(s);
        let l = str_to_lowercase(v.as_slice());
        let ls = l.as_slice();
        if chars_eq(ls, chars_of("component").as_slice()) {
            TemplateType::Component
        } else if chars_eq(ls, chars_of("hook").as_slice()) {
            TemplateType::Hook
        } else if chars_eq(ls, chars_of("service").as_slice()) {
            TemplateType::Service
        } else if chars_eq(ls, chars_of("context").as_slice()) {
            TemplateType::Context
        } else if chars_eq(ls, chars_of("page").as_slice()) {
            TemplateType::Page
        } else if chars_eq(ls, chars_of("feature").as_slice()) {
            TemplateType::Feature
        } else if chars_eq(ls, chars_of("store").as_slice()) {
            TemplateType::Store
        } else {
            TemplateType::Custom(string_of(v.as_slice()))
        }
    }

    /// The name of the kind; a custom kind's own spelling.
    pub fn as_string(&self) -> (r: &str)
        ensures
            r@ == template_type_name(*self),
    {
        match self {
            TemplateType::Component => "component",
            TemplateType::Hook => "hook",
            TemplateType::Service => "service",
            TemplateType::Context => "context",
            TemplateType::Page => "page",
            TemplateType::Feature => "feature",
            TemplateType::Store => "store",
            TemplateType::Custom(s) => s.as_str(),
        }
    }

    /// The name of the kind, as text.
    pub fn to_string(&self) -> (r: String)
        ensures
            r@ == template_type_name(*self),
    {
        string_of(chars_of(self.as_string()).as_slice())
    }
}

/// Where generated files go.
#[derive(Debug)]
pub struct OutputPath(PathBuf);

/// Relies on `PathBuf::as_path`: a view of the same path.
#[verifier::external_body]
pub(crate) fn path_of(p: &PathBuf) -> (r: &Path) {
    p.as_path()
}

impl OutputPath {
    pub closed spec fn path(&self) -> PathBuf {
        self.0
    }

    pub fn new(path: PathBuf) -> (r: Self)
        ensures
            r.path() == path,
    {
        OutputPath(path)
    }

    pub fn as_path(&self) -> (r: &Path) {
        path_of(&self.0)
    }
}

impl From<PathBuf> for OutputPath {
    fn from(path: PathBuf) -> (r: Self) {
        OutputPath(path)
    }
}

impl vstd::std_specs::convert::FromSpecImpl<PathBuf> for OutputPath {
    open spec fn obeys_from_spec() -> bool {
        false
    }

    closed spec fn from_spec(v: PathBuf) -> OutputPath {
        OutputPath(v)
    }
}

/// The text of one template file.
#[derive(Debug, Clone)]
pub struct TemplateContent(String);

impl View for TemplateContent {
    type V = Seq<char>;

    closed spec fn view(&self) -> Seq<char> {
        self.0@
    }
}

impl TemplateContent {
    pub fn new(content: String) -> (r: Self)
        ensures
            r@ == content@,
    {
        TemplateContent(content)
    }

    pub fn as_str(&self) -> (r: &str)
        ensures
            r@ == self@,
    {
        self.0.as_str()
    }
}

impl From<String> for TemplateContent {
    fn from(content: String) -> (r: Self) {
        TemplateContent(content)
    }
}

impl vstd::std_specs::convert::FromSpecImpl<String> for TemplateContent {
    open spec fn obeys_from_spec() -> bool {
        false
    }

    closed spec fn from_spec(v: String) -> TemplateContent {
        TemplateContent(v)
    }
}

/// A failed file-system operation.
#[derive(Debug)]
pub enum FileSystemError {
    OperationFailed { operation: String, path: PathBuf, source: std::io::Error },
    DirectoryCreationFailed { path: PathBuf, source: std::io::Error },
    FileNotFound { path: PathBuf },
}

} // verus!
