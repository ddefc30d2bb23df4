//! Case conversions over character sequences.
//!
//! Two families exist: the detecting conversions, which leave an input that
//! already has the target form untouched, and the plain conversions used by
//! [`crate::smart_naming::SmartNaming`], which only short-cut a PascalCase or
//! camelCase input by raising its first character.
use vstd::prelude::*;
use crate::text::{
    alnum_char, alpha_char, char_is_alphabetic, char_is_alphanumeric, char_is_lowercase,
    char_is_numeric, char_is_uppercase, char_to_lowercase, char_to_uppercase, lower_char, lower_map, numeric_char, upper_char, upper_map,
};
use crate::words::{caps, caps_of_words, join_of_words, join_words, sub_chars, words};

verus! {

/// Every character is a letter or digit, and none is `_`, `-` or a space.
pub open spec fn no_separators(s: Seq<char>) -> bool {
    forall|i: int|
        0 <= i < s.len() ==> {
            &&& alnum_char(#[trigger] s[i])
            &&& s[i] != '_'
            &&& s[i] != '-'
            &&& s[i] != ' '
        }
}

pub open spec fn is_pascal_spec(s: Seq<char>) -> bool {
    s.len() > 0 && upper_char(s[0]) && no_separators(s)
}

pub open spec fn is_camel_spec(s: Seq<char>) -> bool {
    s.len() > 0 && lower_char(s[0]) && no_separators(s)
}

pub open spec fn has_alpha(s: Seq<char>) -> bool {
    exists|i: int| 0 <= i < s.len() && alpha_char(#[trigger] s[i])
}

pub open spec fn has_upper(s: Seq<char>) -> bool {
    exists|i: int| 0 <= i < s.len() && upper_char(#[trigger] s[i])
}

pub open spec fn all_alnum(s: Seq<char>) -> bool {
    forall|i: int| 0 <= i < s.len() ==> alnum_char(#[trigger] s[i])
}

/// Lowercase letters, digits and the joiner `joiner`; no `_`, `-` or space
/// other than the joiner; at least one letter.
pub open spec fn is_joined_lower(s: Seq<char>, joiner: char) -> bool {
    &&& s.len() > 0
    &&& forall|i: int|
        0 <= i < s.len() ==> {
            &&& (lower_char(#[trigger] s[i]) || numeric_char(s[i]) || s[i] == joiner)
            &&& (s[i] == joiner || (s[i] != '_' && s[i] != '-'))
            &&& s[i] != ' '
        }
    &&& has_alpha(s)
}

pub open spec fn is_snake_spec(s: Seq<char>) -> bool {
    is_joined_lower(s, '_')
}

pub open spec fn is_kebab_spec(s: Seq<char>) -> bool {
    is_joined_lower(s, '-')
}

/// The first character of the lowercase mapping, or `c` itself where the
/// mapping is empty.
pub open spec fn first_lower(c: char) -> char {
    if lower_map(c).len() > 0 {
        lower_map(c)[0]
    } else {
        c
    }
}

pub open spec fn lower_first(p: Seq<char>) -> Seq<char> {
    if p.len() == 0 {
        p
    } else {
        lower_map(p[0]) + p.drop_first()
    }
}

/// Each character lowered, with `_` put before every uppercase character
/// but the first.
pub open spec fn snake_marks(s: Seq<char>) -> Seq<char>
    decreases s.len(),
{
    if s.len() == 0 {
        s
    } else {
        let c = s.last();
        snake_marks(s.drop_last()) + (if upper_char(c) && s.len() > 1 {
            seq!['_']
        } else {
            Seq::empty()
        }) + seq![first_lower(c)]
    }
}

pub open spec fn dash(s: Seq<char>) -> Seq<char> {
    s.map_values(|c: char| if c == '_' { '-' } else { c })
}

pub open spec fn pascal_spec(s: Seq<char>) -> Seq<char> {
    if is_pascal_spec(s) {
        s
    } else {
        caps(words(s))
    }
}

pub open spec fn camel_spec(s: Seq<char>) -> Seq<char> {
    if is_camel_spec(s) {
        s
    } else {
        lower_first(pascal_spec(s))
    }
}

pub open spec fn snake_spec(s: Seq<char>) -> Seq<char> {
    if is_snake_spec(s) {
        s
    } else {
        join_words(words(snake_marks(s)), '_')
    }
}

pub open spec fn kebab_spec(s: Seq<char>) -> Seq<char> {
    if is_kebab_spec(s) {
        s
    } else {
        dash(snake_spec(s))
    }
}

pub open spec fn plain_pascal_spec(s: Seq<char>) -> Seq<char> {
    if s.len() == 0 {
        s
    } else if has_upper(s) && all_alnum(s) {
        upper_map(s[0]) + s.drop_first()
    } else {
        caps(words(s))
    }
}

pub open spec fn plain_camel_spec(s: Seq<char>) -> Seq<char> {
    lower_first(plain_pascal_spec(s))
}

pub open spec fn plain_snake_spec(s: Seq<char>) -> Seq<char> {
    join_words(words(snake_marks(s)), '_')
}

pub open spec fn plain_kebab_spec(s: Seq<char>) -> Seq<char> {
    dash(plain_snake_spec(s))
}

pub fn copy_chars(s: &[char]) -> (r: Vec<char>)
    ensures
        r@ == s@,
{
    let r = sub_chars(s, 0, s.len());
    assert(s@.subrange(0, s@.len() as int) =~= s@);
    r
}

pub fn check_no_separators(s: &[char]) -> (r: bool)
    ensures
        r == no_separators(s@),
{
    let mut i: usize = 0;
    while i < s.len()
        invariant
            0 <= i <= s@.len(),
            forall|k: int|
                0 <= k < i ==> {
                    &&& alnum_char(#[trigger] s@[k])
                    &&& s@[k] != '_'
                    &&& s@[k] != '-'
                    &&& s@[k] != ' '
                },
        decreases s@.len() - i,
    {
        let c = s[i];
        if !char_is_alphanumeric(c) || c == '_' || c == '-' || c == ' ' {
            return false;
        }
        i = i + 1;
    }
    true
}

pub fn check_has_alpha(s: &[char]) -> (r: bool)
    ensures
        r == has_alpha(s@),
{
    let mut i: usize = 0;
    while i < s.len()
        invariant
            0 <= i <= s@.len(),
            forall|k: int| 0 <= k < i ==> !alpha_char(#[trigger] s@[k]),
        decreases s@.len() - i,
    {
        if char_is_alphabetic(s[i]) {
            return true;
        }
        i = i + 1;
    }
    false
}

pub fn check_has_upper(s: &[char]) -> (r: bool)
    ensures
        r == has_upper(s@),
{
    let mut i: usize = 0;
    while i < s.len()
        invariant
            0 <= i <= s@.len(),
            forall|k: int| 0 <= k < i ==> !upper_char(#[trigger] s@[k]),
        decreases s@.len() - i,
    {
        if char_is_uppercase(s[i]) {
            return true;
        }
        i = i + 1;
    }
    false
}

pub fn check_all_alnum(s: &[char]) -> (r: bool)
    ensures
        r == all_alnum(s@),
{
    let mut i: usize = 0;
    while i < s.len()
        invariant
            0 <= i <= s@.len(),
            forall|k: int| 0 <= k < i ==> alnum_char(#[trigger] s@[k]),
        decreases s@.len() - i,
    {
        if !char_is_alphanumeric(s[i]) {
            return false;
        }
        i = i + 1;
    }
    true
}

pub fn check_joined_lower(s: &[char], joiner: char) -> (r: bool)
    ensures
        r == is_joined_lower(s@, joiner),
{
    if s.len() == 0 {
        return false;
    }
    let mut i: usize = 0;
    while i < s.len()
        invariant
            0 <= i <= s@.len(),
            forall|k: int|
                0 <= k < i ==> {
                    &&& (lower_char(#[trigger] s@[k]) || numeric_char(s@[k]) || s@[k] == joiner)
                    &&& (s@[k] == joiner || (s@[k] != '_' && s@[k] != '-'))
                    &&& s@[k] != ' '
                },
        decreases s@.len() - i,
    {
        let c = s[i];
        let kind_ok = char_is_lowercase(c) || char_is_numeric(c) || c == joiner;
        let sep_ok = c == joiner || (c != '_' && c != '-');
        if !kind_ok || !sep_ok || c == ' ' {
            return false;
        }
        i = i + 1;
    }
    check_has_alpha(s)
}

pub fn first_lowercase(c: char) -> (r: char)
    ensures
        r == first_lower(c),
{
    let m = char_to_lowercase(c);
    if m.len() > 0 {
        m[0]
    } else {
        c
    }
}

fn lower_first_chars(p: &[char]) -> (r: Vec<char>)
    ensures
        r@ == lower_first(p@),
{
    if p.len() == 0 {
        return Vec::new();
    }
    let mut out = char_to_lowercase(p[0]);
    let mut i: usize = 1;
    while i < p.len()
        invariant
            1 <= i <= p@.len(),
            out@ == lower_map(p@[0]) + p@.subrange(1, i as int),
        decreases p@.len() - i,
    {
        out.push(p[i]);
        i = i + 1;
        assert(out@ =~= lower_map(p@[0]) + p@.subrange(1, i as int));
    }
    assert(p@.subrange(1, i as int) =~= p@.drop_first());
    out
}

pub fn snake_marks_chars(s: &[char]) -> (r: Vec<char>)
    ensures
        r@ == snake_marks(s@),
{
    let mut out: Vec<char> = Vec::new();
    let mut i: usize = 0;
    while i < s.len()
        invariant
            0 <= i <= s@.len(),
            out@ == snake_marks(s@.take(i as int)),
        decreases s@.len() - i,
    {
        let c = s[i];
        let ghost t = s@.take(i + 1);
        assert(t.drop_last() =~= s@.take(i as int));
        assert(t.last() == c);
        if char_is_uppercase(c) && i > 0 {
            out.push('_');
        }
        out.push(first_lowercase(c));
        i = i + 1;
        assert(out@ =~= snake_marks(t));
    }
    assert(s@.take(s@.len() as int) =~= s@);
    out
}

pub fn dash_chars(s: &[char]) -> (r: Vec<char>)
    ensures
        r@ == dash(s@),
{
    let mut out: Vec<char> = Vec::new();
    let mut i: usize = 0;
    while i < s.len()
        invariant
            0 <= i <= s@.len(),
            out@ == dash(s@.take(i as int)),
        decreases s@.len() - i,
    {
        let c = s[i];
        out.push(if c == '_' { '-' } else { c });
        i = i + 1;
        assert(out@ =~= dash(s@.take(i as int)));
    }
    assert(s@.take(s@.len() as int) =~= s@);
    out
}

pub fn pascal_chars(s: &[char]) -> (r: Vec<char>)
    ensures
        r@ == pascal_spec(s@),
{
    let detected = s.len() > 0 && char_is_uppercase(s[0]) && check_no_separators(s);
    if detected {
        copy_chars(s)
    } else {
        caps_of_words(s)
    }
}

pub fn camel_chars(s: &[char]) -> (r: Vec<char>)
    ensures
        r@ == camel_spec(s@),
{
    let detected = s.len() > 0 && char_is_lowercase(s[0]) && check_no_separators(s);
    if detected {
        copy_chars(s)
    } else {
        let p = pascal_chars(s);
        lower_first_chars(p.as_slice())
    }
}

pub fn snake_chars(s: &[char]) -> (r: Vec<char>)
    ensures
        r@ == snake_spec(s@),
{
    if check_joined_lower(s, '_') {
        copy_chars(s)
    } else {
        let marked = snake_marks_chars(s);
        join_of_words(marked.as_slice(), '_')
    }
}

pub fn kebab_chars(s: &[char]) -> (r: Vec<char>)
    ensures
        r@ == kebab_spec(s@),
{
    if check_joined_lower(s, '-') {
        copy_chars(s)
    } else {
        let snake = snake_chars(s);
        dash_chars(snake.as_slice())
    }
}

pub fn plain_pascal_chars(s: &[char]) -> (r: Vec<char>)
    ensures
        r@ == plain_pascal_spec(s@),
{
    if s.len() == 0 {
        return Vec::new();
    }
    if check_has_upper(s) && check_all_alnum(s) {
        let mut out = char_to_uppercase(s[0]);
        let mut i: usize = 1;
        while i < s.len()
            invariant
                1 <= i <= s@.len(),
                out@ == upper_map(s@[0]) + s@.subrange(1, i as int),
            decreases s@.len() - i,
        {
            out.push(s[i]);
            i = i + 1;
            assert(out@ =~= upper_map(s@[0]) + s@.subrange(1, i as int));
        }
        assert(s@.subrange(1, i as int) =~= s@.drop_first());
        out
    } else {
        caps_of_words(s)
    }
}

pub fn plain_camel_chars(s: &[char]) -> (r: Vec<char>)
    ensures
        r@ == plain_camel_spec(s@),
{
    let p = plain_pascal_chars(s);
    lower_first_chars(p.as_slice())
}

pub fn plain_snake_chars(s: &[char]) -> (r: Vec<char>)
    ensures
        r@ == plain_snake_spec(s@),
{
    let marked = snake_marks_chars(s);
    join_of_words(marked.as_slice(), '_')
}

pub fn plain_kebab_chars(s: &[char]) -> (r: Vec<char>)
    ensures
        r@ == plain_kebab_spec(s@),
{
    let snake = plain_snake_chars(s);
    dash_chars(snake.as_slice())
}

} // verus!
