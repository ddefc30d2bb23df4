//! Character-sequence utilities shared by the naming and parsing code.
//!
//! Strings are handled as `Vec<char>` inside the library so that every
//! transformation can be stated over `Seq<char>`. Unicode character classes
//! and case mappings come from std; their results are named here and only
//! the ASCII behaviour that std's own source spells out is stated of them.
use vstd::prelude::*;

verus! {

pub open spec fn is_ascii_upper(c: char) -> bool {
    'A' <= c && c <= 'Z'
}

pub open spec fn is_ascii_lower(c: char) -> bool {
    'a' <= c && c <= 'z'
}

pub open spec fn is_ascii_digit(c: char) -> bool {
    '0' <= c && c <= '9'
}

pub open spec fn is_ascii_char(c: char) -> bool {
    (c as u32) < 128
}

pub open spec fn is_ascii_seq(s: Seq<char>) -> bool {
    forall|i: int| 0 <= i < s.len() ==> is_ascii_char(#[trigger] s[i])
}

pub open spec fn ascii_lower(c: char) -> char {
    if is_ascii_upper(c) {
        ((c as u32) + 32) as char
    } else {
        c
    }
}

pub open spec fn ascii_upper(c: char) -> char {
    if is_ascii_lower(c) {
        ((c as u32) - 32) as char
    } else {
        c
    }
}

pub open spec fn ascii_lower_seq(s: Seq<char>) -> Seq<char> {
    s.map_values(|c: char| ascii_lower(c))
}

pub open spec fn ascii_upper_seq(s: Seq<char>) -> Seq<char> {
    s.map_values(|c: char| ascii_upper(c))
}

/// `char::is_alphanumeric` beyond ASCII.
pub uninterp spec fn unicode_alphanumeric(c: char) -> bool;

/// `char::is_uppercase` beyond ASCII.
pub uninterp spec fn unicode_uppercase(c: char) -> bool;

/// `char::is_lowercase` beyond ASCII.
pub uninterp spec fn unicode_lowercase(c: char) -> bool;

/// `char::is_alphabetic` beyond ASCII.
pub uninterp spec fn unicode_alphabetic(c: char) -> bool;

/// `char::is_numeric` beyond ASCII.
pub uninterp spec fn unicode_numeric(c: char) -> bool;

/// `char::is_whitespace` beyond ASCII.
pub uninterp spec fn unicode_whitespace(c: char) -> bool;

/// `char::to_uppercase` of a character beyond ASCII.
pub uninterp spec fn unicode_upper_map(c: char) -> Seq<char>;

/// `char::to_lowercase` of a character beyond ASCII.
pub uninterp spec fn unicode_lower_map(c: char) -> Seq<char>;

/// `str::to_lowercase` of a text that is not all ASCII.
pub uninterp spec fn unicode_lower_str(s: Seq<char>) -> Seq<char>;

/// `str::to_uppercase` of a text that is not all ASCII.
pub uninterp spec fn unicode_upper_str(s: Seq<char>) -> Seq<char>;

/// Letter or digit; on ASCII, `a-z`, `A-Z`, `0-9`, as std's source has it.
pub open spec fn alnum_char(c: char) -> bool {
    if is_ascii_char(c) {
        is_ascii_upper(c) || is_ascii_lower(c) || is_ascii_digit(c)
    } else {
        unicode_alphanumeric(c)
    }
}

/// Uppercase; on ASCII, `A-Z`.
pub open spec fn upper_char(c: char) -> bool {
    if is_ascii_char(c) {
        is_ascii_upper(c)
    } else {
        unicode_uppercase(c)
    }
}

/// Lowercase; on ASCII, `a-z`.
pub open spec fn lower_char(c: char) -> bool {
    if is_ascii_char(c) {
        is_ascii_lower(c)
    } else {
        unicode_lowercase(c)
    }
}

/// Alphabetic; on ASCII, `a-z` and `A-Z`.
pub open spec fn alpha_char(c: char) -> bool {
    if is_ascii_char(c) {
        is_ascii_upper(c) || is_ascii_lower(c)
    } else {
        unicode_alphabetic(c)
    }
}

/// Numeric; on ASCII, `0-9`.
pub open spec fn numeric_char(c: char) -> bool {
    if is_ascii_char(c) {
        is_ascii_digit(c)
    } else {
        unicode_numeric(c)
    }
}

/// White space; on ASCII, space and tab through carriage return.
pub open spec fn white_char(c: char) -> bool {
    if is_ascii_char(c) {
        c == ' ' || ('\t' <= c && c <= '\r')
    } else {
        unicode_whitespace(c)
    }
}

/// The uppercase mapping of one character; an ASCII one maps to its ASCII
/// uppercase form alone.
pub open spec fn upper_map(c: char) -> Seq<char> {
    if is_ascii_char(c) {
        seq![ascii_upper(c)]
    } else {
        unicode_upper_map(c)
    }
}

/// The lowercase mapping of one character; an ASCII one maps to its ASCII
/// lowercase form alone.
pub open spec fn lower_map(c: char) -> Seq<char> {
    if is_ascii_char(c) {
        seq![ascii_lower(c)]
    } else {
        unicode_lower_map(c)
    }
}

/// The lowercase form of a text; an ASCII text is lowered character by
/// character.
pub open spec fn lower_str(s: Seq<char>) -> Seq<char> {
    if is_ascii_seq(s) {
        ascii_lower_seq(s)
    } else {
        unicode_lower_str(s)
    }
}

/// The uppercase form of a text; an ASCII text is raised character by
/// character.
pub open spec fn upper_str(s: Seq<char>) -> Seq<char> {
    if is_ascii_seq(s) {
        ascii_upper_seq(s)
    } else {
        unicode_upper_str(s)
    }
}

/// Relies on `char::is_whitespace`; std's source answers ASCII input by
/// space, tab, line feed, vertical tab, form feed and carriage return.
#[verifier::external_body]
pub(crate) fn char_is_whitespace(c: char) -> (r: bool)
    ensures
        r == white_char(c),
        !is_ascii_char(c) ==> r == unicode_whitespace(c),
{
    c.is_whitespace()
}

/// Relies on `char::is_alphanumeric`; std's source answers ASCII input by
/// the ranges `a-z`, `A-Z` and `0-9`.
#[verifier::external_body]
pub(crate) fn char_is_alphanumeric(c: char) -> (r: bool)
    ensures
        r == alnum_char(c),
        !is_ascii_char(c) ==> r == unicode_alphanumeric(c),
{
    c.is_alphanumeric()
}

/// Relies on `char::is_uppercase`; std's source answers ASCII input by `A-Z`.
#[verifier::external_body]
pub(crate) fn char_is_uppercase(c: char) -> (r: bool)
    ensures
        r == upper_char(c),
        !is_ascii_char(c) ==> r == unicode_uppercase(c),
{
    c.is_uppercase()
}

/// Relies on `char::is_lowercase`; std's source answers ASCII input by `a-z`.
#[verifier::external_body]
pub(crate) fn char_is_lowercase(c: char) -> (r: bool)
    ensures
        r == lower_char(c),
        !is_ascii_char(c) ==> r == unicode_lowercase(c),
{
    c.is_lowercase()
}

/// Relies on `char::is_alphabetic`; std's source answers ASCII input by
/// `a-z` and `A-Z`.
#[verifier::external_body]
pub(crate) fn char_is_alphabetic(c: char) -> (r: bool)
    ensures
        r == alpha_char(c),
        !is_ascii_char(c) ==> r == unicode_alphabetic(c),
{
    c.is_alphabetic()
}

/// Relies on `char::is_numeric`; std's source answers ASCII input by `0-9`.
#[verifier::external_body]
pub(crate) fn char_is_numeric(c: char) -> (r: bool)
    ensures
        r == numeric_char(c),
        !is_ascii_char(c) ==> r == unicode_numeric(c),
{
    c.is_numeric()
}

/// Relies on `char::to_uppercase`, collected; an ASCII character maps to
/// its ASCII uppercase form alone.
#[verifier::external_body]
pub(crate) fn char_to_uppercase(c: char) -> (r: Vec<char>)
    ensures
        r@ == upper_map(c),
        !is_ascii_char(c) ==> r@ == unicode_upper_map(c),
{
    c.to_uppercase().collect()
}

/// Relies on `char::to_lowercase`, collected; an ASCII character maps to
/// its ASCII lowercase form alone.
#[verifier::external_body]
pub(crate) fn char_to_lowercase(c: char) -> (r: Vec<char>)
    ensures
        r@ == lower_map(c),
        !is_ascii_char(c) ==> r@ == unicode_lower_map(c),
{
    c.to_lowercase().collect()
}

/// Relies on `str::to_lowercase`; an ASCII string is lowered character by
/// character.
#[verifier::external_body]
pub(crate) fn str_to_lowercase(s: &[char]) -> (r: Vec<char>)
    ensures
        r@ == lower_str(s@),
        !is_ascii_seq(s@) ==> r@ == unicode_lower_str(s@),
{
    let text: String = s.iter().collect();
    text.to_lowercase().chars().collect()
}

/// Relies on `str::to_uppercase`; an ASCII string is raised character by
/// character.
#[verifier::external_body]
pub(crate) fn str_to_uppercase(s: &[char]) -> (r: Vec<char>)
    ensures
        r@ == upper_str(s@),
        !is_ascii_seq(s@) ==> r@ == unicode_upper_str(s@),
{
    let text: String = s.iter().collect();
    text.to_uppercase().chars().collect()
}

/// Relies on `str::chars`, collected: the characters of `s` in order.
#[verifier::external_body]
pub(crate) fn chars_of(s: &str) -> (r: Vec<char>)
    ensures
        r@ == s@,
{
    s.chars().collect()
}

/// Relies on `String::from_iter` over characters: the string of `v`.
#[verifier::external_body]
pub(crate) fn string_of(v: &[char]) -> (r: String)
    ensures
        r@ == v@,
{
    v.iter().collect()
}

/// Appends all of `src` to `dst`.
pub fn extend_chars(dst: &mut Vec<char>, src: &[char])
    ensures
        final(dst)@ == old(dst)@ + src@,
{
    let mut i: usize = 0;
    while i < src.len()
        invariant
            0 <= i <= src@.len(),
            dst@ == old(dst)@ + src@.take(i as int),
        decreases src@.len() - i,
    {
        dst.push(src[i]);
        i = i + 1;
        assert(src@.take(i as int) =~= src@.take(i - 1) + seq![src@[i - 1]]);
    }
    assert(src@.take(i as int) =~= src@);
}

/// Whether `pat` occurs in `s` starting at position `at`.
pub open spec fn occurs_at(s: Seq<char>, at: int, pat: Seq<char>) -> bool {
    0 <= at && at + pat.len() <= s.len() && s.subrange(at, at + pat.len()) == pat
}

pub fn matches_at(s: &[char], at: usize, pat: &[char]) -> (r: bool)
    ensures
        r == occurs_at(s@, at as int, pat@),
{
    if at > s.len() || pat.len() > s.len() - at {
        return false;
    }
    let mut j: usize = 0;
    while j < pat.len()
        invariant
            at + pat@.len() <= s.len(),
            0 <= j <= pat@.len(),
            forall|k: int| 0 <= k < j ==> s@[at + k] == pat@[k],
        decreases pat@.len() - j,
    {
        if s[at + j] != pat[j] {
            assert(s@.subrange(at as int, at + pat@.len())[j as int] != pat@[j as int]);
            return false;
        }
        j = j + 1;
    }
    assert(s@.subrange(at as int, at + pat@.len()) =~= pat@);
    true
}

/// Every non-overlapping occurrence of `pat`, scanned from the left,
/// replaced by `to`.
pub open spec fn replace_spec(s: Seq<char>, pat: Seq<char>, to: Seq<char>) -> Seq<char>
    decreases s.len(),
{
    if s.len() == 0 {
        s
    } else if pat.len() > 0 && occurs_at(s, 0, pat) {
        to + replace_spec(s.skip(pat.len() as int), pat, to)
    } else {
        seq![s[0]] + replace_spec(s.drop_first(), pat, to)
    }
}

pub fn replace_chars(s: &[char], pat: &[char], to: &[char]) -> (r: Vec<char>)
    requires
        pat@.len() > 0,
    ensures
        r@ == replace_spec(s@, pat@, to@),
{
    let mut out: Vec<char> = Vec::new();
    let mut i: usize = 0;
    assert(s@.skip(0) =~= s@);
    assert(out@ + s@ =~= s@);
    while i < s.len()
        invariant
            pat@.len() > 0,
            0 <= i <= s@.len(),
            out@ + replace_spec(s@.skip(i as int), pat@, to@) == replace_spec(s@, pat@, to@),
        decreases s@.len() - i,
    {
        let ghost rest = s@.skip(i as int);
        if matches_at(s, i, pat) {
            assert(rest.subrange(0, pat@.len() as int) =~= s@.subrange(i as int, i + pat@.len()));
            assert(rest.skip(pat@.len() as int) =~= s@.skip(i + pat@.len()));
            extend_chars(&mut out, to);
            i = i + pat.len();
        } else {
            assert(!occurs_at(rest, 0, pat@)) by {
                if occurs_at(rest, 0, pat@) {
                    assert(rest.subrange(0, pat@.len() as int) =~= s@.subrange(i as int, i + pat@.len()));
                }
            }
            assert(rest.drop_first() =~= s@.skip(i + 1));
            assert(rest[0] == s@[i as int]);
            out.push(s[i]);
            i = i + 1;
        }
    }
    assert(s@.skip(i as int) =~= Seq::<char>::empty());
    assert(out@ + Seq::<char>::empty() =~= out@);
    out
}


pub fn chars_eq(a: &[char], b: &[char]) -> (r: bool)
    ensures
        r == (a@ == b@),
{
    if a.len() != b.len() {
        return false;
    }
    let mut i: usize = 0;
    while i < a.len()
        invariant
            a@.len() == b@.len(),
            0 <= i <= a@.len(),
            forall|k: int| 0 <= k < i ==> a@[k] == b@[k],
        decreases a@.len() - i,
    {
        if a[i] != b[i] {
            return false;
        }
        i = i + 1;
    }
    assert(a@ =~= b@);
    true
}

/// `s` without its leading white space.
pub open spec fn trim_start_spec(s: Seq<char>) -> Seq<char>
    decreases s.len(),
{
    if s.len() > 0 && white_char(s[0]) {
        trim_start_spec(s.drop_first())
    } else {
        s
    }
}

/// `s` without its trailing white space.
pub open spec fn trim_end_spec(s: Seq<char>) -> Seq<char>
    decreases s.len(),
{
    if s.len() > 0 && white_char(s.last()) {
        trim_end_spec(s.drop_last())
    } else {
        s
    }
}

/// `s` without leading and trailing white space.
pub open spec fn trim_spec(s: Seq<char>) -> Seq<char> {
    trim_end_spec(trim_start_spec(s))
}

proof fn lemma_trim_start(s: Seq<char>, i: int)
    requires
        0 <= i <= s.len(),
        forall|k: int| 0 <= k < i ==> white_char(#[trigger] s[k]),
        i == s.len() || !white_char(s[i]),
    ensures
        trim_start_spec(s) == s.skip(i),
    decreases i,
{
    if i == 0 {
        assert(s.skip(0) =~= s);
    } else {
        lemma_trim_start(s.drop_first(), i - 1);
        assert(s.drop_first().skip(i - 1) =~= s.skip(i));
    }
}

proof fn lemma_trim_end(s: Seq<char>, j: int)
    requires
        0 <= j <= s.len(),
        forall|k: int| j <= k < s.len() ==> white_char(#[trigger] s[k]),
        j == 0 || !white_char(s[j - 1]),
    ensures
        trim_end_spec(s) == s.take(j),
    decreases s.len() - j,
{
    if j == s.len() {
        assert(s.take(j) =~= s);
    } else {
        lemma_trim_end(s.drop_last(), j);
        assert(s.drop_last().take(j) =~= s.take(j));
    }
}

pub fn trim_chars(s: &[char]) -> (r: Vec<char>)
    ensures
        r@ == trim_spec(s@),
{
    let mut i: usize = 0;
    while i < s.len() && char_is_whitespace(s[i])
        invariant
            0 <= i <= s@.len(),
            forall|k: int| 0 <= k < i ==> white_char(#[trigger] s@[k]),
        decreases s@.len() - i,
    {
        i = i + 1;
    }
    proof {
        lemma_trim_start(s@, i as int);
    }
    let mut j: usize = s.len();
    while j > i && char_is_whitespace(s[j - 1])
        invariant
            i <= j <= s@.len(),
            forall|k: int| j <= k < s@.len() ==> white_char(#[trigger] s@[k]),
        decreases j,
    {
        j = j - 1;
    }
    let ghost t = s@.skip(i as int);
    proof {
        assert forall|k: int| j - i <= k < t.len() implies white_char(#[trigger] t[k]) by {
            assert(t[k] == s@[k + i]);
        }
        if j > i {
            assert(t[j - i - 1] == s@[j - 1]);
        }
        lemma_trim_end(t, j - i);
    }
    let mut out: Vec<char> = Vec::new();
    let mut k: usize = i;
    while k < j
        invariant
            i <= k <= j <= s@.len(),
            out@ == s@.subrange(i as int, k as int),
        decreases j - k,
    {
        out.push(s[k]);
        k = k + 1;
        assert(out@ =~= s@.subrange(i as int, k as int));
    }
    assert(out@ =~= t.take(j - i));
    out
}


pub open spec fn ends_with(s: Seq<char>, suf: Seq<char>) -> bool {
    s.len() >= suf.len() && s.skip(s.len() - suf.len()) == suf
}

pub open spec fn starts_with(s: Seq<char>, pre: Seq<char>) -> bool {
    s.len() >= pre.len() && s.take(pre.len() as int) == pre
}

pub fn ends_with_chars(s: &[char], suf: &[char]) -> (r: bool)
    ensures
        r == ends_with(s@, suf@),
{
    if s.len() < suf.len() {
        return false;
    }
    let off = s.len() - suf.len();
    let mut k: usize = 0;
    while k < suf.len()
        invariant
            off + suf@.len() == s.len(),
            0 <= k <= suf@.len(),
            forall|j: int| 0 <= j < k ==> s@[off + j] == suf@[j],
        decreases suf@.len() - k,
    {
        if s[off + k] != suf[k] {
            assert(s@.skip(off as int)[k as int] != suf@[k as int]);
            return false;
        }
        k = k + 1;
    }
    assert(s@.skip(off as int) =~= suf@);
    true
}

pub fn starts_with_chars(s: &[char], pre: &[char]) -> (r: bool)
    ensures
        r == starts_with(s@, pre@),
{
    if s.len() < pre.len() {
        return false;
    }
    let mut k: usize = 0;
    while k < pre.len()
        invariant
            pre@.len() <= s@.len(),
            0 <= k <= pre@.len(),
            forall|j: int| 0 <= j < k ==> s@[j] == pre@[j],
        decreases pre@.len() - k,
    {
        if s[k] != pre[k] {
            assert(s@.take(pre@.len() as int)[k as int] != pre@[k as int]);
            return false;
        }
        k = k + 1;
    }
    assert(s@.take(pre@.len() as int) =~= pre@);
    true
}

/// `s` without the copies of `c` at its start.
pub open spec fn strip_start_spec(s: Seq<char>, c: char) -> Seq<char>
    decreases s.len(),
{
    if s.len() > 0 && s[0] == c {
        strip_start_spec(s.drop_first(), c)
    } else {
        s
    }
}

/// `s` without the copies of `c` at its end.
pub open spec fn strip_end_spec(s: Seq<char>, c: char) -> Seq<char>
    decreases s.len(),
{
    if s.len() > 0 && s.last() == c {
        strip_end_spec(s.drop_last(), c)
    } else {
        s
    }
}

/// `str::trim_matches` with one character: every copy of `c` at either end
/// removed.
pub open spec fn trim_matches_spec(s: Seq<char>, c: char) -> Seq<char> {
    strip_end_spec(strip_start_spec(s, c), c)
}

proof fn lemma_strip_start(s: Seq<char>, c: char, i: int)
    requires
        0 <= i <= s.len(),
        forall|k: int| 0 <= k < i ==> #[trigger] s[k] == c,
        i == s.len() || s[i] != c,
    ensures
        strip_start_spec(s, c) == s.skip(i),
    decreases i,
{
    if i == 0 {
        assert(s.skip(0) =~= s);
    } else {
        lemma_strip_start(s.drop_first(), c, i - 1);
        assert(s.drop_first().skip(i - 1) =~= s.skip(i));
    }
}

proof fn lemma_strip_end(s: Seq<char>, c: char, j: int)
    requires
        0 <= j <= s.len(),
        forall|k: int| j <= k < s.len() ==> #[trigger] s[k] == c,
        j == 0 || s[j - 1] != c,
    ensures
        strip_end_spec(s, c) == s.take(j),
    decreases s.len() - j,
{
    if j == s.len() {
        assert(s.take(j) =~= s);
    } else {
        lemma_strip_end(s.drop_last(), c, j);
        assert(s.drop_last().take(j) =~= s.take(j));
    }
}

pub fn trim_matches_chars(s: &[char], c: char) -> (r: Vec<char>)
    ensures
        r@ == trim_matches_spec(s@, c),
{
    let mut i: usize = 0;
    while i < s.len() && s[i] == c
        invariant
            0 <= i <= s@.len(),
            forall|k: int| 0 <= k < i ==> #[trigger] s@[k] == c,
        decreases s@.len() - i,
    {
        i = i + 1;
    }
    proof {
        lemma_strip_start(s@, c, i as int);
    }
    let mut j: usize = s.len();
    while j > i && s[j - 1] == c
        invariant
            i <= j <= s@.len(),
            forall|k: int| j <= k < s@.len() ==> #[trigger] s@[k] == c,
        decreases j,
    {
        j = j - 1;
    }
    let ghost t = s@.skip(i as int);
    proof {
        assert forall|k: int| j - i <= k < t.len() implies #[trigger] t[k] == c by {
            assert(t[k] == s@[k + i]);
        }
        if j > i {
            assert(t[j - i - 1] == s@[j - 1]);
        }
        lemma_strip_end(t, c, j - i);
    }
    let mut out: Vec<char> = Vec::new();
    let mut k: usize = i;
    while k < j
        invariant
            i <= k <= j <= s@.len(),
            out@ == s@.subrange(i as int, k as int),
        decreases j - k,
    {
        out.push(s[k]);
        k = k + 1;
        assert(out@ =~= s@.subrange(i as int, k as int));
    }
    assert(out@ =~= t.take(j - i));
    out
}

/// The pieces of `s` between occurrences of `sep`; there is always at
/// least one, possibly empty.
pub open spec fn segments(s: Seq<char>, sep: char) -> Seq<Seq<char>>
    decreases s.len(),
{
    if s.len() == 0 {
        seq![Seq::<char>::empty()]
    } else {
        let ss = segments(s.drop_last(), sep);
        if s.last() == sep {
            ss.push(Seq::empty())
        } else {
            ss.update(ss.len() - 1, ss.last().push(s.last()))
        }
    }
}

/// One step of the split at `sep`.
pub proof fn lemma_segments_step(s: Seq<char>, sep: char, i: int, done: Seq<Seq<char>>, cur: Seq<char>)
    requires
        0 <= i < s.len(),
        segments(s.take(i), sep) == done.push(cur),
    ensures
        s[i] == sep ==> segments(s.take(i + 1), sep) == done.push(cur).push(Seq::empty()),
        s[i] != sep ==> segments(s.take(i + 1), sep) == done.push(cur.push(s[i])),
{
    let t = s.take(i + 1);
    assert(t.drop_last() =~= s.take(i));
    assert(t.last() == s[i]);
    if s[i] != sep {
        assert(done.push(cur).update(done.len() as int, cur.push(s[i])) =~= done.push(cur.push(s[i])));
    }
}

pub proof fn lemma_segments_empty(sep: char)
    ensures
        segments(Seq::<char>::empty(), sep) == Seq::<Seq<char>>::empty().push(Seq::<char>::empty()),
{
    assert(seq![Seq::<char>::empty()] =~= Seq::<Seq<char>>::empty().push(Seq::<char>::empty()));
}

} // verus!
