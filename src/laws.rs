//! Properties that relate several calls of the library's functions.
use vstd::prelude::*;
use crate::case::{
    all_alnum, dash, first_lower, has_alpha, has_upper, is_joined_lower, is_kebab_spec,
    is_pascal_spec, is_snake_spec, kebab_spec, no_separators, pascal_spec, plain_kebab_spec,
    plain_pascal_spec, plain_snake_spec, snake_marks, snake_spec,
};
use crate::naming::{hook_spec, keeps_hook, pascal_by, starts_with_ci, use_word};
use crate::plan::{normalize_spec, output_path_spec, plan_spec, planned_spec};
use crate::text::{
    alnum_char, alpha_char, ascii_lower, ascii_lower_seq, ascii_upper, is_ascii_char,
    is_ascii_digit, is_ascii_lower, is_ascii_seq, is_ascii_upper, lower_char, numeric_char, upper_char, };
use crate::words::{cap, caps, join_words, words};

verus! {

/// Every character is an ASCII letter or digit.
pub open spec fn ascii_alnum_seq(s: Seq<char>) -> bool {
    forall|i: int|
        0 <= i < s.len() ==> {
            &&& is_ascii_char(#[trigger] s[i])
            &&& (is_ascii_upper(s[i]) || is_ascii_lower(s[i]) || is_ascii_digit(s[i]))
        }
}

/// A text that starts with a digit and has an uppercase letter after it.
pub open spec fn digit_then_upper(r: Seq<char>) -> bool {
    &&& r.len() > 0
    &&& is_ascii_digit(r[0])
    &&& exists|i: int| 1 <= i < r.len() && is_ascii_upper(#[trigger] r[i])
}

proof fn lemma_ascii_case(c: char)
    requires
        is_ascii_char(c),
        is_ascii_upper(c) || is_ascii_lower(c) || is_ascii_digit(c),
    ensures
        is_ascii_char(ascii_upper(c)),
        is_ascii_char(ascii_lower(c)),
        is_ascii_upper(ascii_upper(c)) || is_ascii_digit(ascii_upper(c)),
        !is_ascii_lower(ascii_upper(c)),
        is_ascii_lower(ascii_lower(c)) || is_ascii_digit(ascii_lower(c)),
        !is_ascii_upper(ascii_lower(c)),
        is_ascii_digit(c) ==> ascii_upper(c) == c && ascii_lower(c) == c,
        is_ascii_upper(c) ==> ascii_upper(c) == c,
        !is_ascii_upper(c) ==> ascii_lower(c) == c,
        ascii_upper(ascii_upper(c)) == ascii_upper(c),
{
}

proof fn lemma_words_props(s: Seq<char>)
    ensures
        forall|k: int|
            0 <= k < words(s).len() ==> (#[trigger] words(s)[k]).len() > 0 && all_alnum(words(s)[k])
                && (is_ascii_seq(s) ==> is_ascii_seq(words(s)[k])),
        (s.len() > 0 && alnum_char(s.last())) ==> words(s).len() > 0,
    decreases s.len(),
{
    if s.len() > 0 {
        let init = s.drop_last();
        lemma_words_props(init);
        let ws = words(init);
        let c = s.last();
        assert(is_ascii_seq(s) ==> is_ascii_seq(init));
        assert(is_ascii_seq(s) ==> is_ascii_char(c));
        if alnum_char(c) {
            if init.len() > 0 && alnum_char(init.last()) {
                let w = ws.last().push(c);
                assert forall|k: int| 0 <= k < words(s).len() implies (#[trigger] words(s)[k]).len()
                    > 0 && all_alnum(words(s)[k]) && (is_ascii_seq(s) ==> is_ascii_seq(words(s)[k])) by {
                    if k == ws.len() - 1 {
                        assert(words(s)[k] == w);
                        assert(ws[ws.len() - 1] == ws.last());
                    } else {
                        assert(words(s)[k] == ws[k]);
                    }
                }
            } else {
                assert forall|k: int| 0 <= k < words(s).len() implies (#[trigger] words(s)[k]).len()
                    > 0 && all_alnum(words(s)[k]) && (is_ascii_seq(s) ==> is_ascii_seq(words(s)[k])) by {
                    if k == ws.len() {
                        assert(words(s)[k] == seq![c]);
                    } else {
                        assert(words(s)[k] == ws[k]);
                    }
                }
            }
        }
    }
}

/// A non-empty run of letters and digits is one word.
proof fn lemma_words_single(s: Seq<char>)
    requires
        s.len() > 0,
        all_alnum(s),
    ensures
        words(s) == seq![s],
    decreases s.len(),
{
    let init = s.drop_last();
    if init.len() == 0 {
        assert(words(init) =~= Seq::<Seq<char>>::empty());
        assert(seq![s.last()] =~= s);
    } else {
        lemma_words_single(init);
        assert(alnum_char(init.last()));
        assert(init.push(s.last()) =~= s);
        assert(seq![init].update(0, init.push(s.last())) =~= seq![s]);
    }
}

/// The capitalised form of an ASCII word of letters and digits.
proof fn lemma_cap_ascii(w: Seq<char>)
    requires
        w.len() > 0,
        is_ascii_seq(w),
        all_alnum(w),
    ensures
        cap(w) == seq![ascii_upper(w[0])] + ascii_lower_seq(w.drop_first()),
        ascii_alnum_seq(cap(w)),
        cap(w).len() == w.len(),
        cap(w)[0] == ascii_upper(w[0]),
{
    let rest = w.drop_first();
    assert(is_ascii_seq(rest));
    assert(alnum_char(w[0]));
    lemma_ascii_case(w[0]);
    let r = cap(w);
    assert forall|i: int| 0 <= i < r.len() implies {
        &&& is_ascii_char(#[trigger] r[i])
        &&& (is_ascii_upper(r[i]) || is_ascii_lower(r[i]) || is_ascii_digit(r[i]))
    } by {
        if i > 0 {
            assert(alnum_char(w[i]));
            lemma_ascii_case(w[i]);
            assert(r[i] == ascii_lower(rest[i - 1]));
        }
    }
}

proof fn lemma_caps_ascii(ws: Seq<Seq<char>>)
    requires
        forall|k: int|
            0 <= k < ws.len() ==> (#[trigger] ws[k]).len() > 0 && all_alnum(ws[k]) && is_ascii_seq(ws[k]),
    ensures
        ascii_alnum_seq(caps(ws)),
        ws.len() > 0 ==> caps(ws).len() > 0 && caps(ws)[0] == ascii_upper(ws[0][0]),
    decreases ws.len(),
{
    if ws.len() > 0 {
        let init = ws.drop_last();
        lemma_caps_ascii(init);
        let w = ws.last();
        assert(ws[ws.len() - 1] == w);
        lemma_cap_ascii(w);
        let a = caps(init);
        let b = cap(w);
        assert forall|i: int| 0 <= i < (a + b).len() implies {
            &&& is_ascii_char(#[trigger] (a + b)[i])
            &&& (is_ascii_upper((a + b)[i]) || is_ascii_lower((a + b)[i]) || is_ascii_digit((a + b)[i]))
        } by {
            if i < a.len() {
                assert((a + b)[i] == a[i]);
            } else {
                assert((a + b)[i] == b[i - a.len()]);
            }
        }
        if init.len() > 0 {
            assert(init[0] == ws[0]);
        }
    }
}

proof fn lemma_ascii_alnum_props(r: Seq<char>)
    requires
        ascii_alnum_seq(r),
    ensures
        is_ascii_seq(r),
        all_alnum(r),
        no_separators(r),
{
}

/// Lowering the rest and raising the first character changes nothing in a
/// text whose first character is not lowercase and whose rest has no
/// uppercase letter.
proof fn lemma_cap_fixed(r: Seq<char>)
    requires
        r.len() > 0,
        ascii_alnum_seq(r),
        !is_ascii_lower(r[0]),
        forall|i: int| 1 <= i < r.len() ==> !is_ascii_upper(#[trigger] r[i]),
    ensures
        cap(r) == r,
{
    lemma_ascii_alnum_props(r);
    lemma_cap_ascii(r);
    lemma_ascii_case(r[0]);
    let rest = r.drop_first();
    assert forall|i: int| 0 <= i < rest.len() implies ascii_lower_seq(rest)[i] == rest[i] by {
        assert(rest[i] == r[i + 1]);
        lemma_ascii_case(r[i + 1]);
    }
    assert(ascii_lower_seq(rest) =~= rest);
    assert(seq![ascii_upper(r[0])] + rest =~= r);
}

/// The detecting PascalCase conversion is idempotent on ASCII text, except
/// where its result starts with a digit and has an uppercase letter later:
/// `"1a_b"` converts to `"1aB"`, and `"1aB"`, having no uppercase first
/// letter, converts to `"1ab"`.
pub proof fn law_pascal_idempotent(x: Seq<char>)
    requires
        is_ascii_seq(x),
        !digit_then_upper(pascal_spec(x)),
    ensures
        pascal_spec(pascal_spec(x)) == pascal_spec(x),
{
    if !is_pascal_spec(x) {
        let ws = words(x);
        lemma_words_props(x);
        lemma_caps_ascii(ws);
        let r = caps(ws);
        lemma_ascii_alnum_props(r);
        if r.len() > 0 {
            lemma_ascii_case(r[0]);
            if !is_ascii_upper(r[0]) {
                assert(is_ascii_digit(r[0]));
                assert forall|i: int| 1 <= i < r.len() implies !is_ascii_upper(#[trigger] r[i]) by {
                    if is_ascii_upper(r[i]) {
                        assert(digit_then_upper(r));
                    }
                }
                lemma_words_single(r);
                lemma_cap_fixed(r);
                assert(caps(seq![r]) == caps(Seq::<Seq<char>>::empty()) + cap(r)) by {
                    assert(seq![r].drop_last() =~= Seq::<Seq<char>>::empty());
                }
                assert(Seq::<char>::empty() + r =~= r);
            }
        } else {
            assert(words(r) =~= Seq::<Seq<char>>::empty());
        }
    }
}

/// The plain PascalCase conversion (an input with an uppercase letter and
/// no separator only has its first character raised) is idempotent on
/// every ASCII text.
pub proof fn law_plain_pascal_idempotent(x: Seq<char>)
    requires
        is_ascii_seq(x),
    ensures
        plain_pascal_spec(plain_pascal_spec(x)) == plain_pascal_spec(x),
{
    let r = plain_pascal_spec(x);
    if x.len() == 0 {
    } else if has_upper(x) && all_alnum(x) {
        assert(is_ascii_char(x[0]));
        lemma_ascii_case(x[0]);
        assert(r == seq![ascii_upper(x[0])] + x.drop_first());
        assert(r.len() == x.len());
        assert(all_alnum(r)) by {
            assert forall|i: int| 0 <= i < r.len() implies alnum_char(#[trigger] r[i]) by {
                if i > 0 {
                    assert(r[i] == x[i]);
                }
            }
        }
        let j = choose|j: int| 0 <= j < x.len() && upper_char(#[trigger] x[j]);
        assert(is_ascii_char(x[j]));
        if j == 0 {
            assert(upper_char(r[0]));
        } else {
            assert(r[j] == x[j]);
            assert(upper_char(r[j]));
        }
        assert(has_upper(r));
        assert(r.drop_first() =~= x.drop_first());
        assert(seq![ascii_upper(r[0])] + r.drop_first() =~= r);
    } else {
        let ws = words(x);
        lemma_words_props(x);
        lemma_caps_ascii(ws);
        lemma_ascii_alnum_props(r);
        if r.len() > 0 {
            lemma_ascii_case(r[0]);
            if has_upper(r) {
                assert(seq![ascii_upper(r[0])] + r.drop_first() =~= r);
            } else {
                assert forall|i: int| 1 <= i < r.len() implies !is_ascii_upper(#[trigger] r[i]) by {
                    if is_ascii_upper(r[i]) {
                        assert(upper_char(r[i]));
                    }
                }
                lemma_words_single(r);
                lemma_cap_fixed(r);
                assert(caps(seq![r]) == caps(Seq::<Seq<char>>::empty()) + cap(r)) by {
                    assert(seq![r].drop_last() =~= Seq::<Seq<char>>::empty());
                }
                assert(Seq::<char>::empty() + r =~= r);
            }
        } else {
            assert(words(r) =~= Seq::<Seq<char>>::empty());
        }
    }
}

/// Deriving the hook name of a derived hook name gives it back (no
/// `useuseX`), wherever the first derivation yields `use` followed by an
/// uppercase character: always when the name already reads as a hook, and
/// otherwise when its PascalCase form starts with an uppercase character.
/// The empty name, whose hook name is `use`, is one that fails.
pub proof fn law_hook_name_stable(plain: bool, x: Seq<char>)
    requires
        keeps_hook(x) || (pascal_by(plain, x).len() > 0 && upper_char(pascal_by(plain, x)[0])),
    ensures
        hook_spec(plain, hook_spec(plain, x)) == hook_spec(plain, x),
{
    if !keeps_hook(x) {
        let p = pascal_by(plain, x);
        let h = use_word() + p;
        assert(h.take(3) =~= use_word());
        assert(ascii_lower_seq(use_word()) =~= use_word());
        assert(starts_with_ci(h, use_word()));
        assert(h[3] == p[0]);
        assert(keeps_hook(h));
    }
}

/// The output paths a plan produces.
pub open spec fn plan_outputs(
    ps: Seq<Seq<char>>,
    filters: Seq<(Seq<char>, Seq<char>)>,
    vars: Seq<(Seq<char>, Seq<char>)>,
    name: Seq<char>,
) -> Set<Seq<char>> {
    Set::new(|o: Seq<char>| exists|k: int| 0 <= k < plan_spec(ps, filters, vars, name).len()
        && (#[trigger] plan_spec(ps, filters, vars, name)[k]).1 == o)
}

/// An enumerated path that is planned.
pub open spec fn produces(
    ps: Seq<Seq<char>>,
    filters: Seq<(Seq<char>, Seq<char>)>,
    vars: Seq<(Seq<char>, Seq<char>)>,
    name: Seq<char>,
    o: Seq<char>,
) -> bool {
    exists|i: int|
        0 <= i < ps.len() && planned_spec(normalize_spec(#[trigger] ps[i]), filters, vars)
            && output_path_spec(normalize_spec(ps[i]), name) == o
}

proof fn lemma_plan_member(
    ps: Seq<Seq<char>>,
    filters: Seq<(Seq<char>, Seq<char>)>,
    vars: Seq<(Seq<char>, Seq<char>)>,
    name: Seq<char>,
    o: Seq<char>,
)
    ensures
        plan_outputs(ps, filters, vars, name).contains(o) <==> produces(ps, filters, vars, name, o),
    decreases ps.len(),
{
    if ps.len() > 0 {
        let init = ps.drop_last();
        lemma_plan_member(init, filters, vars, name, o);
        let rest = plan_spec(init, filters, vars, name);
        let full = plan_spec(ps, filters, vars, name);
        let p = normalize_spec(ps.last());
        if plan_outputs(ps, filters, vars, name).contains(o) {
            let k = choose|k: int| 0 <= k < full.len() && (#[trigger] full[k]).1 == o;
            if k < rest.len() {
                assert(full[k] == rest[k]);
                assert(plan_outputs(init, filters, vars, name).contains(o));
                let i = choose|i: int|
                    0 <= i < init.len() && planned_spec(normalize_spec(#[trigger] init[i]), filters, vars)
                        && output_path_spec(normalize_spec(init[i]), name) == o;
                assert(ps[i] == init[i]);
            } else {
                assert(ps[ps.len() - 1] == ps.last());
            }
        }
        if produces(ps, filters, vars, name, o) {
            let i = choose|i: int|
                0 <= i < ps.len() && planned_spec(normalize_spec(#[trigger] ps[i]), filters, vars)
                    && output_path_spec(normalize_spec(ps[i]), name) == o;
            if i < ps.len() - 1 {
                assert(init[i] == ps[i]);
                assert(produces(init, filters, vars, name, o));
                let k = choose|k: int| 0 <= k < rest.len() && (#[trigger] rest[k]).1 == o;
                assert(full[k] == rest[k]);
            } else {
                assert(full[rest.len() as int].1 == o);
            }
        }
    }
}

/// Enumerating the same template files in another order gives the same set
/// of output paths: what is generated depends on the manifest, the
/// variables and the name, not on the order of the directory walk.
pub proof fn law_plan_order_free(
    ps1: Seq<Seq<char>>,
    ps2: Seq<Seq<char>>,
    filters: Seq<(Seq<char>, Seq<char>)>,
    vars: Seq<(Seq<char>, Seq<char>)>,
    name: Seq<char>,
)
    requires
        forall|p: Seq<char>| ps1.contains(p) <==> ps2.contains(p),
    ensures
        plan_outputs(ps1, filters, vars, name) == plan_outputs(ps2, filters, vars, name),
{
    assert forall|o: Seq<char>| plan_outputs(ps1, filters, vars, name).contains(o)
        <==> plan_outputs(ps2, filters, vars, name).contains(o) by {
        lemma_plan_member(ps1, filters, vars, name, o);
        lemma_plan_member(ps2, filters, vars, name, o);
        if produces(ps1, filters, vars, name, o) {
            let i = choose|i: int|
                0 <= i < ps1.len() && planned_spec(normalize_spec(#[trigger] ps1[i]), filters, vars)
                    && output_path_spec(normalize_spec(ps1[i]), name) == o;
            assert(ps1.contains(ps1[i]));
            let j = choose|j: int| 0 <= j < ps2.len() && ps2[j] == ps1[i];
            assert(produces(ps2, filters, vars, name, o));
        }
        if produces(ps2, filters, vars, name, o) {
            let i = choose|i: int|
                0 <= i < ps2.len() && planned_spec(normalize_spec(#[trigger] ps2[i]), filters, vars)
                    && output_path_spec(normalize_spec(ps2[i]), name) == o;
            assert(ps2.contains(ps2[i]));
            let j = choose|j: int| 0 <= j < ps1.len() && ps1[j] == ps2[i];
            assert(produces(ps1, filters, vars, name, o));
        }
    }
    assert(plan_outputs(ps1, filters, vars, name) =~= plan_outputs(ps2, filters, vars, name));
}

/// Lowercase ASCII letters and digits only.
pub open spec fn lower_digit_seq(s: Seq<char>) -> bool {
    forall|i: int|
        0 <= i < s.len() ==> is_ascii_char(#[trigger] s[i]) && (is_ascii_lower(s[i]) || is_ascii_digit(s[i]))
}

/// ASCII, with no uppercase letter.
pub open spec fn ascii_no_upper(s: Seq<char>) -> bool {
    forall|i: int| 0 <= i < s.len() ==> is_ascii_char(#[trigger] s[i]) && !is_ascii_upper(s[i])
}

/// Marking an ASCII text gives ASCII with no uppercase letter.
proof fn lemma_marks_ascii(s: Seq<char>)
    requires
        is_ascii_seq(s),
    ensures
        ascii_no_upper(snake_marks(s)),
    decreases s.len(),
{
    if s.len() > 0 {
        let init = s.drop_last();
        assert(is_ascii_seq(init));
        lemma_marks_ascii(init);
        let c = s.last();
        assert(is_ascii_char(c));
        assert(first_lower(c) == ascii_lower(c));
        let m = snake_marks(s);
        let a = snake_marks(init);
        let mid: Seq<char> = if upper_char(c) && s.len() > 1 { seq!['_'] } else { Seq::empty() };
        assert(m == a + mid + seq![first_lower(c)]);
        assert forall|i: int| 0 <= i < m.len() implies is_ascii_char(#[trigger] m[i]) && !is_ascii_upper(m[i]) by {
            if i < a.len() {
                assert(m[i] == a[i]);
            } else if i < a.len() + mid.len() {
                assert(m[i] == '_');
            } else {
                assert(m[i] == ascii_lower(c));
            }
        }
    }
}

/// Marking changes nothing in ASCII text without uppercase letters.
proof fn lemma_marks_identity(s: Seq<char>)
    requires
        ascii_no_upper(s),
    ensures
        snake_marks(s) == s,
    decreases s.len(),
{
    if s.len() > 0 {
        let init = s.drop_last();
        lemma_marks_identity(init);
        let c = s.last();
        assert(is_ascii_char(c) && !is_ascii_upper(c));
        assert(first_lower(c) == c);
        assert(init + Seq::<char>::empty() + seq![c] =~= s);
    }
}

/// A property of every character of `s` holds of every character of its
/// words.
proof fn lemma_words_keep(s: Seq<char>, p: spec_fn(char) -> bool)
    requires
        forall|i: int| 0 <= i < s.len() ==> p(#[trigger] s[i]),
    ensures
        forall|k: int, j: int|
            0 <= k < words(s).len() && 0 <= j < words(s)[k].len() ==> p(#[trigger] words(s)[k][j]),
    decreases s.len(),
{
    if s.len() > 0 {
        let init = s.drop_last();
        lemma_words_keep(init, p);
        lemma_words_props(init);
        let ws = words(init);
        let c = s.last();
        assert(p(c));
        if alnum_char(c) {
            if init.len() > 0 && alnum_char(init.last()) {
                assert forall|k: int, j: int|
                    0 <= k < words(s).len() && 0 <= j < words(s)[k].len() implies p(#[trigger] words(s)[k][j]) by {
                    if k == ws.len() - 1 {
                        assert(words(s)[k] == ws.last().push(c));
                        assert(ws.last() == ws[ws.len() - 1]);
                        if j < ws.last().len() {
                            assert(words(s)[k][j] == ws[k][j]);
                        }
                    } else {
                        assert(words(s)[k] == ws[k]);
                    }
                }
            } else {
                assert forall|k: int, j: int|
                    0 <= k < words(s).len() && 0 <= j < words(s)[k].len() implies p(#[trigger] words(s)[k][j]) by {
                    if k == ws.len() {
                        assert(words(s)[k] == seq![c]);
                    } else {
                        assert(words(s)[k] == ws[k]);
                    }
                }
            }
        }
    }
}

/// Appending a word after a boundary adds it as a word.
proof fn lemma_words_append(b: Seq<char>, w: Seq<char>)
    requires
        b.len() == 0 || !alnum_char(b.last()),
        w.len() > 0,
        all_alnum(w),
    ensures
        words(b + w) == words(b).push(w),
    decreases w.len(),
{
    let c = w.last();
    let w0 = w.drop_last();
    assert((b + w).drop_last() =~= b + w0);
    assert((b + w).last() == c);
    if w0.len() == 0 {
        assert(b + w0 =~= b);
        assert(w =~= seq![c]);
    } else {
        lemma_words_append(b, w0);
        assert((b + w0).last() == w0.last());
        assert(w0.push(c) =~= w);
        assert(words(b).push(w0).update(words(b).len() as int, w0.push(c)) =~= words(b).push(w));
    }
}

/// Words joined by a boundary character split back into the same words.
proof fn lemma_words_join(ws: Seq<Seq<char>>, sep: char)
    requires
        !alnum_char(sep),
        forall|k: int| 0 <= k < ws.len() ==> (#[trigger] ws[k]).len() > 0 && all_alnum(ws[k]),
    ensures
        words(join_words(ws, sep)) == ws,
    decreases ws.len(),
{
    if ws.len() == 0 {
        assert(words(Seq::<char>::empty()) =~= Seq::<Seq<char>>::empty());
    } else if ws.len() == 1 {
        lemma_words_append(Seq::<char>::empty(), ws[0]);
        assert(Seq::<char>::empty() + ws[0] =~= ws[0]);
        assert(words(Seq::<char>::empty()) =~= Seq::<Seq<char>>::empty());
        assert(Seq::<Seq<char>>::empty().push(ws[0]) =~= ws);
    } else {
        let init = ws.drop_last();
        lemma_words_join(init, sep);
        let a = join_words(init, sep);
        let b = a + seq![sep];
        assert(b.drop_last() =~= a);
        assert(words(b) == words(a));
        assert(ws.last() == ws[ws.len() - 1]);
        lemma_words_append(b, ws.last());
        assert(join_words(ws, sep) == b + ws.last());
        assert(init.push(ws.last()) =~= ws);
    }
}

/// Joining by `_` and reading `_` as `-` is joining by `-`.
proof fn lemma_dash_join(ws: Seq<Seq<char>>)
    requires
        forall|k: int, j: int| 0 <= k < ws.len() && 0 <= j < ws[k].len() ==> #[trigger] ws[k][j] != '_',
    ensures
        dash(join_words(ws, '_')) == join_words(ws, '-'),
    decreases ws.len(),
{
    if ws.len() == 1 {
        assert(dash(ws[0]) =~= ws[0]) by {
            assert forall|j: int| 0 <= j < ws[0].len() implies dash(ws[0])[j] == ws[0][j] by {
                assert(ws[0][j] != '_');
            }
        }
    } else if ws.len() > 1 {
        let init = ws.drop_last();
        lemma_dash_join(init);
        let w = ws.last();
        assert(w == ws[ws.len() - 1]);
        let a = join_words(init, '_');
        assert(dash(a + seq!['_'] + w) =~= dash(a) + seq!['-'] + w) by {
            assert forall|j: int| 0 <= j < w.len() implies w[j] != '_' by {
                assert(ws[ws.len() - 1][j] != '_');
            }
        }
    } else {
        assert(dash(Seq::<char>::empty()) =~= Seq::<char>::empty());
    }
}

/// Every character of joined words is the separator or a character of a
/// word.
proof fn lemma_join_chars(ws: Seq<Seq<char>>, sep: char, p: spec_fn(char) -> bool)
    requires
        forall|k: int, j: int| 0 <= k < ws.len() && 0 <= j < ws[k].len() ==> p(#[trigger] ws[k][j]),
    ensures
        forall|i: int| 0 <= i < join_words(ws, sep).len() ==> #[trigger] join_words(ws, sep)[i] == sep || p(join_words(ws, sep)[i]),
    decreases ws.len(),
{
    if ws.len() == 1 {
        assert forall|i: int| 0 <= i < join_words(ws, sep).len() implies #[trigger] join_words(ws, sep)[i] == sep || p(join_words(ws, sep)[i]) by {
            assert(ws[0][i] == join_words(ws, sep)[i]);
        }
    } else if ws.len() > 1 {
        let init = ws.drop_last();
        lemma_join_chars(init, sep, p);
        let a = join_words(init, sep);
        let w = ws.last();
        let full = a + seq![sep] + w;
        assert(join_words(ws, sep) == full);
        assert forall|i: int| 0 <= i < full.len() implies #[trigger] full[i] == sep || p(full[i]) by {
            if i < a.len() {
                assert(full[i] == a[i]);
            } else if i > a.len() {
                assert(full[i] == w[i - a.len() - 1]);
                assert(w == ws[ws.len() - 1]);
            }
        }
    }
}

/// A word's character that is alphabetic appears in the joined text.
proof fn lemma_join_alpha(ws: Seq<Seq<char>>, sep: char, k: int, j: int)
    requires
        0 <= k < ws.len(),
        0 <= j < ws[k].len(),
        alpha_char(ws[k][j]),
    ensures
        has_alpha(join_words(ws, sep)),
    decreases ws.len(),
{
    if ws.len() == 1 {
        assert(join_words(ws, sep)[j] == ws[0][j]);
    } else {
        let init = ws.drop_last();
        let a = join_words(init, sep);
        let w = ws.last();
        let full = a + seq![sep] + w;
        assert(join_words(ws, sep) == full);
        if k < ws.len() - 1 {
            assert(init[k] == ws[k]);
            lemma_join_alpha(init, sep, k, j);
            let i = choose|i: int| 0 <= i < a.len() && alpha_char(#[trigger] a[i]);
            assert(full[i] == a[i]);
        } else {
            assert(w == ws[k]);
            assert(full[a.len() + 1 + j] == w[j]);
        }
    }
}

/// The words of an ASCII text's marks are non-empty runs of lowercase
/// letters and digits without `_`.
proof fn lemma_snake_words(x: Seq<char>)
    requires
        is_ascii_seq(x),
    ensures
        forall|k: int| 0 <= k < words(snake_marks(x)).len() ==> (#[trigger] words(snake_marks(x))[k]).len() > 0 && all_alnum(words(snake_marks(x))[k]),
        forall|k: int, j: int|
            0 <= k < words(snake_marks(x)).len() && 0 <= j < words(snake_marks(x))[k].len() ==> lower_digit_seq(seq![#[trigger] words(snake_marks(x))[k][j]]),
{
    let m = snake_marks(x);
    lemma_marks_ascii(x);
    lemma_words_props(m);
    let p = |c: char| is_ascii_char(c) && !is_ascii_upper(c);
    assert forall|i: int| 0 <= i < m.len() implies p(#[trigger] m[i]) by {}
    lemma_words_keep(m, p);
    assert forall|k: int, j: int|
        0 <= k < words(m).len() && 0 <= j < words(m)[k].len() implies lower_digit_seq(seq![#[trigger] words(m)[k][j]]) by {
        let c = words(m)[k][j];
        assert(p(c));
        assert(all_alnum(words(m)[k]));
        assert(alnum_char(c));
    }
}

/// kebab-case of a snake_case form with `_` read as `-` is the kebab-case
/// form, for ASCII text, except for kebab-case input with empty segments
/// (a leading, trailing or doubled `-`): `"-a"` is kept as it is, while
/// its snake_case form `"a"` stays `"a"`.
pub proof fn law_kebab_of_dashed_snake(x: Seq<char>)
    requires
        is_ascii_seq(x),
        is_kebab_spec(x) ==> join_words(words(x), '-') == x,
    ensures
        kebab_spec(dash(snake_spec(x))) == kebab_spec(x),
{
    let s = snake_spec(x);
    let y = dash(s);
    if is_snake_spec(x) {
        assert forall|i: int| 0 <= i < x.len() implies x[i] != '-' by {
            assert(is_joined_lower(x, '_'));
        }
        assert(is_joined_lower(y, '-')) by {
            assert forall|i: int| 0 <= i < y.len() implies {
                &&& (lower_char(#[trigger] y[i]) || numeric_char(y[i]) || y[i] == '-')
                &&& (y[i] == '-' || (y[i] != '_' && y[i] != '-'))
                &&& y[i] != ' '
            } by {
                assert(y[i] == if x[i] == '_' { '-' } else { x[i] });
            }
            let i = choose|i: int| 0 <= i < x.len() && alpha_char(#[trigger] x[i]);
            assert(is_ascii_char(x[i]));
            assert(y[i] == x[i]);
        }
        if is_kebab_spec(x) {
            assert forall|i: int| 0 <= i < x.len() implies x[i] != '_' by {
                assert(is_joined_lower(x, '-'));
            }
            assert(y =~= x);
        }
    } else {
        let m = snake_marks(x);
        let ws = words(m);
        lemma_snake_words(x);
        assert forall|k: int, j: int| 0 <= k < ws.len() && 0 <= j < ws[k].len() implies #[trigger] ws[k][j] != '_' by {
            assert(lower_digit_seq(seq![ws[k][j]]));
            assert(seq![ws[k][j]][0] == ws[k][j]);
        }
        lemma_dash_join(ws);
        assert(y == join_words(ws, '-'));
        let q = |c: char| lower_digit_seq(seq![c]);
        lemma_join_chars(ws, '-', q);
        let y_ok = forall|i: int| 0 <= i < y.len() ==> #[trigger] y[i] == '-' || q(y[i]);
        assert(y_ok);
        assert(ascii_no_upper(y)) by {
            assert forall|i: int| 0 <= i < y.len() implies is_ascii_char(#[trigger] y[i]) && !is_ascii_upper(y[i]) by {
                if y[i] != '-' {
                    assert(q(y[i]));
                    assert(seq![y[i]][0] == y[i]);
                }
            }
        }
        if y.len() > 0 && has_alpha(y) {
            assert(is_joined_lower(y, '-')) by {
                assert forall|i: int| 0 <= i < y.len() implies {
                    &&& (lower_char(#[trigger] y[i]) || numeric_char(y[i]) || y[i] == '-')
                    &&& (y[i] == '-' || (y[i] != '_' && y[i] != '-'))
                    &&& y[i] != ' '
                } by {
                    if y[i] != '-' {
                        assert(q(y[i]));
                        assert(seq![y[i]][0] == y[i]);
                    }
                }
            }
        } else {
            assert(!is_snake_spec(y));
            lemma_marks_identity(y);
            lemma_words_join(ws, '-');
            assert(!is_joined_lower(y, '-'));
        }
        if is_kebab_spec(x) {
            assert(ascii_no_upper(x)) by {
                assert forall|i: int| 0 <= i < x.len() implies is_ascii_char(#[trigger] x[i]) && !is_ascii_upper(x[i]) by {
                    assert(is_joined_lower(x, '-'));
                }
            }
            lemma_marks_identity(x);
        }
    }
}

/// The plain kebab-case of the plain snake_case form with `_` read as `-`
/// is the plain kebab-case form, for every ASCII text.
pub proof fn law_plain_kebab_of_dashed_snake(x: Seq<char>)
    requires
        is_ascii_seq(x),
    ensures
        plain_kebab_spec(dash(plain_snake_spec(x))) == plain_kebab_spec(x),
{
    let m = snake_marks(x);
    let ws = words(m);
    lemma_snake_words(x);
    assert forall|k: int, j: int| 0 <= k < ws.len() && 0 <= j < ws[k].len() implies #[trigger] ws[k][j] != '_' by {
        assert(lower_digit_seq(seq![ws[k][j]]));
        assert(seq![ws[k][j]][0] == ws[k][j]);
    }
    lemma_dash_join(ws);
    let y = join_words(ws, '-');
    let q = |c: char| lower_digit_seq(seq![c]);
    lemma_join_chars(ws, '-', q);
    assert(ascii_no_upper(y)) by {
        assert forall|i: int| 0 <= i < y.len() implies is_ascii_char(#[trigger] y[i]) && !is_ascii_upper(y[i]) by {
            if y[i] != '-' {
                assert(q(y[i]));
                assert(seq![y[i]][0] == y[i]);
            }
        }
    }
    lemma_marks_identity(y);
    lemma_words_join(ws, '-');
}

} // verus!
