//! Word splitting at non-alphanumeric boundaries, and the two ways words
//! are put back together: capitalised and concatenated, or joined by a
//! separator.
use vstd::prelude::*;
use crate::text::{alnum_char, char_is_alphanumeric, char_to_uppercase, extend_chars, lower_str, str_to_lowercase, upper_map};

verus! {

/// The maximal runs of alphanumeric characters of `s`, in order; every
/// other character is a boundary and is dropped.
pub open spec fn words(s: Seq<char>) -> Seq<Seq<char>>
    decreases s.len(),
{
    if s.len() == 0 {
        Seq::empty()
    } else {
        let init = s.drop_last();
        let c = s.last();
        let ws = words(init);
        if !alnum_char(c) {
            ws
        } else if init.len() > 0 && alnum_char(init.last()) {
            ws.update(ws.len() - 1, ws.last().push(c))
        } else {
            ws.push(seq![c])
        }
    }
}

/// A word with its first character raised and the rest lowered.
pub open spec fn cap(w: Seq<char>) -> Seq<char> {
    if w.len() == 0 {
        w
    } else {
        upper_map(w[0]) + lower_str(w.drop_first())
    }
}

/// The capitalised words, concatenated.
pub open spec fn caps(ws: Seq<Seq<char>>) -> Seq<char>
    decreases ws.len(),
{
    if ws.len() == 0 {
        Seq::empty()
    } else {
        caps(ws.drop_last()) + cap(ws.last())
    }
}

/// The words joined by `sep`.
pub open spec fn join_words(ws: Seq<Seq<char>>, sep: char) -> Seq<char>
    decreases ws.len(),
{
    if ws.len() == 0 {
        Seq::empty()
    } else if ws.len() == 1 {
        ws[0]
    } else {
        join_words(ws.drop_last(), sep) + seq![sep] + ws.last()
    }
}

/// The characters of `v` from `from` up to `to`.
pub fn sub_chars(v: &[char], from: usize, to: usize) -> (r: Vec<char>)
    requires
        from <= to <= v@.len(),
    ensures
        r@ == v@.subrange(from as int, to as int),
{
    let mut out: Vec<char> = Vec::new();
    let mut i: usize = from;
    while i < to
        invariant
            from <= i <= to <= v@.len(),
            out@ == v@.subrange(from as int, i as int),
        decreases to - i,
    {
        out.push(v[i]);
        i = i + 1;
        assert(out@ =~= v@.subrange(from as int, i as int));
    }
    out
}

pub fn capitalize_word(w: &[char]) -> (r: Vec<char>)
    ensures
        r@ == cap(w@),
{
    if w.len() == 0 {
        return Vec::new();
    }
    let mut out = char_to_uppercase(w[0]);
    let rest = sub_chars(w, 1, w.len());
    assert(rest@ =~= w@.drop_first());
    let lowered = str_to_lowercase(rest.as_slice());
    extend_chars(&mut out, lowered.as_slice());
    out
}

proof fn lemma_caps_push(ws: Seq<Seq<char>>, w: Seq<char>)
    ensures
        caps(ws.push(w)) == caps(ws) + cap(w),
{
    assert(ws.push(w).drop_last() =~= ws);
}

proof fn lemma_join_push(ws: Seq<Seq<char>>, w: Seq<char>, sep: char)
    ensures
        join_words(ws.push(w), sep) == if ws.len() == 0 {
            w
        } else {
            join_words(ws, sep) + seq![sep] + w
        },
{
    assert(ws.push(w).drop_last() =~= ws);
}

/// One step of the word split: the words of `s` extended by `c`.
proof fn lemma_words_step(s: Seq<char>, i: int, ws: Seq<Seq<char>>, cur: Seq<char>)
    requires
        0 <= i < s.len(),
        cur.len() > 0 <==> (i > 0 && alnum_char(s[i - 1])),
        words(s.take(i)) == (if cur.len() > 0 { ws.push(cur) } else { ws }),
    ensures
        alnum_char(s[i]) ==> words(s.take(i + 1)) == ws.push(cur.push(s[i])),
        !alnum_char(s[i]) ==> words(s.take(i + 1)) == (if cur.len() > 0 { ws.push(cur) } else { ws }),
{
    let t = s.take(i + 1);
    assert(t.drop_last() =~= s.take(i));
    assert(t.last() == s[i]);
    if alnum_char(s[i]) {
        if cur.len() > 0 {
            assert(s.take(i).last() == s[i - 1]);
            assert(ws.push(cur).update(ws.len() as int, cur.push(s[i])) =~= ws.push(cur.push(s[i])));
        } else {
            assert(cur.push(s[i]) =~= seq![s[i]]);
        }
    }
}

/// The capitalised words of `s`, concatenated.
pub fn caps_of_words(s: &[char]) -> (r: Vec<char>)
    ensures
        r@ == caps(words(s@)),
{
    let mut out: Vec<char> = Vec::new();
    let mut cur: Vec<char> = Vec::new();
    let ghost mut ws: Seq<Seq<char>> = Seq::empty();
    let mut i: usize = 0;
    while i < s.len()
        invariant
            0 <= i <= s@.len(),
            out@ == caps(ws),
            cur@.len() > 0 <==> (i > 0 && alnum_char(s@[i - 1])),
            words(s@.take(i as int)) == (if cur@.len() > 0 { ws.push(cur@) } else { ws }),
        decreases s@.len() - i,
    {
        let c = s[i];
        proof {
            lemma_words_step(s@, i as int, ws, cur@);
        }
        if char_is_alphanumeric(c) {
            cur.push(c);
        } else if cur.len() > 0 {
            let w = capitalize_word(cur.as_slice());
            extend_chars(&mut out, w.as_slice());
            proof {
                lemma_caps_push(ws, cur@);
                ws = ws.push(cur@);
            }
            cur = Vec::new();
        }
        i = i + 1;
    }
    if cur.len() > 0 {
        let w = capitalize_word(cur.as_slice());
        extend_chars(&mut out, w.as_slice());
        proof {
            lemma_caps_push(ws, cur@);
            ws = ws.push(cur@);
        }
    }
    assert(s@.take(s@.len() as int) =~= s@);
    out
}

/// The words of `s` joined by `sep`.
pub fn join_of_words(s: &[char], sep: char) -> (r: Vec<char>)
    ensures
        r@ == join_words(words(s@), sep),
{
    let mut out: Vec<char> = Vec::new();
    let mut cur: Vec<char> = Vec::new();
    let ghost mut ws: Seq<Seq<char>> = Seq::empty();
    let mut i: usize = 0;
    while i < s.len()
        invariant
            0 <= i <= s@.len(),
            out@ == join_words(ws, sep),
            out@.len() == 0 <==> ws.len() == 0,
            cur@.len() > 0 <==> (i > 0 && alnum_char(s@[i - 1])),
            words(s@.take(i as int)) == (if cur@.len() > 0 { ws.push(cur@) } else { ws }),
        decreases s@.len() - i,
    {
        let c = s[i];
        proof {
            lemma_words_step(s@, i as int, ws, cur@);
        }
        if char_is_alphanumeric(c) {
            cur.push(c);
        } else if cur.len() > 0 {
            if out.len() > 0 {
                out.push(sep);
            }
            extend_chars(&mut out, cur.as_slice());
            proof {
                lemma_join_push(ws, cur@, sep);
                ws = ws.push(cur@);
            }
            cur = Vec::new();
        }
        i = i + 1;
    }
    if cur.len() > 0 {
        if out.len() > 0 {
            out.push(sep);
        }
        extend_chars(&mut out, cur.as_slice());
        proof {
            lemma_join_push(ws, cur@, sep);
            ws = ws.push(cur@);
        }
    }
    assert(s@.take(s@.len() as int) =~= s@);
    out
}

} // verus!
