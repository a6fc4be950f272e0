//! Strings seen as sequences of characters: conversion, comparison, search
//! for a text within another, and replacement.

use vstd::prelude::*;

verus! {

/// `String::push` appends the given character to the end of the string.
pub assume_specification[ String::push ](s: &mut String, c: char)
    ensures
        final(s)@ == old(s)@.push(c),
;

/// The characters of `s`, in order.
pub fn chars_of(s: &str) -> (v: Vec<char>)
    ensures
        v@ == s@,
{
    let mut v: Vec<char> = Vec::new();
    for c in it: s.chars()
        invariant
            it.seq() == s@,
            v@ == it.seq().take(it.index()),
    {
        v.push(c);
    }
    v
}

/// The string made of the characters of `v`, in order.
pub fn string_of(v: &[char]) -> (s: String)
    ensures
        s@ == v@,
{
    let mut s = String::new();
    let mut i: usize = 0;
    while i < v.len()
        invariant
            i <= v.len(),
            s@ == v@.take(i as int),
        decreases v.len() - i,
    {
        s.push(v[i]);
        i += 1;
    }
    s
}

/// The character sequences of a sequence of strings.
pub open spec fn string_views(s: Seq<String>) -> Seq<Seq<char>> {
    s.map_values(|x: String| x@)
}

/// Whether two strings hold the same characters.
pub fn same_text(a: &str, b: &str) -> (r: bool)
    ensures
        r == (a@ == b@),
{
    let x = chars_of(a);
    let y = chars_of(b);
    same_chars(x.as_slice(), y.as_slice())
}

/// Whether two slices hold the same characters.
pub fn same_chars(a: &[char], b: &[char]) -> (r: bool)
    ensures
        r == (a@ == b@),
{
    if a.len() != b.len() {
        return false;
    }
    let mut i: usize = 0;
    while i < a.len()
        invariant
            a.len() == b.len(),
            i <= a.len(),
            a@.take(i as int) == b@.take(i as int),
        decreases a.len() - i,
    {
        if a[i] != b[i] {
            return false;
        }
        assert(a@.take(i + 1) == a@.take(i as int).push(a@[i as int]));
        assert(b@.take(i + 1) == b@.take(i as int).push(b@[i as int]));
        i += 1;
    }
    assert(a@.take(i as int) == a@);
    assert(b@.take(i as int) == b@);
    true
}

/// `pat` stands in `s` at position `i`.
pub open spec fn occurs_at(s: Seq<char>, pat: Seq<char>, i: int) -> bool {
    0 <= i && i + pat.len() <= s.len() && s.subrange(i, i + pat.len()) == pat
}

/// `pat` stands somewhere in `s`. The empty sequence stands in every sequence.
pub open spec fn contains(s: Seq<char>, pat: Seq<char>) -> bool {
    exists|i: int| occurs_at(s, pat, i)
}

/// `s` with every occurrence of `pat` replaced by `with`, found from left to
/// right without overlap. An empty `pat` is found before every character and
/// at the end.
pub open spec fn replace_all(s: Seq<char>, pat: Seq<char>, with: Seq<char>) -> Seq<char>
    decreases s.len(),
{
    if pat.len() == 0 {
        if s.len() == 0 {
            with
        } else {
            with + seq![s[0]] + replace_all(s.skip(1), pat, with)
        }
    } else if s.len() < pat.len() {
        s
    } else if s.take(pat.len() as int) == pat {
        with + replace_all(s.skip(pat.len() as int), pat, with)
    } else {
        seq![s[0]] + replace_all(s.skip(1), pat, with)
    }
}

/// Replacing a text by itself changes nothing.
pub proof fn lemma_replace_by_itself(s: Seq<char>, pat: Seq<char>)
    ensures
        replace_all(s, pat, pat) == s,
    decreases s.len(),
{
    if pat.len() == 0 {
        if s.len() > 0 {
            lemma_replace_by_itself(s.skip(1), pat);
            assert(pat + seq![s[0]] + s.skip(1) =~= s);
        } else {
            assert(pat =~= s);
        }
    } else if s.len() < pat.len() {
    } else if s.take(pat.len() as int) == pat {
        lemma_replace_by_itself(s.skip(pat.len() as int), pat);
        assert(s.take(pat.len() as int) + s.skip(pat.len() as int) =~= s);
    } else {
        lemma_replace_by_itself(s.skip(1), pat);
        assert(seq![s[0]] + s.skip(1) =~= s);
    }
}

/// A longer replacement does not shorten the text, and a shorter one does
/// not lengthen it.
pub proof fn lemma_replace_length(s: Seq<char>, pat: Seq<char>, with: Seq<char>)
    ensures
        with.len() >= pat.len() ==> replace_all(s, pat, with).len() >= s.len(),
        with.len() <= pat.len() ==> replace_all(s, pat, with).len() <= s.len(),
    decreases s.len(),
{
    if pat.len() == 0 {
        if s.len() > 0 {
            lemma_replace_length(s.skip(1), pat, with);
        }
    } else if s.len() < pat.len() {
    } else if s.take(pat.len() as int) == pat {
        lemma_replace_length(s.skip(pat.len() as int), pat, with);
    } else {
        lemma_replace_length(s.skip(1), pat, with);
    }
}

/// Replacing a text that occurs by another text changes the whole.
pub proof fn lemma_replace_changes(s: Seq<char>, pat: Seq<char>, with: Seq<char>)
    requires
        contains(s, pat),
        pat != with,
    ensures
        replace_all(s, pat, with) != s,
    decreases s.len(),
{
    let r = replace_all(s, pat, with);
    let at = choose|i: int| occurs_at(s, pat, i);
    if pat.len() == 0 {
        assert(with.len() > 0) by {
            if with.len() == 0 {
                assert(with =~= pat);
            }
        }
        if s.len() > 0 {
            lemma_replace_length(s.skip(1), pat, with);
        }
    } else if s.take(pat.len() as int) == pat {
        let rest = s.skip(pat.len() as int);
        lemma_replace_length(rest, pat, with);
        if with.len() == pat.len() {
            assert(r.take(pat.len() as int) =~= with);
        }
    } else {
        assert(at != 0) by {
            if at == 0 {
                assert(s.subrange(0, pat.len() as int) =~= s.take(pat.len() as int));
            }
        }
        let rest = s.skip(1);
        assert(occurs_at(rest, pat, at - 1)) by {
            assert(rest.subrange(at - 1, at - 1 + pat.len()) =~= s.subrange(at, at + pat.len()));
        }
        lemma_replace_changes(rest, pat, with);
        if r == s {
            assert(r.skip(1) =~= replace_all(rest, pat, with));
        }
    }
}

/// Whether `pat` stands in `s` at position `i`.
pub fn matches_at(s: &[char], pat: &[char], i: usize) -> (r: bool)
    ensures
        r == occurs_at(s@, pat@, i as int),
{
    if i > s.len() || pat.len() > s.len() - i {
        return false;
    }
    let mut k: usize = 0;
    while k < pat.len()
        invariant
            i + pat.len() <= s.len(),
            k <= pat.len(),
            s@.subrange(i as int, i + k) == pat@.take(k as int),
        decreases pat.len() - k,
    {
        if s[i + k] != pat[k] {
            assert(s@.subrange(i as int, i + pat.len())[k as int] != pat@[k as int]);
            return false;
        }
        assert(s@.subrange(i as int, i + k + 1) == s@.subrange(i as int, i + k).push(
            s@[i + k],
        ));
        assert(pat@.take(k + 1) == pat@.take(k as int).push(pat@[k as int]));
        k += 1;
    }
    assert(pat@.take(k as int) == pat@);
    true
}

/// Whether `pat` stands somewhere in `s`.
pub fn contains_chars(s: &[char], pat: &[char]) -> (r: bool)
    ensures
        r == contains(s@, pat@),
{
    let mut i: usize = 0;
    while i < s.len()
        invariant
            i <= s.len(),
            forall|j: int| 0 <= j < i ==> !occurs_at(s@, pat@, j),
        decreases s.len() - i,
    {
        if matches_at(s, pat, i) {
            return true;
        }
        i += 1;
    }
    matches_at(s, pat, i)
}

/// `s` with every occurrence of `pat` replaced by `with`.
pub fn replace_chars(s: &[char], pat: &[char], with: &[char]) -> (out: Vec<char>)
    ensures
        out@ == replace_all(s@, pat@, with@),
{
    let mut out: Vec<char> = Vec::new();
    let mut i: usize = 0;
    assert(s@.skip(0) == s@);
    assert(out@ + replace_all(s@, pat@, with@) == replace_all(s@, pat@, with@));
    if pat.len() == 0 {
        loop
            invariant_except_break
                out@ + replace_all(s@.skip(i as int), pat@, with@) == replace_all(
                    s@,
                    pat@,
                    with@,
                ),
            invariant
                pat@.len() == 0,
                i <= s.len(),
            ensures
                out@ == replace_all(s@, pat@, with@),
            decreases s.len() - i,
        {
            let ghost before = out@;
            append_chars(&mut out, with);
            if i == s.len() {
                assert(s@.skip(i as int).len() == 0);
                break ;
            }
            out.push(s[i]);
            proof {
                let rest = s@.skip(i as int);
                assert(rest.skip(1) == s@.skip(i + 1));
                assert(rest[0] == s@[i as int]);
                assert(out@ + replace_all(s@.skip(i + 1), pat@, with@) == before + (with@
                    + seq![rest[0]] + replace_all(rest.skip(1), pat@, with@)));
            }
            i += 1;
        }
        return out;
    }
    while i < s.len()
        invariant
            pat@.len() > 0,
            i <= s.len(),
            out@ + replace_all(s@.skip(i as int), pat@, with@) == replace_all(s@, pat@, with@),
        decreases s.len() - i,
    {
        let ghost before = out@;
        let ghost rest = s@.skip(i as int);
        if matches_at(s, pat, i) {
            proof {
                assert(rest.take(pat@.len() as int) == s@.subrange(i as int, i + pat@.len()));
                assert(rest.skip(pat@.len() as int) == s@.skip(i + pat@.len()));
            }
            append_chars(&mut out, with);
            i += pat.len();
            assert(out@ + replace_all(s@.skip(i as int), pat@, with@) == before + (with@
                + replace_all(rest.skip(pat@.len() as int), pat@, with@)));
        } else {
            proof {
                if rest.len() >= pat@.len() {
                    assert(rest.take(pat@.len() as int) == s@.subrange(
                        i as int,
                        i + pat@.len(),
                    ));
                }
                assert(rest.skip(1) == s@.skip(i + 1));
                assert(rest[0] == s@[i as int]);
            }
            if s.len() - i < pat.len() {
                append_chars(&mut out, slice_from(s, i));
                i = s.len();
                assert(s@.skip(i as int).len() == 0);
                assert(out@ + replace_all(s@.skip(i as int), pat@, with@) == before + rest);
            } else {
                out.push(s[i]);
                i += 1;
                assert(out@ + replace_all(s@.skip(i as int), pat@, with@) == before + (
                seq![rest[0]] + replace_all(rest.skip(1), pat@, with@)));
            }
        }
    }
    assert(s@.skip(i as int).len() == 0);
    assert(out@ + replace_all(s@.skip(i as int), pat@, with@) == out@);
    out
}

/// The part of `s` from index `from` on.
fn slice_from(s: &[char], from: usize) -> (r: &[char])
    requires
        from <= s.len(),
    ensures
        r@ == s@.skip(from as int),
{
    vstd::slice::slice_subrange(s, from, s.len())
}

/// Appends the characters of `more` to `out`.
pub fn append_chars(out: &mut Vec<char>, more: &[char])
    ensures
        final(out)@ == old(out)@ + more@,
{
    let mut k: usize = 0;
    while k < more.len()
        invariant
            k <= more.len(),
            out@ == old(out)@ + more@.take(k as int),
        decreases more.len() - k,
    {
        out.push(more[k]);
        assert(more@.take(k + 1) == more@.take(k as int).push(more@[k as int]));
        k += 1;
    }
    assert(more@.take(k as int) == more@);
}

/// Whether `text` holds `pattern`.
pub fn contains_text(text: &str, pattern: &str) -> (r: bool)
    ensures
        r == contains(text@, pattern@),
{
    let t = chars_of(text);
    let p = chars_of(pattern);
    contains_chars(t.as_slice(), p.as_slice())
}

/// `text` with every occurrence of `pattern` replaced by `with`.
pub fn replace_text(text: &str, pattern: &str, with: &str) -> (r: String)
    ensures
        r@ == replace_all(text@, pattern@, with@),
{
    let t = chars_of(text);
    let p = chars_of(pattern);
    let w = chars_of(with);
    let out = replace_chars(t.as_slice(), p.as_slice(), w.as_slice());
    string_of(out.as_slice())
}

} // verus!
