//! Payloads fenced by marker lines.

use vstd::prelude::*;
use crate::lines::{join_lines, lines, split_lines, trim, trim_bounds, views};
use crate::text::{append_chars, chars_of, string_of};

verus! {

/// The marker: three equals signs.
pub open spec fn marker() -> Seq<char> {
    seq!['=', '=', '=']
}

/// A marker line holds the marker and, around it, white space at most.
pub open spec fn is_marker_line(line: Seq<char>) -> bool {
    trim(line) == marker()
}

/// The index of the first marker line of `ls` at or after `from`, or the
/// length of `ls` where there is none.
pub open spec fn next_marker(ls: Seq<Seq<char>>, from: int) -> int
    decreases ls.len() - from,
{
    if from < 0 || from >= ls.len() {
        ls.len() as int
    } else if is_marker_line(ls[from]) {
        from
    } else {
        next_marker(ls, from + 1)
    }
}

/// What a fenced text stands for: the lines between its first two marker
/// lines, joined by line feeds. Where there are fewer than two marker lines,
/// or nothing stands between the first two, the text stands for itself.
pub open spec fn between_markers(text: Seq<char>) -> Seq<char> {
    let ls = lines(text);
    let start = next_marker(ls, 0);
    let end = next_marker(ls, start + 1);
    if start + 1 < end && end < ls.len() {
        join_lines(ls.subrange(start + 1, end))
    } else {
        text
    }
}

/// Whether `line` is a marker line.
pub fn marker_line(line: &[char]) -> (r: bool)
    ensures
        r == is_marker_line(line@),
{
    let (a, b) = trim_bounds(line);
    if b - a != 3 {
        assert(marker().len() == 3);
        return false;
    }
    let r = line[a] == '=' && line[a + 1] == '=' && line[a + 2] == '=';
    proof {
        let t = line@.subrange(a as int, b as int);
        assert(t[0] == line@[a as int]);
        assert(t[1] == line@[a + 1]);
        assert(t[2] == line@[a + 2]);
        if r {
            assert(t =~= marker());
        }
    }
    r
}

/// The index of the first marker line at or after `from`.
fn find_marker(ls: &Vec<Vec<char>>, from: usize) -> (r: usize)
    requires
        from <= ls.len(),
    ensures
        r == next_marker(views(ls@), from as int),
        from <= r <= ls.len(),
{
    let mut i: usize = from;
    while i < ls.len()
        invariant
            from <= i <= ls.len(),
            next_marker(views(ls@), from as int) == next_marker(views(ls@), i as int),
        decreases ls.len() - i,
    {
        assert(views(ls@)[i as int] == ls@[i as int]@);
        if marker_line(ls[i].as_slice()) {
            return i;
        }
        i += 1;
    }
    i
}

/// The lines `ls[from..to]`, joined by line feeds.
fn join_range(ls: &Vec<Vec<char>>, from: usize, to: usize) -> (out: Vec<char>)
    requires
        from <= to <= ls.len(),
    ensures
        out@ == join_lines(views(ls@).subrange(from as int, to as int)),
{
    let mut out: Vec<char> = Vec::new();
    let mut i: usize = from;
    while i < to
        invariant
            from <= i <= to <= ls.len(),
            out@ == join_lines(views(ls@).subrange(from as int, i as int)),
        decreases to - i,
    {
        let ghost done = views(ls@).subrange(from as int, i as int);
        let ghost next = views(ls@).subrange(from as int, i + 1);
        proof {
            assert(next.drop_last() == done);
            assert(next.last() == ls@[i as int]@);
        }
        if i > from {
            out.push('\n');
        }
        append_chars(&mut out, ls[i].as_slice());
        proof {
            if i > from {
                assert(out@ == join_lines(done) + seq!['\n'] + ls@[i as int]@);
            } else {
                assert(done.len() == 0);
                assert(out@ == ls@[i as int]@);
            }
        }
        i += 1;
    }
    out
}

/// The payload of a fenced text. The result is always `Some`.
pub fn extract_between_markers(text: &str) -> (r: Option<String>)
    ensures
        r matches Some(s) && s@ == between_markers(text@),
{
    let chars = chars_of(text);
    let ls = split_lines(chars.as_slice());
    let start = find_marker(&ls, 0);
    if start < ls.len() {
        let end = find_marker(&ls, start + 1);
        if start + 1 < end && end < ls.len() {
            let out = join_range(&ls, start + 1, end);
            return Some(string_of(out.as_slice()));
        }
    }
    Some(string_of(chars.as_slice()))
}

/// Where no marker line stands from `from` up to `n`, and one stands at `n`
/// or `n` is the number of lines, the next marker from `from` on is at `n`.
pub proof fn lemma_next_marker(ls: Seq<Seq<char>>, from: int, n: int)
    requires
        0 <= from <= n <= ls.len(),
        forall|k: int| from <= k < n ==> !is_marker_line(#[trigger] ls[k]),
        n < ls.len() ==> is_marker_line(ls[n]),
    ensures
        next_marker(ls, from) == n,
    decreases n - from,
{
    if from < n {
        lemma_next_marker(ls, from + 1, n);
    }
}

/// A text with exactly two marker lines, and a line between them, stands
/// for the lines between them.
pub proof fn lemma_two_markers(text: Seq<char>, first: int, second: int)
    requires
        0 <= first,
        first + 1 < second < lines(text).len(),
        forall|k: int|
            0 <= k < lines(text).len() ==> (is_marker_line(#[trigger] lines(text)[k]) <==> (k
                == first || k == second)),
    ensures
        between_markers(text) == join_lines(lines(text).subrange(first + 1, second)),
{
    let ls = lines(text);
    lemma_next_marker(ls, 0, first);
    lemma_next_marker(ls, first + 1, second);
}

/// A text with one marker line or none stands for itself.
pub proof fn lemma_fewer_than_two_markers(text: Seq<char>)
    requires
        forall|i: int, j: int|
            0 <= i < j < lines(text).len() ==> !(is_marker_line(#[trigger] lines(text)[i])
                && is_marker_line(#[trigger] lines(text)[j])),
    ensures
        between_markers(text) == text,
{
    let ls = lines(text);
    let start = next_marker(ls, 0);
    lemma_marker_found(ls, 0);
    if start < ls.len() {
        lemma_marker_found(ls, start + 1);
    }
}

/// The next marker from `from` on is a marker line at or after `from`, or
/// the number of lines.
pub proof fn lemma_marker_found(ls: Seq<Seq<char>>, from: int)
    requires
        0 <= from,
    ensures
        from <= next_marker(ls, from) || next_marker(ls, from) == ls.len(),
        next_marker(ls, from) <= ls.len(),
        next_marker(ls, from) < ls.len() ==> is_marker_line(ls[next_marker(ls, from)]),
    decreases ls.len() - from,
{
    if from < ls.len() && !is_marker_line(ls[from]) {
        lemma_marker_found(ls, from + 1);
    }
}

} // verus!
