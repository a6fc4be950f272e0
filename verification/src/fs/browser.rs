//! The tree of a scanned directory.

use vstd::prelude::*;
use crate::text::{chars_of, string_views};

verus! {

/// Whether an entry is a file or a directory.
#[derive(Clone, Copy, Debug, PartialEq, Eq, Structural)]
pub enum FileType {
    File,
    Directory,
}

/// An entry of a scanned directory, with the entries below it.
#[derive(Debug, PartialEq, Eq)]
pub struct FileItem {
    pub path: String,
    pub name: String,
    pub file_type: FileType,
    pub children: Option<Vec<FileItem>>,
    pub size: u64,
}

/// The paths of the files in the tree of `item`: its own, if it is a file,
/// then those of its children, in order.
pub open spec fn file_paths(item: FileItem) -> Seq<Seq<char>>
    decreases item,
{
    let own = if item.file_type == FileType::File {
        seq![item.path@]
    } else {
        Seq::empty()
    };
    match item.children {
        Some(children) => own + file_paths_of(children, children.len() as nat),
        None => own,
    }
}

/// The paths of the files in the trees of the first `n` of `items`.
pub open spec fn file_paths_of(items: Vec<FileItem>, n: nat) -> Seq<Seq<char>>
    decreases items, n,
{
    if n == 0 || n > items.len() {
        Seq::empty()
    } else {
        file_paths_of(items, (n - 1) as nat) + file_paths(items[n - 1])
    }
}

/// Appends to `paths` the paths of the files in the tree of `item`.
pub fn collect_file_paths(item: &FileItem, paths: &mut Vec<String>)
    ensures
        string_views(final(paths)@) == string_views(old(paths)@) + file_paths(*item),
    decreases item,
{
    if let FileType::File = item.file_type {
        let ghost before = paths@;
        paths.push(item.path.clone());
        assert(string_views(paths@) =~= string_views(before).push(item.path@));
    }
    let ghost own = string_views(paths@);
    assert(own =~= string_views(old(paths)@) + if item.file_type == FileType::File {
        seq![item.path@]
    } else {
        Seq::empty()
    });
    match &item.children {
        Some(children) => {
            let mut i: usize = 0;
            while i < children.len()
                invariant
                    i <= children.len(),
                    item.children == Some(*children),
                    string_views(paths@) == own + file_paths_of(*children, i as nat),
                decreases children.len() - i,
            {
                proof {
                    vstd::std_specs::vec::axiom_vec_index_decreases(*children, i as int);
                    assert(item.children->0 == *children);
                }
                collect_file_paths(&children[i], paths);
                i += 1;
            }
        },
        None => {},
    }
}

/// The lower-case form of a text, as `str::to_lowercase` gives it.
pub uninterp spec fn lowercase(s: Seq<char>) -> Seq<char>;

/// `str::to_lowercase`: the lower-case form of `s`, by the Unicode mapping,
/// which is the same for every call.
#[verifier::external_body]
fn to_lowercase(s: &str) -> (r: String)
    ensures
        r@ == lowercase(s@),
{
    s.to_lowercase()
}

/// `a` does not come after `b` where texts are ordered character by
/// character, by the numbers of the characters, a text before those that
/// it begins.
pub open spec fn precedes(a: Seq<char>, b: Seq<char>) -> bool
    decreases a.len(),
{
    if a.len() == 0 {
        true
    } else if b.len() == 0 {
        false
    } else if a[0] != b[0] {
        (a[0] as u32) < (b[0] as u32)
    } else {
        precedes(a.skip(1), b.skip(1))
    }
}

/// Of two texts one does not come after the other.
pub proof fn lemma_precedes_total(a: Seq<char>, b: Seq<char>)
    ensures
        precedes(a, b) || precedes(b, a),
    decreases a.len(),
{
    if a.len() > 0 && b.len() > 0 {
        if a[0] == b[0] {
            lemma_precedes_total(a.skip(1), b.skip(1));
        } else {
            vstd::utf8::char_u32_cast(a[0], a[0] as u32);
            vstd::utf8::char_u32_cast(b[0], b[0] as u32);
        }
    }
}

/// What does not come after a text that does not come after a third does
/// not come after the third.
pub proof fn lemma_precedes_transitive(a: Seq<char>, b: Seq<char>, c: Seq<char>)
    requires
        precedes(a, b),
        precedes(b, c),
    ensures
        precedes(a, c),
    decreases a.len(),
{
    if a.len() > 0 && b.len() > 0 && c.len() > 0 && a[0] == b[0] && b[0] == c[0] {
        lemma_precedes_transitive(a.skip(1), b.skip(1), c.skip(1));
    }
}

/// Whether `a` does not come after `b`.
pub fn precedes_chars(a: &[char], b: &[char]) -> (r: bool)
    ensures
        r == precedes(a@, b@),
{
    let mut i: usize = 0;
    assert(a@.skip(0) == a@ && b@.skip(0) == b@);
    while i < a.len() && i < b.len()
        invariant
            i <= a.len(),
            i <= b.len(),
            precedes(a@.skip(i as int), b@.skip(i as int)) == precedes(a@, b@),
        decreases a.len() - i,
    {
        proof {
            assert(a@.skip(i as int)[0] == a@[i as int]);
            assert(b@.skip(i as int)[0] == b@[i as int]);
            assert(a@.skip(i as int).skip(1) == a@.skip(i + 1));
            assert(b@.skip(i as int).skip(1) == b@.skip(i + 1));
        }
        if a[i] != b[i] {
            return (a[i] as u32) < (b[i] as u32);
        }
        i += 1;
    }
    i == a.len()
}

/// `a` may stand before `b` in a listing: a directory before a file, and
/// of two of a kind the one whose name in lower case does not come after
/// the other's.
pub open spec fn in_order(a: FileItem, b: FileItem) -> bool {
    if a.file_type == b.file_type {
        precedes(lowercase(a.name@), lowercase(b.name@))
    } else {
        a.file_type == FileType::Directory
    }
}

/// Whether `a` may stand before `b` in a listing.
pub fn may_precede(a: &FileItem, b: &FileItem) -> (r: bool)
    ensures
        r == in_order(*a, *b),
{
    match (a.file_type, b.file_type) {
        (FileType::Directory, FileType::File) => true,
        (FileType::File, FileType::Directory) => false,
        _ => {
            let x = chars_of(to_lowercase(a.name.as_str()).as_str());
            let y = chars_of(to_lowercase(b.name.as_str()).as_str());
            precedes_chars(x.as_slice(), y.as_slice())
        },
    }
}

/// Where `x` goes into the listing `t`: behind the last entry that may
/// stand before it.
pub open spec fn insert_position(t: Seq<FileItem>, x: FileItem) -> int
    decreases t.len(),
{
    if t.len() == 0 {
        0
    } else if in_order(t.last(), x) {
        t.len() as int
    } else {
        insert_position(t.drop_last(), x)
    }
}

/// The entries `items` as they are listed: in order, and those that may
/// stand on either side of each other as they came.
pub open spec fn listed(items: Seq<FileItem>) -> Seq<FileItem>
    decreases items.len(),
{
    if items.len() == 0 {
        items
    } else {
        let t = listed(items.drop_last());
        t.insert(insert_position(t, items.last()), items.last())
    }
}

/// The place where an entry goes is within the listing.
pub proof fn lemma_insert_position(t: Seq<FileItem>, x: FileItem)
    ensures
        0 <= insert_position(t, x) <= t.len(),
        insert_position(t, x) > 0 ==> in_order(t[insert_position(t, x) - 1], x),
        forall|k: int| insert_position(t, x) <= k < t.len() ==> !in_order(#[trigger] t[k], x),
    decreases t.len(),
{
    if t.len() > 0 && !in_order(t.last(), x) {
        let init = t.drop_last();
        lemma_insert_position(init, x);
        assert forall|k: int| insert_position(t, x) <= k < t.len() implies !in_order(
            #[trigger] t[k],
            x,
        ) by {
            if k < init.len() {
                assert(init[k] == t[k]);
            }
        }
        if insert_position(t, x) > 0 {
            assert(init[insert_position(t, x) - 1] == t[insert_position(t, x) - 1]);
        }
    }
}

/// Each entry of `s` may stand before every later one.
pub open spec fn ordered(s: Seq<FileItem>) -> bool {
    forall|i: int, j: int| 0 <= i < j < s.len() ==> in_order(#[trigger] s[i], #[trigger] s[j])
}

/// Of two entries one may stand before the other.
pub proof fn lemma_in_order_total(a: FileItem, b: FileItem)
    ensures
        in_order(a, b) || in_order(b, a),
{
    lemma_precedes_total(lowercase(a.name@), lowercase(b.name@));
}

/// What may stand before an entry that may stand before a third may stand
/// before the third.
pub proof fn lemma_in_order_transitive(a: FileItem, b: FileItem, c: FileItem)
    requires
        in_order(a, b),
        in_order(b, c),
    ensures
        in_order(a, c),
{
    if a.file_type == b.file_type && b.file_type == c.file_type {
        lemma_precedes_transitive(lowercase(a.name@), lowercase(b.name@), lowercase(c.name@));
    }
}

/// A listing holds the entries it was made from, each as often as it came,
/// and is in order.
pub proof fn lemma_listed(items: Seq<FileItem>)
    ensures
        listed(items).len() == items.len(),
        listed(items).to_multiset() == items.to_multiset(),
        ordered(listed(items)),
    decreases items.len(),
{
    if items.len() == 0 {
    } else {
        let init = items.drop_last();
        let x = items.last();
        let t = listed(init);
        let p = insert_position(t, x);
        let r = t.insert(p, x);
        lemma_listed(init);
        lemma_insert_position(t, x);
        assert(r.to_multiset() == items.to_multiset()) by {
            vstd::seq_lib::to_multiset_insert(t, p, x);
            vstd::seq_lib::to_multiset_build(init, x);
            assert(items =~= init.push(x));
        }
        assert forall|i: int, j: int| 0 <= i < j < r.len() implies in_order(
            #[trigger] r[i],
            #[trigger] r[j],
        ) by {
            if j < p {
                assert(r[i] == t[i] && r[j] == t[j]);
            } else if j == p {
                assert(r[i] == t[i]);
                assert(r[j] == x);
                if i < p - 1 {
                    lemma_in_order_transitive(t[i], t[p - 1], x);
                }
            } else if i == p {
                assert(r[j] == t[j - 1]);
                lemma_in_order_total(t[j - 1], x);
            } else if i < p {
                assert(r[i] == t[i] && r[j] == t[j - 1]);
            } else {
                assert(r[i] == t[i - 1] && r[j] == t[j - 1]);
            }
        }
    }
}

/// Puts the entries of a directory in the order in which they are listed:
/// directories first, then files, each by name without regard to case.
pub fn sort_children(children: &mut Vec<FileItem>)
    ensures
        final(children)@ == listed(old(children)@),
{
    let ghost before = children@;
    let mut i: usize = 0;
    assert(children@.take(0) =~= listed(before.take(0)));
    while i < children.len()
        invariant
            i <= children.len(),
            children.len() == before.len(),
            children@.take(i as int) == listed(before.take(i as int)),
            children@.skip(i as int) == before.skip(i as int),
        decreases children.len() - i,
    {
        let ghost current = children@;
        let ghost t = children@.take(i as int);
        let x = children.remove(i);
        proof {
            assert(x == before[i as int]) by {
                assert(current.skip(i as int)[0] == before.skip(i as int)[0]);
            }
            assert(children@.take(i as int) =~= t);
        }
        let mut j: usize = i;
        assert(t.take(j as int) =~= t);
        while j > 0 && !may_precede(&children[j - 1], &x)
            invariant
                j <= i,
                i <= children.len(),
                children@.take(i as int) == t,
                insert_position(t.take(j as int), x) == insert_position(t, x),
            decreases j,
        {
            proof {
                assert(t.take(j as int).last() == children@[j - 1]);
                assert(t.take(j as int).drop_last() =~= t.take(j - 1));
            }
            j -= 1;
        }
        proof {
            if j > 0 {
                assert(t.take(j as int).last() == children@[j - 1]);
            }
            assert(insert_position(t, x) == j);
        }
        let ghost removed = children@;
        children.insert(j, x);
        proof {
            assert(before.take(i + 1).drop_last() =~= before.take(i as int));
            assert(before.take(i + 1).last() == x);
            assert(children@.take(i + 1) =~= t.insert(j as int, x));
            assert(children@.skip(i + 1) =~= removed.skip(i as int));
            assert(removed.skip(i as int) =~= current.skip(i + 1));
            assert(current.skip(i + 1) =~= current.skip(i as int).skip(1));
            assert(before.skip(i + 1) =~= before.skip(i as int).skip(1));
        }
        i += 1;
    }
    assert(children@.take(i as int) =~= children@);
    assert(before.take(i as int) =~= before);
}

} // verus!
