//! The paths that are watched for changes.

use vstd::prelude::*;
use vstd::string::StringExecFns;
use crate::text::{same_text, string_views};

verus! {

/// The paths that are watched, each of them once, in the order in which
/// they were added.
pub struct WatchedPaths {
    paths: Vec<String>,
}

/// No sequence of characters occurs twice in `s`.
pub open spec fn distinct(s: Seq<Seq<char>>) -> bool {
    forall|i: int, j: int| 0 <= i < j < s.len() ==> s[i] != s[j]
}

/// `s` without the sequences of characters equal to `path`.
pub open spec fn without_path(s: Seq<Seq<char>>, path: Seq<char>) -> Seq<Seq<char>>
    decreases s.len(),
{
    if s.len() == 0 {
        s
    } else if s.last() == path {
        without_path(s.drop_last(), path)
    } else {
        without_path(s.drop_last(), path).push(s.last())
    }
}

/// What `without_path` leaves is what was in `s` and is not `path`.
pub proof fn lemma_without_path_contains(s: Seq<Seq<char>>, path: Seq<char>, x: Seq<char>)
    ensures
        without_path(s, path).contains(x) <==> (s.contains(x) && x != path),
    decreases s.len(),
{
    let r = without_path(s, path);
    if s.len() > 0 {
        let init = s.drop_last();
        let q = without_path(init, path);
        lemma_without_path_contains(init, path, x);
        if r.contains(x) {
            let i = choose|i: int| 0 <= i < r.len() && r[i] == x;
            if s.last() != path && i == r.len() - 1 {
                assert(s[s.len() - 1] == x);
            } else {
                assert(q[i] == x);
                assert(q.contains(x));
                assert(init.contains(x));
                let j = choose|j: int| 0 <= j < init.len() && init[j] == x;
                assert(s[j] == x);
            }
        }
        if s.contains(x) && x != path {
            let j = choose|j: int| 0 <= j < s.len() && s[j] == x;
            if j == s.len() - 1 {
                assert(r[r.len() - 1] == x);
            } else {
                assert(init[j] == x);
                assert(init.contains(x));
                assert(q.contains(x));
                let i = choose|i: int| 0 <= i < q.len() && q[i] == x;
                assert(r[i] == x);
            }
        }
    }
}

/// What `without_path` leaves of distinct paths is distinct.
pub proof fn lemma_without_path_distinct(s: Seq<Seq<char>>, path: Seq<char>)
    requires
        distinct(s),
    ensures
        distinct(without_path(s, path)),
    decreases s.len(),
{
    let r = without_path(s, path);
    if s.len() > 0 {
        let init = s.drop_last();
        let q = without_path(init, path);
        assert(distinct(init)) by {
            assert forall|i: int, j: int| 0 <= i < j < init.len() implies init[i] != init[j] by {
                assert(init[i] == s[i] && init[j] == s[j]);
            }
        }
        lemma_without_path_distinct(init, path);
        if s.last() != path {
            assert forall|i: int, j: int| 0 <= i < j < r.len() implies r[i] != r[j] by {
                if j == r.len() - 1 {
                    assert(q[i] == r[i]);
                    assert(q.contains(r[i]));
                    lemma_without_path_contains(init, path, r[i]);
                    let k = choose|k: int| 0 <= k < init.len() && init[k] == r[i];
                    assert(s[k] == r[i]);
                    assert(s[s.len() - 1] == r[j]);
                } else {
                    assert(q[i] == r[i] && q[j] == r[j]);
                }
            }
        }
    }
}

impl View for WatchedPaths {
    type V = Seq<Seq<char>>;

    closed spec fn view(&self) -> Seq<Seq<char>> {
        string_views(self.paths@)
    }
}

impl WatchedPaths {
    /// No path is held twice.
    #[verifier::type_invariant]
    spec fn well_formed(self) -> bool {
        distinct(string_views(self.paths@))
    }

    /// No path is watched.
    pub fn new() -> (r: WatchedPaths)
        ensures
            r@ == Seq::<Seq<char>>::empty(),
    {
        let r = WatchedPaths { paths: Vec::new() };
        assert(string_views(r.paths@) =~= Seq::empty());
        r
    }

    /// The paths that are watched.
    pub fn paths(&self) -> (r: &Vec<String>)
        ensures
            string_views(r@) == self@,
            distinct(self@),
    {
        proof {
            use_type_invariant(self);
        }
        &self.paths
    }

    /// Whether `path` is watched.
    pub fn is_watched(&self, path: &str) -> (r: bool)
        ensures
            r == self@.contains(path@),
    {
        let mut i: usize = 0;
        while i < self.paths.len()
            invariant
                i <= self.paths.len(),
                forall|j: int| 0 <= j < i ==> string_views(self.paths@)[j] != path@,
            decreases self.paths.len() - i,
        {
            if same_text(self.paths[i].as_str(), path) {
                assert(string_views(self.paths@)[i as int] == path@);
                return true;
            }
            i += 1;
        }
        false
    }

    /// Adds `path`, unless it is watched already. Says whether it was
    /// added, and so is to be watched from now on.
    pub fn add_path(&mut self, path: &str) -> (added: bool)
        ensures
            added == !old(self)@.contains(path@),
            final(self)@ == if added {
                old(self)@.push(path@)
            } else {
                old(self)@
            },
    {
        proof {
            use_type_invariant(&*self);
        }
        if self.is_watched(path) {
            return false;
        }
        let ghost before = self.paths@;
        let mut paths: Vec<String> = Vec::new();
        std::mem::swap(&mut paths, &mut self.paths);
        paths.push(String::from_str(path));
        proof {
            assert(string_views(paths@) =~= string_views(before).push(path@));
            assert forall|i: int, j: int| 0 <= i < j < paths.len() implies string_views(paths@)[i]
                != string_views(paths@)[j] by {
                if j == paths.len() - 1 {
                    assert(string_views(before)[i] == string_views(paths@)[i]);
                    assert(string_views(before).contains(string_views(paths@)[i]));
                } else {
                    assert(string_views(before)[i] == string_views(paths@)[i]);
                    assert(string_views(before)[j] == string_views(paths@)[j]);
                }
            }
        }
        self.paths = paths;
        true
    }

    /// Removes `path`; it is to be watched no longer.
    pub fn remove_path(&mut self, path: &str)
        ensures
            final(self)@ == without_path(old(self)@, path@),
            !final(self)@.contains(path@),
    {
        proof {
            use_type_invariant(&*self);
        }
        let mut kept: Vec<String> = Vec::new();
        let mut i: usize = 0;
        let ghost all = string_views(self.paths@);
        assert(all.take(0) =~= Seq::empty());
        assert(string_views(kept@) =~= Seq::empty());
        while i < self.paths.len()
            invariant
                i <= self.paths.len(),
                all == string_views(self.paths@),
                string_views(kept@) == without_path(all.take(i as int), path@),
            decreases self.paths.len() - i,
        {
            proof {
                assert(all.take(i + 1).drop_last() =~= all.take(i as int));
                assert(all.take(i + 1).last() == self.paths@[i as int]@);
            }
            if !same_text(self.paths[i].as_str(), path) {
                let ghost before = kept@;
                let p = self.paths[i].clone();
                kept.push(p);
                assert(string_views(kept@) =~= string_views(before).push(p@));
            }
            i += 1;
        }
        proof {
            assert(all.take(i as int) =~= all);
            lemma_without_path_contains(all, path@, path@);
            lemma_without_path_distinct(all, path@);
        }
        self.paths = kept;
    }
}

} // verus!
