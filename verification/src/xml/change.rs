//! The records of the edit protocol.

use vstd::prelude::*;

verus! {

/// What is done to a file.
#[derive(Clone, Copy, Debug, PartialEq, Eq, Structural)]
pub enum ChangeAction {
    Create,
    Rewrite,
    Modify,
    Delete,
}

/// One edit: what to look for and what to put in its place.
#[derive(Debug, PartialEq, Eq)]
pub struct Change {
    pub description: String,
    pub search: Option<String>,
    pub content: String,
}

/// A `Change` as plain sequences of characters.
pub struct ChangeView {
    pub description: Seq<char>,
    pub search: Option<Seq<char>>,
    pub content: Seq<char>,
}

impl View for Change {
    type V = ChangeView;

    open spec fn view(&self) -> ChangeView {
        ChangeView {
            description: self.description@,
            search: match self.search {
                Some(s) => Some(s@),
                None => None,
            },
            content: self.content@,
        }
    }
}

impl Clone for Change {
    fn clone(&self) -> (r: Self)
        ensures
            r@ == self@,
    {
        Change {
            description: self.description.clone(),
            search: match &self.search {
                Some(s) => Some(s.clone()),
                None => None,
            },
            content: self.content.clone(),
        }
    }
}

impl Change {
    /// A change with nothing in it.
    pub fn empty() -> (r: Change)
        ensures
            r@ == ChangeView::empty(),
    {
        Change { description: String::new(), search: None, content: String::new() }
    }
}

impl ChangeView {
    /// A change with nothing in it.
    pub open spec fn empty() -> ChangeView {
        ChangeView { description: Seq::empty(), search: None, content: Seq::empty() }
    }
}

/// The edits of one file, in the order in which they are applied.
#[derive(Debug, PartialEq, Eq)]
pub struct FileChange {
    pub path: String,
    pub action: ChangeAction,
    pub changes: Vec<Change>,
}

/// A `FileChange` as plain values.
pub struct FileChangeView {
    pub path: Seq<char>,
    pub action: ChangeAction,
    pub changes: Seq<ChangeView>,
}

/// The views of a sequence of changes.
pub open spec fn change_views(s: Seq<Change>) -> Seq<ChangeView> {
    s.map_values(|c: Change| c@)
}

/// The views of a sequence of file changes.
pub open spec fn file_change_views(s: Seq<FileChange>) -> Seq<FileChangeView> {
    s.map_values(|f: FileChange| f@)
}

impl View for FileChange {
    type V = FileChangeView;

    open spec fn view(&self) -> FileChangeView {
        FileChangeView {
            path: self.path@,
            action: self.action,
            changes: change_views(self.changes@),
        }
    }
}

impl Clone for FileChange {
    fn clone(&self) -> (r: Self)
        ensures
            r@ == self@,
    {
        let mut changes: Vec<Change> = Vec::new();
        let mut i: usize = 0;
        while i < self.changes.len()
            invariant
                i <= self.changes.len(),
                change_views(changes@) == change_views(self.changes@).take(i as int),
            decreases self.changes.len() - i,
        {
            let ghost before = changes@;
            let c = self.changes[i].clone();
            changes.push(c);
            assert(change_views(changes@) =~= change_views(before).push(c@));
            assert(change_views(self.changes@).take(i + 1) =~= change_views(self.changes@).take(
                i as int,
            ).push(self.changes@[i as int]@));
            i += 1;
        }
        assert(change_views(self.changes@).take(i as int) == change_views(self.changes@));
        FileChange { path: self.path.clone(), action: self.action, changes }
    }
}

/// How one file change went.
#[derive(Debug, PartialEq, Eq)]
pub struct ChangeResult {
    pub path: String,
    pub action: ChangeAction,
    pub success: bool,
    pub message: Option<String>,
}

/// A `ChangeResult` as plain values.
pub struct ChangeResultView {
    pub path: Seq<char>,
    pub action: ChangeAction,
    pub success: bool,
    pub message: Option<Seq<char>>,
}

impl View for ChangeResult {
    type V = ChangeResultView;

    open spec fn view(&self) -> ChangeResultView {
        ChangeResultView {
            path: self.path@,
            action: self.action,
            success: self.success,
            message: match self.message {
                Some(m) => Some(m@),
                None => None,
            },
        }
    }
}

} // verus!
