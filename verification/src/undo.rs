//! Backups and the ledger of change sets, by which a batch is undone.

use vstd::prelude::*;
use vstd::string::StringExecFns;
use crate::stamp::{current_timestamp, fresh_id};
use crate::text::same_text;
use crate::xml::change::{ChangeAction, FileChange, FileChangeView};

verus! {

/// A file and the copy that was made of it.
#[derive(Debug, PartialEq, Eq)]
pub struct BackupFile {
    pub original_path: String,
    pub backup_path: String,
}

/// A `BackupFile` as plain sequences of characters.
pub struct BackupFileView {
    pub original_path: Seq<char>,
    pub backup_path: Seq<char>,
}

impl View for BackupFile {
    type V = BackupFileView;

    open spec fn view(&self) -> BackupFileView {
        BackupFileView { original_path: self.original_path@, backup_path: self.backup_path@ }
    }
}

impl Clone for BackupFile {
    fn clone(&self) -> (r: Self)
        ensures
            r@ == self@,
    {
        BackupFile {
            original_path: self.original_path.clone(),
            backup_path: self.backup_path.clone(),
        }
    }
}

/// The views of a sequence of backups.
pub open spec fn backup_views(s: Seq<BackupFile>) -> Seq<BackupFileView> {
    s.map_values(|b: BackupFile| b@)
}

/// The backups made for one batch.
#[derive(Debug, PartialEq, Eq)]
pub struct ChangeSet {
    pub id: String,
    pub backups: Vec<BackupFile>,
    pub timestamp: i64,
    pub description: String,
}

/// A `ChangeSet` as plain values.
pub struct ChangeSetView {
    pub id: Seq<char>,
    pub backups: Seq<BackupFileView>,
    pub timestamp: i64,
    pub description: Seq<char>,
}

impl View for ChangeSet {
    type V = ChangeSetView;

    open spec fn view(&self) -> ChangeSetView {
        ChangeSetView {
            id: self.id@,
            backups: backup_views(self.backups@),
            timestamp: self.timestamp,
            description: self.description@,
        }
    }
}

/// The views of a sequence of change sets.
pub open spec fn change_set_views(s: Seq<ChangeSet>) -> Seq<ChangeSetView> {
    s.map_values(|c: ChangeSet| c@)
}

impl Clone for ChangeSet {
    fn clone(&self) -> (r: Self)
        ensures
            r@ == self@,
    {
        let mut backups: Vec<BackupFile> = Vec::new();
        let mut i: usize = 0;
        while i < self.backups.len()
            invariant
                i <= self.backups.len(),
                backup_views(backups@) == backup_views(self.backups@).take(i as int),
            decreases self.backups.len() - i,
        {
            let ghost before = backups@;
            let b = self.backups[i].clone();
            backups.push(b);
            assert(backup_views(backups@) =~= backup_views(before).push(b@));
            assert(backup_views(self.backups@).take(i + 1) =~= backup_views(self.backups@).take(
                i as int,
            ).push(self.backups@[i as int]@));
            i += 1;
        }
        assert(backup_views(self.backups@).take(i as int) == backup_views(self.backups@));
        ChangeSet {
            id: self.id.clone(),
            backups,
            timestamp: self.timestamp,
            description: self.description.clone(),
        }
    }
}

/// The first backup of `backups` that was made of the file at `path`.
pub open spec fn backup_of(backups: Seq<BackupFileView>, path: Seq<char>) -> Option<
    BackupFileView,
>
    decreases backups.len(),
{
    if backups.len() == 0 {
        None
    } else if backups[0].original_path == path {
        Some(backups[0])
    } else {
        backup_of(backups.skip(1), path)
    }
}

/// What a batch has to do for one of its file changes before it is applied.
#[derive(Clone, Copy, Debug, PartialEq, Eq, Structural)]
pub enum BackupStep {
    /// Nothing: the file change creates its file.
    Nothing,
    /// The file must exist; a copy of it was made before.
    Check,
    /// The file must exist, and a copy of it is to be made and recorded.
    Copy,
}

impl ChangeSetView {
    /// A new change set holds no backup.
    pub open spec fn new(id: Seq<char>, timestamp: i64, description: Seq<char>) -> ChangeSetView {
        ChangeSetView { id, backups: Seq::empty(), timestamp, description }
    }

    /// Whether a copy of the file at `path` has been recorded.
    pub open spec fn has_backup(self, path: Seq<char>) -> bool {
        backup_of(self.backups, path) is Some
    }

    /// What has to be done for `file_change` before it is applied. A
    /// `Create` never has a copy made; of a path that occurs twice one copy
    /// is made.
    pub open spec fn backup_step(self, file_change: FileChangeView) -> BackupStep {
        if file_change.action == ChangeAction::Create {
            BackupStep::Nothing
        } else if self.has_backup(file_change.path) {
            BackupStep::Check
        } else {
            BackupStep::Copy
        }
    }

    /// The change set with one more backup at its end.
    pub open spec fn with_backup(self, original_path: Seq<char>, backup_path: Seq<char>)
        -> ChangeSetView {
        ChangeSetView {
            backups: self.backups.push(BackupFileView { original_path, backup_path }),
            ..self
        }
    }
}

/// A change set without backups, with a fresh identifier and the time of
/// the call.
pub fn create_change_set(description: &str) -> (r: ChangeSet)
    ensures
        r@ == ChangeSetView::new(r@.id, r@.timestamp, description@),
{
    ChangeSet::new(fresh_id(), current_timestamp(), description)
}

/// The name of the copy of a file named `file_name`, made under the
/// identifier `id`: the identifier, a hyphen, the file's name.
pub open spec fn backup_name(id: Seq<char>, file_name: Seq<char>) -> Seq<char> {
    id + seq!['-'] + file_name
}

/// The name under which a file named `file_name` is copied: a fresh
/// identifier, a hyphen, the file's name.
pub fn backup_file_name(file_name: &str) -> (r: String)
    ensures
        exists|id: Seq<char>| r@ == backup_name(id, file_name@),
{
    let id = fresh_id();
    let r = backup_file_name_with(id.as_str(), file_name);
    assert(r@ == backup_name(id@, file_name@));
    r
}

/// The name of the copy of a file named `file_name`, made under `id`.
pub fn backup_file_name_with(id: &str, file_name: &str) -> (r: String)
    ensures
        r@ == backup_name(id@, file_name@),
{
    let mut r = String::from_str(id);
    r.push('-');
    r.append(file_name);
    r
}

impl ChangeSet {
    /// A change set without backups.
    pub fn new(id: String, timestamp: i64, description: &str) -> (r: ChangeSet)
        ensures
            r@ == ChangeSetView::new(id@, timestamp, description@),
    {
        let r = ChangeSet {
            id,
            backups: Vec::new(),
            timestamp,
            description: String::from_str(description),
        };
        assert(r@.backups =~= Seq::empty());
        r
    }

    /// The first backup that was made of the file at `path`.
    pub fn backup_for(&self, path: &str) -> (r: Option<&BackupFile>)
        ensures
            match r {
                Some(b) => backup_of(self@.backups, path@) == Some(b@),
                None => backup_of(self@.backups, path@) is None,
            },
    {
        let mut i: usize = 0;
        assert(self@.backups.skip(0) == self@.backups);
        while i < self.backups.len()
            invariant
                i <= self.backups.len(),
                backup_of(self@.backups.skip(i as int), path@) == backup_of(self@.backups, path@),
            decreases self.backups.len() - i,
        {
            proof {
                let rest = self@.backups.skip(i as int);
                assert(rest[0] == self.backups@[i as int]@);
                assert(rest.skip(1) == self@.backups.skip(i + 1));
            }
            if same_text(self.backups[i].original_path.as_str(), path) {
                return Some(&self.backups[i]);
            }
            i += 1;
        }
        None
    }

    /// What has to be done for `file_change` before it is applied.
    pub fn backup_step(&self, file_change: &FileChange) -> (r: BackupStep)
        ensures
            r == self@.backup_step(file_change@),
            file_change@.action == ChangeAction::Create ==> r == BackupStep::Nothing,
    {
        match file_change.action {
            ChangeAction::Create => BackupStep::Nothing,
            _ => {
                if self.backup_for(file_change.path.as_str()).is_some() {
                    BackupStep::Check
                } else {
                    BackupStep::Copy
                }
            },
        }
    }

    /// Records that the file at `original_path` was copied to `backup_path`.
    pub fn record(&mut self, original_path: &str, backup_path: String)
        ensures
            final(self)@ == old(self)@.with_backup(original_path@, backup_path@),
    {
        let ghost before = self.backups@;
        let backup = BackupFile { original_path: String::from_str(original_path), backup_path };
        self.backups.push(backup);
        assert(backup_views(self.backups@) =~= backup_views(before).push(backup@));
    }

    /// Whether the change set is worth keeping: it holds a backup.
    pub fn is_worth_saving(&self) -> (r: bool)
        ensures
            r == (self@.backups.len() > 0),
    {
        self.backups.len() > 0
    }
}

/// The ledger: the change sets of the batches applied so far, oldest first.
#[derive(Debug, PartialEq, Eq)]
pub struct UndoHistory {
    pub change_sets: Vec<ChangeSet>,
}

impl View for UndoHistory {
    type V = Seq<ChangeSetView>;

    open spec fn view(&self) -> Seq<ChangeSetView> {
        change_set_views(self.change_sets@)
    }
}

/// No change set of the ledger is without a backup.
pub open spec fn no_empty_set(sets: Seq<ChangeSetView>) -> bool {
    forall|i: int| 0 <= i < sets.len() ==> (#[trigger] sets[i]).backups.len() > 0
}

/// The ledger after a batch with the change set `set`: the set is appended
/// if it holds a backup, and dropped if it holds none.
pub open spec fn saved(sets: Seq<ChangeSetView>, set: ChangeSetView) -> Seq<ChangeSetView> {
    if set.backups.len() > 0 {
        sets.push(set)
    } else {
        sets
    }
}

/// The backup to restore for the file at `path`: the first one of the most
/// recent change set that holds one.
pub open spec fn latest_backup(sets: Seq<ChangeSetView>, path: Seq<char>) -> Option<
    BackupFileView,
>
    decreases sets.len(),
{
    if sets.len() == 0 {
        None
    } else {
        match backup_of(sets.last().backups, path) {
            Some(b) => Some(b),
            None => latest_backup(sets.drop_last(), path),
        }
    }
}

impl UndoHistory {
    /// The ledger before the first batch.
    pub fn new() -> (r: UndoHistory)
        ensures
            r@ == Seq::<ChangeSetView>::empty(),
    {
        let r = UndoHistory { change_sets: Vec::new() };
        assert(r@ =~= Seq::empty());
        r
    }

    /// Appends a copy of `change_set`, unless it holds no backup. Says
    /// whether the ledger has changed and so has to be stored.
    pub fn save_change_set(&mut self, change_set: &ChangeSet) -> (changed: bool)
        ensures
            final(self)@ == saved(old(self)@, change_set@),
            changed == (change_set@.backups.len() > 0),
            no_empty_set(old(self)@) ==> no_empty_set(final(self)@),
    {
        if change_set.backups.len() == 0 {
            return false;
        }
        let ghost before = self.change_sets@;
        let copy = change_set.clone();
        self.change_sets.push(copy);
        assert(change_set_views(self.change_sets@) =~= change_set_views(before).push(copy@));
        true
    }

    /// Takes the most recent change set off the ledger. On an empty ledger
    /// there is nothing to undo, and nothing changes.
    pub fn pop_last(&mut self) -> (r: Option<ChangeSet>)
        ensures
            old(self)@.len() == 0 ==> r is None && final(self)@ == old(self)@,
            old(self)@.len() > 0 ==> (r matches Some(set) && set@ == old(self)@.last()
                && final(self)@ == old(self)@.drop_last()),
            no_empty_set(old(self)@) ==> no_empty_set(final(self)@),
    {
        let ghost before = self.change_sets@;
        let r = self.change_sets.pop();
        proof {
            if before.len() > 0 {
                assert(change_set_views(self.change_sets@) =~= change_set_views(
                    before,
                ).drop_last());
            }
        }
        r
    }

    /// The backup to restore for the file at `path`, if the ledger holds
    /// one. The ledger stays as it is.
    pub fn backup_for(&self, path: &str) -> (r: Option<&BackupFile>)
        ensures
            match r {
                Some(b) => latest_backup(self@, path@) == Some(b@),
                None => latest_backup(self@, path@) is None,
            },
    {
        let mut i: usize = self.change_sets.len();
        assert(self@.take(i as int) == self@);
        while i > 0
            invariant
                i <= self.change_sets.len(),
                latest_backup(self@.take(i as int), path@) == latest_backup(self@, path@),
            decreases i,
        {
            proof {
                let init = self@.take(i as int);
                assert(init.last() == self.change_sets@[i - 1]@);
                assert(init.drop_last() == self@.take(i - 1));
            }
            match self.change_sets[i - 1].backup_for(path) {
                Some(b) => {
                    return Some(b);
                },
                None => {},
            }
            i -= 1;
        }
        None
    }
}

/// The first backup for a path among backups with one more at their end:
/// the one found before, else the new one if it is for the path.
pub proof fn lemma_backup_of_push(backups: Seq<BackupFileView>, new: BackupFileView, path: Seq<char>)
    ensures
        backup_of(backups.push(new), path) == match backup_of(backups, path) {
            Some(b) => Some(b),
            None => if new.original_path == path {
                Some(new)
            } else {
                None
            },
        },
    decreases backups.len(),
{
    let all = backups.push(new);
    if backups.len() == 0 {
        assert(all[0] == new);
        assert(all.skip(1).len() == 0);
        assert(backup_of(all.skip(1), path) is None);
    } else {
        assert(all[0] == backups[0]);
        assert(all.skip(1) =~= backups.skip(1).push(new));
        lemma_backup_of_push(backups.skip(1), new, path);
    }
}

/// No two backups of `backups` are of the same file.
pub open spec fn one_backup_each(backups: Seq<BackupFileView>) -> bool {
    forall|i: int, j: int|
        0 <= i < j < backups.len() ==> (#[trigger] backups[i]).original_path != (
        #[trigger] backups[j]).original_path
}

/// A change set that records a copy only where `backup_step` asks for one
/// holds one backup for each file, and asks for no second copy of a file
/// that it has recorded.
pub proof fn lemma_one_backup_each(set: ChangeSetView, change: FileChangeView, backup_path: Seq<char>)
    requires
        set.backup_step(change) == BackupStep::Copy,
    ensures
        one_backup_each(set.backups) ==> one_backup_each(
            set.with_backup(change.path, backup_path).backups,
        ),
        set.with_backup(change.path, backup_path).has_backup(change.path),
        change.action != ChangeAction::Create,
        set.with_backup(change.path, backup_path).backup_step(change) == BackupStep::Check,
{
    let new = BackupFileView { original_path: change.path, backup_path };
    let after = set.with_backup(change.path, backup_path).backups;
    lemma_backup_of_push(set.backups, new, change.path);
    lemma_backup_of(set.backups, change.path);
    if one_backup_each(set.backups) {
        assert forall|i: int, j: int| 0 <= i < j < after.len() implies (
        #[trigger] after[i]).original_path != (#[trigger] after[j]).original_path by {
            if j < set.backups.len() {
                assert(after[i] == set.backups[i] && after[j] == set.backups[j]);
            } else {
                assert(after[i] == set.backups[i]);
            }
        }
    }
}

/// A ledger that has taken a change set with a backup gives it back first,
/// and is then as it was before.
pub proof fn lemma_saved_then_popped(sets: Seq<ChangeSetView>, set: ChangeSetView)
    requires
        set.backups.len() > 0,
    ensures
        saved(sets, set).len() == sets.len() + 1,
        saved(sets, set).last() == set,
        saved(sets, set).drop_last() == sets,
{
    assert(sets.push(set).drop_last() =~= sets);
}

/// The first backup of `backups` for `path` is a backup of the file at
/// `path`, and no backup before it is; there is none where no backup is.
pub proof fn lemma_backup_of(backups: Seq<BackupFileView>, path: Seq<char>)
    ensures
        match backup_of(backups, path) {
            Some(b) => exists|i: int|
                0 <= i < backups.len() && #[trigger] backups[i] == b && b.original_path == path
                    && forall|j: int| 0 <= j < i ==> (#[trigger] backups[j]).original_path != path,
            None => forall|j: int|
                0 <= j < backups.len() ==> (#[trigger] backups[j]).original_path != path,
        },
    decreases backups.len(),
{
    if backups.len() > 0 && backups[0].original_path != path {
        let rest = backups.skip(1);
        lemma_backup_of(rest, path);
        match backup_of(rest, path) {
            Some(b) => {
                let i = choose|i: int|
                    0 <= i < rest.len() && #[trigger] rest[i] == b && b.original_path == path
                        && forall|j: int| 0 <= j < i ==> (#[trigger] rest[j]).original_path != path;
                assert(backups[i + 1] == b);
                assert forall|j: int| 0 <= j < i + 1 implies (#[trigger] backups[j]).original_path
                    != path by {
                    if j > 0 {
                        assert(rest[j - 1] == backups[j]);
                    }
                }
            },
            None => {
                assert forall|j: int| 0 <= j < backups.len() implies (
                #[trigger] backups[j]).original_path != path by {
                    if j > 0 {
                        assert(rest[j - 1] == backups[j]);
                    }
                }
            },
        }
    } else if backups.len() > 0 {
        assert(backups[0] == backups[0]);
    }
}

/// The backup that is restored for a path comes from the most recent change
/// set that holds one for it: it is the first such backup of that set, and
/// no later set holds one. Where no set holds one, there is none.
pub proof fn lemma_latest_backup(sets: Seq<ChangeSetView>, path: Seq<char>)
    ensures
        match latest_backup(sets, path) {
            Some(b) => exists|i: int|
                0 <= i < sets.len() && backup_of((#[trigger] sets[i]).backups, path) == Some(b)
                    && forall|j: int|
                    i < j < sets.len() ==> backup_of((#[trigger] sets[j]).backups, path) is None,
            None => forall|j: int|
                0 <= j < sets.len() ==> backup_of((#[trigger] sets[j]).backups, path) is None,
        },
    decreases sets.len(),
{
    if sets.len() > 0 {
        let init = sets.drop_last();
        match backup_of(sets.last().backups, path) {
            Some(b) => {
                assert(sets[sets.len() - 1] == sets.last());
            },
            None => {
                lemma_latest_backup(init, path);
                match latest_backup(init, path) {
                    Some(b) => {
                        let i = choose|i: int|
                            0 <= i < init.len() && backup_of((#[trigger] init[i]).backups, path)
                                == Some(b) && forall|j: int|
                                i < j < init.len() ==> backup_of(
                                    (#[trigger] init[j]).backups,
                                    path,
                                ) is None;
                        assert(sets[i] == init[i]);
                        assert forall|j: int| i < j < sets.len() implies backup_of(
                            (#[trigger] sets[j]).backups,
                            path,
                        ) is None by {
                            if j < init.len() {
                                assert(init[j] == sets[j]);
                            }
                        }
                    },
                    None => {
                        assert forall|j: int| 0 <= j < sets.len() implies backup_of(
                            (#[trigger] sets[j]).backups,
                            path,
                        ) is None by {
                            if j < init.len() {
                                assert(init[j] == sets[j]);
                            }
                        }
                    },
                }
            },
        }
    }
}

/// The files after a copy has been made of the file at `path` under the
/// name `backup_path`, where `files` gives the text of each file by its
/// path.
pub open spec fn backed_up(files: Map<Seq<char>, Seq<char>>, path: Seq<char>, backup_path: Seq<char>)
    -> Map<Seq<char>, Seq<char>> {
    files.insert(backup_path, files[path])
}

/// The files after the copies that `backups` names have been put back in
/// the places of their files, in the order of `backups`.
pub open spec fn restored(files: Map<Seq<char>, Seq<char>>, backups: Seq<BackupFileView>) -> Map<
    Seq<char>,
    Seq<char>,
>
    decreases backups.len(),
{
    if backups.len() == 0 {
        files
    } else {
        restored(
            files.insert(backups[0].original_path, files[backups[0].backup_path]),
            backups.skip(1),
        )
    }
}

/// After a batch with one `Modify` that went well, undoing the batch gives
/// the file the text it had before, and the ledger is as it was before the
/// batch.
pub proof fn lemma_undo_restores(
    files: Map<Seq<char>, Seq<char>>,
    sets: Seq<ChangeSetView>,
    set: ChangeSetView,
    change: FileChangeView,
    backup_path: Seq<char>,
)
    requires
        change.action == ChangeAction::Modify,
        files.contains_key(change.path),
        backup_path != change.path,
        set.backups.len() == 0,
        change.applied_to(backed_up(files, change.path, backup_path)) is Ok,
    ensures
        set.backup_step(change) == BackupStep::Copy,
        ({
            let recorded = set.with_backup(change.path, backup_path);
            let after = change.applied_to(backed_up(files, change.path, backup_path))->Ok_0;
            let ledger = saved(sets, recorded);
            &&& ledger.len() == sets.len() + 1
            &&& ledger.last() == recorded
            &&& ledger.drop_last() == sets
            &&& restored(after, ledger.last().backups)[change.path] == files[change.path]
            &&& restored(after, ledger.last().backups).contains_key(change.path)
        }),
{
    let recorded = set.with_backup(change.path, backup_path);
    let copied = backed_up(files, change.path, backup_path);
    let after = change.applied_to(copied)->Ok_0;
    lemma_saved_then_popped(sets, recorded);
    let b = BackupFileView { original_path: change.path, backup_path };
    assert(recorded.backups =~= seq![b]);
    assert(recorded.backups.skip(1).len() == 0);
    assert(after[backup_path] == files[change.path]);
    let back = after.insert(change.path, after[backup_path]);
    assert(restored(back, recorded.backups.skip(1)) == back);
}

} // verus!
