//! Workspaces: named groups of folders.

use vstd::prelude::*;
use vstd::string::StringExecFns;
use crate::stamp::{current_timestamp, fresh_id};
use crate::text::same_text;

verus! {

/// A folder of a workspace.
#[derive(Debug, PartialEq, Eq)]
pub struct WorkspaceFolder {
    pub id: String,
    pub path: String,
    pub name: String,
}

/// A `WorkspaceFolder` as plain sequences of characters.
pub struct WorkspaceFolderView {
    pub id: Seq<char>,
    pub path: Seq<char>,
    pub name: Seq<char>,
}

impl View for WorkspaceFolder {
    type V = WorkspaceFolderView;

    open spec fn view(&self) -> WorkspaceFolderView {
        WorkspaceFolderView { id: self.id@, path: self.path@, name: self.name@ }
    }
}

impl Clone for WorkspaceFolder {
    fn clone(&self) -> (r: Self)
        ensures
            r@ == self@,
    {
        WorkspaceFolder { id: self.id.clone(), path: self.path.clone(), name: self.name.clone() }
    }
}

/// The views of a sequence of folders.
pub open spec fn folder_views(s: Seq<WorkspaceFolder>) -> Seq<WorkspaceFolderView> {
    s.map_values(|f: WorkspaceFolder| f@)
}

/// A workspace.
#[derive(Debug, PartialEq, Eq)]
pub struct Workspace {
    pub id: String,
    pub name: String,
    pub folders: Vec<WorkspaceFolder>,
    pub created_at: i64,
    pub updated_at: i64,
}

/// A `Workspace` as plain values.
pub struct WorkspaceView {
    pub id: Seq<char>,
    pub name: Seq<char>,
    pub folders: Seq<WorkspaceFolderView>,
    pub created_at: i64,
    pub updated_at: i64,
}

impl View for Workspace {
    type V = WorkspaceView;

    open spec fn view(&self) -> WorkspaceView {
        WorkspaceView {
            id: self.id@,
            name: self.name@,
            folders: folder_views(self.folders@),
            created_at: self.created_at,
            updated_at: self.updated_at,
        }
    }
}

/// The views of a sequence of workspaces.
pub open spec fn workspace_views(s: Seq<Workspace>) -> Seq<WorkspaceView> {
    s.map_values(|w: Workspace| w@)
}

/// A copy of `folders`.
fn clone_folders(folders: &Vec<WorkspaceFolder>) -> (r: Vec<WorkspaceFolder>)
    ensures
        folder_views(r@) == folder_views(folders@),
{
    let mut r: Vec<WorkspaceFolder> = Vec::new();
    let mut i: usize = 0;
    while i < folders.len()
        invariant
            i <= folders.len(),
            folder_views(r@) == folder_views(folders@).take(i as int),
        decreases folders.len() - i,
    {
        let ghost before = r@;
        let f = folders[i].clone();
        r.push(f);
        assert(folder_views(r@) =~= folder_views(before).push(f@));
        assert(folder_views(folders@).take(i + 1) =~= folder_views(folders@).take(i as int).push(
            folders@[i as int]@,
        ));
        i += 1;
    }
    assert(folder_views(folders@).take(i as int) == folder_views(folders@));
    r
}

impl Clone for Workspace {
    fn clone(&self) -> (r: Self)
        ensures
            r@ == self@,
    {
        Workspace {
            id: self.id.clone(),
            name: self.name.clone(),
            folders: clone_folders(&self.folders),
            created_at: self.created_at,
            updated_at: self.updated_at,
        }
    }
}

/// Why a workspace cannot be changed or read.
#[derive(Clone, Copy, Debug, PartialEq, Eq, Structural)]
pub enum WorkspaceError {
    /// No workspace has the identifier.
    WorkspaceNotFound,
    /// The workspace has no folder with the identifier.
    FolderNotFound,
}

impl WorkspaceError {
    /// The error in words.
    pub fn message(&self) -> (r: String)
        ensures
            r@ == (match *self {
                WorkspaceError::WorkspaceNotFound => "Workspace not found"@,
                WorkspaceError::FolderNotFound => "Folder not found"@,
            }),
    {
        match self {
            WorkspaceError::WorkspaceNotFound => String::from_str("Workspace not found"),
            WorkspaceError::FolderNotFound => String::from_str("Folder not found"),
        }
    }
}

/// The index of the first workspace of `list` with the identifier `id`, or
/// the length of `list` where none has it.
pub open spec fn workspace_index(list: Seq<WorkspaceView>, id: Seq<char>) -> int
    decreases list.len(),
{
    if list.len() == 0 {
        0
    } else if list[0].id == id {
        0
    } else {
        1 + workspace_index(list.skip(1), id)
    }
}

/// The index of the first folder of `list` with the identifier `id`, or the
/// length of `list` where none has it.
pub open spec fn folder_index(list: Seq<WorkspaceFolderView>, id: Seq<char>) -> int
    decreases list.len(),
{
    if list.len() == 0 {
        0
    } else if list[0].id == id {
        0
    } else {
        1 + folder_index(list.skip(1), id)
    }
}

/// `list` without the workspaces that have the identifier `id`.
pub open spec fn without_workspace(list: Seq<WorkspaceView>, id: Seq<char>) -> Seq<WorkspaceView>
    decreases list.len(),
{
    if list.len() == 0 {
        list
    } else if list.last().id == id {
        without_workspace(list.drop_last(), id)
    } else {
        without_workspace(list.drop_last(), id).push(list.last())
    }
}

/// `list` without the folders that have the identifier `id`.
pub open spec fn without_folder(list: Seq<WorkspaceFolderView>, id: Seq<char>) -> Seq<
    WorkspaceFolderView,
>
    decreases list.len(),
{
    if list.len() == 0 {
        list
    } else if list.last().id == id {
        without_folder(list.drop_last(), id)
    } else {
        without_folder(list.drop_last(), id).push(list.last())
    }
}

/// The index found by going through `list` is the one `workspace_index` names.
proof fn lemma_workspace_index(list: Seq<WorkspaceView>, id: Seq<char>, n: int)
    requires
        0 <= n <= list.len(),
        forall|j: int| 0 <= j < n ==> (#[trigger] list[j]).id != id,
        n < list.len() ==> list[n].id == id,
    ensures
        workspace_index(list, id) == n,
    decreases n,
{
    if n > 0 {
        let t = list.skip(1);
        assert forall|j: int| 0 <= j < n - 1 implies (#[trigger] t[j]).id != id by {
            assert(t[j] == list[j + 1]);
        }
        lemma_workspace_index(t, id, n - 1);
    }
}

/// The index found by going through `list` is the one `folder_index` names.
proof fn lemma_folder_index(list: Seq<WorkspaceFolderView>, id: Seq<char>, n: int)
    requires
        0 <= n <= list.len(),
        forall|j: int| 0 <= j < n ==> (#[trigger] list[j]).id != id,
        n < list.len() ==> list[n].id == id,
    ensures
        folder_index(list, id) == n,
    decreases n,
{
    if n > 0 {
        let t = list.skip(1);
        assert forall|j: int| 0 <= j < n - 1 implies (#[trigger] t[j]).id != id by {
            assert(t[j] == list[j + 1]);
        }
        lemma_folder_index(t, id, n - 1);
    }
}

/// The index of the first workspace with the identifier `id`, or the length
/// of `list`.
pub fn find_workspace(list: &Vec<Workspace>, id: &str) -> (n: usize)
    ensures
        n == workspace_index(workspace_views(list@), id@),
        n <= list.len(),
{
    let mut n: usize = 0;
    while n < list.len()
        invariant
            n <= list.len(),
            forall|j: int| 0 <= j < n ==> (#[trigger] workspace_views(list@)[j]).id != id@,
        decreases list.len() - n,
    {
        if same_text(list[n].id.as_str(), id) {
            proof {
                lemma_workspace_index(workspace_views(list@), id@, n as int);
            }
            return n;
        }
        n += 1;
    }
    proof {
        lemma_workspace_index(workspace_views(list@), id@, n as int);
    }
    n
}

/// The index of the first folder with the identifier `id`, or the length of
/// `list`.
pub fn find_folder(list: &Vec<WorkspaceFolder>, id: &str) -> (n: usize)
    ensures
        n == folder_index(folder_views(list@), id@),
        n <= list.len(),
{
    let mut n: usize = 0;
    while n < list.len()
        invariant
            n <= list.len(),
            forall|j: int| 0 <= j < n ==> (#[trigger] folder_views(list@)[j]).id != id@,
        decreases list.len() - n,
    {
        if same_text(list[n].id.as_str(), id) {
            proof {
                lemma_folder_index(folder_views(list@), id@, n as int);
            }
            return n;
        }
        n += 1;
    }
    proof {
        lemma_folder_index(folder_views(list@), id@, n as int);
    }
    n
}

impl WorkspaceView {
    /// A workspace without folders, made at the time `now`.
    pub open spec fn new(id: Seq<char>, name: Seq<char>, now: i64) -> WorkspaceView {
        WorkspaceView { id, name, folders: Seq::empty(), created_at: now, updated_at: now }
    }
}

impl Workspace {
    /// A workspace without folders, made at the time `now`.
    pub fn new(id: String, name: &str, now: i64) -> (r: Workspace)
        ensures
            r@ == WorkspaceView::new(id@, name@, now),
    {
        let r = Workspace {
            id,
            name: String::from_str(name),
            folders: Vec::new(),
            created_at: now,
            updated_at: now,
        };
        assert(r@.folders =~= Seq::empty());
        r
    }
}

/// Adds a new workspace named `name` to the end of `list` and returns a
/// copy of it. Its identifier is fresh and its times are that of the call.
pub fn create_workspace(list: &mut Vec<Workspace>, name: &str) -> (r: Workspace)
    ensures
        r@ == WorkspaceView::new(r@.id, name@, r@.created_at),
        workspace_views(final(list)@) == workspace_views(old(list)@).push(r@),
{
    add_workspace(list, Workspace::new(fresh_id(), name, current_timestamp()))
}

/// Adds `workspace` to the end of `list` and returns a copy of it.
pub fn add_workspace(list: &mut Vec<Workspace>, workspace: Workspace) -> (r: Workspace)
    ensures
        r@ == workspace@,
        workspace_views(final(list)@) == workspace_views(old(list)@).push(workspace@),
{
    let ghost before = list@;
    let copy = workspace.clone();
    list.push(workspace);
    assert(workspace_views(list@) =~= workspace_views(before).push(workspace@));
    copy
}

/// Puts `workspace` in the place `n` of `list`.
fn replace_workspace(list: &mut Vec<Workspace>, n: usize, workspace: Workspace)
    requires
        n < old(list).len(),
    ensures
        workspace_views(final(list)@) == workspace_views(old(list)@).update(n as int, workspace@),
{
    let ghost before = list@;
    list.set(n, workspace);
    assert(workspace_views(list@) =~= workspace_views(before).update(n as int, workspace@));
}

/// Gives the first workspace with the identifier `id` the name `name` and
/// the time of the call as its time of change, and returns a copy of it.
pub fn update_workspace(list: &mut Vec<Workspace>, id: &str, name: &str) -> (r: Result<
    Workspace,
    WorkspaceError,
>)
    ensures
        rename_outcome(workspace_views(old(list)@), workspace_views(final(list)@), id@, name@, r),
{
    rename_workspace(list, id, name, current_timestamp())
}

/// What renaming the workspace `id` of `before` to `name` leaves: `after`,
/// and `r` returned.
pub open spec fn rename_outcome(
    before: Seq<WorkspaceView>,
    after: Seq<WorkspaceView>,
    id: Seq<char>,
    name: Seq<char>,
    r: Result<Workspace, WorkspaceError>,
) -> bool {
    let n = workspace_index(before, id);
    if n < before.len() {
        r matches Ok(w) && w@ == (WorkspaceView { name, updated_at: w@.updated_at, ..before[n] })
            && after == before.update(n, w@)
    } else {
        r == Err::<Workspace, WorkspaceError>(WorkspaceError::WorkspaceNotFound) && after == before
    }
}

/// Gives the first workspace with the identifier `id` the name `name` and
/// the time of change `now`, and returns a copy of it.
pub fn rename_workspace(list: &mut Vec<Workspace>, id: &str, name: &str, now: i64) -> (r: Result<
    Workspace,
    WorkspaceError,
>)
    ensures
        rename_outcome(workspace_views(old(list)@), workspace_views(final(list)@), id@, name@, r),
        r matches Ok(w) ==> w@.updated_at == now,
{
    let n = find_workspace(list, id);
    if n >= list.len() {
        return Err(WorkspaceError::WorkspaceNotFound);
    }
    let renamed = Workspace {
        id: list[n].id.clone(),
        name: String::from_str(name),
        folders: clone_folders(&list[n].folders),
        created_at: list[n].created_at,
        updated_at: now,
    };
    let copy = renamed.clone();
    replace_workspace(list, n, renamed);
    Ok(copy)
}

/// Removes every workspace with the identifier `id`.
pub fn delete_workspace(list: &mut Vec<Workspace>, id: &str)
    ensures
        workspace_views(final(list)@) == without_workspace(workspace_views(old(list)@), id@),
{
    let ghost before = workspace_views(list@);
    let mut i: usize = 0;
    let ghost mut k: int = 0;
    assert(before.take(0) =~= Seq::empty());
    assert(workspace_views(list@).take(0) =~= Seq::empty());
    assert(before.skip(0) =~= before);
    while i < list.len()
        invariant
            0 <= k <= before.len(),
            i <= list.len(),
            list.len() - i == before.len() - k,
            workspace_views(list@).take(i as int) == without_workspace(before.take(k), id@),
            workspace_views(list@).skip(i as int) == before.skip(k),
        decreases list.len() - i,
    {
        let ghost now = workspace_views(list@);
        proof {
            assert(now.skip(i as int)[0] == before.skip(k)[0]);
            assert(before.take(k + 1).drop_last() =~= before.take(k));
            assert(before.take(k + 1).last() == before[k]);
        }
        if same_text(list[i].id.as_str(), id) {
            list.remove(i);
            proof {
                let after = workspace_views(list@);
                assert(after =~= now.remove(i as int));
                assert(after.take(i as int) =~= now.take(i as int));
                assert(after.skip(i as int) =~= now.skip(i as int).skip(1));
                assert(before.skip(k).skip(1) =~= before.skip(k + 1));
            }
        } else {
            proof {
                assert(now.take(i + 1) =~= now.take(i as int).push(now[i as int]));
                assert(now.skip(i + 1) =~= now.skip(i as int).skip(1));
                assert(before.skip(k).skip(1) =~= before.skip(k + 1));
            }
            i += 1;
        }
        proof {
            k = k + 1;
        }
    }
    proof {
        assert(workspace_views(list@).take(i as int) =~= workspace_views(list@));
        assert(before.take(k) =~= before);
    }
}

/// A copy of the first workspace with the identifier `id`.
pub fn get_workspace(list: &Vec<Workspace>, id: &str) -> (r: Result<Workspace, WorkspaceError>)
    ensures
        ({
            let views = workspace_views(list@);
            let n = workspace_index(views, id@);
            if n < views.len() {
                r matches Ok(w) && w@ == views[n]
            } else {
                r == Err::<Workspace, WorkspaceError>(WorkspaceError::WorkspaceNotFound)
            }
        }),
{
    let n = find_workspace(list, id);
    if n >= list.len() {
        return Err(WorkspaceError::WorkspaceNotFound);
    }
    Ok(list[n].clone())
}

/// The name of a new folder: the one asked for, else the last part of its
/// path, else `Unnamed Folder`.
pub open spec fn folder_name_of(name: Option<Seq<char>>, file_name: Option<Seq<char>>) -> Seq<
    char,
> {
    match name {
        Some(n) => n,
        None => match file_name {
            Some(n) => n,
            None => "Unnamed Folder"@,
        },
    }
}

/// The name of a new folder, where `name` is asked for and the last part of
/// the folder's path is `file_name`.
pub fn folder_name(name: Option<&str>, file_name: Option<&str>) -> (r: String)
    ensures
        r@ == folder_name_of(
            match name {
                Some(n) => Some(n@),
                None => None,
            },
            match file_name {
                Some(n) => Some(n@),
                None => None,
            },
        ),
{
    match name {
        Some(n) => String::from_str(n),
        None => match file_name {
            Some(n) => String::from_str(n),
            None => String::from_str("Unnamed Folder"),
        },
    }
}

/// What changing the folders of the workspace `id` of `before` to `folders`
/// at the time `now` leaves.
pub open spec fn with_folders(
    before: Seq<WorkspaceView>,
    n: int,
    folders: Seq<WorkspaceFolderView>,
    now: i64,
) -> Seq<WorkspaceView> {
    before.update(n, WorkspaceView { folders, updated_at: now, ..before[n] })
}

/// Gives the workspace in the place `n` the folders `folders` and the time
/// of change `now`.
fn put_folders(list: &mut Vec<Workspace>, n: usize, folders: Vec<WorkspaceFolder>, now: i64)
    requires
        n < old(list).len(),
    ensures
        workspace_views(final(list)@) == with_folders(
            workspace_views(old(list)@),
            n as int,
            folder_views(folders@),
            now,
        ),
{
    let changed = Workspace {
        id: list[n].id.clone(),
        name: list[n].name.clone(),
        folders,
        created_at: list[n].created_at,
        updated_at: now,
    };
    replace_workspace(list, n, changed);
}

/// Adds a folder at `path` to the first workspace with the identifier
/// `workspace_id`, and returns a copy of the folder. The folder's identifier
/// is fresh; its name is `name`, else `file_name`, the last part of `path`,
/// else `Unnamed Folder`. The workspace's time of change is that of the
/// call.
pub fn add_folder_to_workspace(
    list: &mut Vec<Workspace>,
    workspace_id: &str,
    path: &str,
    name: Option<&str>,
    file_name: Option<&str>,
) -> (r: Result<WorkspaceFolder, WorkspaceError>)
    ensures
        ({
            let before = workspace_views(old(list)@);
            let n = workspace_index(before, workspace_id@);
            if n < before.len() {
                r matches Ok(f) && f@.path == path@ && f@.name == folder_name_of(
                    match name {
                        Some(n) => Some(n@),
                        None => None,
                    },
                    match file_name {
                        Some(n) => Some(n@),
                        None => None,
                    },
                ) && exists|now: i64|
                    workspace_views(final(list)@) == with_folders(
                        before,
                        n,
                        before[n].folders.push(f@),
                        now,
                    )
            } else {
                r == Err::<WorkspaceFolder, WorkspaceError>(WorkspaceError::WorkspaceNotFound)
                    && workspace_views(final(list)@) == before
            }
        }),
{
    let folder = WorkspaceFolder {
        id: fresh_id(),
        path: String::from_str(path),
        name: folder_name(name, file_name),
    };
    insert_folder(list, workspace_id, folder, current_timestamp())
}

/// Adds `folder` to the first workspace with the identifier `workspace_id`,
/// at the time `now`, and returns a copy of it.
pub fn insert_folder(
    list: &mut Vec<Workspace>,
    workspace_id: &str,
    folder: WorkspaceFolder,
    now: i64,
) -> (r: Result<WorkspaceFolder, WorkspaceError>)
    ensures
        ({
            let before = workspace_views(old(list)@);
            let n = workspace_index(before, workspace_id@);
            if n < before.len() {
                r matches Ok(f) && f@ == folder@ && workspace_views(final(list)@) == with_folders(
                    before,
                    n,
                    before[n].folders.push(folder@),
                    now,
                )
            } else {
                r == Err::<WorkspaceFolder, WorkspaceError>(WorkspaceError::WorkspaceNotFound)
                    && workspace_views(final(list)@) == before
            }
        }),
{
    let n = find_workspace(list, workspace_id);
    if n >= list.len() {
        return Err(WorkspaceError::WorkspaceNotFound);
    }
    let copy = folder.clone();
    let mut folders = clone_folders(&list[n].folders);
    let ghost before = folders@;
    folders.push(folder);
    assert(folder_views(folders@) =~= folder_views(before).push(folder@));
    put_folders(list, n, folders, now);
    Ok(copy)
}

/// Removes every folder with the identifier `folder_id` from the first
/// workspace with the identifier `workspace_id`; the workspace's time of
/// change is that of the call.
pub fn remove_folder_from_workspace(list: &mut Vec<Workspace>, workspace_id: &str, folder_id: &str)
    -> (r: Result<(), WorkspaceError>)
    ensures
        ({
            let before = workspace_views(old(list)@);
            let n = workspace_index(before, workspace_id@);
            if n < before.len() {
                r is Ok && exists|now: i64|
                    workspace_views(final(list)@) == with_folders(
                        before,
                        n,
                        without_folder(before[n].folders, folder_id@),
                        now,
                    )
            } else {
                r == Err::<(), WorkspaceError>(WorkspaceError::WorkspaceNotFound)
                    && workspace_views(final(list)@) == before
            }
        }),
{
    remove_folder(list, workspace_id, folder_id, current_timestamp())
}

/// The folders of `folders` that do not have the identifier `id`.
fn folders_without(folders: &Vec<WorkspaceFolder>, id: &str) -> (r: Vec<WorkspaceFolder>)
    ensures
        folder_views(r@) == without_folder(folder_views(folders@), id@),
{
    let mut r: Vec<WorkspaceFolder> = Vec::new();
    let mut i: usize = 0;
    assert(folder_views(folders@).take(0) =~= Seq::empty());
    assert(folder_views(r@) =~= Seq::empty());
    while i < folders.len()
        invariant
            i <= folders.len(),
            folder_views(r@) == without_folder(folder_views(folders@).take(i as int), id@),
        decreases folders.len() - i,
    {
        proof {
            let all = folder_views(folders@);
            assert(all.take(i + 1).drop_last() =~= all.take(i as int));
            assert(all.take(i + 1).last() == folders@[i as int]@);
        }
        if !same_text(folders[i].id.as_str(), id) {
            let ghost before = r@;
            let f = folders[i].clone();
            r.push(f);
            assert(folder_views(r@) =~= folder_views(before).push(f@));
        }
        i += 1;
    }
    assert(folder_views(folders@).take(i as int) =~= folder_views(folders@));
    r
}

/// Removes every folder with the identifier `folder_id` from the first
/// workspace with the identifier `workspace_id`, at the time `now`.
pub fn remove_folder(list: &mut Vec<Workspace>, workspace_id: &str, folder_id: &str, now: i64) -> (r:
    Result<(), WorkspaceError>)
    ensures
        ({
            let before = workspace_views(old(list)@);
            let n = workspace_index(before, workspace_id@);
            if n < before.len() {
                r is Ok && workspace_views(final(list)@) == with_folders(
                    before,
                    n,
                    without_folder(before[n].folders, folder_id@),
                    now,
                )
            } else {
                r == Err::<(), WorkspaceError>(WorkspaceError::WorkspaceNotFound)
                    && workspace_views(final(list)@) == before
            }
        }),
{
    let n = find_workspace(list, workspace_id);
    if n >= list.len() {
        return Err(WorkspaceError::WorkspaceNotFound);
    }
    let folders = folders_without(&list[n].folders, folder_id);
    put_folders(list, n, folders, now);
    Ok(())
}

/// What naming the folder `folder_id` of the workspace `workspace_id`
/// `name` at the time `now` leaves of `before`, and returns.
pub open spec fn folder_renamed(
    before: Seq<WorkspaceView>,
    after: Seq<WorkspaceView>,
    workspace_id: Seq<char>,
    folder_id: Seq<char>,
    name: Seq<char>,
    now: i64,
    r: Result<WorkspaceFolder, WorkspaceError>,
) -> bool {
    let n = workspace_index(before, workspace_id);
    if n >= before.len() {
        r == Err::<WorkspaceFolder, WorkspaceError>(WorkspaceError::WorkspaceNotFound) && after
            == before
    } else {
        let m = folder_index(before[n].folders, folder_id);
        if m >= before[n].folders.len() {
            r == Err::<WorkspaceFolder, WorkspaceError>(WorkspaceError::FolderNotFound) && after
                == before
        } else {
            let folder = WorkspaceFolderView { name, ..before[n].folders[m] };
            r matches Ok(f) && f@ == folder && after == with_folders(
                before,
                n,
                before[n].folders.update(m, folder),
                now,
            )
        }
    }
}

/// Gives the first folder with the identifier `folder_id`, of the first
/// workspace with the identifier `workspace_id`, the name `name`, and
/// returns a copy of it; the workspace's time of change is that of the call.
pub fn update_folder(list: &mut Vec<Workspace>, workspace_id: &str, folder_id: &str, name: &str)
    -> (r: Result<WorkspaceFolder, WorkspaceError>)
    ensures
        exists|now: i64|
            folder_renamed(
                workspace_views(old(list)@),
                workspace_views(final(list)@),
                workspace_id@,
                folder_id@,
                name@,
                now,
                r,
            ),
{
    let now = current_timestamp();
    let r = rename_folder(list, workspace_id, folder_id, name, now);
    assert(folder_renamed(
        workspace_views(old(list)@),
        workspace_views(list@),
        workspace_id@,
        folder_id@,
        name@,
        now,
        r,
    ));
    r
}

/// Gives the first folder with the identifier `folder_id`, of the first
/// workspace with the identifier `workspace_id`, the name `name`, at the
/// time `now`, and returns a copy of it.
pub fn rename_folder(
    list: &mut Vec<Workspace>,
    workspace_id: &str,
    folder_id: &str,
    name: &str,
    now: i64,
) -> (r: Result<WorkspaceFolder, WorkspaceError>)
    ensures
        folder_renamed(
            workspace_views(old(list)@),
            workspace_views(final(list)@),
            workspace_id@,
            folder_id@,
            name@,
            now,
            r,
        ),
{
    let n = find_workspace(list, workspace_id);
    if n >= list.len() {
        return Err(WorkspaceError::WorkspaceNotFound);
    }
    let m = find_folder(&list[n].folders, folder_id);
    if m >= list[n].folders.len() {
        return Err(WorkspaceError::FolderNotFound);
    }
    let mut folders = clone_folders(&list[n].folders);
    let renamed = WorkspaceFolder {
        id: folders[m].id.clone(),
        path: folders[m].path.clone(),
        name: String::from_str(name),
    };
    let copy = renamed.clone();
    let ghost before = folders@;
    folders.set(m, renamed);
    assert(folder_views(folders@) =~= folder_views(before).update(m as int, renamed@));
    put_folders(list, n, folders, now);
    Ok(copy)
}

} // verus!
