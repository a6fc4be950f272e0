//! What a file change does to a file.

use vstd::prelude::*;
use vstd::string::StringExecFns;
use crate::text::{
    chars_of, contains, contains_chars, lemma_replace_by_itself, lemma_replace_changes,
    replace_all, replace_chars, string_of,
};
use crate::xml::change::{
    ChangeAction, ChangeResult, ChangeResultView, ChangeView, FileChange, FileChangeView,
};

verus! {

/// Why a file change cannot be applied.
#[derive(Debug, PartialEq, Eq)]
pub enum ApplyError {
    /// A `Create` or a `Rewrite` has no change, and so names no content.
    MissingContent,
    /// A change of a `Modify` has no search text.
    MissingSearch,
    /// The search text of a change does not stand in the text; holds the
    /// path of the file.
    SearchNotFound(String),
}

/// An `ApplyError` as plain values.
pub enum ApplyErrorView {
    MissingContent,
    MissingSearch,
    SearchNotFound(Seq<char>),
}

impl View for ApplyError {
    type V = ApplyErrorView;

    open spec fn view(&self) -> ApplyErrorView {
        match self {
            ApplyError::MissingContent => ApplyErrorView::MissingContent,
            ApplyError::MissingSearch => ApplyErrorView::MissingSearch,
            ApplyError::SearchNotFound(p) => ApplyErrorView::SearchNotFound(p@),
        }
    }
}

impl ApplyErrorView {
    /// The error in words.
    pub open spec fn message(self) -> Seq<char> {
        match self {
            ApplyErrorView::MissingContent => "Create and rewrite actions require a content section"@,
            ApplyErrorView::MissingSearch => "Modify action requires a search section"@,
            ApplyErrorView::SearchNotFound(p) => "Search text not found in file: "@ + p,
        }
    }
}

impl ApplyError {
    /// The error in words.
    pub fn message(&self) -> (r: String)
        ensures
            r@ == self@.message(),
    {
        match self {
            ApplyError::MissingContent => String::from_str(
                "Create and rewrite actions require a content section",
            ),
            ApplyError::MissingSearch => String::from_str(
                "Modify action requires a search section",
            ),
            ApplyError::SearchNotFound(p) => String::from_str(
                "Search text not found in file: ",
            ).concat(p.as_str()),
        }
    }
}

/// `text` after the changes `changes` of the file at `path`, one after the
/// other, each on what the one before it left: every occurrence of its
/// search text is replaced by its content. A change without search text, or
/// whose search text does not stand in the text it meets, fails them all.
pub open spec fn modified(text: Seq<char>, changes: Seq<ChangeView>, path: Seq<char>) -> Result<
    Seq<char>,
    ApplyErrorView,
>
    decreases changes.len(),
{
    if changes.len() == 0 {
        Ok(text)
    } else {
        match changes[0].search {
            None => Err(ApplyErrorView::MissingSearch),
            Some(search) => if contains(text, search) {
                modified(replace_all(text, search, changes[0].content), changes.skip(1), path)
            } else {
                Err(ApplyErrorView::SearchNotFound(path))
            },
        }
    }
}

/// The view of a text or of the error in its place.
pub open spec fn text_result_view(r: Result<String, ApplyError>) -> Result<
    Seq<char>,
    ApplyErrorView,
> {
    match r {
        Ok(s) => Ok(s@),
        Err(e) => Err(e@),
    }
}

/// The text of a file after the changes of `file_change`, applied as a
/// `Modify` applies them.
pub fn apply_modifications(original: &str, file_change: &FileChange) -> (r: Result<
    String,
    ApplyError,
>)
    ensures
        text_result_view(r) == modified(original@, file_change@.changes, file_change@.path),
{
    let mut text = chars_of(original);
    let mut i: usize = 0;
    assert(file_change@.changes.skip(0) == file_change@.changes);
    while i < file_change.changes.len()
        invariant
            i <= file_change.changes.len(),
            modified(text@, file_change@.changes.skip(i as int), file_change@.path) == modified(
                original@,
                file_change@.changes,
                file_change@.path,
            ),
        decreases file_change.changes.len() - i,
    {
        let change = &file_change.changes[i];
        proof {
            let rest = file_change@.changes.skip(i as int);
            assert(rest[0] == change@);
            assert(rest.skip(1) == file_change@.changes.skip(i + 1));
        }
        match &change.search {
            None => {
                return Err(ApplyError::MissingSearch);
            },
            Some(search) => {
                let pattern = chars_of(search.as_str());
                if !contains_chars(text.as_slice(), pattern.as_slice()) {
                    return Err(ApplyError::SearchNotFound(file_change.path.clone()));
                }
                let with = chars_of(change.content.as_str());
                text = replace_chars(text.as_slice(), pattern.as_slice(), with.as_slice());
            },
        }
        i += 1;
    }
    Ok(string_of(text.as_slice()))
}

/// What has to be done to the file of a file change.
#[derive(Debug, PartialEq, Eq)]
pub enum FileOperation {
    /// Write `content` as the whole file at `path`, making the directories
    /// above it as needed.
    Write { path: String, content: String },
    /// Read the text of the file at `path`, apply the changes to it and
    /// write the result back.
    Patch { path: String },
    /// Remove the file at `path`.
    Remove { path: String },
}

/// A `FileOperation` as plain values.
pub enum FileOperationView {
    Write { path: Seq<char>, content: Seq<char> },
    Patch { path: Seq<char> },
    Remove { path: Seq<char> },
}

impl View for FileOperation {
    type V = FileOperationView;

    open spec fn view(&self) -> FileOperationView {
        match self {
            FileOperation::Write { path, content } => FileOperationView::Write {
                path: path@,
                content: content@,
            },
            FileOperation::Patch { path } => FileOperationView::Patch { path: path@ },
            FileOperation::Remove { path } => FileOperationView::Remove { path: path@ },
        }
    }
}

impl FileChangeView {
    /// What has to be done to the file: `Create` and `Rewrite` write the
    /// content of the first change, and fail where there is no change;
    /// `Modify` patches; `Delete` removes.
    pub open spec fn operation(self) -> Result<FileOperationView, ApplyErrorView> {
        match self.action {
            ChangeAction::Create | ChangeAction::Rewrite => if self.changes.len() > 0 {
                Ok(FileOperationView::Write { path: self.path, content: self.changes[0].content })
            } else {
                Err(ApplyErrorView::MissingContent)
            },
            ChangeAction::Modify => Ok(FileOperationView::Patch { path: self.path }),
            ChangeAction::Delete => Ok(FileOperationView::Remove { path: self.path }),
        }
    }
}

/// The view of an operation or of the error in its place.
pub open spec fn operation_result_view(r: Result<FileOperation, ApplyError>) -> Result<
    FileOperationView,
    ApplyErrorView,
> {
    match r {
        Ok(op) => Ok(op@),
        Err(e) => Err(e@),
    }
}

impl FileChange {
    /// What has to be done to the file, or why nothing can be done: a
    /// `Create` or a `Rewrite` without a change names no content.
    pub fn operation(&self) -> (r: Result<FileOperation, ApplyError>)
        ensures
            operation_result_view(r) == self@.operation(),
    {
        match self.action {
            ChangeAction::Create | ChangeAction::Rewrite => {
                if self.changes.len() == 0 {
                    return Err(ApplyError::MissingContent);
                }
                assert(self@.changes[0] == self.changes@[0]@);
                Ok(
                    FileOperation::Write {
                        path: self.path.clone(),
                        content: self.changes[0].content.clone(),
                    },
                )
            },
            ChangeAction::Modify => Ok(FileOperation::Patch { path: self.path.clone() }),
            ChangeAction::Delete => Ok(FileOperation::Remove { path: self.path.clone() }),
        }
    }
}

impl FileChangeView {
    /// The report on this file change: success without a message where
    /// `failure` is `None`, else failure with the message `Error: ` and the
    /// words of `failure`.
    pub open spec fn result(self, failure: Option<Seq<char>>) -> ChangeResultView {
        ChangeResultView {
            path: self.path,
            action: self.action,
            success: failure is None,
            message: match failure {
                Some(words) => Some("Error: "@ + words),
                None => None,
            },
        }
    }
}

impl ChangeResult {
    /// The report on `file_change`, which failed with the words of
    /// `failure`, or went well where there are none.
    pub fn of(file_change: &FileChange, failure: Option<&str>) -> (r: ChangeResult)
        ensures
            r@ == file_change@.result(
                match failure {
                    Some(words) => Some(words@),
                    None => None,
                },
            ),
    {
        ChangeResult {
            path: file_change.path.clone(),
            action: file_change.action,
            success: failure.is_none(),
            message: match failure {
                Some(words) => Some(String::from_str("Error: ").concat(words)),
                None => None,
            },
        }
    }
}

/// Changes that put each search text in its own place leave the text as it
/// is: applied again, they give what they gave before.
pub proof fn lemma_modify_by_itself(text: Seq<char>, changes: Seq<ChangeView>, path: Seq<char>)
    requires
        forall|i: int|
            0 <= i < changes.len() ==> (#[trigger] changes[i]).search == Some(changes[i].content),
        modified(text, changes, path) is Ok,
    ensures
        modified(text, changes, path) == Ok::<Seq<char>, ApplyErrorView>(text),
    decreases changes.len(),
{
    if changes.len() > 0 {
        let c = changes[0];
        lemma_replace_by_itself(text, c.content);
        let rest = changes.skip(1);
        assert forall|i: int| 0 <= i < rest.len() implies (#[trigger] rest[i]).search == Some(
            rest[i].content,
        ) by {
            assert(rest[i] == changes[i + 1]);
        }
        lemma_modify_by_itself(text, rest, path);
    }
}

/// A change whose search text differs from its content changes the text
/// that it is applied to.
pub proof fn lemma_modify_changes_text(text: Seq<char>, change: ChangeView, path: Seq<char>)
    requires
        change.search is Some,
        change.search != Some(change.content),
        modified(text, seq![change], path) is Ok,
    ensures
        modified(text, seq![change], path) != Ok::<Seq<char>, ApplyErrorView>(text),
{
    let changes = seq![change];
    let search = change.search->0;
    assert(changes[0] == change);
    assert(contains(text, search));
    let replaced = replace_all(text, search, change.content);
    assert(modified(replaced, changes.skip(1), path) == Ok::<Seq<char>, ApplyErrorView>(replaced));
    lemma_replace_changes(text, search, change.content);
}

/// A change that, applied to its own result, gives that result again has
/// its search text as its content.
pub proof fn lemma_idempotent_only_if_same(text: Seq<char>, change: ChangeView, path: Seq<char>)
    requires
        modified(text, seq![change], path) is Ok,
        modified(modified(text, seq![change], path)->Ok_0, seq![change], path) == modified(
            text,
            seq![change],
            path,
        ),
    ensures
        change.search == Some(change.content),
{
    let changes = seq![change];
    assert(changes[0] == change);
    let once = modified(text, changes, path)->Ok_0;
    if change.search != Some(change.content) {
        lemma_modify_changes_text(once, change, path);
    }
}

/// A change whose search text no longer stands in what it left fails when
/// it is applied again.
pub proof fn lemma_second_modify_fails(text: Seq<char>, change: ChangeView, path: Seq<char>)
    requires
        modified(text, seq![change], path) is Ok,
        !contains(modified(text, seq![change], path)->Ok_0, change.search->0),
    ensures
        modified(modified(text, seq![change], path)->Ok_0, seq![change], path) == Err::<
            Seq<char>,
            ApplyErrorView,
        >(ApplyErrorView::SearchNotFound(path)),
{
    let changes = seq![change];
    assert(changes[0] == change);
}

/// The words of a failure, if there is one.
pub open spec fn failure_view(failure: Option<String>) -> Option<Seq<char>> {
    match failure {
        Some(words) => Some(words@),
        None => None,
    }
}

/// The reports on a batch: one for each file change, in the order of the
/// batch, where `failures` holds for each file change the words of its
/// failure, or `None` where it went well.
pub fn change_results(file_changes: &[FileChange], failures: &[Option<String>]) -> (results: Vec<
    ChangeResult,
>)
    requires
        file_changes.len() == failures.len(),
    ensures
        results.len() == file_changes.len(),
        forall|i: int|
            0 <= i < results.len() ==> (#[trigger] results[i])@ == file_changes[i]@.result(
                failure_view(failures[i]),
            ),
{
    let mut results: Vec<ChangeResult> = Vec::new();
    let mut i: usize = 0;
    while i < file_changes.len()
        invariant
            i <= file_changes.len(),
            file_changes.len() == failures.len(),
            results.len() == i,
            forall|k: int|
                0 <= k < i ==> (#[trigger] results[k])@ == file_changes[k]@.result(
                    failure_view(failures[k]),
                ),
        decreases file_changes.len() - i,
    {
        let result = match &failures[i] {
            Some(words) => ChangeResult::of(&file_changes[i], Some(words.as_str())),
            None => ChangeResult::of(&file_changes[i], None),
        };
        results.push(result);
        i += 1;
    }
    results
}

/// Why a file change fails on the files it meets.
pub enum Failure {
    /// The file to patch or to remove is not there.
    MissingFile,
    /// The file change cannot be applied: it names no content to write, or
    /// its changes do not fit the text of the file.
    Refused(ApplyErrorView),
}

impl FileChangeView {
    /// The files after this file change, where `files` gives the text of
    /// each file by its path, or why the change fails on them, in which case
    /// the files stay as they are. A write puts
    /// the content in the place of the file, or makes the file; a patch puts
    /// the modified text in the place of the file's text; a removal takes
    /// the file away.
    pub open spec fn applied_to(self, files: Map<Seq<char>, Seq<char>>) -> Result<
        Map<Seq<char>, Seq<char>>,
        Failure,
    > {
        match self.operation() {
            Err(e) => Err(Failure::Refused(e)),
            Ok(FileOperationView::Write { path, content }) => Ok(files.insert(path, content)),
            Ok(FileOperationView::Patch { path }) => if files.contains_key(path) {
                match modified(files[path], self.changes, path) {
                    Ok(text) => Ok(files.insert(path, text)),
                    Err(e) => Err(Failure::Refused(e)),
                }
            } else {
                Err(Failure::MissingFile)
            },
            Ok(FileOperationView::Remove { path }) => if files.contains_key(path) {
                Ok(files.remove(path))
            } else {
                Err(Failure::MissingFile)
            },
        }
    }
}

/// A file that one batch deletes and a later batch creates is there again,
/// with the content that the creation names, and the other files are as
/// they were.
pub proof fn lemma_delete_then_create(
    files: Map<Seq<char>, Seq<char>>,
    path: Seq<char>,
    change: ChangeView,
)
    requires
        files.contains_key(path),
    ensures
        ({
            let delete = FileChangeView { path, action: ChangeAction::Delete, changes: seq![] };
            let create = FileChangeView {
                path,
                action: ChangeAction::Create,
                changes: seq![change],
            };
            &&& delete.applied_to(files) matches Ok(deleted)
            &&& !deleted.contains_key(path)
            &&& create.applied_to(deleted) matches Ok(created)
            &&& created == files.insert(path, change.content)
        }),
{
    let create = FileChangeView { path, action: ChangeAction::Create, changes: seq![change] };
    assert(create.changes[0] == change);
    assert(files.remove(path).insert(path, change.content) =~= files.insert(path, change.content));
}

} // verus!
