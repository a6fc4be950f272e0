use proprompter::undo::{
    backup_file_name, backup_file_name_with, create_change_set, BackupFile, BackupStep,
    ChangeSet, UndoHistory,
};
use proprompter::xml::change::{ChangeAction, FileChange};

fn file_change(path: &str, action: ChangeAction) -> FileChange {
    FileChange { path: path.to_string(), action, changes: vec![] }
}

fn set_with(id: &str, backups: &[(&str, &str)]) -> ChangeSet {
    let mut set = ChangeSet::new(id.to_string(), 7, "batch");
    for (original, backup) in backups {
        set.record(original, backup.to_string());
    }
    set
}

#[test]
fn a_new_change_set_is_empty() {
    let set = ChangeSet::new("id-1".to_string(), 1700000000, "Applied XML changes");
    assert_eq!(
        set,
        ChangeSet {
            id: "id-1".to_string(),
            backups: vec![],
            timestamp: 1700000000,
            description: "Applied XML changes".to_string(),
        }
    );
    assert!(!set.is_worth_saving());
}

#[test]
fn created_change_sets_differ_in_their_identifiers() {
    let a = create_change_set("one");
    let b = create_change_set("one");
    assert_eq!(a.description, "one");
    assert!(a.backups.is_empty());
    assert_eq!(a.id.len(), 36);
    assert_ne!(a.id, b.id);
    assert!(a.timestamp > 1_600_000_000);
    assert!(b.timestamp >= a.timestamp);
}

#[test]
fn backup_names_hold_the_identifier_and_the_file_name() {
    assert_eq!(backup_file_name_with("1234", "notes.txt"), "1234-notes.txt");
    assert_eq!(backup_file_name_with("", ""), "-");
    let fresh = backup_file_name("notes.txt");
    assert!(fresh.ends_with("-notes.txt"));
    assert_eq!(fresh.len(), 36 + "-notes.txt".len());
    assert_ne!(fresh, backup_file_name("notes.txt"));
}

#[test]
fn create_is_never_backed_up() {
    let mut set = set_with("s", &[]);
    assert_eq!(set.backup_step(&file_change("a", ChangeAction::Create)), BackupStep::Nothing);
    set.record("a", "b/1-a".to_string());
    assert_eq!(set.backup_step(&file_change("a", ChangeAction::Create)), BackupStep::Nothing);
}

#[test]
fn a_path_is_backed_up_once() {
    let mut set = set_with("s", &[]);
    for action in [ChangeAction::Rewrite, ChangeAction::Modify, ChangeAction::Delete] {
        assert_eq!(set.backup_step(&file_change("a", action)), BackupStep::Copy);
    }
    set.record("a", "b/1-a".to_string());
    assert_eq!(
        set.backups,
        vec![BackupFile { original_path: "a".to_string(), backup_path: "b/1-a".to_string() }]
    );
    for action in [ChangeAction::Rewrite, ChangeAction::Modify, ChangeAction::Delete] {
        assert_eq!(set.backup_step(&file_change("a", action)), BackupStep::Check);
    }
    assert_eq!(set.backup_step(&file_change("other", ChangeAction::Modify)), BackupStep::Copy);
    assert!(set.is_worth_saving());
}

#[test]
fn the_first_backup_of_a_path_is_found() {
    let set = set_with("s", &[("a", "1"), ("b", "2"), ("a", "3")]);
    assert_eq!(
        set.backup_for("a"),
        Some(&BackupFile { original_path: "a".to_string(), backup_path: "1".to_string() })
    );
    assert_eq!(set.backup_for("b").unwrap().backup_path, "2");
    assert_eq!(set.backup_for("c"), None);
}

#[test]
fn empty_change_sets_are_not_kept() {
    let mut history = UndoHistory::new();
    assert!(!history.save_change_set(&set_with("empty", &[])));
    assert_eq!(history, UndoHistory { change_sets: vec![] });
    assert!(history.save_change_set(&set_with("full", &[("a", "1")])));
    assert_eq!(history.change_sets, vec![set_with("full", &[("a", "1")])]);
    assert!(!history.save_change_set(&set_with("empty", &[])));
    assert_eq!(history.change_sets.len(), 1);
}

#[test]
fn undo_takes_the_last_change_set() {
    let mut history = UndoHistory::new();
    history.save_change_set(&set_with("first", &[("a", "1")]));
    history.save_change_set(&set_with("second", &[("b", "2"), ("c", "3")]));
    let popped = history.pop_last().unwrap();
    assert_eq!(popped, set_with("second", &[("b", "2"), ("c", "3")]));
    assert_eq!(popped.description, "batch");
    assert_eq!(history.change_sets, vec![set_with("first", &[("a", "1")])]);
    assert_eq!(history.pop_last(), Some(set_with("first", &[("a", "1")])));
    assert!(history.change_sets.is_empty());
}

#[test]
fn nothing_to_undo_on_an_empty_ledger() {
    let mut history = UndoHistory::new();
    assert_eq!(history.pop_last(), None);
    assert_eq!(history, UndoHistory::new());
}

#[test]
fn the_most_recent_backup_of_a_file_is_restored() {
    let mut history = UndoHistory::new();
    history.save_change_set(&set_with("one", &[("a", "a-1"), ("b", "b-1")]));
    history.save_change_set(&set_with("two", &[("a", "a-2")]));
    history.save_change_set(&set_with("three", &[("c", "c-3")]));
    assert_eq!(history.backup_for("a").unwrap().backup_path, "a-2");
    assert_eq!(history.backup_for("b").unwrap().backup_path, "b-1");
    assert_eq!(history.backup_for("c").unwrap().backup_path, "c-3");
    assert_eq!(history.backup_for("d"), None);
    assert_eq!(history.change_sets.len(), 3);
    assert_eq!(history.change_sets[1], set_with("two", &[("a", "a-2")]));
    assert_eq!(UndoHistory::new().backup_for("a"), None);
}

#[test]
fn change_sets_are_copied_whole() {
    let set = set_with("s", &[("a", "1"), ("b", "2")]);
    assert_eq!(set.clone(), set);
    let backup = BackupFile { original_path: "a".to_string(), backup_path: "1".to_string() };
    assert_eq!(backup.clone(), backup);
}
