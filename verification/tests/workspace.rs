use proprompter::fs::browser::{
    collect_file_paths, may_precede, precedes_chars, sort_children, FileItem, FileType,
};
use proprompter::fs::watcher::WatchedPaths;
use proprompter::workspace::{
    add_folder_to_workspace, add_workspace, create_workspace, delete_workspace, find_folder,
    find_workspace, folder_name, get_workspace, insert_folder, remove_folder,
    remove_folder_from_workspace, rename_folder, rename_workspace, update_folder,
    update_workspace, Workspace, WorkspaceError, WorkspaceFolder,
};

fn folder(id: &str, path: &str, name: &str) -> WorkspaceFolder {
    WorkspaceFolder { id: id.to_string(), path: path.to_string(), name: name.to_string() }
}

fn workspace(id: &str, name: &str, folders: Vec<WorkspaceFolder>) -> Workspace {
    Workspace { id: id.to_string(), name: name.to_string(), folders, created_at: 5, updated_at: 5 }
}

fn sample() -> Vec<Workspace> {
    vec![
        workspace("w1", "one", vec![folder("f1", "/a", "a"), folder("f2", "/b", "b")]),
        workspace("w2", "two", vec![]),
        workspace("w1", "shadowed", vec![]),
    ]
}

#[test]
fn new_workspaces_go_to_the_end() {
    let mut list = sample();
    let made = add_workspace(&mut list, Workspace::new("w3".to_string(), "three", 9));
    assert_eq!(
        made,
        Workspace {
            id: "w3".to_string(),
            name: "three".to_string(),
            folders: vec![],
            created_at: 9,
            updated_at: 9,
        }
    );
    assert_eq!(list.len(), 4);
    assert_eq!(list[3], made);
    assert_eq!(list[..3], sample()[..]);
    let fresh = create_workspace(&mut list, "four");
    assert_eq!(fresh.name, "four");
    assert_eq!(fresh.created_at, fresh.updated_at);
    assert!(fresh.folders.is_empty());
    assert_eq!(fresh.id.len(), 36);
    assert_eq!(list[4], fresh);
}

#[test]
fn workspaces_are_found_by_identifier() {
    let list = sample();
    assert_eq!(find_workspace(&list, "w1"), 0);
    assert_eq!(find_workspace(&list, "w2"), 1);
    assert_eq!(find_workspace(&list, "w9"), 3);
    assert_eq!(get_workspace(&list, "w2"), Ok(workspace("w2", "two", vec![])));
    assert_eq!(get_workspace(&list, "w1").unwrap().name, "one");
    assert_eq!(get_workspace(&list, "nope"), Err(WorkspaceError::WorkspaceNotFound));
    assert_eq!(find_folder(&list[0].folders, "f2"), 1);
    assert_eq!(find_folder(&list[0].folders, "f3"), 2);
}

#[test]
fn renaming_keeps_the_rest() {
    let mut list = sample();
    let renamed = rename_workspace(&mut list, "w1", "uno", 42).unwrap();
    assert_eq!(renamed.name, "uno");
    assert_eq!(renamed.updated_at, 42);
    assert_eq!(renamed.created_at, 5);
    assert_eq!(renamed.folders, sample()[0].folders);
    assert_eq!(list[0], renamed);
    assert_eq!(list[1..], sample()[1..]);
    assert_eq!(
        rename_workspace(&mut list, "missing", "x", 1),
        Err(WorkspaceError::WorkspaceNotFound)
    );
    let updated = update_workspace(&mut list, "w2", "dos").unwrap();
    assert_eq!(updated.name, "dos");
    assert_eq!(list[1], updated);
    assert_eq!(update_workspace(&mut list, "zz", "x"), Err(WorkspaceError::WorkspaceNotFound));
}

#[test]
fn deleting_removes_every_match() {
    let mut list = sample();
    delete_workspace(&mut list, "w1");
    assert_eq!(list, vec![workspace("w2", "two", vec![])]);
    delete_workspace(&mut list, "unknown");
    assert_eq!(list.len(), 1);
    delete_workspace(&mut list, "w2");
    assert!(list.is_empty());
    delete_workspace(&mut list, "w2");
    assert!(list.is_empty());
}

#[test]
fn folder_names_fall_back() {
    assert_eq!(folder_name(Some("given"), Some("dir")), "given");
    assert_eq!(folder_name(None, Some("dir")), "dir");
    assert_eq!(folder_name(None, None), "Unnamed Folder");
    assert_eq!(folder_name(Some(""), None), "");
}

#[test]
fn folders_are_added_to_their_workspace() {
    let mut list = sample();
    let added = insert_folder(&mut list, "w2", folder("f9", "/z", "z"), 77).unwrap();
    assert_eq!(added, folder("f9", "/z", "z"));
    assert_eq!(list[1].folders, vec![folder("f9", "/z", "z")]);
    assert_eq!(list[1].updated_at, 77);
    assert_eq!(list[1].created_at, 5);
    assert_eq!(list[0], sample()[0]);
    assert_eq!(
        insert_folder(&mut list, "none", folder("f", "/", "n"), 1),
        Err(WorkspaceError::WorkspaceNotFound)
    );
    let fresh = add_folder_to_workspace(&mut list, "w1", "/srv/data", None, Some("data")).unwrap();
    assert_eq!(fresh.path, "/srv/data");
    assert_eq!(fresh.name, "data");
    assert_eq!(list[0].folders.len(), 3);
    assert_eq!(list[0].folders[2], fresh);
    assert_eq!(
        add_folder_to_workspace(&mut list, "none", "/x", Some("x"), None),
        Err(WorkspaceError::WorkspaceNotFound)
    );
}

#[test]
fn folders_are_removed_from_their_workspace() {
    let mut list = sample();
    assert_eq!(remove_folder(&mut list, "w1", "f1", 8), Ok(()));
    assert_eq!(list[0].folders, vec![folder("f2", "/b", "b")]);
    assert_eq!(list[0].updated_at, 8);
    assert_eq!(remove_folder(&mut list, "w1", "gone", 9), Ok(()));
    assert_eq!(list[0].folders.len(), 1);
    assert_eq!(list[0].updated_at, 9);
    assert_eq!(remove_folder(&mut list, "none", "f2", 9), Err(WorkspaceError::WorkspaceNotFound));
    assert_eq!(remove_folder_from_workspace(&mut list, "w1", "f2"), Ok(()));
    assert!(list[0].folders.is_empty());
}

#[test]
fn folders_are_renamed() {
    let mut list = sample();
    let renamed = rename_folder(&mut list, "w1", "f2", "bee", 11).unwrap();
    assert_eq!(renamed, folder("f2", "/b", "bee"));
    assert_eq!(list[0].folders, vec![folder("f1", "/a", "a"), folder("f2", "/b", "bee")]);
    assert_eq!(list[0].updated_at, 11);
    assert_eq!(rename_folder(&mut list, "w1", "f7", "x", 1), Err(WorkspaceError::FolderNotFound));
    assert_eq!(
        rename_folder(&mut list, "w7", "f1", "x", 1),
        Err(WorkspaceError::WorkspaceNotFound)
    );
    assert_eq!(update_folder(&mut list, "w1", "f1", "ay").unwrap().name, "ay");
    assert_eq!(WorkspaceError::WorkspaceNotFound.message(), "Workspace not found");
    assert_eq!(WorkspaceError::FolderNotFound.message(), "Folder not found");
}

fn file(path: &str, name: &str) -> FileItem {
    FileItem {
        path: path.to_string(),
        name: name.to_string(),
        file_type: FileType::File,
        children: None,
        size: 3,
    }
}

fn dir(path: &str, name: &str, children: Vec<FileItem>) -> FileItem {
    FileItem {
        path: path.to_string(),
        name: name.to_string(),
        file_type: FileType::Directory,
        children: Some(children),
        size: 0,
    }
}

#[test]
fn file_paths_are_collected_in_order() {
    let tree = dir(
        "/r",
        "r",
        vec![
            dir("/r/a", "a", vec![file("/r/a/1", "1"), dir("/r/a/e", "e", vec![])]),
            file("/r/b", "b"),
            dir("/r/c", "c", vec![file("/r/c/2", "2")]),
        ],
    );
    let mut paths = vec!["first".to_string()];
    collect_file_paths(&tree, &mut paths);
    assert_eq!(paths, vec!["first", "/r/a/1", "/r/b", "/r/c/2"]);
    let mut single = Vec::new();
    collect_file_paths(&file("/x", "x"), &mut single);
    assert_eq!(single, vec!["/x"]);
}

fn by_the_standard_library(a: &FileItem, b: &FileItem) -> std::cmp::Ordering {
    match (&a.file_type, &b.file_type) {
        (FileType::Directory, FileType::File) => std::cmp::Ordering::Less,
        (FileType::File, FileType::Directory) => std::cmp::Ordering::Greater,
        _ => a.name.to_lowercase().cmp(&b.name.to_lowercase()),
    }
}

#[test]
fn children_are_listed_directories_first() {
    let mut children = vec![
        file("/1", "zeta"),
        file("/2", "Alpha"),
        dir("/3", "src", vec![]),
        file("/4", "alpha"),
        dir("/5", "Docs", vec![]),
        file("/6", "ALPHA"),
        dir("/7", "docs", vec![]),
        file("/8", "é"),
        file("/9", "b"),
        file("/10", ""),
    ];
    let mut expected: Vec<String> = {
        let mut refs: Vec<&FileItem> = children.iter().collect();
        refs.sort_by(|a, b| by_the_standard_library(a, b));
        refs.iter().map(|i| i.path.clone()).collect()
    };
    sort_children(&mut children);
    let ours: Vec<String> = children.iter().map(|i| i.path.clone()).collect();
    assert_eq!(ours, expected);
    assert_eq!(ours, vec!["/5", "/7", "/3", "/10", "/2", "/4", "/6", "/9", "/1", "/8"]);
    expected.clear();
    let mut none: Vec<FileItem> = vec![];
    sort_children(&mut none);
    assert!(none.is_empty());
}

#[test]
fn order_agrees_with_the_standard_library() {
    let names = ["", "a", "A", "ab", "b", "é", "z", "Z", "\u{1F600}", "aa"];
    for x in names {
        for y in names {
            let a = file("/x", x);
            let b = file("/y", y);
            assert_eq!(
                may_precede(&a, &b),
                by_the_standard_library(&a, &b) != std::cmp::Ordering::Greater
            );
            let cx: Vec<char> = x.chars().collect();
            let cy: Vec<char> = y.chars().collect();
            assert_eq!(precedes_chars(&cx, &cy), x <= y);
        }
    }
    assert!(may_precede(&dir("/d", "z", vec![]), &file("/f", "a")));
    assert!(!may_precede(&file("/f", "a"), &dir("/d", "z", vec![])));
    assert!(may_precede(&file("/f", "readme"), &file("/g", "README")));
    assert!(may_precede(&file("/g", "README"), &file("/f", "readme")));
}

#[test]
fn watched_paths_are_held_once() {
    let mut watched = WatchedPaths::new();
    assert!(watched.paths().is_empty());
    assert!(watched.add_path("/a"));
    assert!(watched.add_path("/b"));
    assert!(!watched.add_path("/a"));
    assert_eq!(watched.paths(), &vec!["/a".to_string(), "/b".to_string()]);
    assert!(watched.is_watched("/b"));
    assert!(!watched.is_watched("/c"));
    watched.remove_path("/a");
    assert_eq!(watched.paths(), &vec!["/b".to_string()]);
    watched.remove_path("/zzz");
    assert_eq!(watched.paths().len(), 1);
    assert!(watched.add_path("/a"));
    assert_eq!(watched.paths(), &vec!["/b".to_string(), "/a".to_string()]);
}
