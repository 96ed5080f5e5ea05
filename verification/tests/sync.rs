use hyde::sync::{clean_actions, copy_actions, CleanAction, CopyAction, EntryKind, FsEntry};

fn entry(name: &str, kind: EntryKind, mtime: u128) -> FsEntry {
    FsEntry { name: name.to_string(), kind, mtime }
}

fn names(list: &[&str]) -> Vec<String> {
    list.iter().map(|s| s.to_string()).collect()
}

#[test]
fn stale_entries_are_deleted() {
    let dest = vec![
        entry("stale.css", EntryKind::File, 10),
        entry("stale_dir", EntryKind::Dir, 10),
        entry("kept.css", EntryKind::File, 10),
    ];
    let source = vec![entry("kept.css", EntryKind::File, 10)];
    let acts = clean_actions(&dest, &source, &names(&[])).unwrap();
    assert_eq!(
        acts,
        vec![CleanAction::DeleteFile, CleanAction::DeleteDir, CleanAction::Keep]
    );
}

#[test]
fn excluded_entries_are_never_cleaned() {
    let dest = vec![
        entry("posts", EntryKind::Dir, 10),
        entry("index.html", EntryKind::File, 10),
    ];
    let source: Vec<FsEntry> = vec![];
    let acts = clean_actions(&dest, &source, &names(&["posts", "index.html"])).unwrap();
    assert_eq!(acts, vec![CleanAction::Keep, CleanAction::Keep]);
}

#[test]
fn shared_directories_recurse() {
    let dest = vec![entry("assets", EntryKind::Dir, 10)];
    let source = vec![entry("assets", EntryKind::Dir, 99)];
    let acts = clean_actions(&dest, &source, &names(&[])).unwrap();
    assert_eq!(acts, vec![CleanAction::Recurse]);
}

#[test]
fn a_file_facing_a_directory_is_kept() {
    let dest = vec![entry("thing", EntryKind::File, 10)];
    let source = vec![entry("thing", EntryKind::Dir, 10)];
    let acts = clean_actions(&dest, &source, &names(&[])).unwrap();
    assert_eq!(acts, vec![CleanAction::Keep]);
}

#[test]
fn an_unsupported_stale_entry_is_fatal() {
    let dest = vec![
        entry("ok.css", EntryKind::File, 10),
        entry("socket", EntryKind::Other, 10),
    ];
    let source: Vec<FsEntry> = vec![];
    let err = clean_actions(&dest, &source, &names(&[])).unwrap_err();
    assert_eq!(err.path, "socket");
}

#[test]
fn a_mirrored_tree_is_not_cleaned() {
    let dest = vec![
        entry("style.css", EntryKind::File, 10),
        entry("assets", EntryKind::Dir, 10),
    ];
    let source = vec![
        entry("style.css", EntryKind::File, 10),
        entry("assets", EntryKind::Dir, 10),
    ];
    let acts = clean_actions(&dest, &source, &names(&[])).unwrap();
    assert!(acts.iter().all(|a| *a == CleanAction::Keep || *a == CleanAction::Recurse));
}

#[test]
fn copy_new_and_newer_entries_only() {
    let source = vec![
        entry("new.css", EntryKind::File, 50),
        entry("newer.css", EntryKind::File, 50),
        entry("older.css", EntryKind::File, 50),
        entry("same.css", EntryKind::File, 50),
    ];
    let dest = vec![
        entry("newer.css", EntryKind::File, 40),
        entry("older.css", EntryKind::File, 60),
        entry("same.css", EntryKind::File, 50),
    ];
    let acts = copy_actions(&source, &dest, &names(&[])).unwrap();
    assert_eq!(
        acts,
        vec![
            CopyAction::CopyFile,
            CopyAction::CopyFile,
            CopyAction::Skip,
            CopyAction::Skip,
        ]
    );
}

#[test]
fn excluded_source_entries_are_skipped() {
    let source = vec![entry("templates", EntryKind::Dir, 99)];
    let dest: Vec<FsEntry> = vec![];
    let acts = copy_actions(&source, &dest, &names(&["templates"])).unwrap();
    assert_eq!(acts, vec![CopyAction::Skip]);
}

#[test]
fn newer_directories_recurse() {
    let source = vec![entry("assets", EntryKind::Dir, 99)];
    let dest = vec![entry("assets", EntryKind::Dir, 10)];
    let acts = copy_actions(&source, &dest, &names(&[])).unwrap();
    assert_eq!(acts, vec![CopyAction::EnterDir]);
}

#[test]
fn existing_directories_recurse_even_when_older() {
    // A directory's own modification time does not decide: the newer-only
    // rule is applied per file inside, so both sides being directories
    // always means descent.
    let source = vec![entry("assets", EntryKind::Dir, 10)];
    let dest = vec![entry("assets", EntryKind::Dir, 99)];
    let acts = copy_actions(&source, &dest, &names(&[])).unwrap();
    assert_eq!(acts, vec![CopyAction::EnterDir]);
}

#[test]
fn an_up_to_date_tree_writes_nothing() {
    let source = vec![
        entry("a.css", EntryKind::File, 10),
        entry("b", EntryKind::Dir, 20),
    ];
    let dest = vec![
        entry("a.css", EntryKind::File, 10),
        entry("b", EntryKind::Dir, 20),
    ];
    let acts = copy_actions(&source, &dest, &names(&[])).unwrap();
    assert_eq!(acts, vec![CopyAction::Skip, CopyAction::EnterDir]);
}

#[test]
fn an_unsupported_source_entry_is_fatal_only_when_due() {
    let source = vec![entry("socket", EntryKind::Other, 10)];
    let dest = vec![entry("socket", EntryKind::File, 50)];
    // Not due for copying: the destination is newer, so it is skipped.
    let acts = copy_actions(&source, &dest, &names(&[])).unwrap();
    assert_eq!(acts, vec![CopyAction::Skip]);
    // Due for copying: fatal.
    let err = copy_actions(&source, &Vec::new(), &names(&[])).unwrap_err();
    assert_eq!(err.path, "socket");
}
