//! Directory synchronisation between a theme tree and the output tree.
//!
//! The decisions — which entries to delete, copy, or descend into — are made
//! here over plain directory listings; the caller walks the filesystem,
//! hands each directory's entries in, and carries the chosen actions out,
//! recursing with an empty exclusion list below the top level.

use vstd::prelude::*;

use crate::text::contains_str;
use crate::text::contains_string;

verus! {

/// What kind of filesystem object a directory entry is.
#[derive(Clone, Copy, PartialEq, Eq, Structural, Debug)]
pub enum EntryKind {
    File,
    Symlink,
    Dir,
    /// Neither a file, a symlink, nor a directory
    Other,
}

/// One entry of a directory listing: its name, its kind, and its
/// modification time in nanoseconds since the epoch.
#[derive(Clone, Debug)]
pub struct FsEntry {
    pub name: String,
    pub kind: EntryKind,
    pub mtime: u128,
}

/// An entry that is neither a file, a symlink nor a directory was met where
/// the synchroniser would have had to delete or copy it.
#[derive(Clone, Debug)]
pub struct SyncError {
    /// The name of the offending entry
    pub path: String,
}

/// The first entry of `entries` named `name`, if any.
pub open spec fn lookup(entries: Seq<FsEntry>, name: Seq<char>) -> Option<FsEntry>
    decreases entries.len(),
{
    if entries.len() == 0 {
        None
    } else if entries[0].name@ == name {
        Some(entries[0])
    } else {
        lookup(entries.drop_first(), name)
    }
}

/// What cleaning does with one entry of the directory being cleaned.
#[derive(Clone, Copy, PartialEq, Eq, Structural, Debug)]
pub enum CleanAction {
    /// Leave the entry alone
    Keep,
    /// Delete the file or symlink
    DeleteFile,
    /// Delete the directory and everything under it
    DeleteDir,
    /// Both sides are directories: clean the subdirectory, with no exclusions
    Recurse,
}

/// Cleaning `e` is a fatal error: it would have to be deleted, but it is
/// neither a file, a symlink nor a directory.
pub open spec fn clean_errs(e: FsEntry, source: Seq<FsEntry>, excluded: Seq<Seq<char>>) -> bool {
    &&& !contains_str(excluded, e.name@)
    &&& lookup(source, e.name@) is None
    &&& e.kind == EntryKind::Other
}

/// The action cleaning takes for the entry `e` of the directory being
/// cleaned, compared against `source`: delete what `source` lacks, recurse
/// where both sides are directories, keep everything else.
pub open spec fn clean_decision(e: FsEntry, source: Seq<FsEntry>, excluded: Seq<Seq<char>>) -> CleanAction {
    if contains_str(excluded, e.name@) {
        CleanAction::Keep
    } else {
        match lookup(source, e.name@) {
            Option::None => match e.kind {
                EntryKind::File => CleanAction::DeleteFile,
                EntryKind::Symlink => CleanAction::DeleteFile,
                EntryKind::Dir => CleanAction::DeleteDir,
                EntryKind::Other => CleanAction::Keep,
            },
            Option::Some(s) => if e.kind == EntryKind::Dir && s.kind == EntryKind::Dir {
                CleanAction::Recurse
            } else {
                CleanAction::Keep
            },
        }
    }
}

/// The index of the first entry of `entries` named `name`, if any.
fn find_entry(entries: &Vec<FsEntry>, name: &String) -> (r: Option<usize>)
    ensures
        match r {
            Some(i) => i < entries@.len() && lookup(entries@, name@) == Some(entries@[i as int]),
            None => lookup(entries@, name@) is None,
        },
{
    let mut i: usize = 0;
    proof {
        assert(entries@.subrange(0, entries@.len() as int) =~= entries@);
    }
    while i < entries.len()
        invariant
            i <= entries@.len(),
            lookup(entries@, name@) == lookup(entries@.subrange(i as int, entries@.len() as int), name@),
        decreases entries@.len() - i,
    {
        let sub = Ghost(entries@.subrange(i as int, entries@.len() as int));
        let ei: &String = &entries[i].name;
        if ei.eq(name) {
            assert(sub@[0] == entries@[i as int]);
            return Some(i);
        }
        proof {
            assert(sub@.drop_first() =~= entries@.subrange(i + 1, entries@.len() as int));
        }
        i = i + 1;
    }
    proof {
        assert(entries@.subrange(i as int, entries@.len() as int) =~= Seq::<FsEntry>::empty());
    }
    None
}

/// Decides, for every entry of the directory being cleaned, whether it is
/// kept, deleted, or descended into.  `dest` lists the directory being
/// cleaned, `source` the directory it is compared against, and `excluded`
/// the top-level names that are never touched.  The first unsupported entry
/// met, in listing order, is a fatal error naming that entry.
pub fn clean_actions(dest: &Vec<FsEntry>, source: &Vec<FsEntry>, excluded: &Vec<String>) -> (r:
    Result<Vec<CleanAction>, SyncError>)
    ensures
        match r {
            Ok(v) => {
                &&& v@.len() == dest@.len()
                &&& forall|i: int|
                    0 <= i < dest@.len() ==> !clean_errs(#[trigger] dest@[i], source@, excluded.deep_view())
                &&& forall|i: int|
                    0 <= i < dest@.len() ==> #[trigger] v@[i] == clean_decision(
                        dest@[i],
                        source@,
                        excluded.deep_view(),
                    )
            },
            Err(e) => exists|i: int|
                {
                    &&& 0 <= i < dest@.len()
                    &&& clean_errs(#[trigger] dest@[i], source@, excluded.deep_view())
                    &&& e.path@ == dest@[i].name@
                    &&& forall|k: int|
                        0 <= k < i ==> !clean_errs(#[trigger] dest@[k], source@, excluded.deep_view())
                },
        },
{
    let mut acts: Vec<CleanAction> = Vec::new();
    let mut i: usize = 0;
    while i < dest.len()
        invariant
            i <= dest@.len(),
            acts@.len() == i,
            forall|k: int|
                0 <= k < i ==> !clean_errs(#[trigger] dest@[k], source@, excluded.deep_view()),
            forall|k: int|
                0 <= k < i ==> #[trigger] acts@[k] == clean_decision(
                    dest@[k],
                    source@,
                    excluded.deep_view(),
                ),
        decreases dest@.len() - i,
    {
        let e = &dest[i];
        if contains_string(excluded, &e.name) {
            acts.push(CleanAction::Keep);
        } else {
            match find_entry(source, &e.name) {
                Option::None => {
                    match e.kind {
                        EntryKind::File => acts.push(CleanAction::DeleteFile),
                        EntryKind::Symlink => acts.push(CleanAction::DeleteFile),
                        EntryKind::Dir => acts.push(CleanAction::DeleteDir),
                        EntryKind::Other => {
                            let ghost wi = i as int;
                            let err = SyncError { path: e.name.clone() };
                            assert(clean_errs(dest@[wi], source@, excluded.deep_view()));
                            return Err(err);
                        },
                    }
                },
                Option::Some(j) => {
                    let both_dirs = matches!(e.kind, EntryKind::Dir) && matches!(
                        source[j].kind,
                        EntryKind::Dir,
                    );
                    if both_dirs {
                        acts.push(CleanAction::Recurse);
                    } else {
                        acts.push(CleanAction::Keep);
                    }
                },
            }
        }
        i = i + 1;
    }
    Ok(acts)
}

/// What copying does with one entry of the source directory.
#[derive(Clone, Copy, PartialEq, Eq, Structural, Debug)]
pub enum CopyAction {
    /// The destination is excluded or already up to date
    Skip,
    /// Copy the file or symlink, overwriting any destination entry
    CopyFile,
    /// The entry is a directory: copy its contents, with no exclusions,
    /// applying the newer-only rule to each entry in turn
    EnterDir,
}

/// Copying `e` is a fatal error: it would have to be copied, but it is
/// neither a file, a symlink nor a directory.
pub open spec fn copy_errs(e: FsEntry, dest: Seq<FsEntry>, excluded: Seq<Seq<char>>) -> bool {
    &&& !contains_str(excluded, e.name@)
    &&& e.kind == EntryKind::Other
    &&& match lookup(dest, e.name@) {
        Option::None => true,
        Option::Some(d) => e.mtime > d.mtime,
    }
}

/// The copy action for an entry that is due to be copied.
pub open spec fn copy_kind(e: FsEntry) -> CopyAction {
    match e.kind {
        EntryKind::File => CopyAction::CopyFile,
        EntryKind::Symlink => CopyAction::CopyFile,
        EntryKind::Dir => CopyAction::EnterDir,
        EntryKind::Other => CopyAction::Skip,
    }
}

/// The action copying takes for the entry `e` of the source directory.  An
/// excluded name is never touched.  A directory is always descended into
/// when it is copied at all: the newer-only rule is applied per leaf file,
/// so the modification-time comparison decides only for files and
/// symlinks — a file or symlink is copied where the destination has no
/// entry of that name or only a strictly older one.
pub open spec fn copy_decision(e: FsEntry, dest: Seq<FsEntry>, excluded: Seq<Seq<char>>) -> CopyAction {
    if contains_str(excluded, e.name@) {
        CopyAction::Skip
    } else {
        match lookup(dest, e.name@) {
            Option::None => copy_kind(e),
            Option::Some(d) => if e.kind == EntryKind::Dir {
                CopyAction::EnterDir
            } else if e.mtime > d.mtime {
                copy_kind(e)
            } else {
                CopyAction::Skip
            },
        }
    }
}

/// Decides, for every entry of the source directory, whether it is copied
/// into the destination, descended into, or skipped.  The first unsupported
/// entry that was due to be copied, in listing order, is a fatal error
/// naming that entry.
pub fn copy_actions(source: &Vec<FsEntry>, dest: &Vec<FsEntry>, excluded: &Vec<String>) -> (r:
    Result<Vec<CopyAction>, SyncError>)
    ensures
        match r {
            Ok(v) => {
                &&& v@.len() == source@.len()
                &&& forall|i: int|
                    0 <= i < source@.len() ==> !copy_errs(#[trigger] source@[i], dest@, excluded.deep_view())
                &&& forall|i: int|
                    0 <= i < source@.len() ==> #[trigger] v@[i] == copy_decision(
                        source@[i],
                        dest@,
                        excluded.deep_view(),
                    )
            },
            Err(e) => exists|i: int|
                {
                    &&& 0 <= i < source@.len()
                    &&& copy_errs(#[trigger] source@[i], dest@, excluded.deep_view())
                    &&& e.path@ == source@[i].name@
                    &&& forall|k: int|
                        0 <= k < i ==> !copy_errs(#[trigger] source@[k], dest@, excluded.deep_view())
                },
        },
{
    let mut acts: Vec<CopyAction> = Vec::new();
    let mut i: usize = 0;
    while i < source.len()
        invariant
            i <= source@.len(),
            acts@.len() == i,
            forall|k: int|
                0 <= k < i ==> !copy_errs(#[trigger] source@[k], dest@, excluded.deep_view()),
            forall|k: int|
                0 <= k < i ==> #[trigger] acts@[k] == copy_decision(
                    source@[k],
                    dest@,
                    excluded.deep_view(),
                ),
        decreases source@.len() - i,
    {
        let e = &source[i];
        if contains_string(excluded, &e.name) {
            acts.push(CopyAction::Skip);
        } else {
            let is_dir = matches!(e.kind, EntryKind::Dir);
            let due = match find_entry(dest, &e.name) {
                Option::None => true,
                Option::Some(j) => is_dir || e.mtime > dest[j].mtime,
            };
            if due {
                match e.kind {
                    EntryKind::File => acts.push(CopyAction::CopyFile),
                    EntryKind::Symlink => acts.push(CopyAction::CopyFile),
                    EntryKind::Dir => acts.push(CopyAction::EnterDir),
                    EntryKind::Other => {
                        let ghost wi = i as int;
                        let err = SyncError { path: e.name.clone() };
                        assert(copy_errs(source@[wi], dest@, excluded.deep_view()));
                        return Err(err);
                    },
                }
            } else {
                acts.push(CopyAction::Skip);
            }
        }
        i = i + 1;
    }
    Ok(acts)
}

/// Cleaning and copying never touch an excluded entry: an excluded name in
/// the cleaned directory is kept, and an excluded name in the copied source
/// is skipped, whatever stands on the other side.
pub proof fn lemma_sync_exclusion(
    e: FsEntry,
    other: Seq<FsEntry>,
    excluded: Seq<Seq<char>>,
)
    requires
        contains_str(excluded, e.name@),
    ensures
        clean_decision(e, other, excluded) == CleanAction::Keep,
        !clean_errs(e, other, excluded),
        copy_decision(e, other, excluded) == CopyAction::Skip,
        !copy_errs(e, other, excluded),
{
}

/// An entry present in the cleaned directory but absent from the source is
/// removed — a file or symlink is deleted, a directory is deleted
/// recursively — unless it is excluded.
pub proof fn lemma_sync_deletion(e: FsEntry, source: Seq<FsEntry>, excluded: Seq<Seq<char>>)
    requires
        !contains_str(excluded, e.name@),
        lookup(source, e.name@) is None,
    ensures
        e.kind == EntryKind::File || e.kind == EntryKind::Symlink ==> clean_decision(
            e,
            source,
            excluded,
        ) == CleanAction::DeleteFile,
        e.kind == EntryKind::Dir ==> clean_decision(e, source, excluded) == CleanAction::DeleteDir,
{
}

/// When every entry of the copied source already has a destination entry at
/// least as new, a copying pass writes nothing at this level: every file
/// and symlink is skipped, and a directory is only descended into, where
/// the same rule decides again for each entry inside.
pub proof fn lemma_copy_idempotent(
    source: Seq<FsEntry>,
    dest: Seq<FsEntry>,
    excluded: Seq<Seq<char>>,
    acts: Seq<CopyAction>,
)
    requires
        acts.len() == source.len(),
        forall|i: int|
            0 <= i < source.len() ==> #[trigger] acts[i] == copy_decision(source[i], dest, excluded),
        forall|i: int|
            0 <= i < source.len() ==> match lookup(dest, (#[trigger] source[i]).name@) {
                Option::Some(d) => source[i].mtime <= d.mtime,
                Option::None => false,
            },
    ensures
        forall|i: int|
            0 <= i < acts.len() ==> #[trigger] acts[i] == CopyAction::Skip || (source[i].kind
                == EntryKind::Dir && acts[i] == CopyAction::EnterDir),
{
}

/// When every entry of the cleaned directory still exists in the source, a
/// cleaning pass deletes nothing: every action is to keep the entry or to
/// descend into a directory present on both sides.
pub proof fn lemma_clean_no_deletions(
    dest: Seq<FsEntry>,
    source: Seq<FsEntry>,
    excluded: Seq<Seq<char>>,
    acts: Seq<CleanAction>,
)
    requires
        acts.len() == dest.len(),
        forall|i: int|
            0 <= i < dest.len() ==> #[trigger] acts[i] == clean_decision(dest[i], source, excluded),
        forall|i: int| 0 <= i < dest.len() ==> lookup(source, (#[trigger] dest[i]).name@) is Some,
    ensures
        forall|i: int|
            0 <= i < acts.len() ==> #[trigger] acts[i] == CleanAction::Keep || acts[i]
                == CleanAction::Recurse,
{
}

} // verus!
