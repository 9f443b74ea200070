//! The status reconciler: classification of repository status entries.
//!
//! A `StatusEntry` is one path's place in the three-way comparison of HEAD,
//! index and working tree, as plain values. The surrounding program takes a
//! snapshot of the repository and hands it here; classification itself is a
//! pure function of the snapshot.

use vstd::prelude::*;

pub use crate::text::views_of;

verus! {

/// One path's status in the repository snapshot: the flags of the
/// HEAD/index/worktree comparison, the reported path, and — for a rename
/// recorded in the index — the new path when it is known.
#[derive(Debug, Clone)]
pub struct StatusEntry {
    pub path: String,
    pub renamed_to: Option<String>,
    pub index_new: bool,
    pub index_modified: bool,
    pub index_deleted: bool,
    pub index_renamed: bool,
    pub index_typechange: bool,
    pub wt_new: bool,
    pub wt_modified: bool,
    pub wt_deleted: bool,
}

/// The path an entry is reported under: the rename target for a rename
/// recorded in the index (none when the target is unknown), the entry's
/// own path otherwise.
pub open spec fn display_path(e: StatusEntry) -> Option<Seq<char>> {
    if e.index_renamed {
        match e.renamed_to {
            Some(p) => Some(p@),
            None => None,
        }
    } else {
        Some(e.path@)
    }
}

/// Whether an entry belongs among the files to stage: not a deletion
/// already recorded in the index (unless the working tree modified or
/// re-created the path), and not deleted in the working tree.
pub open spec fn stage_candidate(e: StatusEntry) -> bool {
    &&& !(e.index_deleted && !(e.wt_modified || e.wt_new))
    &&& !e.wt_deleted
}

/// The staging list for a snapshot: the display paths of the stage
/// candidates, in order of first appearance, without duplicates.
pub open spec fn status_files_spec(s: Seq<StatusEntry>) -> Seq<Seq<char>>
    decreases s.len(),
{
    if s.len() == 0 {
        Seq::empty()
    } else {
        let prev = status_files_spec(s.drop_last());
        if stage_candidate(s.last()) {
            match display_path(s.last()) {
                Some(p) => if prev.contains(p) {
                    prev
                } else {
                    prev.push(p)
                },
                None => prev,
            }
        } else {
            prev
        }
    }
}

/// The paths deleted in the working tree whose deletion is not yet
/// recorded in the index, in order.
pub open spec fn deleted_for_staging_spec(s: Seq<StatusEntry>) -> Seq<Seq<char>>
    decreases s.len(),
{
    if s.len() == 0 {
        Seq::empty()
    } else {
        let prev = deleted_for_staging_spec(s.drop_last());
        if s.last().wt_deleted && !s.last().index_deleted {
            prev.push(s.last().path@)
        } else {
            prev
        }
    }
}

/// The paths whose deletion the index already records, in order.
pub open spec fn deleted_for_commit_spec(s: Seq<StatusEntry>) -> Seq<Seq<char>>
    decreases s.len(),
{
    if s.len() == 0 {
        Seq::empty()
    } else {
        let prev = deleted_for_commit_spec(s.drop_last());
        if s.last().index_deleted {
            prev.push(s.last().path@)
        } else {
            prev
        }
    }
}

/// Whether the index records a change for the entry: modified, new,
/// renamed or type-changed.
pub open spec fn index_changed(e: StatusEntry) -> bool {
    e.index_modified || e.index_new || e.index_renamed || e.index_typechange
}

/// The display paths of the entries with an index-recorded change, in
/// order, duplicates kept.
pub open spec fn git_status_spec(s: Seq<StatusEntry>) -> Seq<Seq<char>>
    decreases s.len(),
{
    if s.len() == 0 {
        Seq::empty()
    } else {
        let prev = git_status_spec(s.drop_last());
        if index_changed(s.last()) {
            match display_path(s.last()) {
                Some(p) => prev.push(p),
                None => prev,
            }
        } else {
            prev
        }
    }
}

/// The number of entries whose rename the index records.
pub open spec fn renamed_count_spec(s: Seq<StatusEntry>) -> nat
    decreases s.len(),
{
    if s.len() == 0 {
        0
    } else {
        renamed_count_spec(s.drop_last()) + if s.last().index_renamed {
            1nat
        } else {
            0nat
        }
    }
}

/// Returns the display path of an entry, cloned.
fn display_path_exec(e: &StatusEntry) -> (r: Option<String>)
    ensures
        match r {
            Some(p) => display_path(*e) == Some(p@),
            None => display_path(*e) is None,
        },
{
    if e.index_renamed {
        match &e.renamed_to {
            Some(p) => Some(p.clone()),
            None => None,
        }
    } else {
        Some(e.path.clone())
    }
}

/// Whether `list` holds a string equal to `p`.
fn list_contains(list: &Vec<String>, p: &String) -> (r: bool)
    ensures
        r == views_of(list@).contains(p@),
{
    let n = list.len();
    let mut i: usize = 0;
    loop
        invariant
            i <= n,
            n == list@.len(),
            forall|k: int| 0 <= k < i ==> list@[k]@ != p@,
        decreases n - i,
    {
        if i >= n {
            proof {
                assert forall|k: int|
                    0 <= k < views_of(list@).len() implies views_of(list@)[k] != p@ by {
                    assert(views_of(list@)[k] == list@[k]@);
                }
            }
            return false;
        }
        if list[i].eq(p) {
            assert(views_of(list@)[i as int] == p@);
            return true;
        }
        i = i + 1;
    }
}

/// The files that appear in the repository status as candidates for
/// staging: everything except deletions, renamed files reported under
/// their new name only, each path at most once, in order of first
/// appearance.
pub fn get_status_files(entries: &Vec<StatusEntry>) -> (r: Vec<String>)
    ensures
        views_of(r@) == status_files_spec(entries@),
{
    let n = entries.len();
    let mut r: Vec<String> = Vec::new();
    let mut i: usize = 0;
    while i < n
        invariant
            i <= n,
            n == entries@.len(),
            views_of(r@) == status_files_spec(entries@.subrange(0, i as int)),
        decreases n - i,
    {
        let e = &entries[i];
        let skip_deleted = e.index_deleted && !(e.wt_modified || e.wt_new);
        if !skip_deleted && !e.wt_deleted {
            match display_path_exec(e) {
                Some(p) => {
                    if !list_contains(&r, &p) {
                        let ghost r0 = r@;
                        let ghost pv = p@;
                        r.push(p);
                        assert(views_of(r@) =~= views_of(r0).push(pv));
                    }
                },
                None => {},
            }
        }
        proof {
            assert(entries@.subrange(0, (i + 1) as int).drop_last() =~= entries@.subrange(
                0,
                i as int,
            ));
            assert(entries@.subrange(0, (i + 1) as int).last() == entries@[i as int]);
        }
        i = i + 1;
    }
    assert(entries@.subrange(0, n as int) =~= entries@);
    r
}

/// The files deleted in the working tree but not yet staged as deletions:
/// those whose deletion must still be recorded in the index.
pub fn process_deleted_files_for_staging(entries: &Vec<StatusEntry>) -> (r: Vec<String>)
    ensures
        views_of(r@) == deleted_for_staging_spec(entries@),
{
    let n = entries.len();
    let mut r: Vec<String> = Vec::new();
    let mut i: usize = 0;
    while i < n
        invariant
            i <= n,
            n == entries@.len(),
            views_of(r@) == deleted_for_staging_spec(entries@.subrange(0, i as int)),
        decreases n - i,
    {
        let e = &entries[i];
        if e.wt_deleted && !e.index_deleted {
            let ghost r0 = r@;
            r.push(e.path.clone());
            assert(views_of(r@) =~= views_of(r0).push(entries@[i as int].path@));
        }
        proof {
            assert(entries@.subrange(0, (i + 1) as int).drop_last() =~= entries@.subrange(
                0,
                i as int,
            ));
            assert(entries@.subrange(0, (i + 1) as int).last() == entries@[i as int]);
        }
        i = i + 1;
    }
    assert(entries@.subrange(0, n as int) =~= entries@);
    r
}

/// The files whose deletion is already staged, for the commit-message
/// body.
pub fn process_deleted_files_for_commit_message(entries: &Vec<StatusEntry>) -> (r: Vec<String>)
    ensures
        views_of(r@) == deleted_for_commit_spec(entries@),
{
    let n = entries.len();
    let mut r: Vec<String> = Vec::new();
    let mut i: usize = 0;
    while i < n
        invariant
            i <= n,
            n == entries@.len(),
            views_of(r@) == deleted_for_commit_spec(entries@.subrange(0, i as int)),
        decreases n - i,
    {
        let e = &entries[i];
        if e.index_deleted {
            let ghost r0 = r@;
            r.push(e.path.clone());
            assert(views_of(r@) =~= views_of(r0).push(entries@[i as int].path@));
        }
        proof {
            assert(entries@.subrange(0, (i + 1) as int).drop_last() =~= entries@.subrange(
                0,
                i as int,
            ));
            assert(entries@.subrange(0, (i + 1) as int).last() == entries@[i as int]);
        }
        i = i + 1;
    }
    assert(entries@.subrange(0, n as int) =~= entries@);
    r
}

/// The modified, added, renamed or type-changed files recorded in the
/// index, renamed files under their new name, for the commit-message body.
pub fn process_git_status(entries: &Vec<StatusEntry>) -> (r: Vec<String>)
    ensures
        views_of(r@) == git_status_spec(entries@),
{
    let n = entries.len();
    let mut r: Vec<String> = Vec::new();
    let mut i: usize = 0;
    while i < n
        invariant
            i <= n,
            n == entries@.len(),
            views_of(r@) == git_status_spec(entries@.subrange(0, i as int)),
        decreases n - i,
    {
        let e = &entries[i];
        if e.index_modified || e.index_new || e.index_renamed || e.index_typechange {
            match display_path_exec(e) {
                Some(p) => {
                    let ghost r0 = r@;
                    let ghost pv = p@;
                    r.push(p);
                    assert(views_of(r@) =~= views_of(r0).push(pv));
                },
                None => {},
            }
        }
        proof {
            assert(entries@.subrange(0, (i + 1) as int).drop_last() =~= entries@.subrange(
                0,
                i as int,
            ));
            assert(entries@.subrange(0, (i + 1) as int).last() == entries@[i as int]);
        }
        i = i + 1;
    }
    assert(entries@.subrange(0, n as int) =~= entries@);
    r
}

/// The number of renamed files in the snapshot. A rename appears as two
/// lines in a cached diff, so callers use this count to report file totals
/// accurately.
pub fn count_renamed_files(entries: &Vec<StatusEntry>) -> (r: usize)
    ensures
        r == renamed_count_spec(entries@),
{
    let n = entries.len();
    let mut count: usize = 0;
    let mut i: usize = 0;
    while i < n
        invariant
            i <= n,
            n == entries@.len(),
            count <= i,
            count == renamed_count_spec(entries@.subrange(0, i as int)),
        decreases n - i,
    {
        if entries[i].index_renamed {
            count = count + 1;
        }
        proof {
            assert(entries@.subrange(0, (i + 1) as int).drop_last() =~= entries@.subrange(
                0,
                i as int,
            ));
            assert(entries@.subrange(0, (i + 1) as int).last() == entries@[i as int]);
        }
        i = i + 1;
    }
    assert(entries@.subrange(0, n as int) =~= entries@);
    count
}

/// The three disjoint lists a snapshot classifies into: files to stage,
/// working-tree deletions still to stage, and deletions already staged.
#[derive(Debug, Clone)]
pub struct FileStatusSet {
    pub to_stage: Vec<String>,
    pub to_delete: Vec<String>,
    pub already_deleted: Vec<String>,
}

/// Classifies a repository snapshot into the three file lists.
pub fn classify(entries: &Vec<StatusEntry>) -> (r: FileStatusSet)
    ensures
        views_of(r.to_stage@) == status_files_spec(entries@),
        views_of(r.to_delete@) == deleted_for_staging_spec(entries@),
        views_of(r.already_deleted@) == deleted_for_commit_spec(entries@),
{
    FileStatusSet {
        to_stage: get_status_files(entries),
        to_delete: process_deleted_files_for_staging(entries),
        already_deleted: process_deleted_files_for_commit_message(entries),
    }
}

} // verus!
