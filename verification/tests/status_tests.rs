use rona::classify;
use rona::count_renamed_files;
use rona::get_status_files;
use rona::process_deleted_files_for_commit_message;
use rona::process_deleted_files_for_staging;
use rona::process_git_status;
use rona::select_files_to_add;
use rona::StatusEntry;

fn entry(path: &str) -> StatusEntry {
    StatusEntry {
        path: path.to_string(),
        renamed_to: None,
        index_new: false,
        index_modified: false,
        index_deleted: false,
        index_renamed: false,
        index_typechange: false,
        wt_new: false,
        wt_modified: false,
        wt_deleted: false,
    }
}

#[test]
fn test_count_renamed_files() {
    let mut renamed = entry("old.txt");
    renamed.index_renamed = true;
    renamed.renamed_to = Some("new.txt".to_string());
    let mut modified = entry("lib.rs");
    modified.index_modified = true;
    let entries = vec![renamed.clone(), modified, renamed];
    assert_eq!(count_renamed_files(&entries), 2);
    assert_eq!(count_renamed_files(&Vec::new()), 0);
}

#[test]
fn test_get_status_files_with_renamed() {
    let mut renamed = entry("old.txt");
    renamed.index_renamed = true;
    renamed.renamed_to = Some("new.txt".to_string());
    let mut added = entry("a.txt");
    added.wt_new = true;
    let entries = vec![renamed, added];
    let files = get_status_files(&entries);
    // The renamed file appears under its new name only.
    assert_eq!(files, vec!["new.txt".to_string(), "a.txt".to_string()]);
}

#[test]
fn test_get_status_files_deduplicates() {
    let mut first = entry("same.txt");
    first.wt_modified = true;
    let mut second = entry("same.txt");
    second.index_modified = true;
    let entries = vec![first, second];
    assert_eq!(get_status_files(&entries), vec!["same.txt".to_string()]);
}

#[test]
fn test_get_status_files_skips_deletions() {
    let mut wt_deleted = entry("gone.txt");
    wt_deleted.wt_deleted = true;
    let mut staged_deletion = entry("staged-gone.txt");
    staged_deletion.index_deleted = true;
    let mut kept = entry("here.txt");
    kept.wt_new = true;
    let entries = vec![wt_deleted, staged_deletion, kept];
    assert_eq!(get_status_files(&entries), vec!["here.txt".to_string()]);
}

/// Status classification: one new file, one working-tree deletion not yet
/// staged, one deletion already staged.
#[test]
fn test_classify_three_way() {
    let mut new_file = entry("a.txt");
    new_file.wt_new = true;
    let mut unstaged_deletion = entry("b.txt");
    unstaged_deletion.wt_deleted = true;
    let mut staged_deletion = entry("c.txt");
    staged_deletion.index_deleted = true;
    let entries = vec![new_file, unstaged_deletion, staged_deletion];

    let set = classify(&entries);
    assert_eq!(set.to_stage, vec!["a.txt".to_string()]);
    assert_eq!(set.to_delete, vec!["b.txt".to_string()]);
    assert_eq!(set.already_deleted, vec!["c.txt".to_string()]);
}

#[test]
fn test_process_deleted_files_for_staging_filters() {
    let mut unstaged = entry("b.txt");
    unstaged.wt_deleted = true;
    let mut staged = entry("c.txt");
    staged.index_deleted = true;
    let mut both = entry("d.txt");
    both.wt_deleted = true;
    both.index_deleted = true;
    let entries = vec![unstaged, staged, both];
    assert_eq!(
        process_deleted_files_for_staging(&entries),
        vec!["b.txt".to_string()]
    );
    assert_eq!(
        process_deleted_files_for_commit_message(&entries),
        vec!["c.txt".to_string(), "d.txt".to_string()]
    );
}

#[test]
fn test_process_git_status_lists_index_changes() {
    let mut added = entry("new.rs");
    added.index_new = true;
    let mut renamed = entry("old.rs");
    renamed.index_renamed = true;
    renamed.renamed_to = Some("renamed.rs".to_string());
    let untracked = {
        let mut e = entry("scratch.txt");
        e.wt_new = true;
        e
    };
    let entries = vec![added, renamed, untracked];
    assert_eq!(
        process_git_status(&entries),
        vec!["new.rs".to_string(), "renamed.rs".to_string()]
    );
}

/// Staging with an exclusion pattern: `*.md` excludes `b.md` and keeps
/// `a.txt`.
#[test]
fn test_select_files_to_add_with_exclusion() {
    let files = vec!["a.txt".to_string(), "b.md".to_string()];
    let patterns = vec!["*.md".to_string()];
    let (staged, excluded) = select_files_to_add(&files, &patterns);
    assert_eq!(staged, vec!["a.txt".to_string()]);
    assert_eq!(excluded, 1);
}

#[test]
fn test_select_files_to_add_no_patterns() {
    let files = vec!["a.txt".to_string(), "b.md".to_string()];
    let patterns: Vec<String> = Vec::new();
    let (staged, excluded) = select_files_to_add(&files, &patterns);
    assert_eq!(staged, files);
    assert_eq!(excluded, 0);
}

#[test]
fn test_select_files_to_add_directory_pattern() {
    let files = vec![
        "src/main.rs".to_string(),
        "target/debug/out".to_string(),
        "README.md".to_string(),
    ];
    let patterns = vec!["target/**/*".to_string()];
    let (staged, excluded) = select_files_to_add(&files, &patterns);
    assert_eq!(
        staged,
        vec!["src/main.rs".to_string(), "README.md".to_string()]
    );
    assert_eq!(excluded, 1);
}
