use rona::check_for_file_in_folder;
use rona::commit_header;
use rona::exclude_additions;
use rona::extract_filenames;
use rona::filter_commit_args;
use rona::format_branch_name;
use rona::format_list;
use rona::format_message;
use rona::format_message_with_suggestion;
use rona::generate_commit_message;
use rona::get_ignore_patterns;
use rona::gpg_signing_decision;
use rona::resolve_current_branch;
use rona::should_ignore_file;
use rona::Config;
use rona::HeadState;
use rona::ProjectConfig;
use rona::COMMIT_TYPES;
use rona::TemplateVariables;

#[test]
fn test_check_for_file_in_folder() {
    // Valid cases
    assert!(check_for_file_in_folder("src/file.rs", "src").unwrap());

    assert!(check_for_file_in_folder("src/nested/deep/file.rs", "src").unwrap());

    assert!(!check_for_file_in_folder("other/file.rs", "src").unwrap());
}

#[test]
fn test_check_for_file_in_folder_errors() {
    // Empty paths
    assert!(check_for_file_in_folder("", "src").is_err());

    assert!(check_for_file_in_folder("file.txt", "").is_err());
}

#[test]
fn test_check_for_file_in_folder_component_boundary() {
    // "srcx" is not inside "src": the prefix must end at a separator.
    assert!(!check_for_file_in_folder("srcx/file.rs", "src").unwrap());
}

#[test]
fn test_format_list() {
    let items = vec![
        "item1".to_string(),
        "item2".to_string(),
        "item3".to_string(),
    ];
    let formatted = format_list(&items);

    assert_eq!(formatted, "  - item1\n  - item2\n  - item3");

    // Empty list
    let empty: Vec<String> = vec![];
    assert_eq!(format_list(&empty), "");

    // Single item
    let single = vec!["item".to_string()];
    assert_eq!(format_list(&single), "  - item");
}

#[test]
fn test_format_message_texts() {
    assert_eq!(
        format_message("Oops", "It broke"),
        "🚨 ERROR: Oops\n\nIt broke"
    );
    assert_eq!(
        format_message_with_suggestion("Oops", "It broke", "Try again"),
        "🚨 ERROR: Oops\n\nIt broke\n\nTry again"
    );
}

#[test]
fn test_format_branch_name_strips_prefixes() {
    assert_eq!(
        format_branch_name(&COMMIT_TYPES, "feat/user-authentication"),
        "user-authentication"
    );
    assert_eq!(format_branch_name(&COMMIT_TYPES, "fix/memory-leak"), "memory-leak");
    // Branch names without prefixes are unchanged
    assert_eq!(format_branch_name(&COMMIT_TYPES, "main"), "main");
    // Multiple prefixes are handled; only matching `type/` sequences go
    assert_eq!(
        format_branch_name(&COMMIT_TYPES, "feat/fix/complex-branch"),
        "complex-branch"
    );
}

#[test]
fn test_resolve_current_branch_cases() {
    assert_eq!(
        resolve_current_branch(
            HeadState::OnBranch(Some("main".to_string())),
            Some(3),
            None
        )
        .unwrap(),
        "main"
    );
    assert_eq!(
        resolve_current_branch(HeadState::Detached, Some(3), None).unwrap(),
        "HEAD"
    );
    // Fresh repository without commits falls back to the default branch.
    assert_eq!(
        resolve_current_branch(HeadState::Missing, Some(0), None).unwrap(),
        "main"
    );
    assert_eq!(
        resolve_current_branch(HeadState::Missing, Some(0), Some("trunk".to_string())).unwrap(),
        "trunk"
    );
    // A missing head with commits present is an error.
    assert!(resolve_current_branch(HeadState::Missing, Some(2), None).is_err());
    assert!(resolve_current_branch(HeadState::OnBranch(None), Some(1), None).is_err());
}

#[test]
fn test_commit_header_formats() {
    assert_eq!(
        commit_header("feat", "new-feature", Some(42)),
        "[42] (feat on new-feature)\n\n\n"
    );
    assert_eq!(commit_header("docs", "main", None), "(docs on main)\n\n\n");
}

#[test]
fn test_generate_commit_message_content() {
    let modified = vec!["src/lib.rs".to_string(), "notes/todo.md".to_string()];
    let deleted = vec!["old.rs".to_string()];
    let ignore = vec!["notes".to_string()];
    let message =
        generate_commit_message("feat", "new-feature", Some(7), &modified, &deleted, &ignore)
            .unwrap();
    assert_eq!(
        message,
        "[7] (feat on new-feature)\n\n\n- `src/lib.rs`:\n\n\t\n\n- `old.rs`: deleted\n\n"
    );
}

#[test]
fn test_should_ignore_file_cases() {
    let patterns = vec!["notes".to_string(), "exact.txt".to_string()];
    // Exact listing.
    assert!(should_ignore_file("exact.txt", &patterns).unwrap());
    // Inside a listed folder.
    assert!(should_ignore_file("notes/todo.md", &patterns).unwrap());
    // Neither.
    assert!(!should_ignore_file("src/lib.rs", &patterns).unwrap());
    // An empty file path is an error once folder checks run.
    assert!(should_ignore_file("", &patterns).is_err());
}

#[test]
fn test_filter_commit_args_drops_conflicting_flags() {
    let args = vec![
        "--amend".to_string(),
        "-c".to_string(),
        "--commit-something".to_string(),
        "--no-edit".to_string(),
    ];
    assert_eq!(
        filter_commit_args(&args),
        vec!["--amend".to_string(), "--no-edit".to_string()]
    );
}

#[test]
fn test_gpg_signing_decision_cases() {
    // No key configured: never sign.
    assert!(!gpg_signing_decision(&None, true, &None, Some(true), true));
    assert!(!gpg_signing_decision(&Some(String::new()), true, &None, Some(true), true));
    // Key listed successfully: sign.
    assert!(gpg_signing_decision(&Some("KEY".to_string()), true, &None, None, false));
    // Key not listed, configured program probe decides.
    assert!(gpg_signing_decision(
        &Some("KEY".to_string()),
        false,
        &Some("gpg2".to_string()),
        Some(true),
        false
    ));
    assert!(!gpg_signing_decision(
        &Some("KEY".to_string()),
        false,
        &Some("gpg2".to_string()),
        Some(false),
        true
    ));
    // Program probe could not run: the default binary decides.
    assert!(gpg_signing_decision(
        &Some("KEY".to_string()),
        false,
        &Some("gpg2".to_string()),
        None,
        true
    ));
    // No program configured: the default binary decides.
    assert!(!gpg_signing_decision(&Some("KEY".to_string()), false, &None, None, false));
}

#[test]
fn test_extract_filenames_lines() {
    let contents = "target\n# comment\n\nnotes.md\nhas space\nplain";
    assert_eq!(
        extract_filenames(contents),
        vec!["target".to_string(), "notes.md".to_string(), "plain".to_string()]
    );
}

#[test]
fn test_get_ignore_patterns_doubles_gitignore() {
    let contents = "target\nnotes.md";
    assert_eq!(
        get_ignore_patterns(true, contents),
        vec![
            "target".to_string(),
            "notes.md".to_string(),
            "target".to_string(),
            "notes.md".to_string()
        ]
    );
    assert!(get_ignore_patterns(false, contents).is_empty());
}

#[test]
fn test_exclude_additions_content() {
    // Fresh file: marker plus both paths.
    assert_eq!(
        exclude_additions("", &vec!["a.md".to_string(), "b.md".to_string()]),
        "# Added by git-commit-rust\na.md\nb.md\n"
    );
    // Existing content without the marker: blank separator first.
    assert_eq!(
        exclude_additions("x.txt", &vec!["a.md".to_string()]),
        "\n# Added by git-commit-rust\na.md\n"
    );
    // Already recorded paths produce nothing.
    assert_eq!(
        exclude_additions("# Added by git-commit-rust\na.md\n", &vec!["a.md".to_string()]),
        ""
    );
    // With the marker present only the missing path is appended.
    assert_eq!(
        exclude_additions("# Added by git-commit-rust\na.md\n", &vec!["b.md".to_string()]),
        "b.md\n"
    );
}

#[test]
fn test_config_paths_and_flags() {
    let mut config = Config::with_root("/home/user".to_string());
    assert_eq!(config.get_config_folder_path(), "/home/user/.config/rona");
    assert_eq!(
        config.get_config_file_path(),
        "/home/user/.config/rona/config.toml"
    );
    assert!(!config.verbose);
    assert!(!config.dry_run);
    config.set_verbose(true);
    config.set_dry_run(true);
    assert!(config.verbose);
    assert!(config.dry_run);

    let bare = Config::new();
    assert_eq!(bare.get_config_folder_path(), ".config/rona");
}

#[test]
fn test_project_config_default_values() {
    let defaults = ProjectConfig::default();
    assert_eq!(defaults.editor.unwrap(), "nano");
    assert_eq!(
        defaults.commit_types.unwrap(),
        vec!["feat", "fix", "docs", "test", "chore"]
    );
    assert_eq!(
        defaults.template.unwrap(),
        "[{commit_number}] ({commit_type} on {branch_name}) {message}"
    );
}

#[test]
fn test_to_map_renders_commit_number_decimal() {
    let variables = TemplateVariables {
        commit_number: Some(1234567890),
        commit_type: "feat".to_string(),
        branch_name: "b".to_string(),
        message: "m".to_string(),
        date: "d".to_string(),
        time: "t".to_string(),
        author: "a".to_string(),
        email: "e".to_string(),
    };
    let map = variables.to_map();
    let number = map
        .iter()
        .find(|(k, _)| k == "commit_number")
        .map(|(_, v)| v.clone())
        .unwrap();
    assert_eq!(number, "1234567890");
}
