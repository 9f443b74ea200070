use rona::default_template;
use rona::fallback_commit_message;
use rona::process_template;
use rona::TemplateVariables;

// === TEMPLATE SELECTION TESTS (REGRESSION TESTS) ===
// These tests would have caught the bug where generating interactively
// without a commit number produced empty brackets []

/// REGRESSION TEST: Verify template selection logic for interactive mode with `no_commit_number`
/// This test verifies that the correct default template is chosen based on the flag
#[test]
fn test_template_selection_with_no_commit_number() {
    // Simulate what interactive generation should do with no_commit_number = true
    let no_commit_number = true;

    // The default template should NOT include commit_number placeholder
    let default_template = if no_commit_number {
        "({commit_type} on {branch_name}) {message}"
    } else {
        "[{commit_number}] ({commit_type} on {branch_name}) {message}"
    };

    let variables = TemplateVariables {
        commit_number: None,
        commit_type: "docs".to_string(),
        branch_name: "main".to_string(),
        message: "Update docs".to_string(),
        date: "2024-01-15".to_string(),
        time: "14:30:00".to_string(),
        author: "Test User".to_string(),
        email: "test@example.com".to_string(),
    };

    let result = process_template(default_template, &variables).unwrap();

    // Should NOT contain empty brackets
    assert!(
        !result.contains("[]"),
        "Output should not contain empty brackets: {result}"
    );
    assert_eq!(result, "(docs on main) Update docs");
}

/// REGRESSION TEST: Verify template selection logic for interactive mode WITH `commit_number`
#[test]
fn test_template_selection_with_commit_number() {
    // Simulate what interactive generation should do with no_commit_number = false
    let no_commit_number = false;

    // The default template SHOULD include commit_number placeholder
    let default_template = if no_commit_number {
        "({commit_type} on {branch_name}) {message}"
    } else {
        "[{commit_number}] ({commit_type} on {branch_name}) {message}"
    };

    let variables = TemplateVariables {
        commit_number: Some(42),
        commit_type: "feat".to_string(),
        branch_name: "new-feature".to_string(),
        message: "Add feature".to_string(),
        date: "2024-01-15".to_string(),
        time: "14:30:00".to_string(),
        author: "Test User".to_string(),
        email: "test@example.com".to_string(),
    };

    let result = process_template(default_template, &variables).unwrap();

    // Should contain properly formatted commit number
    assert!(
        result.starts_with("[42]"),
        "Output should start with [42]: {result}"
    );
    assert_eq!(result, "[42] (feat on new-feature) Add feature");
}

/// REGRESSION TEST: Verify that using wrong template produces the bug
/// This documents the original bug and ensures our fix prevents it
#[test]
fn test_bug_using_wrong_template_with_no_commit_number() {
    // This simulates the BUG: using default template with None commit_number
    let wrong_template = "[{commit_number}] ({commit_type} on {branch_name}) {message}";

    let variables = TemplateVariables {
        commit_number: None, // This is the key: None with a template that expects a number
        commit_type: "docs".to_string(),
        branch_name: "main".to_string(),
        message: "Update docs".to_string(),
        date: "2024-01-15".to_string(),
        time: "14:30:00".to_string(),
        author: "Test User".to_string(),
        email: "test@example.com".to_string(),
    };

    let result = process_template(wrong_template, &variables).unwrap();

    // This DOCUMENTS the bug: using wrong template produces empty brackets
    assert_eq!(result, "[] (docs on main) Update docs");
    assert!(result.contains("[]"), "This demonstrates the bug we fixed");
}

/// REGRESSION TEST: Test fallback format in interactive generation
/// Verify the fallback format also respects `no_commit_number` flag
#[test]
fn test_fallback_format_with_no_commit_number() {
    // Simulate the fallback format from interactive generation
    let no_commit_number = true;
    let commit_type = "fix";
    let branch_name = "bugfix";
    let message = "Fix issue";

    let formatted_message = if no_commit_number {
        format!("({commit_type} on {branch_name}) {message}")
    } else {
        format!("[42] ({commit_type} on {branch_name}) {message}")
    };

    assert_eq!(formatted_message, "(fix on bugfix) Fix issue");
    assert!(
        !formatted_message.contains("[]"),
        "Fallback should not produce empty brackets"
    );
}

/// REGRESSION TEST: Test fallback format with commit number
#[test]
fn test_fallback_format_with_commit_number() {
    // Simulate the fallback format from interactive generation
    let no_commit_number = false;
    let commit_number = 15u32;
    let commit_type = "feat";
    let branch_name = "feature";
    let message = "Add feature";

    let formatted_message = if no_commit_number {
        format!("({commit_type} on {branch_name}) {message}")
    } else {
        format!("[{commit_number}] ({commit_type} on {branch_name}) {message}")
    };

    assert_eq!(formatted_message, "[15] (feat on feature) Add feature");
    assert!(
        !formatted_message.contains("[]"),
        "Should not produce empty brackets"
    );
}

/// The library's fallback formatter agrees with the literal format.
#[test]
fn test_fallback_commit_message_function() {
    assert_eq!(
        fallback_commit_message(Some(15), "feat", "feature", "Add feature"),
        "[15] (feat on feature) Add feature"
    );
    assert_eq!(
        fallback_commit_message(None, "fix", "bugfix", "  Fix issue \n"),
        "(fix on bugfix) Fix issue"
    );
}

/// The library's default templates match the two literal formats.
#[test]
fn test_default_template_function() {
    assert_eq!(
        default_template(false),
        "[{commit_number}] ({commit_type} on {branch_name}) {message}"
    );
    assert_eq!(
        default_template(true),
        "({commit_type} on {branch_name}) {message}"
    );
}
