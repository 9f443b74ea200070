use rona::process_template;
use rona::validate_template;
use rona::TemplateVariables;

fn map_get(map: &[(String, String)], key: &str) -> Option<String> {
    map.iter().find(|(k, _)| k == key).map(|(_, v)| v.clone())
}

#[test]
fn test_template_processing() {
    let template = "[{commit_number}] ({commit_type} on {branch_name}) {message}";
    let variables = TemplateVariables {
        commit_number: Some(42),
        commit_type: "feat".to_string(),
        branch_name: "feature/new-feature".to_string(),
        message: "Add new functionality".to_string(),
        date: "2024-01-15".to_string(),
        time: "14:30:00".to_string(),
        author: "John Doe".to_string(),
        email: "john@example.com".to_string(),
    };

    let result = process_template(template, &variables).unwrap();
    assert_eq!(
        result,
        "[42] (feat on feature/new-feature) Add new functionality"
    );
}

#[test]
fn test_template_without_commit_number() {
    let template = "({commit_type} on {branch_name}) {message}";
    let variables = TemplateVariables {
        commit_number: None,
        commit_type: "fix".to_string(),
        branch_name: "main".to_string(),
        message: "Fix bug".to_string(),
        date: "2024-01-15".to_string(),
        time: "14:30:00".to_string(),
        author: "John Doe".to_string(),
        email: "john@example.com".to_string(),
    };

    let result = process_template(template, &variables).unwrap();
    assert_eq!(result, "(fix on main) Fix bug");
}

#[test]
fn test_template_validation_valid() {
    let template = "[{commit_number}] ({commit_type} on {branch_name}) {message}";
    assert!(validate_template(template).is_ok());
}

#[test]
fn test_template_validation_invalid() {
    let template = "[{commit_number}] ({invalid_var} on {branch_name}) {message}";
    assert!(validate_template(template).is_err());
}

#[test]
fn test_template_variables_to_map() {
    let variables = TemplateVariables {
        commit_number: Some(42),
        commit_type: "feat".to_string(),
        branch_name: "feature/test".to_string(),
        message: "Test message".to_string(),
        date: "2024-01-15".to_string(),
        time: "14:30:00".to_string(),
        author: "Test Author".to_string(),
        email: "test@example.com".to_string(),
    };

    let map = variables.to_map();
    assert_eq!(map_get(&map, "commit_number").unwrap(), "42");
    assert_eq!(map_get(&map, "commit_type").unwrap(), "feat");
    assert_eq!(map_get(&map, "branch_name").unwrap(), "feature/test");
    assert_eq!(map_get(&map, "message").unwrap(), "Test message");
    assert_eq!(map_get(&map, "date").unwrap(), "2024-01-15");
    assert_eq!(map_get(&map, "time").unwrap(), "14:30:00");
    assert_eq!(map_get(&map, "author").unwrap(), "Test Author");
    assert_eq!(map_get(&map, "email").unwrap(), "test@example.com");
}

#[test]
fn test_template_with_all_variables() {
    let template = "{commit_type}: {message} by {author} <{email}> on {branch_name} at {date} {time} (#{commit_number})";
    let variables = TemplateVariables {
        commit_number: Some(123),
        commit_type: "fix".to_string(),
        branch_name: "hotfix/critical-bug".to_string(),
        message: "Fix critical authentication bug".to_string(),
        date: "2024-01-15".to_string(),
        time: "14:30:00".to_string(),
        author: "Jane Doe".to_string(),
        email: "jane@company.com".to_string(),
    };

    let result = process_template(template, &variables).unwrap();
    assert_eq!(
        result,
        "fix: Fix critical authentication bug by Jane Doe <jane@company.com> on hotfix/critical-bug at 2024-01-15 14:30:00 (#123)"
    );
}

#[test]
fn test_template_with_emoji() {
    let template = "🚀 {commit_type}: {message}";
    let variables = TemplateVariables {
        commit_number: None,
        commit_type: "feat".to_string(),
        branch_name: "feature/new-feature".to_string(),
        message: "Add new feature".to_string(),
        date: "2024-01-15".to_string(),
        time: "14:30:00".to_string(),
        author: "John Doe".to_string(),
        email: "john@example.com".to_string(),
    };

    let result = process_template(template, &variables).unwrap();
    assert_eq!(result, "🚀 feat: Add new feature");
}

#[test]
fn test_template_without_commit_number_variable() {
    let template = "({commit_type} on {branch_name}) {message}";
    let variables = TemplateVariables {
        commit_number: None,
        commit_type: "docs".to_string(),
        branch_name: "main".to_string(),
        message: "Update documentation".to_string(),
        date: "2024-01-15".to_string(),
        time: "14:30:00".to_string(),
        author: "John Doe".to_string(),
        email: "john@example.com".to_string(),
    };

    let result = process_template(template, &variables).unwrap();
    assert_eq!(result, "(docs on main) Update documentation");
}

#[test]
fn test_template_validation_with_unknown_variable() {
    let template = "[{commit_number}] ({unknown_var} on {branch_name}) {message}";
    let result = validate_template(template);
    assert!(result.is_err());
    assert!(result
        .unwrap_err()
        .message()
        .contains("Unknown template variable"));
}

/// REGRESSION TEST: This test would have caught the bug where using the default template
/// with `no_commit_number` flag would produce empty brackets "[]"
#[test]
fn test_default_template_with_none_commit_number_produces_empty_brackets() {
    // This is the BUG - using default template with None commit_number
    let template = "[{commit_number}] ({commit_type} on {branch_name}) {message}";
    let variables = TemplateVariables {
        commit_number: None,
        commit_type: "docs".to_string(),
        branch_name: "main".to_string(),
        message: "Update docs".to_string(),
        date: "2024-01-15".to_string(),
        time: "14:30:00".to_string(),
        author: "John Doe".to_string(),
        email: "john@example.com".to_string(),
    };

    let result = process_template(template, &variables).unwrap();

    // This demonstrates the bug: empty brackets appear
    assert_eq!(result, "[] (docs on main) Update docs");

    // The output should NOT contain empty brackets
    assert!(
        result.contains("[]"),
        "This test documents the bug: empty brackets appear when commit_number is None"
    );
}

/// REGRESSION TEST: Verify that using the correct template avoids empty brackets
#[test]
fn test_template_without_commit_number_placeholder_avoids_empty_brackets() {
    // This is the FIX - use appropriate template without commit_number placeholder
    let template = "({commit_type} on {branch_name}) {message}";
    let variables = TemplateVariables {
        commit_number: None,
        commit_type: "docs".to_string(),
        branch_name: "main".to_string(),
        message: "Update docs".to_string(),
        date: "2024-01-15".to_string(),
        time: "14:30:00".to_string(),
        author: "John Doe".to_string(),
        email: "john@example.com".to_string(),
    };

    let result = process_template(template, &variables).unwrap();

    // Correct output without empty brackets
    assert_eq!(result, "(docs on main) Update docs");

    // Verify no empty brackets
    assert!(
        !result.contains("[]"),
        "Output should not contain empty brackets"
    );
    assert!(
        !result.contains("[{"),
        "Output should not contain unprocessed template variables"
    );
}

/// REGRESSION TEST: Test multiple scenarios with None `commit_number`
#[test]
fn test_various_templates_with_none_commit_number() {
    let variables = TemplateVariables {
        commit_number: None,
        commit_type: "feat".to_string(),
        branch_name: "new-feature".to_string(),
        message: "Add feature".to_string(),
        date: "2024-01-15".to_string(),
        time: "14:30:00".to_string(),
        author: "Jane Doe".to_string(),
        email: "jane@example.com".to_string(),
    };

    // Test template WITH commit_number placeholder (produces empty brackets - the bug)
    let template_with = "[{commit_number}] {commit_type}: {message}";
    let result_with = process_template(template_with, &variables).unwrap();
    assert!(
        result_with.starts_with("[]"),
        "Bug: produces empty brackets"
    );

    // Test template WITHOUT commit_number placeholder (correct)
    let template_without = "{commit_type}: {message}";
    let result_without = process_template(template_without, &variables).unwrap();
    assert_eq!(result_without, "feat: Add feature");
    assert!(
        !result_without.contains("[]"),
        "Should not contain empty brackets"
    );

    // Test template with optional-style syntax (shows limitation of current implementation)
    let template_prefix = "#{commit_number} {commit_type}: {message}";
    let result_prefix = process_template(template_prefix, &variables).unwrap();
    assert_eq!(
        result_prefix, "# feat: Add feature",
        "Empty string for None values"
    );
}

/// REGRESSION TEST: Verify `commit_number` `to_map` behavior
#[test]
fn test_variables_to_map_with_none_commit_number() {
    let variables = TemplateVariables {
        commit_number: None,
        commit_type: "test".to_string(),
        branch_name: "testing".to_string(),
        message: "Test message".to_string(),
        date: "2024-01-15".to_string(),
        time: "14:30:00".to_string(),
        author: "Test User".to_string(),
        email: "test@example.com".to_string(),
    };

    let map = variables.to_map();

    // When commit_number is None, it should map to empty string
    assert_eq!(map_get(&map, "commit_number").unwrap(), "");
    assert_eq!(map_get(&map, "commit_type").unwrap(), "test");

    // This empty string is what causes the bug when used in "[{commit_number}]"
}

// CONDITIONAL BLOCK TESTS

#[test]
fn test_conditional_block_with_value() {
    let template = "{?commit_number}[{commit_number}] {/commit_number}({commit_type} on {branch_name}) {message}";
    let variables = TemplateVariables {
        commit_number: Some(42),
        commit_type: "feat".to_string(),
        branch_name: "new-feature".to_string(),
        message: "Add feature".to_string(),
        date: "2024-01-15".to_string(),
        time: "14:30:00".to_string(),
        author: "John Doe".to_string(),
        email: "john@example.com".to_string(),
    };

    let result = process_template(template, &variables).unwrap();
    assert_eq!(result, "[42] (feat on new-feature) Add feature");
}

#[test]
fn test_conditional_block_without_value() {
    let template = "{?commit_number}[{commit_number}] {/commit_number}({commit_type} on {branch_name}) {message}";
    let variables = TemplateVariables {
        commit_number: None,
        commit_type: "feat".to_string(),
        branch_name: "new-feature".to_string(),
        message: "Add feature".to_string(),
        date: "2024-01-15".to_string(),
        time: "14:30:00".to_string(),
        author: "John Doe".to_string(),
        email: "john@example.com".to_string(),
    };

    let result = process_template(template, &variables).unwrap();
    // The conditional block should be completely removed, including the space after it
    assert_eq!(result, "(feat on new-feature) Add feature");
    // Verify no empty brackets
    assert!(!result.contains("[]"));
}

#[test]
fn test_multiple_conditional_blocks() {
    let template = "{?commit_number}[{commit_number}]{/commit_number} {?date}on {date}{/date} ({commit_type}) {message}";
    let variables = TemplateVariables {
        commit_number: Some(5),
        commit_type: "fix".to_string(),
        branch_name: "bugfix".to_string(),
        message: "Fix bug".to_string(),
        date: "2024-01-15".to_string(),
        time: "14:30:00".to_string(),
        author: "Jane Doe".to_string(),
        email: "jane@example.com".to_string(),
    };

    let result = process_template(template, &variables).unwrap();
    assert_eq!(result, "[5] on 2024-01-15 (fix) Fix bug");
}

#[test]
fn test_multiple_conditional_blocks_partial() {
    let template = "{?commit_number}[{commit_number}]{/commit_number} {?author}by {author}{/author} - {message}";
    let variables = TemplateVariables {
        commit_number: None,
        commit_type: "docs".to_string(),
        branch_name: "docs".to_string(),
        message: "Update docs".to_string(),
        date: "2024-01-15".to_string(),
        time: "14:30:00".to_string(),
        author: "Alice".to_string(),
        email: "alice@example.com".to_string(),
    };

    let result = process_template(template, &variables).unwrap();
    // commit_number is None, so first block removed; author has value, so second block kept
    assert_eq!(result, " by Alice - Update docs");
}

#[test]
fn test_conditional_block_with_static_text() {
    let template = "{?commit_number}Commit #{commit_number}: {/commit_number}{message}";
    let variables = TemplateVariables {
        commit_number: Some(100),
        commit_type: "chore".to_string(),
        branch_name: "main".to_string(),
        message: "Update dependencies".to_string(),
        date: "2024-01-15".to_string(),
        time: "14:30:00".to_string(),
        author: "Bob".to_string(),
        email: "bob@example.com".to_string(),
    };

    let result = process_template(template, &variables).unwrap();
    assert_eq!(result, "Commit #100: Update dependencies");
}

#[test]
fn test_conditional_block_validation_valid() {
    let template = "{?commit_number}[{commit_number}] {/commit_number}({commit_type}) {message}";
    assert!(validate_template(template).is_ok());
}

#[test]
fn test_conditional_block_validation_unclosed() {
    let template = "{?commit_number}[{commit_number}] ({commit_type}) {message}";
    let result = validate_template(template);
    assert!(result.is_err());
    assert!(result
        .unwrap_err()
        .message()
        .contains("Unclosed conditional block"));
}

#[test]
fn test_conditional_block_validation_unmatched_closing() {
    let template = "[{commit_number}] {/commit_number}({commit_type}) {message}";
    let result = validate_template(template);
    assert!(result.is_err());
    assert!(result
        .unwrap_err()
        .message()
        .contains("Unmatched closing tag"));
}

#[test]
fn test_conditional_block_validation_invalid_variable() {
    let template = "{?invalid_var}[{invalid_var}]{/invalid_var} {message}";
    let result = validate_template(template);
    assert!(result.is_err());
    assert!(result
        .unwrap_err()
        .message()
        .contains("Unknown variable in conditional block"));
}

#[test]
fn test_conditional_block_empty_string_variable() {
    // Test that empty string is treated as "no value"
    let template = "{?commit_number}[{commit_number}] {/commit_number}{message}";
    let variables = TemplateVariables {
        commit_number: None,
        commit_type: "test".to_string(),
        branch_name: "test".to_string(),
        message: "Test".to_string(),
        date: "2024-01-15".to_string(),
        time: "14:30:00".to_string(),
        author: "Tester".to_string(),
        email: "test@example.com".to_string(),
    };

    let result = process_template(template, &variables).unwrap();
    assert_eq!(result, "Test");
    assert!(!result.contains("[]"));
}

#[test]
fn test_original_bug_fix() {
    // This is the original problem: using -n flag should not produce empty brackets
    let template = "{?commit_number}[{commit_number}] {/commit_number}({commit_type} on {branch_name}) {message}";

    // Scenario 1: With commit number (normal flow)
    let with_number = TemplateVariables {
        commit_number: Some(42),
        commit_type: "feat".to_string(),
        branch_name: "new-feature".to_string(),
        message: "Add feature".to_string(),
        date: "2024-01-15".to_string(),
        time: "14:30:00".to_string(),
        author: "Dev".to_string(),
        email: "dev@example.com".to_string(),
    };

    let result_with = process_template(template, &with_number).unwrap();
    assert_eq!(result_with, "[42] (feat on new-feature) Add feature");

    // Scenario 2: Without commit number (-n flag)
    let without_number = TemplateVariables {
        commit_number: None,
        commit_type: "feat".to_string(),
        branch_name: "new-feature".to_string(),
        message: "Add feature".to_string(),
        date: "2024-01-15".to_string(),
        time: "14:30:00".to_string(),
        author: "Dev".to_string(),
        email: "dev@example.com".to_string(),
    };

    let result_without = process_template(template, &without_number).unwrap();
    assert_eq!(result_without, "(feat on new-feature) Add feature");
    // CRITICAL: No empty brackets!
    assert!(!result_without.contains("[]"));
    assert!(!result_without.starts_with("[]"));
}

/// A substituted value is emitted verbatim: placeholder syntax inside a
/// value is not substituted again.
#[test]
fn test_value_with_placeholder_text_not_resubstituted() {
    let template = "{message}";
    let variables = TemplateVariables {
        commit_number: None,
        commit_type: "feat".to_string(),
        branch_name: "main".to_string(),
        message: "literal {commit_type} stays".to_string(),
        date: "2024-01-15".to_string(),
        time: "14:30:00".to_string(),
        author: "Dev".to_string(),
        email: "dev@example.com".to_string(),
    };

    let result = process_template(template, &variables).unwrap();
    assert_eq!(result, "literal {commit_type} stays");
}

/// Rendering twice with the same inputs gives byte-identical output.
#[test]
fn test_render_deterministic() {
    let template = "{?commit_number}[{commit_number}] {/commit_number}{commit_type}: {message}";
    let variables = TemplateVariables {
        commit_number: Some(7),
        commit_type: "fix".to_string(),
        branch_name: "main".to_string(),
        message: "Repeatable".to_string(),
        date: "2024-01-15".to_string(),
        time: "14:30:00".to_string(),
        author: "Dev".to_string(),
        email: "dev@example.com".to_string(),
    };

    let first = process_template(template, &variables).unwrap();
    let second = process_template(template, &variables).unwrap();
    assert_eq!(first, second);
    assert_eq!(first, "[7] fix: Repeatable");
}

/// Unknown placeholder names render as empty strings when validation is
/// skipped.
#[test]
fn test_render_unknown_placeholder_empty() {
    let variables = TemplateVariables {
        commit_number: None,
        commit_type: "feat".to_string(),
        branch_name: "main".to_string(),
        message: "msg".to_string(),
        date: "2024-01-15".to_string(),
        time: "14:30:00".to_string(),
        author: "Dev".to_string(),
        email: "dev@example.com".to_string(),
    };
    let result = process_template("a{nope}b", &variables).unwrap();
    assert_eq!(result, "ab");
}

/// Rendering a template whose opener has no closer fails with the
/// unclosed-block error naming the variable.
#[test]
fn test_render_unclosed_error() {
    let variables = TemplateVariables {
        commit_number: None,
        commit_type: "feat".to_string(),
        branch_name: "main".to_string(),
        message: "msg".to_string(),
        date: "2024-01-15".to_string(),
        time: "14:30:00".to_string(),
        author: "Dev".to_string(),
        email: "dev@example.com".to_string(),
    };
    let err = process_template("{?author}x", &variables).unwrap_err();
    assert_eq!(
        err,
        rona::TemplateError::UnclosedConditionalBlock("author".to_string())
    );
    assert!(err.message().contains("Unclosed conditional block: {?author}"));
}

/// Edge cases: the empty template is valid and renders to the empty
/// string; unmatched braces pass through the conditional pass.
#[test]
fn test_empty_and_brace_edge_cases() {
    let variables = TemplateVariables {
        commit_number: Some(u32::MAX),
        commit_type: "feat".to_string(),
        branch_name: "main".to_string(),
        message: "msg".to_string(),
        date: "d".to_string(),
        time: "t".to_string(),
        author: "a".to_string(),
        email: "e".to_string(),
    };
    assert!(validate_template("").is_ok());
    assert_eq!(process_template("", &variables).unwrap(), "");
    // A stray opening brace starts a placeholder that runs to the next
    // closing brace; its (unknown) name substitutes to the empty string.
    assert_eq!(process_template("{ {commit_type}", &variables).unwrap(), "");
    // Without any closing brace, the brace passes through untouched.
    assert_eq!(process_template("{ x", &variables).unwrap(), "{ x");
    // The largest commit number renders in full.
    assert_eq!(
        process_template("{commit_number}", &variables).unwrap(),
        "4294967295"
    );
}
