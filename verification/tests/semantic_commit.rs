use semantic_commit::grammar::gate_pattern;
use semantic_commit::grammar::validate;
use semantic_commit::grammar::Validation;
use semantic_commit::grammar::MAX_DESCRIPTION;
use semantic_commit::record::CommitInfo;
use semantic_commit::record::CommitType;
use semantic_commit::text::normalize_issue;
use semantic_commit::text::trim;

fn composed(
    type_index: usize,
    scope: &str,
    desc: &str,
    body: Option<&str>,
    breaking: bool,
    issues: &[&str],
) -> CommitInfo {
    let mut info = CommitInfo::new();
    info.choose_type(type_index);
    info.set_scope(scope);
    info.set_description(desc.to_string());
    info.set_body(body.map(|b| b.to_string()));
    info.set_breaking(breaking);
    for issue in issues {
        info.add_issue(issue);
    }
    info
}

#[test]
fn accepts_every_commit_type() {
    let all = CommitType::all();
    assert_eq!(all.len(), 11);
    for (i, t) in all.iter().enumerate() {
        let info = composed(i, "", "add user authentication", None, false, &[]);
        let message = info.to_message();
        assert_eq!(message, format!("{}: add user authentication", t.tag()));
        assert!(validate(&message).is_accepted());
    }
}

#[test]
fn type_table_is_fixed() {
    let tags: Vec<&str> = CommitType::all().iter().map(|t| t.tag()).collect();
    assert_eq!(
        tags,
        vec![
            "feat", "fix", "docs", "style", "refactor", "perf", "test", "build", "ci",
            "chore", "revert"
        ]
    );
    assert_eq!(CommitType::from_index(0), CommitType::Feat);
    assert_eq!(CommitType::from_index(10), CommitType::Revert);
    assert_eq!(CommitType::Feat.label(), "New features");
}

#[test]
fn scope_of_allowed_characters_accepted() {
    let info = composed(0, "api-v2", "tighten auth", None, false, &[]);
    let message = info.to_message();
    assert_eq!(message, "feat(api-v2): tighten auth");
    assert!(validate(&message).is_accepted());
}

#[test]
fn scope_with_foreign_characters_rejected() {
    let upper = composed(0, "API", "tighten auth", None, false, &[]);
    assert!(!validate(&upper.to_message()).is_accepted());
    let underscore = composed(0, "my_scope", "tighten auth", None, false, &[]);
    assert!(!validate(&underscore.to_message()).is_accepted());
    assert!(!validate("feat(a b): x").is_accepted());
}

#[test]
fn empty_scope_group_rejected() {
    assert!(!validate("feat(): x").is_accepted());
}

#[test]
fn merge_first_line_always_accepted() {
    assert!(validate("Merge branch 'main'").is_accepted());
    assert!(validate("Merge branch 'dev'\n\nnot a valid header at all !!!").is_accepted());
    assert!(validate("Merged remote work").is_accepted());
    assert!(validate("Merge").is_accepted());
    assert!(!validate("A Merge line that starts elsewhere").is_accepted());
}

#[test]
fn issue_lines_keep_order() {
    let info = composed(0, "", "close things", None, false, &["12", "7"]);
    let message = info.to_message();
    assert_eq!(message, "feat: close things\n\nCloses #12\nCloses #7\n");
    assert!(validate(&message).is_accepted());
}

#[test]
fn duplicate_issues_kept() {
    let info = composed(0, "", "close things", None, false, &["7", "7"]);
    assert_eq!(
        info.to_message(),
        "feat: close things\n\nCloses #7\nCloses #7\n"
    );
}

#[test]
fn breaking_change_composition() {
    let info = composed(0, "", "drop legacy API", None, true, &[]);
    assert_eq!(
        info.to_message(),
        "feat!: drop legacy API\n\nBREAKING CHANGE: drop legacy API"
    );
    assert!(validate(&info.to_message()).is_accepted());
}

#[test]
fn description_length_boundary() {
    assert_eq!(MAX_DESCRIPTION, 100);
    let exact = "a".repeat(100);
    let over = "a".repeat(101);
    let accepted = composed(0, "", &exact, None, false, &[]);
    assert!(validate(&accepted.to_message()).is_accepted());
    let rejected = composed(0, "", &over, None, false, &[]);
    assert!(!validate(&rejected.to_message()).is_accepted());
}

#[test]
fn empty_description_rejected() {
    assert!(!validate("feat: ").is_accepted());
    let info = composed(0, "", "", None, false, &[]);
    assert_eq!(info.to_message(), "feat: ");
    assert!(!validate(&info.to_message()).is_accepted());
}

#[test]
fn round_trip_of_composed_records() {
    let samples = vec![
        composed(1, "api", "handle null pointer", None, false, &[]),
        composed(4, "core", "split the parser", Some("Long story."), false, &["42"]),
        composed(10, "", "undo the release", None, true, &["1", "2", "3"]),
        composed(8, "ci-env", "pin the runner image", Some("   "), false, &[]),
    ];
    for info in samples {
        assert!(validate(&info.to_message()).is_accepted());
    }
}

#[test]
fn full_message_serialization() {
    let info = composed(
        1,
        "  api  ",
        "handle null pointer",
        Some("  Callers pass null on resume.  "),
        true,
        &["12", "#7"],
    );
    assert_eq!(
        info.to_message(),
        "fix(api)!: handle null pointer\n\nCallers pass null on resume.\n\nBREAKING CHANGE: handle null pointer\n\nCloses #12\nCloses #7\n"
    );
    assert!(validate(&info.to_message()).is_accepted());
}

#[test]
fn whitespace_body_is_absent() {
    let info = composed(0, "", "add x", Some(" \n \t "), false, &[]);
    assert_eq!(info.to_message(), "feat: add x");
}

#[test]
fn header_grammar_edge_cases() {
    assert!(validate("fix(api): handle null pointer").is_accepted());
    assert!(validate("feat!: breaking change").is_accepted());
    assert!(validate("feat(api)!: breaking change").is_accepted());
    assert!(!validate("unknown: x").is_accepted());
    assert!(!validate("feat:x").is_accepted());
    assert!(!validate("feat x").is_accepted());
    assert!(!validate("feat(api)x: y").is_accepted());
    assert!(!validate("feat(api): ").is_accepted());
    assert!(!validate("").is_accepted());
    assert!(!validate("feature: x").is_accepted());
}

#[test]
fn rejection_reason_text() {
    match validate("nope") {
        Validation::Rejected(reason) => {
            assert_eq!(
                reason,
                "Invalid commit message format!\n\nFormat: <type>[optional scope]: <description>\n\nTypes: feat, fix, docs, style, refactor, perf, test, build, ci, chore, revert\n\nExamples:\n  feat: add user authentication\n  fix(api): handle null pointer\n  feat!: breaking change\n"
            );
        }
        Validation::Accepted => panic!("an invalid header must be rejected"),
    }
}

#[test]
fn composer_defaults_and_steps() {
    let mut info = CommitInfo::new();
    info.set_description("x".to_string());
    assert_eq!(info.to_message(), "feat: x");

    info.choose_type(10);
    assert_eq!(info.to_message(), "revert: x");

    info.set_scope("  api  ");
    assert_eq!(info.to_message(), "revert(api): x");

    info.set_scope("   ");
    assert_eq!(info.to_message(), "revert: x");
}

#[test]
fn issue_input_normalized() {
    let mut info = CommitInfo::new();
    info.set_description("x".to_string());
    assert!(info.add_issue("  #42  "));
    assert!(info.add_issue("##7"));
    assert!(!info.add_issue(""));
    assert!(!info.add_issue("   "));
    assert_eq!(info.to_message(), "feat: x\n\nCloses #42\nCloses #7\n");
}

#[test]
fn gate_pattern_text() {
    assert_eq!(
        gate_pattern(),
        "^(feat|fix|docs|style|refactor|perf|test|build|ci|chore|revert)(\\([a-z0-9-]+\\))?!?: .{1,100}$"
    );
}

#[test]
fn text_helpers() {
    assert_eq!(trim("  x  "), "x");
    assert_eq!(trim(""), "");
    assert_eq!(trim(" \t\n"), "");
    assert_eq!(normalize_issue("  ##12 "), "12");
    assert_eq!(normalize_issue("7"), "7");
}
