use moeb::config::Secrets;
use moeb::project::{adapter_statuses, gitignore_update, pick_single_match, spec_file_matches, spec_match_message, SpecMatchError};

#[test]
fn gitignore_gets_the_secrets_entry_once() {
    assert_eq!(gitignore_update(None), Some(".moeb/.secrets\n".to_string()));
    assert_eq!(gitignore_update(Some("target/")), Some("target/\n.moeb/.secrets\n".to_string()));
    assert_eq!(gitignore_update(Some("target/\n")), Some("target/\n.moeb/.secrets\n".to_string()));
    assert_eq!(gitignore_update(Some("a\n  .moeb/.secrets  \nb\n")), None);
    assert_eq!(gitignore_update(Some("")), Some("\n.moeb/.secrets\n".to_string()));
}

#[test]
fn adapter_listing() {
    let mut secrets = Secrets::empty();
    secrets.set("GEMINI_API_KEY", "k");
    let rows = adapter_statuses(&Some("ollama".to_string()), &secrets);
    let names: Vec<&str> = rows.iter().map(|r| r.name).collect();
    assert_eq!(names, vec!["openai", "anthropic", "gemini", "ollama"]);
    let configured: Vec<bool> = rows.iter().map(|r| r.configured).collect();
    assert_eq!(configured, vec![false, false, true, true]);
    let active: Vec<bool> = rows.iter().map(|r| r.active).collect();
    assert_eq!(active, vec![false, false, false, true]);
}

#[test]
fn spec_files_are_markdown_containing_the_query() {
    assert!(spec_file_matches("login.feature.md", Some("md"), "login"));
    assert!(!spec_file_matches("login.txt", Some("txt"), "login"));
    assert!(!spec_file_matches("signup.md", Some("md"), "login"));
    assert!(!spec_file_matches("README", None, ""));
}

#[test]
fn exactly_one_match_is_needed() {
    assert_eq!(pick_single_match(0), Err(SpecMatchError::NoMatch));
    assert_eq!(pick_single_match(1), Ok(()));
    assert_eq!(pick_single_match(2), Err(SpecMatchError::Ambiguous));
    assert_eq!(
        spec_match_message(SpecMatchError::NoMatch, "x", ".moeb/specifications"),
        "No specification found matching 'x' under .moeb/specifications."
    );
}
