use moeb::spec_parser::{parse_frontmatter, sanitize_slug, validate_sections, FrontmatterError, REQUIRED_SECTIONS};

fn valid_body() -> String {
    [
        "# My Specification",
        "",
        "## Raw Requirement",
        "The requirement text.",
        "",
        "## Description",
        "Technical approach.",
        "",
        "```mermaid",
        "graph TD",
        "  A --> B",
        "```",
        "",
        "## Backlinks",
        "None.",
        "",
        "## Steps",
        "### Step 1",
        "Do something.",
        "",
        "## Decisions",
        "### Decision 1",
        "Chose X.",
        "",
        "## Rubric",
        "### Structured",
        "Criteria here.",
    ]
    .join("\n")
}

fn valid_doc(domain: &str, slug: &str) -> String {
    format!("---\ndomain: {}\nslug: {}\nstatus: active\n---\n{}", domain, slug, valid_body())
}

fn fm_error(doc: &str) -> String {
    match parse_frontmatter(doc) {
        Ok(_) => panic!("expected an error"),
        Err(e) => e.message(),
    }
}

#[test]
fn parse_frontmatter_extracts_domain_and_slug() {
    let (domain, slug, _, _, _) = parse_frontmatter(&valid_doc("moeb", "my-spec")).unwrap();
    assert_eq!(domain, "moeb");
    assert_eq!(slug, "my-spec");
}

#[test]
fn parse_frontmatter_strips_block_from_body() {
    let (_, _, _, _, body) = parse_frontmatter(&valid_doc("moeb", "my-spec")).unwrap();
    assert!(!body.contains("domain:"), "body must not contain frontmatter");
    assert!(body.contains("# My Specification"));
}

#[test]
fn parse_frontmatter_rejects_missing_delimiter() {
    let err = fm_error("# No frontmatter here");
    assert!(err.contains("---"));
}

#[test]
fn parse_frontmatter_rejects_missing_domain() {
    let doc = "---\nslug: my-spec\n---\n# Title\n";
    let err = fm_error(doc);
    assert!(err.contains("domain"));
}

#[test]
fn parse_frontmatter_rejects_missing_slug() {
    let doc = "---\ndomain: moeb\n---\n# Title\n";
    let err = fm_error(doc);
    assert!(err.contains("slug"));
}

#[test]
fn parse_frontmatter_rejects_missing_status() {
    let doc = "---\ndomain: moeb\nslug: my-spec\n---\n# Title\n";
    let err = fm_error(doc);
    assert!(err.contains("status"));
}

#[test]
fn parse_frontmatter_rejects_invalid_status() {
    let doc = "---\ndomain: moeb\nslug: my-spec\nstatus: pending\n---\n# Title\n";
    let msg = fm_error(doc);
    assert!(msg.contains("pending"), "error must reproduce the invalid value; got: {}", msg);
    assert!(msg.contains("active"), "error must list permitted values; got: {}", msg);
}

#[test]
fn parse_frontmatter_accepts_all_valid_statuses() {
    for s in &["active", "superseded", "draft"] {
        let doc = format!("---\ndomain: moeb\nslug: my-spec\nstatus: {}\n---\n# Title\n", s);
        if let Err(e) = parse_frontmatter(&doc) {
            panic!("status '{}' should be valid: {}", s, e.message());
        }
    }
}

#[test]
fn parse_frontmatter_extracts_supersedes_entries() {
    let doc = "---\ndomain: moeb\nslug: my-spec\nstatus: active\nsupersedes:\n  - path: specifications/moeb/moeb.old.md\n    decision: Decision 1 — Old approach\n  - path: specifications/moeb/moeb.other.md\n    decision: Decision 2 — Another one\n---\n# Title\n";
    let (_, _, _, supersedes, _) = parse_frontmatter(doc).unwrap();
    assert_eq!(supersedes.len(), 2);
    assert_eq!(supersedes[0].0, "specifications/moeb/moeb.old.md");
    assert_eq!(supersedes[0].1, "Decision 1 — Old approach");
    assert_eq!(supersedes[1].0, "specifications/moeb/moeb.other.md");
    assert_eq!(supersedes[1].1, "Decision 2 — Another one");
}

#[test]
fn parse_frontmatter_absent_supersedes_gives_empty_vec() {
    let (_, _, _, supersedes, _) = parse_frontmatter(&valid_doc("moeb", "my-spec")).unwrap();
    assert!(supersedes.is_empty(), "no supersedes field should yield an empty vec");
}

#[test]
fn parse_frontmatter_rejects_unclosed_block() {
    match parse_frontmatter("---\ndomain: moeb\n") {
        Err(FrontmatterError::NotClosed) => {}
        other => panic!("expected NotClosed, got {:?}", other),
    }
}

#[test]
fn parse_frontmatter_rejects_empty_domain_and_slug() {
    assert!(matches!(parse_frontmatter("---\ndomain:\nslug: s\nstatus: draft\n---\n"), Err(FrontmatterError::EmptyDomain)));
    assert!(matches!(parse_frontmatter("---\ndomain: d\nslug:  \nstatus: draft\n---\n"), Err(FrontmatterError::EmptySlug)));
}

#[test]
fn parse_frontmatter_quoted_decision_and_leading_whitespace() {
    let doc = "\n  ---\ndomain: d\nslug: s\nstatus: draft\nsupersedes:\n  - path: a.md\n    decision: \"D1\"\n---\n\nBody";
    let (d, s, st, sup, body) = parse_frontmatter(doc).unwrap();
    assert_eq!((d.as_str(), s.as_str(), st.as_str()), ("d", "s", "draft"));
    assert_eq!(sup, vec![("a.md".to_string(), "D1".to_string())]);
    assert_eq!(body, "Body");
}

#[test]
fn supersedes_entry_is_dropped_when_block_ends_before_another_key() {
    let doc = "---\nsupersedes:\n  - path: a.md\n    decision: D1\ndomain: d\nslug: s\nstatus: active\n---\n";
    let (_, _, _, sup, _) = parse_frontmatter(doc).unwrap();
    assert!(sup.is_empty());
}

#[test]
fn validate_sections_passes_for_valid_body() {
    validate_sections(&valid_body(), &REQUIRED_SECTIONS).unwrap();
}

#[test]
fn validate_sections_rejects_missing_rubric() {
    let body = valid_body().replace("## Rubric\n", "");
    let err = validate_sections(&body, &REQUIRED_SECTIONS).unwrap_err();
    assert!(err.message().contains("Rubric"));
}

#[test]
fn validate_sections_rejects_missing_mermaid() {
    let body = valid_body().replace("```mermaid\n", "");
    let err = validate_sections(&body, &REQUIRED_SECTIONS).unwrap_err();
    assert!(err.message().contains("mermaid"), "got: {}", err.message());
}

#[test]
fn validate_sections_rejects_wrong_order() {
    let body = valid_body().replace(
        "## Steps\n### Step 1\nDo something.\n\n## Decisions\n### Decision 1\nChose X.",
        "## Decisions\n### Decision 1\nChose X.\n\n## Steps\n### Step 1\nDo something.",
    );
    let err = validate_sections(&body, &REQUIRED_SECTIONS).unwrap_err();
    let msg = err.message();
    assert!(msg.contains("Steps") || msg.contains("Decisions"), "got: {}", msg);
}

#[test]
fn validate_sections_uses_custom_required_list() {
    let custom: Vec<String> = REQUIRED_SECTIONS
        .iter()
        .filter(|&&s| s != "## Rubric")
        .map(|s| s.to_string())
        .collect();
    let custom_refs: Vec<&str> = custom.iter().map(|s| s.as_str()).collect();
    let body = valid_body().replace("## Rubric\n### Structured\nCriteria here.", "");
    validate_sections(&body, &custom_refs).unwrap();
}

#[test]
fn validate_sections_error_names_first_missing_section() {
    let err = validate_sections("# T\n## Raw Requirement\n", &REQUIRED_SECTIONS).unwrap_err();
    assert_eq!(err.missing, "## Description");
    assert_eq!(err.message(), "Required section missing or out of order: '## Description'");
}

#[test]
fn sanitize_slug_replaces_and_trims() {
    assert_eq!(sanitize_slug("rotate tokens"), "rotate-tokens");
    assert_eq!(sanitize_slug("  Hello, World!  "), "Hello--World");
    assert_eq!(sanitize_slug("---"), "");
    assert_eq!(sanitize_slug("héllo wörld"), "héllo-wörld");
}

#[test]
fn sanitize_slug_keeps_at_most_forty_chars() {
    let long = "a".repeat(100);
    assert_eq!(sanitize_slug(&long).chars().count(), 40);
}
