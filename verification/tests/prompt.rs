use moeb::prompt::{
    combine_rubric_layers, metrics_path, no_review_text, render, replace_all, run_file_path, run_prompt_pairs,
    signals_path, spec_prompt_pairs,
};

#[test]
fn replace_all_matches_str_replace() {
    for (s, p, w) in [("a{{x}}b{{x}}", "{{x}}", "Y"), ("aaa", "aa", "b"), ("none", "{{x}}", "Y"), ("", "x", "y")] {
        assert_eq!(replace_all(s, p, w), s.replace(p, w));
    }
}

#[test]
fn render_replaces_in_order() {
    let pairs = vec![("{{a}}".to_string(), "{{b}}".to_string()), ("{{b}}".to_string(), "B".to_string())];
    assert_eq!(render("x {{a}} {{b}}", &pairs), "x B B");
}

#[test]
fn run_substitutes_readme_and_spec_content() {
    let pairs = run_prompt_pairs(
        "ROLE", ".moeb/specifications/moeb/login.md", "readme-body", "spec-body", "SKILL", "RUBRICS", "false", "5",
        "0.10", "run-1", ".moeb/runs/t_run_login.json",
    );
    let template = "{{role_content}}|{{spec}}|{{readme_content}}|{{spec_content}}|{{skill_content}}|{{command_rubrics}}|{{no_review}}|{{metrics_window}}|{{metrics_degradation_margin}}|{{run_id}}|{{run_file_path}}";
    let prompt = render(template, &pairs);
    assert!(prompt.contains("readme-body"), "prompt must contain README content");
    assert!(prompt.contains("spec-body"), "prompt must contain spec content");
    assert!(!prompt.contains("{{readme_content}}"), "{{readme_content}} token must be replaced");
    assert!(!prompt.contains("{{spec_content}}"), "{{spec_content}} token must be replaced");
    assert_eq!(
        prompt,
        "ROLE|.moeb/specifications/moeb/login.md|readme-body|spec-body|SKILL|RUBRICS|false|5|0.10|run-1|.moeb/runs/t_run_login.json"
    );
}

#[test]
fn spec_prompt_substitutes_input() {
    let pairs = spec_prompt_pairs("R", "add login", "RM", "SCHEMA", "CAT", "SK", "CR", "true", "5", "0.10", "id", "p");
    assert_eq!(render("{{input}} / {{spec_schema_content}} / {{rubrics_content}}", &pairs), "add login / SCHEMA / CAT");
}

#[test]
fn rubric_layers_skip_blank_ones() {
    let layers = vec!["g".to_string(), "  \n".to_string(), "r".to_string(), String::new()];
    assert_eq!(combine_rubric_layers(&layers), "g\n\nr");
    assert_eq!(combine_rubric_layers(&vec![" ".to_string()]), "");
}

#[test]
fn run_paths() {
    assert_eq!(run_file_path("20240101T000000Z", "run", "login"), ".moeb/runs/20240101T000000Z_run_login.json");
    assert_eq!(signals_path("r1"), ".moeb/signals/r1.signals.json");
    assert_eq!(metrics_path("r1"), ".moeb/metrics/r1.metrics.json");
    assert_eq!(no_review_text(false, true), "false");
    assert_eq!(no_review_text(false, false), "true");
    assert_eq!(no_review_text(true, true), "true");
}
