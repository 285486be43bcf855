use moeb::attempts::{give_up, spec_attempt_step, SpecStep};

#[test]
fn failed_attempts_are_retried_until_the_limit() {
    assert!(matches!(spec_attempt_step(1, 3, Err("boom".to_string())), SpecStep::Retry));
    assert!(matches!(spec_attempt_step(2, 3, Err("boom".to_string())), SpecStep::Retry));
    match spec_attempt_step(3, 3, Err("boom".to_string())) {
        SpecStep::GiveUp { message } => {
            assert_eq!(message, "spec generation failed after 3 attempt(s). Last error: boom")
        }
        _ => panic!("the last failed attempt must give up"),
    }
}

#[test]
fn a_successful_attempt_is_done() {
    assert!(matches!(spec_attempt_step(1, 3, Ok(())), SpecStep::Done));
    assert!(matches!(spec_attempt_step(3, 3, Ok(())), SpecStep::Done));
}

#[test]
fn no_attempt_at_all_reports_it() {
    assert_eq!(give_up(0, "no attempts made"), "spec generation failed after 0 attempt(s). Last error: no attempts made");
}
