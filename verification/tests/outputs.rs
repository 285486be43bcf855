use moeb::outputs::{critical_signal_with, make_critical_signal, missing_output_signals};
use moeb::review::{ReviewCategory, ReviewSeverity};

#[test]
fn both_outputs_missing_gives_two_critical_signals_in_order() {
    let signals = missing_output_signals("r1", true, true);
    assert_eq!(signals.len(), 2);
    assert_eq!(signals[0].title, "Signals file not written by agent");
    assert_eq!(
        signals[0].description,
        "End-of-Skill Review phase did not complete. Expected: .moeb/signals/r1.signals.json"
    );
    assert_eq!(signals[1].title, "Metrics file not written by agent");
    assert_eq!(
        signals[1].description,
        "Metrics Recording phase did not complete. Expected: .moeb/metrics/r1.metrics.json"
    );
    for s in &signals {
        assert_eq!(s.run_id, "r1");
        assert_eq!(s.category, ReviewCategory::Error);
        assert_eq!(s.severity, ReviewSeverity::Critical);
        assert!(s.proposed_resolution.is_none());
        assert!(s.auto_spec_path.is_none());
        assert!(s.gating_condition.is_none());
        assert_eq!(s.signal_id.len(), 36);
    }
    assert_ne!(signals[0].signal_id, signals[1].signal_id);
}

#[test]
fn only_metrics_missing_gives_one_signal() {
    let signals = missing_output_signals("abc", false, true);
    assert_eq!(signals.len(), 1);
    assert_eq!(signals[0].title, "Metrics file not written by agent");
}

#[test]
fn nothing_missing_gives_no_signal() {
    assert!(missing_output_signals("abc", false, false).is_empty());
}

#[test]
fn critical_signal_keeps_the_given_id_and_time() {
    let s = critical_signal_with("id-1".to_string(), "2024-01-01T00:00:00+00:00".to_string(), "run", "T", "D".to_string());
    assert_eq!(s.signal_id, "id-1");
    assert_eq!(s.timestamp, "2024-01-01T00:00:00+00:00");
    assert_eq!(s.title, "T");
    assert_eq!(s.description, "D");
}

#[test]
fn made_signal_carries_a_fresh_timestamp() {
    let s = make_critical_signal("run", "T", "D".to_string());
    assert!(s.timestamp.contains('T'));
    assert!(s.timestamp.ends_with("+00:00"));
    assert!(s.timestamp.starts_with("20"));
    assert_eq!(s.signal_id.matches('-').count(), 4);
}
