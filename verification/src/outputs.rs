//! What the kernel records when an agent's run ends without the review
//! outputs its prompt asked for: a critical signal for each missing file.

use vstd::prelude::*;

use crate::prompt::{metrics_path, signals_path};
use crate::review::{ReviewCategory, ReviewSeverity, ReviewSignal};
use crate::system::{is_uuid_text, new_uuid, now_rfc3339, rfc3339_or_empty};

verus! {

/// Title of the signal raised when the signals file is missing.
pub open spec fn signals_missing_title() -> Seq<char> {
    "Signals file not written by agent"@
}

/// Title of the signal raised when the metrics file is missing.
pub open spec fn metrics_missing_title() -> Seq<char> {
    "Metrics file not written by agent"@
}

/// Description of the signal raised when the signals file of `run_id` is missing.
pub open spec fn signals_missing_description(run_id: Seq<char>) -> Seq<char> {
    "End-of-Skill Review phase did not complete. Expected: "@ + ".moeb/signals/"@ + run_id + ".signals.json"@
}

/// Description of the signal raised when the metrics file of `run_id` is missing.
pub open spec fn metrics_missing_description(run_id: Seq<char>) -> Seq<char> {
    "Metrics Recording phase did not complete. Expected: "@ + ".moeb/metrics/"@ + run_id + ".metrics.json"@
}

/// `s` is a critical error signal about run `run_id` with this title and
/// description, and no resolution, spec path or gating condition.
pub open spec fn is_critical_signal(s: ReviewSignal, run_id: Seq<char>, title: Seq<char>, description: Seq<char>) -> bool {
    &&& s.run_id@ == run_id
    &&& s.category == ReviewCategory::Error
    &&& s.severity == ReviewSeverity::Critical
    &&& s.title@ == title
    &&& s.description@ == description
    &&& s.proposed_resolution is None
    &&& s.auto_spec_path is None
    &&& s.gating_condition is None
}

/// A critical error signal about run `run_id`, with the given id and time.
pub fn critical_signal_with(
    signal_id: String,
    timestamp: String,
    run_id: &str,
    title: &str,
    description: String,
) -> (r: ReviewSignal)
    ensures
        r.signal_id@ == signal_id@,
        r.timestamp@ == timestamp@,
        is_critical_signal(r, run_id@, title@, description@),
{
    ReviewSignal {
        signal_id,
        run_id: String::from_str(run_id),
        timestamp,
        category: ReviewCategory::Error,
        severity: ReviewSeverity::Critical,
        title: String::from_str(title),
        description,
        proposed_resolution: None,
        auto_spec_path: None,
        gating_condition: None,
    }
}

/// A critical error signal about run `run_id`, with a fresh random id and
/// the current time.
pub fn make_critical_signal(run_id: &str, title: &str, description: String) -> (r: ReviewSignal)
    ensures
        is_uuid_text(r.signal_id@),
        exists|secs: i64, nanos: u32| secs >= 0 && nanos < 1_000_000_000 && r.timestamp@ == rfc3339_or_empty(secs, nanos),
        is_critical_signal(r, run_id@, title@, description@),
{
    let id = new_uuid();
    let now = now_rfc3339();
    critical_signal_with(id, now, run_id, title, description)
}

/// The signals recorded for run `run_id` when its signals file
/// (`signals_missing`) or its metrics file (`metrics_missing`) was not
/// written: one critical signal for each missing file, the signals file's
/// first.
pub fn missing_output_signals(run_id: &str, signals_missing: bool, metrics_missing: bool) -> (r: Vec<ReviewSignal>)
    ensures
        r@.len() == (if signals_missing { 1int } else { 0int }) + (if metrics_missing { 1int } else { 0int }),
        signals_missing ==> is_critical_signal(
            r@[0],
            run_id@,
            signals_missing_title(),
            signals_missing_description(run_id@),
        ),
        metrics_missing ==> is_critical_signal(
            r@[r@.len() - 1],
            run_id@,
            metrics_missing_title(),
            metrics_missing_description(run_id@),
        ),
        forall|i: int| 0 <= i < r@.len() ==> is_uuid_text(#[trigger] r@[i].signal_id@),
{
    let mut out: Vec<ReviewSignal> = Vec::new();
    if signals_missing {
        let mut description = String::from_str("End-of-Skill Review phase did not complete. Expected: ");
        let path = signals_path(run_id);
        description.append(path.as_str());
        proof {
            assert(description@ =~= signals_missing_description(run_id@));
        }
        out.push(make_critical_signal(run_id, "Signals file not written by agent", description));
    }
    if metrics_missing {
        let mut description = String::from_str("Metrics Recording phase did not complete. Expected: ");
        let path = metrics_path(run_id);
        description.append(path.as_str());
        proof {
            assert(description@ =~= metrics_missing_description(run_id@));
        }
        out.push(make_critical_signal(run_id, "Metrics file not written by agent", description));
    }
    out
}

} // verus!
