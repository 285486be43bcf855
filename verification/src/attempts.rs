//! The attempts of `moeb spec`: the agent loop is run again after a failed
//! attempt while attempts remain, and the command gives up after the last.

use vstd::prelude::*;

use crate::text::{append_decimal, decimal};

verus! {

/// What follows one attempt at generating a specification.
pub enum SpecStep {
    /// The attempt succeeded: the command is done.
    Done,
    /// The attempt failed and another one is allowed.
    Retry,
    /// The attempt failed and it was the last: the command fails with `message`.
    GiveUp { message: String },
}

/// Mathematical model of a [`SpecStep`].
pub enum SpecStepView {
    Done,
    Retry,
    GiveUp(Seq<char>),
}

impl View for SpecStep {
    type V = SpecStepView;

    open spec fn view(&self) -> SpecStepView {
        match self {
            SpecStep::Done => SpecStepView::Done,
            SpecStep::Retry => SpecStepView::Retry,
            SpecStep::GiveUp { message } => SpecStepView::GiveUp(message@),
        }
    }
}

/// The sentence the command fails with after `limit` attempts, the last of
/// which failed with `last_error`.
pub open spec fn give_up_message(limit: u32, last_error: Seq<char>) -> Seq<char> {
    "spec generation failed after "@ + decimal(limit as nat) + " attempt(s). Last error: "@ + last_error
}

/// What follows attempt `attempt` (counted from 1) of `limit` when it ended
/// with `outcome`: done on success; after a failure, another attempt while
/// `attempt < limit`, else giving up with the failure's text.
pub open spec fn spec_step_of(attempt: u32, limit: u32, outcome: Result<(), Seq<char>>) -> SpecStepView {
    match outcome {
        Ok(_) => SpecStepView::Done,
        Err(e) => if attempt < limit {
            SpecStepView::Retry
        } else {
            SpecStepView::GiveUp(give_up_message(limit, e))
        },
    }
}

/// The failure message of the command after `limit` attempts whose last
/// error reads `last_error`; with no attempt at all the error is
/// `no attempts made`.
pub fn give_up(limit: u32, last_error: &str) -> (r: String)
    ensures
        r@ == give_up_message(limit, last_error@),
{
    let mut s = String::from_str("spec generation failed after ");
    append_decimal(&mut s, limit as u64);
    s.append(" attempt(s). Last error: ");
    s.append(last_error);
    s
}

/// What follows attempt `attempt` (from 1) of `limit` after `outcome`.
pub fn spec_attempt_step(attempt: u32, limit: u32, outcome: Result<(), String>) -> (r: SpecStep)
    ensures
        r@ == spec_step_of(
            attempt,
            limit,
            match outcome {
                Ok(u) => Ok(u),
                Err(e) => Err(e@),
            },
        ),
{
    match outcome {
        Ok(_) => SpecStep::Done,
        Err(e) => if attempt < limit {
            SpecStep::Retry
        } else {
            SpecStep::GiveUp { message: give_up(limit, e.as_str()) }
        },
    }
}

/// Over a run of attempts that all fail, the command gives up exactly at
/// attempt `limit`, and retries at every earlier one: no more than `limit`
/// attempts are ever made.
pub proof fn law_spec_attempts_bounded(limit: u32, attempt: u32, e: Seq<char>)
    requires
        1 <= attempt <= limit,
    ensures
        attempt < limit ==> spec_step_of(attempt, limit, Err(e)) == SpecStepView::Retry,
        attempt == limit ==> spec_step_of(attempt, limit, Err(e)) == SpecStepView::GiveUp(give_up_message(limit, e)),
        spec_step_of(attempt, limit, Ok(())) == SpecStepView::Done,
{
}

} // verus!
