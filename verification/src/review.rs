//! Review signals raised at the end of a run, and the token usage recorded
//! with a run's metrics.

use vstd::prelude::*;

verus! {

/// What a review signal is about.
#[derive(Debug, Clone, Copy, PartialEq, Eq, Structural)]
pub enum ReviewCategory {
    Error,
    SkillImprovement,
    ToolImprovement,
    NewCapability,
}

/// How serious a review signal is.
#[derive(Debug, Clone, Copy, PartialEq, Eq, Structural)]
pub enum ReviewSeverity {
    Critical,
    Major,
    Minor,
}

/// What must hold before the remedy of a signal may be applied.
#[derive(Debug, Clone)]
pub enum GatingCondition {
    NoCandidateBranch,
    Custom(String),
}

/// One finding of the end-of-run review.
#[derive(Debug, Clone)]
pub struct ReviewSignal {
    pub signal_id: String,
    pub run_id: String,
    pub timestamp: String,
    pub category: ReviewCategory,
    pub severity: ReviewSeverity,
    pub title: String,
    pub description: String,
    pub proposed_resolution: Option<String>,
    pub auto_spec_path: Option<String>,
    pub gating_condition: Option<GatingCondition>,
}

/// Tokens spent by a run.
#[derive(Debug, Clone, Copy)]
pub struct TokenUsageSummary {
    pub input_tokens: u64,
    pub output_tokens: u64,
    pub cache_read_tokens: u64,
    pub cache_creation_tokens: u64,
    pub total_tokens: u64,
}

/// The name a category is written under.
pub open spec fn category_name(c: ReviewCategory) -> Seq<char> {
    match c {
        ReviewCategory::Error => "Error"@,
        ReviewCategory::SkillImprovement => "SkillImprovement"@,
        ReviewCategory::ToolImprovement => "ToolImprovement"@,
        ReviewCategory::NewCapability => "NewCapability"@,
    }
}

/// The name a severity is written under.
pub open spec fn severity_name(s: ReviewSeverity) -> Seq<char> {
    match s {
        ReviewSeverity::Critical => "Critical"@,
        ReviewSeverity::Major => "Major"@,
        ReviewSeverity::Minor => "Minor"@,
    }
}

impl ReviewCategory {
    /// The name the category is written under.
    pub fn name(&self) -> (r: &'static str)
        ensures
            r@ == category_name(*self),
    {
        match self {
            ReviewCategory::Error => "Error",
            ReviewCategory::SkillImprovement => "SkillImprovement",
            ReviewCategory::ToolImprovement => "ToolImprovement",
            ReviewCategory::NewCapability => "NewCapability",
        }
    }
}

impl ReviewSeverity {
    /// The name the severity is written under.
    pub fn name(&self) -> (r: &'static str)
        ensures
            r@ == severity_name(*self),
    {
        match self {
            ReviewSeverity::Critical => "Critical",
            ReviewSeverity::Major => "Major",
            ReviewSeverity::Minor => "Minor",
        }
    }
}

} // verus!
