//! The AI provider adapters' own rules: which adapter the configuration
//! selects, and what to do with the outcome of each HTTP attempt (retry
//! after a delay, give up, fail at once, or read the answer).

use vstd::prelude::*;

use crate::numbers::{parse_u64, parse_unsigned};
use crate::retry::{compute_delay, delay_nanos_spec};
use crate::text::{str_eq, trim_class, trim_str, CharClass};

verus! {

/// Model used by the OpenAI adapter when none is configured.
pub const OPENAI_DEFAULT_MODEL: &'static str = "gpt-4o";
/// Model used by the Gemini adapter when none is configured.
pub const GEMINI_DEFAULT_MODEL: &'static str = "gemini-2.0-flash";
/// Model used by the Ollama adapter when none is configured.
pub const OLLAMA_DEFAULT_MODEL: &'static str = "llama3.1";
/// Request timeout of the Anthropic adapter when none is configured.
pub const ANTHROPIC_DEFAULT_TIMEOUT_SECS: u64 = 600;
/// Request timeout of the Gemini adapter when none is configured.
pub const GEMINI_DEFAULT_TIMEOUT_SECS: u64 = 600;
/// Largest answer, in tokens, requested from Anthropic.
pub const ANTHROPIC_MAX_TOKENS: u32 = 8192;

// ── Adapter selection ─────────────────────────────────────────────────────────

/// Builds the adapter that the configuration names as active.
pub struct DefaultAdapterFactory;

/// The adapters the factory can build.
#[derive(Debug, Clone, Copy, PartialEq, Eq, Structural)]
pub enum AdapterChoice {
    OpenAi,
    Anthropic,
}

/// Why no adapter could be built.
#[derive(Debug, Clone)]
pub enum FactoryError {
    /// No adapter is active.
    NoAdapter,
    /// The active adapter is not one the factory builds.
    Unrecognised { name: String },
}

/// What the factory builds for the active adapter `active` (`None` when no
/// adapter is active).
pub open spec fn choice_of(active: Option<Seq<char>>) -> Result<AdapterChoice, Option<Seq<char>>> {
    let name = match active {
        Some(n) => n,
        None => Seq::<char>::empty(),
    };
    if name == "openai"@ {
        Ok(AdapterChoice::OpenAi)
    } else if name == "anthropic"@ {
        Ok(AdapterChoice::Anthropic)
    } else if name.len() == 0 {
        Err(None)
    } else {
        Err(Some(name))
    }
}

impl DefaultAdapterFactory {
    /// The adapter to build when `active` is the active adapter; an absent
    /// and an empty name both mean that none is active.
    pub fn select(&self, active: &Option<String>) -> (r: Result<AdapterChoice, FactoryError>)
        ensures
            match r {
                Ok(c) => choice_of(
                    match active {
                        Some(s) => Some(s@),
                        None => None,
                    },
                ) == Ok::<AdapterChoice, Option<Seq<char>>>(c),
                Err(FactoryError::NoAdapter) => choice_of(
                    match active {
                        Some(s) => Some(s@),
                        None => None,
                    },
                ) == Err::<AdapterChoice, Option<Seq<char>>>(None),
                Err(FactoryError::Unrecognised { name }) => choice_of(
                    match active {
                        Some(s) => Some(s@),
                        None => None,
                    },
                ) == Err::<AdapterChoice, Option<Seq<char>>>(Some(name@)),
            },
    {
        proof {
            reveal_strlit("openai");
            reveal_strlit("anthropic");
        }
        let name: &str = match active {
            Some(s) => s.as_str(),
            None => "",
        };
        proof {
            reveal_strlit("");
            assert(name@ == match active {
                Some(s) => s@,
                None => Seq::<char>::empty(),
            });
        }
        if str_eq(name, "openai") {
            Ok(AdapterChoice::OpenAi)
        } else if str_eq(name, "anthropic") {
            Ok(AdapterChoice::Anthropic)
        } else if name.is_empty() {
            Err(FactoryError::NoAdapter)
        } else {
            Err(FactoryError::Unrecognised { name: String::from_str(name) })
        }
    }
}

impl FactoryError {
    /// The refusal as a sentence.
    pub fn message(&self) -> (r: String)
        ensures
            r@ == match self {
                FactoryError::NoAdapter => "No adapter configured. Run `moeb use <adapter>` first."@,
                FactoryError::Unrecognised { name } => "Adapter '"@ + name@
                    + "' is not recognised. Run `moeb use <adapter>` to reconfigure."@,
            },
    {
        match self {
            FactoryError::NoAdapter => String::from_str("No adapter configured. Run `moeb use <adapter>` first."),
            FactoryError::Unrecognised { name } => {
                let mut s = String::from_str("Adapter '");
                s.append(name.as_str());
                s.append("' is not recognised. Run `moeb use <adapter>` to reconfigure.");
                s
            },
        }
    }
}

// ── HTTP attempts ─────────────────────────────────────────────────────────────

/// How one HTTP attempt ended.
#[derive(Debug, Clone, Copy, PartialEq, Eq, Structural)]
pub enum HttpOutcome {
    /// The request did not get a response.
    TransportError,
    /// The response had this status code.
    Status(u16),
}

/// What to do after an HTTP attempt.
#[derive(Debug, Clone, Copy, PartialEq, Eq, Structural)]
pub enum HttpStep {
    /// Wait this many nanoseconds, then try again.
    Retry { delay_nanos: u128 },
    /// The attempt failed and none is left: report the last error.
    GiveUp,
    /// Report the response as an error now, without retrying.
    Fail,
    /// Read the answer from the response.
    Accept,
}

/// A 2xx status.
pub open spec fn is_success(status: u16) -> bool {
    200 <= status <= 299
}

/// A status worth retrying: too many requests, or a server error.
pub open spec fn is_retryable_status(status: u16) -> bool {
    status == 429 || (500 <= status <= 599)
}

/// An outcome worth retrying.
pub open spec fn is_retryable(outcome: HttpOutcome) -> bool {
    match outcome {
        HttpOutcome::TransportError => true,
        HttpOutcome::Status(s) => is_retryable_status(s),
    }
}

/// The `Retry-After` seconds that apply to a retry after `outcome`: only a
/// 429 answer's own.
pub open spec fn applicable_retry_after(outcome: HttpOutcome, retry_after_secs: Option<u64>) -> Option<u64> {
    if outcome == HttpOutcome::Status(429) {
        retry_after_secs
    } else {
        None
    }
}

/// Number of attempts made for a request with `retries` retries.
pub fn max_attempts(retries: u32) -> (r: u64)
    ensures
        r == retries + 1,
{
    retries as u64 + 1
}

/// What to do after attempt `http_attempt` (counted from 0) of
/// `max_attempts` ended with `outcome`; `retry_after_secs` is the
/// response's `Retry-After` value, if any.
///
/// A transport error, a 429 or a 5xx is retried while attempts remain,
/// after the delay of [`compute_delay`]; once none remain the last error is
/// reported. Any other status outside 2xx fails at once.
pub fn http_step(outcome: HttpOutcome, http_attempt: u32, max_attempts: u64, retry_after_secs: Option<u64>) -> (r: HttpStep)
    ensures
        is_retryable(outcome) && http_attempt + 1 < max_attempts ==> (r matches HttpStep::Retry { delay_nanos }
            && exists|sample: u32|
            delay_nanos == delay_nanos_spec(http_attempt, applicable_retry_after(outcome, retry_after_secs), sample)),
        is_retryable(outcome) && http_attempt + 1 >= max_attempts ==> r == HttpStep::GiveUp,
        !is_retryable(outcome) ==> (outcome matches HttpOutcome::Status(s) && r == if is_success(s) {
            HttpStep::Accept
        } else {
            HttpStep::Fail
        }),
{
    let retryable = match outcome {
        HttpOutcome::TransportError => true,
        HttpOutcome::Status(s) => s == 429 || (500 <= s && s <= 599),
    };
    if retryable {
        if (http_attempt as u64) + 1 < max_attempts {
            let ra = match outcome {
                HttpOutcome::Status(s) => if s == 429 {
                    retry_after_secs
                } else {
                    None
                },
                HttpOutcome::TransportError => None,
            };
            HttpStep::Retry { delay_nanos: compute_delay(http_attempt, ra) }
        } else {
            HttpStep::GiveUp
        }
    } else {
        match outcome {
            HttpOutcome::Status(s) => if 200 <= s && s <= 299 {
                HttpStep::Accept
            } else {
                HttpStep::Fail
            },
            HttpOutcome::TransportError => HttpStep::GiveUp,
        }
    }
}

/// The seconds of a `Retry-After` header value: an integer, white space
/// around it allowed.
pub open spec fn retry_after_of(header: Option<Seq<char>>) -> Option<u64> {
    match header {
        Some(h) => match parse_unsigned(trim_class(h, CharClass::Space), u64::MAX as nat) {
            Some(n) => Some(n as u64),
            None => None,
        },
        None => None,
    }
}

/// The requests sent for one call when attempt `k` (from 0) ends with
/// `outcomes[k]` and each attempt is followed as [`http_step`] decides: a
/// retryable outcome with an attempt left leads to another request; any
/// other outcome, or a retryable one with no attempt left, ends the call.
pub open spec fn requests_sent(outcomes: Seq<HttpOutcome>, k: nat, max_attempts: nat) -> nat
    decreases max_attempts - k,
{
    if k >= max_attempts || k >= outcomes.len() {
        0
    } else if is_retryable(outcomes[k as int]) && k + 1 < max_attempts {
        1 + requests_sent(outcomes, k + 1, max_attempts)
    } else {
        1
    }
}

/// A call never sends more than `max_attempts` requests; when every
/// attempt fails in a retryable way it sends exactly that many; and when
/// attempt `k` is the first that is not retryable (a 2xx or another error),
/// the call ends there, having sent `k + 1` requests.
pub proof fn law_http_attempts_bounded(outcomes: Seq<HttpOutcome>, max_attempts: nat, k: nat)
    ensures
        requests_sent(outcomes, 0, max_attempts) <= max_attempts,
        outcomes.len() >= max_attempts && (forall|i: int| 0 <= i < max_attempts ==> is_retryable(
            #[trigger] outcomes[i],
        )) ==> requests_sent(outcomes, 0, max_attempts) == max_attempts,
        k < max_attempts && k < outcomes.len() && !is_retryable(outcomes[k as int]) && (forall|i: int|
            0 <= i < k ==> is_retryable(#[trigger] outcomes[i])) ==> requests_sent(outcomes, 0, max_attempts) == k + 1,
{
    lemma_requests_sent(outcomes, 0, max_attempts, k);
}

proof fn lemma_requests_sent(outcomes: Seq<HttpOutcome>, j: nat, max_attempts: nat, k: nat)
    requires
        j <= max_attempts,
    ensures
        requests_sent(outcomes, j, max_attempts) <= max_attempts - j,
        outcomes.len() >= max_attempts && (forall|i: int| j <= i < max_attempts ==> is_retryable(
            #[trigger] outcomes[i],
        )) ==> requests_sent(outcomes, j, max_attempts) == max_attempts - j,
        j <= k < max_attempts && k < outcomes.len() && !is_retryable(outcomes[k as int]) && (forall|i: int|
            j <= i < k ==> is_retryable(#[trigger] outcomes[i])) ==> requests_sent(outcomes, j, max_attempts) == k + 1
            - j,
    decreases max_attempts - j,
{
    if j < max_attempts && j < outcomes.len() {
        lemma_requests_sent(outcomes, j + 1, max_attempts, k);
    }
}

/// The seconds of a `Retry-After` header value (`None` when the header is
/// absent or is not an integer; dates are not read).
pub fn parse_retry_after_value(header: Option<&str>) -> (r: Option<u64>)
    ensures
        r == retry_after_of(
            match header {
                Some(h) => Some(h@),
                None => None,
            },
        ),
{
    match header {
        Some(h) => {
            let t = trim_str(h);
            parse_u64(t.as_str())
        },
        None => None,
    }
}

/// A rate-limit header reports fewer than five requests remaining.
pub open spec fn quota_is_low(remaining: Seq<char>) -> bool {
    match parse_unsigned(remaining, u64::MAX as nat) {
        Some(n) => n < 5,
        None => false,
    }
}

/// Whether the remaining-requests header value `remaining` warrants a warning.
pub fn quota_low(remaining: &str) -> (r: bool)
    ensures
        r == quota_is_low(remaining@),
{
    match parse_u64(remaining) {
        Some(n) => n < 5,
        None => false,
    }
}

/// A status worth another attempt: 429 and every 5xx server error are
/// retried while attempts remain; a 2xx is read and any other status fails
/// at once.
pub proof fn law_retryable_statuses(s: u16)
    ensures
        (s == 429 || 500 <= s <= 599) ==> is_retryable(HttpOutcome::Status(s)),
        (200 <= s <= 299 || (400 <= s <= 499 && s != 429)) ==> !is_retryable(
            HttpOutcome::Status(s),
        ),
        is_retryable(HttpOutcome::TransportError),
{
}

/// While attempts remain, a 429, any 5xx and a transport error lead to
/// another attempt after a delay; once none remain they give up. A 2xx is
/// read at once.
pub proof fn law_http_step_retries_server_errors(outcome: HttpOutcome, http_attempt: u32, max_attempts: u64)
    requires
        outcome == HttpOutcome::TransportError || (outcome matches HttpOutcome::Status(s) && (s == 429 || 500 <= s <= 599)),
    ensures
        is_retryable(outcome),
{
}

} // verus!
