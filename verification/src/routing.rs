//! Routing of review signals raised against moeb itself to the issues of its
//! GitHub repository: the GitHub App's credentials, and the texts and claims
//! the routing sends.

use vstd::prelude::*;

use crate::text::{append_decimal, chars_of, decimal, find, find_vec, slice_chars, string_from_chars};

verus! {

/// Id of the GitHub App that files the issues.
pub const MOEB_GITHUB_APP_ID: u64 = 4039184;
/// Installation id of the GitHub App.
pub const MOEB_GITHUB_APP_INSTALLATION_ID: u64 = 139904405;
/// RSA private key of the GitHub App, in PEM form; empty in development
/// builds, which disables routing.
pub const MOEB_GITHUB_APP_PRIVATE_KEY_PEM: &'static str = "";
/// Repository that receives the issues, as `owner/name`.
pub const MOEB_GITHUB_REPO_SLUG: &'static str = "SSidey/Moebius";

/// Routing runs only with a private key.
pub fn routing_enabled(private_key_pem: &str) -> (r: bool)
    ensures
        r == (private_key_pem@.len() > 0),
{
    !private_key_pem.is_empty()
}

/// Owner and name of a repository slug `owner/name`, split at the first `/`.
pub open spec fn slug_parts(slug: Seq<char>) -> Option<(Seq<char>, Seq<char>)> {
    match find(slug, "/"@) {
        Some(i) => Some((slug.take(i), slug.skip(i + 1))),
        None => None,
    }
}

/// Owner and name of the repository slug `slug`, or the refusal
/// `invalid repo_slug: SLUG` when it has no `/`.
pub fn split_repo_slug(slug: &str) -> (r: Result<(String, String), String>)
    ensures
        match r {
            Ok((o, n)) => slug_parts(slug@) == Some((o@, n@)),
            Err(e) => slug_parts(slug@) is None && e@ == "invalid repo_slug: "@ + slug@,
        },
{
    let v = chars_of(slug);
    let sep = chars_of("/");
    proof {
        reveal_strlit("/");
    }
    match find_vec(&v, &sep) {
        Some(i) => {
            proof {
                crate::text::lemma_find_in_range(v@, sep@, 0);
                assert(crate::text::find_from(v@, sep@, 0) == Some(i as int));
            }
            let len = v.len();
            let owner = slice_chars(&v, 0, i);
            let name = slice_chars(&v, i + 1, len);
            proof {
                assert(owner@ =~= slug@.take(i as int));
                assert(name@ =~= slug@.skip(i + 1));
            }
            Ok((string_from_chars(&owner), string_from_chars(&name)))
        },
        None => {
            let mut e = String::from_str("invalid repo_slug: ");
            e.append(slug);
            Err(e)
        },
    }
}

/// The search that finds the open issue already filed for a signal titled `title`.
pub open spec fn search_query_text(owner: Seq<char>, repo: Seq<char>, title: Seq<char>) -> Seq<char> {
    "repo:"@ + owner + "/"@ + repo + " in:title is:issue is:open \"[signal] "@ + title + "\""@
}

/// The search that finds the open issue already filed for a signal titled `title`.
pub fn search_query(owner: &str, repo: &str, title: &str) -> (r: String)
    ensures
        r@ == search_query_text(owner@, repo@, title@),
{
    let mut s = String::from_str("repo:");
    s.append(owner);
    s.append("/");
    s.append(repo);
    s.append(" in:title is:issue is:open \"[signal] ");
    s.append(title);
    s.append("\"");
    s
}

/// The title of the issue filed for a signal titled `title`.
pub fn issue_title(title: &str) -> (r: String)
    ensures
        r@ == "[signal] "@ + title@,
{
    let mut s = String::from_str("[signal] ");
    s.append(title);
    s
}

/// The claims of the JSON web token that authenticates the GitHub App.
pub struct AppClaims {
    /// Issued at, a minute early to allow for clock drift.
    pub iat: u64,
    /// Expiry, ten minutes after now.
    pub exp: u64,
    /// The App's id, in decimal.
    pub iss: String,
}

/// The claims of a token for the App `app_id` issued at `now` (seconds since
/// the Unix epoch).
pub fn app_jwt_claims(app_id: u64, now: u64) -> (r: AppClaims)
    requires
        now + 600 <= u64::MAX,
    ensures
        r.iat == if now >= 60 { now - 60 } else { 0 },
        r.exp == now + 600,
        r.iss@ == decimal(app_id as nat),
{
    let mut iss = String::new();
    append_decimal(&mut iss, app_id);
    AppClaims { iat: now.saturating_sub(60), exp: now + 600, iss }
}

/// The comment that records one more occurrence of a signal on its issue.
pub open spec fn comment_text(
    project: Seq<char>,
    run_id: Seq<char>,
    category: Seq<char>,
    severity: Seq<char>,
    timestamp: Seq<char>,
) -> Seq<char> {
    "**Occurrence recorded**\n\n- **Originating project**: "@ + project + "\n- **run_id**: "@ + run_id
        + "\n- **category**: "@ + category + "\n- **severity**: "@ + severity + "\n- **timestamp**: "@ + timestamp
}

/// The comment that records one more occurrence of a signal on its issue.
pub fn comment_body(project: &str, run_id: &str, category: &str, severity: &str, timestamp: &str) -> (r: String)
    ensures
        r@ == comment_text(project@, run_id@, category@, severity@, timestamp@),
{
    let mut s = String::from_str("**Occurrence recorded**\n\n- **Originating project**: ");
    s.append(project);
    s.append("\n- **run_id**: ");
    s.append(run_id);
    s.append("\n- **category**: ");
    s.append(category);
    s.append("\n- **severity**: ");
    s.append(severity);
    s.append("\n- **timestamp**: ");
    s.append(timestamp);
    s
}

/// The body of the issue filed for a new signal.
pub open spec fn issue_text(
    category: Seq<char>,
    severity: Seq<char>,
    project: Seq<char>,
    description: Seq<char>,
    resolution: Seq<char>,
) -> Seq<char> {
    "**Category**: "@ + category + "\n**Severity**: "@ + severity + "\n**Originating project**: "@ + project
        + "\n\n**Description**:\n"@ + description + "\n\n**Proposed Resolution**:\n"@ + resolution
}

/// The body of the issue filed for a new signal.
pub fn issue_body(category: &str, severity: &str, project: &str, description: &str, resolution: &str) -> (r: String)
    ensures
        r@ == issue_text(category@, severity@, project@, description@, resolution@),
{
    let mut s = String::from_str("**Category**: ");
    s.append(category);
    s.append("\n**Severity**: ");
    s.append(severity);
    s.append("\n**Originating project**: ");
    s.append(project);
    s.append("\n\n**Description**:\n");
    s.append(description);
    s.append("\n\n**Proposed Resolution**:\n");
    s.append(resolution);
    s
}

} // verus!
