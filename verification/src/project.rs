//! Small rules of the project commands: the `.gitignore` entry that keeps
//! the secrets file out of version control, the state of each adapter that
//! `moeb adapters` lists, and how `moeb run` picks the specification file a
//! query names.

use vstd::prelude::*;

use crate::config::Secrets;
use crate::text::{chars_of, find, find_vec, lines, split_lines, str_eq, trim_class, trim_vec, vecs_view, CharClass};

verus! {

/// The line that `.gitignore` must hold.
pub open spec fn secrets_entry() -> Seq<char> {
    ".moeb/.secrets"@
}

/// Some line of `text`, trimmed, is the secrets entry.
pub open spec fn ignores_secrets(text: Seq<char>) -> bool {
    exists|i: int| 0 <= i < lines(text).len() && trim_class(#[trigger] lines(text)[i], CharClass::Space) == secrets_entry()
}

/// The new text of `.gitignore` (`None` when it needs no change): the
/// secrets entry is added on a line of its own unless some line already
/// holds it; a missing file gets just that line.
pub open spec fn gitignore_text(existing: Option<Seq<char>>) -> Option<Seq<char>> {
    match existing {
        None => Some(secrets_entry() + "\n"@),
        Some(t) => if ignores_secrets(t) {
            None
        } else if t.len() > 0 && t.last() == '\n' {
            Some(t + secrets_entry() + "\n"@)
        } else {
            Some(t + "\n"@ + secrets_entry() + "\n"@)
        },
    }
}

/// The new text of `.gitignore`, given its current text (`None` when the
/// file is missing); `None` when it needs no change.
pub fn gitignore_update(existing: Option<&str>) -> (r: Option<String>)
    ensures
        match r {
            Some(t) => gitignore_text(
                match existing {
                    Some(e) => Some(e@),
                    None => None,
                },
            ) == Some(t@),
            None => gitignore_text(
                match existing {
                    Some(e) => Some(e@),
                    None => None,
                },
            ) is None,
        },
{
    proof {
        reveal_strlit(".moeb/.secrets");
    }
    match existing {
        None => {
            let mut s = String::from_str(".moeb/.secrets");
            s.append("\n");
            Some(s)
        },
        Some(text) => {
            let chars = chars_of(text);
            let ls = split_lines(&chars);
            let ghost lv = vecs_view(ls@);
            let entry = chars_of(".moeb/.secrets");
            let n = ls.len();
            for i in 0..n
                invariant
                    n == ls@.len(),
                    existing == Some(text),
                    lv == vecs_view(ls@),
                    lv == lines(text@),
                    entry@ == secrets_entry(),
                    forall|j: int| 0 <= j < i ==> trim_class(#[trigger] lv[j], CharClass::Space) != secrets_entry(),
            {
                let t = trim_vec(&ls[i], CharClass::Space);
                if crate::text::chars_eq(&t, &entry) {
                    proof {
                        assert(lv[i as int] == ls@[i as int]@);
                        assert(trim_class(lines(text@)[i as int], CharClass::Space) == secrets_entry());
                        assert(ignores_secrets(text@));
                    }
                    return None;
                }
                proof {
                    assert(lv[i as int] == ls@[i as int]@);
                }
            }
            let mut s = String::from_str(text);
            let ends_with_newline = chars.len() > 0 && chars[chars.len() - 1] == '\n';
            if !ends_with_newline {
                s.append("\n");
            }
            s.append(".moeb/.secrets");
            s.append("\n");
            Some(s)
        },
    }
}

/// How `moeb adapters` describes one adapter.
pub struct AdapterStatus {
    pub name: &'static str,
    /// The adapter can be used: it runs locally, or its API key is stored.
    pub configured: bool,
    /// It is the active adapter.
    pub active: bool,
}

/// The state of each adapter, in the order `moeb adapters` lists them:
/// openai, anthropic, gemini, ollama.
pub fn adapter_statuses(active_adapter: &Option<String>, secrets: &Secrets) -> (r: Vec<AdapterStatus>)
    ensures
        r@.len() == 4,
        r@[0].name@ == "openai"@ && r@[0].configured == secrets@.contains_key("OPENAI_API_KEY"@),
        r@[1].name@ == "anthropic"@ && r@[1].configured == secrets@.contains_key("ANTHROPIC_API_KEY"@),
        r@[2].name@ == "gemini"@ && r@[2].configured == secrets@.contains_key("GEMINI_API_KEY"@),
        r@[3].name@ == "ollama"@ && r@[3].configured,
        forall|i: int| 0 <= i < 4 ==> (#[trigger] r@[i]).active == (active_adapter matches Some(a) && a@ == r@[i].name@),
{
    let mut r: Vec<AdapterStatus> = Vec::new();
    r.push(status_of("openai", secrets.get("OPENAI_API_KEY").is_some(), active_adapter));
    r.push(status_of("anthropic", secrets.get("ANTHROPIC_API_KEY").is_some(), active_adapter));
    r.push(status_of("gemini", secrets.get("GEMINI_API_KEY").is_some(), active_adapter));
    r.push(status_of("ollama", true, active_adapter));
    r
}

fn status_of(name: &'static str, configured: bool, active_adapter: &Option<String>) -> (r: AdapterStatus)
    ensures
        r.name == name,
        r.configured == configured,
        r.active == (active_adapter matches Some(a) && a@ == name@),
{
    let active = match active_adapter {
        Some(a) => str_eq(a.as_str(), name),
        None => false,
    };
    AdapterStatus { name, configured, active }
}

/// A file of name `file_name` and extension `extension` is a specification
/// that the query `query` names: a Markdown file whose name contains it.
pub open spec fn names_spec(file_name: Seq<char>, extension: Option<Seq<char>>, query: Seq<char>) -> bool {
    extension == Some("md"@) && find(file_name, query) is Some
}

/// Whether the file is a specification that `query` names.
pub fn spec_file_matches(file_name: &str, extension: Option<&str>, query: &str) -> (r: bool)
    ensures
        r == names_spec(
            file_name@,
            match extension {
                Some(e) => Some(e@),
                None => None,
            },
            query@,
        ),
{
    let md = match extension {
        Some(e) => str_eq(e, "md"),
        None => false,
    };
    if !md {
        return false;
    }
    let name = chars_of(file_name);
    let q = chars_of(query);
    find_vec(&name, &q).is_some()
}

/// Why `moeb run` found no single specification.
#[derive(Debug, Clone, Copy, PartialEq, Eq, Structural)]
pub enum SpecMatchError {
    NoMatch,
    Ambiguous,
}

/// The specification picked among `count` matches: the only one, or an error.
pub fn pick_single_match(count: usize) -> (r: Result<(), SpecMatchError>)
    ensures
        count == 0 ==> r == Err::<(), SpecMatchError>(SpecMatchError::NoMatch),
        count == 1 ==> r == Ok::<(), SpecMatchError>(()),
        count > 1 ==> r == Err::<(), SpecMatchError>(SpecMatchError::Ambiguous),
{
    if count == 0 {
        Err(SpecMatchError::NoMatch)
    } else if count == 1 {
        Ok(())
    } else {
        Err(SpecMatchError::Ambiguous)
    }
}

/// The text of a failed pick for `query` under `dir`.
pub fn spec_match_message(e: SpecMatchError, query: &str, dir: &str) -> (r: String)
    ensures
        r@ == match e {
            SpecMatchError::NoMatch => "No specification found matching '"@ + query@ + "' under "@ + dir@ + "."@,
            SpecMatchError::Ambiguous => "Ambiguous specification name."@,
        },
{
    match e {
        SpecMatchError::NoMatch => {
            let mut s = String::from_str("No specification found matching '");
            s.append(query);
            s.append("' under ");
            s.append(dir);
            s.append(".");
            s
        },
        SpecMatchError::Ambiguous => String::from_str("Ambiguous specification name."),
    }
}

} // verus!
