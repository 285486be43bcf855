//! The prompts of `moeb run` and `moeb spec`: templates whose `{{token}}`
//! placeholders are replaced, in a fixed order, by the run's inputs; the
//! rubric layers joined into one text; and the paths a run writes to.

use vstd::prelude::*;

use crate::text::{chars_of, find, find_vec, lemma_find_in_range, slice_chars, trim_class, trim_str, CharClass};

verus! {

/// `s` with every occurrence of `p` replaced by `w`, scanning left to right
/// without overlap, as `str::replace` does (for a non-empty `p`).
pub open spec fn replaced(s: Seq<char>, p: Seq<char>, w: Seq<char>) -> Seq<char>
    decreases s.len(),
{
    if p.len() == 0 {
        s
    } else {
        match find(s, p) {
            Some(i) => {
                proof {
                    lemma_find_in_range(s, p, 0);
                }
                s.take(i) + w + replaced(s.skip(i + p.len()), p, w)
            },
            None => s,
        }
    }
}

/// `s` with every occurrence of the non-empty `pat` replaced by `with`.
pub fn replace_all(s: &str, pat: &str, with: &str) -> (r: String)
    requires
        pat@.len() > 0,
    ensures
        r@ == replaced(s@, pat@, with@),
{
    let p = chars_of(pat);
    let mut rest = chars_of(s);
    let mut out = String::new();
    loop
        invariant
            p@ == pat@,
            p@.len() > 0,
            out@ + replaced(rest@, p@, with@) == replaced(s@, pat@, with@),
        decreases rest@.len(),
    {
        match find_vec(&rest, &p) {
            Some(i) => {
                proof {
                    lemma_find_in_range(rest@, p@, 0);
                    assert(crate::text::find_from(rest@, p@, 0) == Some(i as int));
                }
                let len = rest.len();
                let head = slice_chars(&rest, 0, i);
                let tail = slice_chars(&rest, i + p.len(), len);
                proof {
                    assert(head@ =~= rest@.take(i as int));
                    assert(tail@ =~= rest@.skip(i + p@.len()));
                    assert(out@ + head@ + with@ + replaced(tail@, p@, with@) =~= out@ + replaced(rest@, p@, with@));
                }
                append_chars(&mut out, &head);
                out.append(with);
                rest = tail;
            },
            None => {
                append_chars(&mut out, &rest);
                return out;
            },
        }
    }
}

fn append_chars(out: &mut String, v: &Vec<char>)
    ensures
        final(out)@ == old(out)@ + v@,
{
    let n = v.len();
    for i in 0..n
        invariant
            n == v@.len(),
            out@ == old(out)@ + v@.take(i as int),
    {
        crate::text::push_char(out, v[i]);
        proof {
            assert(v@.take(i + 1) =~= v@.take(i as int).push(v@[i as int]));
        }
    }
    proof {
        assert(v@.take(n as int) =~= v@);
    }
}

/// `t` with the placeholders `ps[k].0` replaced by `ps[k].1`, one after the
/// other in the order of `ps`.
pub open spec fn rendered(t: Seq<char>, ps: Seq<(Seq<char>, Seq<char>)>) -> Seq<char>
    decreases ps.len(),
{
    if ps.len() == 0 {
        t
    } else {
        rendered(replaced(t, ps[0].0, ps[0].1), ps.skip(1))
    }
}

/// The views of a list of `(placeholder, value)` pairs.
pub open spec fn pairs_view(ps: Seq<(String, String)>) -> Seq<(Seq<char>, Seq<char>)> {
    ps.map_values(|p: (String, String)| (p.0@, p.1@))
}

proof fn lemma_rendered_step(t: Seq<char>, ps: Seq<(Seq<char>, Seq<char>)>, i: int)
    requires
        0 <= i < ps.len(),
    ensures
        rendered(t, ps.take(i + 1)) == replaced(rendered(t, ps.take(i)), ps[i].0, ps[i].1),
    decreases i,
{
    if i == 0 {
        assert(ps.take(1).skip(1) =~= Seq::<(Seq<char>, Seq<char>)>::empty());
        assert(ps.take(0) =~= Seq::<(Seq<char>, Seq<char>)>::empty());
        assert(ps.take(1)[0] == ps[0]);
        reveal_with_fuel(rendered, 2);
    } else {
        let t1 = replaced(t, ps[0].0, ps[0].1);
        lemma_rendered_step(t1, ps.skip(1), i - 1);
        assert(rendered(t, ps.take(i + 1)) == rendered(t1, ps.take(i + 1).skip(1)));
        assert(rendered(t, ps.take(i)) == rendered(t1, ps.take(i).skip(1)));
        assert(ps.take(i + 1).skip(1) =~= ps.skip(1).take(i));
        assert(ps.take(i).skip(1) =~= ps.skip(1).take(i - 1));
        assert(ps.take(i + 1)[0] == ps[0]);
        assert(ps.take(i)[0] == ps[0]);
        assert(ps.skip(1)[i - 1] == ps[i]);
    }
}

/// `template` with each placeholder of `pairs` replaced, in order, by its value.
pub fn render(template: &str, pairs: &Vec<(String, String)>) -> (r: String)
    requires
        forall|k: int| 0 <= k < pairs@.len() ==> (#[trigger] pairs@[k]).0@.len() > 0,
    ensures
        r@ == rendered(template@, pairs_view(pairs@)),
{
    let ghost ps = pairs_view(pairs@);
    let mut out = String::from_str(template);
    let n = pairs.len();
    for i in 0..n
        invariant
            n == pairs@.len(),
            ps == pairs_view(pairs@),
            forall|k: int| 0 <= k < pairs@.len() ==> (#[trigger] pairs@[k]).0@.len() > 0,
            out@ == rendered(template@, ps.take(i as int)),
    {
        let next = replace_all(out.as_str(), pairs[i].0.as_str(), pairs[i].1.as_str());
        proof {
            lemma_rendered_step(template@, ps, i as int);
        }
        out = next;
    }
    proof {
        assert(ps.take(n as int) =~= ps);
    }
    out
}

// ── Rubrics and paths ─────────────────────────────────────────────────────────

/// A rubric layer with something in it.
pub open spec fn non_blank(s: Seq<char>) -> bool {
    trim_class(s, CharClass::Space).len() > 0
}

/// The non-blank layers of `ls`, in order, separated by a blank line.
pub open spec fn joined_layers(ls: Seq<Seq<char>>) -> Seq<char>
    decreases ls.len(),
{
    if ls.len() == 0 {
        seq![]
    } else {
        let head = joined_layers(ls.drop_last());
        let l = ls.last();
        if !non_blank(l) {
            head
        } else if !has_non_blank(ls.drop_last()) {
            l
        } else {
            head + "\n\n"@ + l
        }
    }
}

proof fn lemma_blank_layers_join_empty(ls: Seq<Seq<char>>)
    requires
        !has_non_blank(ls),
    ensures
        joined_layers(ls) == Seq::<char>::empty(),
    decreases ls.len(),
{
    if ls.len() > 0 {
        assert(!has_non_blank(ls.drop_last())) by {
            if has_non_blank(ls.drop_last()) {
                let j = choose|j: int| 0 <= j < ls.drop_last().len() && non_blank(#[trigger] ls.drop_last()[j]);
                assert(ls[j] == ls.drop_last()[j]);
            }
        }
        assert(!non_blank(ls[ls.len() - 1]));
        lemma_blank_layers_join_empty(ls.drop_last());
    }
}

/// Some layer of `ls` is not blank.
pub open spec fn has_non_blank(ls: Seq<Seq<char>>) -> bool {
    exists|i: int| 0 <= i < ls.len() && non_blank(#[trigger] ls[i])
}

/// The views of a list of strings.
pub open spec fn strings_view(v: Seq<String>) -> Seq<Seq<char>> {
    v.map_values(|s: String| s@)
}

/// The rubric layers that are not blank, in order, separated by a blank line.
pub fn combine_rubric_layers(layers: &Vec<String>) -> (r: String)
    ensures
        r@ == joined_layers(strings_view(layers@)),
{
    let ghost ls = strings_view(layers@);
    let mut out = String::new();
    let mut any = false;
    let n = layers.len();
    for i in 0..n
        invariant
            n == layers@.len(),
            ls == strings_view(layers@),
            out@ == joined_layers(ls.take(i as int)),
            any == has_non_blank(ls.take(i as int)),
    {
        let t = trim_str(layers[i].as_str());
        let keep = !t.as_str().is_empty();
        proof {
            let pre = ls.take(i as int);
            let cur = ls.take(i + 1);
            assert(cur.drop_last() =~= pre);
            assert(cur.last() == layers@[i as int]@);
            if has_non_blank(pre) {
                let j = choose|j: int| 0 <= j < pre.len() && non_blank(#[trigger] pre[j]);
                assert(cur[j] == pre[j]);
            }
            if has_non_blank(cur) {
                let j = choose|j: int| 0 <= j < cur.len() && non_blank(#[trigger] cur[j]);
                if j < i {
                    assert(pre[j] == cur[j]);
                }
            }
            if keep {
                assert(non_blank(cur[i as int]));
            }
            if !any {
                lemma_blank_layers_join_empty(pre);
            }
        }
        if keep {
            if any {
                out.append("\n\n");
            }
            out.append(layers[i].as_str());
            any = true;
        }
    }
    proof {
        assert(ls.take(n as int) =~= ls);
    }
    out
}

/// Where a run of `kind` (`run` or `spec`) started at `timestamp` for
/// `slug` records itself.
pub open spec fn run_file_path_of(timestamp: Seq<char>, kind: Seq<char>, slug: Seq<char>) -> Seq<char> {
    ".moeb/runs/"@ + timestamp + "_"@ + kind + "_"@ + slug + ".json"@
}

/// Where a run of `kind` started at `timestamp` for `slug` records itself.
pub fn run_file_path(timestamp: &str, kind: &str, slug: &str) -> (r: String)
    ensures
        r@ == run_file_path_of(timestamp@, kind@, slug@),
{
    let mut s = String::from_str(".moeb/runs/");
    s.append(timestamp);
    s.append("_");
    s.append(kind);
    s.append("_");
    s.append(slug);
    s.append(".json");
    s
}

/// Where the review signals of run `run_id` are written.
pub fn signals_path(run_id: &str) -> (r: String)
    ensures
        r@ == ".moeb/signals/"@ + run_id@ + ".signals.json"@,
{
    let mut s = String::from_str(".moeb/signals/");
    s.append(run_id);
    s.append(".signals.json");
    s
}

/// Where the metrics of run `run_id` are written.
pub fn metrics_path(run_id: &str) -> (r: String)
    ensures
        r@ == ".moeb/metrics/"@ + run_id@ + ".metrics.json"@,
{
    let mut s = String::from_str(".moeb/metrics/");
    s.append(run_id);
    s.append(".metrics.json");
    s
}

/// The end-of-run review is skipped when asked, or when the skill does not
/// enable it; the prompt says so as `true` or `false`.
pub fn no_review_text(no_review: bool, skill_review_enabled: bool) -> (r: &'static str)
    ensures
        r@ == if no_review || !skill_review_enabled { "true"@ } else { "false"@ },
{
    if no_review || !skill_review_enabled {
        "true"
    } else {
        "false"
    }
}

// ── The prompts ───────────────────────────────────────────────────────────────

/// Placeholder `{{role_content}}` of the prompt templates.
pub const ROLE_CONTENT_TOKEN: &'static str = "{{role_content}}";
/// Placeholder `{{spec}}` of the prompt templates.
pub const SPEC_TOKEN: &'static str = "{{spec}}";
/// Placeholder `{{readme_content}}` of the prompt templates.
pub const README_TOKEN: &'static str = "{{readme_content}}";
/// Placeholder `{{spec_content}}` of the prompt templates.
pub const SPEC_CONTENT_TOKEN: &'static str = "{{spec_content}}";
/// Placeholder `{{skill_content}}` of the prompt templates.
pub const SKILL_CONTENT_TOKEN: &'static str = "{{skill_content}}";
/// Placeholder `{{command_rubrics}}` of the prompt templates.
pub const COMMAND_RUBRICS_TOKEN: &'static str = "{{command_rubrics}}";
/// Placeholder `{{no_review}}` of the prompt templates.
pub const NO_REVIEW_TOKEN: &'static str = "{{no_review}}";
/// Placeholder `{{metrics_window}}` of the prompt templates.
pub const METRICS_WINDOW_TOKEN: &'static str = "{{metrics_window}}";
/// Placeholder `{{metrics_degradation_margin}}` of the prompt templates.
pub const METRICS_MARGIN_TOKEN: &'static str = "{{metrics_degradation_margin}}";
/// Placeholder `{{run_id}}` of the prompt templates.
pub const RUN_ID_TOKEN: &'static str = "{{run_id}}";
/// Placeholder `{{run_file_path}}` of the prompt templates.
pub const RUN_FILE_PATH_TOKEN: &'static str = "{{run_file_path}}";
/// Placeholder `{{input}}` of the prompt templates.
pub const INPUT_TOKEN: &'static str = "{{input}}";
/// Placeholder `{{spec_schema_content}}` of the prompt templates.
pub const SPEC_SCHEMA_TOKEN: &'static str = "{{spec_schema_content}}";
/// Placeholder `{{rubrics_content}}` of the prompt templates.
pub const RUBRICS_TOKEN: &'static str = "{{rubrics_content}}";

/// A `(placeholder, value)` pair.
fn pair(token: &str, value: &str) -> (r: (String, String))
    ensures
        r.0@ == token@,
        r.1@ == value@,
{
    (String::from_str(token), String::from_str(value))
}

/// The `(placeholder, value)` pairs of the `moeb run` prompt, in the order they are replaced.
pub open spec fn run_pairs_of(role_content: Seq<char>, spec_path: Seq<char>, readme_content: Seq<char>, spec_content: Seq<char>, skill_content: Seq<char>, command_rubrics: Seq<char>, no_review: Seq<char>, metrics_window: Seq<char>, metrics_margin: Seq<char>, run_id: Seq<char>, run_file_path: Seq<char>) -> Seq<(Seq<char>, Seq<char>)> {
    seq![
        ("{{role_content}}"@, role_content),
        ("{{spec}}"@, spec_path),
        ("{{readme_content}}"@, readme_content),
        ("{{spec_content}}"@, spec_content),
        ("{{skill_content}}"@, skill_content),
        ("{{command_rubrics}}"@, command_rubrics),
        ("{{no_review}}"@, no_review),
        ("{{metrics_window}}"@, metrics_window),
        ("{{metrics_degradation_margin}}"@, metrics_margin),
        ("{{run_id}}"@, run_id),
        ("{{run_file_path}}"@, run_file_path),
    ]
}

/// The `(placeholder, value)` pairs of the `moeb run` prompt, in the order they are replaced.
pub fn run_prompt_pairs(role_content: &str, spec_path: &str, readme_content: &str, spec_content: &str, skill_content: &str, command_rubrics: &str, no_review: &str, metrics_window: &str, metrics_margin: &str, run_id: &str, run_file_path: &str) -> (r: Vec<(String, String)>)
    ensures
        pairs_view(r@) == run_pairs_of(role_content@, spec_path@, readme_content@, spec_content@, skill_content@, command_rubrics@, no_review@, metrics_window@, metrics_margin@, run_id@, run_file_path@),
        forall|k: int| 0 <= k < r@.len() ==> (#[trigger] r@[k]).0@.len() > 0,
{
    let mut r: Vec<(String, String)> = Vec::new();
    r.push(pair(ROLE_CONTENT_TOKEN, role_content));
    r.push(pair(SPEC_TOKEN, spec_path));
    r.push(pair(README_TOKEN, readme_content));
    r.push(pair(SPEC_CONTENT_TOKEN, spec_content));
    r.push(pair(SKILL_CONTENT_TOKEN, skill_content));
    r.push(pair(COMMAND_RUBRICS_TOKEN, command_rubrics));
    r.push(pair(NO_REVIEW_TOKEN, no_review));
    r.push(pair(METRICS_WINDOW_TOKEN, metrics_window));
    r.push(pair(METRICS_MARGIN_TOKEN, metrics_margin));
    r.push(pair(RUN_ID_TOKEN, run_id));
    r.push(pair(RUN_FILE_PATH_TOKEN, run_file_path));
    proof {
        reveal_strlit("{{role_content}}");
        reveal_strlit("{{spec}}");
        reveal_strlit("{{readme_content}}");
        reveal_strlit("{{spec_content}}");
        reveal_strlit("{{skill_content}}");
        reveal_strlit("{{command_rubrics}}");
        reveal_strlit("{{no_review}}");
        reveal_strlit("{{metrics_window}}");
        reveal_strlit("{{metrics_degradation_margin}}");
        reveal_strlit("{{run_id}}");
        reveal_strlit("{{run_file_path}}");
        assert(pairs_view(r@) =~= run_pairs_of(role_content@, spec_path@, readme_content@, spec_content@, skill_content@, command_rubrics@, no_review@, metrics_window@, metrics_margin@, run_id@, run_file_path@));
    }
    r
}

/// The `(placeholder, value)` pairs of the `moeb spec` prompt, in the order they are replaced.
pub open spec fn spec_pairs_of(role_content: Seq<char>, input: Seq<char>, readme_content: Seq<char>, spec_schema_content: Seq<char>, rubrics_content: Seq<char>, skill_content: Seq<char>, command_rubrics: Seq<char>, no_review: Seq<char>, metrics_window: Seq<char>, metrics_margin: Seq<char>, run_id: Seq<char>, run_file_path: Seq<char>) -> Seq<(Seq<char>, Seq<char>)> {
    seq![
        ("{{role_content}}"@, role_content),
        ("{{input}}"@, input),
        ("{{readme_content}}"@, readme_content),
        ("{{spec_schema_content}}"@, spec_schema_content),
        ("{{rubrics_content}}"@, rubrics_content),
        ("{{skill_content}}"@, skill_content),
        ("{{command_rubrics}}"@, command_rubrics),
        ("{{no_review}}"@, no_review),
        ("{{metrics_window}}"@, metrics_window),
        ("{{metrics_degradation_margin}}"@, metrics_margin),
        ("{{run_id}}"@, run_id),
        ("{{run_file_path}}"@, run_file_path),
    ]
}

/// The `(placeholder, value)` pairs of the `moeb spec` prompt, in the order they are replaced.
pub fn spec_prompt_pairs(role_content: &str, input: &str, readme_content: &str, spec_schema_content: &str, rubrics_content: &str, skill_content: &str, command_rubrics: &str, no_review: &str, metrics_window: &str, metrics_margin: &str, run_id: &str, run_file_path: &str) -> (r: Vec<(String, String)>)
    ensures
        pairs_view(r@) == spec_pairs_of(role_content@, input@, readme_content@, spec_schema_content@, rubrics_content@, skill_content@, command_rubrics@, no_review@, metrics_window@, metrics_margin@, run_id@, run_file_path@),
        forall|k: int| 0 <= k < r@.len() ==> (#[trigger] r@[k]).0@.len() > 0,
{
    let mut r: Vec<(String, String)> = Vec::new();
    r.push(pair(ROLE_CONTENT_TOKEN, role_content));
    r.push(pair(INPUT_TOKEN, input));
    r.push(pair(README_TOKEN, readme_content));
    r.push(pair(SPEC_SCHEMA_TOKEN, spec_schema_content));
    r.push(pair(RUBRICS_TOKEN, rubrics_content));
    r.push(pair(SKILL_CONTENT_TOKEN, skill_content));
    r.push(pair(COMMAND_RUBRICS_TOKEN, command_rubrics));
    r.push(pair(NO_REVIEW_TOKEN, no_review));
    r.push(pair(METRICS_WINDOW_TOKEN, metrics_window));
    r.push(pair(METRICS_MARGIN_TOKEN, metrics_margin));
    r.push(pair(RUN_ID_TOKEN, run_id));
    r.push(pair(RUN_FILE_PATH_TOKEN, run_file_path));
    proof {
        reveal_strlit("{{role_content}}");
        reveal_strlit("{{input}}");
        reveal_strlit("{{readme_content}}");
        reveal_strlit("{{spec_schema_content}}");
        reveal_strlit("{{rubrics_content}}");
        reveal_strlit("{{skill_content}}");
        reveal_strlit("{{command_rubrics}}");
        reveal_strlit("{{no_review}}");
        reveal_strlit("{{metrics_window}}");
        reveal_strlit("{{metrics_degradation_margin}}");
        reveal_strlit("{{run_id}}");
        reveal_strlit("{{run_file_path}}");
        assert(pairs_view(r@) =~= spec_pairs_of(role_content@, input@, readme_content@, spec_schema_content@, rubrics_content@, skill_content@, command_rubrics@, no_review@, metrics_window@, metrics_margin@, run_id@, run_file_path@));
    }
    r
}

} // verus!
