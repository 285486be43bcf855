//! Parsing and validation of generated specification documents: the YAML-like
//! front matter that opens them, the order of their body sections, and the
//! slug derived from a raw requirement.

use vstd::prelude::*;

use crate::text::{
    chars_eq, chars_of, has_prefix, in_class, lines, skip_class, slice_chars, split_lines,
    string_from_chars, strip_prefix, strip_prefix_vec, trim_class, trim_end_class, trim_start_class, trim_start_vec,
    trim_vec, vecs_view, CharClass,
};

verus! {

// ── Section order ────────────────────────────────────────────────────────────

/// The sections every specification body holds, in this order.
pub const REQUIRED_SECTIONS: [&'static str; 8] = [
    "# ",
    "## Raw Requirement",
    "## Description",
    "```mermaid",
    "## Backlinks",
    "## Steps",
    "## Decisions",
    "## Rubric",
];

/// Why a specification body was refused.
#[derive(Debug, Clone)]
pub struct SectionError {
    /// The first required section that was not found in order.
    pub missing: String,
}

impl SectionError {
    /// Human-readable description of the error.
    pub fn message(&self) -> (m: String)
        ensures
            m@ == "Required section missing or out of order: '"@ + self.missing@ + "'"@,
    {
        let mut m = String::from_str("Required section missing or out of order: '");
        m.append(self.missing.as_str());
        m.append("'");
        m
    }
}

/// The models of a list of string slices.
pub open spec fn strs_view(v: Seq<&str>) -> Seq<Seq<char>> {
    v.map_values(|s: &str| s@)
}

/// Number of required sections found, in order, among `ls`, `k` having been
/// found before: a line matches the next required section when, without its
/// leading white space, it begins with that section's text.
pub open spec fn sections_found(ls: Seq<Seq<char>>, req: Seq<Seq<char>>, k: nat) -> nat
    decreases ls.len(),
{
    if ls.len() == 0 || k >= req.len() {
        k
    } else {
        let k2 = if has_prefix(trim_start_class(ls[0], CharClass::Space), req[k as int]) {
            k + 1
        } else {
            k
        };
        sections_found(ls.drop_first(), req, k2)
    }
}

proof fn lemma_sections_bound(ls: Seq<Seq<char>>, req: Seq<Seq<char>>, k: nat)
    requires
        k <= req.len(),
    ensures
        k <= sections_found(ls, req, k) <= req.len(),
    decreases ls.len(),
{
    if ls.len() > 0 && k < req.len() {
        let k2 = if has_prefix(trim_start_class(ls[0], CharClass::Space), req[k as int]) {
            k + 1
        } else {
            k
        };
        lemma_sections_bound(ls.drop_first(), req, k2);
    }
}

/// The line `l` opens the section `p`: without its leading white space, it
/// begins with `p`.
pub open spec fn line_opens(l: Seq<char>, p: Seq<char>) -> bool {
    has_prefix(trim_start_class(l, CharClass::Space), p)
}

/// `idx` places the required sections from the `k`-th on among the lines
/// `ls`: one line per section, each opening its section, in increasing order.
pub open spec fn places(ls: Seq<Seq<char>>, req: Seq<Seq<char>>, k: nat, idx: Seq<int>) -> bool {
    &&& idx.len() + k == req.len()
    &&& forall|j: int| 0 <= j < idx.len() ==> 0 <= #[trigger] idx[j] < ls.len() && line_opens(ls[idx[j]], req[k + j])
    &&& forall|j1: int, j2: int| 0 <= j1 < j2 < idx.len() ==> #[trigger] idx[j1] < #[trigger] idx[j2]
}

proof fn lemma_found_gives_places(ls: Seq<Seq<char>>, req: Seq<Seq<char>>, k: nat) -> (idx: Seq<int>)
    requires
        k <= req.len(),
        sections_found(ls, req, k) == req.len(),
    ensures
        places(ls, req, k, idx),
    decreases ls.len(),
{
    if k >= req.len() {
        Seq::empty()
    } else if ls.len() == 0 {
        Seq::empty()
    } else {
        let rest = ls.drop_first();
        if line_opens(ls[0], req[k as int]) {
            let sub = lemma_found_gives_places(rest, req, k + 1);
            let idx = seq![0int] + sub.map_values(|x: int| x + 1);
            assert forall|j: int| 0 <= j < idx.len() implies 0 <= #[trigger] idx[j] < ls.len() && line_opens(
                ls[idx[j]],
                req[k + j],
            ) by {
                if j > 0 {
                    assert(idx[j] == sub[j - 1] + 1);
                    assert(rest[sub[j - 1]] == ls[sub[j - 1] + 1]);
                }
            }
            assert forall|j1: int, j2: int| 0 <= j1 < j2 < idx.len() implies #[trigger] idx[j1] < #[trigger] idx[j2] by {
                if j1 > 0 {
                    assert(sub[j1 - 1] < sub[j2 - 1]);
                } else {
                    assert(idx[j2] == sub[j2 - 1] + 1);
                }
            }
            idx
        } else {
            let sub = lemma_found_gives_places(rest, req, k);
            let idx = sub.map_values(|x: int| x + 1);
            assert forall|j: int| 0 <= j < idx.len() implies 0 <= #[trigger] idx[j] < ls.len() && line_opens(
                ls[idx[j]],
                req[k + j],
            ) by {
                assert(rest[sub[j]] == ls[sub[j] + 1]);
            }
            assert forall|j1: int, j2: int| 0 <= j1 < j2 < idx.len() implies #[trigger] idx[j1] < #[trigger] idx[j2] by {
                assert(sub[j1] < sub[j2]);
            }
            idx
        }
    }
}

proof fn lemma_places_gives_found(ls: Seq<Seq<char>>, req: Seq<Seq<char>>, k: nat, idx: Seq<int>)
    requires
        places(ls, req, k, idx),
    ensures
        sections_found(ls, req, k) == req.len(),
    decreases ls.len(),
{
    if k < req.len() {
        assert(0 <= idx[0] < ls.len());
        let rest = ls.drop_first();
        if line_opens(ls[0], req[k as int]) {
            let sub = idx.drop_first().map_values(|x: int| x - 1);
            assert forall|j: int| 0 <= j < sub.len() implies 0 <= #[trigger] sub[j] < rest.len() && line_opens(
                rest[sub[j]],
                req[(k + 1) + j],
            ) by {
                assert(idx[0] < idx[j + 1]);
                assert(sub[j] == idx[j + 1] - 1);
                assert(rest[sub[j]] == ls[idx[j + 1]]);
            }
            assert forall|j1: int, j2: int| 0 <= j1 < j2 < sub.len() implies #[trigger] sub[j1] < #[trigger] sub[j2] by {
                assert(idx[j1 + 1] < idx[j2 + 1]);
            }
            lemma_places_gives_found(rest, req, k + 1, sub);
        } else {
            assert(idx[0] != 0);
            let sub = idx.map_values(|x: int| x - 1);
            assert forall|j: int| 0 <= j < sub.len() implies 0 <= #[trigger] sub[j] < rest.len() && line_opens(
                rest[sub[j]],
                req[k + j],
            ) by {
                if j > 0 {
                    assert(idx[0] < idx[j]);
                }
                assert(rest[sub[j]] == ls[idx[j]]);
            }
            assert forall|j1: int, j2: int| 0 <= j1 < j2 < sub.len() implies #[trigger] sub[j1] < #[trigger] sub[j2] by {
                assert(idx[j1] < idx[j2]);
            }
            lemma_places_gives_found(rest, req, k, sub);
        }
    }
}

/// The greedy scan of [`validate_sections`] finds every required section
/// exactly when the sections can be placed on lines of the body in their
/// order: one line per section, each opening it, each below the previous.
pub proof fn law_sections_found_iff_placed(ls: Seq<Seq<char>>, req: Seq<Seq<char>>)
    ensures
        sections_found(ls, req, 0) == req.len() <==> exists|idx: Seq<int>| places(ls, req, 0, idx),
{
    if sections_found(ls, req, 0) == req.len() {
        let idx = lemma_found_gives_places(ls, req, 0);
        assert(places(ls, req, 0, idx));
    }
    if exists|idx: Seq<int>| places(ls, req, 0, idx) {
        let idx = choose|idx: Seq<int>| places(ls, req, 0, idx);
        lemma_places_gives_found(ls, req, 0, idx);
    }
}

/// Checks that `body` contains every `required` section, in order: each one
/// must open a line (after leading white space) below the line of the previous one.
pub fn validate_sections(body: &str, required: &[&str]) -> (r: Result<(), SectionError>)
    ensures
        ({
            let found = sections_found(lines(body@), strs_view(required@), 0);
            &&& r is Ok <==> found == required@.len()
            &&& r matches Err(e) ==> found < required@.len() && e.missing@ == required@[found as int]@
        }),
{
    let ghost req = strs_view(required@);
    let bv = chars_of(body);
    let ls = split_lines(&bv);
    let nreq = required.len();
    let nl = ls.len();
    let mut k: usize = 0;
    let mut i: usize = 0;
    proof {
        assert(vecs_view(ls@).skip(0) =~= vecs_view(ls@));
        lemma_sections_bound(vecs_view(ls@), req, 0);
    }
    while i < nl && k < nreq
        invariant
            nl == ls@.len(),
            nreq == required@.len(),
            req == strs_view(required@),
            i <= nl,
            k <= nreq,
            sections_found(vecs_view(ls@), req, 0) == sections_found(vecs_view(ls@).skip(i as int), req, k as nat),
        decreases nl - i,
    {
        let line = trim_start_vec(&ls[i], CharClass::Space);
        let expected = chars_of(required[k]);
        let lv = line.len();
        let matched = if expected.len() <= lv {
            let head = slice_chars(&line, 0, expected.len());
            chars_eq(&head, &expected)
        } else {
            false
        };
        proof {
            let rest = vecs_view(ls@).skip(i as int);
            assert(rest[0] == ls@[i as int]@);
            assert(rest.drop_first() =~= vecs_view(ls@).skip(i + 1));
            assert(matched == has_prefix(line@, req[k as int]));
        }
        if matched {
            k = k + 1;
        }
        i = i + 1;
    }
    proof {
        if i == nl {
            assert(vecs_view(ls@).skip(i as int) =~= Seq::<Seq<char>>::empty());
        }
    }
    if k < nreq {
        let missing = String::from_str(required[k]);
        Err(SectionError { missing })
    } else {
        Ok(())
    }
}

// ── Slug ─────────────────────────────────────────────────────────────────────

/// Whether `c` is alphanumeric in the Unicode sense (`char::is_alphanumeric`).
pub uninterp spec fn unicode_alphanumeric(c: char) -> bool;

/// `char::is_alphanumeric`: true for characters with the Unicode `Alphabetic`
/// or `Numeric` property. The tables themselves are not restated; the result
/// is named [`unicode_alphanumeric`].
#[verifier::external_body]
fn is_alphanumeric(c: char) -> (b: bool)
    ensures
        b == unicode_alphanumeric(c),
{
    c.is_alphanumeric()
}

/// Maximum number of characters in a slug.
pub const SLUG_MAX_CHARS: usize = 40;

/// The slug of `s`, `alnum[i]` telling whether `s[i]` is alphanumeric: every
/// character that is neither alphanumeric nor a dash becomes a dash, leading
/// and trailing dashes are dropped, and at most 40 characters are kept.
pub open spec fn slug_of(s: Seq<char>, alnum: Seq<bool>) -> Seq<char> {
    let mapped = Seq::new(s.len(), |i: int| if alnum[i] || s[i] == '-' { s[i] } else { '-' });
    let t = trim_class(mapped, CharClass::Exactly('-'));
    if t.len() <= 40 { t } else { t.take(40) }
}

/// The slug of the characters `s`, `alnum[i]` telling whether `s[i]` is alphanumeric.
pub fn slug_from(s: &Vec<char>, alnum: &Vec<bool>) -> (r: String)
    requires
        s@.len() == alnum@.len(),
    ensures
        r@ == slug_of(s@, alnum@),
{
    let n = s.len();
    let mut mapped: Vec<char> = Vec::new();
    for i in 0..n
        invariant
            n == s@.len(),
            n == alnum@.len(),
            mapped@ == Seq::new(i as nat, |j: int| if alnum@[j] || s@[j] == '-' { s@[j] } else { '-' }),
    {
        let c = s[i];
        let d = if alnum[i] || c == '-' { c } else { '-' };
        mapped.push(d);
        assert(mapped@ =~= Seq::new((i + 1) as nat, |j: int| if alnum@[j] || s@[j] == '-' { s@[j] } else { '-' }));
    }
    let t = trim_vec(&mapped, CharClass::Exactly('-'));
    if t.len() <= SLUG_MAX_CHARS {
        string_from_chars(&t)
    } else {
        let head = slice_chars(&t, 0, SLUG_MAX_CHARS);
        assert(head@ =~= t@.take(40));
        string_from_chars(&head)
    }
}

/// A file-name-safe slug of a raw requirement (see [`slug_of`]).
pub fn sanitize_slug(input: &str) -> (r: String)
    ensures
        r@ == slug_of(input@, Seq::new(input@.len(), |i: int| unicode_alphanumeric(input@[i]))),
{
    let s = chars_of(input);
    let n = s.len();
    let mut alnum: Vec<bool> = Vec::new();
    for i in 0..n
        invariant
            n == s@.len(),
            s@ == input@,
            alnum@ == Seq::new(i as nat, |j: int| unicode_alphanumeric(s@[j])),
    {
        alnum.push(is_alphanumeric(s[i]));
        assert(alnum@ =~= Seq::new((i + 1) as nat, |j: int| unicode_alphanumeric(s@[j])));
    }
    assert(alnum@ =~= Seq::new(input@.len(), |i: int| unicode_alphanumeric(input@[i])));
    slug_from(&s, &alnum)
}

} // verus!

verus! {

proof fn lemma_trim_start_shape(s: Seq<char>, class: CharClass)
    ensures
        trim_start_class(s, class).len() <= s.len(),
        trim_start_class(s, class) == s.skip(s.len() - trim_start_class(s, class).len()),
        trim_start_class(s, class).len() > 0 ==> !in_class(class, trim_start_class(s, class)[0]),
        (s.len() == 0 || !in_class(class, s[0])) ==> trim_start_class(s, class) == s,
    decreases s.len(),
{
    if s.len() > 0 && in_class(class, s[0]) {
        lemma_trim_start_shape(s.drop_first(), class);
        let r = trim_start_class(s, class);
        assert(s.drop_first().skip(s.drop_first().len() - r.len()) =~= s.skip(s.len() - r.len()));
    } else {
        assert(s.skip(0) =~= s);
    }
}

proof fn lemma_trim_end_shape(s: Seq<char>, class: CharClass)
    ensures
        trim_end_class(s, class).len() <= s.len(),
        trim_end_class(s, class) == s.take(trim_end_class(s, class).len() as int),
        trim_end_class(s, class).len() > 0 ==> !in_class(class, trim_end_class(s, class).last()),
        (s.len() == 0 || !in_class(class, s.last())) ==> trim_end_class(s, class) == s,
    decreases s.len(),
{
    if s.len() > 0 && in_class(class, s.last()) {
        lemma_trim_end_shape(s.drop_last(), class);
        let r = trim_end_class(s, class);
        assert(s.drop_last().take(r.len() as int) =~= s.take(r.len() as int));
    } else {
        assert(s.take(s.len() as int) =~= s);
    }
}

/// A slug is at most 40 characters long, holds only alphanumeric
/// characters and dashes, and does not begin with a dash; a requirement that
/// already has that shape (and does not end with a dash) is its own slug.
pub proof fn law_slug_shape(input: Seq<char>)
    ensures
        ({
            let r = slug_of(input, Seq::new(input.len(), |i: int| unicode_alphanumeric(input[i])));
            &&& r.len() <= 40
            &&& forall|i: int| 0 <= i < r.len() ==> unicode_alphanumeric(#[trigger] r[i]) || r[i] == '-'
            &&& r.len() > 0 ==> r[0] != '-'
            &&& ((forall|i: int| 0 <= i < input.len() ==> unicode_alphanumeric(#[trigger] input[i]) || input[i] == '-')
                && input.len() <= 40 && (input.len() > 0 ==> input[0] != '-' && input.last() != '-')) ==> r == input
        }),
{
    let alnum = Seq::new(input.len(), |i: int| unicode_alphanumeric(input[i]));
    let mapped = Seq::new(input.len(), |i: int| if alnum[i] || input[i] == '-' { input[i] } else { '-' });
    let class = CharClass::Exactly('-');
    let u = trim_start_class(mapped, class);
    let t = trim_end_class(u, class);
    lemma_trim_start_shape(mapped, class);
    lemma_trim_end_shape(u, class);
    let r = slug_of(input, alnum);
    assert(r == if t.len() <= 40 { t } else { t.take(40) });
    assert forall|i: int| 0 <= i < r.len() implies unicode_alphanumeric(#[trigger] r[i]) || r[i] == '-' by {
        let off = mapped.len() - u.len();
        assert(r[i] == t[i]);
        assert(t[i] == u[i]);
        assert(u[i] == mapped[off + i]);
    }
    if r.len() > 0 {
        assert(r[0] == t[0]);
        assert(t[0] == u[0]);
    }
    if (forall|i: int| 0 <= i < input.len() ==> unicode_alphanumeric(#[trigger] input[i]) || input[i] == '-')
        && input.len() <= 40 && (input.len() > 0 ==> input[0] != '-' && input.last() != '-') {
        assert(mapped =~= input) by {
            assert forall|i: int| 0 <= i < input.len() implies mapped[i] == input[i] by {
                assert(unicode_alphanumeric(input[i]) || input[i] == '-');
            }
        }
        assert(u == mapped);
        assert(t == u);
    }
}

// ── Front matter ─────────────────────────────────────────────────────────────

/// Why a document's front matter was refused.
#[derive(Debug, Clone)]
pub enum FrontmatterError {
    /// The document does not begin with a `---` line.
    NoOpening,
    /// No `---` line closes the front matter.
    NotClosed,
    MissingDomain,
    MissingSlug,
    MissingStatus,
    EmptyDomain,
    EmptySlug,
    /// The status is none of `active`, `superseded`, `draft`.
    InvalidStatus(String),
}

/// Mathematical model of a [`FrontmatterError`].
pub enum FrontmatterErrorView {
    NoOpening,
    NotClosed,
    MissingDomain,
    MissingSlug,
    MissingStatus,
    EmptyDomain,
    EmptySlug,
    InvalidStatus(Seq<char>),
}

impl View for FrontmatterError {
    type V = FrontmatterErrorView;

    open spec fn view(&self) -> FrontmatterErrorView {
        match self {
            FrontmatterError::NoOpening => FrontmatterErrorView::NoOpening,
            FrontmatterError::NotClosed => FrontmatterErrorView::NotClosed,
            FrontmatterError::MissingDomain => FrontmatterErrorView::MissingDomain,
            FrontmatterError::MissingSlug => FrontmatterErrorView::MissingSlug,
            FrontmatterError::MissingStatus => FrontmatterErrorView::MissingStatus,
            FrontmatterError::EmptyDomain => FrontmatterErrorView::EmptyDomain,
            FrontmatterError::EmptySlug => FrontmatterErrorView::EmptySlug,
            FrontmatterError::InvalidStatus(s) => FrontmatterErrorView::InvalidStatus(s@),
        }
    }
}

/// The sentence that reports a front-matter error.
pub open spec fn frontmatter_message(e: FrontmatterErrorView) -> Seq<char> {
    match e {
        FrontmatterErrorView::NoOpening => "Response does not begin with a '---' frontmatter block."@,
        FrontmatterErrorView::NotClosed => "Frontmatter block is not closed with '---'."@,
        FrontmatterErrorView::MissingDomain => "Frontmatter missing 'domain' field."@,
        FrontmatterErrorView::MissingSlug => "Frontmatter missing 'slug' field."@,
        FrontmatterErrorView::MissingStatus => "Frontmatter missing 'status' field."@,
        FrontmatterErrorView::EmptyDomain => "Frontmatter 'domain' field is empty."@,
        FrontmatterErrorView::EmptySlug => "Frontmatter 'slug' field is empty."@,
        FrontmatterErrorView::InvalidStatus(v) => "Frontmatter 'status' field has invalid value '"@ + v
            + "'. Must be one of: active, superseded, draft."@,
    }
}

impl FrontmatterError {
    /// Human-readable description of the error.
    pub fn message(&self) -> (r: String)
        ensures
            r@ == frontmatter_message(self@),
    {
        match self {
            FrontmatterError::NoOpening => String::from_str(
                "Response does not begin with a '---' frontmatter block.",
            ),
            FrontmatterError::NotClosed => String::from_str(
                "Frontmatter block is not closed with '---'.",
            ),
            FrontmatterError::MissingDomain => String::from_str("Frontmatter missing 'domain' field."),
            FrontmatterError::MissingSlug => String::from_str("Frontmatter missing 'slug' field."),
            FrontmatterError::MissingStatus => String::from_str("Frontmatter missing 'status' field."),
            FrontmatterError::EmptyDomain => String::from_str("Frontmatter 'domain' field is empty."),
            FrontmatterError::EmptySlug => String::from_str("Frontmatter 'slug' field is empty."),
            FrontmatterError::InvalidStatus(s) => {
                let mut m = String::from_str("Frontmatter 'status' field has invalid value '");
                m.append(s.as_str());
                m.append("'. Must be one of: active, superseded, draft.");
                m
            },
        }
    }
}

/// Where the front matter ends and the body begins.
pub enum FrontmatterSplit {
    NoOpening,
    NotClosed,
    /// The front-matter text and the body.
    Parts(Seq<char>, Seq<char>),
}

/// Cuts a document into front matter and body: leading white space is
/// skipped, the document must begin with `---`; the front matter runs from
/// after the opening dashes and line feeds up to the first `\n---`, the body
/// starts after the closing dashes and line feeds.
pub open spec fn split_frontmatter(content: Seq<char>) -> FrontmatterSplit {
    let c = trim_start_class(content, CharClass::Space);
    if !has_prefix(c, "---"@) {
        FrontmatterSplit::NoOpening
    } else {
        let after = trim_start_class(crate::text::trim_start_pattern(c, "---"@), CharClass::Exactly('\n'));
        match crate::text::find(after, "\n---"@) {
            None => FrontmatterSplit::NotClosed,
            Some(k) => FrontmatterSplit::Parts(
                after.take(k),
                trim_start_class(
                    crate::text::trim_start_pattern(after.skip(k), "\n---"@),
                    CharClass::Exactly('\n'),
                ),
            ),
        }
    }
}

/// The fields gathered while reading the front-matter lines.
pub struct FrontmatterScan {
    pub domain: Option<Seq<char>>,
    pub slug: Option<Seq<char>>,
    pub status: Option<Seq<char>>,
    pub supersedes: Seq<(Seq<char>, Seq<char>)>,
    /// Inside the `supersedes:` block.
    pub in_supersedes: bool,
    /// Path of the supersedes entry being read.
    pub path: Option<Seq<char>>,
    /// Decision of the supersedes entry being read.
    pub decision: Option<Seq<char>>,
}

/// Nothing read yet.
pub open spec fn scan_start() -> FrontmatterScan {
    FrontmatterScan {
        domain: None,
        slug: None,
        status: None,
        supersedes: seq![],
        in_supersedes: false,
        path: None,
        decision: None,
    }
}

/// Records the pending supersedes entry when it is complete, and starts a new one.
pub open spec fn flush_entry(st: FrontmatterScan) -> FrontmatterScan {
    FrontmatterScan {
        supersedes: match (st.path, st.decision) {
            (Some(p), Some(d)) => st.supersedes.push((p, d)),
            _ => st.supersedes,
        },
        path: None,
        decision: None,
        ..st
    }
}

/// A top-level `domain:`, `slug:` or `status:` line.
pub open spec fn scan_scalar(st: FrontmatterScan, l: Seq<char>) -> FrontmatterScan {
    match strip_prefix(l, "domain:"@) {
        Some(v) => FrontmatterScan { domain: Some(trim_class(v, CharClass::Space)), ..st },
        None => match strip_prefix(l, "slug:"@) {
            Some(v) => FrontmatterScan { slug: Some(trim_class(v, CharClass::Space)), ..st },
            None => match strip_prefix(l, "status:"@) {
                Some(v) => FrontmatterScan { status: Some(trim_class(v, CharClass::Space)), ..st },
                None => st,
            },
        },
    }
}

/// The line is indented or a list item, so it stays inside the `supersedes:` block.
pub open spec fn continues_block(l: Seq<char>) -> bool {
    l.len() > 0 && (l[0] == ' ' || l[0] == '\t' || l[0] == '-')
}

/// Reading one front-matter line. Leaving the `supersedes:` block discards
/// the entry being read, complete or not.
pub open spec fn scan_line(st: FrontmatterScan, l: Seq<char>) -> FrontmatterScan {
    if trim_start_class(l, CharClass::Space) == "supersedes:"@ {
        FrontmatterScan { in_supersedes: true, ..st }
    } else if st.in_supersedes {
        if !continues_block(l) {
            scan_scalar(FrontmatterScan { in_supersedes: false, path: None, decision: None, ..st }, l)
        } else {
            match strip_prefix(trim_start_class(l, CharClass::SpaceOrDash), "path:"@) {
                Some(v) => FrontmatterScan {
                    path: Some(trim_class(v, CharClass::Space)),
                    ..flush_entry(st)
                },
                None => match strip_prefix(trim_start_class(l, CharClass::Space), "decision:"@) {
                    Some(v) => FrontmatterScan {
                        decision: Some(trim_class(trim_class(v, CharClass::Space), CharClass::Exactly('"'))),
                        ..st
                    },
                    None => st,
                },
            }
        }
    } else {
        scan_scalar(st, l)
    }
}

/// Reading the lines `ls` in order from state `st`.
pub open spec fn scan_lines(st: FrontmatterScan, ls: Seq<Seq<char>>) -> FrontmatterScan
    decreases ls.len(),
{
    if ls.len() == 0 {
        st
    } else {
        scan_lines(scan_line(st, ls[0]), ls.drop_first())
    }
}

/// One of the statuses a specification may have.
pub open spec fn is_valid_status(s: Seq<char>) -> bool {
    s == "active"@ || s == "superseded"@ || s == "draft"@
}

/// The fields of a well-formed front matter.
pub struct FrontmatterFields {
    pub domain: Seq<char>,
    pub slug: Seq<char>,
    pub status: Seq<char>,
    pub supersedes: Seq<(Seq<char>, Seq<char>)>,
    pub body: Seq<char>,
}

/// What parsing `content` yields.
pub open spec fn frontmatter_of(content: Seq<char>) -> Result<FrontmatterFields, FrontmatterErrorView> {
    match split_frontmatter(content) {
        FrontmatterSplit::NoOpening => Err(FrontmatterErrorView::NoOpening),
        FrontmatterSplit::NotClosed => Err(FrontmatterErrorView::NotClosed),
        FrontmatterSplit::Parts(fm, body) => {
            let st = flush_entry(scan_lines(scan_start(), lines(fm)));
            if st.domain is None {
                Err(FrontmatterErrorView::MissingDomain)
            } else if st.slug is None {
                Err(FrontmatterErrorView::MissingSlug)
            } else if st.status is None {
                Err(FrontmatterErrorView::MissingStatus)
            } else if st.domain->0.len() == 0 {
                Err(FrontmatterErrorView::EmptyDomain)
            } else if st.slug->0.len() == 0 {
                Err(FrontmatterErrorView::EmptySlug)
            } else if !is_valid_status(st.status->0) {
                Err(FrontmatterErrorView::InvalidStatus(st.status->0))
            } else {
                Ok(FrontmatterFields {
                    domain: st.domain->0,
                    slug: st.slug->0,
                    status: st.status->0,
                    supersedes: st.supersedes,
                    body: body,
                })
            }
        },
    }
}


/// Front matter is refused when the document (after leading white space)
/// does not open with `---`, and accepted only with a non-empty domain and
/// slug and a status among `active`, `superseded` and `draft`; a refused
/// status is named in the refusal, which lists the valid ones.
pub proof fn law_frontmatter_refusals(content: Seq<char>)
    ensures
        !has_prefix(trim_start_class(content, CharClass::Space), "---"@) ==> frontmatter_of(content)
            == Err::<FrontmatterFields, FrontmatterErrorView>(FrontmatterErrorView::NoOpening),
        frontmatter_of(content) matches Ok(f) ==> f.domain.len() > 0 && f.slug.len() > 0 && is_valid_status(
            f.status,
        ),
        frontmatter_of(content) matches Err(FrontmatterErrorView::InvalidStatus(v)) ==> !is_valid_status(v)
            && frontmatter_message(FrontmatterErrorView::InvalidStatus(v)) == "Frontmatter 'status' field has invalid value '"@
            + v + "'. Must be one of: active, superseded, draft."@,
{
}

} // verus!

verus! {

struct ScanState {
    domain: Option<Vec<char>>,
    slug: Option<Vec<char>>,
    status: Option<Vec<char>>,
    supersedes: Vec<(Vec<char>, Vec<char>)>,
    in_supersedes: bool,
    path: Option<Vec<char>>,
    decision: Option<Vec<char>>,
}

spec fn opt_view(o: Option<Vec<char>>) -> Option<Seq<char>> {
    match o {
        Some(v) => Some(v@),
        None => None,
    }
}

spec fn pairs_view(v: Seq<(Vec<char>, Vec<char>)>) -> Seq<(Seq<char>, Seq<char>)> {
    v.map_values(|p: (Vec<char>, Vec<char>)| (p.0@, p.1@))
}

impl ScanState {
    spec fn model(&self) -> FrontmatterScan {
        FrontmatterScan {
            domain: opt_view(self.domain),
            slug: opt_view(self.slug),
            status: opt_view(self.status),
            supersedes: pairs_view(self.supersedes@),
            in_supersedes: self.in_supersedes,
            path: opt_view(self.path),
            decision: opt_view(self.decision),
        }
    }
}

fn flush_pending(st: &mut ScanState)
    ensures
        final(st).model() == flush_entry(old(st).model()),
{
    let p = st.path.take();
    let d = st.decision.take();
    match (p, d) {
        (Some(p), Some(d)) => {
            let ghost before = st.supersedes@;
            let ghost pair = (p@, d@);
            st.supersedes.push((p, d));
            assert(pairs_view(st.supersedes@) =~= pairs_view(before).push(pair));
        },
        _ => {},
    }
}

fn scan_scalar_exec(st: &mut ScanState, l: &Vec<char>)
    ensures
        final(st).model() == scan_scalar(old(st).model(), l@),
{
    if let Some(v) = strip_prefix_vec(l, &chars_of("domain:")) {
        st.domain = Some(trim_vec(&v, CharClass::Space));
    } else if let Some(v) = strip_prefix_vec(l, &chars_of("slug:")) {
        st.slug = Some(trim_vec(&v, CharClass::Space));
    } else if let Some(v) = strip_prefix_vec(l, &chars_of("status:")) {
        st.status = Some(trim_vec(&v, CharClass::Space));
    }
}

fn scan_line_exec(st: &mut ScanState, l: &Vec<char>)
    ensures
        final(st).model() == scan_line(old(st).model(), l@),
{
    let lead = trim_start_vec(l, CharClass::Space);
    if chars_eq(&lead, &chars_of("supersedes:")) {
        st.in_supersedes = true;
        return;
    }
    if st.in_supersedes {
        let continues = l.len() > 0 && (l[0] == ' ' || l[0] == '\t' || l[0] == '-');
        if !continues {
            st.in_supersedes = false;
            st.path = None;
            st.decision = None;
            scan_scalar_exec(st, l);
        } else {
            let dashless = trim_start_vec(l, CharClass::SpaceOrDash);
            if let Some(v) = strip_prefix_vec(&dashless, &chars_of("path:")) {
                flush_pending(st);
                st.path = Some(trim_vec(&v, CharClass::Space));
            } else if let Some(v) = strip_prefix_vec(&lead, &chars_of("decision:")) {
                let t = trim_vec(&v, CharClass::Space);
                st.decision = Some(trim_vec(&t, CharClass::Exactly('"')));
            }
        }
    } else {
        scan_scalar_exec(st, l);
    }
}

fn pairs_to_strings(v: &Vec<(Vec<char>, Vec<char>)>) -> (r: Vec<(String, String)>)
    ensures
        r@.len() == v@.len(),
        forall|i: int| 0 <= i < v@.len() ==> (#[trigger] r@[i]).0@ == v@[i].0@ && r@[i].1@ == v@[i].1@,
{
    let mut r: Vec<(String, String)> = Vec::new();
    let n = v.len();
    for i in 0..n
        invariant
            n == v@.len(),
            r@.len() == i,
            forall|j: int| 0 <= j < i ==> (#[trigger] r@[j]).0@ == v@[j].0@ && r@[j].1@ == v@[j].1@,
    {
        let a = string_from_chars(&v[i].0);
        let b = string_from_chars(&v[i].1);
        r.push((a, b));
    }
    r
}

/// The models of a list of string pairs.
pub open spec fn string_pairs_view(v: Seq<(String, String)>) -> Seq<(Seq<char>, Seq<char>)> {
    v.map_values(|p: (String, String)| (p.0@, p.1@))
}

/// Parses the front matter of a specification document into its domain, slug,
/// status, supersedes entries (path, decision) and the body that follows it.
pub fn parse_frontmatter(content: &str) -> (r: Result<(String, String, String, Vec<(String, String)>, String), FrontmatterError>)
    ensures
        match frontmatter_of(content@) {
            Ok(f) => r matches Ok((d, s, st, sup, body)) && d@ == f.domain && s@ == f.slug && st@ == f.status
                && string_pairs_view(sup@) == f.supersedes && body@ == f.body,
            Err(e) => r matches Err(x) && x@ == e,
        },
{
    let all = chars_of(content);
    let start = skip_class(&all, 0, all.len(), CharClass::Space);
    let c = slice_chars(&all, start, all.len());
    proof {
        assert(all@.subrange(0, all@.len() as int) =~= all@);
    }
    let dashes = chars_of("---");
    proof {
        reveal_strlit("---");
        reveal_strlit("\n---");
    }
    let opened = match strip_prefix_vec(&c, &dashes) {
        Some(_) => true,
        None => false,
    };
    if !opened {
        return Err(FrontmatterError::NoOpening);
    }
    let after_dashes = crate::text::trim_start_pattern_vec(&c, &dashes);
    let after = trim_start_vec(&after_dashes, CharClass::Exactly('\n'));
    let closing = chars_of("\n---");
    let close = match crate::text::find_vec(&after, &closing) {
        Some(k) => k,
        None => {
            return Err(FrontmatterError::NotClosed);
        },
    };
    proof {
        crate::text::lemma_find_in_range(after@, closing@, 0);
    }
    let fm = slice_chars(&after, 0, close);
    let tail = slice_chars(&after, close, after.len());
    let tail2 = crate::text::trim_start_pattern_vec(&tail, &closing);
    let body = trim_start_vec(&tail2, CharClass::Exactly('\n'));
    proof {
        assert(fm@ =~= after@.take(close as int));
        assert(tail@ =~= after@.skip(close as int));
    }
    let ls = split_lines(&fm);
    let mut st = ScanState {
        domain: None,
        slug: None,
        status: None,
        supersedes: Vec::new(),
        in_supersedes: false,
        path: None,
        decision: None,
    };
    proof {
        assert(st.model().supersedes =~= scan_start().supersedes);
        assert(vecs_view(ls@).skip(0) =~= vecs_view(ls@));
    }
    let n = ls.len();
    for i in 0..n
        invariant
            n == ls@.len(),
            scan_lines(scan_start(), vecs_view(ls@)) == scan_lines(st.model(), vecs_view(ls@).skip(i as int)),
    {
        proof {
            let rest = vecs_view(ls@).skip(i as int);
            assert(rest[0] == ls@[i as int]@);
            assert(rest.drop_first() =~= vecs_view(ls@).skip(i + 1));
        }
        scan_line_exec(&mut st, &ls[i]);
    }
    proof {
        assert(vecs_view(ls@).skip(n as int) =~= Seq::<Seq<char>>::empty());
    }
    flush_pending(&mut st);
    let domain = match st.domain {
        Some(d) => d,
        None => {
            return Err(FrontmatterError::MissingDomain);
        },
    };
    let slug = match st.slug {
        Some(s) => s,
        None => {
            return Err(FrontmatterError::MissingSlug);
        },
    };
    let status = match st.status {
        Some(s) => s,
        None => {
            return Err(FrontmatterError::MissingStatus);
        },
    };
    if domain.len() == 0 {
        return Err(FrontmatterError::EmptyDomain);
    }
    if slug.len() == 0 {
        return Err(FrontmatterError::EmptySlug);
    }
    let valid = chars_eq(&status, &chars_of("active")) || chars_eq(&status, &chars_of("superseded"))
        || chars_eq(&status, &chars_of("draft"));
    if !valid {
        return Err(FrontmatterError::InvalidStatus(string_from_chars(&status)));
    }
    let sup = pairs_to_strings(&st.supersedes);
    proof {
        assert(string_pairs_view(sup@) =~= pairs_view(st.supersedes@));
    }
    Ok((
        string_from_chars(&domain),
        string_from_chars(&slug),
        string_from_chars(&status),
        sup,
        string_from_chars(&body),
    ))
}

} // verus!
