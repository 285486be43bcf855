//! The kernel configuration (`.moeb/config.toml`) and the secrets store
//! (`.moeb/.secrets`): defaults, per-adapter settings, and the `KEY=value`
//! text format of the secrets file.

use vstd::prelude::*;

use crate::str_map::{entries_map, keys_distinct, StrMap};
use crate::text::{
    chars_of, find, find_from, find_vec, first_newline, has_prefix, lines, slice_chars, split_lines, string_from_chars,
    strip_cr, trim_class, trim_vec, vecs_view, CharClass,
};

verus! {

/// Directory holding the harness state.
pub const MOEB_DIR: &'static str = ".moeb";

/// Path of the harness directory.
pub fn moeb_dir() -> (r: String)
    ensures
        r@ == ".moeb"@,
{
    String::from_str(".moeb")
}

/// Path of the configuration file.
pub fn config_path() -> (r: String)
    ensures
        r@ == ".moeb"@ + "/"@ + "config.toml"@,
{
    let mut p = moeb_dir();
    p.append("/");
    p.append("config.toml");
    p
}

/// Path of the secrets file.
pub fn secrets_path() -> (r: String)
    ensures
        r@ == ".moeb"@ + "/"@ + ".secrets"@,
{
    let mut p = moeb_dir();
    p.append("/");
    p.append(".secrets");
    p
}

// ── AdapterConfig ─────────────────────────────────────────────────────────────

/// Settings of one AI adapter; an absent field takes the adapter's default.
#[derive(Debug, Clone)]
pub struct AdapterConfig {
    pub model: Option<String>,
    pub retries: Option<u32>,
    pub timeout_secs: Option<u64>,
}

impl Default for AdapterConfig {
    fn default() -> (r: Self)
        ensures
            r.model is None,
            r.retries is None,
            r.timeout_secs is None,
    {
        AdapterConfig { model: None, retries: None, timeout_secs: None }
    }
}

fn clone_opt_string(o: &Option<String>) -> (r: Option<String>)
    ensures
        r == *o,
{
    match o {
        Some(s) => Some(s.clone()),
        None => None,
    }
}

impl AdapterConfig {
    /// A copy of these settings.
    pub fn duplicate(&self) -> (r: AdapterConfig)
        ensures
            r == *self,
    {
        AdapterConfig { model: clone_opt_string(&self.model), retries: self.retries, timeout_secs: self.timeout_secs }
    }

    /// The configured model, or `default`.
    pub fn effective_model(&self, default: &str) -> (r: String)
        ensures
            r@ == match self.model {
                Some(m) => m@,
                None => default@,
            },
    {
        match &self.model {
            Some(m) => m.clone(),
            None => String::from_str(default),
        }
    }

    /// The configured number of retries, 0 by default.
    pub fn effective_retries(&self) -> (r: u32)
        ensures
            r == match self.retries {
                Some(n) => n,
                None => 0,
            },
    {
        match self.retries {
            Some(n) => n,
            None => 0,
        }
    }

    /// The configured request timeout in seconds, or `default`.
    pub fn effective_timeout_secs(&self, default: u64) -> (r: u64)
        ensures
            r == match self.timeout_secs {
                Some(n) => n,
                None => default,
            },
    {
        match self.timeout_secs {
            Some(n) => n,
            None => default,
        }
    }
}

// ── MoebConfig ────────────────────────────────────────────────────────────────

/// The kernel configuration; an absent field takes its default.
pub struct MoebConfig {
    pub active_adapter: Option<String>,
    pub spec_retry_limit: Option<u32>,
    pub run_retention: Option<i32>,
    pub log_file_content: Option<bool>,
    pub prompt_cache: Option<bool>,
    pub compaction_enabled: Option<bool>,
    pub compaction_threshold: Option<usize>,
    pub compaction_keep_turns: Option<u32>,
    /// Per-adapter settings, by adapter name.
    pub adapters: StrMap<AdapterConfig>,
}

impl Default for MoebConfig {
    fn default() -> (r: Self)
        ensures
            r.active_adapter is None,
            r.spec_retry_limit is None,
            r.run_retention is None,
            r.log_file_content is None,
            r.prompt_cache is None,
            r.compaction_enabled is None,
            r.compaction_threshold is None,
            r.compaction_keep_turns is None,
            r.adapters.map_view() == Map::<Seq<char>, AdapterConfig>::empty(),
    {
        MoebConfig {
            active_adapter: None,
            spec_retry_limit: None,
            run_retention: None,
            log_file_content: None,
            prompt_cache: None,
            compaction_enabled: None,
            compaction_threshold: None,
            compaction_keep_turns: None,
            adapters: StrMap::new(),
        }
    }
}

/// Traces kept per specification: the configured value, or -1 (all).
pub open spec fn run_retention_of(c: MoebConfig) -> i32 {
    match c.run_retention {
        Some(n) => n,
        None => -1i32,
    }
}

/// Whether traces embed file contents: the configured value, or true.
pub open spec fn log_file_content_of(c: MoebConfig) -> bool {
    match c.log_file_content {
        Some(b) => b,
        None => true,
    }
}

/// Whether prompt caching is requested: the configured value, or true.
pub open spec fn prompt_cache_of(c: MoebConfig) -> bool {
    match c.prompt_cache {
        Some(b) => b,
        None => true,
    }
}

/// Default number of attempts at generating a specification.
pub const DEFAULT_SPEC_RETRY_LIMIT: u32 = 3;
/// Default trace retention per specification (-1: keep every trace).
pub const DEFAULT_RUN_RETENTION: i32 = -1;
/// Default size, in bytes of tool results, above which history is compacted.
pub const DEFAULT_COMPACTION_THRESHOLD: usize = 80_000;
/// Default number of recent tool-call turns kept verbatim by compaction.
pub const DEFAULT_COMPACTION_KEEP_TURNS: u32 = 3;

impl MoebConfig {
    /// Attempts at generating a specification (3 by default).
    pub fn effective_spec_retry_limit(&self) -> (r: u32)
        ensures
            r == match self.spec_retry_limit {
                Some(n) => n,
                None => 3,
            },
    {
        match self.spec_retry_limit {
            Some(n) => n,
            None => DEFAULT_SPEC_RETRY_LIMIT,
        }
    }

    /// Traces kept per specification (-1, unlimited, by default).
    pub fn effective_run_retention(&self) -> (r: i32)
        ensures
            r == run_retention_of(*self),
    {
        match self.run_retention {
            Some(n) => n,
            None => DEFAULT_RUN_RETENTION,
        }
    }

    /// Whether traces embed file contents (true by default).
    pub fn effective_log_file_content(&self) -> (r: bool)
        ensures
            r == log_file_content_of(*self),
    {
        match self.log_file_content {
            Some(b) => b,
            None => true,
        }
    }

    /// Whether prompt caching is requested (true by default).
    pub fn effective_prompt_cache(&self) -> (r: bool)
        ensures
            r == prompt_cache_of(*self),
    {
        match self.prompt_cache {
            Some(b) => b,
            None => true,
        }
    }

    /// Whether history compaction is on (true by default).
    pub fn effective_compaction_enabled(&self) -> (r: bool)
        ensures
            r == match self.compaction_enabled {
                Some(b) => b,
                None => true,
            },
    {
        match self.compaction_enabled {
            Some(b) => b,
            None => true,
        }
    }

    /// Compaction threshold in bytes (80 000 by default).
    pub fn effective_compaction_threshold(&self) -> (r: usize)
        ensures
            r == match self.compaction_threshold {
                Some(n) => n,
                None => 80_000,
            },
    {
        match self.compaction_threshold {
            Some(n) => n,
            None => DEFAULT_COMPACTION_THRESHOLD,
        }
    }

    /// Tool-call turns kept verbatim by compaction (3 by default).
    pub fn effective_compaction_keep_turns(&self) -> (r: u32)
        ensures
            r == match self.compaction_keep_turns {
                Some(n) => n,
                None => 3,
            },
    {
        match self.compaction_keep_turns {
            Some(n) => n,
            None => DEFAULT_COMPACTION_KEEP_TURNS,
        }
    }

    /// The settings of adapter `name`, or empty settings when it has none.
    pub fn adapter_config(&self, name: &str) -> (r: AdapterConfig)
        ensures
            self.adapters.map_view().contains_key(name@) ==> r == self.adapters.map_view()[name@],
            !self.adapters.map_view().contains_key(name@) ==> r.model is None && r.retries is None
                && r.timeout_secs is None,
    {
        match self.adapters.get(name) {
            Some(c) => c.duplicate(),
            None => AdapterConfig::default(),
        }
    }
}

// ── Secrets ──────────────────────────────────────────────────────────────────

/// The API keys of the adapters, as stored in the secrets file.
pub struct Secrets {
    path: String,
    map: StrMap<String>,
}

/// Values of a string map, taken by their view.
pub open spec fn string_values(m: Map<Seq<char>, String>) -> Map<Seq<char>, Seq<char>> {
    m.map_values(|v: String| v@)
}

impl View for Secrets {
    type V = Map<Seq<char>, Seq<char>>;

    closed spec fn view(&self) -> Map<Seq<char>, Seq<char>> {
        string_values(self.map.map_view())
    }
}

proof fn lemma_string_values_insert(m: Map<Seq<char>, String>, k: Seq<char>, v: String)
    ensures
        string_values(m.insert(k, v)) == string_values(m).insert(k, v@),
{
    assert(string_values(m.insert(k, v)) =~= string_values(m).insert(k, v@));
}

proof fn lemma_string_values_remove(m: Map<Seq<char>, String>, k: Seq<char>)
    ensures
        string_values(m.remove(k)) == string_values(m).remove(k),
{
    assert(string_values(m.remove(k)) =~= string_values(m).remove(k));
}

impl Secrets {
    /// A store with no keys, bound to the standard secrets file.
    pub fn empty() -> (r: Self)
        ensures
            r@ == Map::<Seq<char>, Seq<char>>::empty(),
            r.path_view() == ".moeb"@ + "/"@ + ".secrets"@,
    {
        let s = Secrets { path: secrets_path(), map: StrMap::new() };
        assert(s@ =~= Map::<Seq<char>, Seq<char>>::empty());
        s
    }

    /// The file this store is written to.
    pub closed spec fn path_view(&self) -> Seq<char> {
        self.path@
    }

    /// The entries in file order.
    pub closed spec fn entry_seq(&self) -> Seq<(String, String)> {
        self.map.entry_seq()
    }

    /// The file this store is written to.
    pub fn path(&self) -> (r: &String)
        ensures
            r@ == self.path_view(),
    {
        &self.path
    }

    /// The store described by the text `text` of the file at `path`.
    pub fn from_text(path: String, text: &str) -> (r: Self)
        ensures
            r@ == kv_lines(lines(text@)),
            r.path_view() == path@,
    {
        Secrets { path, map: parse_kv(text) }
    }

    /// The value stored under `key`.
    pub fn get(&self, key: &str) -> (r: Option<&str>)
        ensures
            match r {
                Some(v) => self@.contains_key(key@) && v@ == self@[key@],
                None => !self@.contains_key(key@),
            },
    {
        match self.map.get(key) {
            Some(v) => Some(v.as_str()),
            None => None,
        }
    }

    /// Stores `value` under `key`; write [`Secrets::flush_text`] to persist it.
    pub fn set(&mut self, key: &str, value: &str)
        ensures
            final(self)@ == old(self)@.insert(key@, value@),
            final(self).path_view() == old(self).path_view(),
    {
        let k = String::from_str(key);
        let v = String::from_str(value);
        proof {
            lemma_string_values_insert(self.map.map_view(), key@, v);
        }
        self.map.insert(k, v);
    }

    /// Removes the value stored under `key`; write [`Secrets::flush_text`] to persist it.
    pub fn remove(&mut self, key: &str)
        ensures
            final(self)@ == old(self)@.remove(key@),
            final(self).path_view() == old(self).path_view(),
    {
        proof {
            lemma_string_values_remove(self.map.map_view(), key@);
        }
        self.map.remove(key);
    }

    /// The text of the secrets file: one `key=value` line per entry, in entry
    /// order; the entries list each key of the store once, with its value.
    pub fn flush_text(&self) -> (r: String)
        ensures
            r@ == kv_text(self.entry_seq()),
            lists_map(self.entry_seq(), self@),
    {
        self.map.check_distinct();
        proof {
            let es = self.map.entry_seq();
            assert forall|i: int| 0 <= i < es.len() implies self@.contains_key((#[trigger] es[i]).0@) && self@[es[i].0@]
                == es[i].1@ by {
                self.map.lemma_lookup(es[i].0@);
            }
            assert forall|k: Seq<char>| self@.contains_key(k) implies exists|i: int|
                0 <= i < es.len() && (#[trigger] es[i]).0@ == k by {
                self.map.lemma_lookup(k);
            }
        }
        let mut r = String::new();
        let n = self.map.len();
        for i in 0..n
            invariant
                n == self.map.entry_seq().len(),
                r@ == kv_text(self.map.entry_seq().take(i as int)),
        {
            let (k, v) = self.map.entry_at(i);
            r.append(k.as_str());
            r.append("=");
            r.append(v.as_str());
            r.append("\n");
            proof {
                let es = self.map.entry_seq();
                assert(es.take(i + 1).drop_last() =~= es.take(i as int));
            }
        }
        proof {
            assert(self.map.entry_seq().take(n as int) =~= self.map.entry_seq());
        }
        r
    }
}

/// `es` lists the map `m`: no key twice, each entry a key of `m` with its
/// value there, and every key of `m` among the entries.
pub open spec fn lists_map(es: Seq<(String, String)>, m: Map<Seq<char>, Seq<char>>) -> bool {
    &&& keys_distinct(es)
    &&& forall|i: int| 0 <= i < es.len() ==> m.contains_key((#[trigger] es[i]).0@) && m[es[i].0@] == es[i].1@
    &&& forall|k: Seq<char>| m.contains_key(k) ==> exists|i: int| 0 <= i < es.len() && (#[trigger] es[i]).0@ == k
}

/// The text of a secrets file holding the entries `es`, in order.
pub open spec fn kv_text(es: Seq<(String, String)>) -> Seq<char>
    decreases es.len(),
{
    if es.len() == 0 {
        seq![]
    } else {
        kv_text(es.drop_last()) + es.last().0@ + "="@ + es.last().1@ + "\n"@
    }
}

/// The key and value of a `key=value` line (split at the first `=`, both trimmed).
pub open spec fn kv_of_line(l: Seq<char>) -> Option<(Seq<char>, Seq<char>)> {
    match find(l, "="@) {
        Some(i) => Some((trim_class(l.take(i), CharClass::Space), trim_class(l.skip(i + 1), CharClass::Space))),
        None => None,
    }
}

/// The map described by the lines `ls` of a secrets file: lines without `=`
/// are ignored, and a later line wins over an earlier one with the same key.
pub open spec fn kv_lines(ls: Seq<Seq<char>>) -> Map<Seq<char>, Seq<char>>
    decreases ls.len(),
{
    if ls.len() == 0 {
        Map::empty()
    } else {
        match kv_of_line(ls.last()) {
            Some((k, v)) => kv_lines(ls.drop_last()).insert(k, v),
            None => kv_lines(ls.drop_last()),
        }
    }
}

/// Parses the `KEY=value` lines of a secrets file.
pub fn parse_kv(text: &str) -> (r: StrMap<String>)
    ensures
        string_values(r.map_view()) == kv_lines(lines(text@)),
{
    let chars = chars_of(text);
    let ls = split_lines(&chars);
    let ghost lv = vecs_view(ls@);
    let mut m: StrMap<String> = StrMap::new();
    let eq = chars_of("=");
    proof {
        reveal_strlit("=");
        assert(string_values(m.map_view()) =~= kv_lines(lv.take(0)));
    }
    let n = ls.len();
    for i in 0..n
        invariant
            n == ls@.len(),
            lv == vecs_view(ls@),
            lv == lines(text@),
            eq@ == "="@,
            string_values(m.map_view()) == kv_lines(lv.take(i as int)),
    {
        let line = &ls[i];
        proof {
            assert(lv.take(i + 1).drop_last() =~= lv.take(i as int));
            assert(lv.take(i + 1).last() == line@);
        }
        match find_vec(line, &eq) {
            Some(p) => {
                proof {
                    reveal_strlit("=");
                    assert(eq@.len() == 1);
                    crate::text::lemma_find_in_range(line@, eq@, 0);
                    assert(find_from(line@, eq@, 0) == Some(p as int));
                    assert(p + 1 <= line@.len());
                }
                let len = line.len();
                let kpart = slice_chars(line, 0, p);
                let vpart = slice_chars(line, p + 1, len);
                let k = trim_vec(&kpart, CharClass::Space);
                let v = trim_vec(&vpart, CharClass::Space);
                proof {
                    assert(kpart@ =~= line@.take(p as int));
                    assert(vpart@ =~= line@.skip(p + 1));
                }
                let vs = string_from_chars(&v);
                proof {
                    lemma_string_values_insert(m.map_view(), k@, vs);
                }
                m.insert(string_from_chars(&k), vs);
            },
            None => {},
        }
    }
    proof {
        assert(lv.take(n as int) =~= lv);
    }
    m
}

// ── Persistence law ──────────────────────────────────────────────────────────

/// An entry that survives being written to and read back from the secrets
/// file: the key has no `=`, neither side has a line break, and neither has
/// white space at its ends.
pub open spec fn storable(key: Seq<char>, value: Seq<char>) -> bool {
    &&& forall|i: int| 0 <= i < key.len() ==> #[trigger] key[i] != '=' && key[i] != '\n'
    &&& forall|i: int| 0 <= i < value.len() ==> #[trigger] value[i] != '\n'
    &&& trim_class(key, CharClass::Space) == key
    &&& trim_class(value, CharClass::Space) == value
}

proof fn lemma_first_newline_concat(a: Seq<char>, b: Seq<char>)
    requires
        first_newline(a) < a.len(),
    ensures
        first_newline(a + b) == first_newline(a),
    decreases a.len(),
{
    if a[0] != '\n' {
        assert((a + b).drop_first() =~= a.drop_first() + b);
        lemma_first_newline_concat(a.drop_first(), b);
    }
}

proof fn lemma_first_newline_bounds(a: Seq<char>)
    ensures
        first_newline(a) <= a.len(),
        first_newline(a) < a.len() ==> a[first_newline(a) as int] == '\n',
        forall|j: int| 0 <= j < first_newline(a) ==> a[j] != '\n',
    decreases a.len(),
{
    if a.len() > 0 && a[0] != '\n' {
        lemma_first_newline_bounds(a.drop_first());
        assert forall|j: int| 0 <= j < first_newline(a) implies a[j] != '\n' by {
            if j > 0 {
                assert(a[j] == a.drop_first()[j - 1]);
            }
        }
    }
}

proof fn lemma_lines_concat(a: Seq<char>, b: Seq<char>)
    requires
        a.len() == 0 || a.last() == '\n',
    ensures
        lines(a + b) == lines(a) + lines(b),
    decreases a.len(),
{
    if a.len() == 0 {
        assert(a + b =~= b);
        assert(lines(a) =~= Seq::<Seq<char>>::empty());
        assert(lines(a) + lines(b) =~= lines(b));
    } else {
        lemma_first_newline_bounds(a);
        let k = first_newline(a);
        if k == a.len() {
            assert(a[a.len() - 1] == '\n');
            assert(false);
        }
        lemma_first_newline_concat(a, b);
        assert((a + b).take(k as int) =~= a.take(k as int));
        assert((a + b).skip(k as int + 1) =~= a.skip(k as int + 1) + b);
        let rest = a.skip(k as int + 1);
        assert(rest.len() == 0 || rest.last() == '\n');
        lemma_lines_concat(rest, b);
        assert(lines(a + b) =~= lines(a) + lines(b));
    }
}

proof fn lemma_lines_of_one_line(l: Seq<char>)
    requires
        forall|i: int| 0 <= i < l.len() ==> l[i] != '\n',
    ensures
        lines(l + "\n"@) == seq![strip_cr(l)],
{
    reveal_strlit("\n");
    let s = l + "\n"@;
    assert forall|j: int| 0 <= j < l.len() implies s[j] != '\n' by {
        assert(s[j] == l[j]);
    }
    crate::text::lemma_first_newline(s, l.len() as int);
    assert(s.take(l.len() as int) =~= l);
    assert(s.skip(l.len() as int + 1) =~= Seq::<char>::empty());
    assert(lines(s.skip(l.len() as int + 1)) =~= Seq::<Seq<char>>::empty());
    assert(seq![strip_cr(l)] + Seq::<Seq<char>>::empty() =~= seq![strip_cr(l)]);
}

proof fn lemma_find_after_plain(s: Seq<char>, k: int, i: int)
    requires
        0 <= i <= k < s.len(),
        s[k] == '=',
        forall|j: int| 0 <= j < k ==> s[j] != '=',
    ensures
        find_from(s, "="@, i) == Some(k),
    decreases k - i,
{
    reveal_strlit("=");
    if i < k {
        assert(!has_prefix(s.skip(i), "="@)) by {
            if has_prefix(s.skip(i), "="@) {
                assert(s.skip(i).take(1)[0] == s[i]);
                assert("="@[0] == '=');
            }
        }
        lemma_find_after_plain(s, k, i + 1);
    } else {
        assert(s.skip(i).take(1) =~= "="@);
    }
}

proof fn lemma_kv_of_stored_line(k: Seq<char>, v: Seq<char>)
    requires
        storable(k, v),
    ensures
        kv_of_line(k + "="@ + v) == Some((k, v)),
{
    reveal_strlit("=");
    let l = k + "="@ + v;
    assert(l[k.len() as int] == '=');
    assert forall|j: int| 0 <= j < k.len() implies l[j] != '=' by {
        assert(l[j] == k[j]);
    }
    lemma_find_after_plain(l, k.len() as int, 0);
    assert(l.take(k.len() as int) =~= k);
    assert(l.skip(k.len() as int + 1) =~= v);
}

/// Writing a store to its file and reading the file back gives the same
/// keys and values, for entries that [`storable`] allows.
pub proof fn law_secrets_round_trip(es: Seq<(String, String)>)
    requires
        forall|i: int| 0 <= i < es.len() ==> storable((#[trigger] es[i]).0@, es[i].1@),
    ensures
        kv_lines(lines(kv_text(es))) == string_values(entries_map(es)),
    decreases es.len(),
{
    if es.len() == 0 {
        assert(lines(kv_text(es)) =~= Seq::<Seq<char>>::empty());
        assert(string_values(entries_map(es)) =~= Map::<Seq<char>, Seq<char>>::empty());
    } else {
        let prefix = es.drop_last();
        assert forall|i: int| 0 <= i < prefix.len() implies storable((#[trigger] prefix[i]).0@, prefix[i].1@) by {
            assert(prefix[i] == es[i]);
        }
        law_secrets_round_trip(prefix);
        let e = es.last();
        assert(storable(e.0@, e.1@)) by {
            assert(e == es[es.len() - 1]);
        }
        reveal_strlit("=");
        reveal_strlit("\n");
        let line = e.0@ + "="@ + e.1@;
        let before = kv_text(prefix);
        assert(kv_text(es) =~= before + (line + "\n"@));
        lemma_kv_text_ends(prefix);
        lemma_lines_concat(before, line + "\n"@);
        assert forall|i: int| 0 <= i < line.len() implies line[i] != '\n' by {
            if i < e.0@.len() {
                assert(line[i] == e.0@[i]);
            } else if i > e.0@.len() {
                assert(line[i] == e.1@[i - e.0@.len() - 1]);
            }
        }
        lemma_lines_of_one_line(line);
        lemma_trimmed_no_trailing_cr(e.0@, e.1@);
        assert(strip_cr(line) == line);
        let ls = lines(kv_text(es));
        assert(ls =~= lines(before).push(line));
        assert(ls.drop_last() =~= lines(before));
        lemma_kv_of_stored_line(e.0@, e.1@);
        lemma_string_values_insert(entries_map(prefix), e.0@, e.1);
    }
}

proof fn lemma_kv_text_ends(es: Seq<(String, String)>)
    ensures
        kv_text(es).len() == 0 || kv_text(es).last() == '\n',
{
    reveal_strlit("\n");
}

proof fn lemma_trimmed_no_trailing_cr(k: Seq<char>, v: Seq<char>)
    requires
        storable(k, v),
    ensures
        strip_cr(k + "="@ + v) == k + "="@ + v,
{
    reveal_strlit("=");
    let l = k + "="@ + v;
    if v.len() > 0 {
        assert(l.last() == v.last());
        lemma_trimmed_last_not_space(v);
        assert(crate::text::in_class(CharClass::Space, '\r'));
    } else {
        assert(l.last() == '=');
    }
}

proof fn lemma_trimmed_last_not_space(v: Seq<char>)
    requires
        v.len() > 0,
        trim_class(v, CharClass::Space) == v,
    ensures
        !crate::text::in_class(CharClass::Space, v.last()),
{
    let w = crate::text::trim_start_class(v, CharClass::Space);
    lemma_trim_start_len(v);
    if w.len() > 0 && crate::text::in_class(CharClass::Space, w.last()) {
        lemma_trim_end_len(w.drop_last());
    }
}

proof fn lemma_trim_start_len(s: Seq<char>)
    ensures
        crate::text::trim_start_class(s, CharClass::Space).len() <= s.len(),
    decreases s.len(),
{
    if s.len() > 0 && crate::text::in_class(CharClass::Space, s[0]) {
        lemma_trim_start_len(s.drop_first());
    }
}

proof fn lemma_trim_end_len(s: Seq<char>)
    ensures
        crate::text::trim_end_class(s, CharClass::Space).len() <= s.len(),
    decreases s.len(),
{
    if s.len() > 0 && crate::text::in_class(CharClass::Space, s.last()) {
        lemma_trim_end_len(s.drop_last());
    }
}

/// What [`Secrets::flush_text`] writes, [`Secrets::from_text`] reads back:
/// the store read from its own text holds the same keys and values, when
/// every entry is [`storable`].
pub proof fn law_secrets_file_round_trip(s: &Secrets)
    requires
        forall|i: int| 0 <= i < s.entry_seq().len() ==> storable((#[trigger] s.entry_seq()[i]).0@, s.entry_seq()[i].1@),
    ensures
        kv_lines(lines(kv_text(s.entry_seq()))) == s@,
{
    law_secrets_round_trip(s.map.entry_seq());
}

} // verus!
