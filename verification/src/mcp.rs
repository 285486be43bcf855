//! The MCP server's bookkeeping: one session per client (turn counter,
//! working directory, current phase and the tools each phase allows), the
//! store of sessions of the HTTP transport, the routing of JSON-RPC requests,
//! and the small rules of the HTTP endpoints.

use vstd::prelude::*;

use crate::str_map::StrMap;
use crate::system::{is_uuid_text, new_uuid};
use crate::text::{str_eq, strip_prefix, chars_of, strip_prefix_vec, string_from_chars};

verus! {

/// How `moeb serve` talks to its client.
#[derive(Debug, Clone, Copy, PartialEq, Eq, Structural)]
pub enum Transport {
    Stdio,
    Http,
}

// ── Sessions ──────────────────────────────────────────────────────────────────

/// One client's session.
pub struct McpSession {
    /// Directory the session's tools work in.
    pub working_dir: String,
    /// Tool calls made so far.
    pub turn_count: u32,
    /// The phase the session is in.
    pub current_phase: Option<String>,
    /// The tools each phase allows, by phase id.
    pub phase_tools: StrMap<Vec<String>>,
}

/// The views of a list of strings.
pub open spec fn strings_view(v: Seq<String>) -> Seq<Seq<char>> {
    v.map_values(|s: String| s@)
}

fn clone_strings(v: &Vec<String>) -> (r: Vec<String>)
    ensures
        r@ == v@,
{
    let mut r: Vec<String> = Vec::new();
    let n = v.len();
    for i in 0..n
        invariant
            n == v@.len(),
            r@ == v@.take(i as int),
    {
        r.push(v[i].clone());
        proof {
            assert(v@.take(i + 1) =~= v@.take(i as int).push(v@[i as int]));
        }
    }
    proof {
        assert(v@.take(n as int) =~= v@);
    }
    r
}

impl McpSession {
    /// A fresh session working in `working_dir`: no turn taken, no phase.
    pub fn new(working_dir: String) -> (r: Self)
        ensures
            r.working_dir == working_dir,
            r.turn_count == 0,
            r.phase() is None,
            r.phase_map() == Map::<Seq<char>, Vec<String>>::empty(),
    {
        McpSession { working_dir, turn_count: 0, current_phase: None, phase_tools: StrMap::new() }
    }

    /// The phase the session is in.
    pub open spec fn phase(&self) -> Option<String> {
        self.current_phase
    }

    /// The tools each phase allows.
    pub open spec fn phase_map(&self) -> Map<Seq<char>, Vec<String>> {
        self.phase_tools.map_view()
    }

    /// Counts one more turn and gives the new count.
    pub fn increment_turn(&mut self) -> (r: u32)
        requires
            old(self).turn_count < u32::MAX,
        ensures
            r == old(self).turn_count + 1,
            final(self).turn_count == r,
            final(self).working_dir == old(self).working_dir,
            final(self).phase() == old(self).phase(),
            final(self).phase_map() == old(self).phase_map(),
    {
        self.turn_count = self.turn_count + 1;
        self.turn_count
    }

    /// The phase the session is in.
    pub fn current_phase(&self) -> (r: Option<String>)
        ensures
            r == self.phase(),
    {
        match &self.current_phase {
            Some(p) => Some(p.clone()),
            None => None,
        }
    }

    /// Moves the session to `phase`.
    pub fn set_current_phase(&mut self, phase: Option<String>)
        ensures
            final(self).phase() == phase,
            final(self).turn_count == old(self).turn_count,
            final(self).working_dir == old(self).working_dir,
            final(self).phase_map() == old(self).phase_map(),
    {
        self.current_phase = phase;
    }

    /// Replaces the tools each phase allows.
    pub fn set_phase_tool_map(&mut self, map: StrMap<Vec<String>>)
        ensures
            final(self).phase_map() == map.map_view(),
            final(self).phase() == old(self).phase(),
            final(self).turn_count == old(self).turn_count,
            final(self).working_dir == old(self).working_dir,
    {
        self.phase_tools = map;
    }

    /// The tools the phase `phase_id` allows, if the map names it.
    pub fn allowed_tools_for_phase(&self, phase_id: &str) -> (r: Option<Vec<String>>)
        ensures
            match r {
                Some(v) => self.phase_map().contains_key(phase_id@) && v@ == self.phase_map()[phase_id@]@,
                None => !self.phase_map().contains_key(phase_id@),
            },
    {
        match self.phase_tools.get(phase_id) {
            Some(v) => Some(clone_strings(v)),
            None => None,
        }
    }
}

/// A session of the HTTP transport.
pub struct SessionEntry {
    pub session: McpSession,
}

/// The sessions of the HTTP transport, by session id.
pub struct SessionStore {
    sessions: StrMap<SessionEntry>,
}

impl SessionStore {
    /// A store with no session.
    pub fn new() -> (r: Self)
        ensures
            r.ids() == Set::<Seq<char>>::empty(),
    {
        let r = SessionStore { sessions: StrMap::new() };
        proof {
            assert(r.ids() =~= Set::<Seq<char>>::empty());
        }
        r
    }

    /// The ids of the sessions held.
    pub closed spec fn ids(&self) -> Set<Seq<char>> {
        self.sessions.map_view().dom()
    }

    /// The session held under `id`.
    pub closed spec fn entry(&self, id: Seq<char>) -> SessionEntry {
        self.sessions.map_view()[id]
    }

    /// Whether a session is held under `id`.
    pub fn contains(&self, id: &str) -> (r: bool)
        ensures
            r == self.ids().contains(id@),
    {
        self.sessions.contains_key(id)
    }

    /// Stores `entry` under `id`, replacing any session held there.
    pub fn insert_with_id(&mut self, id: String, entry: SessionEntry)
        ensures
            final(self).ids() == old(self).ids().insert(id@),
            final(self).entry(id@) == entry,
            forall|k: Seq<char>| k != id@ && old(self).ids().contains(k) ==> #[trigger] final(self).entry(k) == old(
                self,
            ).entry(k),
    {
        let ghost k = id@;
        self.sessions.insert(id, entry);
        proof {
            assert(self.sessions.map_view().dom() =~= old(self).sessions.map_view().dom().insert(k));
        }
    }

    /// The session `session_id` when it is held, else a new session working
    /// in `working_dir` under a fresh random id; says whether it is new.
    pub fn get_or_create(&mut self, session_id: Option<&str>, working_dir: &str) -> (r: (String, bool))
        ensures
            match session_id {
                Some(id) if old(self).ids().contains(id@) => r.0@ == id@ && !r.1 && final(self).ids() == old(self).ids()
                    && forall|k: Seq<char>| #[trigger] final(self).entry(k) == old(self).entry(k),
                _ => {
                    &&& r.1
                    &&& is_uuid_text(r.0@)
                    &&& final(self).ids() == old(self).ids().insert(r.0@)
                    &&& final(self).entry(r.0@).session.turn_count == 0
                    &&& final(self).entry(r.0@).session.working_dir@ == working_dir@
                    &&& final(self).entry(r.0@).session.phase() is None
                    &&& forall|k: Seq<char>| k != r.0@ && old(self).ids().contains(k) ==> #[trigger] final(self).entry(
                        k,
                    ) == old(self).entry(k)
                },
            },
    {
        match session_id {
            Some(id) => {
                if self.sessions.contains_key(id) {
                    return (String::from_str(id), false);
                }
            },
            None => {},
        }
        let new_id = new_uuid();
        let session = McpSession::new(String::from_str(working_dir));
        let key = new_id.clone();
        self.insert_with_id(key, SessionEntry { session });
        (new_id, true)
    }

    /// Runs `f` on the session `id`, if it is held, and gives its result;
    /// the set of sessions held does not change. The result is what `f`
    /// returned when given the held entry, and the entry held afterwards is
    /// the one `f` left behind.
    pub fn with_session<F, R>(&mut self, id: &str, f: F) -> (r: Option<R>)
        where
            F: FnOnce(&mut SessionEntry) -> R,
        requires
            forall|e: &mut SessionEntry| #[trigger] f.requires((e,)),
        ensures
            r is Some <==> old(self).ids().contains(id@),
            final(self).ids() == old(self).ids(),
            forall|k: Seq<char>| k != id@ && old(self).ids().contains(k) ==> #[trigger] final(self).entry(k) == old(
                self,
            ).entry(k),
            r is Some ==> exists|m: &mut SessionEntry|
                *m == old(self).entry(id@) && *final(m) == final(self).entry(id@) && #[trigger] f.ensures(
                    (m,),
                    r->Some_0,
                ),
    {
        if !self.sessions.contains_key(id) {
            return None;
        }
        let mut entry = self.sessions.take(id);
        let ghost before = entry;
        let r = f(&mut entry);
        proof {
            assert(exists|m: &mut SessionEntry| f.ensures((m,), r) && *m == before && *final(m) == entry);
        }
        let ghost after = entry;
        self.sessions.insert(String::from_str(id), entry);
        proof {
            assert(self.sessions.map_view().dom() =~= old(self).sessions.map_view().dom());
            assert(self.entry(id@) == after);
        }
        let out = Some(r);
        assert(out->Some_0 == r);
        out
    }
}

/// The stdio MCP server: one session.
pub struct McpServer {
    pub session: McpSession,
}

impl McpServer {
    /// A server for `session`.
    pub fn new(session: McpSession) -> (r: Self)
        ensures
            r.session == session,
    {
        McpServer { session }
    }
}

// ── Requests ──────────────────────────────────────────────────────────────────

/// Where a JSON-RPC request goes.
#[derive(Debug, Clone, Copy, PartialEq, Eq, Structural)]
pub enum McpRoute {
    /// A request without id: answered with a content reply saying so.
    Notification,
    Initialize,
    ListTools,
    CallTool,
    /// Any other method: error -32601, "Method not found".
    MethodNotFound,
}

/// Where the request `method`, with or without an id, goes.
pub open spec fn route_of(method: Seq<char>, has_id: bool) -> McpRoute {
    if !has_id {
        McpRoute::Notification
    } else if method == "initialize"@ {
        McpRoute::Initialize
    } else if method == "tools/list"@ {
        McpRoute::ListTools
    } else if method == "tools/call"@ {
        McpRoute::CallTool
    } else {
        McpRoute::MethodNotFound
    }
}

/// Where the request `method`, with or without an id, goes.
pub fn route_request(method: &str, has_id: bool) -> (r: McpRoute)
    ensures
        r == route_of(method@, has_id),
{
    if !has_id {
        McpRoute::Notification
    } else if str_eq(method, "initialize") {
        McpRoute::Initialize
    } else if str_eq(method, "tools/list") {
        McpRoute::ListTools
    } else if str_eq(method, "tools/call") {
        McpRoute::CallTool
    } else {
        McpRoute::MethodNotFound
    }
}

/// A request that gets no answer: the `initialized` notification, or any
/// request without an id.
pub open spec fn is_silent(method: Seq<char>, has_id: bool) -> bool {
    method == "notifications/initialized"@ || !has_id
}

/// Whether the request gets no answer.
pub fn silent_request(method: &str, has_id: bool) -> (r: bool)
    ensures
        r == is_silent(method@, has_id),
{
    str_eq(method, "notifications/initialized") || !has_id
}

// ── HTTP endpoints ────────────────────────────────────────────────────────────

/// An authorisation page request asks for a code with the `S256` method.
pub open spec fn authorize_params_ok(response_type: Option<Seq<char>>, method: Option<Seq<char>>) -> bool {
    response_type == Some("code"@) && method == Some("S256"@)
}

/// Whether an authorisation page request asks for a code with `S256`.
pub fn authorize_request_ok(response_type: &Option<String>, method: &Option<String>) -> (r: bool)
    ensures
        r == authorize_params_ok(
            match response_type {
                Some(s) => Some(s@),
                None => None,
            },
            match method {
                Some(s) => Some(s@),
                None => None,
            },
        ),
{
    let rt = match response_type {
        Some(s) => str_eq(s.as_str(), "code"),
        None => false,
    };
    let m = match method {
        Some(s) => str_eq(s.as_str(), "S256"),
        None => false,
    };
    rt && m
}

/// The token of an `Authorization: Bearer TOKEN` header.
pub open spec fn bearer_of(header: Option<Seq<char>>) -> Option<Seq<char>> {
    match header {
        Some(h) => strip_prefix(h, "Bearer "@),
        None => None,
    }
}

/// The token of an `Authorization` header value, if it is a bearer token.
pub fn bearer_token(header: Option<&str>) -> (r: Option<String>)
    ensures
        match r {
            Some(t) => bearer_of(
                match header {
                    Some(h) => Some(h@),
                    None => None,
                },
            ) == Some(t@),
            None => bearer_of(
                match header {
                    Some(h) => Some(h@),
                    None => None,
                },
            ) is None,
        },
{
    match header {
        Some(h) => {
            let v = chars_of(h);
            let p = chars_of("Bearer ");
            match strip_prefix_vec(&v, &p) {
                Some(rest) => Some(string_from_chars(&rest)),
                None => None,
            }
        },
        None => None,
    }
}

/// Where the browser goes once the user approves: the client's redirect URI
/// with the code and state as query parameters.
pub open spec fn redirect_location_of(redirect_uri: Seq<char>, code: Seq<char>, state: Seq<char>) -> Seq<char> {
    redirect_uri + "?code="@ + code + "&state="@ + state
}

/// Where the browser goes once the user approves.
pub fn redirect_location(redirect_uri: &str, code: &str, state: &str) -> (r: String)
    ensures
        r@ == redirect_location_of(redirect_uri@, code@, state@),
{
    let mut s = String::from_str(redirect_uri);
    s.append("?code=");
    s.append(code);
    s.append("&state=");
    s.append(state);
    s
}

/// The token endpoint only serves the authorisation-code grant.
pub fn grant_type_supported(grant_type: &Option<String>) -> (r: bool)
    ensures
        r == (grant_type matches Some(g) && g@ == "authorization_code"@),
{
    match grant_type {
        Some(g) => str_eq(g.as_str(), "authorization_code"),
        None => false,
    }
}

} // verus!
