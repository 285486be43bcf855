use moeb::mcp::{
    authorize_request_ok, bearer_token, grant_type_supported, redirect_location, route_request, silent_request,
    McpRoute, McpSession, SessionEntry, SessionStore,
};
use moeb::str_map::StrMap;

#[test]
fn new_session_created_when_id_absent() {
    let mut store = SessionStore::new();
    let (id, is_new) = store.get_or_create(None, "/tmp/work");
    assert!(is_new, "expected new session");
    assert!(!id.is_empty());
}

#[test]
fn existing_session_reused_when_id_present() {
    let mut store = SessionStore::new();
    let (id1, is_new1) = store.get_or_create(None, "/tmp/work");
    assert!(is_new1);
    let (id2, is_new2) = store.get_or_create(Some(&id1), "/tmp/work");
    assert!(!is_new2, "expected existing session");
    assert_eq!(id1, id2);
}

#[test]
fn unknown_session_id_gets_a_fresh_session() {
    let mut store = SessionStore::new();
    let (id, is_new) = store.get_or_create(Some("not-there"), "/w");
    assert!(is_new);
    assert_ne!(id, "not-there");
    assert_eq!(id.len(), 36);
}

#[test]
fn with_session_runs_on_known_sessions_only() {
    let mut store = SessionStore::new();
    let (id, _) = store.get_or_create(None, "/w");
    let turn = store.with_session(&id, |e: &mut SessionEntry| e.session.increment_turn());
    assert_eq!(turn, Some(1));
    let turn = store.with_session(&id, |e: &mut SessionEntry| e.session.increment_turn());
    assert_eq!(turn, Some(2));
    assert_eq!(store.with_session("missing", |e: &mut SessionEntry| e.session.turn_count), None);
    assert!(store.contains(&id));
}

#[test]
fn session_counts_turns_and_tracks_phase_tools() {
    let mut s = McpSession::new("/w".to_string());
    assert_eq!(s.turn_count, 0);
    assert_eq!(s.increment_turn(), 1);
    assert_eq!(s.current_phase(), None);
    s.set_current_phase(Some("plan".to_string()));
    assert_eq!(s.current_phase().as_deref(), Some("plan"));
    let mut map = StrMap::new();
    map.insert("plan".to_string(), vec!["read_file".to_string(), "create_task_list".to_string()]);
    s.set_phase_tool_map(map);
    assert_eq!(
        s.allowed_tools_for_phase("plan"),
        Some(vec!["read_file".to_string(), "create_task_list".to_string()])
    );
    assert_eq!(s.allowed_tools_for_phase("build"), None);
}

#[test]
fn requests_are_routed_by_method() {
    assert_eq!(route_request("initialize", true), McpRoute::Initialize);
    assert_eq!(route_request("tools/list", true), McpRoute::ListTools);
    assert_eq!(route_request("tools/call", true), McpRoute::CallTool);
    assert_eq!(route_request("resources/list", true), McpRoute::MethodNotFound);
    assert_eq!(route_request("initialize", false), McpRoute::Notification);
    assert!(silent_request("notifications/initialized", true));
    assert!(silent_request("tools/list", false));
    assert!(!silent_request("tools/list", true));
}

#[test]
fn http_endpoint_rules() {
    assert!(authorize_request_ok(&Some("code".to_string()), &Some("S256".to_string())));
    assert!(!authorize_request_ok(&Some("token".to_string()), &Some("S256".to_string())));
    assert!(!authorize_request_ok(&Some("code".to_string()), &None));
    assert_eq!(bearer_token(Some("Bearer abc")), Some("abc".to_string()));
    assert_eq!(bearer_token(Some("Basic abc")), None);
    assert_eq!(bearer_token(None), None);
    assert_eq!(redirect_location("http://x/cb", "C", "S"), "http://x/cb?code=C&state=S");
    assert!(grant_type_supported(&Some("authorization_code".to_string())));
    assert!(!grant_type_supported(&None));
}
