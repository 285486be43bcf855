//! The OAuth 2.1 authorisation-code flow with PKCE that guards the MCP HTTP
//! transport: a client starts an authorisation, the user approves it, the
//! client trades the code and its PKCE verifier for a bearer token, and the
//! token is then checked on every request.
//!
//! Codes live for sixty seconds and tokens for a day. Times are milliseconds
//! on the store's own monotonic clock, counted from the store's creation.

use vstd::prelude::*;

use base64::Engine;
use sha2::Digest;

use crate::str_map::{key_set, keys_distinct, StrMap};
use crate::system::{instant_now, millis_since, new_uuid};
use crate::text::str_eq;

verus! {

/// How long an authorisation code stays valid.
pub const CODE_LIFETIME_MS: u64 = 60_000;

/// How long a bearer token stays valid.
pub const TOKEN_LIFETIME_MS: u64 = 86_400_000;

/// An authorisation that waits for the user's approval.
pub struct PendingAuth {
    pub client_id: String,
    pub redirect_uri: String,
    pub code_challenge: String,
    pub state: String,
}

/// An authorisation code handed to a client.
pub struct IssuedCode {
    pub code_challenge: String,
    pub client_id: String,
    pub redirect_uri: String,
    /// When the code was issued.
    pub issued_at: u64,
}

/// A bearer token handed to a client.
pub struct TokenInfo {
    pub session_id: String,
    /// When the token stops being valid.
    pub expires_at: u64,
}

/// The parameters of an authorisation request.
pub struct AuthRequest {
    pub response_type: Option<String>,
    pub client_id: String,
    pub redirect_uri: String,
    pub code_challenge: String,
    pub code_challenge_method: Option<String>,
    pub state: Option<String>,
}

/// Why a step of the flow was refused.
#[derive(Debug, Clone, Copy, PartialEq, Eq, Structural)]
pub enum OAuthError {
    /// The challenge method is not `S256`.
    ChallengeMethod,
    /// No pending authorisation has this state.
    UnknownState,
    /// The code was never issued, was used already, or has expired.
    UnknownCode,
    /// The code was issued to another client.
    ClientMismatch,
    /// The verifier does not match the code's challenge.
    PkceFailed,
}

impl OAuthError {
    /// The refusal as a sentence.
    pub fn message(&self) -> (r: &'static str)
        ensures
            r@ == oauth_error_text(*self),
    {
        match self {
            OAuthError::ChallengeMethod => "code_challenge_method must be S256",
            OAuthError::UnknownState => "unknown state",
            OAuthError::UnknownCode => "invalid_grant: unknown or expired code",
            OAuthError::ClientMismatch => "invalid_grant: client_id mismatch",
            OAuthError::PkceFailed => "invalid_grant: PKCE verification failed",
        }
    }
}

/// The text of a refusal.
pub open spec fn oauth_error_text(e: OAuthError) -> Seq<char> {
    match e {
        OAuthError::ChallengeMethod => "code_challenge_method must be S256"@,
        OAuthError::UnknownState => "unknown state"@,
        OAuthError::UnknownCode => "invalid_grant: unknown or expired code"@,
        OAuthError::ClientMismatch => "invalid_grant: client_id mismatch"@,
        OAuthError::PkceFailed => "invalid_grant: PKCE verification failed"@,
    }
}

// ── Outside computations ──────────────────────────────────────────────────────

/// The SHA-256 digest of `data`.
pub uninterp spec fn sha256_of(data: Seq<u8>) -> Seq<u8>;

/// The character of the URL-safe base64 alphabet for the six-bit value `n`:
/// `A`-`Z`, `a`-`z`, `0`-`9`, then `-` and `_`.
pub open spec fn base64_url_char(n: int) -> char {
    if n < 26 {
        (65 + n) as char
    } else if n < 52 {
        (97 + n - 26) as char
    } else if n < 62 {
        (48 + n - 52) as char
    } else if n == 62 {
        '-'
    } else {
        '_'
    }
}

/// The URL-safe base64 text of `data`, without padding: each group of three
/// bytes gives four characters of six bits each, most significant first; a
/// final group of one byte gives two characters and one of two bytes gives
/// three, their missing low bits being zero.
pub open spec fn base64_url_no_pad(data: Seq<u8>) -> Seq<char>
    decreases data.len(),
{
    if data.len() == 0 {
        seq![]
    } else {
        let a = data[0] as int;
        let b = if data.len() > 1 { data[1] as int } else { 0 };
        let c = if data.len() > 2 { data[2] as int } else { 0 };
        let first = base64_url_char(a / 4);
        let second = base64_url_char((a % 4) * 16 + b / 16);
        let third = base64_url_char((b % 16) * 4 + c / 64);
        let fourth = base64_url_char(c % 64);
        if data.len() == 1 {
            seq![first, second]
        } else if data.len() == 2 {
            seq![first, second, third]
        } else {
            seq![first, second, third, fourth] + base64_url_no_pad(data.skip(3))
        }
    }
}

/// `sha2::Sha256::digest`: the 32-byte SHA-256 digest of `data`, a function
/// of `data` alone.
#[verifier::external_body]
fn sha256(data: &[u8]) -> (r: Vec<u8>)
    ensures
        r@ == sha256_of(data@),
        r@.len() == 32,
{
    sha2::Sha256::digest(data).to_vec()
}

/// `base64::engine::general_purpose::URL_SAFE_NO_PAD.encode`: the URL-safe
/// base64 text of `data` without `=` padding, as [`base64_url_no_pad`]
/// states it.
#[verifier::external_body]
fn encode_base64_url(data: &[u8]) -> (r: String)
    ensures
        r@ == base64_url_no_pad(data@),
{
    base64::engine::general_purpose::URL_SAFE_NO_PAD.encode(data)
}

/// The PKCE challenge that matches `verifier`: the unpadded URL-safe base64
/// text of the SHA-256 digest of its UTF-8 bytes.
pub open spec fn pkce_challenge(verifier: Seq<char>) -> Seq<char> {
    base64_url_no_pad(sha256_of(vstd::utf8::encode_utf8(verifier)))
}

/// The PKCE challenge that matches `verifier`.
pub fn challenge_for(verifier: &str) -> (r: String)
    ensures
        r@ == pkce_challenge(verifier@),
{
    let digest = sha256(verifier.as_bytes());
    encode_base64_url(digest.as_slice())
}

// ── Expiry ────────────────────────────────────────────────────────────────────

/// Records that stop being valid at some time.
pub trait Expiring {
    /// Still valid at `now`.
    spec fn alive(&self, now: u64) -> bool;

    /// Whether the record is still valid at `now`.
    fn is_alive(&self, now: u64) -> (r: bool)
        ensures
            r == self.alive(now);
}

impl Expiring for IssuedCode {
    open spec fn alive(&self, now: u64) -> bool {
        now < self.issued_at + CODE_LIFETIME_MS
    }

    fn is_alive(&self, now: u64) -> (r: bool) {
        now < self.issued_at || now - self.issued_at < CODE_LIFETIME_MS
    }
}

impl Expiring for TokenInfo {
    open spec fn alive(&self, now: u64) -> bool {
        self.expires_at > now
    }

    fn is_alive(&self, now: u64) -> (r: bool) {
        self.expires_at > now
    }
}

/// The keys of `m` whose records have expired at `now`.
pub open spec fn expired_keys<V: Expiring>(m: Map<Seq<char>, V>, now: u64) -> Set<Seq<char>> {
    Set::new(|k: Seq<char>| m.contains_key(k) && !m[k].alive(now))
}

/// `m` without the records that have expired at `now`.
pub open spec fn live<V: Expiring>(m: Map<Seq<char>, V>, now: u64) -> Map<Seq<char>, V> {
    m.remove_keys(expired_keys(m, now))
}

fn expired_in<V: Expiring>(m: &StrMap<V>, now: u64) -> (r: Vec<String>)
    ensures
        key_set(r@) == expired_keys(m.map_view(), now),
{
    m.check_distinct();
    let n = m.len();
    let mut r: Vec<String> = Vec::new();
    for i in 0..n
        invariant
            n == m.entry_seq().len(),
            keys_distinct(m.entry_seq()),
            forall|k: Seq<char>| #[trigger] key_set(r@).contains(k) <==> exists|j: int|
                0 <= j < i && (#[trigger] m.entry_seq()[j]).0@ == k && !m.entry_seq()[j].1.alive(now),
    {
        let (k, v) = m.entry_at(i);
        let ghost before = r@;
        if !v.is_alive(now) {
            r.push(k.clone());
        }
        proof {
            assert forall|q: Seq<char>| #[trigger] key_set(r@).contains(q) <==> exists|j: int|
                0 <= j < i + 1 && (#[trigger] m.entry_seq()[j]).0@ == q && !m.entry_seq()[j].1.alive(now) by {
                if key_set(r@).contains(q) {
                    let a = choose|a: int| 0 <= a < r@.len() && (#[trigger] r@[a])@ == q;
                    if a < before.len() {
                        assert(r@[a] == before[a]);
                        assert(key_set(before).contains(q));
                    } else {
                        assert(m.entry_seq()[i as int].0@ == q);
                    }
                }
                if exists|j: int| 0 <= j < i + 1 && (#[trigger] m.entry_seq()[j]).0@ == q && !m.entry_seq()[j].1.alive(now) {
                    let j = choose|j: int| 0 <= j < i + 1 && (#[trigger] m.entry_seq()[j]).0@ == q && !m.entry_seq()[j].1.alive(now);
                    if j < i {
                        assert(key_set(before).contains(q));
                        let a = choose|a: int| 0 <= a < before.len() && (#[trigger] before[a])@ == q;
                        assert(r@[a] == before[a]);
                        assert(key_set(r@).contains(q));
                    } else {
                        assert(r@[before.len() as int]@ == q);
                        assert(key_set(r@).contains(q));
                    }
                }
            }
        }
    }
    proof {
        assert forall|q: Seq<char>| #[trigger] key_set(r@).contains(q) <==> expired_keys(m.map_view(), now).contains(q) by {
            m.lemma_lookup(q);
            if key_set(r@).contains(q) {
                let j = choose|j: int| 0 <= j < n && (#[trigger] m.entry_seq()[j]).0@ == q && !m.entry_seq()[j].1.alive(now);
                assert(m.map_view()[q] == m.entry_seq()[j].1);
            }
            if expired_keys(m.map_view(), now).contains(q) {
                let j = choose|j: int| 0 <= j < m.entry_seq().len() && (#[trigger] m.entry_seq()[j]).0@ == q;
                assert(m.map_view()[q] == m.entry_seq()[j].1);
            }
        }
        assert(key_set(r@) =~= expired_keys(m.map_view(), now));
    }
    r
}

fn purge_map<V: Expiring>(m: &mut StrMap<V>, now: u64)
    ensures
        final(m).map_view() == live(old(m).map_view(), now),
{
    let doomed = expired_in(m, now);
    m.remove_all(&doomed);
}

// ── The store ─────────────────────────────────────────────────────────────────

/// Mathematical model of an [`OAuthStore`].
pub struct OAuthModel {
    pub pending: Map<Seq<char>, PendingAuth>,
    pub codes: Map<Seq<char>, IssuedCode>,
    pub tokens: Map<Seq<char>, TokenInfo>,
}

/// Pending authorisations, issued codes and issued tokens.
pub struct OAuthStore {
    pending: StrMap<PendingAuth>,
    codes: StrMap<IssuedCode>,
    tokens: StrMap<TokenInfo>,
    /// The instant the store's clock counts from.
    origin: std::time::Instant,
}

impl View for OAuthStore {
    type V = OAuthModel;

    closed spec fn view(&self) -> OAuthModel {
        OAuthModel {
            pending: self.pending.map_view(),
            codes: self.codes.map_view(),
            tokens: self.tokens.map_view(),
        }
    }
}

/// The store with expired codes and tokens dropped.
pub open spec fn purged(v: OAuthModel, now: u64) -> OAuthModel {
    OAuthModel { codes: live(v.codes, now), tokens: live(v.tokens, now), ..v }
}

/// The request asks for the `S256` challenge method.
pub open spec fn uses_s256(params: AuthRequest) -> bool {
    params.code_challenge_method matches Some(m) && m@ == "S256"@
}

/// The store and result after `begin_auth(params)`, `fresh` being the state
/// used when the request brings none.
pub open spec fn begun(v: OAuthModel, params: AuthRequest, fresh: String) -> (OAuthModel, Result<Seq<char>, OAuthError>) {
    if !uses_s256(params) {
        (v, Err(OAuthError::ChallengeMethod))
    } else {
        let state = match params.state {
            Some(s) => s,
            None => fresh,
        };
        (
            OAuthModel {
                pending: v.pending.insert(
                    state@,
                    PendingAuth {
                        client_id: params.client_id,
                        redirect_uri: params.redirect_uri,
                        code_challenge: params.code_challenge,
                        state: state,
                    },
                ),
                ..v
            },
            Ok(state@),
        )
    }
}

/// The store and result after approving `state` with the code `code` at `now`.
pub open spec fn approved(v: OAuthModel, state: Seq<char>, code: String, now: u64) -> (
    OAuthModel,
    Result<(Seq<char>, Seq<char>), OAuthError>,
) {
    if !v.pending.contains_key(state) {
        (v, Err(OAuthError::UnknownState))
    } else {
        let p = v.pending[state];
        (
            OAuthModel {
                pending: v.pending.remove(state),
                codes: v.codes.insert(
                    code@,
                    IssuedCode {
                        code_challenge: p.code_challenge,
                        client_id: p.client_id,
                        redirect_uri: p.redirect_uri,
                        issued_at: now,
                    },
                ),
                ..v
            },
            Ok((code@, p.redirect_uri@)),
        )
    }
}

/// When a token issued at `now` stops being valid.
pub open spec fn token_expiry(now: u64) -> u64 {
    if now + TOKEN_LIFETIME_MS > u64::MAX {
        u64::MAX
    } else {
        (now + TOKEN_LIFETIME_MS) as u64
    }
}

/// The store and result after trading `code` and `verifier` for a token, for
/// `client_id`, at `now`; `token` and `session` are the fresh token and
/// session ids. Expired codes and tokens are dropped first, and a code that
/// is found is used up whatever follows.
pub open spec fn exchanged(
    v: OAuthModel,
    code: Seq<char>,
    verifier: Seq<char>,
    client_id: Seq<char>,
    token: Seq<char>,
    session: String,
    now: u64,
) -> (OAuthModel, Result<Seq<char>, OAuthError>) {
    let w = purged(v, now);
    if !w.codes.contains_key(code) {
        (w, Err(OAuthError::UnknownCode))
    } else {
        let issued = w.codes[code];
        let used = OAuthModel { codes: w.codes.remove(code), ..w };
        if issued.client_id@ != client_id {
            (used, Err(OAuthError::ClientMismatch))
        } else if pkce_challenge(verifier) != issued.code_challenge@ {
            (used, Err(OAuthError::PkceFailed))
        } else {
            (
                OAuthModel {
                    tokens: used.tokens.insert(token, TokenInfo { session_id: session, expires_at: token_expiry(now) }),
                    ..used
                },
                Ok(token),
            )
        }
    }
}

/// `token` is valid at `now`.
pub open spec fn token_valid(v: OAuthModel, token: Seq<char>, now: u64) -> bool {
    v.tokens.contains_key(token) && v.tokens[token].alive(now)
}

impl OAuthStore {
    /// A store with nothing in it.
    pub fn new() -> (r: Self)
        ensures
            r@.pending == Map::<Seq<char>, PendingAuth>::empty(),
            r@.codes == Map::<Seq<char>, IssuedCode>::empty(),
            r@.tokens == Map::<Seq<char>, TokenInfo>::empty(),
    {
        OAuthStore { pending: StrMap::new(), codes: StrMap::new(), tokens: StrMap::new(), origin: instant_now() }
    }

    /// The store's clock: milliseconds since the store was created, by the
    /// monotonic clock, saturated at `u64::MAX`. Which reading it gives is
    /// left open.
    pub fn now(&self) -> (r: u64) {
        let ms = millis_since(&self.origin);
        if ms > 0xffff_ffff_ffff_ffff {
            0xffff_ffff_ffff_ffff
        } else {
            ms as u64
        }
    }

    /// Starts an authorisation, under the request's state or under `fresh`
    /// when it has none; only the `S256` challenge method is accepted.
    pub fn begin_auth_with(&mut self, params: AuthRequest, fresh: String) -> (r: Result<String, OAuthError>)
        ensures
            (final(self)@, match r {
                Ok(s) => Ok(s@),
                Err(e) => Err(e),
            }) == begun(old(self)@, params, fresh),
    {
        let is_s256 = match &params.code_challenge_method {
            Some(m) => str_eq(m.as_str(), "S256"),
            None => false,
        };
        proof {
            reveal_strlit("S256");
        }
        if !is_s256 {
            return Err(OAuthError::ChallengeMethod);
        }
        let state = match params.state {
            Some(s) => s,
            None => fresh,
        };
        let key = state.clone();
        let result = state.clone();
        self.pending.insert(
            key,
            PendingAuth {
                client_id: params.client_id,
                redirect_uri: params.redirect_uri,
                code_challenge: params.code_challenge,
                state,
            },
        );
        Ok(result)
    }

    /// Starts an authorisation, under a fresh random state when the request
    /// brings none.
    pub fn begin_auth(&mut self, params: AuthRequest) -> (r: Result<String, OAuthError>)
        ensures
            exists|fresh: String|
                (final(self)@, match r {
                    Ok(s) => Ok(s@),
                    Err(e) => Err(e),
                }) == #[trigger] begun(old(self)@, params, fresh),
    {
        let fresh = new_uuid();
        self.begin_auth_with(params, fresh)
    }

    /// Approves the pending authorisation `state`, issuing `code` at `now`;
    /// gives the code and the redirect URI.
    pub fn approve_with(&mut self, state: &str, code: String, now: u64) -> (r: Result<(String, String), OAuthError>)
        ensures
            (final(self)@, match r {
                Ok((c, u)) => Ok((c@, u@)),
                Err(e) => Err(e),
            }) == approved(old(self)@, state@, code, now),
    {
        match self.pending.get(state) {
            None => Err(OAuthError::UnknownState),
            Some(_) => {
                let p = self.take_pending(state);
                let key = code.clone();
                let redirect = p.redirect_uri.clone();
                self.codes.insert(
                    key,
                    IssuedCode {
                        code_challenge: p.code_challenge,
                        client_id: p.client_id,
                        redirect_uri: p.redirect_uri,
                        issued_at: now,
                    },
                );
                Ok((code, redirect))
            },
        }
    }

    /// Approves the pending authorisation `state` with a fresh random code,
    /// issued now.
    pub fn approve(&mut self, state: &str, session_id: &str) -> (r: Result<(String, String), OAuthError>)
        ensures
            exists|code: String, now: u64|
                (final(self)@, match r {
                    Ok((c, u)) => Ok((c@, u@)),
                    Err(e) => Err(e),
                }) == #[trigger] approved(old(self)@, state@, code, now),
    {
        let code = new_uuid();
        let now = self.now();
        self.approve_with(state, code, now)
    }

    fn take_pending(&mut self, state: &str) -> (p: PendingAuth)
        requires
            old(self)@.pending.contains_key(state@),
        ensures
            p == old(self)@.pending[state@],
            final(self)@ == (OAuthModel { pending: old(self)@.pending.remove(state@), ..old(self)@ }),
    {
        self.pending.take(state)
    }

    /// Drops the codes and tokens that have expired at `now`.
    pub fn purge_expired_at(&mut self, now: u64)
        ensures
            final(self)@ == purged(old(self)@, now),
    {
        purge_map(&mut self.codes, now);
        purge_map(&mut self.tokens, now);
    }

    /// Drops the codes and tokens that have expired by now.
    pub fn purge_expired(&mut self)
        ensures
            exists|now: u64| final(self)@ == #[trigger] purged(old(self)@, now),
    {
        let now = self.now();
        self.purge_expired_at(now);
    }

    /// Trades `code` and the PKCE `verifier` for the bearer token `token` at
    /// `now`, for the client `client_id`, opening the session `session`.
    pub fn exchange_code_with(
        &mut self,
        code: &str,
        code_verifier: &str,
        client_id: &str,
        token: String,
        session: String,
        now: u64,
    ) -> (r: Result<String, OAuthError>)
        ensures
            (final(self)@, match r {
                Ok(t) => Ok(t@),
                Err(e) => Err(e),
            }) == exchanged(old(self)@, code@, code_verifier@, client_id@, token@, session, now),
    {
        self.purge_expired_at(now);
        if self.codes.get(code).is_none() {
            return Err(OAuthError::UnknownCode);
        }
        let issued = self.codes.take(code);
        if !str_eq(issued.client_id.as_str(), client_id) {
            return Err(OAuthError::ClientMismatch);
        }
        let computed = challenge_for(code_verifier);
        if !str_eq(computed.as_str(), issued.code_challenge.as_str()) {
            return Err(OAuthError::PkceFailed);
        }
        let expires_at = now.saturating_add(TOKEN_LIFETIME_MS);
        let key = token.clone();
        self.tokens.insert(key, TokenInfo { session_id: session, expires_at });
        Ok(token)
    }

    /// Trades `code` and the PKCE `verifier` for a fresh random bearer
    /// token, opening a fresh session; expired codes and tokens are dropped
    /// first.
    pub fn exchange_code(&mut self, code: &str, code_verifier: &str, client_id: &str) -> (r: Result<String, OAuthError>)
        ensures
            exists|token: Seq<char>, session: String, now: u64|
                (final(self)@, match r {
                    Ok(t) => Ok(t@),
                    Err(e) => Err(e),
                }) == #[trigger] exchanged(old(self)@, code@, code_verifier@, client_id@, token, session, now),
    {
        let now = self.now();
        let token = new_uuid();
        let session = new_uuid();
        self.exchange_code_with(code, code_verifier, client_id, token, session, now)
    }

    /// Whether `token` is valid at `now`, after expired codes and tokens are dropped.
    pub fn validate_token_at(&mut self, token: &str, now: u64) -> (r: bool)
        ensures
            final(self)@ == purged(old(self)@, now),
            r == token_valid(old(self)@, token@, now),
    {
        self.purge_expired_at(now);
        match self.tokens.get(token) {
            Some(t) => t.is_alive(now),
            None => false,
        }
    }

    /// Whether `token` is valid now, after expired codes and tokens are dropped.
    pub fn validate_token(&mut self, token: &str) -> (r: bool)
        ensures
            exists|now: u64|
                final(self)@ == #[trigger] purged(old(self)@, now) && r == token_valid(old(self)@, token@, now),
    {
        let now = self.now();
        self.validate_token_at(token, now)
    }

    /// Records a token as issued.
    pub fn insert_token(&mut self, token: String, info: TokenInfo)
        ensures
            final(self)@ == (OAuthModel { tokens: old(self)@.tokens.insert(token@, info), ..old(self)@ }),
    {
        self.tokens.insert(token, info);
    }
}

// ── Laws ──────────────────────────────────────────────────────────────────────

/// A code trade succeeds exactly when the code was issued, has not expired,
/// belongs to the client, and the verifier hashes to its challenge.
pub proof fn law_exchange_succeeds_iff_pkce_matches(
    v: OAuthModel,
    code: Seq<char>,
    verifier: Seq<char>,
    client_id: Seq<char>,
    token: Seq<char>,
    session: String,
    now: u64,
)
    ensures
        exchanged(v, code, verifier, client_id, token, session, now).1 is Ok <==> {
            &&& v.codes.contains_key(code)
            &&& v.codes[code].alive(now)
            &&& v.codes[code].client_id@ == client_id
            &&& pkce_challenge(verifier) == v.codes[code].code_challenge@
        },
{
    assert(live(v.codes, now).contains_key(code) <==> v.codes.contains_key(code) && v.codes[code].alive(now));
}

/// A code is good for one trade only: whatever the outcome, the store keeps
/// no code under that name afterwards.
pub proof fn law_code_used_once(
    v: OAuthModel,
    code: Seq<char>,
    verifier: Seq<char>,
    client_id: Seq<char>,
    token: Seq<char>,
    session: String,
    now: u64,
)
    ensures
        !exchanged(v, code, verifier, client_id, token, session, now).0.codes.contains_key(code),
{
}

/// A token obtained from a trade at `now` is valid until a day has passed.
pub proof fn law_token_valid_after_exchange(
    v: OAuthModel,
    code: Seq<char>,
    verifier: Seq<char>,
    client_id: Seq<char>,
    token: Seq<char>,
    session: String,
    now: u64,
    later: u64,
)
    requires
        exchanged(v, code, verifier, client_id, token, session, now).1 is Ok,
        now <= later,
        later < now + TOKEN_LIFETIME_MS,
        now + TOKEN_LIFETIME_MS <= u64::MAX,
    ensures
        token_valid(exchanged(v, code, verifier, client_id, token, session, now).0, token, later),
{
}

/// A token that has expired is never accepted, and checking it drops it.
pub proof fn law_expired_token_rejected(v: OAuthModel, token: Seq<char>, now: u64)
    requires
        v.tokens.contains_key(token),
        v.tokens[token].expires_at <= now,
    ensures
        !token_valid(v, token, now),
        !purged(v, now).tokens.contains_key(token),
{
}

} // verus!
