//! The token-issuance subsystem: an independent keyed table mapping each
//! issued credential to its issue time, lifetime and scope, a pure expiry
//! predicate over it, and the two grant flows that fill it. The clock and
//! the randomness that name fresh tokens are read through trusted
//! wrappers; every decision around them is verified.

use vstd::prelude::*;
use vstd::string::StringExecFns;

use crate::text::str_eq;

verus! {

/// Request body for token generation. Supports both `authorization_code`
/// and `refresh_token` grant types.
#[derive(Debug)]
pub struct TokenRequest {
    pub grant_type: String,
    pub code: Option<String>,
    pub refresh_token: Option<String>,
    pub client_id: Option<String>,
    pub client_secret: Option<String>,
    pub redirect_uri: Option<String>,
    /// Custom expiry in seconds from now; may be negative, to mint
    /// already-expired tokens.
    pub expires_in: Option<i64>,
    pub scope: Option<String>,
}

/// Response for successful token generation.
#[derive(Debug)]
pub struct TokenResponse {
    pub access_token: String,
    /// Only present for the `authorization_code` grant.
    pub refresh_token: Option<String>,
    /// Always "Bearer".
    pub token_type: String,
    pub expires_in: i64,
    pub scope: Option<String>,
}

/// Error response for token requests.
#[derive(Debug)]
pub struct ErrorResponse {
    pub error: String,
    pub error_description: Option<String>,
}

/// Mathematical image of a token's metadata.
pub struct TokenMetaView {
    pub issued_at: int,
    pub expires_in: int,
    pub scope: Seq<char>,
}

/// Metadata tracked for each issued token: issue time (unix seconds),
/// lifetime (seconds, possibly negative) and scope.
#[derive(Debug)]
pub struct TokenMetadata {
    pub issued_at: i64,
    pub expires_in: i64,
    pub scope: String,
}

impl View for TokenMetadata {
    type V = TokenMetaView;

    open spec fn view(&self) -> TokenMetaView {
        TokenMetaView {
            issued_at: self.issued_at as int,
            expires_in: self.expires_in as int,
            scope: self.scope@,
        }
    }
}

impl Clone for TokenMetadata {
    fn clone(&self) -> (res: Self)
        ensures
            res == *self,
    {
        TokenMetadata {
            issued_at: self.issued_at,
            expires_in: self.expires_in,
            scope: self.scope.clone(),
        }
    }
}

/// A token is expired at `now` once its issue time plus its lifetime has
/// been reached.
pub open spec fn spec_is_expired(m: TokenMetaView, now: int) -> bool {
    now >= m.issued_at + m.expires_in
}

impl TokenMetadata {
    /// Check if the token is expired at the instant `now`.
    pub fn is_expired(&self, now: i64) -> (r: bool)
        ensures
            r == spec_is_expired(self@, now as int),
    {
        (now as i128) >= (self.issued_at as i128) + (self.expires_in as i128)
    }
}

/// One table row: a credential string and its metadata.
pub struct TokenEntry {
    pub key: String,
    pub meta: TokenMetadata,
}

/// The metadata under key `k`, scanning `es` from index `j` on.
pub open spec fn token_from(es: Seq<TokenEntry>, k: Seq<char>, j: int) -> Option<TokenMetaView>
    decreases es.len() - j,
{
    if j < 0 || j >= es.len() {
        None
    } else if es[j].key@ == k {
        Some(es[j].meta@)
    } else {
        token_from(es, k, j + 1)
    }
}

/// The metadata stored under key `k`, if any.
pub open spec fn token_entry(es: Seq<TokenEntry>, k: Seq<char>) -> Option<TokenMetaView> {
    token_from(es, k, 0)
}

/// Is some entry from index `j` on keyed by `k`?
pub open spec fn has_token_from(es: Seq<TokenEntry>, k: Seq<char>, j: int) -> bool {
    exists|i: int| j <= i < es.len() && (#[trigger] es[i]).key@ == k
}

/// The table of issued credentials; inserting under an existing key
/// replaces its metadata. Its mathematical content is a total map from
/// credential to optional metadata.
pub struct TokenStore {
    entries: Vec<TokenEntry>,
}

impl View for TokenStore {
    type V = Map<Seq<char>, Option<TokenMetaView>>;

    closed spec fn view(&self) -> Map<Seq<char>, Option<TokenMetaView>> {
        Map::new(|k: Seq<char>| true, |k: Seq<char>| token_entry(self.entries@, k))
    }
}

proof fn lemma_token_from_no_match(es: Seq<TokenEntry>, k: Seq<char>, j: int)
    requires
        0 <= j,
        !has_token_from(es, k, j),
    ensures
        token_from(es, k, j) is None,
    decreases es.len() - j,
{
    if j < es.len() {
        assert(es[j].key@ != k);
        lemma_token_from_no_match(es, k, j + 1);
    }
}

proof fn lemma_token_from_first(es: Seq<TokenEntry>, k: Seq<char>, j: int, i: int)
    requires
        0 <= j <= i < es.len(),
        es[i].key@ == k,
        forall|j2: int| j <= j2 < i ==> (#[trigger] es[j2]).key@ != k,
    ensures
        token_from(es, k, j) == Some(es[i].meta@),
    decreases i - j,
{
    if j < i {
        lemma_token_from_first(es, k, j + 1, i);
    }
}

proof fn lemma_token_from_update_other(es: Seq<TokenEntry>, i: int, e2: TokenEntry, k: Seq<char>, j: int)
    requires
        0 <= i < es.len(),
        0 <= j,
        es[i].key@ != k,
        e2.key@ != k,
    ensures
        token_from(es.update(i, e2), k, j) == token_from(es, k, j),
    decreases es.len() - j,
{
    if j < es.len() {
        lemma_token_from_update_other(es, i, e2, k, j + 1);
    }
}

proof fn lemma_token_from_push(es: Seq<TokenEntry>, e: TokenEntry, k: Seq<char>, j: int)
    requires
        0 <= j <= es.len(),
    ensures
        token_from(es.push(e), k, j) == if has_token_from(es, k, j) {
            token_from(es, k, j)
        } else if e.key@ == k {
            Some(e.meta@)
        } else {
            None::<TokenMetaView>
        },
    decreases es.len() - j,
{
    let pushed = es.push(e);
    if j == es.len() {
        assert(pushed[j] == e);
        assert(!has_token_from(es, k, j));
    } else {
        assert(pushed[j] == es[j]);
        lemma_token_from_push(es, e, k, j + 1);
        if es[j].key@ == k {
            assert(has_token_from(es, k, j));
        } else {
            assert(has_token_from(es, k, j) == has_token_from(es, k, j + 1));
        }
    }
}

/// Finds the first entry keyed by `k`.
fn find_token(es: &Vec<TokenEntry>, k: &str) -> (r: Option<usize>)
    ensures
        (match r {
            Some(i) => i < es@.len() && es@[i as int].key@ == k@ && forall|j: int|
                0 <= j < i ==> (#[trigger] es@[j]).key@ != k@,
            None => forall|j: int| 0 <= j < es@.len() ==> (#[trigger] es@[j]).key@ != k@,
        }),
{
    let n = es.len();
    let mut i: usize = 0;
    while i < n
        invariant
            0 <= i <= n,
            n == es@.len(),
            forall|j: int| 0 <= j < i ==> (#[trigger] es@[j]).key@ != k@,
        decreases n - i,
    {
        if str_eq(es[i].key.as_str(), k) {
            return Some(i);
        }
        i = i + 1;
    }
    None
}

impl TokenStore {
    /// Well-formedness: keys are pairwise distinct.
    pub closed spec fn wf(&self) -> bool {
        forall|i: int, j: int|
            0 <= i < j < self.entries@.len() ==> (#[trigger] self.entries@[i]).key@ != (
            #[trigger] self.entries@[j]).key@
    }

    /// An empty table: every credential reads as untracked.
    pub fn new() -> (s: Self)
        ensures
            s.wf(),
            forall|k: Seq<char>| s@[k] is None,
    {
        TokenStore { entries: Vec::new() }
    }

    /// Stores `meta` under `key`, replacing any earlier metadata for it.
    /// Nothing else changes.
    pub fn insert(&mut self, key: String, meta: TokenMetadata)
        requires
            old(self).wf(),
        ensures
            final(self).wf(),
            final(self)@ == old(self)@.insert(key@, Some(meta@)),
    {
        let ghost k = key@;
        let ghost es0 = self.entries@;
        let ghost mv = meta@;
        match find_token(&self.entries, key.as_str()) {
            Some(i) => {
                self.entries.remove(i);
                self.entries.insert(i, TokenEntry { key, meta });
                proof {
                    let es1 = self.entries@;
                    assert(es1 =~= es0.update(i as int, es1[i as int]));
                    assert(es1[i as int].meta@ == mv);
                    lemma_token_from_first(es1, k, 0, i as int);
                    assert forall|k2: Seq<char>| k2 != k implies token_entry(es1, k2)
                        == token_entry(es0, k2) by {
                        lemma_token_from_update_other(es0, i as int, es1[i as int], k2, 0);
                    }
                    assert(final(self)@ =~= old(self)@.insert(k, Some(mv)));
                }
            },
            None => {
                self.entries.push(TokenEntry { key, meta });
                proof {
                    let es1 = self.entries@;
                    assert(es1 =~= es0.push(es1.last()));
                    assert(es1.last().meta@ == mv);
                    assert(es1.last().key@ == k);
                    assert forall|k2: Seq<char>|
                        #![auto]
                        true implies token_entry(es1, k2) == (if k2 == k {
                        Some(mv)
                    } else {
                        token_entry(es0, k2)
                    }) by {
                        lemma_token_from_push(es0, es1.last(), k2, 0);
                        if k2 == k {
                            assert(!has_token_from(es0, k2, 0));
                        } else {
                            if !has_token_from(es0, k2, 0) {
                                lemma_token_from_no_match(es0, k2, 0);
                            }
                        }
                    }
                    assert(final(self)@ =~= old(self)@.insert(k, Some(mv)));
                }
            },
        }
    }

    /// Reads a copy of the metadata under `key`, if any.
    pub fn lookup(&self, key: &str) -> (r: Option<TokenMetadata>)
        requires
            self.wf(),
        ensures
            (match r {
                Some(m) => self@[key@] == Some(m@),
                None => self@[key@] is None,
            }),
    {
        match find_token(&self.entries, key) {
            Some(i) => {
                proof {
                    lemma_token_from_first(self.entries@, key@, 0, i as int);
                }
                Some(self.entries[i].meta.clone())
            },
            None => {
                proof {
                    lemma_token_from_no_match(self.entries@, key@, 0);
                }
                None
            },
        }
    }
}

/// Relies on chrono's `Utc::now`: the current wall-clock instant, as unix
/// seconds. Nothing is promised of the value — the clock is outside the
/// program.
#[verifier::external_body]
pub fn now_unix_seconds() -> (r: i64) {
    chrono::Utc::now().timestamp()
}

/// Relies on uuid's `Uuid::new_v4`: a fresh random identifier in its
/// hyphenated text form. Nothing is promised of the value — it is drawn
/// from the machine's randomness.
#[verifier::external_body]
fn fresh_uuid_string() -> (r: String) {
    uuid::Uuid::new_v4().to_string()
}

/// The validation decision at the instant `now`: a tracked token is
/// rejected exactly when it is expired; an untracked token passes (it may
/// predate tracking).
pub fn validate_token_at(store: &TokenStore, token: &str, now: i64) -> (r: Result<(), String>)
    requires
        store.wf(),
    ensures
        r is Ok <==> (match store@[token@] {
            Some(m) => !spec_is_expired(m, now as int),
            None => true,
        }),
        r matches Err(e) ==> e@ == "Token has expired"@,
{
    match store.lookup(token) {
        Some(meta) => {
            if meta.is_expired(now) {
                Err(String::from_str("Token has expired"))
            } else {
                Ok(())
            }
        },
        None => Ok(()),
    }
}

/// The validation verdict read against a table row at one instant: pass
/// exactly when the row is absent or not yet expired.
pub open spec fn validation_verdict(row: Option<TokenMetaView>, ok: bool, now: int) -> bool {
    ok <==> (row is None || !spec_is_expired(row.unwrap(), now))
}

/// Validate if an access token is expired, at the clock's current
/// reading: the decision is `validate_token_at` at some instant.
pub fn validate_token(store: &TokenStore, token: &str) -> (r: Result<(), String>)
    requires
        store.wf(),
    ensures
        store@[token@] is None ==> r is Ok,
        r matches Err(e) ==> e@ == "Token has expired"@,
        exists|now: int| #[trigger] validation_verdict(store@[token@], r is Ok, now),
{
    let now = now_unix_seconds();
    let r = validate_token_at(store, token, now);
    proof {
        assert(validation_verdict(store@[token@], r is Ok, now as int));
    }
    r
}

/// Retrieve the scope associated with a token.
pub fn get_token_scope(store: &TokenStore, token: &str) -> (r: Option<String>)
    requires
        store.wf(),
    ensures
        (match r {
            Some(s) => store@[token@] matches Some(m) && m.scope == s@,
            None => store@[token@] is None,
        }),
{
    match store.lookup(token) {
        Some(meta) => Some(meta.scope),
        None => None,
    }
}

/// The requested lifetime, defaulting to one hour.
pub open spec fn default_expiry(o: Option<i64>) -> int {
    match o {
        Some(e) => e as int,
        None => 3600,
    }
}

/// The scope granted when nothing names one.
pub open spec fn fallback_scope() -> Seq<char> {
    "mock.scope.read mock.scope.write"@
}

/// The first present scope, or the fallback.
pub open spec fn scope_or(primary: Option<Seq<char>>, fallback: Seq<char>) -> Seq<char> {
    match primary {
        Some(s) => s,
        None => fallback,
    }
}

/// The scope recorded for a stored token, if the token is tracked.
pub open spec fn stored_scope(row: Option<TokenMetaView>) -> Option<Seq<char>> {
    match row {
        Some(m) => Some(m.scope),
        None => None,
    }
}

/// The view of an optional string parameter.
pub open spec fn opt_view(o: Option<String>) -> Option<Seq<char>> {
    match o {
        Some(s) => Some(s@),
        None => None,
    }
}

/// Is a required string parameter absent or empty?
pub open spec fn param_missing(o: Option<String>) -> bool {
    match o {
        Some(s) => s@.len() == 0,
        None => true,
    }
}

/// Picks a scope: the request's, else the given earlier scope, else the
/// environment's, else the fixed fallback.
fn resolve_scope(
    requested: Option<String>,
    earlier: Option<String>,
    env_scope: Option<String>,
) -> (r: String)
    ensures
        r@ == scope_or(
            opt_view(requested),
            scope_or(opt_view(earlier), scope_or(opt_view(env_scope), fallback_scope())),
        ),
{
    match requested {
        Some(s) => s,
        None => match earlier {
            Some(s) => s,
            None => match env_scope {
                Some(s) => s,
                None => String::from_str("mock.scope.read mock.scope.write"),
            },
        },
    }
}

/// Handles the `authorization_code` grant at one instant, with the two
/// freshly drawn identifiers given: checks the code, mints the access and
/// refresh tokens, records both in the table under the same metadata, and
/// answers with the granted scope and lifetime. `token_handler` draws the
/// identifiers and the instant.
pub fn authorization_code_grant(
    store: &mut TokenStore,
    request: TokenRequest,
    env_scope: Option<String>,
    now: i64,
    access_id: String,
    refresh_id: String,
) -> (r: Result<TokenResponse, ErrorResponse>)
    requires
        old(store).wf(),
    ensures
        final(store).wf(),
        (if param_missing(request.code) {
            &&& final(store)@ == old(store)@
            &&& r matches Err(e) && e.error@ == "invalid_request"@ && (e.error_description matches Some(d)
                && d@ == "The 'code' parameter is required for grant_type=authorization_code"@)
        } else {
            (r matches Ok(resp) && {
                let scope = scope_or(
                    opt_view(request.scope),
                    scope_or(opt_view(env_scope), fallback_scope()),
                );
                let meta = TokenMetaView {
                    issued_at: now as int,
                    expires_in: default_expiry(request.expires_in),
                    scope,
                };
                &&& resp.access_token@ == "ya29.mock_"@ + access_id@
                &&& resp.refresh_token matches Some(rt) && rt@ == "1//mock_"@ + refresh_id@
                &&& resp.token_type@ == "Bearer"@
                &&& resp.expires_in == default_expiry(request.expires_in)
                &&& resp.scope matches Some(s) && s@ == scope
                &&& final(store)@ == old(store)@.insert(
                    "ya29.mock_"@ + access_id@,
                    Some(meta),
                ).insert("1//mock_"@ + refresh_id@, Some(meta))
            })
        }),
{
    let missing = match &request.code {
        Some(c) => c.as_str().is_empty(),
        None => true,
    };
    if missing {
        return Err(
            ErrorResponse {
                error: String::from_str("invalid_request"),
                error_description: Some(
                    String::from_str(
                        "The 'code' parameter is required for grant_type=authorization_code",
                    ),
                ),
            },
        );
    }

    let access_token = String::from_str("ya29.mock_").concat(access_id.as_str());
    let refresh_token = String::from_str("1//mock_").concat(refresh_id.as_str());

    let expires_in = match request.expires_in {
        Some(e) => e,
        None => 3600,
    };

    let scope = resolve_scope(request.scope, None, env_scope);

    let meta = TokenMetadata { issued_at: now, expires_in, scope: scope.clone() };
    store.insert(access_token.clone(), meta.clone());
    store.insert(refresh_token.clone(), meta);

    Ok(
        TokenResponse {
            access_token,
            refresh_token: Some(refresh_token),
            token_type: String::from_str("Bearer"),
            expires_in,
            scope: Some(scope),
        },
    )
}

/// Handles the `refresh_token` grant at one instant, with the freshly
/// drawn identifier given: checks the refresh token, carries its recorded
/// scope forward, mints and records a new access token, and answers
/// without a refresh token. `token_handler` draws the identifier and the
/// instant.
pub fn refresh_token_grant(
    store: &mut TokenStore,
    request: TokenRequest,
    env_scope: Option<String>,
    now: i64,
    access_id: String,
) -> (r: Result<TokenResponse, ErrorResponse>)
    requires
        old(store).wf(),
    ensures
        final(store).wf(),
        (if param_missing(request.refresh_token) {
            &&& final(store)@ == old(store)@
            &&& r matches Err(e) && e.error@ == "invalid_request"@ && (e.error_description matches Some(d)
                && d@ == "The 'refresh_token' parameter is required for grant_type=refresh_token"@)
        } else {
            (r matches Ok(resp) && {
                let scope = scope_or(
                    opt_view(request.scope),
                    scope_or(
                        stored_scope(old(store)@[request.refresh_token.unwrap()@]),
                        scope_or(opt_view(env_scope), fallback_scope()),
                    ),
                );
                let meta = TokenMetaView {
                    issued_at: now as int,
                    expires_in: default_expiry(request.expires_in),
                    scope,
                };
                &&& resp.access_token@ == "ya29.mock_"@ + access_id@
                &&& resp.refresh_token is None
                &&& resp.token_type@ == "Bearer"@
                &&& resp.expires_in == default_expiry(request.expires_in)
                &&& resp.scope matches Some(s) && s@ == scope
                &&& final(store)@ == old(store)@.insert("ya29.mock_"@ + access_id@, Some(meta))
            })
        }),
{
    let refresh_token = match &request.refresh_token {
        Some(t) => {
            if t.as_str().is_empty() {
                None
            } else {
                Some(t.clone())
            }
        },
        None => None,
    };
    let refresh_token = match refresh_token {
        Some(t) => t,
        None => {
            return Err(
                ErrorResponse {
                    error: String::from_str("invalid_request"),
                    error_description: Some(
                        String::from_str(
                            "The 'refresh_token' parameter is required for grant_type=refresh_token",
                        ),
                    ),
                },
            );
        },
    };

    let original_scope = get_token_scope(store, refresh_token.as_str());

    let access_token = String::from_str("ya29.mock_").concat(access_id.as_str());

    let expires_in = match request.expires_in {
        Some(e) => e,
        None => 3600,
    };

    let scope = resolve_scope(request.scope, original_scope, env_scope);

    let meta = TokenMetadata { issued_at: now, expires_in, scope: scope.clone() };
    store.insert(access_token.clone(), meta);

    Ok(
        TokenResponse {
            access_token,
            refresh_token: None,
            token_type: String::from_str("Bearer"),
            expires_in,
            scope: Some(scope),
        },
    )
}

/// Handler for token generation and refresh: dispatches on the grant
/// type, draws the clock reading and fresh identifiers, and applies the
/// grant. A request succeeds exactly when it names a supported grant type
/// and carries the parameter that grant requires.
pub fn token_handler(
    store: &mut TokenStore,
    request: TokenRequest,
    env_scope: Option<String>,
) -> (r: Result<TokenResponse, ErrorResponse>)
    requires
        old(store).wf(),
    ensures
        final(store).wf(),
        r is Ok <==> ((request.grant_type@ == "authorization_code"@ && !param_missing(request.code))
            || (request.grant_type@ == "refresh_token"@ && !param_missing(request.refresh_token))),
        r matches Ok(resp) ==> resp.token_type@ == "Bearer"@ && resp.expires_in == default_expiry(
            request.expires_in,
        ) && resp.scope is Some && (resp.refresh_token is Some <==> request.grant_type@
            == "authorization_code"@),
        (request.grant_type@ != "authorization_code"@ && request.grant_type@ != "refresh_token"@)
            ==> ({
            &&& final(store)@ == old(store)@
            &&& r matches Err(e) && e.error@ == "unsupported_grant_type"@
        }),
{
    proof {
        reveal_strlit("authorization_code");
        reveal_strlit("refresh_token");
        assert("authorization_code"@.len() == 18);
        assert("refresh_token"@.len() == 13);
        assert("authorization_code"@ != "refresh_token"@);
    }
    if str_eq(request.grant_type.as_str(), "authorization_code") {
        let now = now_unix_seconds();
        let access_id = fresh_uuid_string();
        let refresh_id = fresh_uuid_string();
        authorization_code_grant(store, request, env_scope, now, access_id, refresh_id)
    } else if str_eq(request.grant_type.as_str(), "refresh_token") {
        let now = now_unix_seconds();
        let access_id = fresh_uuid_string();
        refresh_token_grant(store, request, env_scope, now, access_id)
    } else {
        let mut description = String::from_str("Grant type '");
        description.append(request.grant_type.as_str());
        description.append("' is not supported. Use 'authorization_code' or 'refresh_token'");
        Err(
            ErrorResponse {
                error: String::from_str("unsupported_grant_type"),
                error_description: Some(description),
            },
        )
    }
}

} // verus!
