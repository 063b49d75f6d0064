use chatstream::oauth::{
    get_token_scope, token_handler, validate_token, validate_token_at, TokenMetadata,
    TokenRequest, TokenStore,
};

fn request(grant_type: &str) -> TokenRequest {
    TokenRequest {
        grant_type: grant_type.to_string(),
        code: None,
        refresh_token: None,
        client_id: None,
        client_secret: None,
        redirect_uri: None,
        expires_in: None,
        scope: None,
    }
}

#[test]
fn authorization_code_grant_issues_tokens() {
    let mut store = TokenStore::new();
    let mut req = request("authorization_code");
    req.code = Some("mock-code".to_string());
    let resp = token_handler(&mut store, req, None).expect("grant succeeds");
    assert!(resp.access_token.starts_with("ya29.mock_"));
    let refresh = resp.refresh_token.expect("refresh token issued");
    assert!(refresh.starts_with("1//mock_"));
    assert_eq!(resp.token_type, "Bearer");
    assert_eq!(resp.expires_in, 3600);
    assert_eq!(resp.scope.as_deref(), Some("mock.scope.read mock.scope.write"));

    // Both tokens are tracked with the granted scope.
    assert_eq!(
        get_token_scope(&store, &resp.access_token).as_deref(),
        Some("mock.scope.read mock.scope.write")
    );
    assert_eq!(
        get_token_scope(&store, &refresh).as_deref(),
        Some("mock.scope.read mock.scope.write")
    );
}

#[test]
fn authorization_code_grant_honours_custom_scope_and_expiry() {
    let mut store = TokenStore::new();
    let mut req = request("authorization_code");
    req.code = Some("mock-code".to_string());
    req.scope = Some("custom.scope".to_string());
    req.expires_in = Some(120);
    let resp = token_handler(&mut store, req, Some("env.scope".to_string())).unwrap();
    assert_eq!(resp.scope.as_deref(), Some("custom.scope"));
    assert_eq!(resp.expires_in, 120);
}

#[test]
fn authorization_code_grant_uses_environment_scope() {
    let mut store = TokenStore::new();
    let mut req = request("authorization_code");
    req.code = Some("mock-code".to_string());
    let resp = token_handler(&mut store, req, Some("env.scope".to_string())).unwrap();
    assert_eq!(resp.scope.as_deref(), Some("env.scope"));
}

#[test]
fn authorization_code_grant_requires_code() {
    let mut store = TokenStore::new();
    let err = token_handler(&mut store, request("authorization_code"), None).unwrap_err();
    assert_eq!(err.error, "invalid_request");
    assert_eq!(
        err.error_description.as_deref(),
        Some("The 'code' parameter is required for grant_type=authorization_code")
    );

    let mut empty = request("authorization_code");
    empty.code = Some(String::new());
    let err = token_handler(&mut store, empty, None).unwrap_err();
    assert_eq!(err.error, "invalid_request");
}

#[test]
fn refresh_grant_carries_scope_forward() {
    let mut store = TokenStore::new();
    let mut first = request("authorization_code");
    first.code = Some("mock-code".to_string());
    first.scope = Some("granted.scope".to_string());
    let issued = token_handler(&mut store, first, None).unwrap();
    let refresh_token = issued.refresh_token.unwrap();

    let mut refresh = request("refresh_token");
    refresh.refresh_token = Some(refresh_token);
    let renewed = token_handler(&mut store, refresh, None).unwrap();
    assert!(renewed.access_token.starts_with("ya29.mock_"));
    assert!(renewed.refresh_token.is_none());
    assert_eq!(renewed.scope.as_deref(), Some("granted.scope"));
    assert_eq!(renewed.token_type, "Bearer");
}

#[test]
fn refresh_grant_requires_refresh_token() {
    let mut store = TokenStore::new();
    let err = token_handler(&mut store, request("refresh_token"), None).unwrap_err();
    assert_eq!(err.error, "invalid_request");
    assert_eq!(
        err.error_description.as_deref(),
        Some("The 'refresh_token' parameter is required for grant_type=refresh_token")
    );
}

#[test]
fn unsupported_grant_type_is_rejected() {
    let mut store = TokenStore::new();
    let err = token_handler(&mut store, request("password"), None).unwrap_err();
    assert_eq!(err.error, "unsupported_grant_type");
    assert_eq!(
        err.error_description.as_deref(),
        Some("Grant type 'password' is not supported. Use 'authorization_code' or 'refresh_token'")
    );
}

#[test]
fn validate_token_at_checks_expiry_exactly() {
    let mut store = TokenStore::new();
    store.insert(
        "tok".to_string(),
        TokenMetadata { issued_at: 1000, expires_in: 50, scope: "s".to_string() },
    );
    assert!(validate_token_at(&store, "tok", 1049).is_ok());
    let err = validate_token_at(&store, "tok", 1050).unwrap_err();
    assert_eq!(err, "Token has expired");
    assert!(validate_token_at(&store, "tok", 2000).is_err());
}

#[test]
fn validate_token_at_accepts_untracked_tokens() {
    let store = TokenStore::new();
    assert!(validate_token_at(&store, "unknown", 123456).is_ok());
}

#[test]
fn negative_expiry_mints_expired_tokens() {
    let mut store = TokenStore::new();
    let mut req = request("authorization_code");
    req.code = Some("mock-code".to_string());
    req.expires_in = Some(-60);
    let resp = token_handler(&mut store, req, None).unwrap();
    assert_eq!(resp.expires_in, -60);
    let err = validate_token(&store, &resp.access_token).unwrap_err();
    assert_eq!(err, "Token has expired");
}

#[test]
fn validate_token_passes_fresh_tokens() {
    let mut store = TokenStore::new();
    let mut req = request("authorization_code");
    req.code = Some("mock-code".to_string());
    let resp = token_handler(&mut store, req, None).unwrap();
    assert!(validate_token(&store, &resp.access_token).is_ok());
    assert!(validate_token(&store, "never-issued").is_ok());
}

#[test]
fn extreme_metadata_does_not_overflow_expiry_check() {
    let meta = TokenMetadata {
        issued_at: i64::MAX,
        expires_in: i64::MAX,
        scope: "s".to_string(),
    };
    let mut store = TokenStore::new();
    store.insert("big".to_string(), meta);
    assert!(validate_token_at(&store, "big", i64::MAX).is_ok());

    let meta = TokenMetadata {
        issued_at: i64::MIN,
        expires_in: i64::MIN,
        scope: "s".to_string(),
    };
    store.insert("small".to_string(), meta);
    assert!(validate_token_at(&store, "small", 0).is_err());
}

#[test]
fn get_token_scope_reads_tracked_tokens_only() {
    let mut store = TokenStore::new();
    assert!(get_token_scope(&store, "nope").is_none());
    store.insert(
        "tok".to_string(),
        TokenMetadata { issued_at: 0, expires_in: 10, scope: "read write".to_string() },
    );
    assert_eq!(get_token_scope(&store, "tok").as_deref(), Some("read write"));
}
