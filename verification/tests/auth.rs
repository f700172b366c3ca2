use layerhouse::auth::discovery::{discovery_url, extract_origin, rewrite_base, OidcDiscovery};
use layerhouse::auth::middleware::{
    auth_required_response, extract_cookie, extract_credential, extract_repository_from_path,
    is_public_path, live_session, request_demand, session_cookie_auth_error_response,
    session_identity, DashboardSession, Demand, Refusal, RefusalKind, RequestCredential,
    LOGIN_PATH,
};
use layerhouse::auth::oauth2::{
    begin_callback, callback_code, callback_refused, complete_callback, exchange_form, form_encode,
    login_cookie, login_url, oauth2_code_verifier, percent_encode, pkce_challenge, random_urlsafe,
    session_cookie, session_from_token, token_answer, CallbackQuery, CallbackStep,
    OAUTH2_LOGIN_SCOPE,
};
use layerhouse::auth::permissions::{
    action_matches, group_matches, match_repository, parse_scope, OciAction, PermissionMapping,
    PermissionResolver,
};
use layerhouse::auth::token::{AuthIdentity, TokenClaims, TokenType};
use layerhouse::auth::token_endpoint::{
    basic_credentials, credentials_required, extract_basic_auth, requested_permissions,
    scope_string, TokenQuery, TokenResponse,
};
use layerhouse::error::LayerhouseError;
use layerhouse::oci::json::Json;

fn unauthorized(message: &str) -> LayerhouseError {
    LayerhouseError::Unauthorized {
        message: message.to_string(),
        realm: None,
        service: None,
        scope: None,
    }
}

fn invalid_session_error() -> LayerhouseError {
    unauthorized("invalid session")
}

// ── Permissions ──────────────────────────────────────────────────────────

#[test]
fn parse_scope_pull() {
    assert_eq!(
        parse_scope("repository:foo:pull"),
        Some(("foo".to_string(), OciAction::Pull))
    );
}

#[test]
fn parse_scope_push_pull() {
    assert_eq!(
        parse_scope("repository:foo:pull,push"),
        Some(("foo".to_string(), OciAction::Push))
    );
}

#[test]
fn parse_scope_wildcard() {
    assert_eq!(
        parse_scope("repository:foo:*"),
        Some(("foo".to_string(), OciAction::Delete))
    );
}

#[test]
fn parse_scope_keeps_a_colon_of_the_repository() {
    assert_eq!(
        parse_scope("repository:host:5000/foo:pull"),
        Some(("host:5000/foo".to_string(), OciAction::Pull))
    );
    assert_eq!(parse_scope("registry:catalog:*"), None);
    assert_eq!(parse_scope("repository:foo"), None);
    assert_eq!(parse_scope("repository:foo:mount"), None);
    assert_eq!(
        parse_scope("repository:foo:delete,mount"),
        Some(("foo".to_string(), OciAction::Delete))
    );
}

#[test]
fn match_wildcard_repo() {
    assert!(match_repository("*", "anything"));
}

#[test]
fn match_prefix_pattern() {
    assert!(match_repository("platform/*", "platform"));
    assert!(match_repository("platform/*", "platform/backend"));
    assert!(!match_repository("platform/*", "other"));
}

#[test]
fn match_prefix_pattern_stops_at_segments() {
    assert!(!match_repository("platform/*", "platform2/backend"));
    assert!(match_repository("platform", "platform"));
    assert!(!match_repository("platform", "platform/backend"));
}

#[test]
fn matches_group_spn_by_local_name() {
    let resolver = PermissionResolver::new(&vec![PermissionMapping {
        name: "admins".to_string(),
        groups: vec!["registry_admins".to_string()],
        scopes: vec!["repository:*:*".to_string()],
    }]);

    assert!(resolver
        .check(
            &vec!["registry_admins@localhost".to_string()],
            "qa/test",
            OciAction::Push
        )
        .is_ok());
}

#[test]
fn exact_group_spn_does_not_match_other_domains() {
    assert!(group_matches(
        "registry_admins@prod.example",
        "registry_admins@prod.example"
    ));
    assert!(!group_matches(
        "registry_admins@prod.example",
        "registry_admins@localhost"
    ));
}

#[test]
fn refused_access_names_the_repository() {
    let resolver = PermissionResolver::new(&vec![PermissionMapping {
        name: "readers".to_string(),
        groups: vec!["readers".to_string()],
        scopes: vec!["repository:qa/*:pull".to_string(), "nonsense".to_string()],
    }]);
    let readers = vec!["readers".to_string()];
    assert!(resolver.check(&readers, "qa/test", OciAction::Pull).is_ok());
    assert_eq!(
        resolver.check(&readers, "qa/test", OciAction::Push),
        Err(LayerhouseError::Denied(
            "access denied for repository qa/test".to_string()
        ))
    );
    assert_eq!(
        resolver.check(&vec![], "qa/test", OciAction::Pull),
        Err(LayerhouseError::Denied(
            "access denied for repository qa/test".to_string()
        ))
    );
}

#[test]
fn token_scopes_are_checked_like_rules() {
    let resolver = PermissionResolver::new(&vec![]);
    let scopes = vec!["repository:alice/app:pull,push".to_string()];
    assert!(resolver
        .check_scopes(&scopes, "alice/app", OciAction::Pull)
        .is_ok());
    assert!(resolver
        .check_scopes(&scopes, "alice/app", OciAction::Push)
        .is_ok());
    assert!(resolver
        .check_scopes(&scopes, "alice/app", OciAction::Delete)
        .is_err());
    assert!(resolver
        .check_scopes(&scopes, "alice/other", OciAction::Pull)
        .is_err());
}

#[test]
fn wider_actions_cover_narrower_ones() {
    assert!(action_matches(OciAction::Delete, OciAction::Push));
    assert!(action_matches(OciAction::Push, OciAction::Pull));
    assert!(!action_matches(OciAction::Pull, OciAction::Push));
    assert!(!action_matches(OciAction::Push, OciAction::Delete));
}

#[test]
fn methods_are_actions() {
    assert_eq!(OciAction::from_method("GET"), OciAction::Pull);
    assert_eq!(OciAction::from_method("HEAD"), OciAction::Pull);
    assert_eq!(OciAction::from_method("DELETE"), OciAction::Delete);
    assert_eq!(OciAction::from_method("PUT"), OciAction::Push);
    assert_eq!(OciAction::from_method("PATCH"), OciAction::Push);
}

// ── Tokens ───────────────────────────────────────────────────────────────

fn claims(
    name: Option<&str>,
    preferred_username: Option<&str>,
    email: Option<&str>,
) -> TokenClaims {
    TokenClaims {
        subject: "subject-uuid".to_string(),
        exp: 1,
        aud: None,
        groups: None,
        name: name.map(ToString::to_string),
        preferred_username: preferred_username.map(ToString::to_string),
        email: email.map(ToString::to_string),
        scope: None,
        token_type: None,
        iat: None,
        iss: None,
    }
}

fn display_label(claims: &TokenClaims) -> String {
    claims
        .display_name()
        .or_else(|| claims.username())
        .or_else(|| claims.email())
        .unwrap_or_else(|| claims.subject.clone())
}

#[test]
fn display_label_prefers_human_profile_claims() {
    assert_eq!(
        display_label(&claims(
            Some("Admin User"),
            Some("admin"),
            Some("admin@example.test")
        )),
        "Admin User"
    );
    assert_eq!(
        display_label(&claims(None, Some("admin"), Some("admin@example.test"))),
        "admin"
    );
    assert_eq!(
        display_label(&claims(None, None, Some("admin@example.test"))),
        "admin@example.test"
    );
    assert_eq!(display_label(&claims(None, None, None)), "subject-uuid");
}

#[test]
fn blank_claims_count_as_missing() {
    assert_eq!(TokenClaims::trimmed(&Some(" \t\u{a0}".to_string())), None);
    assert_eq!(
        TokenClaims::trimmed(&Some("  Ada Lovelace\n".to_string())),
        Some("Ada Lovelace".to_string())
    );
    assert_eq!(TokenClaims::trimmed(&None), None);
}

// ── Token endpoint ───────────────────────────────────────────────────────

#[test]
fn token_query_accepts_repeated_scope_parameters() {
    let query = TokenQuery::from_raw_query(Some(
        "service=qa&scope=repository%3Aqa%2Fexample%3A%2A&scope=repository%3Aqa%2Fexample%3Apull%2Cpush",
    ))
    .expect("query should parse");

    assert_eq!(query.service.as_deref(), Some("qa"));
    assert_eq!(
        query.scope,
        vec![
            "repository:qa/example:*".to_string(),
            "repository:qa/example:pull,push".to_string(),
        ]
    );
}

#[test]
fn token_query_keeps_the_last_single_value() {
    let query = TokenQuery::from_raw_query(Some(
        "service=a&service=b&account=ada&client_id=docker&other=x",
    ))
    .expect("query should parse");
    assert_eq!(query.service.as_deref(), Some("b"));
    assert_eq!(query._account.as_deref(), Some("ada"));
    assert_eq!(query._client_id.as_deref(), Some("docker"));
    assert!(query.scope.is_empty());
    let empty = TokenQuery::from_raw_query(None).expect("no query is fine");
    assert_eq!(empty.service, None);
}

#[test]
fn scope_string_joins_repeated_scope_parameters() {
    let scopes = vec![
        "repository:qa/example:*".to_string(),
        "repository:qa/example:pull,push".to_string(),
    ];

    assert_eq!(
        scope_string(&scopes),
        Some("repository:qa/example:* repository:qa/example:pull,push".to_string())
    );
}

#[test]
fn scope_string_filters_empty_scope_parameters() {
    let scopes = vec![" ".to_string(), "repository:qa/example:pull".to_string()];

    assert_eq!(
        scope_string(&scopes),
        Some("repository:qa/example:pull".to_string())
    );
}

#[test]
fn scope_string_of_nothing_is_nothing() {
    assert_eq!(scope_string(&vec![]), None);
    assert_eq!(scope_string(&vec!["  \n".to_string()]), None);
}

#[test]
fn requested_scopes_are_read_word_by_word() {
    assert_eq!(
        requested_permissions(&Some(
            "repository:a:pull nonsense repository:b:push".to_string()
        )),
        vec![
            ("a".to_string(), OciAction::Pull),
            ("b".to_string(), OciAction::Push)
        ]
    );
    assert_eq!(requested_permissions(&None), vec![]);
}

#[test]
fn basic_auth_is_decoded() {
    assert_eq!(
        extract_basic_auth(Some("Basic YWRhOnBhc3M6d29yZA==")),
        Some(("ada".to_string(), "pass:word".to_string()))
    );
    assert_eq!(extract_basic_auth(Some("Basic !!!")), None);
    assert_eq!(extract_basic_auth(Some("Bearer YWRhOnBhc3M=")), None);
    assert_eq!(extract_basic_auth(None), None);
    assert_eq!(basic_credentials(vec![0xff, 0x3a]), None);
    assert_eq!(basic_credentials(b"ada".to_vec()), None);
}

#[test]
fn missing_credentials_name_the_endpoint() {
    let query = TokenQuery::from_raw_query(Some("service=qa&scope=repository%3Aa%3Apull"))
        .expect("query should parse");
    assert_eq!(
        credentials_required("https://registry.example/v2/token", &query),
        LayerhouseError::Unauthorized {
            message: "authentication required".to_string(),
            realm: Some("https://registry.example/v2/token".to_string()),
            service: Some("qa".to_string()),
            scope: Some("repository:a:pull".to_string()),
        }
    );
}

#[test]
fn issued_tokens_carry_both_names() {
    let r = TokenResponse::issued("t".to_string(), "2026-01-01T00:00:00+00:00".to_string());
    assert_eq!(r.token, "t");
    assert_eq!(r.access_token, "t");
    assert_eq!(r.expires_in, 3600);
    assert_eq!(r.issued_at, "2026-01-01T00:00:00+00:00");
}

// ── Discovery ────────────────────────────────────────────────────────────

#[test]
fn extracts_origin_from_full_issuer_url() {
    assert_eq!(
        extract_origin("https://localhost:8443/oauth2/openid/orb-chrysa"),
        "https://localhost:8443"
    );
    assert_eq!(
        extract_origin("https://idp.internal:8443/oauth2/openid/orb-chrysa"),
        "https://idp.internal:8443"
    );
    assert_eq!(
        extract_origin("https://localhost:8443"),
        "https://localhost:8443"
    );
}

#[test]
fn rewrites_public_origin_to_internal() {
    assert_eq!(
        rewrite_base(
            "https://localhost:8443/oauth2/token",
            "https://localhost:8443/oauth2/openid/orb-chrysa",
            "https://idp.internal:8443/oauth2/openid/orb-chrysa"
        ),
        "https://idp.internal:8443/oauth2/token"
    );
    assert_eq!(
        rewrite_base(
            "https://localhost:8443/oauth2/openid/orb-chrysa/public_key.jwk",
            "https://localhost:8443/oauth2/openid/orb-chrysa",
            "https://idp.internal:8443/oauth2/openid/orb-chrysa"
        ),
        "https://idp.internal:8443/oauth2/openid/orb-chrysa/public_key.jwk"
    );
}

#[test]
fn leaves_unmatched_url_unchanged() {
    assert_eq!(
        rewrite_base(
            "https://other:8443/oauth2/token",
            "https://localhost:8443/oauth2/openid/orb-chrysa",
            "https://idp.internal:8443/oauth2/openid/orb-chrysa"
        ),
        "https://other:8443/oauth2/token"
    );
}

#[test]
fn discovery_document_is_below_the_issuer() {
    assert_eq!(
        discovery_url("https://idp//"),
        "https://idp/.well-known/openid-configuration"
    );
}

#[test]
fn discovery_moves_server_endpoints_to_the_reachable_origin() {
    let doc = Json::from_slice(
        br#"{"authorization_endpoint":"https://pub/auth","token_endpoint":"https://pub/token",
            "jwks_uri":"https://pub/keys","end_session_endpoint":"https://pub/end"}"#,
    )
    .expect("document parses");
    let found = OidcDiscovery::from_document(&doc, "https://idp.internal/x", "https://pub/x")
        .expect("complete document");
    assert_eq!(found.authorization_endpoint, "https://pub/auth");
    assert_eq!(found.token_endpoint, "https://idp.internal/token");
    assert_eq!(found.jwks_uri, "https://idp.internal/keys");
    assert_eq!(found.end_session_endpoint.as_deref(), Some("https://pub/end"));
}

#[test]
fn discovery_names_the_missing_endpoint() {
    let doc = Json::from_slice(br#"{"authorization_endpoint":"a","token_endpoint":"t"}"#)
        .expect("document parses");
    assert_eq!(
        OidcDiscovery::from_document(&doc, "i", "p"),
        Err(LayerhouseError::Internal(
            "discovery missing jwks_uri".to_string()
        ))
    );
    let empty = Json::from_slice(b"{}").expect("document parses");
    assert_eq!(
        OidcDiscovery::from_document(&empty, "i", "p"),
        Err(LayerhouseError::Internal(
            "discovery missing authorization_endpoint".to_string()
        ))
    );
}

// ── Middleware ───────────────────────────────────────────────────────────

#[test]
fn extracts_multi_segment_repository_names() {
    assert_eq!(
        extract_repository_from_path("/v2/qa/auth-test/alpine/blobs/uploads/"),
        "qa/auth-test/alpine"
    );
    assert_eq!(
        extract_repository_from_path("/v2/qa/auth-test/alpine/manifests/v1"),
        "qa/auth-test/alpine"
    );
    assert_eq!(
        extract_repository_from_path("/v2/qa/auth-test/alpine/tags/list"),
        "qa/auth-test/alpine"
    );
}

#[test]
fn paths_without_repository_name_none() {
    assert_eq!(extract_repository_from_path("/v2/_catalog"), "");
    assert_eq!(extract_repository_from_path("/v2/blobs/x"), "");
    assert_eq!(extract_repository_from_path("/api/v1/session"), "");
}

#[test]
fn invalid_dashboard_session_redirects_and_clears_cookie() {
    let response = session_cookie_auth_error_response("/", invalid_session_error());

    assert_eq!(
        response,
        Refusal {
            kind: RefusalKind::Redirect("/oauth2/start".to_string()),
            set_cookie: Some(
                "orb_chrysa_session=; HttpOnly; Secure; SameSite=Lax; Path=/; Max-Age=0"
                    .to_string()
            ),
        }
    );
}

#[test]
fn invalid_api_session_remains_unauthorized_and_clears_cookie() {
    let response = session_cookie_auth_error_response("/api/v1/session", invalid_session_error());

    assert_eq!(response.kind, RefusalKind::Error(invalid_session_error()));
    assert_eq!(
        response.set_cookie.as_deref(),
        Some("orb_chrysa_session=; HttpOnly; Secure; SameSite=Lax; Path=/; Max-Age=0")
    );
}

#[test]
fn dashboard_static_assets_are_public() {
    assert!(is_public_path("/assets/index-abc123.js"));
    assert!(is_public_path("/brand/orb-chrysa-mark-dark.svg"));
    assert!(is_public_path("/favicon.svg"));
    assert!(!is_public_path("/"));
    assert!(!is_public_path("/api/v1/session"));
}

#[test]
fn requests_without_credentials_are_told_where_to_get_some() {
    assert_eq!(
        auth_required_response("/settings", "https://r/v2/token").kind,
        RefusalKind::Redirect("/oauth2/start".to_string())
    );
    assert_eq!(
        auth_required_response("/v2/qa/app/manifests/v1", "https://r/v2/token").kind,
        RefusalKind::Error(LayerhouseError::Unauthorized {
            message: "authentication required".to_string(),
            realm: Some("https://r/v2/token".to_string()),
            service: Some("qa".to_string()),
            scope: Some("repository:qa/app:*".to_string()),
        })
    );
    assert_eq!(
        auth_required_response("/api/v1/session", "https://r/v2/token").kind,
        RefusalKind::Error(LayerhouseError::Unauthorized {
            message: "authentication required".to_string(),
            realm: Some("https://r/v2/token".to_string()),
            service: Some("registry".to_string()),
            scope: Some("repository::*".to_string()),
        })
    );
}

#[test]
fn credentials_are_bearer_tokens_or_sessions() {
    assert_eq!(
        extract_credential(Some("Bearer abc"), Some("orb_chrysa_session=xyz")),
        Some(RequestCredential::Bearer("abc".to_string()))
    );
    assert_eq!(
        extract_credential(Some("Basic abc"), Some("a=b; orb_chrysa_session=x=y")),
        Some(RequestCredential::SessionCookie("x=y".to_string()))
    );
    assert_eq!(extract_credential(None, Some("a=b")), None);
    assert_eq!(extract_cookie("a; b=1; b=2", "b"), Some("1".to_string()));
}

#[test]
fn paths_demand_permissions() {
    assert_eq!(
        request_demand("/v2/qa/app/manifests/v1", "PUT"),
        Demand::Repository("qa/app".to_string(), OciAction::Push)
    );
    assert_eq!(
        request_demand("/api/v1/admin/gc/status", "GET"),
        Demand::Administration
    );
    assert_eq!(request_demand("/api/v1/session", "GET"), Demand::Nothing);
}

fn session(subject: &str, expires_at: u64) -> DashboardSession {
    DashboardSession {
        subject: subject.to_string(),
        username: Some("ada".to_string()),
        display_name: Some("Ada".to_string()),
        email: None,
        access_token: "access".to_string(),
        refresh_token: String::new(),
        id_token: "id".to_string(),
        expires_at,
    }
}

#[test]
fn sessions_end() {
    assert_eq!(live_session(None, 1), Err(unauthorized("invalid session")));
    assert_eq!(
        live_session(Some(session("s", 10)), 10),
        Err(unauthorized("session expired"))
    );
    assert_eq!(
        live_session(Some(session("s", 10)), 9),
        Ok(session("s", 10))
    );
}

#[test]
fn sessions_belong_to_their_subject() {
    let identity = AuthIdentity {
        subject: "s".to_string(),
        username: None,
        display_name: None,
        email: Some("old@example.test".to_string()),
        groups: vec!["g".to_string()],
        scopes: vec![],
        token_type: TokenType::KanidmAccess,
    };
    let who = session_identity(&session("s", 10), identity.clone()).expect("same subject");
    assert_eq!(who.username.as_deref(), Some("ada"));
    assert_eq!(who.email, None);
    assert_eq!(who.groups, vec!["g".to_string()]);
    assert_eq!(
        session_identity(&session("other", 10), identity).err(),
        Some(unauthorized("session subject mismatch"))
    );
}

// ── Login ────────────────────────────────────────────────────────────────

#[test]
fn login_scope_requests_groups_for_dashboard_permissions() {
    assert_eq!(OAUTH2_LOGIN_SCOPE, "openid profile email groups");
    assert_eq!(
        percent_encode(OAUTH2_LOGIN_SCOPE),
        "openid%20profile%20email%20groups"
    );
}

#[test]
fn percent_encoding_works_on_bytes() {
    assert_eq!(percent_encode("a-_.~Z9"), "a-_.~Z9");
    assert_eq!(percent_encode("é/+"), "%C3%A9%2F%2B");
    assert_eq!(
        form_encode(&vec![
            ("a b".to_string(), "1&2".to_string()),
            ("c".to_string(), String::new())
        ]),
        "a%20b=1%262&c="
    );
}

#[test]
fn code_challenge_is_the_hash_of_the_verifier() {
    assert_eq!(
        pkce_challenge("dBjftJeZ4CVP-mB92K27uhbUJU1p1r_wW1gFWFOEjXk"),
        "E9Melhoa2OwvFrEMTJguCHaoeK1t8URWbuGJSstw-cM"
    );
}

#[test]
fn login_starts_with_state_and_challenge() {
    assert_eq!(
        login_url(
            "https://idp/auth",
            "registry",
            "https://r/oauth2/callback",
            "st",
            "dBjftJeZ4CVP-mB92K27uhbUJU1p1r_wW1gFWFOEjXk"
        ),
        "https://idp/auth?response_type=code&client_id=registry&redirect_uri=https%3A%2F%2Fr%2Foauth2%2Fcallback&scope=openid%20profile%20email%20groups&state=st&code_challenge=E9Melhoa2OwvFrEMTJguCHaoeK1t8URWbuGJSstw-cM&code_challenge_method=S256"
    );
    assert_eq!(
        login_cookie("st", "ver"),
        "layerhouse_oauth2=st.ver; HttpOnly; Secure; SameSite=Lax; Path=/oauth2; Max-Age=600"
    );
}

#[test]
fn random_secrets_differ() {
    let a = random_urlsafe(32);
    let b = random_urlsafe(32);
    assert_eq!(a.len(), 43);
    assert_ne!(a, b);
    assert!(a
        .chars()
        .all(|c| c.is_ascii_alphanumeric() || c == '-' || c == '_'));
}

#[test]
fn callback_reads_back_what_the_login_stored() {
    let state = random_urlsafe(32);
    let verifier = random_urlsafe(32);
    let cookies = format!("x=y; layerhouse_oauth2={}.{}", state, verifier);
    assert_eq!(
        oauth2_code_verifier(Some(&cookies), Some(&state)),
        Ok(verifier)
    );
    assert_eq!(
        oauth2_code_verifier(Some(&cookies), Some("other")),
        Err(unauthorized("oauth2 state mismatch"))
    );
    assert_eq!(
        oauth2_code_verifier(Some(&cookies), None),
        Err(unauthorized("oauth2 state mismatch"))
    );
    assert_eq!(
        oauth2_code_verifier(Some("layerhouse_oauth2=malformed"), Some("s")),
        Err(unauthorized("invalid oauth2 state"))
    );
    assert_eq!(
        oauth2_code_verifier(None, Some("s")),
        Err(unauthorized("missing oauth2 state"))
    );
}

#[test]
fn callback_without_code_starts_again() {
    let query = |code: Option<&str>| CallbackQuery {
        code: code.map(str::to_string),
        _state: None,
    };
    assert_eq!(callback_code(&query(None)), None);
    assert_eq!(callback_code(&query(Some(""))), None);
    assert_eq!(
        callback_code(&query(Some("abc"))),
        Some(&"abc".to_string())
    );
}

#[test]
fn code_exchange_sends_all_fields() {
    assert_eq!(
        exchange_form("c", "https://r/cb", "id", "s3cret", "ver"),
        "grant_type=authorization_code&code=c&redirect_uri=https%3A%2F%2Fr%2Fcb&client_id=id&client_secret=s3cret&code_verifier=ver"
    );
}

#[test]
fn completed_login_opens_a_session() {
    let token = Json::from_slice(br#"{"access_token":"acc","id_token":"idt","expires_in":100}"#)
        .expect("document parses");
    let opened = session_from_token(&token, &claims(Some(" Ada "), None, None), 1000)
        .expect("complete answer");
    assert_eq!(opened.subject, "subject-uuid");
    assert_eq!(opened.display_name.as_deref(), Some("Ada"));
    assert_eq!(opened.access_token, "acc");
    assert_eq!(opened.refresh_token, "");
    assert_eq!(opened.expires_at, 1100);
    let without = Json::from_slice(br#"{"access_token":"acc"}"#).expect("document parses");
    assert_eq!(
        session_from_token(&without, &claims(None, None, None), 0),
        Err(LayerhouseError::Internal("missing id_token".to_string()))
    );
    assert_eq!(
        session_cookie("v", 100),
        "orb_chrysa_session=v; HttpOnly; Secure; SameSite=Lax; Path=/; Max-Age=100"
    );
}

// ── Callbacks ────────────────────────────────────────────────────────────

fn callback(code: Option<&str>, state: Option<&str>) -> CallbackQuery {
    CallbackQuery {
        code: code.map(str::to_string),
        _state: state.map(str::to_string),
    }
}

fn begin(
    query: &CallbackQuery,
    auth_enabled: bool,
    cookies: Option<&str>,
) -> Result<CallbackStep, LayerhouseError> {
    begin_callback(
        query,
        auth_enabled,
        cookies,
        "https://r/oauth2/callback",
        "registry",
        "s3cret",
    )
}

#[test]
fn oauth2_callback_without_code_restarts_login() {
    let step = begin(&callback(None, None), false, None);
    assert!(matches!(step, Ok(CallbackStep::Restart)));
    let step = begin(&callback(Some(""), Some("expected")), true, None);
    assert!(matches!(step, Ok(CallbackStep::Restart)));
    assert_eq!(LOGIN_PATH, "/oauth2/start");
}

fn assert_oauth2_state_error_redirect(cookies: Option<&str>) {
    let query = callback(Some("abc"), Some("expected"));
    let error = begin(&query, false, cookies).err().unwrap();
    let reply = callback_refused(&error, "HttpOnly; SameSite=Lax").unwrap();
    assert_eq!(reply.status, 307);
    let headers: Vec<(&str, &str)> = reply
        .headers
        .iter()
        .map(|(name, value)| (name.as_str(), value.as_str()))
        .collect();
    assert_eq!(
        headers,
        vec![
            ("location", "/?oauth_error=state#/oauth2/error"),
            (
                "set-cookie",
                "layerhouse_oauth2=; HttpOnly; SameSite=Lax; Path=/oauth2; Max-Age=0"
            ),
        ]
    );
}

#[test]
fn oauth2_callback_missing_state_cookie_redirects_to_error_page() {
    assert_oauth2_state_error_redirect(None);
}

#[test]
fn oauth2_callback_malformed_state_cookie_redirects_to_error_page() {
    assert_oauth2_state_error_redirect(Some("layerhouse_oauth2=malformed"));
}

#[test]
fn oauth2_callback_state_mismatch_redirects_to_error_page() {
    assert_oauth2_state_error_redirect(Some("layerhouse_oauth2=different.verifier"));
}

#[test]
fn callback_with_its_state_is_exchanged() {
    let query = callback(Some("abc"), Some("st"));
    let cookies = Some("layerhouse_oauth2=st.ver");
    let step = begin(&query, true, cookies);
    let Ok(CallbackStep::Exchange { form }) = step else {
        panic!("expected an exchange");
    };
    assert_eq!(
        form,
        "grant_type=authorization_code&code=abc&redirect_uri=https%3A%2F%2Fr%2Foauth2%2Fcallback&client_id=registry&client_secret=s3cret&code_verifier=ver"
    );
    let error = begin(&query, false, cookies).err().unwrap();
    assert_eq!(error.message(), "auth not configured");
    assert!(callback_refused(&error, "HttpOnly").is_none());
}

#[test]
fn callback_is_completed_with_tokens_and_claims() {
    let answer = token_answer(
        r#"{"access_token":"at","id_token":"it","refresh_token":"rt","expires_in":60}"#,
    )
    .unwrap();
    let claims = TokenClaims {
        subject: "s".to_string(),
        exp: 9,
        aud: None,
        groups: None,
        name: Some("Alice".to_string()),
        preferred_username: Some("alice".to_string()),
        email: None,
        scope: None,
        token_type: None,
        iat: None,
        iss: None,
    };
    let session = complete_callback(&answer, Some(&claims), 100).unwrap();
    assert_eq!(session.subject, "s");
    assert_eq!(session.username.as_deref(), Some("alice"));
    assert_eq!(session.access_token, "at");
    assert_eq!(session.refresh_token, "rt");
    assert_eq!(session.id_token, "it");
    assert_eq!(session.expires_at, 160);

    let error = complete_callback(&answer, None, 100).unwrap_err();
    assert_eq!(error.message(), "invalid id_token");
    let bare = token_answer(r#"{"access_token":"at"}"#).unwrap();
    let error = complete_callback(&bare, Some(&claims), 100).unwrap_err();
    assert_eq!(error.message(), "missing id_token");
    let empty = token_answer("{}").unwrap();
    let error = complete_callback(&empty, Some(&claims), 100).unwrap_err();
    assert_eq!(error.message(), "missing access_token");
    assert!(token_answer("{")
        .unwrap_err()
        .message()
        .starts_with("token parse failed: "));
}
