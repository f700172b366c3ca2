use layerhouse::auth::grants::{GrantSource, RepositoryAction};
use layerhouse::auth::identity::Subject;
use layerhouse::auth::token::{AuthIdentity, TokenType};
use layerhouse::error::LayerhouseError;
use layerhouse::oci::digest::Digest;
use layerhouse::raft::state::StateMachineData;
use layerhouse::raft::state_machine::StateMachine;
use layerhouse::raft::{NamespaceResponse, Request, Response};
use layerhouse::routes::admin::{
    known, put_proxy_cache, put_rule, required, run_limit, shown_caches, shown_rule, shown_rules,
    validate_mirror_rule, validate_strategy, validate_warm_filters, ShownRule,
};
use layerhouse::routes::namespaces::{
    actor_label, claim_label, claim_request, existing_namespace, grant_deleted,
    list_namespace_grant_audit, list_namespaces, matching_grant, namespace_response, new_grant,
    normalized_reason, patch_grant, public_safe_action, release_reason, release_request,
    require_auth, require_namespace_owner, search_observed_identities, user_limit, NamespaceGrant,
    NamespaceGrantAuditEvent, NamespaceGrantGrantee, NamespaceGrantGranteeRequest,
    ObservedIdentity, PatchNamespaceGrantRequest, PutNamespaceGrantRequest,
};
use layerhouse::routes::pat_api::{
    accept_selection, check_token_name, create_token, grantable_scopes, list_tokens, mint_token,
    required_identity, token_revoked, Candidate, Ceiling, CreatePatRequest, CreatePatResponse,
    GrantableScopeQuery, PatScopeSelection,
};
use layerhouse::routes::paths::query_params;
use layerhouse::store::metadata::namespace::{Namespace, Owner, ReleaseReason};
use layerhouse::store::metadata::types::{
    MirrorRule, MirrorStrategy, OutboundProxy, OutboundProxyProtocol, PersonalAccessToken,
    ProxyCache, WarmFilter, WarmSortBy,
};

fn identity(name: &str) -> AuthIdentity {
    AuthIdentity {
        subject: format!("subject-{name}"),
        username: Some(name.to_string()),
        display_name: None,
        email: None,
        groups: vec![],
        scopes: vec![],
        token_type: TokenType::PersonalAccess,
    }
}

// ── Mirror rules and proxy caches ─────────────────────────────────────────

fn rule() -> MirrorRule {
    MirrorRule {
        id: "ignored".to_string(),
        direction: Default::default(),
        local_prefix: "local/test".to_string(),
        upstream_registry: "docker.io".to_string(),
        upstream_prefix: Some(" library/test ".to_string()),
        schedule: Some("  ".to_string()),
        strategy: MirrorStrategy::All,
        plain_http: false,
        insecure_tls: false,
        outbound_proxy: OutboundProxy::default(),
        username: Some("admin".to_string()),
        password: Some("secret123".to_string()),
        created_at: 0,
    }
}

fn cache() -> ProxyCache {
    ProxyCache {
        id: "ignored".to_string(),
        local_prefix: "cache/docker".to_string(),
        upstream_registry: "registry-1.docker.io".to_string(),
        upstream_prefix: None,
        warm_filters: vec![WarmFilter::Never],
        warm_schedule: None,
        plain_http: false,
        insecure_tls: false,
        outbound_proxy: OutboundProxy::default(),
        username: Some("upstream-user".to_string()),
        password: Some("upstream-secret".to_string()),
        created_at: 5,
    }
}

fn proxy(protocol: OutboundProxyProtocol, url: Option<&str>) -> OutboundProxy {
    OutboundProxy {
        protocol,
        url: url.map(str::to_string),
        username: Some("user".to_string()),
        password: Some("secret".to_string()),
    }
}

#[test]
fn list_rules_excludes_credentials_by_default() {
    let shown = shown_rules(vec![rule()], None);
    match &shown[0] {
        ShownRule::Public(public) => {
            assert_eq!(public.id, "ignored");
            assert!(public.username_configured);
            assert!(public.password_configured);
        }
        ShownRule::Whole(_) => panic!("secrets shown"),
    }
}

#[test]
fn list_rules_includes_credentials_when_requested() {
    let shown = shown_rules(vec![rule()], Some(true));
    match &shown[0] {
        ShownRule::Whole(whole) => assert_eq!(whole.password.as_deref(), Some("secret123")),
        ShownRule::Public(_) => panic!("secrets hidden"),
    }
}

#[test]
fn get_rule_excludes_credentials_by_default() {
    assert!(matches!(
        shown_rule(rule(), Some(false)),
        ShownRule::Public(_)
    ));
    assert!(matches!(shown_rule(rule(), None), ShownRule::Public(_)));
}

#[test]
fn get_rule_includes_credentials_when_requested() {
    assert!(matches!(
        shown_rule(rule(), Some(true)),
        ShownRule::Whole(_)
    ));
}

#[test]
fn get_rule_404_on_unknown_id() {
    let error = known(None::<MirrorRule>, "nonexistent").unwrap_err();
    assert_eq!(error.status(), 404);
    assert_eq!(error.message(), "nonexistent");
    assert_eq!(known(Some(3), "x"), Ok(3));
}

#[test]
fn put_rule_normalizes_and_stamps() {
    let put = put_rule("docker".to_string(), rule(), 42).unwrap();
    assert_eq!(put.id, "docker");
    assert_eq!(put.upstream_prefix.as_deref(), Some("library/test"));
    assert_eq!(put.schedule, None);
    assert_eq!(put.created_at, 42);
    let mut again = put_rule("docker".to_string(), put, 99).unwrap();
    assert_eq!(again.created_at, 42);
    assert!(validate_mirror_rule(&mut again).is_ok());
    assert_eq!(again.upstream_prefix.as_deref(), Some("library/test"));
}

#[test]
fn put_rule_rejects_https_proxy() {
    let mut rule = rule();
    rule.outbound_proxy = proxy(
        OutboundProxyProtocol::Https,
        Some("https://proxy.example.com:8443"),
    );
    let error = put_rule("blocked".to_string(), rule, 1).unwrap_err();
    assert_eq!(error.status(), 400);
    assert!(error.message().contains("aioduct"));
}

#[test]
fn put_rule_rejects_conflicting_upstream_transport_modes() {
    let mut rule = rule();
    rule.plain_http = true;
    rule.insecure_tls = true;
    let error = put_rule("conflict".to_string(), rule, 1).unwrap_err();
    assert_eq!(error.status(), 400);
    assert_eq!(
        error.message(),
        "plain_http and insecure_tls are mutually exclusive"
    );
}

#[test]
fn put_rule_direct_clears_proxy_details() {
    let mut rule = rule();
    rule.outbound_proxy = proxy(
        OutboundProxyProtocol::Direct,
        Some("http://proxy.example.com:8080"),
    );
    let saved = put_rule("docker".to_string(), rule, 1).unwrap();
    assert_eq!(saved.outbound_proxy.protocol, OutboundProxyProtocol::Direct);
    assert_eq!(saved.outbound_proxy.url, None);
    assert_eq!(saved.outbound_proxy.username, None);
    assert_eq!(saved.outbound_proxy.password, None);
}

#[test]
fn proxies_are_checked_by_their_protocol() {
    let with = |p: OutboundProxy| {
        let mut rule = rule();
        rule.outbound_proxy = p;
        put_rule("docker".to_string(), rule, 1)
    };
    assert!(with(proxy(
        OutboundProxyProtocol::Http,
        Some("http://proxy:8080")
    ))
    .is_ok());
    assert!(with(proxy(
        OutboundProxyProtocol::Http,
        Some("socks5h://proxy:8080")
    ))
    .is_err());
    assert!(with(proxy(
        OutboundProxyProtocol::Socks4,
        Some("socks4://proxy:1080")
    ))
    .is_ok());
    assert!(with(proxy(
        OutboundProxyProtocol::Socks4,
        Some("http://proxy:1080")
    ))
    .is_err());
    assert!(with(proxy(
        OutboundProxyProtocol::Socks5,
        Some("socks5h://proxy:1080")
    ))
    .is_ok());
    assert!(with(proxy(
        OutboundProxyProtocol::Socks5,
        Some("http://proxy:1080")
    ))
    .is_err());
    assert_eq!(
        with(proxy(OutboundProxyProtocol::Http, Some("  ")))
            .unwrap_err()
            .message(),
        "outbound_proxy.url is required for HTTP proxy"
    );
    assert_eq!(
        with(proxy(OutboundProxyProtocol::Socks4, None))
            .unwrap_err()
            .message(),
        "outbound_proxy.url is required for SOCKS4 proxy"
    );
    assert_eq!(
        with(proxy(OutboundProxyProtocol::Socks5, None))
            .unwrap_err()
            .message(),
        "outbound_proxy.url is required for SOCKS5h proxy"
    );
}

#[test]
fn strategies_and_filters_are_checked() {
    assert!(validate_strategy(&MirrorStrategy::Latest { count: 1 }).is_ok());
    assert_eq!(
        validate_strategy(&MirrorStrategy::Latest { count: 0 })
            .unwrap_err()
            .message(),
        "strategy.count must be greater than zero"
    );
    assert_eq!(
        validate_strategy(&MirrorStrategy::Pattern {
            pattern: " ".to_string()
        })
        .unwrap_err()
        .message(),
        "strategy.pattern is required"
    );
    assert!(validate_warm_filters(&vec![WarmFilter::Never]).is_ok());
    assert_eq!(
        validate_warm_filters(&vec![WarmFilter::All, WarmFilter::Never])
            .unwrap_err()
            .message(),
        "warm_filters.none is exclusive"
    );
    assert_eq!(
        validate_warm_filters(&vec![WarmFilter::Latest {
            count: 0,
            sort_by: WarmSortBy::default()
        }])
        .unwrap_err()
        .message(),
        "warm_filters.latest.count must be greater than zero"
    );
    assert_eq!(
        validate_warm_filters(&vec![WarmFilter::Pattern {
            pattern: String::new()
        }])
        .unwrap_err()
        .message(),
        "warm_filters.pattern is required"
    );
    assert_eq!(required(" ", "id").unwrap_err().message(), "id is required");
    assert!(required("x", "id").is_ok());
}

#[test]
fn put_proxy_cache_accepts_insecure_tls_mode() {
    let mut cache = cache();
    cache.insecure_tls = true;
    let saved = put_proxy_cache("internal".to_string(), cache, 1).unwrap();
    assert!(saved.insecure_tls);
    assert!(!saved.plain_http);
    assert_eq!(saved.created_at, 5);
}

#[test]
fn get_proxy_cache_excludes_credentials_by_default() {
    let mut cache = cache();
    cache.outbound_proxy = OutboundProxy {
        protocol: OutboundProxyProtocol::Socks5,
        url: Some("socks5://127.0.0.1:1080".to_string()),
        username: Some("proxy-user".to_string()),
        password: Some("proxy-secret".to_string()),
    };
    let shown = shown_caches(&vec![cache]);
    let text = format!("{:?}", shown[0]);
    assert!(!text.contains("upstream-secret") && !text.contains("proxy-secret"));
    assert!(shown[0].username_configured && shown[0].password_configured);
}

#[test]
fn put_proxy_cache_rejects_https_proxy() {
    let mut cache = cache();
    cache.outbound_proxy = proxy(
        OutboundProxyProtocol::Https,
        Some("https://proxy.example.com:8443"),
    );
    let error = put_proxy_cache("docker".to_string(), cache, 1).unwrap_err();
    assert_eq!(error.status(), 400);
    assert!(error.message().contains("aioduct"));
}

#[test]
fn put_proxy_cache_direct_clears_proxy_details() {
    let mut cache = cache();
    cache.outbound_proxy = proxy(
        OutboundProxyProtocol::Direct,
        Some("http://proxy.example.com:8080"),
    );
    let saved = put_proxy_cache("docker".to_string(), cache, 1).unwrap();
    assert_eq!(saved.outbound_proxy, OutboundProxy::default());
}

#[test]
fn run_limits_have_a_default() {
    assert_eq!(run_limit(&query_params(None)), 20);
    assert_eq!(run_limit(&query_params(Some("limit=3"))), 3);
    assert_eq!(run_limit(&query_params(Some("limit=x"))), 20);
}

// ── Tokens ────────────────────────────────────────────────────────────────

fn selection(repository: &str, actions: &[RepositoryAction]) -> PatScopeSelection {
    PatScopeSelection {
        repository: repository.to_string(),
        actions: actions.to_vec(),
    }
}

fn ceiling(max_action: RepositoryAction) -> Option<Result<Ceiling, LayerhouseError>> {
    Some(Ok(Ceiling {
        max_action,
        pattern_max: None,
        group_max: None,
    }))
}

fn token_request(name: &str, scopes: Vec<PatScopeSelection>) -> CreatePatRequest {
    CreatePatRequest {
        name: name.to_string(),
        scopes,
        expires_in_days: None,
    }
}

/// What alice gets who asks for a token with one selection.
fn create_one(
    selection: PatScopeSelection,
    limit: Option<Result<Ceiling, LayerhouseError>>,
) -> Result<(PersonalAccessToken, CreatePatResponse), LayerhouseError> {
    create_token(
        &identity("alice"),
        &token_request("ci", vec![selection]),
        vec![limit],
        5,
    )
}

#[test]
fn create_pat_rejects_scope_exceeding_grant_ceiling() {
    let error = create_one(
        selection("team-a/worker", &[RepositoryAction::Update]),
        ceiling(RepositoryAction::Create),
    )
    .unwrap_err();
    assert_eq!(error.status(), 403);
    assert_eq!(
        error.message(),
        "cannot grant action update on repository \"team-a/worker\": your maximum grantable action is create"
    );
}

#[test]
fn create_pat_allows_exact_ceiling() {
    assert_eq!(
        create_one(
            selection("team-a/worker", &[RepositoryAction::Create]),
            ceiling(RepositoryAction::Create),
        )
        .map(|made| made.1.scopes),
        Ok(vec!["repository:team-a/worker:create".to_string()])
    );
}

#[test]
fn create_pat_allows_subset() {
    assert_eq!(
        create_one(
            selection(
                " team-a/worker ",
                &[RepositoryAction::Pull, RepositoryAction::Update]
            ),
            ceiling(RepositoryAction::Delete),
        )
        .map(|made| made.1.scopes),
        Ok(vec!["repository:team-a/worker:pull,update".to_string()])
    );
}

#[test]
fn create_pat_rejects_namespace_pattern_without_grant() {
    let error = create_one(
        selection("team-a/*", &[RepositoryAction::Pull]),
        ceiling(RepositoryAction::Pull),
    )
    .unwrap_err();
    assert_eq!(error.status(), 403);
    assert_eq!(
        error.message(),
        "cannot grant namespace-pattern scope \"team-a/*\": no matching grant pattern found"
    );
}

#[test]
fn create_pat_allows_namespace_pattern_with_matching_grant() {
    assert!(create_one(
        selection("team-a/*", &[RepositoryAction::Pull]),
        Some(Ok(Ceiling {
            max_action: RepositoryAction::Create,
            pattern_max: Some(RepositoryAction::Create),
            group_max: None,
        })),
    )
    .is_ok());
}

#[test]
fn create_pat_allows_namespace_pattern_via_group_grant() {
    assert!(create_one(
        selection("team-a/*", &[RepositoryAction::Pull]),
        Some(Ok(Ceiling {
            max_action: RepositoryAction::Delete,
            pattern_max: None,
            group_max: Some(RepositoryAction::Delete),
        })),
    )
    .is_ok());
}

#[test]
fn create_pat_rejects_cross_user_personal_namespace() {
    let error = create_one(
        selection("users/bob/app", &[RepositoryAction::Pull]),
        ceiling(RepositoryAction::Delete),
    )
    .unwrap_err();
    assert_eq!(error.status(), 403);
}

#[test]
fn create_pat_allows_own_personal_namespace() {
    assert!(create_one(
        selection("users/alice/app", &[RepositoryAction::Pull]),
        ceiling(RepositoryAction::Delete),
    )
    .is_ok());
}

#[test]
fn create_pat_requires_authentication() {
    assert_eq!(required_identity(None).unwrap_err().status(), 401);
    assert!(required_identity(Some(identity("alice"))).is_ok());
}

#[test]
fn create_pat_rejects_empty_name() {
    let error = create_token(
        &identity("alice"),
        &token_request(
            "   ",
            vec![selection("team-a/worker", &[RepositoryAction::Pull])],
        ),
        vec![ceiling(RepositoryAction::Pull)],
        5,
    )
    .unwrap_err();
    assert_eq!(error.status(), 400);
    assert_eq!(error.message(), "token name is required");
    assert!(check_token_name("ci").is_ok());
    assert_eq!(
        create_one(selection(" ", &[RepositoryAction::Pull]), None)
            .unwrap_err()
            .message(),
        "scope repository is required"
    );
    assert_eq!(
        accept_selection(
            &selection("a/b", &[]),
            &None,
            Some(Err(LayerhouseError::Denied("no".to_string())))
        )
        .unwrap_err()
        .message(),
        "no"
    );
}

#[test]
fn the_first_refused_selection_refuses_the_token() {
    let wide = selection("team-a/worker", &[RepositoryAction::Pull]);
    let narrow = selection("team-b/worker", &[RepositoryAction::Delete]);
    let blank = selection(" ", &[RepositoryAction::Pull]);
    let error = create_token(
        &identity("alice"),
        &token_request("ci", vec![wide, narrow, blank]),
        vec![
            ceiling(RepositoryAction::Delete),
            ceiling(RepositoryAction::Pull),
            None,
        ],
        5,
    )
    .unwrap_err();
    assert_eq!(
        error.message(),
        "cannot grant action delete on repository \"team-b/worker\": your maximum grantable action is pull"
    );
    let error = create_one(
        selection("a/b", &[RepositoryAction::Pull]),
        Some(Err(LayerhouseError::Denied("no".to_string()))),
    )
    .unwrap_err();
    assert_eq!(error.message(), "no");
}

#[test]
fn tokens_keep_only_their_hash_and_beginning() {
    let mut req = token_request("ci", vec![selection("a/b", &[RepositoryAction::Pull])]);
    req.expires_in_days = Some(2);
    let (token, shown) = mint_token(
        &identity("alice"),
        &req,
        vec![None],
        1000,
        "id-1".to_string(),
        &vec![0xab; 16],
    )
    .unwrap();
    let raw = shown.token;
    assert_eq!(shown.id, "id-1");
    assert_eq!(token.scopes, vec!["repository:a/b:pull".to_string()]);
    assert_eq!(raw, format!("layerhouse-{}", "ab".repeat(16)));
    assert_eq!(token.token_prefix, "layerhouse-a");
    assert_eq!(
        format!("sha256:{}", token.token_hash),
        Digest::sha256(raw.as_bytes()).to_string()
    );
    assert_eq!(token.expires_at, Some(1000 + 2 * 86400));
    assert_eq!(token.subject, "subject-alice");
    assert_eq!(token.last_used_at, None);
}

#[test]
fn create_and_list_token_round_trip() {
    let (token, created) = create_token(
        &identity("alice"),
        &token_request(
            "ci-token",
            vec![selection("team-a/worker", &[RepositoryAction::Pull])],
        ),
        vec![None],
        5,
    )
    .unwrap();
    assert_eq!(created.name, "ci-token");
    assert!(created.token.starts_with("layerhouse-"));
    assert_eq!(created.token.len(), "layerhouse-".len() + 32);
    assert!(!created.id.is_empty());
    let items = list_tokens(&vec![token]);
    assert_eq!(items.len(), 1);
    assert_eq!(items[0].name, "ci-token");
    assert_eq!(items[0].prefix, created.token[..12]);
    assert!(list_tokens(&vec![]).is_empty());
}

#[test]
fn fresh_tokens_differ() {
    let req = token_request("a", vec![]);
    let (_, a) = create_token(&identity("alice"), &req, vec![], 5).unwrap();
    let (_, b) = create_token(&identity("alice"), &req, vec![], 5).unwrap();
    assert_ne!(a.token, b.token);
    assert_ne!(a.id, b.id);
}

#[test]
fn revoke_token_deletes_and_second_revoke_returns_404() {
    assert_eq!(token_revoked(true, "t"), Ok(204));
    let error = token_revoked(false, "t").unwrap_err();
    assert_eq!(error.status(), 404);
    assert_eq!(error.message(), "token not found: t");
}

fn candidate(repository: &str, action: Option<RepositoryAction>) -> Candidate {
    Candidate {
        repository: repository.to_string(),
        access: action.map(|a| (a, GrantSource::GroupGrant)),
    }
}

fn search(q: &str) -> GrantableScopeQuery {
    GrantableScopeQuery {
        q: Some(q.to_string()),
        n: None,
        cursor: None,
    }
}

#[test]
fn grantable_scopes_excludes_cross_user_personal() {
    let answer = grantable_scopes(
        &search(""),
        &vec![
            candidate("users/alice/app", Some(RepositoryAction::Delete)),
            candidate("users/bob/app", None),
            candidate("team-a/worker", Some(RepositoryAction::Delete)),
        ],
        &vec![],
    );
    let repos: Vec<&str> = answer
        .scopes
        .iter()
        .map(|s| s.repository.as_str())
        .collect();
    assert_eq!(repos, vec!["users/alice/app", "team-a/worker"]);
}

#[test]
fn grantable_scopes_respects_search_prefix() {
    let answer = grantable_scopes(
        &search("TEAM-A"),
        &vec![
            candidate("team-a/worker", Some(RepositoryAction::Delete)),
            candidate("team-a/frontend", Some(RepositoryAction::Delete)),
            candidate("other/repo", Some(RepositoryAction::Delete)),
        ],
        &vec![],
    );
    assert_eq!(answer.scopes.len(), 2);
    assert_eq!(answer.total_matches, 2);
    assert_eq!(answer.next_cursor, None);
}

#[test]
fn grantable_scopes_derives_namespace_pattern() {
    let answer = grantable_scopes(
        &search("team-a"),
        &vec![
            candidate("team-a/worker", Some(RepositoryAction::Create)),
            candidate("team-a/frontend", Some(RepositoryAction::Create)),
        ],
        &vec![
            ("repository:team-a/*".to_string(), RepositoryAction::Pull),
            ("repository:team-b/*".to_string(), RepositoryAction::Pull),
            ("repository:team-a/*".to_string(), RepositoryAction::Create),
            ("repository:team-a/*".to_string(), RepositoryAction::Pull),
        ],
    );
    assert_eq!(answer.namespace_patterns.len(), 2);
    let first = &answer.namespace_patterns[0];
    assert_eq!(first.pattern, "repository:team-a/*");
    assert_eq!(first.max_grantable, RepositoryAction::Create);
    assert_eq!(first.current_match_count, 2);
    assert_eq!(answer.namespace_patterns[1].current_match_count, 0);
}

#[test]
fn grantable_scopes_are_paged() {
    let all = vec![
        candidate("a", Some(RepositoryAction::Pull)),
        candidate("b", Some(RepositoryAction::Pull)),
        candidate("c", Some(RepositoryAction::Pull)),
    ];
    let mut query = search("");
    query.n = Some(2);
    let first = grantable_scopes(&query, &all, &vec![]);
    assert_eq!(first.scopes.len(), 2);
    assert_eq!(first.next_cursor.as_deref(), Some("b"));
    query.cursor = first.next_cursor;
    let second = grantable_scopes(&query, &all, &vec![]);
    assert_eq!(second.scopes.len(), 1);
    assert_eq!(second.scopes[0].repository, "c");
    assert_eq!(second.next_cursor, None);
}

// ── Namespaces ────────────────────────────────────────────────────────────

fn namespace(handle: &str, owner: &str) -> Namespace {
    Namespace {
        handle: handle.to_string(),
        owner: Owner::User(Subject::new(format!("subject-{owner}"))),
        owner_label: owner.to_string(),
        created_at: 3,
    }
}

#[test]
fn claim_and_get_namespace() {
    let shown = namespace_response(&namespace("acme", "alice"));
    assert_eq!(shown.handle, "acme");
    assert_eq!(shown.owner_kind, "user");
    assert_eq!(claim_label(&None, &identity("alice")), "alice");
    assert_eq!(
        claim_label(&Some("Team".to_string()), &identity("alice")),
        "Team"
    );
    let mut nobody = identity("alice");
    nobody.username = None;
    assert_eq!(claim_label(&None, &nobody), "unknown");
}

#[test]
fn account_namespaces_requires_auth() {
    assert_eq!(require_auth(true, None).unwrap_err().status(), 401);
    assert_eq!(
        require_auth(false, None).unwrap_err(),
        LayerhouseError::Internal("auth is not configured".to_string())
    );
    let caller = identity("alice");
    assert_eq!(
        require_auth(true, Some(&caller)).unwrap().subject,
        "subject-alice"
    );
}

#[test]
fn account_namespaces_returns_current_user_claims() {
    let all = vec![namespace("acme", "alice"), namespace("other", "bob")];
    let mine = list_namespaces(&all, Some("subject-alice"));
    assert_eq!(mine.len(), 1);
    assert_eq!(mine[0].handle, "acme");
    assert_eq!(mine[0].owner_kind, "user");
    assert_eq!(list_namespaces(&all, None).len(), 2);
}

#[test]
fn non_owner_cannot_manage_account_namespace_grants() {
    assert!(require_namespace_owner(
        Some(namespace("acme", "alice")),
        &identity("alice"),
        "acme"
    )
    .is_ok());
    let error =
        require_namespace_owner(Some(namespace("acme", "alice")), &identity("bob"), "acme")
            .unwrap_err();
    assert_eq!(error.status(), 403);
    assert_eq!(
        error.message(),
        "namespace \"acme\" is not owned by the caller"
    );
    assert_eq!(
        existing_namespace(None, "acme").unwrap_err().message(),
        "namespace \"acme\" not found"
    );
}

#[test]
fn admin_grant_mutations_require_reason() {
    assert_eq!(normalized_reason(None, true).unwrap_err().status(), 400);
    assert_eq!(
        normalized_reason(Some(" support request "), true),
        Ok("support request".to_string())
    );
    assert_eq!(
        normalized_reason(Some("  "), false),
        Ok("owner change".to_string())
    );
}

fn change(reason: &str, before: Option<NamespaceGrant>) -> NamespaceGrantAuditEvent {
    NamespaceGrantAuditEvent {
        id: format!("audit of {reason}"),
        namespace: "acme".to_string(),
        grant_id: Some("g1".to_string()),
        operation: "put".to_string(),
        actor: Subject::new("subject-admin".to_string()),
        actor_label: "admin".to_string(),
        reason: reason.to_string(),
        before,
        after: None,
        created_at: 7,
    }
}

#[test]
fn grant_audit_lists_every_change_with_its_reason() {
    let grant = NamespaceGrant {
        id: "g1".to_string(),
        namespace: "acme".to_string(),
        grantee: group("dev"),
        action: RepositoryAction::Pull,
        label: "dev".to_string(),
        created_by: "subject-admin".to_string(),
        created_at: 5,
        updated_by: "subject-admin".to_string(),
        updated_at: 5,
    };
    let audit = list_namespace_grant_audit(&vec![
        change("support request", None),
        change("no longer needed", Some(grant)),
    ]);
    assert_eq!(audit.len(), 2);
    assert_eq!(audit[0].reason, "support request");
    assert_eq!(audit[0].actor, "subject-admin");
    assert_eq!(audit[0].grant_id.as_deref(), Some("g1"));
    assert_eq!(audit[0].operation, "put");
    assert!(audit[0].before.is_none());
    assert_eq!(audit[1].reason, "no longer needed");
    assert_eq!(audit[1].before.as_ref().unwrap().label, "dev");
    assert_eq!(audit[1].created_at, 7);
    assert!(list_namespace_grant_audit(&vec![]).is_empty());
}

fn group(id: &str) -> NamespaceGrantGrantee {
    NamespaceGrantGrantee::Group { id: id.to_string() }
}

#[test]
fn owner_can_manage_namespace_grants() {
    let request = PutNamespaceGrantRequest {
        grantee: NamespaceGrantGranteeRequest::Group {
            id: "test:group:1".to_string(),
        },
        action: Some(RepositoryAction::Create),
        label: Some(" ".to_string()),
        reason: None,
    };
    let grantee = request
        .grantee
        .clone()
        .into_grantee(Ok("test:group:1".to_string()))
        .unwrap();
    let grant = new_grant(
        &identity("alice"),
        "acme",
        &grantee,
        &request,
        &vec![],
        "group 1".to_string(),
        10,
    )
    .unwrap();
    assert!(matches!(
        &grant.grantee,
        NamespaceGrantGrantee::Group { id } if id == "test:group:1"
    ));
    assert_eq!(grant.action, RepositoryAction::Create);
    assert_eq!(grant.label, "group 1");
    assert_eq!(grant.id.len(), 36);
    let grants = vec![grant];
    let again = new_grant(
        &identity("alice"),
        "acme",
        &grantee,
        &request,
        &grants,
        "group 1".to_string(),
        11,
    )
    .unwrap();
    assert_eq!(again.id, grants[0].id);
    assert!(matching_grant(&grants, &group("test:group:2")).is_none());
    let patched = patch_grant(
        &identity("bob"),
        Some(again),
        "id",
        &PatchNamespaceGrantRequest {
            action: Some(RepositoryAction::Update),
            label: Some(" Builders ".to_string()),
            reason: None,
        },
        20,
    )
    .unwrap();
    assert_eq!(patched.action, RepositoryAction::Update);
    assert_eq!(patched.label, "Builders");
    assert_eq!(patched.created_by, "subject-alice");
    assert_eq!(patched.updated_by, "subject-bob");
    assert_eq!(patched.updated_at, 20);
    assert_eq!(grant_deleted(true, "id"), Ok(204));
    assert_eq!(
        grant_deleted(false, "id").unwrap_err().message(),
        "namespace grant \"id\" not found"
    );
}

#[test]
fn grantees_are_read_from_their_ids() {
    let user = NamespaceGrantGranteeRequest::User {
        id: "no provider".to_string(),
    };
    let unread = || Err(LayerhouseError::NameInvalid("no such provider".to_string()));
    assert_eq!(
        user.clone().into_grantee(unread()).unwrap_err(),
        LayerhouseError::NameInvalid("no such provider".to_string())
    );
    assert!(matches!(
        user.into_grantee(Ok("test:user:user-2".to_string())),
        Ok(NamespaceGrantGrantee::User { id }) if id == "test:user:user-2"
    ));
    assert!(matches!(
        NamespaceGrantGranteeRequest::Public.into_grantee(unread()),
        Ok(NamespaceGrantGrantee::Public)
    ));
}

#[test]
fn the_public_can_only_pull() {
    assert_eq!(
        public_safe_action(
            &NamespaceGrantGrantee::Public,
            Some(RepositoryAction::Delete)
        ),
        Ok(RepositoryAction::Pull)
    );
    assert_eq!(
        public_safe_action(&group("g"), Some(RepositoryAction::Delete)),
        Ok(RepositoryAction::Delete)
    );
    let error = public_safe_action(&group("g"), None).unwrap_err();
    assert_eq!(error.status(), 400);
    assert_eq!(
        error.message(),
        "namespace grants only support repository actions"
    );
}

#[test]
fn releases_may_name_a_new_handle() {
    assert!(matches!(
        release_reason(Some(" acme2 ")),
        ReleaseReason::Renamed { new_handle } if new_handle == "acme2"
    ));
    assert!(matches!(
        release_reason(Some(" ")),
        ReleaseReason::OwnerDeleted
    ));
    assert!(matches!(release_reason(None), ReleaseReason::OwnerDeleted));
}

#[test]
fn actors_are_named_by_what_is_known_of_them() {
    let mut who = identity("alice");
    assert_eq!(actor_label(&who), "alice");
    who.display_name = Some("Alice A.".to_string());
    assert_eq!(actor_label(&who), "Alice A.");
    who.display_name = None;
    who.username = None;
    assert_eq!(actor_label(&who), "subject-alice");
    who.email = Some("a@example.com".to_string());
    assert_eq!(actor_label(&who), "a@example.com");
}

fn seen(subject: &str, username: Option<&str>, last_seen_at: u64) -> ObservedIdentity {
    ObservedIdentity {
        subject: subject.to_string(),
        username: username.map(str::to_string),
        display_name: None,
        email: None,
        groups: vec![],
        last_seen_at,
    }
}

#[test]
fn observed_users_are_searched() {
    let users = vec![
        seen("s1", Some("Alice"), 5),
        seen("s3", Some("Alicia"), 9),
        seen("s2", None, 9),
    ];
    let found = |q: &str, limit: usize| -> Vec<String> {
        search_observed_identities(&users, q, limit)
            .iter()
            .map(|u| u.subject.clone())
            .collect()
    };
    assert_eq!(found(" ALI ", 10), vec!["s3", "s1"]);
    assert_eq!(found("", 10), vec!["s2", "s3", "s1"]);
    assert_eq!(found("", 1), vec!["s2"]);
    assert_eq!(user_limit(None), 20);
    assert_eq!(user_limit(Some(0)), 1);
    assert_eq!(user_limit(Some(80)), 50);
}

// ── Claims and releases ───────────────────────────────────────────────────

#[test]
fn claim_reserved_handle_rejected() {
    let error = claim_request(&identity("alice"), "users", &None, false, 1).unwrap_err();
    assert_eq!(error.status(), 400);
    assert_eq!(error.message(), "handle \"users\" is reserved");
    assert!(claim_request(&identity("alice"), "users", &None, true, 1).is_err());
    assert!(claim_request(&identity("alice"), "user", &None, false, 1).is_ok());
}

#[test]
fn non_owner_cannot_release() {
    let mut data = StateMachineData::default();
    let claim = claim_request(&identity("alice"), "acme", &None, false, 1).unwrap();
    let response = StateMachine::apply_request(&mut data, Request::Namespace(claim));
    assert!(matches!(
        response,
        Response::Namespace(NamespaceResponse::Done)
    ));
    let acme = data.namespaces.get("acme");
    assert_eq!(acme.unwrap().owner_label, "alice");

    let error = release_request(acme, &identity("bob"), "acme", None, 2).unwrap_err();
    assert_eq!(error.status(), 403);

    let release = release_request(acme, &identity("alice"), "acme", None, 2).unwrap();
    let response = StateMachine::apply_request(&mut data, Request::Namespace(release));
    assert!(matches!(
        response,
        Response::Namespace(NamespaceResponse::Done)
    ));
    assert!(data.namespaces.get("acme").is_none());
    let tombstone = data.released_handles.get("acme").unwrap();
    assert!(matches!(
        tombstone.release_reason,
        ReleaseReason::OwnerDeleted
    ));

    let again = release_request(None, &identity("alice"), "acme", Some(" acme2 "), 3).unwrap();
    let response = StateMachine::apply_request(&mut data, Request::Namespace(again));
    assert!(matches!(response, Response::Error(_)));
}

#[test]
fn list_tokens_returns_empty_for_new_user() {
    let data = StateMachineData::default();
    let alice = required_identity(Some(identity("alice"))).unwrap();
    let tokens = data.list_personal_access_tokens(&alice.subject);
    assert!(list_tokens(&tokens).is_empty());
}

#[test]
fn list_tokens_requires_authentication() {
    assert_eq!(required_identity(None).unwrap_err().status(), 401);
}
