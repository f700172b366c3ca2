use layerhouse::auth::grants::{GrantSource, RepositoryAction};
use layerhouse::auth::token::{AuthIdentity, TokenType};
use layerhouse::error::LayerhouseError;
use layerhouse::oci::json::Json;
use layerhouse::raft::membership::{ClusterStatus, NodeInfo, NodeState};
use layerhouse::routes::cluster_view::{dashboard_status_from_raw, status_source};
use layerhouse::routes::dashboard_api::{
    in_personal_namespace, link_header, list_manifests, list_repositories, page_size,
    parse_rfc3339_epoch, search_blob, type_matches, visible_repositories,
    EnrichedRepositorySummary, ManifestQuery, OwnershipFilter, RepositoryQuery,
};
use layerhouse::routes::globs::glob_matches;
use layerhouse::routes::repositories::{
    create_repository, find_manifest, manifest_access, parse_digests, patch_repository, raw_manifest,
    read_target, repository_dispatch, requested_name, require_caller, tag_deleted, RepositoryCall,
};
use layerhouse::routes::repository_names::validate_repository_name;
use layerhouse::routes::session_api::{
    extract_cookie_value, get_session, logout_session, token_type_name,
};
use layerhouse::store::metadata::types::{
    ManifestEntry, ManifestSummary, Repository, RepositorySummary, Visibility,
};
use std::collections::BTreeMap;

fn identity() -> AuthIdentity {
    AuthIdentity {
        subject: "subject-alice".to_string(),
        username: Some("alice".to_string()),
        display_name: None,
        email: None,
        groups: vec![],
        scopes: vec![],
        token_type: TokenType::Session,
    }
}

fn manifest_summary(artifact_type: Option<&str>, media_type: &str) -> ManifestSummary {
    ManifestSummary {
        digest: "sha256:abc".to_string(),
        media_type: media_type.to_string(),
        artifact_type: artifact_type.map(ToString::to_string),
        stored_size_bytes: 1,
        manifest_size_bytes: 2,
        created_at: 1,
        last_modified: 1,
        tags: vec!["latest".to_string()],
        subject: None,
        annotations: None,
        config_summary: None,
        body: Json::Null,
    }
}

// ── Manifests ─────────────────────────────────────────────────────────────

#[test]
fn manifest_type_filter_uses_artifact_kind_not_manifest_envelope() {
    let image = manifest_summary(
        Some("application/vnd.oci.image.config.v1+json"),
        "application/vnd.oci.image.manifest.v1+json",
    );
    let helm = manifest_summary(
        Some("application/vnd.cncf.helm.config.v1+json"),
        "application/vnd.oci.image.manifest.v1+json",
    );
    let wasm = manifest_summary(
        Some("application/vnd.module.wasm.config.v1+json"),
        "application/vnd.oci.image.manifest.v1+json",
    );
    let unknown = manifest_summary(
        Some("application/vnd.example.unknown.config.v1+json"),
        "application/vnd.oci.image.manifest.v1+json",
    );

    assert!(type_matches(&image, "image"));
    assert!(!type_matches(&helm, "image"));
    assert!(type_matches(&helm, "helm"));
    assert!(type_matches(&wasm, "wasm"));
    assert!(type_matches(&unknown, "unknown"));
    assert!(!type_matches(&unknown, "artifact"));
}

#[test]
fn manifest_search_includes_annotations() {
    let mut item = manifest_summary(
        Some("application/vnd.module.wasm.config.v1+json"),
        "application/vnd.oci.image.manifest.v1+json",
    );
    item.annotations = Some(Json::Object(vec![
        (
            "module".to_string(),
            Json::Text("edge-filter".to_string()),
        ),
        ("runtime".to_string(), Json::Text("wasi".to_string())),
    ]));

    assert!(search_blob(&item).contains("edge-filter"));
    assert!(search_blob(&item).ends_with(r#"{"module":"edge-filter","runtime":"wasi"}"#));
}

#[test]
fn parses_rfc3339_manifest_filter_bounds() {
    assert_eq!(
        parse_rfc3339_epoch("2026-05-01T00:00:00Z", "created_after").unwrap(),
        1_777_593_600
    );
    assert!(parse_rfc3339_epoch("not-a-date", "created_after").is_err());
    assert!(parse_rfc3339_epoch("1969-12-31T23:59:59Z", "created_after").is_err());
}

fn any_manifest() -> ManifestQuery {
    ManifestQuery {
        n: None,
        last: None,
        q: None,
        kind: None,
        tag: None,
        tagged: None,
        platform: None,
        media_type: None,
        stored_size_min: None,
        stored_size_max: None,
        created_after: None,
        created_before: None,
        sort: None,
    }
}

fn listed(digest: &str, created_at: u64, size: u64, tags: &[&str]) -> ManifestSummary {
    ManifestSummary {
        digest: digest.to_string(),
        created_at,
        last_modified: created_at,
        stored_size_bytes: size,
        tags: tags.iter().map(|t| t.to_string()).collect(),
        ..manifest_summary(None, "application/vnd.oci.image.manifest.v1+json")
    }
}

fn digests(items: &[ManifestSummary]) -> Vec<&str> {
    items.iter().map(|m| m.digest.as_str()).collect()
}

#[test]
fn manifest_created_date_filters_apply_to_digest_rows() {
    let items = vec![
        listed("sha256:old", 1_777_507_200, 1, &["old"]),
        listed("sha256:new", 1_777_680_000, 1, &["new"]),
    ];
    let query = ManifestQuery {
        created_after: Some("2026-05-01T00:00:00Z".to_string()),
        ..any_manifest()
    };
    let page = list_manifests("team/app", &items, &query).unwrap();
    assert_eq!(page.total, 1);
    assert_eq!(digests(&page.manifests), vec!["sha256:new"]);
    let query = ManifestQuery {
        created_before: Some("nonsense".to_string()),
        ..any_manifest()
    };
    assert_eq!(
        list_manifests("team/app", &items, &query)
            .unwrap_err()
            .status(),
        400
    );
}

#[test]
fn manifests_are_sorted_filtered_and_paged() {
    let items = vec![
        listed("sha256:a", 1, 30, &[]),
        listed("sha256:b", 3, 10, &["v1", "v2"]),
        listed("sha256:c", 2, 20, &["latest"]),
    ];
    let by = |sort: &str| ManifestQuery {
        sort: Some(sort.to_string()),
        ..any_manifest()
    };
    let page = list_manifests("app", &items, &any_manifest()).unwrap();
    assert_eq!(
        digests(&page.manifests),
        vec!["sha256:b", "sha256:c", "sha256:a"]
    );
    let page = list_manifests("app", &items, &by("stored_size_desc")).unwrap();
    assert_eq!(
        digests(&page.manifests),
        vec!["sha256:a", "sha256:c", "sha256:b"]
    );
    let page = list_manifests("app", &items, &by("tag_count_desc")).unwrap();
    assert_eq!(
        digests(&page.manifests),
        vec!["sha256:b", "sha256:c", "sha256:a"]
    );
    let tagged = ManifestQuery {
        tagged: Some(false),
        ..any_manifest()
    };
    let page = list_manifests("app", &items, &tagged).unwrap();
    assert_eq!(digests(&page.manifests), vec!["sha256:a"]);
    let glob = ManifestQuery {
        tag: Some("v*".to_string()),
        ..any_manifest()
    };
    let page = list_manifests("app", &items, &glob).unwrap();
    assert_eq!(digests(&page.manifests), vec!["sha256:b"]);
    let sized = ManifestQuery {
        stored_size_min: Some(15),
        stored_size_max: Some(25),
        ..any_manifest()
    };
    let page = list_manifests("app", &items, &sized).unwrap();
    assert_eq!(digests(&page.manifests), vec!["sha256:c"]);
    let first = ManifestQuery {
        n: Some(2),
        ..any_manifest()
    };
    let page = list_manifests("app", &items, &first).unwrap();
    assert!(page.has_more);
    assert_eq!(
        page.next.as_deref(),
        Some("/api/v1/repositories/app/manifests?n=2&last=sha256:c")
    );
    let second = ManifestQuery {
        last: Some("sha256:c".to_string()),
        ..first
    };
    let page = list_manifests("app", &items, &second).unwrap();
    assert!(!page.has_more);
    assert_eq!(digests(&page.manifests), vec!["sha256:a"]);
}

#[test]
fn find_manifest_names_what_is_missing() {
    let items = vec![listed("sha256:a", 1, 30, &[])];
    assert_eq!(find_manifest(&items, "sha256:a").unwrap().digest, "sha256:a");
    assert_eq!(
        find_manifest(&items, "sha256:b").unwrap_err(),
        LayerhouseError::ManifestUnknown("sha256:b".to_string())
    );
}

fn stored(body: &[u8]) -> ManifestEntry {
    ManifestEntry {
        digest: layerhouse::oci::digest::Digest::sha256(body),
        content_type: "application/vnd.oci.image.manifest.v1+json".to_string(),
        body: body.to_vec(),
        referenced_blobs: vec![],
        subject: None,
        artifact_type: None,
        annotations: None,
        stored_size_bytes: 0,
        manifest_size_bytes: body.len() as u64,
        created_at: 1,
        last_modified: 1,
        config_summary: None,
    }
}

#[test]
fn raw_manifest_is_the_stored_document() {
    assert_eq!(
        raw_manifest(Some(stored(b"[true]")), "d").unwrap(),
        Json::List(vec![Json::Bool(true)])
    );
    assert_eq!(raw_manifest(None, "d").unwrap_err().status(), 404);
    assert!(matches!(
        raw_manifest(Some(stored(b"[")), "d").unwrap_err(),
        LayerhouseError::Serialization(_)
    ));
}

#[test]
fn the_first_bad_digest_is_named() {
    let good = format!("sha256:{:064x}", 1);
    assert_eq!(parse_digests(&vec![good.clone()]).unwrap().len(), 1);
    assert_eq!(
        parse_digests(&vec![good, "bad".to_string(), "worse".to_string()]).unwrap_err(),
        LayerhouseError::DigestInvalid("bad".to_string())
    );
    assert_eq!(tag_deleted(true, "v1"), Ok(204));
    assert_eq!(
        tag_deleted(false, "v1"),
        Err(LayerhouseError::NameUnknown("v1".to_string()))
    );
}

#[test]
fn access_without_accounts_is_complete() {
    assert_eq!(
        manifest_access(false, None),
        (Some(GrantSource::Public), Some(RepositoryAction::Delete))
    );
    assert_eq!(manifest_access(true, None), (None, None));
    assert_eq!(
        manifest_access(true, Some((RepositoryAction::Pull, GrantSource::GroupGrant))),
        (Some(GrantSource::GroupGrant), Some(RepositoryAction::Pull))
    );
}

// ── Repositories ──────────────────────────────────────────────────────────

#[test]
fn validates_repository_names() {
    assert!(validate_repository_name("team-a/app").is_ok());
    assert!(validate_repository_name("users/alice/my_app").is_ok());
    assert!(validate_repository_name("a/b/c.d/e__f").is_ok());
    assert!(validate_repository_name("library/ubuntu").is_ok());

    assert!(validate_repository_name("").is_err());
    assert!(validate_repository_name("Team-A/app").is_err()); // uppercase
    assert!(validate_repository_name("team-a/").is_err()); // empty component
    assert!(validate_repository_name("/team-a").is_err());
    assert!(validate_repository_name("team-a//app").is_err());
    assert!(validate_repository_name(".app").is_err()); // leading separator
    assert!(validate_repository_name("app.").is_err()); // trailing separator
    assert!(validate_repository_name("a..b").is_err()); // double dot
    assert!(validate_repository_name("a___b").is_err()); // triple underscore
}

#[test]
fn calls_on_repositories_are_told_apart() {
    let name = || "team/app".to_string();
    let digest = || "sha256:abc".to_string();
    assert_eq!(
        repository_dispatch("POST", "team/app/manifests:batch-delete").unwrap(),
        RepositoryCall::BatchDelete { name: name() }
    );
    assert_eq!(
        repository_dispatch("PATCH", "team/app/").unwrap(),
        RepositoryCall::Patch { name: name() }
    );
    assert_eq!(
        repository_dispatch("DELETE", "team/app").unwrap(),
        RepositoryCall::DeleteRepository { name: name() }
    );
    assert_eq!(
        repository_dispatch("GET", "team/app/manifests").unwrap(),
        RepositoryCall::ListManifests { name: name() }
    );
    assert_eq!(
        repository_dispatch("GET", "team/app/manifests/sha256:abc").unwrap(),
        RepositoryCall::GetManifest {
            name: name(),
            digest: digest()
        }
    );
    assert_eq!(
        repository_dispatch("DELETE", "team/app/manifests/sha256:abc").unwrap(),
        RepositoryCall::DeleteManifest {
            name: name(),
            digest: digest()
        }
    );
    assert_eq!(
        repository_dispatch("GET", "team/app/manifests/sha256:abc/raw").unwrap(),
        RepositoryCall::RawManifest {
            name: name(),
            digest: digest()
        }
    );
    assert_eq!(
        repository_dispatch("DELETE", "team/app/manifests/sha256:abc/tags/v1%2Fx").unwrap(),
        RepositoryCall::DeleteTag {
            name: name(),
            digest: digest(),
            tag: "v1/x".to_string()
        }
    );
    assert_eq!(
        repository_dispatch("GET", "team/app").unwrap_err(),
        LayerhouseError::NameUnknown("team/app".to_string())
    );
    assert_eq!(
        repository_dispatch("PUT", "team/app/manifests").unwrap_err(),
        LayerhouseError::Unsupported("method not allowed".to_string())
    );
    assert_eq!(read_target("GET", "team/app/manifests/x"), Some(name()));
    assert_eq!(read_target("DELETE", "team/app/manifests/x"), None);
}

#[test]
fn create_repository_in_personal_namespace_succeeds() {
    let name = requested_name(" users/alice/app ").unwrap();
    assert_eq!(name, "users/alice/app");
    let owner = require_caller(true, &Some(identity())).unwrap();
    let repo =
        create_repository(name, " mine ", Visibility::Private, owner, false, 9).unwrap();
    assert_eq!(repo.name, "users/alice/app");
    assert_eq!(repo.description, "mine");
    assert_eq!(repo.owner.as_deref(), Some("subject-alice"));
    assert_eq!(repo.created_at, 9);
    assert!(in_personal_namespace("alice", "users/alice/app"));
    assert!(!in_personal_namespace("bob", "users/alice/app"));
}

#[test]
fn create_repository_conflict_when_exists() {
    let error = create_repository(
        "team/app".to_string(),
        "",
        Visibility::Private,
        None,
        true,
        1,
    )
    .unwrap_err();
    assert_eq!(error.status(), 409);
    assert_eq!(error.message(), "repository already exists: team/app");
}

#[test]
fn create_repository_requires_identity_when_auth_enabled() {
    assert_eq!(require_caller(true, &None).unwrap_err().status(), 401);
    assert_eq!(require_caller(false, &None), Ok(None));
    assert_eq!(requested_name("Bad Name").unwrap_err().status(), 400);
}

fn repository() -> Repository {
    Repository {
        name: "team/app".to_string(),
        description: "old".to_string(),
        owner: Some("subject-alice".to_string()),
        visibility: Visibility::PublicPull,
        created_at: 3,
    }
}

#[test]
fn patch_repository_updates_metadata_for_owner() {
    let repo = patch_repository(
        Some(repository()),
        "team/app",
        Some(" new ".to_string()),
        Some(Visibility::Private),
    )
    .unwrap();
    assert_eq!(repo.description, "new");
    assert_eq!(repo.visibility, Visibility::Private);
    assert_eq!(repo.created_at, 3);
    let same = patch_repository(Some(repository()), "team/app", None, None).unwrap();
    assert_eq!(same.description, "old");
    assert_eq!(same.visibility, Visibility::PublicPull);
}

#[test]
fn patch_repository_missing_metadata_returns_not_found() {
    let error = patch_repository(None, "team/app", None, None).unwrap_err();
    assert_eq!(error.status(), 404);
    assert_eq!(error.message(), "team/app");
}

fn summary(name: &str, last_modified: u64, tags: usize) -> RepositorySummary {
    RepositorySummary {
        name: name.to_string(),
        tag_count: tags,
        manifest_count: 1,
        stored_size_bytes: 10,
        manifest_size_bytes: 2,
        last_modified,
        description: String::new(),
        owner: None,
        visibility: Visibility::Private,
    }
}

fn repositories() -> Vec<EnrichedRepositorySummary> {
    vec![
        EnrichedRepositorySummary::open_to_all(summary("users/alice/app", 100, 1)),
        EnrichedRepositorySummary::open_to_all(summary("team/b", 300, 5)),
        EnrichedRepositorySummary::from_summary(
            summary("team/a", 200, 2),
            RepositoryAction::Pull,
            GrantSource::GroupGrant,
        ),
    ]
}

fn any_repository() -> RepositoryQuery {
    RepositoryQuery {
        n: None,
        last: None,
        q: None,
        recency: None,
        sort: None,
        filter: OwnershipFilter::All,
    }
}

fn names(items: &[EnrichedRepositorySummary]) -> Vec<&str> {
    items.iter().map(|r| r.name.as_str()).collect()
}

#[test]
fn repositories_without_a_grant_are_not_visible() {
    let all = vec![
        summary("team/a", 100, 1),
        summary("team/b", 200, 1),
        summary("team/c", 300, 1),
    ];
    let access = Some(vec![
        Some((RepositoryAction::Pull, GrantSource::GroupGrant)),
        None,
        Some((RepositoryAction::Delete, GrantSource::Public)),
    ]);
    let seen = visible_repositories(&all, &access);
    assert_eq!(names(&seen), vec!["team/a", "team/c"]);
    assert_eq!(seen[0].access_level, RepositoryAction::Pull);
    assert_eq!(seen[0].grant_source, GrantSource::GroupGrant);
    assert_eq!(seen[1].max_grantable, RepositoryAction::Delete);
    assert!(visible_repositories(&all, &Some(vec![None, None, None])).is_empty());
    let open = visible_repositories(&all, &None);
    assert_eq!(names(&open), vec!["team/a", "team/b", "team/c"]);
    assert_eq!(open[1].access_level, RepositoryAction::Delete);
    assert_eq!(open[1].grant_source, GrantSource::Public);
}

#[test]
fn list_repositories_mine_filter() {
    let query = RepositoryQuery {
        filter: OwnershipFilter::Mine,
        ..any_repository()
    };
    let page = list_repositories(&repositories(), &query, Some("alice".to_string()), 400);
    assert_eq!(names(&page.repositories), vec!["users/alice/app"]);
}

#[test]
fn list_repositories_shared_filter() {
    let query = RepositoryQuery {
        filter: OwnershipFilter::Shared,
        ..any_repository()
    };
    let page = list_repositories(&repositories(), &query, Some("alice".to_string()), 400);
    assert_eq!(names(&page.repositories), vec!["team/b", "team/a"]);
}

#[test]
fn list_repositories_empty() {
    let page = list_repositories(&vec![], &any_repository(), None, 1);
    assert!(page.repositories.is_empty());
    assert_eq!(page.total_reachable, 0);
    assert!(!page.has_more);
    assert_eq!(page.next_cursor, None);
}

#[test]
fn list_repositories_includes_access_metadata() {
    let query = RepositoryQuery {
        q: Some("TEAM/A".to_string()),
        ..any_repository()
    };
    let page = list_repositories(&repositories(), &query, None, 400);
    assert_eq!(page.repositories.len(), 1);
    assert_eq!(page.repositories[0].access_level, RepositoryAction::Pull);
    assert_eq!(page.repositories[0].grant_source, GrantSource::GroupGrant);
}

#[test]
fn repositories_are_sorted_and_paged() {
    let by = |sort: &str| RepositoryQuery {
        sort: Some(sort.to_string()),
        ..any_repository()
    };
    let page = list_repositories(&repositories(), &by("name_asc"), None, 400);
    assert_eq!(
        names(&page.repositories),
        vec!["team/a", "team/b", "users/alice/app"]
    );
    let page = list_repositories(&repositories(), &by("tag_count_desc"), None, 400);
    assert_eq!(
        names(&page.repositories),
        vec!["team/b", "team/a", "users/alice/app"]
    );
    let page = list_repositories(&repositories(), &by("updated_asc"), None, 400);
    assert_eq!(
        names(&page.repositories),
        vec!["users/alice/app", "team/a", "team/b"]
    );
    let first = RepositoryQuery {
        n: Some(1),
        ..any_repository()
    };
    let page = list_repositories(&repositories(), &first, None, 400);
    assert_eq!(names(&page.repositories), vec!["team/b"]);
    assert_eq!(page.total_reachable, 3);
    assert!(page.has_more);
    assert_eq!(
        page.next_cursor.as_deref(),
        Some("/api/v1/repositories?n=1&last=team/b")
    );
    assert_eq!(
        link_header(page.has_more, &page.next_cursor).as_deref(),
        Some("</api/v1/repositories?n=1&last=team/b>; rel=\"next\"")
    );
    assert_eq!(link_header(false, &page.next_cursor), None);
}

#[test]
fn page_sizes_stay_within_limits() {
    assert_eq!(page_size(None), 50);
    assert_eq!(page_size(Some(0)), 1);
    assert_eq!(page_size(Some(7)), 7);
    assert_eq!(page_size(Some(1000)), 200);
}

#[test]
fn globs_match_whole_names() {
    assert!(glob_matches("v*", "v1"));
    assert!(glob_matches("*", ""));
    assert!(glob_matches("a*c", "abbc"));
    assert!(!glob_matches("a?c", "abc"));
    assert!(!glob_matches("v", "v1"));
    assert!(!glob_matches("v*x", "v1"));
}

// ── Cluster ───────────────────────────────────────────────────────────────

fn node(id: u64) -> NodeInfo {
    NodeInfo {
        id,
        addr: format!("node-{id}:5051"),
    }
}

fn cluster() -> ClusterStatus {
    ClusterStatus {
        node_id: 1,
        state: NodeState::Leader,
        leader_id: Some(1),
        leader_addr: Some("node-1:5051".to_string()),
        voters: vec![node(1), node(2), node(3)],
        learners: vec![node(4)],
        term: 4,
        last_log_index: Some(12),
        last_applied_log: Some(10),
        last_membership_log_id: Some(1),
        millis_since_quorum_ack: None,
        replication: BTreeMap::from([(2, Some(10)), (3, Some(7))]),
    }
}

#[test]
fn the_cluster_is_shown_by_its_members() {
    let shown = dashboard_status_from_raw(&cluster(), 77);
    assert_eq!(shown.cluster_id, "layerhouse-1");
    assert_eq!(shown.quorum, 2);
    assert_eq!(shown.healthy_voters, 2);
    assert_eq!(shown.updated_at, 77);
    assert_eq!(shown.voters[0].role, "leader");
    assert_eq!(shown.voters[0].commit_index, Some(10));
    assert_eq!(shown.voters[0].replication_lag_ms, Some(0));
    assert_eq!(shown.voters[1].status, "healthy");
    assert_eq!(shown.voters[2].status, "lagging");
    assert_eq!(shown.voters[2].commit_index, Some(7));
    assert_eq!(shown.voters[2].replication_lag_ms, Some(3));
    assert_eq!(shown.learners[0].role, "learner");
    assert_eq!(shown.learners[0].replication_lag_ms, None);
}

#[test]
fn followers_ask_the_leader() {
    assert_eq!(status_source(&cluster()), None);
    let mut follower = cluster();
    follower.state = NodeState::Follower;
    assert_eq!(
        status_source(&follower).map(String::as_str),
        Some("node-1:5051")
    );
    follower.leader_addr = None;
    assert_eq!(status_source(&follower), None);
}

// ── Sessions ──────────────────────────────────────────────────────────────

#[test]
fn sessions_say_who_is_logged_in() {
    let session = get_session(true, Some(identity()), false).unwrap();
    assert!(session.auth_enabled);
    assert_eq!(session.subject.as_deref(), Some("subject-alice"));
    assert_eq!(session.token_type.as_deref(), Some("session"));
    assert!(!session.is_admin);
    let open = get_session(false, None, false).unwrap();
    assert!(!open.auth_enabled);
    assert_eq!(open.subject, None);
    assert!(open.is_admin);
    assert_eq!(get_session(true, None, false).unwrap_err().status(), 401);
    assert_eq!(token_type_name(TokenType::KanidmAccess), "oidc_access");
}

#[test]
fn logout_ends_the_session() {
    assert_eq!(
        extract_cookie_value("a=1; layerhouse_logout_hint=jwt", "layerhouse_logout_hint").as_deref(),
        Some("jwt")
    );
    let reply = logout_session(&None, &None, "HttpOnly");
    let headers: Vec<(&str, &str)> = reply
        .headers
        .iter()
        .map(|(name, value)| (name.as_str(), value.as_str()))
        .collect();
    assert_eq!(reply.status, 307);
    assert_eq!(
        headers,
        vec![
            ("location", "/"),
            (
                "set-cookie",
                "layerhouse_session=; HttpOnly; Path=/; Max-Age=0"
            ),
            (
                "set-cookie",
                "layerhouse_logout_hint=; HttpOnly; Path=/api/v1/session/logout; Max-Age=0"
            ),
            (
                "set-cookie",
                "layerhouse_logged_out=1; HttpOnly; Path=/; Max-Age=300"
            ),
        ]
    );
    let away = logout_session(
        &Some("https://idp/logout".to_string()),
        &Some("jwt".to_string()),
        "HttpOnly",
    );
    assert_eq!(away.headers.len(), 3);
    assert_eq!(
        away.headers[0].1,
        "https://idp/logout?id_token_hint=jwt&post_logout_redirect_uri=/"
    );
    assert_ne!(reply, away);
}
