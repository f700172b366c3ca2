use layerhouse::auth::identity::Subject;
use layerhouse::oci::digest::Digest;
use layerhouse::oci::json::Json;
use layerhouse::oci::manifest::stored_size_bytes;
use layerhouse::raft::router::{
    mirror_config_response, trigger_mirror_rule, trigger_proxy_cache_warm,
};
use layerhouse::raft::state::StateMachineData;
use layerhouse::raft::state_machine::StateMachine;
use layerhouse::raft::{
    JobRequest, JobResponse, ManifestRequest, ManifestResponse, MirrorConfigRequest,
    NamespaceRequest, NamespaceResponse, RepositoryRequest, Request, Response, TokenRequest,
    TokenResponse,
};
use layerhouse::store::metadata::namespace::{Namespace, Owner, ReleaseReason, ReleasedHandle};
use layerhouse::store::metadata::types::{
    DeleteCounts, ManifestEntry, MirrorRule, MirrorStrategy, OutboundProxy, PersonalAccessToken,
    ProxyCache, ProxyCacheTagValidation, Repository, SyncJobKind, SyncJobStatus, Visibility,
    WarmFilter,
};
use layerhouse::string_map::StringMap;

/// Content is created only under a handle that is claimed.
fn seed_namespace(data: &mut StateMachineData, handle: &str) {
    data.namespaces.insert(
        handle.to_string(),
        Namespace {
            handle: handle.to_string(),
            owner: Owner::User(Subject::new(format!("test-{handle}"))),
            owner_label: handle.to_string(),
            created_at: 1,
        },
    );
}

fn digest(id: u8) -> String {
    format!("sha256:{id:064x}")
}

fn manifest_body(config: &str, layers: &[&str]) -> Vec<u8> {
    let layers: Vec<String> = layers
        .iter()
        .map(|digest| {
            format!(
                r#"{{"mediaType":"application/vnd.oci.image.layer.v1.tar","digest":"{digest}","size":4}}"#
            )
        })
        .collect();
    format!(
        r#"{{"schemaVersion":2,"mediaType":"application/vnd.oci.image.manifest.v1+json","config":{{"mediaType":"application/vnd.oci.image.config.v1+json","digest":"{config}","size":2}},"layers":[{}]}}"#,
        layers.join(",")
    )
    .into_bytes()
}

fn put_manifest(
    repo: &str,
    reference: &str,
    manifest_digest: &str,
    referenced_blobs: &[&str],
) -> Request {
    let default_config = digest(1);
    let config_digest = referenced_blobs
        .first()
        .copied()
        .unwrap_or(default_config.as_str());
    let body = manifest_body(config_digest, referenced_blobs);
    let stored_size_bytes = Json::from_slice(&body)
        .map(|value| stored_size_bytes(&value))
        .unwrap_or(0);
    Request::Manifest(ManifestRequest::PutManifest {
        name: repo.to_string(),
        reference: reference.to_string(),
        digest: manifest_digest.to_string(),
        content_type: "application/vnd.oci.image.manifest.v1+json".to_string(),
        manifest_size_bytes: body.len() as u64,
        body,
        subject: None,
        artifact_type: None,
        annotations: None,
        stored_size_bytes,
        created_at: 1,
        last_modified: 1,
        config_summary: None,
        referenced_blobs: referenced_blobs
            .iter()
            .map(|digest| digest.to_string())
            .collect(),
    })
}

fn entry(manifest_digest: &str, body: Vec<u8>, referenced_blobs: Vec<String>) -> ManifestEntry {
    ManifestEntry {
        digest: Digest::from_str_checked(manifest_digest).unwrap(),
        content_type: "application/vnd.oci.image.manifest.v1+json".to_string(),
        manifest_size_bytes: body.len() as u64,
        body,
        subject: None,
        artifact_type: None,
        annotations: None,
        stored_size_bytes: 0,
        created_at: 0,
        last_modified: 0,
        config_summary: None,
        referenced_blobs: referenced_blobs
            .iter()
            .filter_map(|s| Digest::from_str_checked(s))
            .collect(),
    }
}

#[test]
fn blob_ref_counts_track_manifest_lifecycle() {
    let blob_a = digest(10);
    let blob_b = digest(11);
    let manifest_a = digest(20);
    let manifest_b = digest(21);
    let mut data = StateMachineData::default();
    seed_namespace(&mut data, "alice");

    StateMachine::apply_request(
        &mut data,
        put_manifest(
            "alice/repo",
            "latest",
            &manifest_a,
            &[&blob_a, &blob_b, &blob_b],
        ),
    );
    assert_eq!(data.blob_ref_count_str(&blob_a), 1);
    assert_eq!(data.blob_ref_count_str(&blob_b), 1);

    StateMachine::apply_request(
        &mut data,
        put_manifest("alice/repo", "latest", &manifest_a, &[&blob_a, &blob_b]),
    );
    assert_eq!(data.blob_ref_count_str(&blob_a), 1);
    assert_eq!(data.blob_ref_count_str(&blob_b), 1);

    StateMachine::apply_request(
        &mut data,
        put_manifest("alice/repo", "latest", &manifest_b, &[&blob_a]),
    );
    assert_eq!(data.blob_ref_count_str(&blob_a), 2);
    assert_eq!(data.blob_ref_count_str(&blob_b), 1);

    let response = StateMachine::apply_request(
        &mut data,
        Request::Manifest(ManifestRequest::DeleteTag {
            name: "alice/repo".to_string(),
            digest: manifest_b.clone(),
            tag: "latest".to_string(),
        }),
    );
    assert!(matches!(
        response,
        Response::Manifest(ManifestResponse::Bool(true))
    ));
    assert_eq!(data.blob_ref_count_str(&blob_a), 2);
    assert_eq!(data.blob_ref_count_str(&blob_b), 1);

    StateMachine::apply_request(
        &mut data,
        Request::Manifest(ManifestRequest::DeleteManifest {
            name: "alice/repo".to_string(),
            digest: manifest_a,
        }),
    );
    assert_eq!(data.blob_ref_count_str(&blob_a), 1);
    assert_eq!(data.blob_ref_count_str(&blob_b), 0);

    StateMachine::apply_request(
        &mut data,
        Request::Manifest(ManifestRequest::DeleteManifests {
            name: "alice/repo".to_string(),
            digests: vec![manifest_b],
        }),
    );
    assert!(data.blob_ref_counts.is_empty());
}

#[test]
fn repository_delete_decrements_all_manifest_blob_refs() {
    let blob_a = digest(30);
    let blob_b = digest(31);
    let mut data = StateMachineData::default();
    seed_namespace(&mut data, "alice");

    StateMachine::apply_request(
        &mut data,
        put_manifest("alice/repo", "one", &digest(40), &[&blob_a]),
    );
    StateMachine::apply_request(
        &mut data,
        put_manifest("alice/repo", "two", &digest(41), &[&blob_a, &blob_b]),
    );

    let response = StateMachine::apply_request(
        &mut data,
        Request::Manifest(ManifestRequest::DeleteRepository {
            name: "alice/repo".to_string(),
        }),
    );

    assert!(matches!(
        response,
        Response::Manifest(ManifestResponse::DeleteCounts(DeleteCounts {
            deleted_manifests: 2,
            deleted_tags: 2
        }))
    ));
    assert!(data.blob_ref_counts.is_empty());
}

#[test]
fn snapshot_restore_rebuilds_blob_ref_count_index() {
    let blob_a = digest(50);
    let blob_b = digest(51);
    let blob_c = digest(52);
    let mut data = StateMachineData::default();
    data.blob_ref_counts.insert(blob_c.clone(), 99);

    let mut repo = StringMap::new();
    repo.insert(
        digest(60),
        entry(
            &digest(60),
            manifest_body(&blob_a, &[&blob_b, &blob_b]),
            Vec::new(),
        ),
    );
    repo.insert(
        digest(61),
        entry(
            &digest(61),
            Vec::new(),
            vec![blob_b.clone(), blob_c.clone(), blob_c.clone()],
        ),
    );
    data.manifests.insert("alice/repo".to_string(), repo);

    data.normalize_restored_metadata();

    assert_eq!(data.blob_ref_count_str(&blob_a), 1);
    assert_eq!(data.blob_ref_count_str(&blob_b), 2);
    assert_eq!(data.blob_ref_count_str(&blob_c), 1);
    assert_eq!(data.blob_ref_counts.len(), 3);
}

#[test]
fn personal_access_tokens_are_owned_by_subject() {
    let mut data = StateMachineData::default();
    let token = PersonalAccessToken {
        id: "pat-1".to_string(),
        subject: "subject-a".to_string(),
        username: None,
        name: "token".to_string(),
        token_hash: "hash".to_string(),
        token_prefix: "layerhouse-abc".to_string(),
        scopes: vec!["repository:*:pull".to_string()],
        created_at: 1,
        last_used_at: None,
        expires_at: None,
    };

    StateMachine::apply_request(
        &mut data,
        Request::Token(TokenRequest::PutPersonalAccessToken(token)),
    );

    assert_eq!(data.list_personal_access_tokens("subject-a").len(), 1);
    assert!(data.list_personal_access_tokens("subject-b").is_empty());

    let response = StateMachine::apply_request(
        &mut data,
        Request::Token(TokenRequest::DeletePersonalAccessToken {
            id: "pat-1".to_string(),
            subject: "subject-b".to_string(),
        }),
    );
    assert!(matches!(
        response,
        Response::Token(TokenResponse::Bool(false))
    ));
    assert_eq!(data.list_personal_access_tokens("subject-a").len(), 1);

    let response = StateMachine::apply_request(
        &mut data,
        Request::Token(TokenRequest::DeletePersonalAccessToken {
            id: "pat-1".to_string(),
            subject: "subject-a".to_string(),
        }),
    );
    assert!(matches!(
        response,
        Response::Token(TokenResponse::Bool(true))
    ));
    assert!(data.list_personal_access_tokens("subject-a").is_empty());
}

fn proxy_cache(id: &str) -> ProxyCache {
    ProxyCache {
        id: id.to_string(),
        local_prefix: "cache/app".to_string(),
        upstream_registry: "registry.example".to_string(),
        upstream_prefix: Some("upstream/app".to_string()),
        warm_filters: vec![WarmFilter::Never],
        warm_schedule: None,
        plain_http: false,
        insecure_tls: false,
        outbound_proxy: OutboundProxy::default(),
        username: None,
        password: None,
        created_at: 1,
    }
}

fn proxy_validation(
    cache_id: &str,
    repository: &str,
    tag: &str,
) -> ProxyCacheTagValidation {
    ProxyCacheTagValidation {
        cache_id: cache_id.to_string(),
        repository: repository.to_string(),
        tag: tag.to_string(),
        upstream_digest: digest(70),
        last_validated_at: 42,
    }
}

#[test]
fn proxy_cache_tag_validation_persists_and_cache_cleanup_clears_it() {
    let mut data = StateMachineData::default();

    StateMachine::apply_request(
        &mut data,
        Request::MirrorConfig(MirrorConfigRequest::PutProxyCacheTagValidation(
            proxy_validation("docker", "cache/app", "latest"),
        )),
    );
    let found = data
        .get_proxy_cache_tag_validation("docker", "cache/app", "latest")
        .expect("validation should exist");
    assert_eq!(found.last_validated_at, 42);

    StateMachine::apply_request(
        &mut data,
        Request::MirrorConfig(MirrorConfigRequest::PutProxyCache(proxy_cache("docker"))),
    );
    assert!(
        data.get_proxy_cache_tag_validation("docker", "cache/app", "latest")
            .is_none()
    );

    StateMachine::apply_request(
        &mut data,
        Request::MirrorConfig(MirrorConfigRequest::PutProxyCacheTagValidation(
            proxy_validation("docker", "cache/app", "latest"),
        )),
    );
    StateMachine::apply_request(
        &mut data,
        Request::MirrorConfig(MirrorConfigRequest::DeleteProxyCache {
            id: "docker".to_string(),
        }),
    );
    assert!(
        data.get_proxy_cache_tag_validation("docker", "cache/app", "latest")
            .is_none()
    );
}

#[test]
fn proxy_cache_tag_validation_is_cleared_by_manifest_deletes() {
    let mut data = StateMachineData::default();
    seed_namespace(&mut data, "alice");
    let manifest = digest(71);

    StateMachine::apply_request(
        &mut data,
        put_manifest("alice/repo", "latest", &manifest, &[]),
    );
    StateMachine::apply_request(
        &mut data,
        Request::MirrorConfig(MirrorConfigRequest::PutProxyCacheTagValidation(
            proxy_validation("docker", "alice/repo", "latest"),
        )),
    );
    StateMachine::apply_request(
        &mut data,
        Request::Manifest(ManifestRequest::DeleteManifests {
            name: "alice/repo".to_string(),
            digests: vec![manifest],
        }),
    );

    assert!(
        data.get_proxy_cache_tag_validation("docker", "alice/repo", "latest")
            .is_none()
    );
}




// ── Reads ─────────────────────────────────────────────────────────────────

fn seed_manifest_entry_json() -> (Vec<u8>, String) {
    let config_digest = format!("sha256:{:064x}", 99u64);
    let body = format!(
        r#"{{"schemaVersion":2,"mediaType":"application/vnd.oci.image.manifest.v1+json","config":{{"mediaType":"application/vnd.oci.empty.v1+json","digest":"{config_digest}","size":2}},"layers":[]}}"#
    )
    .into_bytes();
    let manifest_digest = Digest::sha256(&body).to_string();
    (body, manifest_digest)
}

#[test]
fn state_machine_get_manifest_by_tag_and_digest() {
    let mut data = StateMachineData::default();
    seed_namespace(&mut data, "alice");
    let (body, manifest_digest) = seed_manifest_entry_json();

    StateMachine::apply_request(
        &mut data,
        Request::Manifest(ManifestRequest::PutManifest {
            name: "alice/shared-repo".to_string(),
            reference: "v1".to_string(),
            digest: manifest_digest.clone(),
            content_type: "application/vnd.oci.image.manifest.v1+json".to_string(),
            body: body.clone(),
            subject: None,
            artifact_type: None,
            annotations: None,
            stored_size_bytes: 200,
            manifest_size_bytes: body.len() as u64,
            created_at: 100,
            last_modified: 200,
            config_summary: None,
            referenced_blobs: vec![format!("sha256:{:064x}", 99u64)],
        }),
    );

    let found = data.get_manifest("alice/shared-repo", "v1");
    assert!(found.is_some(), "manifest should be found by tag");
    assert_eq!(found.unwrap().digest.to_string(), manifest_digest);

    let found = data.get_manifest("alice/shared-repo", &manifest_digest);
    assert!(found.is_some(), "manifest should be found by digest");

    let found = data.get_manifest("alice/shared-repo", "nonexistent");
    assert!(found.is_none(), "unknown reference should return None");
}

#[test]
fn state_machine_list_tags() {
    let mut data = StateMachineData::default();
    seed_namespace(&mut data, "alice");
    let (body, manifest_digest) = seed_manifest_entry_json();

    for tag in &["v1", "v2"] {
        StateMachine::apply_request(
            &mut data,
            Request::Manifest(ManifestRequest::PutManifest {
                name: "alice/shared-repo".to_string(),
                reference: (*tag).to_string(),
                digest: manifest_digest.clone(),
                content_type: "application/vnd.oci.image.manifest.v1+json".to_string(),
                body: body.clone(),
                subject: None,
                artifact_type: None,
                annotations: None,
                stored_size_bytes: 200,
                manifest_size_bytes: body.len() as u64,
                created_at: 100,
                last_modified: 200,
                config_summary: None,
                referenced_blobs: vec![],
            }),
        );
    }

    let tags = data.list_tags("alice/shared-repo", None, None);
    assert_eq!(tags, vec!["v1", "v2"]);
    assert!(data.list_tags("alice/nonexistent", None, None).is_empty());
}

#[test]
fn state_machine_list_repositories() {
    let mut data = StateMachineData::default();
    seed_namespace(&mut data, "alice");
    let (body, manifest_digest) = seed_manifest_entry_json();

    for repo in &["alice/repo-a", "alice/repo-b"] {
        StateMachine::apply_request(
            &mut data,
            Request::Manifest(ManifestRequest::PutManifest {
                name: (*repo).to_string(),
                reference: "latest".to_string(),
                digest: manifest_digest.clone(),
                content_type: "application/vnd.oci.image.manifest.v1+json".to_string(),
                body: body.clone(),
                subject: None,
                artifact_type: None,
                annotations: None,
                stored_size_bytes: 200,
                manifest_size_bytes: body.len() as u64,
                created_at: 100,
                last_modified: 200,
                config_summary: None,
                referenced_blobs: vec![],
            }),
        );
    }

    let repos = data.list_repositories(None, None);
    assert_eq!(repos, vec!["alice/repo-a", "alice/repo-b"]);
}

#[test]
fn state_machine_list_manifest_summaries() {
    let mut data = StateMachineData::default();
    seed_namespace(&mut data, "alice");
    let (body, manifest_digest) = seed_manifest_entry_json();

    StateMachine::apply_request(
        &mut data,
        Request::Manifest(ManifestRequest::PutManifest {
            name: "alice/shared-repo".to_string(),
            reference: "v1".to_string(),
            digest: manifest_digest,
            content_type: "application/vnd.oci.image.manifest.v1+json".to_string(),
            manifest_size_bytes: body.len() as u64,
            body,
            subject: None,
            artifact_type: None,
            annotations: None,
            stored_size_bytes: 200,
            created_at: 100,
            last_modified: 200,
            config_summary: None,
            referenced_blobs: vec![],
        }),
    );

    let summaries = data.list_manifest_summaries("alice/shared-repo");
    assert_eq!(summaries.len(), 1);
    assert_eq!(summaries[0].tags, vec!["v1"]);
}

fn claim_request(handle: &str, owner_label: &str, admin_override: bool) -> Request {
    Request::Namespace(NamespaceRequest::Claim {
        handle: handle.to_string(),
        owner: Owner::User(Subject::new(format!("idp-{handle}"))),
        owner_label: owner_label.to_string(),
        actor: Subject::new(format!("idp-{handle}")),
        admin_override,
        now: 100,
    })
}

#[test]
fn namespace_claim_inserts_live_namespace() {
    let mut data = StateMachineData::default();
    let resp = StateMachine::apply_request(&mut data, claim_request("alice", "Alice", false));
    assert!(matches!(resp, Response::Namespace(NamespaceResponse::Done)));
    let ns = data.namespaces.get("alice").expect("namespace claimed");
    assert_eq!(ns.handle, "alice");
    assert_eq!(ns.owner_label, "Alice");
    assert!(matches!(ns.owner, Owner::User(_)));
}

#[test]
fn namespace_claim_conflict_omits_owner_id() {
    let mut data = StateMachineData::default();
    // Pre-claim by a sensitive subject id that must NOT leak.
    data.namespaces.insert(
        "alice".to_string(),
        Namespace {
            handle: "alice".to_string(),
            owner: Owner::User(Subject::new("secret-subject-uuid-do-not-leak".to_string())),
            owner_label: "Alice".to_string(),
            created_at: 1,
        },
    );
    let resp = StateMachine::apply_request(&mut data, claim_request("alice", "Other", false));
    let Response::Error(msg) = resp else {
        panic!("expected Response::Error, got {resp:?}");
    };
    assert!(
        !msg.contains("secret-subject-uuid-do-not-leak"),
        "conflict body must not leak prior owner id: {msg:?}"
    );
    assert!(
        msg.contains("user"),
        "conflict body should mention owner kind: {msg:?}"
    );
}

#[test]
fn namespace_reclaim_requires_admin_override() {
    let mut data = StateMachineData::default();
    data.released_handles.insert(
        "alice".to_string(),
        ReleasedHandle {
            handle: "alice".to_string(),
            prior_owner: Owner::User(Subject::new("idp-alice".to_string())),
            prior_owner_label: "Alice".to_string(),
            released_at: 1,
            released_by: Subject::new("idp-alice".to_string()),
            release_reason: ReleaseReason::OwnerDeleted,
        },
    );

    let resp = StateMachine::apply_request(&mut data, claim_request("alice", "Alice2", false));
    assert!(
        matches!(resp, Response::Error(_)),
        "reclaim without admin override must fail: {resp:?}"
    );
    assert!(data.released_handles.contains_key("alice"));
    assert!(!data.namespaces.contains_key("alice"));

    let resp = StateMachine::apply_request(&mut data, claim_request("alice", "Alice2", true));
    assert!(matches!(resp, Response::Namespace(NamespaceResponse::Done)));
    assert!(!data.released_handles.contains_key("alice"));
    assert!(data.namespaces.contains_key("alice"));
}

#[test]
fn namespace_delete_blocks_when_content_exists() {
    let mut data = StateMachineData::default();
    seed_namespace(&mut data, "alice");
    let (_body, manifest_digest) = seed_manifest_entry_json();
    StateMachine::apply_request(
        &mut data,
        put_manifest("alice/repo", "v1", &manifest_digest, &[]),
    );

    let resp = StateMachine::apply_request(
        &mut data,
        Request::Namespace(NamespaceRequest::Delete {
            handle: "alice".to_string(),
            actor: Subject::new("idp-alice".to_string()),
            reason: ReleaseReason::OwnerDeleted,
            now: 200,
        }),
    );
    assert!(
        matches!(resp, Response::Error(_)),
        "delete with content must fail: {resp:?}"
    );
    // Namespace must be restored on the failure path.
    assert!(data.namespaces.contains_key("alice"));
    assert!(!data.released_handles.contains_key("alice"));
}

#[test]
fn namespace_delete_creates_tombstone() {
    let mut data = StateMachineData::default();
    seed_namespace(&mut data, "alice");

    let resp = StateMachine::apply_request(
        &mut data,
        Request::Namespace(NamespaceRequest::Delete {
            handle: "alice".to_string(),
            actor: Subject::new("idp-alice".to_string()),
            reason: ReleaseReason::OwnerDeleted,
            now: 200,
        }),
    );
    assert!(matches!(resp, Response::Namespace(NamespaceResponse::Done)));
    assert!(!data.namespaces.contains_key("alice"));
    let tomb = data
        .released_handles
        .get("alice")
        .expect("tombstone present");
    assert_eq!(tomb.prior_owner_label, "alice");
    assert!(matches!(tomb.release_reason, ReleaseReason::OwnerDeleted));
    assert_eq!(tomb.released_at, 200);
}

#[test]
fn namespace_admin_revoke_creates_tombstone() {
    let mut data = StateMachineData::default();
    seed_namespace(&mut data, "alice");

    let resp = StateMachine::apply_request(
        &mut data,
        Request::Namespace(NamespaceRequest::AdminRevoke {
            handle: "alice".to_string(),
            actor: Subject::new("admin-1".to_string()),
            now: 300,
        }),
    );
    assert!(matches!(resp, Response::Namespace(NamespaceResponse::Done)));
    let tomb = data
        .released_handles
        .get("alice")
        .expect("tombstone present");
    assert!(matches!(tomb.release_reason, ReleaseReason::AdminRevoked));
    assert_eq!(tomb.released_at, 300);
}

#[test]
fn put_manifest_rejected_without_live_namespace() {
    let mut data = StateMachineData::default();
    let (_body, manifest_digest) = seed_manifest_entry_json();
    let resp = StateMachine::apply_request(
        &mut data,
        put_manifest("ghost/repo", "v1", &manifest_digest, &[]),
    );
    let Response::Error(msg) = resp else {
        panic!("expected Response::Error, got {resp:?}");
    };
    assert!(msg.contains("ghost"), "{msg:?}");
    assert!(!data.manifests.contains_key("ghost/repo"));
}

#[test]
fn mount_blob_rejected_without_live_namespace() {
    let mut data = StateMachineData::default();
    seed_namespace(&mut data, "alice");
    let blob = digest(42);

    let resp = StateMachine::apply_request(
        &mut data,
        Request::Manifest(ManifestRequest::MountBlob {
            source_repo: "alice/source".to_string(),
            dest_repo: "ghost/dest".to_string(),
            digest: blob.clone(),
        }),
    );
    assert!(
        matches!(resp, Response::Error(_)),
        "mount into ghost namespace must fail: {resp:?}"
    );
}

#[test]
fn put_repository_rejected_without_live_namespace() {
    let mut data = StateMachineData::default();
    let repo = Repository {
        name: "ghost/repo".to_string(),
        description: String::new(),
        owner: None,
        visibility: Visibility::default(),
        created_at: 1,
    };
    let resp = StateMachine::apply_request(
        &mut data,
        Request::Repository(RepositoryRequest::PutRepository(repo)),
    );
    assert!(
        matches!(resp, Response::Error(_)),
        "put_repository under ghost namespace must fail: {resp:?}"
    );
}

#[test]
fn namespace_delete_unknown_handle_errors() {
    let mut data = StateMachineData::default();
    let resp = StateMachine::apply_request(
        &mut data,
        Request::Namespace(NamespaceRequest::Delete {
            handle: "ghost".to_string(),
            actor: Subject::new("idp-ghost".to_string()),
            reason: ReleaseReason::OwnerDeleted,
            now: 1,
        }),
    );
    let Response::Error(msg) = resp else {
        panic!("expected Response::Error, got {resp:?}");
    };
    assert!(msg.contains("ghost"), "{msg:?}");
    assert!(!data.released_handles.contains_key("ghost"));
}

#[test]
fn namespace_admin_revoke_unknown_handle_errors() {
    let mut data = StateMachineData::default();
    let resp = StateMachine::apply_request(
        &mut data,
        Request::Namespace(NamespaceRequest::AdminRevoke {
            handle: "ghost".to_string(),
            actor: Subject::new("admin-1".to_string()),
            now: 1,
        }),
    );
    assert!(
        matches!(resp, Response::Error(_)),
        "admin-revoke of unknown handle must fail: {resp:?}"
    );
    assert!(!data.released_handles.contains_key("ghost"));
}

#[test]
fn namespace_delete_with_renamed_reason_persists_new_handle() {
    let mut data = StateMachineData::default();
    seed_namespace(&mut data, "alice");

    let resp = StateMachine::apply_request(
        &mut data,
        Request::Namespace(NamespaceRequest::Delete {
            handle: "alice".to_string(),
            actor: Subject::new("idp-alice".to_string()),
            reason: ReleaseReason::Renamed {
                new_handle: "alice2".to_string(),
            },
            now: 400,
        }),
    );
    assert!(matches!(resp, Response::Namespace(NamespaceResponse::Done)));
    let tomb = data
        .released_handles
        .get("alice")
        .expect("tombstone present");
    match &tomb.release_reason {
        ReleaseReason::Renamed { new_handle } => assert_eq!(new_handle, "alice2"),
        other => panic!("expected Renamed reason, got {other:?}"),
    }
}

#[test]
fn pushed_manifest_is_pulled_and_deletions_take_it_away() {
    let mut data = StateMachineData::default();
    seed_namespace(&mut data, "team");
    let pushed = digest(9);
    StateMachine::apply_request(&mut data, put_manifest("team/app", "v1", &pushed, &[]));
    StateMachine::apply_request(&mut data, put_manifest("team/app", "v2", &pushed, &[]));
    StateMachine::apply_request(&mut data, put_manifest("team/lib", "v1", &pushed, &[]));
    for reference in ["v1", "v2", pushed.as_str()] {
        let entry = data.get_manifest("team/app", reference).unwrap();
        assert_eq!(entry.digest.to_string(), pushed);
        assert_eq!(entry.body, manifest_body(&digest(1), &[]));
    }

    let delete_tag = |digest: &str, tag: &str| {
        Request::Manifest(ManifestRequest::DeleteTag {
            name: "team/app".to_string(),
            digest: digest.to_string(),
            tag: tag.to_string(),
        })
    };
    let response = StateMachine::apply_request(&mut data, delete_tag(&digest(8), "v1"));
    assert!(matches!(
        response,
        Response::Manifest(ManifestResponse::Bool(false))
    ));
    assert!(data.get_manifest("team/app", "v1").is_some());
    let response = StateMachine::apply_request(&mut data, delete_tag(&pushed, "v1"));
    assert!(matches!(
        response,
        Response::Manifest(ManifestResponse::Bool(true))
    ));
    assert!(data.get_manifest("team/app", "v1").is_none());
    assert!(data.get_manifest("team/app", "v2").is_some());
    assert!(data.get_manifest("team/app", &pushed).is_some());

    StateMachine::apply_request(
        &mut data,
        Request::Manifest(ManifestRequest::DeleteRepository {
            name: "team/app".to_string(),
        }),
    );
    assert!(data.get_manifest("team/app", "v2").is_none());
    assert!(data.get_manifest("team/app", &pushed).is_none());
    assert!(data.get_manifest("team/lib", "v1").is_some());
}

#[test]
fn delete_request_stays_until_it_is_cleared() {
    let mut data = StateMachineData::default();
    seed_namespace(&mut data, "team");
    let blob = digest(3);
    let parsed = Digest::from_str_checked(&blob).unwrap();
    StateMachine::apply_request(
        &mut data,
        Request::Manifest(ManifestRequest::RecordBlobDelete {
            digest: blob.clone(),
            requested_at: 5,
        }),
    );
    assert!(data.blob_lifecycle_status(&parsed).delete_requested);
    StateMachine::apply_request(
        &mut data,
        put_manifest("team/app", "v1", &digest(9), &[&blob]),
    );
    let status = data.blob_lifecycle_status(&parsed);
    assert!(status.delete_requested);
    assert!(status.referenced);
    assert_eq!(status.ref_count, 1);
    StateMachine::apply_request(
        &mut data,
        Request::Manifest(ManifestRequest::ClearBlobDelete { digest: blob }),
    );
    assert!(!data.blob_lifecycle_status(&parsed).delete_requested);
}

#[test]
fn replicas_agree_whenever_they_apply_a_change() {
    let mut early = StateMachineData::default();
    let mut late = StateMachineData::default();
    let changes = || {
        vec![
            claim_request("team", "owner", false),
            put_manifest("team/app", "v1", &digest(9), &[&digest(1), &digest(2)]),
            put_manifest("nobody/app", "v1", &digest(9), &[]),
            Request::Manifest(ManifestRequest::DeleteManifest {
                name: "team/app".to_string(),
                digest: digest(9),
            }),
            Request::MirrorConfig(MirrorConfigRequest::PutProxyCache(proxy_cache("docker"))),
            Request::MirrorConfig(MirrorConfigRequest::TriggerProxyCacheWarm {
                id: "docker".to_string(),
                now: 100,
            }),
            Request::Job(JobRequest::ClaimSyncJob {
                id: "docker-warm-100".to_string(),
                node_id: "node-1".to_string(),
                now: 107,
            }),
        ]
    };
    for change in changes() {
        StateMachine::apply_request(&mut early, change);
    }
    let claimed = early.get_sync_job("docker-warm-100").unwrap();
    assert_eq!(claimed.claimed_at, Some(107));
    assert_eq!(claimed.claimed_by.as_deref(), Some("node-1"));
    for change in changes() {
        StateMachine::apply_request(&mut late, change);
    }
    assert_eq!(format!("{early:?}"), format!("{late:?}"));

    StateMachine::apply_request(
        &mut late,
        Request::Job(JobRequest::PutSyncJob({
            let mut idle = claimed.clone();
            idle.status = SyncJobStatus::Idle;
            idle
        })),
    );
    let response = StateMachine::apply_request(
        &mut late,
        Request::Job(JobRequest::TriggerSyncJob {
            id: "docker-warm-100".to_string(),
            now: 200,
        }),
    );
    assert!(matches!(response, Response::Job(JobResponse::Bool(true))));
    let triggered = late.get_sync_job("docker-warm-100").unwrap();
    assert_eq!(triggered.next_run_at, 200);
    assert_eq!(triggered.claimed_at, None);
}

#[test]
fn stored_token_is_found_by_its_hash() {
    let mut data = StateMachineData::default();
    for id in ["pat-1", "pat-2"] {
        let token = PersonalAccessToken {
            id: id.to_string(),
            subject: "subject".to_string(),
            username: None,
            name: "token".to_string(),
            token_hash: format!("hash of {id}"),
            token_prefix: "layerhouse-a".to_string(),
            scopes: Vec::new(),
            created_at: 1,
            last_used_at: None,
            expires_at: None,
        };
        StateMachine::apply_request(
            &mut data,
            Request::Token(TokenRequest::PutPersonalAccessToken(token)),
        );
    }
    let found = data
        .get_personal_access_token_by_hash("hash of pat-2")
        .unwrap();
    assert_eq!(found.id, "pat-2");
    assert!(data.get_personal_access_token_by_hash("hash").is_none());
}

#[test]
fn tags_returns_empty_for_unknown_repo() {
    let data = StateMachineData::default();
    assert!(data.list_tags("nonexistent", None, None).is_empty());
}

#[test]
fn tags_returns_tags_after_manifest_push() {
    let mut data = StateMachineData::default();
    seed_namespace(&mut data, "my");
    StateMachine::apply_request(&mut data, put_manifest("my/repo", "v1.0", &digest(10), &[]));
    assert_eq!(data.list_tags("my/repo", None, None), vec!["v1.0"]);
}

#[test]
fn catalog_returns_repos_after_manifest_push() {
    let mut data = StateMachineData::default();
    assert!(data.list_repositories(None, None).is_empty());
    seed_namespace(&mut data, "test");
    StateMachine::apply_request(
        &mut data,
        put_manifest("test/repo", "latest", &digest(1), &[]),
    );
    assert_eq!(data.list_repositories(None, None), vec!["test/repo"]);
}

#[test]
fn shadow_repository_appears_in_listing() {
    let mut data = StateMachineData::default();
    seed_namespace(&mut data, "users");
    let repo = Repository {
        name: "users/alice/empty".to_string(),
        description: "nothing pushed yet".to_string(),
        owner: Some("alice".to_string()),
        visibility: Visibility::Private,
        created_at: 123,
    };
    StateMachine::apply_request(
        &mut data,
        Request::Repository(RepositoryRequest::PutRepository(repo)),
    );
    let listed = data.list_repository_summaries();
    assert_eq!(listed.len(), 1);
    assert_eq!(listed[0].name, "users/alice/empty");
    assert_eq!(listed[0].manifest_count, 0);
    assert_eq!(listed[0].description, "nothing pushed yet");
    assert_eq!(listed[0].owner.as_deref(), Some("alice"));
}

#[test]
fn trigger_proxy_cache_warm_returns_sync_job() {
    let mut data = StateMachineData::default();
    let mut cache = proxy_cache("docker");
    cache.warm_filters = vec![WarmFilter::Pattern {
        pattern: "v2.*".to_string(),
    }];
    StateMachine::apply_request(
        &mut data,
        Request::MirrorConfig(MirrorConfigRequest::PutProxyCache(cache)),
    );
    let trigger = || {
        Request::MirrorConfig(MirrorConfigRequest::TriggerProxyCacheWarm {
            id: "docker".to_string(),
            now: 100,
        })
    };
    let first = mirror_config_response(StateMachine::apply_request(&mut data, trigger())).unwrap();
    let job = trigger_proxy_cache_warm(first).unwrap().unwrap();
    assert_eq!(job.kind, SyncJobKind::ProxyCache);
    assert_eq!(job.rule_id.as_deref(), Some("docker"));
    assert_eq!(job.tags, vec!["v2.*"]);
    assert_eq!(job.id, "docker-warm-100");
    assert_eq!(job.next_run_at, 100);

    let second = mirror_config_response(StateMachine::apply_request(&mut data, trigger())).unwrap();
    let error = trigger_proxy_cache_warm(second).unwrap_err();
    assert_eq!(error.status(), 409);
}

#[test]
fn trigger_rule_conflicts_with_queued_one_shot_job() {
    let mut data = StateMachineData::default();
    let rule = MirrorRule {
        id: "docker".to_string(),
        direction: Default::default(),
        local_prefix: "mirror/docker".to_string(),
        upstream_registry: "registry-1.docker.io".to_string(),
        upstream_prefix: Some("library/nginx".to_string()),
        schedule: None,
        strategy: MirrorStrategy::All,
        plain_http: false,
        insecure_tls: false,
        outbound_proxy: OutboundProxy::default(),
        username: None,
        password: None,
        created_at: 1,
    };
    StateMachine::apply_request(
        &mut data,
        Request::MirrorConfig(MirrorConfigRequest::PutMirrorRule(rule)),
    );
    let trigger = || {
        Request::MirrorConfig(MirrorConfigRequest::TriggerMirrorRule {
            id: "docker".to_string(),
            now: 100,
        })
    };
    let first = mirror_config_response(StateMachine::apply_request(&mut data, trigger())).unwrap();
    assert!(trigger_mirror_rule(first).unwrap().is_some());
    let second = mirror_config_response(StateMachine::apply_request(&mut data, trigger())).unwrap();
    let error = trigger_mirror_rule(second).unwrap_err();
    assert_eq!(error.status(), 409);
    assert_eq!(error.message(), "Rule is already running");
}
