use layerhouse::error::LayerhouseError;
use layerhouse::oci::digest::Digest;
use layerhouse::oci::json::Json;
use layerhouse::raft::membership::{ClusterStatus, NodeInfo, NodeState};
use layerhouse::routes::blobs::{
    delete_reply, delivery, full_reply, head_reply, lookup_pulled, lookup_start, lookup_stat,
    lookup_stat_again, parse_range, range_reply, redirect_reply, BlobCall, Delivery, LookupStep,
};
use layerhouse::routes::health::{healthy_voters, metrics, readyz, GcMetrics, JwksMetrics};
use layerhouse::routes::manifests::{
    delete_target, deleted_reply, head_parts, overwrite_check, pulled_parts, put_manifest,
    read_manifest, resolve_step, respond_manifest, validated_parts, ManifestCall, ManifestHead,
    ManifestResponseParts, ResolveStep,
};
use layerhouse::routes::paths::{page_params, percent_decode, query_params, route, split_at, Route};
use layerhouse::routes::referrers::{referrer_manifests, referrers_reply};
use layerhouse::routes::reply::Reply;
use layerhouse::routes::uploads::{
    appended_reply, cancelled_reply, chunk_out_of_order, completion_digest, created_reply,
    dispatch_session, dispatch_start, new_session_id, out_of_order_reply, parse_content_range_start,
    settle_start, start_upload, started_reply, status_reply, upload_limit_reached, upload_session,
    UploadCall, UploadSession, UploadStart,
};
use layerhouse::store::metadata::types::{BlobLifecycleStatus, ManifestEntry, ReferrerEntry};

const DIGEST: &str = "sha256:000000000000000000000000000000000000000000000000000000000000000a";

fn digest() -> Digest {
    Digest::from_str_checked(DIGEST).unwrap()
}

fn header<'a>(reply: &'a Reply, name: &str) -> Option<&'a str> {
    reply
        .headers
        .iter()
        .find(|(n, _)| n.eq_ignore_ascii_case(name))
        .map(|(_, v)| v.as_str())
}

fn manifest_entry(body: &[u8]) -> ManifestEntry {
    ManifestEntry {
        digest: Digest::sha256(body),
        content_type: "application/vnd.oci.image.manifest.v1+json".to_string(),
        body: body.to_vec(),
        referenced_blobs: Vec::new(),
        subject: None,
        artifact_type: None,
        annotations: None,
        stored_size_bytes: 0,
        manifest_size_bytes: body.len() as u64,
        created_at: 1,
        last_modified: 1,
        config_summary: None,
    }
}

// ── Paths ─────────────────────────────────────────────────────────────────

#[test]
fn query_params_decodes_percent_encoded_values() {
    let params = query_params(Some("artifactType=a%2Fb&empty="));

    assert_eq!(params.get("artifactType").map(String::as_str), Some("a/b"));
    assert_eq!(params.get("empty").map(String::as_str), Some(""));
}

#[test]
fn query_params_of_no_query_are_empty() {
    assert!(query_params(None).is_empty());
    assert!(query_params(Some("")).get("n").is_none());
}

#[test]
fn page_params_read_numbers_and_names() {
    assert_eq!(
        page_params(&query_params(Some("n=10&last=app"))),
        (Some(10), Some("app".to_string()))
    );
    assert_eq!(page_params(&query_params(Some("n=ten"))), (None, None));
    assert_eq!(page_params(&query_params(None)), (None, None));
}

#[test]
fn percent_decode_keeps_what_is_no_escape() {
    assert_eq!(percent_decode("sha256%3Aabc"), "sha256:abc");
    assert_eq!(percent_decode("a%2"), "a%2");
    assert_eq!(percent_decode("100%zz"), "100%zz");
    assert_eq!(percent_decode("plain"), "plain");
}

#[test]
fn routes_are_told_apart() {
    assert_eq!(
        route("team/app/manifests/v1"),
        Route::Manifest {
            name: "team/app".to_string(),
            reference: "v1".to_string()
        }
    );
    assert_eq!(
        route("team/app/tags/list"),
        Route::Tags {
            name: "team/app".to_string()
        }
    );
    assert_eq!(
        route("team/app/blobs/uploads/"),
        Route::UploadStart {
            name: "team/app".to_string()
        }
    );
    assert_eq!(
        route("team/app/blobs/uploads/abc"),
        Route::UploadSession {
            name: "team/app".to_string(),
            session_id: "abc".to_string()
        }
    );
    assert_eq!(
        route("team/app/blobs/sha256:abc"),
        Route::Blob {
            name: "team/app".to_string(),
            digest: "sha256:abc".to_string()
        }
    );
    assert_eq!(
        route("team/app/referrers/sha256:abc"),
        Route::Referrers {
            name: "team/app".to_string(),
            digest: "sha256:abc".to_string()
        }
    );
    assert_eq!(route("team/app"), Route::NotFound);
}

#[test]
fn split_at_needs_both_sides() {
    assert_eq!(
        split_at("team/app/blobs/x", &["blobs"]),
        Some(("team/app".to_string(), "x".to_string()))
    );
    assert_eq!(split_at("team/app", &["blobs"]), None);
}

// ── Blobs ─────────────────────────────────────────────────────────────────

#[test]
fn parse_range_handles_standard_ranges() {
    assert_eq!(parse_range("bytes=0-99", 1000), Some((0, 99)));
    assert_eq!(parse_range("bytes=500-", 1000), Some((500, 999)));
    assert_eq!(parse_range("bytes=-500", 1000), Some((500, 999)));
    assert_eq!(parse_range("bytes=950-2000", 1000), Some((950, 999)));
}

#[test]
fn parse_range_rejects_invalid_or_empty_ranges() {
    assert_eq!(parse_range("bytes=0-0", 0), None);
    assert_eq!(parse_range("bytes=-0", 1000), None);
    assert_eq!(parse_range("items=0-1", 1000), None);
    assert_eq!(parse_range("bytes=900-800", 1000), None);
    assert_eq!(parse_range("bytes=1000-1001", 1000), None);
}

#[test]
fn full_get_redirects_when_redirect_mode_is_enabled() {
    assert!(matches!(delivery(None, 13, true), Ok(Delivery::Redirect)));
    let reply = redirect_reply(&digest(), &format!("memory://{DIGEST}"));
    assert_eq!(reply.status, 307);
    assert_eq!(
        header(&reply, "location"),
        Some(format!("memory://{DIGEST}").as_str())
    );
    assert_eq!(header(&reply, "Docker-Content-Digest"), Some(DIGEST));
    assert_eq!(header(&reply, "content-length"), Some("0"));
}

#[test]
fn range_get_proxies_even_when_redirect_mode_is_enabled() {
    assert!(matches!(
        delivery(Some("bytes=0-3"), 10, true),
        Ok(Delivery::Range(0, 3))
    ));
    let reply = range_reply(&digest(), 0, 3, 10);
    assert_eq!(reply.status, 206);
    assert_eq!(header(&reply, "content-range"), Some("bytes 0-3/10"));
    assert_eq!(header(&reply, "content-length"), Some("4"));
}

#[test]
fn a_bad_range_is_not_supported() {
    let error = delivery(Some("bytes=9-1"), 10, false).unwrap_err();
    assert_eq!(error.status(), 405);
    assert_eq!(error.message(), "invalid range");
    assert!(matches!(delivery(None, 10, false), Ok(Delivery::Full)));
}

#[test]
fn blob_replies_describe_the_blob() {
    let head = head_reply(&digest(), 5);
    assert_eq!(head.status, 200);
    assert_eq!(header(&head, "content-length"), Some("5"));
    assert_eq!(header(&head, "accept-ranges"), Some("bytes"));
    let full = full_reply(&digest(), 5);
    assert_eq!(full.status, 200);
    assert_eq!(header(&full, "docker-content-digest"), Some(DIGEST));
    assert_eq!(delete_reply().status, 202);
}

#[test]
fn blob_methods_are_told_apart() {
    assert_eq!(layerhouse::routes::blobs::dispatch("HEAD").unwrap(), BlobCall::Head);
    assert_eq!(layerhouse::routes::blobs::dispatch("GET").unwrap(), BlobCall::Get);
    assert_eq!(layerhouse::routes::blobs::dispatch("DELETE").unwrap(), BlobCall::Delete);
    assert_eq!(layerhouse::routes::blobs::dispatch("PATCH").unwrap_err().status(), 405);
}

#[test]
fn unreferenced_blob_delete_hides_blob_until_gc_deletes_bytes() {
    let hidden = BlobLifecycleStatus {
        digest: DIGEST.to_string(),
        referenced: false,
        delete_requested: true,
        ref_count: 0,
    };
    match lookup_start(&hidden, DIGEST) {
        LookupStep::Failed(e) => assert_eq!(e.code(), "BLOB_UNKNOWN"),
        other => panic!("{other:?}"),
    }
    let referenced = BlobLifecycleStatus {
        referenced: true,
        ..hidden
    };
    assert!(matches!(
        lookup_start(&referenced, DIGEST),
        LookupStep::Stat
    ));
}

#[test]
fn missing_blob_still_returns_blob_unknown_in_redirect_mode() {
    assert!(matches!(
        lookup_stat(Err(LayerhouseError::BlobUnknown("x".to_string()))),
        LookupStep::Pull
    ));
    match lookup_pulled(Ok(false), DIGEST) {
        LookupStep::Failed(e) => {
            assert_eq!(e.status(), 404);
            assert_eq!(e.code(), "BLOB_UNKNOWN");
        }
        other => panic!("{other:?}"),
    }
}

#[test]
fn a_pulled_blob_is_looked_up_again() {
    assert!(matches!(lookup_stat(Ok(3)), LookupStep::Found(3)));
    assert!(matches!(
        lookup_pulled(Ok(true), DIGEST),
        LookupStep::StatAgain
    ));
    assert!(matches!(
        lookup_stat_again(Ok(7), DIGEST),
        LookupStep::Found(7)
    ));
    assert!(matches!(
        lookup_stat_again(Err(LayerhouseError::Internal("io".to_string())), DIGEST),
        LookupStep::Failed(LayerhouseError::BlobUnknown(_))
    ));
    assert!(matches!(
        lookup_stat(Err(LayerhouseError::Internal("io".to_string()))),
        LookupStep::Failed(LayerhouseError::Internal(_))
    ));
}

// ── Uploads ───────────────────────────────────────────────────────────────

#[test]
fn start_upload_returns_location_header() {
    let id = new_session_id();
    assert_eq!(id.len(), 36);
    let reply = started_reply("repo", &id);
    assert_eq!(reply.status, 202);
    assert_eq!(
        header(&reply, "location"),
        Some(format!("/v2/repo/blobs/uploads/{id}").as_str())
    );
}

#[test]
fn upload_ids_differ() {
    let id = new_session_id();
    assert_ne!(id, new_session_id());
    for (i, c) in id.chars().enumerate() {
        match i {
            8 | 13 | 18 | 23 => assert_eq!(c, '-'),
            14 => assert_eq!(c, '4'),
            _ => assert!(c.is_ascii_digit() || ('a'..='f').contains(&c)),
        }
    }
}

#[test]
fn get_nonexistent_upload_returns_404() {
    let error = upload_session(None, "repo", "nope").unwrap_err();
    assert_eq!(error.status(), 404);
    assert_eq!(error.code(), "BLOB_UPLOAD_UNKNOWN");
}

#[test]
fn an_upload_belongs_to_its_repository() {
    let session = || UploadSession {
        repository: "team/app".to_string(),
        offset: 0,
    };
    assert!(upload_session(Some(session()), "team/app", "id").is_ok());
    assert!(upload_session(Some(session()), "team/other", "id").is_err());
}

#[test]
fn delete_upload_returns_no_content() {
    assert_eq!(cancelled_reply().status, 204);
}

#[test]
fn non_post_to_start_upload_rejected() {
    assert_eq!(dispatch_start("GET").unwrap_err().status(), 405);
    assert!(dispatch_start("POST").is_ok());
}

#[test]
fn upload_methods_are_told_apart() {
    assert_eq!(dispatch_session("GET").unwrap(), UploadCall::Status);
    assert_eq!(dispatch_session("PATCH").unwrap(), UploadCall::Append);
    assert_eq!(dispatch_session("PUT").unwrap(), UploadCall::Complete);
    assert_eq!(dispatch_session("DELETE").unwrap(), UploadCall::Cancel);
    assert!(dispatch_session("POST").is_err());
}

#[test]
fn monolithic_blob_upload_with_digest_completes_immediately() {
    let start = start_upload(&query_params(Some(&format!("digest={DIGEST}")))).unwrap();
    assert!(matches!(start, UploadStart::Monolithic { .. }));
    let reply = created_reply("repo", &digest());
    assert_eq!(reply.status, 201);
    assert_eq!(
        header(&reply, "location"),
        Some(format!("/v2/repo/blobs/{DIGEST}").as_str())
    );
}

#[test]
fn blobs_that_cannot_be_mounted_are_uploaded() {
    let mount = || start_upload(&query_params(Some(&format!("mount={DIGEST}&from=src")))).unwrap();
    assert!(matches!(
        settle_start(mount(), true),
        UploadStart::Mount { digest, from } if digest.to_string() == DIGEST && from == "src"
    ));
    assert_eq!(settle_start(mount(), false), UploadStart::Session);
    let whole = start_upload(&query_params(Some(&format!("digest={DIGEST}")))).unwrap();
    assert!(matches!(
        settle_start(whole, false),
        UploadStart::Monolithic(_)
    ));
}

#[test]
fn uploads_start_by_their_parameters() {
    assert!(matches!(
        start_upload(&query_params(None)).unwrap(),
        UploadStart::Session
    ));
    assert_eq!(
        start_upload(&query_params(Some("digest=nope")))
            .unwrap_err()
            .code(),
        "DIGEST_INVALID"
    );
    assert!(completion_digest(&query_params(None)).is_err());
    assert_eq!(
        completion_digest(&query_params(Some(&format!("digest={DIGEST}"))))
            .unwrap()
            .to_string(),
        DIGEST
    );
}

#[test]
fn chunks_must_follow_each_other() {
    assert_eq!(parse_content_range_start("10-19"), Some(10));
    assert_eq!(parse_content_range_start("x"), None);
    assert!(!chunk_out_of_order(Some("10-19"), 10));
    assert!(chunk_out_of_order(Some("11-19"), 10));
    assert!(!chunk_out_of_order(None, 10));
    let reply = out_of_order_reply("repo", "id", 10);
    assert_eq!(reply.status, 416);
    assert_eq!(header(&reply, "range"), Some("0-9"));
    assert_eq!(appended_reply("repo", "id", 10).status, 202);
    assert_eq!(status_reply("repo", "id", 10).status, 204);
    assert_eq!(upload_limit_reached().status(), 429);
}

// ── Manifests ─────────────────────────────────────────────────────────────

#[test]
fn put_invalid_json_rejected() {
    let error = put_manifest(
        "repo",
        Some("application/vnd.oci.image.manifest.v1+json"),
        b"not json".to_vec(),
        &vec![],
        None,
        1,
    )
    .unwrap_err();
    assert_eq!(error.status(), 400);
    assert!(error.message().starts_with("invalid JSON: "));
}

#[test]
fn put_unknown_media_type_rejected() {
    let error = read_manifest(Some("text/plain"), b"{}").unwrap_err();
    assert_eq!(error.message(), "unsupported media type: text/plain");
    assert!(read_manifest(None, b"{}").is_ok());
}

fn pushed_body() -> Vec<u8> {
    format!(
        r#"{{"config":{{"digest":"{DIGEST}","size":2}},"layers":[{{"digest":"{DIGEST}","size":4}}]}}"#
    )
    .into_bytes()
}

#[test]
fn put_manifest_names_the_first_missing_blob() {
    let error = put_manifest("repo", None, pushed_body(), &vec![true, false], None, 1).unwrap_err();
    assert_eq!(error.code(), "MANIFEST_BLOB_UNKNOWN");
    assert_eq!(error.message(), DIGEST);
}

#[test]
fn put_manifest_stores_under_the_digest_of_the_body() {
    let body = pushed_body();
    let (entry, reply) =
        put_manifest("repo", None, body.clone(), &vec![true, true], None, 7).unwrap();
    let name = Digest::sha256(&body).to_string();
    assert_eq!(entry.digest.to_string(), name);
    assert_eq!(entry.body, body);
    assert_eq!(entry.referenced_blobs.len(), 1);
    assert_eq!(entry.created_at, 7);
    assert_eq!(reply.status, 201);
    assert_eq!(
        header(&reply, "location"),
        Some(format!("/v2/repo/manifests/{name}").as_str())
    );
    assert_eq!(header(&reply, "docker-content-digest"), Some(name.as_str()));
}

#[test]
fn put_manifest_overwrite_denied_without_update_grant() {
    // The tag is absent, so this is a Create.
    assert_eq!(overwrite_check(true, false, true), Ok(false));
    // The tag exists, so the right to update is checked at write time.
    assert_eq!(overwrite_check(true, true, true), Ok(true));
    let error = put_manifest(
        "team-a/app",
        None,
        b"{}".to_vec(),
        &vec![],
        Some(LayerhouseError::Denied("update".to_string())),
        1,
    )
    .unwrap_err();
    assert_eq!(error.status(), 403);
}

#[test]
fn put_manifest_overwrite_needs_an_identity() {
    assert_eq!(overwrite_check(true, true, false).unwrap_err().status(), 401);
    assert_eq!(overwrite_check(false, true, false), Ok(false));
}

#[test]
fn delete_tag_rejected() {
    assert_eq!(delete_target("latest").unwrap_err().status(), 405);
}

#[test]
fn delete_nonexistent_digest_returns_accepted() {
    assert_eq!(delete_target(DIGEST).unwrap().to_string(), DIGEST);
    assert_eq!(deleted_reply().status, 202);
}

#[test]
fn get_nonexistent_manifest_returns_404() {
    assert_eq!(resolve_step(false, true), ResolveStep::Pull);
    assert_eq!(pulled_parts(None, "v1").unwrap_err().status(), 404);
}

#[test]
fn head_nonexistent_manifest_returns_404() {
    assert_eq!(resolve_step(false, false), ResolveStep::AskUpstream);
    assert_eq!(head_parts(None, "v1").unwrap_err().status(), 404);
}

#[test]
fn manifests_are_described_by_their_parts() {
    let parts = validated_parts(manifest_entry(b"{}"), None, true);
    assert_eq!(parts.content_length, Some(2));
    assert_eq!(parts.body, Some(b"{}".to_vec()));
    let newer = validated_parts(manifest_entry(b"{}"), Some(manifest_entry(b"{ }")), false);
    assert_eq!(newer.digest, Digest::sha256(b"{ }").to_string());
    assert_eq!(newer.body, None);
    let reply = respond_manifest(&parts);
    assert_eq!(reply.status, 200);
    assert_eq!(header(&reply, "content-length"), Some("2"));
    assert_eq!(resolve_step(true, false), ResolveStep::Validate);
    let head = head_parts(
        Some(ManifestHead {
            content_type: "a/b".to_string(),
            digest: DIGEST.to_string(),
            content_length: None,
        }),
        "v1",
    )
    .unwrap();
    assert_eq!(
        head,
        ManifestResponseParts {
            content_type: "a/b".to_string(),
            digest: DIGEST.to_string(),
            content_length: None,
            body: None,
        }
    );
}

#[test]
fn manifest_methods_are_told_apart() {
    assert_eq!(layerhouse::routes::manifests::dispatch("GET").unwrap(), ManifestCall::Get);
    assert_eq!(layerhouse::routes::manifests::dispatch("HEAD").unwrap(), ManifestCall::Head);
    assert_eq!(layerhouse::routes::manifests::dispatch("PUT").unwrap(), ManifestCall::Put);
    assert_eq!(layerhouse::routes::manifests::dispatch("DELETE").unwrap(), ManifestCall::Delete);
    assert_eq!(layerhouse::routes::manifests::dispatch("POST").unwrap_err().status(), 405);
}

// ── Referrers ─────────────────────────────────────────────────────────────

#[test]
fn referrers_returns_empty_for_unknown_subject() {
    assert!(referrer_manifests(&vec![]).is_empty());
    let reply = referrers_reply(false);
    assert_eq!(reply.status, 200);
    assert_eq!(header(&reply, "oci-filters-applied"), None);
}

#[test]
fn referrers_returns_entry_for_referring_manifest() {
    let listed = referrer_manifests(&vec![ReferrerEntry {
        digest: digest(),
        media_type: "application/vnd.oci.image.manifest.v1+json".to_string(),
        size: 2,
        artifact_type: Some("application/vnd.example".to_string()),
        annotations: Some(Json::Null),
    }]);
    assert_eq!(listed.len(), 1);
    assert_eq!(listed[0].digest, DIGEST);
    assert_eq!(listed[0].size, 2);
    assert_eq!(
        header(&referrers_reply(true), "oci-filters-applied"),
        Some("artifactType")
    );
}

// ── Health ────────────────────────────────────────────────────────────────

fn node(id: u64) -> NodeInfo {
    NodeInfo {
        id,
        addr: format!("node-{id}:5051"),
    }
}

fn cluster(replication: Vec<(u64, Option<u64>)>) -> ClusterStatus {
    ClusterStatus {
        node_id: 1,
        state: NodeState::Leader,
        leader_id: Some(1),
        leader_addr: Some("node-1:5051".to_string()),
        voters: vec![node(1), node(2), node(3)],
        learners: vec![],
        term: 4,
        last_log_index: Some(10),
        last_applied_log: Some(10),
        last_membership_log_id: Some(1),
        millis_since_quorum_ack: None,
        replication: replication.into_iter().collect(),
    }
}

#[test]
fn healthy_voters_are_those_that_keep_up() {
    assert_eq!(
        healthy_voters(&cluster(vec![(2, Some(10)), (3, Some(9))])),
        2
    );
    assert_eq!(healthy_voters(&cluster(vec![])), 1);
}

#[test]
fn readiness_needs_blobs_and_a_leader() {
    assert_eq!(readyz(None, Some(&cluster(vec![]))).0, 200);
    assert_eq!(readyz(Some("no disk"), Some(&cluster(vec![]))).0, 503);
    let mut lost = cluster(vec![]);
    lost.leader_id = None;
    assert_eq!(readyz(None, Some(&lost)).0, 503);
}

#[test]
fn metrics_endpoint_returns_process_health_metric() {
    let gc = GcMetrics {
        last_run_at: 5,
        deleted: 6,
        delete_errors: 7,
    };
    let text = metrics(None, &gc, None);
    assert!(text.contains("layerhouse_up 1"), "{text}");
    let jwks = JwksMetrics {
        key_count: 2,
        cache_age_seconds: 3,
        stale_mode: true,
        refresh_failures: 4,
        endpoint: None,
    };
    let all = metrics(Some(&cluster(vec![])), &gc, Some(&jwks));
    assert!(all.len() > text.len());
}
