use layerhouse::error::LayerhouseError;
use layerhouse::listing::paginate;
use layerhouse::oci::digest::Digest;
use layerhouse::oci::json::Json;
use layerhouse::oci::manifest::{
    extract_annotations, extract_artifact_type, extract_referenced_digests, extract_subject_digest,
    is_manifest_media_type, stored_size_bytes,
};
use layerhouse::raft::membership::{NodeState, RaftMetrics};
use layerhouse::raft::router::{
    checked_response, follower_read_lag, job_taken, manifest_response, read_metrics, token_response,
};
use layerhouse::raft::snapshot::{frame_snapshot, snapshot_id, snapshot_payload, SnapshotError};
use layerhouse::raft::{JobResponse, ManifestResponse, Response, TokenResponse};
use layerhouse::store::metadata::types::ManifestEntry;
use layerhouse::string_map::StringMap;
use std::collections::BTreeMap;

// ── Errors ────────────────────────────────────────────────────────────────

#[test]
fn errors_have_statuses_and_codes() {
    let m = || "m".to_string();
    let cases = [
        (LayerhouseError::BlobUnknown(m()), 404, "BLOB_UNKNOWN"),
        (
            LayerhouseError::BlobUploadInvalid(m()),
            400,
            "BLOB_UPLOAD_INVALID",
        ),
        (
            LayerhouseError::BlobUploadUnknown(m()),
            404,
            "BLOB_UPLOAD_UNKNOWN",
        ),
        (LayerhouseError::Conflict(m()), 409, "CONFLICT"),
        (LayerhouseError::Consensus(m()), 500, "INTERNAL_ERROR"),
        (LayerhouseError::Denied(m()), 403, "DENIED"),
        (LayerhouseError::DigestInvalid(m()), 400, "DIGEST_INVALID"),
        (LayerhouseError::Internal(m()), 500, "INTERNAL_ERROR"),
        (
            LayerhouseError::ManifestBlobUnknown(m()),
            404,
            "MANIFEST_BLOB_UNKNOWN",
        ),
        (
            LayerhouseError::ManifestInvalid(m()),
            400,
            "MANIFEST_INVALID",
        ),
        (
            LayerhouseError::ManifestUnknown(m()),
            404,
            "MANIFEST_UNKNOWN",
        ),
        (LayerhouseError::NameInvalid(m()), 400, "NAME_INVALID"),
        (LayerhouseError::NameUnknown(m()), 404, "NAME_UNKNOWN"),
        (LayerhouseError::Serialization(m()), 500, "INTERNAL_ERROR"),
        (
            LayerhouseError::TooManyRequests(m()),
            429,
            "TOOMANYREQUESTS",
        ),
        (
            LayerhouseError::Unauthorized {
                message: m(),
                realm: None,
                service: None,
                scope: None,
            },
            401,
            "UNAUTHORIZED",
        ),
        (LayerhouseError::Unsupported(m()), 405, "UNSUPPORTED"),
    ];
    for (error, status, code) in cases {
        assert_eq!(error.status(), status);
        assert_eq!(error.code(), code);
        assert_eq!(error.message(), "m");
    }
}

// ── Digests ───────────────────────────────────────────────────────────────

#[test]
fn digests_are_checked() {
    let hello = Digest::sha256(b"hello");
    assert_eq!(
        hello.to_string(),
        "sha256:2cf24dba5fb0a30e26e83b2ac5b9e29e1b161e5c1fa7425e73043362938b9824"
    );
    assert_eq!(
        hello.hex(),
        "2cf24dba5fb0a30e26e83b2ac5b9e29e1b161e5c1fa7425e73043362938b9824"
    );
    assert!(Digest::from_str_checked(&hello.to_string()).is_some());
    assert!(Digest::from_str_checked("sha256:short").is_none());
    assert!(Digest::from_str_checked("md5:00").is_none());
    assert!(Digest::from_str_checked(&hello.to_string().to_uppercase()).is_none());
    assert_eq!(
        Digest::parse("x").unwrap_err(),
        LayerhouseError::DigestInvalid("x".to_string())
    );
}

// ── JSON ──────────────────────────────────────────────────────────────────

#[test]
fn documents_are_read() {
    let doc = Json::parse(br#"{"a":1,"b":["x",null,true],"a2":-1.5}"#).unwrap();
    assert_eq!(doc.get("a").unwrap().as_u64(), Some(1));
    assert_eq!(doc.get("a2").unwrap().as_u64(), None);
    assert_eq!(
        doc.get("b").unwrap().as_list().unwrap()[0]
            .as_str()
            .map(String::as_str),
        Some("x")
    );
    assert!(doc.get("c").is_none());
    assert!(Json::parse(b"{").is_err());
    assert!(Json::from_slice(b"").is_none());
    assert_eq!(Json::from_slice(b"[]").unwrap().text(), "[]");
    assert_eq!(doc.text(), r#"{"a":1,"a2":-1.5,"b":["x",null,true]}"#);
    assert_eq!(
        Json::Text("say \"hi\"\n".to_string()).text(),
        r#""say \"hi\"\n""#
    );
}

// ── Manifests ─────────────────────────────────────────────────────────────

fn image(subject: &str) -> Json {
    let d = |n: u8| format!("sha256:{n:064x}");
    Json::parse(
        format!(
            r#"{{"artifactType":"application/vnd.example","config":{{"mediaType":"application/vnd.oci.image.config.v1+json","digest":"{}","size":2}},"layers":[{{"digest":"{}","size":4}},{{"digest":"{}","size":6}}],"subject":{{"digest":"{subject}"}},"annotations":{{"k":"v"}}}}"#,
            d(1),
            d(2),
            d(3)
        )
        .as_bytes(),
    )
    .unwrap()
}

#[test]
fn manifests_are_taken_apart() {
    let subject = format!("sha256:{:064x}", 9);
    let doc = image(&subject);
    let blobs: Vec<String> = extract_referenced_digests(&doc)
        .iter()
        .map(|d| d.to_string())
        .collect();
    assert_eq!(blobs.len(), 3);
    assert_eq!(blobs[0], format!("sha256:{:064x}", 1));
    assert_eq!(stored_size_bytes(&doc), 12);
    assert_eq!(extract_subject_digest(&doc).unwrap().to_string(), subject);
    assert!(extract_artifact_type(&doc).is_some());
    assert!(extract_annotations(&doc).is_some());
    assert!(is_manifest_media_type(
        "application/vnd.oci.image.manifest.v1+json"
    ));
    assert!(!is_manifest_media_type("text/plain"));
    let entry = ManifestEntry::from_parsed_json(&doc, "t".to_string(), b"{}".to_vec(), vec![]);
    assert_eq!(entry.digest, Digest::sha256(b"{}"));
    assert_eq!(entry.manifest_size_bytes, 2);
    assert!(entry.created_at > 1_700_000_000);
}

// ── Maps and lists ────────────────────────────────────────────────────────

#[test]
fn maps_list_their_keys_in_order() {
    let mut map: StringMap<u64> = StringMap::new();
    assert!(map.is_empty());
    assert_eq!(map.insert("b".to_string(), 2), None);
    assert_eq!(map.insert("a".to_string(), 1), None);
    assert_eq!(map.insert("b".to_string(), 3), Some(2));
    assert_eq!(map.keys(), vec!["a", "b"]);
    assert_eq!(map.get("b"), Some(&3));
    if let Some(v) = map.get_mut("a") {
        *v = 7;
    }
    assert_eq!(map.get("a"), Some(&7));
    assert_eq!(map.remove("a"), Some(7));
    assert!(!map.contains_key("a"));
    assert_eq!(map.len(), 1);
}

#[test]
fn pages_follow_each_other() {
    let keys: Vec<String> = ["a", "b", "c"].iter().map(|s| s.to_string()).collect();
    assert_eq!(
        paginate(vec![1u64, 2, 3], &keys, 2, None),
        (vec![1, 2], true)
    );
    assert_eq!(
        paginate(vec![1u64, 2, 3], &keys, 2, Some("b")),
        (vec![3], false)
    );
    assert_eq!(
        paginate(vec![1u64, 2, 3], &keys, 5, Some("zz")),
        (vec![1, 2, 3], false)
    );
}

// ── Snapshots ─────────────────────────────────────────────────────────────

#[test]
fn snapshots_are_framed_by_their_version() {
    let framed = frame_snapshot(&b"state".to_vec());
    assert_eq!(framed, b"\x05\0\0\0state".to_vec());
    assert_eq!(snapshot_payload(&framed), Ok(b"state".to_vec()));
    assert_eq!(
        snapshot_payload(&b"\x04\0\0\0old".to_vec()),
        Ok(b"old".to_vec())
    );
    assert_eq!(
        snapshot_payload(&b"\x05\0".to_vec()),
        Err(SnapshotError::TooShort)
    );
    assert_eq!(
        snapshot_payload(&b"\x09\0\0\0x".to_vec()),
        Err(SnapshotError::UnsupportedVersion(9))
    );
    assert_eq!(
        SnapshotError::UnsupportedVersion(9).message(),
        "unsupported snapshot version: 9"
    );
    assert_eq!(SnapshotError::TooShort.message(), "snapshot too short");
    assert_eq!(snapshot_id(Some(("T1-N2".to_string(), 7))), "T1-N2-7");
    assert_eq!(snapshot_id(None), "empty");
}

// ── Answers of the log ────────────────────────────────────────────────────

#[test]
fn answers_of_the_log_are_decoded() {
    assert!(matches!(
        manifest_response(Response::Manifest(ManifestResponse::Bool(true))),
        Ok(ManifestResponse::Bool(true))
    ));
    let error = manifest_response(Response::Token(TokenResponse::Bool(true))).unwrap_err();
    assert_eq!(error.status(), 500);
    assert_eq!(
        error.message(),
        "unexpected manifest response: Token(Bool(true))"
    );
    let error = manifest_response(Response::Token(TokenResponse::Done)).unwrap_err();
    assert_eq!(
        error.message(),
        "unexpected manifest response: Token(Ok)"
    );
    assert!(matches!(
        token_response(Response::Token(TokenResponse::Bool(false))),
        Ok(TokenResponse::Bool(false))
    ));
    assert!(matches!(
        checked_response(Response::Conflict("x".to_string())),
        Err(LayerhouseError::Conflict(_))
    ));
    assert!(matches!(
        checked_response(Response::Denied("x".to_string())),
        Err(LayerhouseError::Denied(_))
    ));
    assert!(job_taken(JobResponse::Bool(true)));
    assert!(!job_taken(JobResponse::Bool(false)));
}

#[test]
fn followers_that_lag_are_reported() {
    let metrics = RaftMetrics {
        id: 2,
        state: NodeState::Follower,
        current_leader: Some(1),
        current_term: 1,
        last_log_index: Some(500),
        last_applied: Some(100),
        membership_log: None,
        nodes: vec![],
        voter_ids: vec![],
        millis_since_quorum_ack: None,
        replication: BTreeMap::new(),
    };
    let read = read_metrics(&metrics, 2);
    assert!(!read.is_leader);
    assert_eq!(follower_read_lag(&read), Some(400));
    assert_eq!(follower_read_lag(&read_metrics(&metrics, 1)), None);
}
