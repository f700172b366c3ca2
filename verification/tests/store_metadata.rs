use layerhouse::store::metadata::handle::{handle_of, validate_handle, validate_repository_path};
use layerhouse::store::metadata::typed_id::OrgId;
use layerhouse::store::metadata::types::{SyncJobRun, SyncRunEventKind, SyncRunStatus};

#[test]
fn handle_accepts_valid_examples() {
    for s in ["alice", "alice-1", "apache-airflow", "a-b-c", "abc", "x9z"] {
        validate_handle(s).unwrap_or_else(|_| panic!("expected {s:?} to be valid"));
    }
}

#[test]
fn handle_rejects_invalid_examples() {
    let bad = [
        ("Alice", "uppercase"),
        ("1", "too short"),
        ("ab", "too short"),
        ("--", "leading dash + consecutive"),
        ("a--b", "consecutive dashes"),
        ("-alice", "leading dash"),
        ("alice-", "trailing dash"),
        ("alice_1", "underscore"),
        ("alice.1", "dot"),
        ("alice 1", "space"),
        (&"a".repeat(40), "too long"),
    ];
    for (s, reason) in bad {
        assert!(
            validate_handle(s).is_err(),
            "expected {s:?} to be rejected ({reason})"
        );
    }
}

#[test]
fn repository_path_accepts_valid_examples() {
    for s in [
        "alice/app",
        "alice/app/sub/leaf",
        "team-1/svc.api",
        "alice/sub_dir/v1",
    ] {
        validate_repository_path(s).unwrap_or_else(|_| panic!("expected {s:?} to be valid"));
    }
}

#[test]
fn repository_path_rejects_invalid_examples() {
    let bad = [
        "alice",
        "alice/",
        "/alice/app",
        "alice//app",
        "Alice/app",
        "",
        "alice/APP",
        "alice/app!",
    ];
    for s in bad {
        assert!(
            validate_repository_path(s).is_err(),
            "expected {s:?} to be rejected"
        );
    }
}

#[test]
fn handle_of_extracts_first_segment() {
    assert_eq!(handle_of("alice/app").unwrap(), "alice");
    assert_eq!(handle_of("alice/app/sub").unwrap(), "alice");
    assert_eq!(handle_of("team-1/svc/api/v2").unwrap(), "team-1");
}

#[test]
fn handle_of_rejects_bare_handle_or_missing_name() {
    assert!(handle_of("alice").is_err());
    assert!(handle_of("alice/").is_err());
}

#[test]
fn generate_produces_parseable_id() {
    for _ in 0..1000 {
        let id = OrgId::generate();
        let parsed = OrgId::parse(id.as_str()).expect("generated id parses");
        assert_eq!(parsed, id);
        assert!(id.as_str().starts_with("lhsorg-"));
        assert_eq!(id.as_str().len(), "lhsorg-".len() + 32);
    }
}

#[test]
fn parse_rejects_wrong_prefix() {
    assert!(OrgId::parse("lhsuser-00000000000000000000000000000000").is_err());
    assert!(OrgId::parse("00000000000000000000000000000000").is_err());
}

#[test]
fn parse_rejects_wrong_length() {
    assert!(OrgId::parse("lhsorg-").is_err());
    assert!(OrgId::parse("lhsorg-0").is_err());
    assert!(OrgId::parse("lhsorg-000000000000000000000000000000001").is_err());
}

#[test]
fn parse_rejects_uppercase_hex() {
    assert!(OrgId::parse("lhsorg-AAAAAAAAAAAAAAAAAAAAAAAAAAAAAAAA").is_err());
}

#[test]
fn parse_rejects_non_hex() {
    assert!(OrgId::parse("lhsorg-zzzzzzzzzzzzzzzzzzzzzzzzzzzzzzzz").is_err());
    assert!(OrgId::parse("lhsorg-0000000000000000000000000000000g").is_err());
}

#[test]
fn parse_rejects_trailing_whitespace() {
    assert!(OrgId::parse("lhsorg-00000000000000000000000000000000 ").is_err());
}

fn run() -> SyncJobRun {
    SyncJobRun::running(
        "run-1".to_string(),
        "job-1".to_string(),
        "node-1".to_string(),
        10,
    )
}

#[test]
fn sync_run_progress_tracks_successful_tag_completion() {
    let mut run = run();
    run.mark_resolution_started(11);
    run.mark_resolution_finished(2, 12);
    run.mark_tag_started("3.20", "Pulling tag", 13);
    run.mark_tag_finished("3.20", SyncRunEventKind::Success, "Synced tag", 1, 14);
    run.mark_tag_started("3.21", "Pulling tag", 15);
    run.mark_tag_finished("3.21", SyncRunEventKind::Success, "Synced tag", 2, 16);
    run.mark_finished(
        SyncRunStatus::Succeeded,
        vec!["3.20".to_string(), "3.21".to_string()],
        Vec::new(),
        17,
    );

    assert_eq!(run.status, SyncRunStatus::Succeeded);
    assert_eq!(run.phase, "Succeeded");
    assert_eq!(run.total_tags, 2);
    assert_eq!(run.completed_tags, 2);
    assert_eq!(run.current_tag, None);
    assert_eq!(run.updated_at, 17);
    assert_eq!(run.tags_synced, vec!["3.20", "3.21"]);
    assert!(run.tags_failed.is_empty());
    assert_eq!(
        run.recent_events.last().map(|event| &event.kind),
        Some(&SyncRunEventKind::Success)
    );
}

#[test]
fn sync_run_progress_tracks_partial_failure() {
    let mut run = run();
    run.mark_resolution_finished(2, 11);
    run.mark_tag_finished("3.20", SyncRunEventKind::Success, "Synced tag", 1, 12);
    run.mark_tag_finished("3.21", SyncRunEventKind::Error, "manifest unknown", 2, 13);
    run.mark_finished(
        SyncRunStatus::PartialFailure,
        vec!["3.20".to_string()],
        vec![("3.21".to_string(), "manifest unknown".to_string())],
        14,
    );

    assert_eq!(run.status, SyncRunStatus::PartialFailure);
    assert_eq!(run.phase, "Partial failure");
    assert_eq!(run.completed_tags, 2);
    assert_eq!(run.tags_failed.len(), 1);
    assert_eq!(
        run.recent_events.last().map(|event| &event.kind),
        Some(&SyncRunEventKind::Warning)
    );
}

#[test]
fn sync_run_progress_tracks_resolution_failure() {
    let mut run = run();
    run.mark_resolution_started(11);
    run.mark_resolution_failed("registry unavailable", 12);
    run.mark_finished(
        SyncRunStatus::Failed,
        Vec::new(),
        vec![("resolve".to_string(), "registry unavailable".to_string())],
        13,
    );

    assert_eq!(run.status, SyncRunStatus::Failed);
    assert_eq!(run.phase, "Failed");
    assert_eq!(run.total_tags, 0);
    assert_eq!(run.completed_tags, 0);
    assert_eq!(run.tags_failed[0].0, "resolve");
    assert_eq!(
        run.recent_events.last().map(|event| &event.kind),
        Some(&SyncRunEventKind::Error)
    );
}

#[test]
fn sync_run_recent_events_are_bounded() {
    let mut run = run();
    run.mark_resolution_finished(100, 11);
    for idx in 0..75 {
        run.mark_tag_finished(
            &format!("tag-{idx}"),
            SyncRunEventKind::Info,
            "progress",
            idx,
            12 + idx as u64,
        );
    }

    assert_eq!(run.recent_events.len(), 50);
    assert_eq!(run.recent_events[0].tag.as_deref(), Some("tag-25"));
    assert_eq!(run.recent_events[49].tag.as_deref(), Some("tag-74"));
}
