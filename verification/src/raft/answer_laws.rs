//! How answers of the replicated state and snapshots of it are read.
use super::membership::RaftMetrics;
use super::router::{
    checked_response, delete_manifests, delete_manifests_request, delete_personal_access_token,
    delete_repository, delete_repository_meta, delete_tag, follower_read_lag, job_response,
    job_taken, manifest_response, mirror_config_response, put_manifest_request, read_metrics,
    record_blob_delete_request, repository_response, show_response, token_response,
    trigger_mirror_rule, trigger_proxy_cache_warm, ReadMetrics,
};
use super::snapshot::{frame_snapshot, snapshot_id, snapshot_payload, SnapshotError};
use super::{
    JobResponse, ManifestRequest, ManifestResponse, MirrorConfigResponse, NamespaceResponse,
    RepositoryResponse, Response, TokenResponse,
};
use crate::error::LayerhouseError;
use crate::oci::digest::Digest;
use crate::store::metadata::types::{BlobDeleteStatus, DeleteCounts, ManifestEntry, SyncJob};
use crate::text::decimal_text;
use vstd::prelude::*;

verus! {

// ── Reads ────────────────────────────────────────────────────────────────

/// A follower that has more than a hundred entries of its log yet to apply is warned of,
/// with their number; the leader never is.
pub proof fn lemma_lagging_reads(
    m: &RaftMetrics,
    node_id: u64,
    metrics: &ReadMetrics,
    own: ReadMetrics,
    r: Option<u64>,
)
    requires
        call_ensures(read_metrics, (m, node_id), own),
        own == *metrics,
        call_ensures(follower_read_lag, (metrics,), r),
    ensures
        m@.current_leader == Some(node_id) ==> r is None,
        m@.last_log_index is None ==> r is None,
        m@.current_leader != Some(node_id) ==> (m@.last_log_index matches Some(newest) ==> (
        m@.last_applied matches Some(applied) ==> (if newest > applied + 100 {
            r == Some((newest - applied) as u64)
        } else {
            r is None
        }))),
        m@.current_leader != Some(node_id) && m@.last_applied is None ==> (
        m@.last_log_index matches Some(newest) ==> (if newest > 100 {
            r == Some(newest)
        } else {
            r is None
        })),
{
}

// ── Answers ──────────────────────────────────────────────────────────────

/// A refusal becomes the error of the same kind with the same words; any other answer is
/// handed on as it is.
pub proof fn lemma_refusals_become_errors(
    response: Response,
    r: Result<Response, LayerhouseError>,
)
    requires
        call_ensures(checked_response, (response,), r),
    ensures
        response matches Response::Error(m) ==> (r matches Err(LayerhouseError::Internal(t)) && t@
            == m@),
        response matches Response::InternalError(m) ==> (r matches Err(LayerhouseError::Internal(t))
            && t@ == m@),
        response matches Response::NameUnknown(m) ==> (r matches Err(
            LayerhouseError::NameUnknown(t),
        ) && t@ == m@),
        response matches Response::Denied(m) ==> (r matches Err(LayerhouseError::Denied(t)) && t@
            == m@),
        response matches Response::Conflict(m) ==> (r matches Err(LayerhouseError::Conflict(t))
            && t@ == m@),
        response matches Response::NameInvalid(m) ==> (r matches Err(
            LayerhouseError::NameInvalid(t),
        ) && t@ == m@),
        response is Manifest || response is MirrorConfig || response is Job || response is Token
            || response is Repository || response is Namespace ==> r == Ok::<
            Response,
            LayerhouseError,
        >(response),
{
}

/// Each call takes the answer of its own kind out, and nothing else.
pub proof fn lemma_answers_of_each_kind(
    response: Response,
    manifest: Result<ManifestResponse, LayerhouseError>,
    config: Result<MirrorConfigResponse, LayerhouseError>,
    job: Result<JobResponse, LayerhouseError>,
    token: Result<TokenResponse, LayerhouseError>,
    repository: Result<RepositoryResponse, LayerhouseError>,
)
    requires
        call_ensures(manifest_response, (response,), manifest),
        call_ensures(mirror_config_response, (response,), config),
        call_ensures(job_response, (response,), job),
        call_ensures(token_response, (response,), token),
        call_ensures(repository_response, (response,), repository),
    ensures
        manifest matches Ok(x) ==> response == Response::Manifest(x),
        response is Manifest ==> manifest is Ok,
        config matches Ok(x) ==> response == Response::MirrorConfig(x),
        response is MirrorConfig ==> config is Ok,
        job matches Ok(x) ==> response == Response::Job(x),
        response is Job ==> job is Ok,
        token matches Ok(x) ==> response == Response::Token(x),
        response is Token ==> token is Ok,
        repository matches Ok(x) ==> response == Response::Repository(x),
        response is Repository ==> repository is Ok,
        response is Denied ==> (manifest matches Err(LayerhouseError::Denied(_))) && (config matches Err(
            LayerhouseError::Denied(_),
        )) && (job matches Err(LayerhouseError::Denied(_))) && (token matches Err(
            LayerhouseError::Denied(_),
        )) && (repository matches Err(LayerhouseError::Denied(_))),
{
}

/// What a change of manifests came to is read as it was answered.
pub proof fn lemma_answers_to_manifest_changes(
    response: ManifestResponse,
    tag: Result<bool, LayerhouseError>,
    repository: Result<DeleteCounts, LayerhouseError>,
    manifests: Result<DeleteCounts, LayerhouseError>,
    blob: Result<BlobDeleteStatus, LayerhouseError>,
)
    requires
        call_ensures(delete_tag, (response,), tag),
        call_ensures(delete_repository, (response,), repository),
        call_ensures(delete_manifests, (response,), manifests),
        call_ensures(record_blob_delete_request, (response,), blob),
    ensures
        response matches ManifestResponse::Bool(b) ==> tag == Ok::<bool, LayerhouseError>(b),
        tag is Ok ==> response is Bool,
        response matches ManifestResponse::DeleteCounts(c) ==> repository == Ok::<
            DeleteCounts,
            LayerhouseError,
        >(c) && manifests == Ok::<DeleteCounts, LayerhouseError>(c),
        repository is Ok ==> response is DeleteCounts,
        manifests is Ok ==> response is DeleteCounts,
        response matches ManifestResponse::BlobDeleteStatus(s) ==> blob == Ok::<
            BlobDeleteStatus,
            LayerhouseError,
        >(s),
        blob is Ok ==> response is BlobDeleteStatus,
{
}

/// A trigger that was refused because the rule or the cache is at work is a conflict, and
/// only that is; one that made a job hands it on.
pub proof fn lemma_answers_to_triggers(
    response: MirrorConfigResponse,
    rule: Result<Option<SyncJob>, LayerhouseError>,
    cache: Result<Option<SyncJob>, LayerhouseError>,
)
    requires
        call_ensures(trigger_mirror_rule, (response,), rule),
        call_ensures(trigger_proxy_cache_warm, (response,), cache),
    ensures
        rule is Err <==> response == MirrorConfigResponse::Bool(false),
        rule matches Err(e) ==> e is Conflict,
        cache is Err <==> response == MirrorConfigResponse::Bool(false),
        cache matches Err(e) ==> e is Conflict,
        response matches MirrorConfigResponse::SyncJob(job) ==> rule == Ok::<
            Option<SyncJob>,
            LayerhouseError,
        >(job) && cache == Ok::<Option<SyncJob>, LayerhouseError>(job),
{
}

/// Something was taken or deleted where the answer says so, and not otherwise.
pub proof fn lemma_answers_yes_or_no(
    job: JobResponse,
    taken: bool,
    token: TokenResponse,
    token_gone: Result<bool, LayerhouseError>,
    repository: RepositoryResponse,
    repository_gone: bool,
)
    requires
        call_ensures(job_taken, (job,), taken),
        call_ensures(delete_personal_access_token, (token,), token_gone),
        call_ensures(delete_repository_meta, (repository,), repository_gone),
    ensures
        job matches JobResponse::Bool(b) ==> taken == b,
        job is Done ==> !taken,
        token matches TokenResponse::Bool(b) ==> token_gone == Ok::<bool, LayerhouseError>(b),
        token is Done ==> token_gone is Err,
        repository matches RepositoryResponse::Bool(b) ==> repository_gone == b,
        repository is Done ==> !repository_gone,
{
}

// ── Requests ─────────────────────────────────────────────────────────────

/// A request to store an entry carries the repository, the reference and the entry.
pub proof fn lemma_requests_carry_what_was_asked(
    name: &str,
    reference: &str,
    entry: ManifestEntry,
    put: ManifestRequest,
    digests: &Vec<Digest>,
    delete: ManifestRequest,
)
    requires
        call_ensures(put_manifest_request, (name, reference, entry), put),
        call_ensures(delete_manifests_request, (name, digests), delete),
    ensures
        put matches ManifestRequest::PutManifest {
            name: n,
            reference: t,
            digest,
            body,
            content_type,
            subject,
            artifact_type,
            created_at,
            last_modified,
            stored_size_bytes,
            manifest_size_bytes,
            ..
        } && n@ == name@ && t@ == reference@ && digest@ == entry@.digest && body@ == entry@.body
            && content_type@ == entry@.content_type && subject.deep_view() == entry@.subject
            && artifact_type.deep_view() == entry@.artifact_type && created_at == entry@.created_at
            && last_modified == entry@.last_modified && stored_size_bytes
            == entry@.stored_size_bytes && manifest_size_bytes == entry@.manifest_size_bytes,
        delete matches ManifestRequest::DeleteManifests { name: n, digests: d } && n@ == name@
            && d.deep_view() == digests.deep_view(),
{
}

// ── Snapshots ────────────────────────────────────────────────────────────

/// A snapshot that was written is read as it was.
pub proof fn lemma_snapshots_are_read_back(
    payload: &Vec<u8>,
    written: Vec<u8>,
    bytes: &Vec<u8>,
    r: Result<Vec<u8>, SnapshotError>,
)
    requires
        call_ensures(frame_snapshot, (payload,), written),
        bytes@ == written@,
        call_ensures(snapshot_payload, (bytes,), r),
    ensures
        r matches Ok(p) && p@ == payload@,
        written@.len() == payload@.len() + 4,
        written@.take(4) == seq![5u8, 0u8, 0u8, 0u8],
{
    assert(written@.skip(4) =~= payload@);
    assert(written@.take(4) =~= seq![5u8, 0u8, 0u8, 0u8]);
}

/// A snapshot of the versions two, four and five is read; one of another version is refused
/// with that version, and one too short to have a version is refused as such.
pub proof fn lemma_versions_of_snapshots(
    bytes: &Vec<u8>,
    version: u8,
    payload: Seq<u8>,
    r: Result<Vec<u8>, SnapshotError>,
)
    requires
        call_ensures(snapshot_payload, (bytes,), r),
    ensures
        bytes@.len() < 4 <==> r == Err::<Vec<u8>, SnapshotError>(SnapshotError::TooShort),
        bytes@ == seq![version, 0u8, 0u8, 0u8] + payload ==> (if version == 2 || version == 4
            || version == 5 {
            r matches Ok(p) && p@ == payload
        } else {
            r == Err::<Vec<u8>, SnapshotError>(SnapshotError::UnsupportedVersion(version as u32))
        }),
        bytes@.len() >= 4 && (bytes@[1] != 0 || bytes@[2] != 0 || bytes@[3] != 0) ==> (r matches Err(
            SnapshotError::UnsupportedVersion(_),
        )),
{
    if bytes@ == seq![version, 0u8, 0u8, 0u8] + payload {
        assert(bytes@.skip(4) =~= payload);
    }
}

/// A snapshot is named by the leader and the place of the last change in it.
pub proof fn lemma_names_of_snapshots(leader: String, index: u64, r: String, empty: String)
    requires
        call_ensures(snapshot_id, (Some((leader, index)),), r),
        call_ensures(snapshot_id, (None::<(String, u64)>,), empty),
    ensures
        r@ == leader@ + "-"@ + decimal_text(index as nat),
        empty@ == "empty"@,
{
}

/// The version of a snapshot is its first four bytes, the lowest first.
pub proof fn lemma_refused_versions(
    bytes: &Vec<u8>,
    version: u32,
    r: Result<Vec<u8>, SnapshotError>,
)
    requires
        call_ensures(snapshot_payload, (bytes,), r),
        r == Err::<Vec<u8>, SnapshotError>(SnapshotError::UnsupportedVersion(version)),
    ensures
        bytes@.len() >= 4,
        version == bytes@[0] + 0x100 * bytes@[1] + 0x10000 * bytes@[2] + 0x1000000 * bytes@[3],
{
}

/// An answer that says no more than that a change was made is shown by its kind.
pub proof fn lemma_shown_answers(response: &Response, r: String)
    requires
        call_ensures(show_response, (response,), r),
    ensures
        response == Response::Manifest(ManifestResponse::Done) ==> r@ == "Manifest(Ok)"@,
        response == Response::MirrorConfig(MirrorConfigResponse::Done) ==> r@
            == "MirrorConfig(Ok)"@,
        response == Response::Job(JobResponse::Done) ==> r@ == "Job(Ok)"@,
        response == Response::Token(TokenResponse::Done) ==> r@ == "Token(Ok)"@,
        response == Response::Repository(RepositoryResponse::Done) ==> r@ == "Repository(Ok)"@,
        response == Response::Namespace(NamespaceResponse::Done) ==> r@ == "Namespace(Ok)"@,
{
}

} // verus!
