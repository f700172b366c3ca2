//! How calls of the metadata store become changes of the replicated state, and
//! how the answers are read.
use super::membership::{RaftMetrics, RaftMetricsView};
use super::model::{pushed_entry, pushed_refs, sorted_unique};
use super::{
    JobResponse, ManifestRequest, ManifestResponse, ManifestResponseView, MirrorConfigResponse,
    MirrorConfigResponseView, NamespaceResponse, RepositoryResponse, Response, ResponseView,
    TokenResponse,
};
use crate::error::{ErrorView, LayerhouseError};
use crate::oci::digest::{is_digest, Digest};
use crate::store::metadata::types::{
    BlobDeleteStatus, DeleteCounts, ManifestEntry, ManifestEntryView, SyncJob,
};
use crate::text::concat2;
use vstd::prelude::*;

verus! {

/// How many entries a follower may lag behind before its reads are warned of.
pub const FOLLOWER_READ_LAG_THRESHOLD: u64 = 100;

// ── Reads ────────────────────────────────────────────────────────────────

/// How recent a read is.
#[derive(Debug, Clone, Copy, PartialEq, Eq, Structural)]
pub struct ReadMetrics {
    pub is_leader: bool,
    pub last_log_index: Option<u64>,
    pub last_applied: u64,
}

/// How recent the reads of a node are.
pub open spec fn read_metrics_of(m: RaftMetricsView, node_id: u64) -> ReadMetrics {
    ReadMetrics {
        is_leader: m.current_leader == Some(node_id),
        last_log_index: m.last_log_index,
        last_applied: match m.last_applied {
            Some(index) => index,
            None => 0,
        },
    }
}

/// How recent the reads of a node are.
pub fn read_metrics(m: &RaftMetrics, node_id: u64) -> (r: ReadMetrics)
    ensures
        r == read_metrics_of(m@, node_id),
{
    ReadMetrics {
        is_leader: match m.current_leader {
            Some(id) => id == node_id,
            None => false,
        },
        last_log_index: m.last_log_index,
        last_applied: match m.last_applied {
            Some(index) => index,
            None => 0,
        },
    }
}

/// How many entries a read lags behind.
pub open spec fn read_lag(m: ReadMetrics) -> int {
    let newest = match m.last_log_index {
        Some(index) => index,
        None => 0,
    };
    if newest >= m.last_applied {
        newest - m.last_applied
    } else {
        0
    }
}

/// The lag to warn of: that of a follower, where it exceeds the threshold.
pub fn follower_read_lag(m: &ReadMetrics) -> (r: Option<u64>)
    ensures
        match r {
            Some(lag) => !m.is_leader && lag == read_lag(*m) && lag > FOLLOWER_READ_LAG_THRESHOLD,
            None => m.is_leader || read_lag(*m) <= FOLLOWER_READ_LAG_THRESHOLD,
        },
{
    let newest: u64 = match m.last_log_index {
        Some(index) => index,
        None => 0,
    };
    let lag: u64 = newest.saturating_sub(m.last_applied);
    if !m.is_leader && lag > FOLLOWER_READ_LAG_THRESHOLD {
        Some(lag)
    } else {
        None
    }
}

// ── Answers ──────────────────────────────────────────────────────────────

/// The error that an answer stands for.
pub open spec fn response_error(r: ResponseView) -> Option<ErrorView> {
    match r {
        ResponseView::Error(m) => Some(ErrorView::Internal(m)),
        ResponseView::NameUnknown(m) => Some(ErrorView::NameUnknown(m)),
        ResponseView::Denied(m) => Some(ErrorView::Denied(m)),
        ResponseView::Conflict(m) => Some(ErrorView::Conflict(m)),
        ResponseView::NameInvalid(m) => Some(ErrorView::NameInvalid(m)),
        ResponseView::InternalError(m) => Some(ErrorView::Internal(m)),
        _ => None,
    }
}

/// An answer, or the error that it stands for.
pub fn checked_response(response: Response) -> (r: Result<Response, LayerhouseError>)
    ensures
        match r {
            Ok(x) => x == response && response_error(response@) is None,
            Err(e) => response_error(response@) == Some(e@),
        },
{
    match response {
        Response::Error(m) => Err(LayerhouseError::Internal(m)),
        Response::NameUnknown(m) => Err(LayerhouseError::NameUnknown(m)),
        Response::Denied(m) => Err(LayerhouseError::Denied(m)),
        Response::Conflict(m) => Err(LayerhouseError::Conflict(m)),
        Response::NameInvalid(m) => Err(LayerhouseError::NameInvalid(m)),
        Response::InternalError(m) => Err(LayerhouseError::Internal(m)),
        other => Ok(other),
    }
}

/// The text that the `Debug` output of `std::fmt` shows for an answer.
pub uninterp spec fn debug_response(response: ResponseView) -> Seq<char>;

/// `format!` of `std::fmt` with `{:?}`. The claim is that the text depends on
/// the contents of the answer alone; what it looks like is left unsaid.
#[verifier::external_body]
fn shown(response: &Response) -> (r: String)
    ensures
        r@ == debug_response(response@),
{
    format!("{:?}", response)
}

/// The text that is shown for an answer. One that says no more than that the change
/// was made is shown as `Ok`.
pub open spec fn response_text(response: ResponseView) -> Seq<char> {
    match response {
        ResponseView::Manifest(ManifestResponseView::Done) => "Manifest(Ok)"@,
        ResponseView::MirrorConfig(MirrorConfigResponseView::Done) => "MirrorConfig(Ok)"@,
        ResponseView::Job(JobResponse::Done) => "Job(Ok)"@,
        ResponseView::Token(TokenResponse::Done) => "Token(Ok)"@,
        ResponseView::Repository(RepositoryResponse::Done) => "Repository(Ok)"@,
        ResponseView::Namespace(NamespaceResponse::Done) => "Namespace(Ok)"@,
        _ => debug_response(response),
    }
}

/// The text that is shown for an answer.
pub fn show_response(response: &Response) -> (r: String)
    ensures
        r@ == response_text(response@),
{
    match response {
        Response::Manifest(ManifestResponse::Done) => "Manifest(Ok)".to_string(),
        Response::MirrorConfig(MirrorConfigResponse::Done) => "MirrorConfig(Ok)".to_string(),
        Response::Job(JobResponse::Done) => "Job(Ok)".to_string(),
        Response::Token(TokenResponse::Done) => "Token(Ok)".to_string(),
        Response::Repository(RepositoryResponse::Done) => "Repository(Ok)".to_string(),
        Response::Namespace(NamespaceResponse::Done) => "Namespace(Ok)".to_string(),
        _ => shown(response),
    }
}

/// The error for an answer of the wrong kind: it names the kind that was
/// expected and shows the answer.
pub open spec fn unexpected_error(expected: Seq<char>, response: ResponseView) -> ErrorView {
    ErrorView::Internal(expected + response_text(response))
}

/// Makes the error for an answer of the wrong kind.
fn unexpected(expected: &str, response: &Response) -> (r: LayerhouseError)
    ensures
        r@ == unexpected_error(expected@, response@),
{
    let text = concat2(expected, &show_response(response));
    LayerhouseError::Internal(text)
}

/// The answer to a change of manifests.
pub fn manifest_response(response: Response) -> (r: Result<ManifestResponse, LayerhouseError>)
    ensures
        match (r, response) {
            (Ok(x), Response::Manifest(y)) => x == y,
            (Ok(_), _) => false,
            (Err(e), Response::Manifest(_)) => false,
            (Err(e), _) => match response_error(response@) {
                Some(error) => e@ == error,
                None => e@ == unexpected_error("unexpected manifest response: "@, response@),
            },
        },
{
    match checked_response(response) {
        Err(e) => Err(e),
        Ok(Response::Manifest(x)) => Ok(x),
        Ok(other) => Err(unexpected("unexpected manifest response: ", &other)),
    }
}

/// The answer to a change of mirrors and caches.
pub fn mirror_config_response(response: Response) -> (r: Result<
    MirrorConfigResponse,
    LayerhouseError,
>)
    ensures
        match (r, response) {
            (Ok(x), Response::MirrorConfig(y)) => x == y,
            (Ok(_), _) => false,
            (Err(e), Response::MirrorConfig(_)) => false,
            (Err(e), _) => match response_error(response@) {
                Some(error) => e@ == error,
                None => e@ == unexpected_error("unexpected mirror config response: "@, response@),
            },
        },
{
    match checked_response(response) {
        Err(e) => Err(e),
        Ok(Response::MirrorConfig(x)) => Ok(x),
        Ok(other) => Err(unexpected("unexpected mirror config response: ", &other)),
    }
}

/// The answer to a change of jobs.
pub fn job_response(response: Response) -> (r: Result<JobResponse, LayerhouseError>)
    ensures
        match (r, response) {
            (Ok(x), Response::Job(y)) => x == y,
            (Ok(_), _) => false,
            (Err(e), Response::Job(_)) => false,
            (Err(e), _) => match response_error(response@) {
                Some(error) => e@ == error,
                None => e@ == unexpected_error("unexpected job response: "@, response@),
            },
        },
{
    match checked_response(response) {
        Err(e) => Err(e),
        Ok(Response::Job(x)) => Ok(x),
        Ok(other) => Err(unexpected("unexpected job response: ", &other)),
    }
}

/// The answer to a change of tokens.
pub fn token_response(response: Response) -> (r: Result<TokenResponse, LayerhouseError>)
    ensures
        match (r, response) {
            (Ok(x), Response::Token(y)) => x == y,
            (Ok(_), _) => false,
            (Err(e), Response::Token(_)) => false,
            (Err(e), _) => match response_error(response@) {
                Some(error) => e@ == error,
                None => e@ == unexpected_error("unexpected token response: "@, response@),
            },
        },
{
    match checked_response(response) {
        Err(e) => Err(e),
        Ok(Response::Token(x)) => Ok(x),
        Ok(other) => Err(unexpected("unexpected token response: ", &other)),
    }
}

/// The answer to a change of repositories.
pub fn repository_response(response: Response) -> (r: Result<RepositoryResponse, LayerhouseError>)
    ensures
        match (r, response) {
            (Ok(x), Response::Repository(y)) => x == y,
            (Ok(_), _) => false,
            (Err(e), Response::Repository(_)) => false,
            (Err(e), _) => match response_error(response@) {
                Some(error) => e@ == error,
                None => e@ == unexpected_error("unexpected repository response: "@, response@),
            },
        },
{
    match checked_response(response) {
        Err(e) => Err(e),
        Ok(Response::Repository(x)) => Ok(x),
        Ok(other) => Err(unexpected("unexpected repository response: ", &other)),
    }
}

/// Whether a tag was deleted.
pub fn delete_tag(response: ManifestResponse) -> (r: Result<bool, LayerhouseError>)
    ensures
        match r {
            Ok(b) => response == ManifestResponse::Bool(b),
            Err(e) => !(response is Bool) && e@ == ErrorView::Internal(
                "unexpected response for delete_tag"@,
            ),
        },
{
    match response {
        ManifestResponse::Bool(b) => Ok(b),
        _ => Err(LayerhouseError::Internal("unexpected response for delete_tag".to_string())),
    }
}

/// What the deletion of a repository removed.
pub fn delete_repository(response: ManifestResponse) -> (r: Result<DeleteCounts, LayerhouseError>)
    ensures
        match r {
            Ok(counts) => response == ManifestResponse::DeleteCounts(counts),
            Err(e) => !(response is DeleteCounts) && e@ == ErrorView::Internal(
                "unexpected response for delete_repository"@,
            ),
        },
{
    match response {
        ManifestResponse::DeleteCounts(counts) => Ok(counts),
        _ => Err(
            LayerhouseError::Internal("unexpected response for delete_repository".to_string()),
        ),
    }
}

/// What the deletion of some manifests removed.
pub fn delete_manifests(response: ManifestResponse) -> (r: Result<DeleteCounts, LayerhouseError>)
    ensures
        match r {
            Ok(counts) => response == ManifestResponse::DeleteCounts(counts),
            Err(e) => !(response is DeleteCounts) && e@ == ErrorView::Internal(
                "unexpected response for delete_manifests"@,
            ),
        },
{
    match response {
        ManifestResponse::DeleteCounts(counts) => Ok(counts),
        _ => Err(LayerhouseError::Internal("unexpected response for delete_manifests".to_string())),
    }
}

/// How a request to delete a blob was recorded.
pub fn record_blob_delete_request(response: ManifestResponse) -> (r: Result<
    BlobDeleteStatus,
    LayerhouseError,
>)
    ensures
        match r {
            Ok(status) => response == ManifestResponse::BlobDeleteStatus(status),
            Err(e) => !(response is BlobDeleteStatus) && e@ == ErrorView::Internal(
                "unexpected blob delete response"@,
            ),
        },
{
    match response {
        ManifestResponse::BlobDeleteStatus(status) => Ok(status),
        _ => Err(LayerhouseError::Internal("unexpected blob delete response".to_string())),
    }
}

/// The job that a trigger of a mirror rule started. A rule that runs already is
/// a conflict.
pub fn trigger_mirror_rule(response: MirrorConfigResponse) -> (r: Result<
    Option<SyncJob>,
    LayerhouseError,
>)
    ensures
        match r {
            Ok(Some(job)) => response == MirrorConfigResponse::SyncJob(Some(job)),
            Ok(None) => response == MirrorConfigResponse::SyncJob(None) || response is Done
                || response == MirrorConfigResponse::Bool(true),
            Err(e) => response == MirrorConfigResponse::Bool(false) && e@ == ErrorView::Conflict(
                "Rule is already running"@,
            ),
        },
{
    match response {
        MirrorConfigResponse::SyncJob(job) => Ok(job),
        MirrorConfigResponse::Bool(false) => Err(
            LayerhouseError::Conflict("Rule is already running".to_string()),
        ),
        _ => Ok(None),
    }
}

/// The job that a warm-up of a proxy cache started. A warm-up that runs already
/// is a conflict.
pub fn trigger_proxy_cache_warm(response: MirrorConfigResponse) -> (r: Result<
    Option<SyncJob>,
    LayerhouseError,
>)
    ensures
        match r {
            Ok(Some(job)) => response == MirrorConfigResponse::SyncJob(Some(job)),
            Ok(None) => response == MirrorConfigResponse::SyncJob(None) || response is Done
                || response == MirrorConfigResponse::Bool(true),
            Err(e) => response == MirrorConfigResponse::Bool(false) && e@ == ErrorView::Conflict(
                "Proxy cache warm-up is already running"@,
            ),
        },
{
    match response {
        MirrorConfigResponse::SyncJob(job) => Ok(job),
        MirrorConfigResponse::Bool(false) => Err(
            LayerhouseError::Conflict("Proxy cache warm-up is already running".to_string()),
        ),
        _ => Ok(None),
    }
}

/// Whether a job was claimed or triggered.
pub fn job_taken(response: JobResponse) -> (r: bool)
    ensures
        r == (response == JobResponse::Bool(true)),
{
    match response {
        JobResponse::Bool(b) => b,
        JobResponse::Done => false,
    }
}

/// Whether a token was deleted.
pub fn delete_personal_access_token(response: TokenResponse) -> (r: Result<bool, LayerhouseError>)
    ensures
        match r {
            Ok(b) => response == TokenResponse::Bool(b),
            Err(e) => response is Done && e@ == ErrorView::Internal(
                "unexpected response for delete_personal_access_token"@,
            ),
        },
{
    match response {
        TokenResponse::Bool(b) => Ok(b),
        TokenResponse::Done => Err(
            LayerhouseError::Internal(
                "unexpected response for delete_personal_access_token".to_string(),
            ),
        ),
    }
}

/// Whether the object of a repository was deleted.
pub fn delete_repository_meta(response: RepositoryResponse) -> (r: bool)
    ensures
        r == (response == RepositoryResponse::Bool(true)),
{
    match response {
        RepositoryResponse::Bool(b) => b,
        RepositoryResponse::Done => false,
    }
}

// ── Requests ─────────────────────────────────────────────────────────────

/// Whether a request stores an entry under a reference of a repository.
pub open spec fn puts_entry(
    req: ManifestRequest,
    name: Seq<char>,
    reference: Seq<char>,
    e: ManifestEntryView,
) -> bool {
    match req {
        ManifestRequest::PutManifest {
            name: n,
            reference: t,
            digest,
            content_type,
            body,
            subject,
            artifact_type,
            annotations,
            stored_size_bytes,
            manifest_size_bytes,
            created_at,
            last_modified,
            config_summary,
            referenced_blobs,
        } => {
            &&& n@ == name
            &&& t@ == reference
            &&& e == ManifestEntryView {
                digest: digest@,
                content_type: content_type@,
                body: body@,
                referenced_blobs: referenced_blobs.deep_view(),
                subject: subject.deep_view(),
                artifact_type: artifact_type.deep_view(),
                annotations: annotations.deep_view(),
                stored_size_bytes,
                manifest_size_bytes,
                created_at,
                last_modified,
                config_summary: config_summary.deep_view(),
            }
        },
        _ => false,
    }
}

/// The texts of some digests.
fn digest_texts(digests: &Vec<Digest>) -> (r: Vec<String>)
    ensures
        r.deep_view() == digests.deep_view(),
{
    let mut r: Vec<String> = Vec::new();
    let mut i: usize = 0;
    while i < digests.len()
        invariant
            i <= digests@.len(),
            r@.len() == i,
            forall|j: int| 0 <= j < i ==> (#[trigger] r@[j])@ == digests@[j]@,
        decreases digests@.len() - i,
    {
        r.push(digests[i].to_string());
        i = i + 1;
    }
    assert(r.deep_view() =~= digests.deep_view());
    r
}

/// The request that stores an entry under a reference of a repository.
pub fn put_manifest_request(name: &str, reference: &str, entry: ManifestEntry) -> (r:
    ManifestRequest)
    ensures
        puts_entry(r, name@, reference@, entry@),
        is_digest(entry@.digest),
        entry@.subject matches Some(d) ==> is_digest(d),
{
    assert(entry.body.deep_view() =~= entry.body@);
    let digest = entry.digest.to_string();
    let subject = match &entry.subject {
        Some(d) => Some(d.to_string()),
        None => None,
    };
    let referenced_blobs = digest_texts(&entry.referenced_blobs);
    ManifestRequest::PutManifest {
        name: name.to_string(),
        reference: reference.to_string(),
        digest,
        content_type: entry.content_type,
        body: entry.body,
        subject,
        artifact_type: entry.artifact_type,
        annotations: entry.annotations,
        stored_size_bytes: entry.stored_size_bytes,
        manifest_size_bytes: entry.manifest_size_bytes,
        created_at: entry.created_at,
        last_modified: entry.last_modified,
        config_summary: entry.config_summary,
        referenced_blobs,
    }
}

/// The request that deletes some manifests of a repository.
pub fn delete_manifests_request(name: &str, digests: &Vec<Digest>) -> (r: ManifestRequest)
    ensures
        match r {
            ManifestRequest::DeleteManifests { name: n, digests: d } => n@ == name@
                && d.deep_view() == digests.deep_view(),
            _ => false,
        },
{
    ManifestRequest::DeleteManifests { name: name.to_string(), digests: digest_texts(digests) }
}

/// What is stored for an entry is the entry itself, with the digests that it
/// refers to in ascending order and each once.
pub proof fn lemma_put_stores_the_entry(
    req: ManifestRequest,
    name: Seq<char>,
    reference: Seq<char>,
    e: ManifestEntryView,
)
    requires
        puts_entry(req, name, reference, e),
        is_digest(e.digest),
        e.subject matches Some(d) ==> is_digest(d),
    ensures
        pushed_entry(req) == (ManifestEntryView {
            referenced_blobs: sorted_unique(pushed_refs(e.body, e.referenced_blobs)),
            ..e
        }),
{
}

} // verus!
