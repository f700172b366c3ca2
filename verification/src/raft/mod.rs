//! The replicated log: what is asked of the state machine and what it answers.
pub mod answer_laws;
pub mod blob_laws;
pub mod change_laws;
pub mod configs;
pub mod join_loop;
pub mod joining;
pub mod joining_laws;
pub mod laws;
pub mod manifests;
pub mod membership;
pub mod membership_laws;
pub mod model;
pub mod namespaces;
pub mod read_laws;
pub mod reads;
pub mod refcount;
pub mod restore;
pub mod router;
pub mod snapshot;
pub mod state;
pub mod state_laws;
pub mod state_machine;

use crate::auth::identity::Subject;
use crate::oci::json::Json;
use crate::store::metadata::namespace::{Owner, ReleaseReason};
use crate::store::metadata::types::{
    BlobDeleteStatus, BlobDeleteStatusView, DeleteCounts, MirrorRule, PersonalAccessToken,
    ProxyCache, ProxyCacheTagValidation, Repository, SyncJob, SyncJobRun, SyncJobView, WarmImage,
};
use vstd::prelude::*;

verus! {

// ── Log and membership ───────────────────────────────────────────────────

/// A position in the replicated log.
#[derive(Debug, Clone, Copy, PartialEq, Eq, Structural)]
pub struct LogId {
    pub term: u64,
    pub node_id: u64,
    pub index: u64,
}

impl DeepView for LogId {
    type V = LogId;

    open spec fn deep_view(&self) -> LogId {
        *self
    }
}

// ── Manifests ────────────────────────────────────────────────────────────

/// A change of manifests, tags or blobs.
#[derive(Debug)]
pub enum ManifestRequest {
    PutManifest {
        name: String,
        reference: String,
        digest: String,
        content_type: String,
        body: Vec<u8>,
        subject: Option<String>,
        artifact_type: Option<String>,
        annotations: Option<Json>,
        stored_size_bytes: u64,
        manifest_size_bytes: u64,
        created_at: u64,
        last_modified: u64,
        config_summary: Option<Json>,
        referenced_blobs: Vec<String>,
    },
    DeleteManifest { name: String, digest: String },
    DeleteTag { name: String, digest: String, tag: String },
    DeleteRepository { name: String },
    DeleteManifests { name: String, digests: Vec<String> },
    MountBlob { source_repo: String, dest_repo: String, digest: String },
    RecordBlobDelete { digest: String, requested_at: u64 },
    ClearBlobDelete { digest: String },
}

/// The answer to a `ManifestRequest`.
#[derive(Debug)]
pub enum ManifestResponse {
    Done,
    Bool(bool),
    DeleteCounts(DeleteCounts),
    BlobDeleteStatus(BlobDeleteStatus),
}

/// What a `ManifestResponse` says.
pub enum ManifestResponseView {
    Done,
    Bool(bool),
    DeleteCounts(DeleteCounts),
    BlobDeleteStatus(BlobDeleteStatusView),
}

impl View for ManifestResponse {
    type V = ManifestResponseView;

    open spec fn view(&self) -> ManifestResponseView {
        match self {
            ManifestResponse::Done => ManifestResponseView::Done,
            ManifestResponse::Bool(x) => ManifestResponseView::Bool(*x),
            ManifestResponse::DeleteCounts(x) => ManifestResponseView::DeleteCounts(*x),
            ManifestResponse::BlobDeleteStatus(x) => ManifestResponseView::BlobDeleteStatus(x.deep_view()),
        }
    }
}

impl DeepView for ManifestResponse {
    type V = ManifestResponseView;

    open spec fn deep_view(&self) -> ManifestResponseView {
        self@
    }
}

// ── Mirrors and caches ───────────────────────────────────────────────────

/// A change of mirror rules, proxy caches or warm images. The time of a trigger
/// is taken before the change enters the log, so that every replica applies the
/// same change.
#[derive(Debug)]
pub enum MirrorConfigRequest {
    PutMirrorRule(MirrorRule),
    DeleteMirrorRule { id: String },
    TriggerMirrorRule { id: String, now: u64 },
    PutProxyCache(ProxyCache),
    DeleteProxyCache { id: String },
    TriggerProxyCacheWarm { id: String, now: u64 },
    PutProxyCacheTagValidation(ProxyCacheTagValidation),
    PutWarmImage(WarmImage),
    DeleteWarmImage { id: String },
}

/// The answer to a `MirrorConfigRequest`.
#[derive(Debug)]
pub enum MirrorConfigResponse {
    Done,
    Bool(bool),
    SyncJob(Option<SyncJob>),
}

/// What a `MirrorConfigResponse` says.
pub enum MirrorConfigResponseView {
    Done,
    Bool(bool),
    SyncJob(Option<SyncJobView>),
}

impl View for MirrorConfigResponse {
    type V = MirrorConfigResponseView;

    open spec fn view(&self) -> MirrorConfigResponseView {
        match self {
            MirrorConfigResponse::Done => MirrorConfigResponseView::Done,
            MirrorConfigResponse::Bool(x) => MirrorConfigResponseView::Bool(*x),
            MirrorConfigResponse::SyncJob(x) => MirrorConfigResponseView::SyncJob(x.deep_view()),
        }
    }
}

impl DeepView for MirrorConfigResponse {
    type V = MirrorConfigResponseView;

    open spec fn deep_view(&self) -> MirrorConfigResponseView {
        self@
    }
}

// ── Jobs ─────────────────────────────────────────────────────────────────

/// A change of sync jobs or their runs. The time of a claim or a trigger is taken
/// before the change enters the log, so that every replica applies the same
/// change.
#[derive(Debug)]
pub enum JobRequest {
    PutSyncJob(SyncJob),
    DeleteSyncJob { id: String },
    ClaimSyncJob { id: String, node_id: String, now: u64 },
    TriggerSyncJob { id: String, now: u64 },
    PutSyncJobRun(SyncJobRun),
}

/// The answer to a `JobRequest`.
#[derive(Debug, Clone, Copy, PartialEq, Eq, Structural)]
pub enum JobResponse {
    Done,
    Bool(bool),
}

// ── Tokens ───────────────────────────────────────────────────────────────

/// A change of personal access tokens.
#[derive(Debug)]
pub enum TokenRequest {
    PutPersonalAccessToken(PersonalAccessToken),
    DeletePersonalAccessToken { id: String, subject: String },
}

/// The answer to a `TokenRequest`.
#[derive(Debug, Clone, Copy, PartialEq, Eq, Structural)]
pub enum TokenResponse {
    Done,
    Bool(bool),
}

// ── Repositories ─────────────────────────────────────────────────────────

/// A change of repository objects.
#[derive(Debug)]
pub enum RepositoryRequest {
    PutRepository(Repository),
    DeleteRepository { name: String },
}

/// The answer to a `RepositoryRequest`.
#[derive(Debug, Clone, Copy, PartialEq, Eq, Structural)]
pub enum RepositoryResponse {
    Done,
    Bool(bool),
}

// ── Namespaces ───────────────────────────────────────────────────────────

/// A change of namespaces. The time is taken before the request enters the
/// log, so that every replica applies the same change.
#[derive(Debug)]
pub enum NamespaceRequest {
    Claim {
        handle: String,
        owner: Owner,
        owner_label: String,
        actor: Subject,
        admin_override: bool,
        now: u64,
    },
    Delete { handle: String, actor: Subject, reason: ReleaseReason, now: u64 },
    AdminRevoke { handle: String, actor: Subject, now: u64 },
}

/// The answer to a `NamespaceRequest`.
#[derive(Debug, Clone, Copy, PartialEq, Eq, Structural)]
pub enum NamespaceResponse {
    Done,
    Bool(bool),
}

// ── All of them ──────────────────────────────────────────────────────────

/// A change of the replicated state.
#[derive(Debug)]
pub enum Request {
    Manifest(ManifestRequest),
    MirrorConfig(MirrorConfigRequest),
    Job(JobRequest),
    Token(TokenRequest),
    Repository(RepositoryRequest),
    Namespace(NamespaceRequest),
}

/// The answer to a `Request`. An error that arises when a change is applied is
/// answered with its text.
#[derive(Debug)]
pub enum Response {
    Manifest(ManifestResponse),
    MirrorConfig(MirrorConfigResponse),
    Job(JobResponse),
    Token(TokenResponse),
    Repository(RepositoryResponse),
    Namespace(NamespaceResponse),
    Error(String),
    NameUnknown(String),
    Denied(String),
    Conflict(String),
    NameInvalid(String),
    InternalError(String),
}

/// What a `Response` says.
pub enum ResponseView {
    Manifest(ManifestResponseView),
    MirrorConfig(MirrorConfigResponseView),
    Job(JobResponse),
    Token(TokenResponse),
    Repository(RepositoryResponse),
    Namespace(NamespaceResponse),
    Error(Seq<char>),
    NameUnknown(Seq<char>),
    Denied(Seq<char>),
    Conflict(Seq<char>),
    NameInvalid(Seq<char>),
    InternalError(Seq<char>),
}

impl View for Response {
    type V = ResponseView;

    open spec fn view(&self) -> ResponseView {
        match self {
            Response::Manifest(x) => ResponseView::Manifest(x.deep_view()),
            Response::MirrorConfig(x) => ResponseView::MirrorConfig(x.deep_view()),
            Response::Job(x) => ResponseView::Job(*x),
            Response::Token(x) => ResponseView::Token(*x),
            Response::Repository(x) => ResponseView::Repository(*x),
            Response::Namespace(x) => ResponseView::Namespace(*x),
            Response::Error(x) => ResponseView::Error(x.deep_view()),
            Response::NameUnknown(x) => ResponseView::NameUnknown(x.deep_view()),
            Response::Denied(x) => ResponseView::Denied(x.deep_view()),
            Response::Conflict(x) => ResponseView::Conflict(x.deep_view()),
            Response::NameInvalid(x) => ResponseView::NameInvalid(x.deep_view()),
            Response::InternalError(x) => ResponseView::InternalError(x.deep_view()),
        }
    }
}

impl DeepView for Response {
    type V = ResponseView;

    open spec fn deep_view(&self) -> ResponseView {
        self@
    }
}

} // verus!
