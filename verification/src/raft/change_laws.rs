//! What the changes of the replicated state do, told by what is read after them: what
//! a change puts in is found, what it takes out is gone, and all else stays.
use crate::oci::digest::{is_digest, sha256_name};
use crate::raft::configs::{run_position, runs_of, trigger_blocked, with_run};
use crate::raft::model::{
    live_namespace_outcome, pushed_entry, pushed_refs, tags_of_digests, valid_digests,
};
use crate::raft::namespaces::{any_under, has_content};
use crate::raft::reads::{entry_at, lookup};
use crate::raft::state::StateView;
use crate::raft::state_machine::{entry_step, request_step, Entry, EntryPayload};
use crate::raft::{
    JobRequest, JobResponse, ManifestRequest, ManifestResponseView, MirrorConfigRequest,
    MirrorConfigResponseView, NamespaceRequest, NamespaceResponse, RepositoryRequest,
    RepositoryResponse, Request, ResponseView, TokenRequest, TokenResponse,
};
use crate::store::metadata::handle::handle_outcome;
use crate::store::metadata::namespace::ReleaseReasonView;
use crate::store::metadata::sync::{filter_labels, strategy_labels};
use crate::store::metadata::types::{
    DeleteCounts, MirrorStrategyView, SyncJobKind, SyncJobRunView,
    SyncJobStatus, SyncJobView, WarmFilterView,
};
use crate::store::metadata::validations::{
    lemma_cleared_cache_is_gone, lemma_cleared_repository_is_gone, lemma_cleared_tag_is_gone,
    lemma_recorded_validation_is_found, or_empty, validation,
};
use crate::string_map::{lemma_ascending_position, lemma_finite_listing, sorted_keys};
use crate::text::{decimal_text, lemma_position, lemma_position_is, position};
use vstd::prelude::*;

verus! {

// ── Mirror rules, caches and warm images ─────────────────────────────────

/// A rule that is put is found under its id, a rule that is deleted is not found any
/// more, and no other change touches a rule.
pub proof fn lemma_mirror_rules_follow_their_changes(s: StateView, req: Request, id: Seq<char>)
    ensures
        ({
            let found = lookup(request_step(s, req).0.mirror_rules, id);
            match req {
                Request::MirrorConfig(MirrorConfigRequest::PutMirrorRule(rule)) if rule@.id == id =>
                    found == Some(rule@),
                Request::MirrorConfig(MirrorConfigRequest::DeleteMirrorRule { id: gone }) if gone@
                    == id => found is None,
                _ => found == lookup(s.mirror_rules, id),
            }
        }),
{
}

/// A cache that is put is found under its id, a cache that is deleted is not found any
/// more, and no other change touches a cache.
pub proof fn lemma_proxy_caches_follow_their_changes(s: StateView, req: Request, id: Seq<char>)
    ensures
        ({
            let found = lookup(request_step(s, req).0.proxy_caches, id);
            match req {
                Request::MirrorConfig(MirrorConfigRequest::PutProxyCache(cache)) if cache@.id
                    == id => found == Some(cache@),
                Request::MirrorConfig(MirrorConfigRequest::DeleteProxyCache { id: gone }) if gone@
                    == id => found is None,
                _ => found == lookup(s.proxy_caches, id),
            }
        }),
{
}

/// A warm image that is put is found under its id, one that is deleted is not found any
/// more, and no other change touches a warm image.
pub proof fn lemma_warm_images_follow_their_changes(s: StateView, req: Request, id: Seq<char>)
    ensures
        ({
            let found = lookup(request_step(s, req).0.warm_images, id);
            match req {
                Request::MirrorConfig(MirrorConfigRequest::PutWarmImage(image)) if image@.id
                    == id => found == Some(image@),
                Request::MirrorConfig(MirrorConfigRequest::DeleteWarmImage { id: gone }) if gone@
                    == id => found is None,
                _ => found == lookup(s.warm_images, id),
            }
        }),
{
}

/// A validation that is recorded is found. Where a cache is put or deleted, none of its
/// validations is found any more, and none of another cache changes.
pub proof fn lemma_validations_follow_their_changes(
    s: StateView,
    req: MirrorConfigRequest,
    cache: Seq<char>,
    repository: Seq<char>,
    tag: Seq<char>,
)
    ensures
        ({
            let after = request_step(s, Request::MirrorConfig(req)).0;
            let found = validation(after.proxy_cache_tag_validations, cache, repository, tag);
            match req {
                MirrorConfigRequest::PutProxyCacheTagValidation(v) if v@.cache_id == cache
                    && v@.repository == repository && v@.tag == tag => found == Some(v@),
                MirrorConfigRequest::PutProxyCache(c) if c@.id == cache => found is None,
                MirrorConfigRequest::DeleteProxyCache { id } if id@ == cache => found is None,
                _ => found == validation(
                    s.proxy_cache_tag_validations,
                    cache,
                    repository,
                    tag,
                ),
            }
        }),
{
    let m = s.proxy_cache_tag_validations;
    match req {
        MirrorConfigRequest::PutProxyCacheTagValidation(v) => {
            lemma_recorded_validation_is_found(m, v@, cache, repository, tag);
        },
        MirrorConfigRequest::PutProxyCache(c) => {
            lemma_cleared_cache_is_gone(m, c@.id, cache, repository, tag);
        },
        MirrorConfigRequest::DeleteProxyCache { id } => {
            lemma_cleared_cache_is_gone(m, id@, cache, repository, tag);
        },
        _ => {},
    }
}

/// Whether a rule or cache is busy: one of its jobs runs, or is to run once and is due.
pub open spec fn is_busy(s: StateView, kind: SyncJobKind, rule_id: Seq<char>, now: u64) -> bool {
    exists|k: Seq<char>| #[trigger]
        s.sync_jobs.dom().contains(k) && s.sync_jobs[k].kind == kind && s.sync_jobs[k].rule_id
            == Some(rule_id) && (s.sync_jobs[k].status == SyncJobStatus::Running || (
        s.sync_jobs[k].interval_secs == 0 && s.sync_jobs[k].next_run_at <= now))
}

/// Whether a job is what a trigger starts: it waits for nobody and runs once, now, for
/// the rule or cache.
pub open spec fn is_started_job(job: SyncJobView, kind: SyncJobKind, rule_id: Seq<char>, now: u64) -> bool {
    &&& job.kind == kind
    &&& job.rule_id == Some(rule_id)
    &&& job.rule_name == Some(rule_id)
    &&& job.status == SyncJobStatus::Idle
    &&& job.claimed_by is None && job.claimed_at is None
    &&& job.interval_secs == 0
    &&& job.next_run_at == now
    &&& job.last_run_at is None && job.last_error is None
}

/// A trigger of a rule is answered without a job where there is no such rule, and
/// refused where the rule is busy; nothing changes then. Else a job of the rule is
/// started that syncs below its local prefix, the answer shows it, it is stored under
/// its id, and no other job changes.
pub proof fn lemma_trigger_of_a_rule(
    s: StateView,
    req: MirrorConfigRequest,
    id: Seq<char>,
    now: u64,
    other: Seq<char>,
)
    requires
        req matches MirrorConfigRequest::TriggerMirrorRule { id: i, now: t } && i@ == id && t == now,
    ensures
        ({
            let (after, answer) = request_step(s, Request::MirrorConfig(req));
            if !s.mirror_rules.dom().contains(id) {
                after == s && answer == ResponseView::MirrorConfig(
                    MirrorConfigResponseView::SyncJob(None),
                )
            } else if is_busy(s, SyncJobKind::Mirror, id, now) {
                after == s && answer == ResponseView::MirrorConfig(
                    MirrorConfigResponseView::Bool(false),
                )
            } else {
                let rule = s.mirror_rules[id];
                &&& answer matches ResponseView::MirrorConfig(
                    MirrorConfigResponseView::SyncJob(Some(job)),
                ) && {
                    &&& is_started_job(job, SyncJobKind::Mirror, rule.id, now)
                    &&& job.id == id + "-"@ + decimal_text(now as nat)
                    &&& job.image == rule.local_prefix
                    &&& job.tags == strategy_labels(rule.strategy)
                    &&& lookup(after.sync_jobs, job.id) == Some(job)
                    &&& other != job.id ==> lookup(after.sync_jobs, other) == lookup(
                        s.sync_jobs,
                        other,
                    )
                }
                &&& after == (StateView { sync_jobs: after.sync_jobs, ..s })
            }
        }),
{
    assert(trigger_blocked(s.sync_jobs, SyncJobKind::Mirror, id, now)
        == is_busy(s, SyncJobKind::Mirror, id, now)) by {
        if is_busy(s, SyncJobKind::Mirror, id, now) {
            let k = choose|k: Seq<char>| #[trigger]
                s.sync_jobs.dom().contains(k) && s.sync_jobs[k].kind == SyncJobKind::Mirror
                    && s.sync_jobs[k].rule_id == Some(id) && (s.sync_jobs[k].status
                    == SyncJobStatus::Running || (s.sync_jobs[k].interval_secs == 0
                    && s.sync_jobs[k].next_run_at <= now));
            assert(s.sync_jobs.dom().contains(k));
        }
    }
}

/// A trigger of a cache is answered without a job where there is no such cache, and
/// refused where the cache is busy; nothing changes then. Else a job of the cache is
/// started that warms it below its local prefix, the answer shows it, it is stored
/// under its id, and no other job changes.
pub proof fn lemma_trigger_of_a_cache(
    s: StateView,
    req: MirrorConfigRequest,
    id: Seq<char>,
    now: u64,
    other: Seq<char>,
)
    requires
        req matches MirrorConfigRequest::TriggerProxyCacheWarm { id: i, now: t } && i@ == id && t
            == now,
    ensures
        ({
            let (after, answer) = request_step(s, Request::MirrorConfig(req));
            if !s.proxy_caches.dom().contains(id) {
                after == s && answer == ResponseView::MirrorConfig(
                    MirrorConfigResponseView::SyncJob(None),
                )
            } else if is_busy(s, SyncJobKind::ProxyCache, id, now) {
                after == s && answer == ResponseView::MirrorConfig(
                    MirrorConfigResponseView::Bool(false),
                )
            } else {
                let cache = s.proxy_caches[id];
                &&& answer matches ResponseView::MirrorConfig(
                    MirrorConfigResponseView::SyncJob(Some(job)),
                ) && {
                    &&& is_started_job(job, SyncJobKind::ProxyCache, cache.id, now)
                    &&& job.id == cache.id + "-warm-"@ + decimal_text(now as nat)
                    &&& job.image == cache.local_prefix
                    &&& job.tags == filter_labels(cache.warm_filters)
                    &&& lookup(after.sync_jobs, job.id) == Some(job)
                    &&& other != job.id ==> lookup(after.sync_jobs, other) == lookup(
                        s.sync_jobs,
                        other,
                    )
                }
                &&& after == (StateView { sync_jobs: after.sync_jobs, ..s })
            }
        }),
{
    assert(trigger_blocked(s.sync_jobs, SyncJobKind::ProxyCache, id, now)
        == is_busy(s, SyncJobKind::ProxyCache, id, now)) by {
        if is_busy(s, SyncJobKind::ProxyCache, id, now) {
            let k = choose|k: Seq<char>| #[trigger]
                s.sync_jobs.dom().contains(k) && s.sync_jobs[k].kind == SyncJobKind::ProxyCache
                    && s.sync_jobs[k].rule_id == Some(id) && (s.sync_jobs[k].status
                    == SyncJobStatus::Running || (s.sync_jobs[k].interval_secs == 0
                    && s.sync_jobs[k].next_run_at <= now));
            assert(s.sync_jobs.dom().contains(k));
        }
    }
}

/// The tags of a job are named after what the rule mirrors, and after the filters of the
/// cache, of which one that warms nothing has no name.
pub proof fn lemma_job_tags(strategy: MirrorStrategyView, filters: Seq<WarmFilterView>)
    ensures
        strategy_labels(strategy).len() == 1,
        strategy is All ==> strategy_labels(strategy)[0] == "all"@,
        strategy matches MirrorStrategyView::Latest { count } ==> strategy_labels(strategy)[0]
            == "latest "@ + decimal_text(count as nat),
        strategy matches MirrorStrategyView::Pattern { pattern } ==> strategy_labels(strategy)[0]
            == pattern,
        filter_labels(filters).len() <= filters.len(),
        (forall|i: int| 0 <= i < filters.len() ==> #[trigger] filters[i] is Never)
            ==> filter_labels(filters).len() == 0,
        forall|i: int|
            0 <= i < filters.len() ==> match #[trigger] filters[i] {
                WarmFilterView::Never => true,
                WarmFilterView::All => filter_labels(filters).contains("all"@),
                WarmFilterView::Latest { count, .. } => filter_labels(filters).contains(
                    "latest "@ + decimal_text(count as nat),
                ),
                WarmFilterView::Pattern { pattern } => filter_labels(filters).contains(pattern),
            },
    decreases filters.len(),
{
    if filters.len() > 0 {
        let front = filters.drop_last();
        lemma_job_tags(strategy, front);
        let labels = filter_labels(filters);
        let before = filter_labels(front);
        if forall|i: int| 0 <= i < filters.len() ==> #[trigger] filters[i] is Never {
            assert forall|i: int| 0 <= i < front.len() implies #[trigger] front[i] is Never by {
                assert(front[i] == filters[i]);
            }
            assert(filters[filters.len() - 1] is Never);
        }
        assert forall|t: Seq<char>| before.contains(t) implies labels.contains(t) by {
            let i = choose|i: int| 0 <= i < before.len() && before[i] == t;
            assert(labels[i] == t);
        }
        assert forall|i: int| 0 <= i < filters.len() implies match #[trigger] filters[i] {
            WarmFilterView::Never => true,
            WarmFilterView::All => labels.contains("all"@),
            WarmFilterView::Latest { count, .. } => labels.contains(
                "latest "@ + decimal_text(count as nat),
            ),
            WarmFilterView::Pattern { pattern } => labels.contains(pattern),
        } by {
            if i < front.len() {
                assert(front[i] == filters[i]);
            } else if !(filters[i] is Never) {
                assert(labels[before.len() as int] == labels.last());
            }
        }
    }
}

// ── Jobs ─────────────────────────────────────────────────────────────────

/// A job that is put is found under its id. A job that is deleted is gone with its runs.
pub proof fn lemma_jobs_follow_their_changes(s: StateView, req: JobRequest, id: Seq<char>)
    ensures
        ({
            let (after, answer) = request_step(s, Request::Job(req));
            let found = lookup(after.sync_jobs, id);
            match req {
                JobRequest::PutSyncJob(job) => {
                    &&& answer == ResponseView::Job(JobResponse::Done)
                    &&& job@.id == id ==> found == Some(job@)
                    &&& job@.id != id ==> found == lookup(s.sync_jobs, id)
                    &&& after.sync_job_runs == s.sync_job_runs
                },
                JobRequest::DeleteSyncJob { id: gone } => {
                    &&& answer == ResponseView::Job(JobResponse::Done)
                    &&& gone@ == id ==> found is None && lookup(after.sync_job_runs, id) is None
                    &&& gone@ != id ==> found == lookup(s.sync_jobs, id)
                    &&& gone@ != id ==> lookup(after.sync_job_runs, id) == lookup(
                        s.sync_job_runs,
                        id,
                    )
                },
                JobRequest::ClaimSyncJob { id: claimed, .. } => claimed@ != id ==> found == lookup(
                    s.sync_jobs,
                    id,
                ),
                JobRequest::TriggerSyncJob { id: triggered, .. } => triggered@ != id ==> found
                    == lookup(s.sync_jobs, id),
                JobRequest::PutSyncJobRun(_) => found == lookup(s.sync_jobs, id),
            }
        }),
{
}

/// A claim succeeds exactly on a job that is idle. The job then runs, for the node that
/// claimed it and since the time of the claim, and is else as it was. A claim that
/// fails changes nothing.
pub proof fn lemma_claim_of_a_job(
    s: StateView,
    req: JobRequest,
    id: Seq<char>,
    node_id: Seq<char>,
    now: u64,
)
    requires
        req matches JobRequest::ClaimSyncJob { id: i, node_id: n, now: t } && i@ == id && n@
            == node_id && t == now,
    ensures
        ({
            let (after, answer) = request_step(s, Request::Job(req));
            let free = s.sync_jobs.dom().contains(id) && s.sync_jobs[id].status
                == SyncJobStatus::Idle;
            &&& answer == ResponseView::Job(JobResponse::Bool(free))
            &&& !free ==> after == s
            &&& free ==> (lookup(after.sync_jobs, id) matches Some(job) && {
                &&& job.status == SyncJobStatus::Running
                &&& job.claimed_by == Some(node_id)
                &&& job.claimed_at == Some(now)
                &&& s.sync_jobs[id] == (SyncJobView {
                    status: SyncJobStatus::Idle,
                    claimed_by: s.sync_jobs[id].claimed_by,
                    claimed_at: s.sync_jobs[id].claimed_at,
                    ..job
                })
            })
        }),
{
}

/// A trigger succeeds exactly on a job that does not run. The job is then due at once,
/// nobody has claimed it, its last error is forgotten, and it is else as it was. A
/// trigger that fails changes nothing.
pub proof fn lemma_trigger_of_a_job(s: StateView, req: JobRequest, id: Seq<char>, now: u64)
    requires
        req matches JobRequest::TriggerSyncJob { id: i, now: t } && i@ == id && t == now,
    ensures
        ({
            let (after, answer) = request_step(s, Request::Job(req));
            let rests = s.sync_jobs.dom().contains(id) && s.sync_jobs[id].status
                != SyncJobStatus::Running;
            &&& answer == ResponseView::Job(JobResponse::Bool(rests))
            &&& !rests ==> after == s
            &&& rests ==> (lookup(after.sync_jobs, id) matches Some(job) && {
                &&& job.status == SyncJobStatus::Idle
                &&& job.next_run_at == now
                &&& job.claimed_by is None && job.claimed_at is None && job.last_error is None
                &&& s.sync_jobs[id] == (SyncJobView {
                    status: s.sync_jobs[id].status,
                    claimed_by: s.sync_jobs[id].claimed_by,
                    claimed_at: s.sync_jobs[id].claimed_at,
                    last_error: s.sync_jobs[id].last_error,
                    next_run_at: s.sync_jobs[id].next_run_at,
                    ..job
                })
            })
        }),
{
}

proof fn lemma_first_run(runs: Seq<SyncJobRunView>, id: Seq<char>, from: int)
    requires
        0 <= from <= runs.len(),
    ensures
        ({
            let p = run_position(runs, id, from);
            &&& from <= p <= runs.len()
            &&& p < runs.len() ==> runs[p].id == id
            &&& forall|j: int| from <= j < p ==> (#[trigger] runs[j]).id != id
        }),
    decreases runs.len() - from,
{
    if from < runs.len() && runs[from].id != id {
        lemma_first_run(runs, id, from + 1);
    }
}

/// A run that is recorded anew is the last of its job's runs, where at most fifty are
/// kept, the latest; one that was recorded before is replaced where it stands. The runs
/// of other jobs stay.
pub proof fn lemma_recorded_run(
    s: StateView,
    req: JobRequest,
    run: SyncJobRunView,
    before: Seq<SyncJobRunView>,
    other: Seq<char>,
)
    requires
        req matches JobRequest::PutSyncJobRun(r) && r@ == run,
        match lookup(s.sync_job_runs, run.job_id) {
            Some(runs) => before == runs,
            None => before == Seq::<SyncJobRunView>::empty(),
        },
    ensures
        ({
            let (after, answer) = request_step(s, Request::Job(req));
            let known = exists|i: int| 0 <= i < before.len() && (#[trigger] before[i]).id == run.id;
            &&& answer == ResponseView::Job(JobResponse::Done)
            &&& other != run.job_id ==> lookup(after.sync_job_runs, other) == lookup(
                s.sync_job_runs,
                other,
            )
            &&& lookup(after.sync_job_runs, run.job_id) matches Some(runs) && {
                &&& runs.contains(run)
                &&& known ==> runs.len() == before.len() && exists|p: int|
                    0 <= p < before.len() && (#[trigger] before[p]).id == run.id && runs
                        == before.update(p, run)
                &&& !known && before.len() < 50 ==> runs == before.push(run)
                &&& !known && before.len() >= 50 ==> runs == before.push(run).skip(
                    before.len() - 49,
                )
            }
        }),
{
    lemma_first_run(before, run.id, 0);
    let p = run_position(before, run.id, 0);
    let runs = with_run(before, run);
    assert(runs_of(s, run.job_id) == before);
    if p < before.len() {
        assert(before[p].id == run.id);
        assert(runs[p] == run);
    } else {
        assert(runs[runs.len() - 1] == run);
    }
}

// ── Tokens and repository objects ────────────────────────────────────────

/// A token that is put is found under its id. A deletion succeeds exactly where the
/// token is there and belongs to the subject that asks; the token is then gone, and
/// else nothing changes. No other change touches a token.
pub proof fn lemma_tokens_follow_their_changes(s: StateView, req: Request, id: Seq<char>)
    ensures
        ({
            let (after, answer) = request_step(s, req);
            let found = lookup(after.personal_access_tokens, id);
            match req {
                Request::Token(TokenRequest::PutPersonalAccessToken(token)) => {
                    &&& answer == ResponseView::Token(TokenResponse::Done)
                    &&& token@.id == id ==> found == Some(token@)
                    &&& token@.id != id ==> found == lookup(s.personal_access_tokens, id)
                },
                Request::Token(TokenRequest::DeletePersonalAccessToken { id: gone, subject }) => {
                    let owned = lookup(s.personal_access_tokens, gone@) matches Some(t) && t.subject
                        == subject@;
                    &&& answer == ResponseView::Token(TokenResponse::Bool(owned))
                    &&& owned && gone@ == id ==> found is None
                    &&& !(owned && gone@ == id) ==> found == lookup(s.personal_access_tokens, id)
                },
                _ => found == lookup(s.personal_access_tokens, id),
            }
        }),
{
}

/// A repository object that is put under a live claim is found under its name, and
/// without a live claim it is refused. One that is deleted is gone, and the answer says
/// whether it was there. No other change touches a repository object.
pub proof fn lemma_repositories_follow_their_changes(s: StateView, req: Request, name: Seq<char>)
    ensures
        ({
            let (after, answer) = request_step(s, req);
            let found = lookup(after.repositories, name);
            match req {
                Request::Repository(RepositoryRequest::PutRepository(repo)) => {
                    let live = is_live(s, repo@.name);
                    &&& answer is Error <==> !live
                    &&& live ==> answer == ResponseView::Repository(RepositoryResponse::Done)
                    &&& live && repo@.name == name ==> found == Some(repo@)
                    &&& !(live && repo@.name == name) ==> found == lookup(s.repositories, name)
                },
                Request::Repository(RepositoryRequest::DeleteRepository { name: gone }) => {
                    &&& answer == ResponseView::Repository(
                        RepositoryResponse::Bool(s.repositories.dom().contains(gone@)),
                    )
                    &&& gone@ == name ==> found is None
                    &&& gone@ != name ==> found == lookup(s.repositories, name)
                },
                _ => found == lookup(s.repositories, name),
            }
        }),
{
    if let Request::Repository(RepositoryRequest::PutRepository(repo)) = req {
        lemma_live_namespace(s, repo@.name);
    }
}

// ── Namespaces ───────────────────────────────────────────────────────────

/// Whether a repository lies under a claimed handle: its name is the handle, a slash and
/// something more.
pub open spec fn is_live(s: StateView, repository: Seq<char>) -> bool {
    exists|handle: Seq<char>, rest: Seq<char>| #[trigger]
        is_path_under(repository, handle, rest) && s.namespaces.dom().contains(handle)
}

/// Whether a name is a handle without a slash, a slash and something more.
pub open spec fn is_path_under(name: Seq<char>, handle: Seq<char>, rest: Seq<char>) -> bool {
    name == handle + seq!['/'] + rest && !handle.contains('/') && rest.len() > 0
}

/// Content may be created exactly under a handle that is claimed.
pub proof fn lemma_live_namespace(s: StateView, repository: Seq<char>)
    ensures
        live_namespace_outcome(s, repository) is Ok <==> is_live(s, repository),
{
    lemma_position(repository, '/');
    let p = position(repository, '/');
    if live_namespace_outcome(s, repository) is Ok {
        let handle = repository.take(p);
        let rest = repository.skip(p + 1);
        assert(repository =~= handle + seq!['/'] + rest);
        if handle.contains('/') {
            let i = choose|i: int| 0 <= i < handle.len() && handle[i] == '/';
            assert(repository[i] == '/');
        }
        assert(is_path_under(repository, handle, rest));
    }
    if is_live(s, repository) {
        let (handle, rest) = choose|handle: Seq<char>, rest: Seq<char>| #[trigger]
            is_path_under(repository, handle, rest) && s.namespaces.dom().contains(handle);
        let n = handle.len() as int;
        assert forall|i: int| 0 <= i < n implies #[trigger] repository[i] != '/' by {
            assert(repository[i] == handle[i]);
            assert(handle.contains(handle[i]));
        }
        lemma_position_is(repository, '/', n);
        assert(repository.take(n) =~= handle);
        assert(repository.skip(n + 1) =~= rest);
    }
}

/// A claim succeeds exactly where the handle is well formed, nobody holds it, and it was
/// not released or an admin overrides that. It is then held by the owner that claimed
/// it, since the time of the claim, and is no longer marked as released. A claim that
/// fails changes nothing, and no claim touches another handle.
pub proof fn lemma_claim_of_a_handle(s: StateView, req: NamespaceRequest, other: Seq<char>)
    requires
        req is Claim,
    ensures
        ({
            let (after, answer) = request_step(s, Request::Namespace(req));
            let handle = req->Claim_handle@;
            let granted = handle_outcome(handle) is Ok && !s.namespaces.dom().contains(handle) && (
            !s.released_handles.dom().contains(handle) || req->admin_override);
            &&& answer is Error <==> !granted
            &&& !granted ==> after == s
            &&& granted ==> {
                &&& answer == ResponseView::Namespace(NamespaceResponse::Done)
                &&& lookup(after.namespaces, handle) matches Some(ns) && {
                    &&& ns.handle == handle
                    &&& ns.owner == req->owner@
                    &&& ns.owner_label == req->owner_label@
                    &&& ns.created_at == req->Claim_now
                }
                &&& lookup(after.released_handles, handle) is None
            }
            &&& other != handle ==> lookup(after.namespaces, other) == lookup(s.namespaces, other)
            &&& other != handle ==> lookup(after.released_handles, other) == lookup(
                s.released_handles,
                other,
            )
        }),
{
}

/// Whether a repository with that handle holds anything.
pub open spec fn holds_content(s: StateView, handle: Seq<char>) -> bool {
    exists|name: Seq<char>|
        (s.manifests.dom().contains(name) || s.tags.dom().contains(name)
            || s.repositories.dom().contains(name)) && #[trigger] (handle + "/"@).is_prefix_of(name)
}

/// A release succeeds exactly where the handle is held and nothing lies under it, and a
/// revocation where it is held. The handle is then held by nobody, and it is on record
/// who held it, who released it, when and why. One that fails changes nothing, and none
/// touches another handle.
pub proof fn lemma_release_of_a_handle(s: StateView, req: NamespaceRequest, other: Seq<char>)
    requires
        req is Delete || req is AdminRevoke,
    ensures
        ({
            let (after, answer) = request_step(s, Request::Namespace(req));
            let (handle, actor, reason, now) = match req {
                NamespaceRequest::Delete { handle, actor, reason, now } => (
                    handle@,
                    actor@,
                    reason@,
                    now,
                ),
                NamespaceRequest::AdminRevoke { handle, actor, now } => (
                    handle@,
                    actor@,
                    ReleaseReasonView::AdminRevoked,
                    now,
                ),
                _ => arbitrary(),
            };
            let granted = s.namespaces.dom().contains(handle) && (req is AdminRevoke
                || !holds_content(s, handle));
            &&& answer is Error <==> !granted
            &&& !granted ==> after == s
            &&& granted ==> {
                &&& answer == ResponseView::Namespace(NamespaceResponse::Done)
                &&& lookup(after.namespaces, handle) is None
                &&& lookup(after.released_handles, handle) matches Some(tomb) && {
                    &&& tomb.handle == handle
                    &&& tomb.prior_owner == s.namespaces[handle].owner
                    &&& tomb.prior_owner_label == s.namespaces[handle].owner_label
                    &&& tomb.released_by == actor
                    &&& tomb.released_at == now
                    &&& tomb.release_reason == reason
                }
            }
            &&& other != handle ==> lookup(after.namespaces, other) == lookup(s.namespaces, other)
            &&& other != handle ==> lookup(after.released_handles, other) == lookup(
                s.released_handles,
                other,
            )
        }),
{
    if let NamespaceRequest::Delete { handle, .. } = req {
        let h = handle@;
        if has_content(s, h) {
            let name = if any_under(s.manifests.dom(), h) {
                choose|k: Seq<char>| #[trigger]
                    s.manifests.dom().contains(k) && (h + "/"@).is_prefix_of(k)
            } else if any_under(s.tags.dom(), h) {
                choose|k: Seq<char>| #[trigger]
                    s.tags.dom().contains(k) && (h + "/"@).is_prefix_of(k)
            } else {
                choose|k: Seq<char>| #[trigger]
                    s.repositories.dom().contains(k) && (h + "/"@).is_prefix_of(k)
            };
            assert((h + "/"@).is_prefix_of(name));
            assert(holds_content(s, h));
        }
    }
}

/// No change but those of namespaces touches a claim or a tombstone.
pub proof fn lemma_only_namespace_changes_touch_handles(s: StateView, req: Request)
    requires
        !(req is Namespace),
    ensures
        request_step(s, req).0.namespaces == s.namespaces,
        request_step(s, req).0.released_handles == s.released_handles,
{
}

// ── Manifests, tags and blobs ────────────────────────────────────────────

/// Whether a request asks to delete a manifest of a repository.
pub open spec fn deletes_manifest(req: Request, name: Seq<char>, digest: Seq<char>) -> bool {
    match req {
        Request::Manifest(ManifestRequest::DeleteManifest { name: n, digest: d }) => n@ == name
            && d@ == digest,
        Request::Manifest(ManifestRequest::DeleteManifests { name: n, digests }) => n@ == name
            && digests.deep_view().contains(digest),
        Request::Manifest(ManifestRequest::DeleteRepository { name: n }) => n@ == name,
        _ => false,
    }
}

/// The digest that a push stores its manifest under: the one that is asked for, or that
/// of its bytes where what is asked for is no digest.
pub open spec fn stored_under(req: ManifestRequest) -> Seq<char> {
    if is_digest(req->PutManifest_digest@) {
        req->PutManifest_digest@
    } else {
        sha256_name(req->body@)
    }
}

/// What a push stores is what was sent with it, under the digest; a subject counts only
/// where it is a digest.
pub proof fn lemma_push_stores_what_was_sent(req: ManifestRequest)
    requires
        req is PutManifest,
    ensures
        ({
            let e = pushed_entry(req);
            &&& e.digest == stored_under(req)
            &&& e.body == req->body@
            &&& e.content_type == req->content_type@
            &&& e.artifact_type == req->artifact_type.deep_view()
            &&& e.annotations == req->annotations.deep_view()
            &&& e.config_summary == req->config_summary.deep_view()
            &&& e.stored_size_bytes == req->stored_size_bytes
            &&& e.manifest_size_bytes == req->manifest_size_bytes
            &&& e.created_at == req->created_at
            &&& e.last_modified == req->last_modified
            &&& req->subject.deep_view() is None ==> e.subject is None
            &&& req->subject.deep_view() matches Some(t) ==> e.subject == if is_digest(t) {
                Some(t)
            } else {
                None
            }
        }),
{
}

/// A manifest that is pushed under a live claim is found under its digest, and without a
/// live claim the push is refused. One that is deleted, alone or with its repository, is
/// gone. No other change touches a manifest.
pub proof fn lemma_manifests_follow_their_changes(
    s: StateView,
    req: Request,
    name: Seq<char>,
    digest: Seq<char>,
)
    ensures
        ({
            let (after, answer) = request_step(s, req);
            let found = entry_at(after, name, digest);
            match req {
                Request::Manifest(push) if push is PutManifest => {
                    let live = is_live(s, push->PutManifest_name@);
                    let here = push->PutManifest_name@ == name && stored_under(push) == digest;
                    &&& answer is Error <==> !live
                    &&& live ==> answer == ResponseView::Manifest(ManifestResponseView::Done)
                    &&& live && here ==> found == Some(pushed_entry(push))
                    &&& !(live && here) ==> found == entry_at(s, name, digest)
                },
                _ => if deletes_manifest(req, name, digest) {
                    found is None
                } else {
                    found == entry_at(s, name, digest)
                },
            }
        }),
{
    if let Request::Manifest(r) = req {
        if r is PutManifest {
            lemma_live_namespace(s, r->PutManifest_name@);
        }
    }
}

/// A tag that a manifest is pushed under points to it. A tag that is deleted is gone, and
/// so are the tags that point to a deleted manifest and those of a deleted repository.
/// No other change touches a tag.
pub proof fn lemma_tags_follow_their_changes(
    s: StateView,
    req: Request,
    name: Seq<char>,
    tag: Seq<char>,
)
    ensures
        ({
            let after = request_step(s, req).0;
            let before = lookup(or_empty(s.tags, name), tag);
            let found = lookup(or_empty(after.tags, name), tag);
            match req {
                Request::Manifest(push) if push is PutManifest => {
                    let here = is_live(s, push->PutManifest_name@) && push->PutManifest_name@ == name
                        && push->reference@ == tag && !tag.contains(':');
                    &&& here ==> found == Some(stored_under(push))
                    &&& !here ==> found == before
                },
                Request::Manifest(ManifestRequest::DeleteTag { name: n, digest, tag: t }) => {
                    let here = n@ == name && t@ == tag && before == Some(digest@);
                    &&& here ==> found is None
                    &&& !here ==> found == before
                },
                _ => {
                    let gone = before matches Some(d) && deletes_manifest(req, name, d);
                    &&& gone ==> found is None
                    &&& !gone ==> found == before
                },
            }
        }),
{
    if let Request::Manifest(r) = req {
        if r is PutManifest {
            lemma_live_namespace(s, r->PutManifest_name@);
        }
    }
}

/// What a push is told to refer to counts where it names digests, and then nothing else
/// does; each blob counts once.
pub proof fn lemma_given_references_count(req: ManifestRequest, blob: Seq<char>)
    requires
        req is PutManifest,
    ensures
        ({
            let given = req->referenced_blobs.deep_view();
            let refs = pushed_entry(req).referenced_blobs;
            &&& given.contains(blob) && is_digest(blob) ==> refs.contains(blob)
            &&& refs.contains(blob) && (exists|i: int|
                0 <= i < given.len() && is_digest(#[trigger] given[i])) ==> given.contains(blob)
                && is_digest(blob)
            &&& refs.no_duplicates()
        }),
{
    let given = req->referenced_blobs.deep_view();
    let all = pushed_refs(req->body@, given);
    lemma_valid_digests(given);
    vstd::seq_lib::seq_to_set_is_finite(all);
    lemma_finite_listing(all.to_set());
    let refs = pushed_entry(req).referenced_blobs;
    if refs.len() > 0 {
        lemma_ascending_position(refs, 0);
    }
    assert(refs.contains(blob) <==> all.to_set().contains(blob));
    if given.contains(blob) && is_digest(blob) {
        assert(valid_digests(given).contains(blob));
    }
    if exists|i: int| 0 <= i < given.len() && is_digest(#[trigger] given[i]) {
        let i = choose|i: int| 0 <= i < given.len() && is_digest(#[trigger] given[i]);
        assert(given.contains(given[i]));
        assert(valid_digests(given).contains(given[i]));
    }
}

/// The digests among some texts are those of them that are digests.
proof fn lemma_valid_digests(texts: Seq<Seq<char>>)
    ensures
        forall|t: Seq<char>| #[trigger]
            valid_digests(texts).contains(t) <==> texts.contains(t) && is_digest(t),
    decreases texts.len(),
{
    if texts.len() > 0 {
        let front = texts.drop_last();
        let last = texts.last();
        lemma_valid_digests(front);
        let before = valid_digests(front);
        let all = valid_digests(texts);
        assert forall|t: Seq<char>| #[trigger] all.contains(t) <==> texts.contains(t) && is_digest(
            t,
        ) by {
            if texts.contains(t) && t != last {
                let i = choose|i: int| 0 <= i < texts.len() && texts[i] == t;
                assert(front[i] == t);
            }
            if front.contains(t) {
                let i = choose|i: int| 0 <= i < front.len() && front[i] == t;
                assert(texts[i] == t);
            }
            assert(texts[texts.len() - 1] == last);
            if is_digest(last) {
                assert(all[before.len() as int] == last);
                if before.contains(t) {
                    let i = choose|i: int| 0 <= i < before.len() && before[i] == t;
                    assert(all[i] == t);
                }
                if all.contains(t) && t != last {
                    let i = choose|i: int| 0 <= i < all.len() && all[i] == t;
                    assert(before[i] == t);
                }
            }
        }
    }
}

/// A deletion of manifests is answered with how many manifests and tags went: those that
/// were there. A deletion of a repository is answered with all that it held.
pub proof fn lemma_deletions_are_counted(s: StateView, req: ManifestRequest)
    requires
        req is DeleteManifests || req is DeleteRepository,
        forall|n: Seq<char>| #[trigger]
            s.manifests.dom().contains(n) ==> s.manifests[n].dom().finite(),
        forall|n: Seq<char>| #[trigger] s.tags.dom().contains(n) ==> s.tags[n].dom().finite(),
    ensures
        ({
            let answer = request_step(s, Request::Manifest(req)).1;
            let name = match req {
                ManifestRequest::DeleteManifests { name, .. } => name@,
                ManifestRequest::DeleteRepository { name } => name@,
                _ => arbitrary(),
            };
            let repo = or_empty(s.manifests, name);
            let tags = or_empty(s.tags, name);
            let manifests_gone = repo.dom().filter(
                |d: Seq<char>| deletes_manifest(Request::Manifest(req), name, d),
            );
            let tags_gone = tags.dom().filter(
                |t: Seq<char>| deletes_manifest(Request::Manifest(req), name, tags[t]),
            );
            answer == ResponseView::Manifest(
                ManifestResponseView::DeleteCounts(
                    DeleteCounts {
                        deleted_manifests: manifests_gone.len() as usize,
                        deleted_tags: tags_gone.len() as usize,
                    },
                ),
            )
        }),
{
    let name = match req {
        ManifestRequest::DeleteManifests { name, .. } => name@,
        ManifestRequest::DeleteRepository { name } => name@,
        _ => arbitrary(),
    };
    let repo = or_empty(s.manifests, name);
    let tags = or_empty(s.tags, name);
    let manifests_gone = repo.dom().filter(
        |d: Seq<char>| deletes_manifest(Request::Manifest(req), name, d),
    );
    let tags_gone = tags.dom().filter(
        |t: Seq<char>| deletes_manifest(Request::Manifest(req), name, tags[t]),
    );
    if let ManifestRequest::DeleteManifests { digests, .. } = req {
        let set = digests.deep_view().to_set();
        assert(repo.dom().intersect(set) =~= manifests_gone);
        assert(tags_of_digests(tags, set) =~= tags_gone);
        lemma_listing_len(manifests_gone);
        lemma_listing_len(tags_gone);
    } else {
        assert(manifests_gone =~= repo.dom());
        assert(tags_gone =~= tags.dom());
    }
}

/// The listing of a set is as long as the set is large.
proof fn lemma_listing_len(set: Set<Seq<char>>)
    requires
        set.finite(),
    ensures
        sorted_keys(set).len() == set.len(),
{
    lemma_finite_listing(set);
    let keys = sorted_keys(set);
    if keys.len() > 0 {
        lemma_ascending_position(keys, 0);
    }
    assert(keys.to_set() =~= set);
    keys.unique_seq_to_set();
}

/// A request to delete a blob is kept with its time and answered with the number of
/// references to it; the blob counts as referenced where that number is not zero. A
/// mount changes nothing, and is refused exactly where the repository has no live claim.
pub proof fn lemma_blob_requests(s: StateView, req: ManifestRequest)
    ensures
        ({
            let (after, answer) = request_step(s, Request::Manifest(req));
            match req {
                ManifestRequest::RecordBlobDelete { digest, requested_at } => {
                    &&& lookup(after.blob_delete_requests, digest@) == Some(requested_at)
                    &&& answer matches ResponseView::Manifest(
                        ManifestResponseView::BlobDeleteStatus(status),
                    ) && {
                        &&& status.digest == digest@
                        &&& status.ref_count == match lookup(s.blob_ref_counts, digest@) {
                            Some(n) => n,
                            None => 0,
                        }
                        &&& status.referenced <==> status.ref_count > 0
                    }
                    &&& after == (StateView {
                        blob_delete_requests: after.blob_delete_requests,
                        ..s
                    })
                },
                ManifestRequest::ClearBlobDelete { digest } => {
                    &&& lookup(after.blob_delete_requests, digest@) is None
                    &&& after == (StateView {
                        blob_delete_requests: after.blob_delete_requests,
                        ..s
                    })
                },
                ManifestRequest::MountBlob { dest_repo, .. } => {
                    &&& after == s
                    &&& answer is Error <==> !is_live(s, dest_repo@)
                    &&& is_live(s, dest_repo@) ==> answer == ResponseView::Manifest(
                        ManifestResponseView::Done,
                    )
                },
                _ => true,
            }
        }),
{
    if let ManifestRequest::MountBlob { dest_repo, .. } = req {
        lemma_live_namespace(s, dest_repo@);
    }
}

// ── The rest ─────────────────────────────────────────────────────────────

/// No change touches the charts, the permission rules, or what the log says of itself.
pub proof fn lemma_no_change_touches_the_rest(s: StateView, req: Request)
    ensures
        ({
            let after = request_step(s, req).0;
            &&& after.helm_charts == s.helm_charts
            &&& after.helm_chart_versions == s.helm_chart_versions
            &&& after.permission_rules == s.permission_rules
            &&& after.last_applied_log == s.last_applied_log
            &&& after.last_membership == s.last_membership
            &&& !(req is Job || req is MirrorConfig) ==> after.sync_jobs == s.sync_jobs
            &&& !(req is Job) ==> after.sync_job_runs == s.sync_job_runs
            &&& !(req is Manifest) ==> after.blob_ref_counts == s.blob_ref_counts
            &&& !(req is Manifest) ==> after.blob_delete_requests == s.blob_delete_requests
        }),
{
}

/// An entry of the log is recorded as applied, whatever it carries. One that carries a
/// change has the effect and the answer of that change; one that carries a membership
/// puts it in force; and one that carries nothing changes nothing else.
pub proof fn lemma_entries_are_recorded(s: StateView, entry: Entry)
    ensures
        ({
            let (after, answer) = entry_step(s, entry);
            &&& after.last_applied_log == Some(entry.log_id)
            &&& match entry.payload {
                EntryPayload::Normal(req) => {
                    &&& answer == request_step(
                        StateView { last_applied_log: Some(entry.log_id), ..s },
                        req,
                    ).1
                    &&& after == request_step(
                        StateView { last_applied_log: Some(entry.log_id), ..s },
                        req,
                    ).0
                },
                EntryPayload::Membership(m) => {
                    &&& after.last_membership.membership == m@
                    &&& after.last_membership.log_id == Some(entry.log_id)
                    &&& s == (StateView {
                        last_applied_log: s.last_applied_log,
                        last_membership: s.last_membership,
                        ..after
                    })
                },
                EntryPayload::Blank => s == (StateView {
                    last_applied_log: s.last_applied_log,
                    ..after
                }),
            }
        }),
{
    if let EntryPayload::Normal(req) = entry.payload {
        lemma_no_change_touches_the_rest(
            StateView { last_applied_log: Some(entry.log_id), ..s },
            req,
        );
    }
}

/// A push under a tag, and a deletion of the tag, of its manifest or of its repository,
/// forget what was known of the tag's upstream; no change of manifests touches what is
/// known of a tag of another repository.
pub proof fn lemma_pushes_forget_the_upstream(
    s: StateView,
    req: ManifestRequest,
    cache: Seq<char>,
    name: Seq<char>,
    tag: Seq<char>,
)
    requires
        req is PutManifest || req is DeleteTag || req is DeleteRepository,
    ensures
        ({
            let after = request_step(s, Request::Manifest(req)).0.proxy_cache_tag_validations;
            let before = validation(s.proxy_cache_tag_validations, cache, name, tag);
            let forgotten = match req {
                ManifestRequest::PutManifest { name: n, reference, .. } => is_live(s, n@) && n@
                    == name && reference@ == tag && !tag.contains(':'),
                ManifestRequest::DeleteTag { name: n, digest, tag: t } => n@ == name && t@ == tag
                    && lookup(or_empty(s.tags, name), tag) == Some(digest@),
                ManifestRequest::DeleteRepository { name: n } => n@ == name,
                _ => false,
            };
            &&& forgotten ==> validation(after, cache, name, tag) is None
            &&& !forgotten ==> validation(after, cache, name, tag) == before
        }),
{
    let m = s.proxy_cache_tag_validations;
    match req {
        ManifestRequest::PutManifest { name: n, reference, .. } => {
            lemma_live_namespace(s, n@);
            lemma_cleared_tag_is_gone(m, n@, reference@, cache, name, tag);
        },
        ManifestRequest::DeleteTag { name: n, tag: t, .. } => {
            lemma_cleared_tag_is_gone(m, n@, t@, cache, name, tag);
        },
        ManifestRequest::DeleteRepository { name: n } => {
            lemma_cleared_repository_is_gone(m, n@, cache, name, tag);
        },
        _ => {},
    }
}

} // verus!
