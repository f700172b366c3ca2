//! Changes of mirrors, caches, jobs, tokens and repository objects.
use crate::error::{outcome, ErrorView, LayerhouseError};
use crate::raft::manifests::require_live_namespace;
use crate::raft::model::live_namespace_outcome;
use crate::raft::state::{StateMachineData, StateView};
use crate::raft::{
    JobRequest, JobResponse, MirrorConfigRequest, MirrorConfigResponse, MirrorConfigResponseView,
    RepositoryRequest, RepositoryResponse, TokenRequest, TokenResponse,
};
use crate::store::metadata::sync::{
    blocks_trigger, mirror_rule_job, proxy_cache_warm_job, rule_job, sync_job_blocks_trigger,
    warm_job,
};
use crate::store::metadata::types::{
    SyncJob, SyncJobKind, SyncJobRun, SyncJobRunView, SyncJobStatus, SyncJobView,
};
use crate::store::metadata::validations::{
    clear_proxy_cache_tag_validations_for_cache, put_proxy_cache_tag_validation, with_validation,
};
use crate::string_map::{sorted_keys, StringMap};
use crate::text::{concat3, decimal, decimal_text, str_equal};
use vstd::prelude::*;

verus! {

// ── Mirrors and caches ───────────────────────────────────────────────────

/// Whether some job keeps a rule from being triggered.
pub open spec fn trigger_blocked(
    jobs: Map<Seq<char>, SyncJobView>,
    kind: SyncJobKind,
    rule_id: Seq<char>,
    now: u64,
) -> bool {
    exists|k: Seq<char>| #[trigger]
        jobs.dom().contains(k) && blocks_trigger(jobs[k], kind, rule_id, now)
}

/// The state with a job put in.
pub open spec fn with_job(s: StateView, job: SyncJobView) -> StateView {
    StateView { sync_jobs: s.sync_jobs.insert(job.id, job), ..s }
}

/// What a change of mirrors and caches does, and how it is answered.
pub open spec fn mirror_config_step(s: StateView, req: MirrorConfigRequest) -> (
    StateView,
    MirrorConfigResponseView,
) {
    match req {
        MirrorConfigRequest::PutMirrorRule(rule) => (
            StateView { mirror_rules: s.mirror_rules.insert(rule@.id, rule@), ..s },
            MirrorConfigResponseView::Done,
        ),
        MirrorConfigRequest::DeleteMirrorRule { id } => (
            StateView { mirror_rules: s.mirror_rules.remove(id@), ..s },
            MirrorConfigResponseView::Done,
        ),
        MirrorConfigRequest::TriggerMirrorRule { id, now } => if !s.mirror_rules.dom().contains(
            id@,
        ) {
            (s, MirrorConfigResponseView::SyncJob(None))
        } else if trigger_blocked(s.sync_jobs, SyncJobKind::Mirror, id@, now) {
            (s, MirrorConfigResponseView::Bool(false))
        } else {
            let job = rule_job(
                s.mirror_rules[id@],
                id@ + "-"@ + decimal_text(now as nat),
                now,
                0,
            );
            (with_job(s, job), MirrorConfigResponseView::SyncJob(Some(job)))
        },
        MirrorConfigRequest::PutProxyCache(cache) => (
            StateView {
                proxy_cache_tag_validations: s.proxy_cache_tag_validations.remove(cache@.id),
                proxy_caches: s.proxy_caches.insert(cache@.id, cache@),
                ..s
            },
            MirrorConfigResponseView::Done,
        ),
        MirrorConfigRequest::DeleteProxyCache { id } => (
            StateView {
                proxy_cache_tag_validations: s.proxy_cache_tag_validations.remove(id@),
                proxy_caches: s.proxy_caches.remove(id@),
                ..s
            },
            MirrorConfigResponseView::Done,
        ),
        MirrorConfigRequest::TriggerProxyCacheWarm { id, now } => if !s.proxy_caches.dom().contains(
            id@,
        ) {
            (s, MirrorConfigResponseView::SyncJob(None))
        } else if trigger_blocked(s.sync_jobs, SyncJobKind::ProxyCache, id@, now) {
            (s, MirrorConfigResponseView::Bool(false))
        } else {
            let job = warm_job(s.proxy_caches[id@], now);
            (with_job(s, job), MirrorConfigResponseView::SyncJob(Some(job)))
        },
        MirrorConfigRequest::PutProxyCacheTagValidation(validation) => (
            StateView {
                proxy_cache_tag_validations: with_validation(
                    s.proxy_cache_tag_validations,
                    validation@,
                ),
                ..s
            },
            MirrorConfigResponseView::Done,
        ),
        MirrorConfigRequest::PutWarmImage(image) => (
            StateView { warm_images: s.warm_images.insert(image@.id, image@), ..s },
            MirrorConfigResponseView::Done,
        ),
        MirrorConfigRequest::DeleteWarmImage { id } => (
            StateView { warm_images: s.warm_images.remove(id@), ..s },
            MirrorConfigResponseView::Done,
        ),
    }
}

/// Whether some job keeps a rule from being triggered.
fn any_job_blocks(
    jobs: &StringMap<SyncJob>,
    kind: SyncJobKind,
    rule_id: &str,
    now: u64,
) -> (r: bool)
    ensures
        r == trigger_blocked(jobs@, kind, rule_id@, now),
{
    let n = jobs.len();
    let ghost ks = sorted_keys(jobs@.dom());
    let mut i: usize = 0;
    while i < n
        invariant
            ks == sorted_keys(jobs@.dom()),
            n == ks.len(),
            i <= n,
            forall|k: Seq<char>| #[trigger] ks.contains(k) <==> jobs@.dom().contains(k),
            forall|j: int|
                0 <= j < i ==> !blocks_trigger(jobs@[#[trigger] ks[j]], kind, rule_id@, now),
        decreases n - i,
    {
        let job = jobs.value_at(i);
        if sync_job_blocks_trigger(job, kind, rule_id, now) {
            assert(jobs@.dom().contains(ks[i as int]));
            return true;
        }
        i = i + 1;
    }
    assert forall|k: Seq<char>| #[trigger] jobs@.dom().contains(k) implies !blocks_trigger(
        jobs@[k],
        kind,
        rule_id@,
        now,
    ) by {
        assert(ks.contains(k));
        let j = choose|j: int| 0 <= j < ks.len() && ks[j] == k;
        assert(ks[j] == k);
    }
    false
}

/// Applies a change of mirrors and caches.
pub fn apply_mirror_config(data: &mut StateMachineData, req: MirrorConfigRequest) -> (r:
    MirrorConfigResponse)
    ensures
        (final(data)@, r@) == mirror_config_step(old(data)@, req),
{
    match req {
        MirrorConfigRequest::PutMirrorRule(rule) => {
            let _ = data.mirror_rules.insert(rule.id.clone(), rule);
            MirrorConfigResponse::Done
        },
        MirrorConfigRequest::DeleteMirrorRule { id } => {
            let _ = data.mirror_rules.remove(id.as_str());
            MirrorConfigResponse::Done
        },
        MirrorConfigRequest::TriggerMirrorRule { id, now } => {
            let rule = match data.mirror_rules.get(id.as_str()) {
                Some(rule) => rule,
                None => return MirrorConfigResponse::SyncJob(None),
            };
            if any_job_blocks(&data.sync_jobs, SyncJobKind::Mirror, id.as_str(), now) {
                return MirrorConfigResponse::Bool(false);
            }
            let job_id = concat3(id.as_str(), "-", decimal(now).as_str());
            let job = mirror_rule_job(rule, job_id, now, 0);
            let answer = job.clone();
            let _ = data.sync_jobs.insert(job.id.clone(), job);
            MirrorConfigResponse::SyncJob(Some(answer))
        },
        MirrorConfigRequest::PutProxyCache(cache) => {
            clear_proxy_cache_tag_validations_for_cache(
                &mut data.proxy_cache_tag_validations,
                cache.id.as_str(),
            );
            let _ = data.proxy_caches.insert(cache.id.clone(), cache);
            MirrorConfigResponse::Done
        },
        MirrorConfigRequest::DeleteProxyCache { id } => {
            let _ = data.proxy_caches.remove(id.as_str());
            clear_proxy_cache_tag_validations_for_cache(
                &mut data.proxy_cache_tag_validations,
                id.as_str(),
            );
            MirrorConfigResponse::Done
        },
        MirrorConfigRequest::TriggerProxyCacheWarm { id, now } => {
            let cache = match data.proxy_caches.get(id.as_str()) {
                Some(cache) => cache,
                None => return MirrorConfigResponse::SyncJob(None),
            };
            if any_job_blocks(&data.sync_jobs, SyncJobKind::ProxyCache, id.as_str(), now) {
                return MirrorConfigResponse::Bool(false);
            }
            let job = proxy_cache_warm_job(cache, now);
            let answer = job.clone();
            let _ = data.sync_jobs.insert(job.id.clone(), job);
            MirrorConfigResponse::SyncJob(Some(answer))
        },
        MirrorConfigRequest::PutProxyCacheTagValidation(validation) => {
            put_proxy_cache_tag_validation(&mut data.proxy_cache_tag_validations, validation);
            MirrorConfigResponse::Done
        },
        MirrorConfigRequest::PutWarmImage(image) => {
            let _ = data.warm_images.insert(image.id.clone(), image);
            MirrorConfigResponse::Done
        },
        MirrorConfigRequest::DeleteWarmImage { id } => {
            let _ = data.warm_images.remove(id.as_str());
            MirrorConfigResponse::Done
        },
    }
}

// ── Jobs ─────────────────────────────────────────────────────────────────

/// How many of the latest runs of a job are kept.
pub const MAX_RUNS_PER_JOB: usize = 50;

/// The position of the first run of an id at or after a position, or the
/// length where there is none.
pub open spec fn run_position(runs: Seq<SyncJobRunView>, id: Seq<char>, from: int) -> int
    decreases runs.len() - from,
{
    if from >= runs.len() || runs[from].id == id {
        from
    } else {
        run_position(runs, id, from + 1)
    }
}

/// The runs of a job with one recorded: it replaces the run of its id, or is
/// added at the end, where only the latest are kept.
pub open spec fn with_run(runs: Seq<SyncJobRunView>, run: SyncJobRunView) -> Seq<SyncJobRunView> {
    let p = run_position(runs, run.id, 0);
    if p < runs.len() {
        runs.update(p, run)
    } else {
        let all = runs.push(run);
        if all.len() > MAX_RUNS_PER_JOB {
            all.skip(all.len() - MAX_RUNS_PER_JOB)
        } else {
            all
        }
    }
}

/// The runs of a job.
pub open spec fn runs_of(s: StateView, job_id: Seq<char>) -> Seq<SyncJobRunView> {
    if s.sync_job_runs.dom().contains(job_id) {
        s.sync_job_runs[job_id]
    } else {
        Seq::empty()
    }
}

/// What a change of jobs does, and how it is answered.
pub open spec fn job_step(s: StateView, req: JobRequest) -> (StateView, JobResponse) {
    match req {
        JobRequest::PutSyncJob(job) => (with_job(s, job@), JobResponse::Done),
        JobRequest::DeleteSyncJob { id } => (
            StateView {
                sync_jobs: s.sync_jobs.remove(id@),
                sync_job_runs: s.sync_job_runs.remove(id@),
                ..s
            },
            JobResponse::Done,
        ),
        JobRequest::ClaimSyncJob { id, node_id, now } => if s.sync_jobs.dom().contains(id@)
            && s.sync_jobs[id@].status == SyncJobStatus::Idle {
            (
                StateView {
                    sync_jobs: s.sync_jobs.insert(
                        id@,
                        SyncJobView {
                            status: SyncJobStatus::Running,
                            claimed_by: Some(node_id@),
                            claimed_at: Some(now),
                            ..s.sync_jobs[id@]
                        },
                    ),
                    ..s
                },
                JobResponse::Bool(true),
            )
        } else {
            (s, JobResponse::Bool(false))
        },
        JobRequest::TriggerSyncJob { id, now } => if s.sync_jobs.dom().contains(id@)
            && s.sync_jobs[id@].status != SyncJobStatus::Running {
            (
                StateView {
                    sync_jobs: s.sync_jobs.insert(
                        id@,
                        SyncJobView {
                            status: SyncJobStatus::Idle,
                            claimed_by: None,
                            claimed_at: None,
                            last_error: None,
                            next_run_at: now,
                            ..s.sync_jobs[id@]
                        },
                    ),
                    ..s
                },
                JobResponse::Bool(true),
            )
        } else {
            (s, JobResponse::Bool(false))
        },
        JobRequest::PutSyncJobRun(run) => (
            StateView {
                sync_job_runs: s.sync_job_runs.insert(
                    run@.job_id,
                    with_run(runs_of(s, run@.job_id), run@),
                ),
                ..s
            },
            JobResponse::Done,
        ),
    }
}

/// Records a run of a job.
fn record_run(runs: &mut Vec<SyncJobRun>, run: SyncJobRun)
    ensures
        final(runs).deep_view() == with_run(old(runs).deep_view(), run@),
{
    let ghost all = runs.deep_view();
    let n: usize = runs.len();
    let mut i: usize = 0;
    while i < n && !str_equal(runs[i].id.as_str(), run.id.as_str())
        invariant
            all == runs.deep_view(),
            n == runs@.len(),
            i <= n,
            run_position(all, run@.id, 0) == run_position(all, run@.id, i as int),
        decreases n - i,
    {
        i = i + 1;
    }
    if i < n {
        runs[i] = run;
        assert(runs.deep_view() =~= all.update(i as int, run@));
    } else {
        runs.push(run);
        assert(runs.deep_view() =~= all.push(run@));
        if runs.len() > MAX_RUNS_PER_JOB {
            let excess: usize = runs.len() - MAX_RUNS_PER_JOB;
            let latest = runs.split_off(excess);
            assert(latest.deep_view() =~= all.push(run@).skip(excess as int));
            *runs = latest;
        }
    }
}

/// Applies a change of jobs.
pub fn apply_job(data: &mut StateMachineData, req: JobRequest) -> (r: JobResponse)
    ensures
        (final(data)@, r) == job_step(old(data)@, req),
{
    let ghost before = data@;
    match req {
        JobRequest::PutSyncJob(job) => {
            let _ = data.sync_jobs.insert(job.id.clone(), job);
            JobResponse::Done
        },
        JobRequest::DeleteSyncJob { id } => {
            let _ = data.sync_jobs.remove(id.as_str());
            let _ = data.sync_job_runs.remove(id.as_str());
            JobResponse::Done
        },
        JobRequest::ClaimSyncJob { id, node_id, now } => {
            let mut claimed = false;
            if let Some(job) = data.sync_jobs.get_mut(id.as_str()) {
                if job.status == SyncJobStatus::Idle {
                    job.status = SyncJobStatus::Running;
                    job.claimed_by = Some(node_id);
                    job.claimed_at = Some(now);
                    claimed = true;
                }
            }
            if !claimed {
                assert(data@.sync_jobs =~= before.sync_jobs);
            }
            JobResponse::Bool(claimed)
        },
        JobRequest::TriggerSyncJob { id, now } => {
            let mut triggered = false;
            if let Some(job) = data.sync_jobs.get_mut(id.as_str()) {
                if job.status != SyncJobStatus::Running {
                    job.status = SyncJobStatus::Idle;
                    job.claimed_by = None;
                    job.claimed_at = None;
                    job.last_error = None;
                    job.next_run_at = now;
                    triggered = true;
                }
            }
            if !triggered {
                assert(data@.sync_jobs =~= before.sync_jobs);
            }
            JobResponse::Bool(triggered)
        },
        JobRequest::PutSyncJobRun(run) => {
            let job_id = run.job_id.clone();
            let mut runs = match data.sync_job_runs.remove(job_id.as_str()) {
                Some(runs) => runs,
                None => Vec::new(),
            };
            assert(runs.deep_view() =~= runs_of(before, job_id@));
            record_run(&mut runs, run);
            let _ = data.sync_job_runs.insert(job_id, runs);
            assert(data@.sync_job_runs =~= before.sync_job_runs.insert(
                run@.job_id,
                with_run(runs_of(before, run@.job_id), run@),
            ));
            JobResponse::Done
        },
    }
}

// ── Tokens ───────────────────────────────────────────────────────────────

/// Whether a token belongs to a subject.
pub open spec fn owns_token(s: StateView, id: Seq<char>, subject: Seq<char>) -> bool {
    s.personal_access_tokens.dom().contains(id) && s.personal_access_tokens[id].subject == subject
}

/// What a change of tokens does, and how it is answered: a token is deleted
/// only for the subject that it belongs to.
pub open spec fn token_step(s: StateView, req: TokenRequest) -> (StateView, TokenResponse) {
    match req {
        TokenRequest::PutPersonalAccessToken(token) => (
            StateView {
                personal_access_tokens: s.personal_access_tokens.insert(token@.id, token@),
                ..s
            },
            TokenResponse::Done,
        ),
        TokenRequest::DeletePersonalAccessToken { id, subject } => if owns_token(
            s,
            id@,
            subject@,
        ) {
            (
                StateView {
                    personal_access_tokens: s.personal_access_tokens.remove(id@),
                    ..s
                },
                TokenResponse::Bool(true),
            )
        } else {
            (s, TokenResponse::Bool(false))
        },
    }
}

/// Applies a change of tokens.
pub fn apply_token(data: &mut StateMachineData, req: TokenRequest) -> (r: TokenResponse)
    ensures
        (final(data)@, r) == token_step(old(data)@, req),
{
    match req {
        TokenRequest::PutPersonalAccessToken(token) => {
            let _ = data.personal_access_tokens.insert(token.id.clone(), token);
            TokenResponse::Done
        },
        TokenRequest::DeletePersonalAccessToken { id, subject } => {
            let owned = match data.personal_access_tokens.get(id.as_str()) {
                Some(token) => str_equal(token.subject.as_str(), subject.as_str()),
                None => false,
            };
            if owned {
                let _ = data.personal_access_tokens.remove(id.as_str());
            }
            TokenResponse::Bool(owned)
        },
    }
}

// ── Repositories ─────────────────────────────────────────────────────────

/// What a change of repository objects does, and how it is answered.
pub open spec fn repository_step(s: StateView, req: RepositoryRequest) -> (
    StateView,
    Result<RepositoryResponse, ErrorView>,
) {
    match req {
        RepositoryRequest::PutRepository(repo) => match live_namespace_outcome(s, repo@.name) {
            Err(e) => (s, Err(e)),
            Ok(_) => (
                StateView { repositories: s.repositories.insert(repo@.name, repo@), ..s },
                Ok(RepositoryResponse::Done),
            ),
        },
        RepositoryRequest::DeleteRepository { name } => (
            StateView { repositories: s.repositories.remove(name@), ..s },
            Ok(RepositoryResponse::Bool(s.repositories.dom().contains(name@))),
        ),
    }
}

/// Applies a change of repository objects.
pub fn apply_repository(data: &mut StateMachineData, req: RepositoryRequest) -> (r: Result<
    RepositoryResponse,
    LayerhouseError,
>)
    ensures
        (final(data)@, outcome(r)) == repository_step(old(data)@, req),
{
    match req {
        RepositoryRequest::PutRepository(repo) => {
            if let Err(e) = require_live_namespace(data, repo.name.as_str()) {
                return Err(e);
            }
            let _ = data.repositories.insert(repo.name.clone(), repo);
            Ok(RepositoryResponse::Done)
        },
        RepositoryRequest::DeleteRepository { name } => {
            let removed = data.repositories.remove(name.as_str());
            Ok(RepositoryResponse::Bool(removed.is_some()))
        },
    }
}

} // verus!
