//! What the changes of the replicated state promise.
use crate::oci::digest::{is_digest, is_digest_of, DigestAlgorithm};
use crate::raft::configs::{
    job_step, mirror_config_step, run_position, runs_of, with_run, MAX_RUNS_PER_JOB,
};
use crate::raft::model::{
    live_namespace_outcome, pushed, pushed_entry, tag_points_to, tags_of_digests,
    without_manifests, without_tags,
};
use crate::raft::namespaces::{
    any_under, claim_step, has_content, namespace_step, owner_kind, released,
};
use crate::raft::reads::{
    entry_at, keys_after, lookup, manifest_of, names_digest, page, token_of_hash, tokens_of,
    values_in_order,
};
use crate::raft::state::StateView;
use crate::raft::state_machine::{entry_step, request_step, Entry};
use crate::raft::{
    JobRequest, JobResponse, ManifestRequest, ManifestResponseView, MirrorConfigRequest,
    MirrorConfigResponseView, NamespaceRequest, Request, ResponseView, TokenRequest,
};
use crate::store::metadata::handle::{handle_of_outcome, handle_outcome};
use crate::store::metadata::namespace::{NamespaceView, OwnerView, ReleaseReasonView};
use crate::store::metadata::sync::blocks_trigger;
use crate::store::metadata::types::{
    ManifestEntryView, PersonalAccessToken, PersonalAccessTokenView, SyncJobKind, SyncJobRunView,
};
use crate::store::metadata::validations::{
    lemma_cleared_cache_is_gone, lemma_cleared_repository_is_gone, lemma_cleared_tag_is_gone,
    lemma_recorded_validation_is_found, or_empty, tidy, validation, ValidationsModel,
};
use crate::string_map::{ascending, lemma_finite_listing, sorted_keys};
use crate::text::{
    lemma_position, lemma_text_lt_irreflexive, lemma_text_lt_transitive, position, text_lt,
};
use vstd::prelude::*;

verus! {

// ── Refusals ─────────────────────────────────────────────────────────────

/// A change that is refused leaves the state as it was.
pub proof fn lemma_refused_change_has_no_effect(s: StateView, req: Request)
    requires
        request_step(s, req).1 is Error,
    ensures
        request_step(s, req).0 == s,
{
}

// ── Pushes and deletions of manifests ────────────────────────────────────

proof fn lemma_digest_names_digest(d: Seq<char>)
    requires
        is_digest(d),
    ensures
        names_digest(d),
        d.contains(':'),
{
    reveal_strlit("sha256:");
    reveal_strlit("sha512:");
    let p = if is_digest_of(d, DigestAlgorithm::Sha256) {
        "sha256:"@
    } else {
        "sha512:"@
    };
    assert(p.is_prefix_of(d));
    assert(d[6] == d.subrange(0, 7)[6]);
    assert(d[6] == ':');
}

proof fn lemma_tag_is_no_digest(t: Seq<char>)
    requires
        !t.contains(':'),
    ensures
        !names_digest(t),
{
    reveal_strlit("sha256:");
    reveal_strlit("sha512:");
    if "sha256:"@.is_prefix_of(t) {
        assert(t[6] == t.subrange(0, 7)[6]);
    }
    if "sha512:"@.is_prefix_of(t) {
        assert(t[6] == t.subrange(0, 7)[6]);
    }
}

/// A pushed manifest is found under its digest, and where it was pushed under a
/// tag, under that tag.
pub proof fn lemma_pushed_manifest_is_found(
    s: StateView,
    name: Seq<char>,
    reference: Seq<char>,
    e: ManifestEntryView,
)
    requires
        is_digest(e.digest),
    ensures
        manifest_of(pushed(s, name, reference, e), name, e.digest) == Some(e),
        !reference.contains(':') ==> manifest_of(
            pushed(s, name, reference, e),
            name,
            reference,
        ) == Some(e),
{
    lemma_digest_names_digest(e.digest);
    if !reference.contains(':') {
        lemma_tag_is_no_digest(reference);
    }
}

/// A push changes nothing for other repositories, and for other digests and
/// tags of its own repository, other than what a tag stands for whose manifest
/// it replaces.
pub proof fn lemma_push_leaves_the_rest(
    s: StateView,
    name: Seq<char>,
    reference: Seq<char>,
    e: ManifestEntryView,
    other: Seq<char>,
    r: Seq<char>,
)
    ensures
        other != name ==> manifest_of(pushed(s, name, reference, e), other, r) == manifest_of(
            s,
            other,
            r,
        ),
        names_digest(r) && r != e.digest ==> manifest_of(pushed(s, name, reference, e), name, r)
            == manifest_of(s, name, r),
        !names_digest(r) && r != reference && !tag_points_to(s, name, r, e.digest) ==> manifest_of(
            pushed(s, name, reference, e),
            name,
            r,
        ) == manifest_of(s, name, r),
{
}

/// Pushing a manifest again changes the manifests and tags no further.
pub proof fn lemma_push_is_idempotent(
    s: StateView,
    name: Seq<char>,
    reference: Seq<char>,
    e: ManifestEntryView,
)
    ensures
        ({
            let once = pushed(s, name, reference, e);
            let twice = pushed(once, name, reference, e);
            twice.manifests == once.manifests && twice.tags == once.tags
        }),
{
    let once = pushed(s, name, reference, e);
    let twice = pushed(once, name, reference, e);
    assert(twice.manifests =~= once.manifests) by {
        assert(once.manifests[name].insert(e.digest, e) =~= once.manifests[name]);
    }
    assert(twice.tags =~= once.tags) by {
        if !reference.contains(':') {
            assert(once.tags[name].insert(reference, e.digest) =~= once.tags[name]);
        }
    }
}

/// A deleted manifest is gone, no tag of its repository points to it any more,
/// and the other manifests and tags stay.
pub proof fn lemma_deleted_manifest_is_gone(
    s: StateView,
    name: Seq<char>,
    digests: Set<Seq<char>>,
    d: Seq<char>,
    tag: Seq<char>,
    other: Seq<char>,
)
    ensures
        ({
            let after = without_manifests(s, name, digests);
            &&& digests.contains(d) ==> entry_at(after, name, d) is None
            &&& digests.contains(d) ==> !tag_points_to(after, name, tag, d)
            &&& !digests.contains(d) ==> entry_at(after, name, d) == entry_at(s, name, d)
            &&& !digests.contains(d) ==> tag_points_to(after, name, tag, d) == tag_points_to(
                s,
                name,
                tag,
                d,
            )
            &&& other != name ==> manifest_of(after, other, d) == manifest_of(s, other, d)
        }),
{
}

/// What was pushed is what is pulled: where a push is accepted, the manifest is
/// read back under the digest that it was pushed with, and where the reference
/// is a tag, under the tag, with the bytes and the media type that were sent.
pub proof fn lemma_push_then_pull(s: StateView, req: ManifestRequest)
    requires
        req is PutManifest,
        is_digest(req->PutManifest_digest@),
        !(request_step(s, Request::Manifest(req)).1 is Error),
    ensures
        ({
            let after = request_step(s, Request::Manifest(req)).0;
            let name = req->PutManifest_name@;
            let digest = req->PutManifest_digest@;
            let reference = req->reference@;
            &&& manifest_of(after, name, digest) == Some(pushed_entry(req))
            &&& !reference.contains(':') ==> manifest_of(after, name, reference) == Some(
                pushed_entry(req),
            )
            &&& pushed_entry(req).digest == digest
            &&& pushed_entry(req).body == req->body@
            &&& pushed_entry(req).content_type == req->content_type@
        }),
{
    lemma_pushed_manifest_is_found(s, req->PutManifest_name@, req->reference@, pushed_entry(req));
}

/// A deleted tag is gone; all manifests and the other tags stay. A tag that
/// points elsewhere is not deleted.
pub proof fn lemma_deleted_tag_is_gone(
    s: StateView,
    req: ManifestRequest,
    other: Seq<char>,
    r: Seq<char>,
)
    requires
        req is DeleteTag,
    ensures
        ({
            let name = req->DeleteTag_name@;
            let tag = req->tag@;
            let (after, answer) = request_step(s, Request::Manifest(req));
            let deleted = tag_points_to(s, name, tag, req->DeleteTag_digest@);
            &&& answer == ResponseView::Manifest(ManifestResponseView::Bool(deleted))
            &&& after.manifests == s.manifests
            &&& deleted ==> lookup(or_empty(after.tags, name), tag) is None
            &&& !deleted ==> after == s
            &&& other != name || r != tag ==> lookup(or_empty(after.tags, other), r) == lookup(
                or_empty(s.tags, other),
                r,
            )
        }),
{
}

/// A deleted repository holds nothing any more, and no other repository
/// changes.
pub proof fn lemma_deleted_repository_is_gone(
    s: StateView,
    req: ManifestRequest,
    other: Seq<char>,
    r: Seq<char>,
)
    requires
        req is DeleteRepository,
    ensures
        ({
            let name = req->DeleteRepository_name@;
            let after = request_step(s, Request::Manifest(req)).0;
            &&& manifest_of(after, name, r) is None
            &&& !after.tags.dom().contains(name)
            &&& other != name ==> manifest_of(after, other, r) == manifest_of(s, other, r)
            &&& other != name ==> or_empty(after.tags, other) == or_empty(s.tags, other)
        }),
{
}

/// A blob whose deletion was asked for stays marked until the mark is cleared,
/// whatever else happens.
pub proof fn lemma_delete_request_stays(s: StateView, req: Request, digest: Seq<char>)
    ensures
        ({
            let after = request_step(s, req).0;
            &&& (req matches Request::Manifest(ManifestRequest::RecordBlobDelete { digest: d, .. })
                && d@ == digest) ==> after.blob_delete_requests.dom().contains(digest)
            &&& (req matches Request::Manifest(ManifestRequest::ClearBlobDelete { digest: d })
                && d@ == digest) ==> !after.blob_delete_requests.dom().contains(digest)
            &&& s.blob_delete_requests.dom().contains(digest)
                && !after.blob_delete_requests.dom().contains(digest) ==> (req matches
                Request::Manifest(ManifestRequest::ClearBlobDelete { digest: d })
                && d@ == digest)
        }),
{
}

// ── Namespaces ───────────────────────────────────────────────────────────

/// No handle is both claimed and released.
pub open spec fn claims_and_tombstones_apart(s: StateView) -> bool {
    forall|h: Seq<char>| #[trigger]
        s.namespaces.dom().contains(h) ==> !s.released_handles.dom().contains(h)
}

/// Every change keeps claims and tombstones apart.
pub proof fn lemma_claims_and_tombstones_stay_apart(s: StateView, req: Request)
    requires
        claims_and_tombstones_apart(s),
    ensures
        claims_and_tombstones_apart(request_step(s, req).0),
{
}

/// A handle that was released is claimed again only with the admin's override,
/// and then its tombstone is gone.
pub proof fn lemma_reclaim_needs_override(
    s: StateView,
    handle: Seq<char>,
    owner: OwnerView,
    label: Seq<char>,
    now: u64,
)
    requires
        s.released_handles.dom().contains(handle),
        !s.namespaces.dom().contains(handle),
        handle_outcome(handle) is Ok,
    ensures
        claim_step(s, handle, owner, label, false, now).1 is Err,
        claim_step(s, handle, owner, label, false, now).0 == s,
        claim_step(s, handle, owner, label, true, now).1 is Ok,
        !claim_step(s, handle, owner, label, true, now).0.released_handles.dom().contains(handle),
{
}

/// A claim that succeeds can be released at once, unless content lies under
/// the handle, and the tombstone remembers the owner.
pub proof fn lemma_claim_then_release(
    s: StateView,
    handle: Seq<char>,
    owner: OwnerView,
    label: Seq<char>,
    admin_override: bool,
    actor: Seq<char>,
    reason: ReleaseReasonView,
    now: u64,
)
    requires
        claim_step(s, handle, owner, label, admin_override, now).1 is Ok,
    ensures
        ({
            let claimed = claim_step(s, handle, owner, label, admin_override, now).0;
            let after = released(claimed, handle, actor, reason, now);
            &&& claimed.namespaces.dom().contains(handle)
            &&& !after.namespaces.dom().contains(handle)
            &&& after.released_handles[handle].prior_owner == owner
            &&& after.released_handles[handle].prior_owner_label == label
            &&& after.released_handles[handle].release_reason == reason
        }),
{
}

/// How a claim is answered does not depend on who holds the handle, only on
/// what kind of owner it is.
pub proof fn lemma_conflict_hides_owner(
    s: StateView,
    handle: Seq<char>,
    held: NamespaceView,
    owner: OwnerView,
    label: Seq<char>,
    admin_override: bool,
    now: u64,
)
    requires
        s.namespaces.dom().contains(handle),
        owner_kind(held.owner) == owner_kind(s.namespaces[handle].owner),
    ensures
        claim_step(
            StateView { namespaces: s.namespaces.insert(handle, held), ..s },
            handle,
            owner,
            label,
            admin_override,
            now,
        ).1 == claim_step(s, handle, owner, label, admin_override, now).1,
{
}

/// Everything that is stored under a repository name has a live claim of the
/// name's handle.
pub open spec fn content_is_claimed(s: StateView) -> bool {
    forall|n: Seq<char>|
        #![trigger s.manifests.dom().contains(n)]
        #![trigger s.tags.dom().contains(n)]
        #![trigger s.repositories.dom().contains(n)]
        s.manifests.dom().contains(n) || s.tags.dom().contains(n) || s.repositories.dom().contains(
            n,
        ) ==> live_namespace_outcome(s, n) is Ok
}

/// A repository lies under its handle.
proof fn lemma_lies_under_handle(name: Seq<char>)
    requires
        handle_of_outcome(name) is Ok,
    ensures
        (handle_of_outcome(name)->Ok_0 + "/"@).is_prefix_of(name),
{
    reveal_strlit("/");
    lemma_position(name, '/');
    let p = position(name, '/');
    assert(handle_of_outcome(name)->Ok_0 + "/"@ =~= name.subrange(0, p + 1));
}

/// Every change but an admin's revocation keeps all content under live claims.
pub proof fn lemma_content_stays_claimed(s: StateView, req: Request)
    requires
        content_is_claimed(s),
        !(req matches Request::Namespace(r) && r is AdminRevoke),
    ensures
        content_is_claimed(request_step(s, req).0),
{
    let after = request_step(s, req).0;
    assert forall|n: Seq<char>|
        after.manifests.dom().contains(n) || after.tags.dom().contains(n)
            || after.repositories.dom().contains(n) implies live_namespace_outcome(
        after,
        n,
    ) is Ok by {
        match req {
            Request::Namespace(r) => match r {
                NamespaceRequest::Delete { handle, actor, reason, now: at } => {
                    assert(live_namespace_outcome(s, n) is Ok);
                    lemma_lies_under_handle(n);
                    if namespace_step(s, r).1 is Ok && handle_of_outcome(n)->Ok_0 == handle@ {
                        if s.manifests.dom().contains(n) {
                            assert(any_under(s.manifests.dom(), handle@));
                        } else if s.tags.dom().contains(n) {
                            assert(any_under(s.tags.dom(), handle@));
                        } else {
                            assert(any_under(s.repositories.dom(), handle@));
                        }
                        assert(has_content(s, handle@));
                    }
                },
                NamespaceRequest::Claim { handle, .. } => {
                    assert(live_namespace_outcome(s, n) is Ok);
                },
                _ => {},
            },
            Request::Manifest(r) => {
                assert(s.manifests.dom().contains(n) || s.tags.dom().contains(n)
                    || s.repositories.dom().contains(n) ==> live_namespace_outcome(s, n) is Ok);
            },
            Request::Repository(r) => {
                assert(s.manifests.dom().contains(n) || s.tags.dom().contains(n)
                    || s.repositories.dom().contains(n) ==> live_namespace_outcome(s, n) is Ok);
            },
            _ => {
                assert(live_namespace_outcome(s, n) is Ok);
            },
        }
    }
}

/// Content is created only under a live claim.
pub proof fn lemma_no_content_without_claim(s: StateView, req: Request, name: Seq<char>)
    requires
        live_namespace_outcome(s, name) is Err,
        !s.manifests.dom().contains(name),
        !s.tags.dom().contains(name),
        !s.repositories.dom().contains(name),
    ensures
        !request_step(s, req).0.manifests.dom().contains(name),
        !request_step(s, req).0.tags.dom().contains(name),
        !request_step(s, req).0.repositories.dom().contains(name),
{
}

// ── Tokens ───────────────────────────────────────────────────────────────

/// The tokens that a subject is shown belong to that subject.
pub proof fn lemma_tokens_belong_to_subject(
    tokens: Seq<PersonalAccessTokenView>,
    subject: Seq<char>,
    i: int,
)
    requires
        0 <= i < tokens_of(tokens, subject).len(),
    ensures
        tokens_of(tokens, subject)[i].subject == subject,
        tokens.contains(tokens_of(tokens, subject)[i]),
    decreases tokens.len(),
{
    let front = tokens_of(tokens.drop_last(), subject);
    if i < front.len() {
        lemma_tokens_belong_to_subject(tokens.drop_last(), subject, i);
        let t = front[i];
        let j = choose|j: int| 0 <= j < tokens.drop_last().len() && tokens.drop_last()[j] == t;
        assert(tokens[j] == t);
    } else {
        assert(tokens[tokens.len() - 1] == tokens.last());
    }
}

/// A token stays until its own subject deletes it or it is put anew.
pub proof fn lemma_token_outlives_others(s: StateView, req: Request, id: Seq<char>)
    requires
        s.personal_access_tokens.dom().contains(id),
        request_step(s, req).0.personal_access_tokens.dom().contains(id) ==> request_step(
            s,
            req,
        ).0.personal_access_tokens[id] != s.personal_access_tokens[id],
    ensures
        req matches Request::Token(r) && match r {
            TokenRequest::PutPersonalAccessToken(token) => token@.id == id,
            TokenRequest::DeletePersonalAccessToken { id: i, subject } => i@ == id && subject@
                == s.personal_access_tokens[id].subject,
        },
{
}

proof fn lemma_hash_is_found(tokens: Seq<PersonalAccessTokenView>, hash: Seq<char>, from: int, i: int)
    requires
        0 <= from <= i < tokens.len(),
        tokens[i].token_hash == hash,
    ensures
        token_of_hash(tokens, hash, from) matches Some(t) && t.token_hash == hash,
    decreases i - from,
{
    if tokens[from].token_hash != hash {
        lemma_hash_is_found(tokens, hash, from + 1, i);
    }
}

/// Once a token is stored, its hash is known; while no other token has the same
/// hash, it is this token that is found.
pub proof fn lemma_stored_token_is_found(s: StateView, token: PersonalAccessToken)
    requires
        s.personal_access_tokens.dom().finite(),
    ensures
        ({
            let after = request_step(
                s,
                Request::Token(TokenRequest::PutPersonalAccessToken(token)),
            ).0;
            let found = token_of_hash(
                values_in_order(after.personal_access_tokens),
                token@.token_hash,
                0,
            );
            &&& found matches Some(t) && t.token_hash == token@.token_hash
            &&& (forall|id: Seq<char>| #[trigger]
                s.personal_access_tokens.dom().contains(id) && id != token@.id
                    ==> s.personal_access_tokens[id].token_hash != token@.token_hash)
                ==> found == Some(token@)
        }),
{
    let after = s.personal_access_tokens.insert(token@.id, token@);
    let keys = sorted_keys(after.dom());
    let tokens = values_in_order(after);
    lemma_finite_listing(after.dom());
    assert(keys.contains(token@.id));
    let i = choose|i: int| 0 <= i < keys.len() && keys[i] == token@.id;
    assert(tokens[i] == token@);
    lemma_hash_is_found(tokens, token@.token_hash, 0, i);
    lemma_found_is_among(tokens, token@.token_hash, 0);
    let j = choose|j: int|
        0 <= j < tokens.len() && token_of_hash(tokens, token@.token_hash, 0) == Some(tokens[j]);
    assert(keys.contains(keys[j]));
}

proof fn lemma_found_is_among(tokens: Seq<PersonalAccessTokenView>, hash: Seq<char>, from: int)
    requires
        0 <= from <= tokens.len(),
        token_of_hash(tokens, hash, from) is Some,
    ensures
        exists|j: int|
            from <= j < tokens.len() && token_of_hash(tokens, hash, from) == Some(
                #[trigger] tokens[j],
            ),
    decreases tokens.len() - from,
{
    if from < tokens.len() && tokens[from].token_hash != hash {
        lemma_found_is_among(tokens, hash, from + 1);
    } else {
        assert(token_of_hash(tokens, hash, from) == Some(tokens[from]));
    }
}

// ── Jobs ─────────────────────────────────────────────────────────────────

/// A job that one node claimed cannot be claimed by another before it is put
/// back or triggered.
pub proof fn lemma_claim_is_exclusive(s: StateView, first: JobRequest, second: JobRequest)
    requires
        first is ClaimSyncJob,
        second is ClaimSyncJob,
        first->ClaimSyncJob_id@ == second->ClaimSyncJob_id@,
        job_step(s, first).1 == JobResponse::Bool(true),
    ensures
        job_step(job_step(s, first).0, second).1 == JobResponse::Bool(false),
        job_step(job_step(s, first).0, second).0 == job_step(s, first).0,
{
}

/// Whether one trigger is of the rule or cache that another is of, and no
/// earlier.
pub open spec fn triggers_again(first: MirrorConfigRequest, second: MirrorConfigRequest) -> bool {
    match (first, second) {
        (
            MirrorConfigRequest::TriggerMirrorRule { id: a, now: t },
            MirrorConfigRequest::TriggerMirrorRule { id: b, now: u },
        ) => a@ == b@ && t <= u,
        (
            MirrorConfigRequest::TriggerProxyCacheWarm { id: a, now: t },
            MirrorConfigRequest::TriggerProxyCacheWarm { id: b, now: u },
        ) => a@ == b@ && t <= u,
        _ => false,
    }
}

/// A rule that was triggered is not triggered again while its job waits.
pub proof fn lemma_trigger_is_not_repeated(
    s: StateView,
    first: MirrorConfigRequest,
    second: MirrorConfigRequest,
)
    requires
        triggers_again(first, second),
        mirror_config_step(s, first).1 matches MirrorConfigResponseView::SyncJob(j) && j is Some,
        configs_under_ids(s),
    ensures
        mirror_config_step(mirror_config_step(s, first).0, second).1
            == MirrorConfigResponseView::Bool(false),
{
    let mid = mirror_config_step(s, first).0;
    let job = mirror_config_step(s, first).1->SyncJob_0->0;
    assert(mid.sync_jobs.dom().contains(job.id));
    match second {
        MirrorConfigRequest::TriggerMirrorRule { id, now } => {
            assert(blocks_trigger(job, SyncJobKind::Mirror, id@, now));
        },
        MirrorConfigRequest::TriggerProxyCacheWarm { id, now } => {
            assert(blocks_trigger(job, SyncJobKind::ProxyCache, id@, now));
        },
        _ => {},
    }
}

/// Rules and caches are kept under their ids.
pub open spec fn configs_under_ids(s: StateView) -> bool {
    &&& forall|k: Seq<char>| #[trigger]
        s.mirror_rules.dom().contains(k) ==> s.mirror_rules[k].id == k
    &&& forall|k: Seq<char>| #[trigger]
        s.proxy_caches.dom().contains(k) ==> s.proxy_caches[k].id == k
}

/// Every change keeps rules and caches under their ids.
pub proof fn lemma_configs_stay_under_ids(s: StateView, req: Request)
    requires
        configs_under_ids(s),
    ensures
        configs_under_ids(request_step(s, req).0),
{
}

/// No job keeps more than the bound of runs.
pub open spec fn runs_are_bounded(s: StateView) -> bool {
    forall|j: Seq<char>| #[trigger]
        s.sync_job_runs.dom().contains(j) ==> s.sync_job_runs[j].len() <= MAX_RUNS_PER_JOB
}

proof fn lemma_run_position(runs: Seq<SyncJobRunView>, id: Seq<char>, from: int)
    requires
        0 <= from <= runs.len(),
    ensures
        from <= run_position(runs, id, from) <= runs.len(),
        run_position(runs, id, from) < runs.len() ==> runs[run_position(runs, id, from)].id == id,
    decreases runs.len() - from,
{
    if from < runs.len() && runs[from].id != id {
        lemma_run_position(runs, id, from + 1);
    }
}

/// Every change keeps the runs of each job within the bound.
pub proof fn lemma_runs_stay_bounded(s: StateView, req: Request)
    requires
        runs_are_bounded(s),
    ensures
        runs_are_bounded(request_step(s, req).0),
{
    if let Request::Job(r) = req {
        if let JobRequest::PutSyncJobRun(run) = r {
            lemma_run_position(runs_of(s, run@.job_id), run@.id, 0);
        }
    }
}

/// A recorded run is among the runs of its job.
pub proof fn lemma_recorded_run_is_kept(runs: Seq<SyncJobRunView>, run: SyncJobRunView)
    ensures
        with_run(runs, run).contains(run),
{
    lemma_run_position(runs, run.id, 0);
    let p = run_position(runs, run.id, 0);
    let after = with_run(runs, run);
    if p < runs.len() {
        assert(after[p] == run);
    } else {
        assert(after[after.len() - 1] == run);
    }
}

// ── Validations of cached tags ───────────────────────────────────────────

proof fn lemma_without_tags_tidy(v: ValidationsModel, name: Seq<char>, tags: Seq<Seq<char>>)
    requires
        tidy(v),
    ensures
        tidy(without_tags(v, name, tags)),
    decreases tags.len(),
{
    if tags.len() > 0 {
        lemma_without_tags_tidy(v, name, tags.drop_last());
        let e = Seq::<char>::empty();
        lemma_cleared_tag_is_gone(
            without_tags(v, name, tags.drop_last()),
            name,
            tags.last(),
            e,
            e,
            e,
        );
    }
}

/// Every change leaves no cache without repositories and no repository without
/// tags among the validations.
pub proof fn lemma_validations_stay_tidy(s: StateView, req: Request)
    requires
        tidy(s.proxy_cache_tag_validations),
    ensures
        tidy(request_step(s, req).0.proxy_cache_tag_validations),
{
    let v = s.proxy_cache_tag_validations;
    let e = Seq::<char>::empty();
    match req {
        Request::Manifest(r) => match r {
            ManifestRequest::PutManifest { name, reference, .. } => {
                lemma_cleared_tag_is_gone(v, name@, reference@, e, e, e);
            },
            ManifestRequest::DeleteManifest { name, digest } => {
                lemma_without_tags_tidy(
                    v,
                    name@,
                    sorted_keys(tags_of_digests(or_empty(s.tags, name@), set![digest@])),
                );
            },
            ManifestRequest::DeleteManifests { name, digests } => {
                lemma_without_tags_tidy(
                    v,
                    name@,
                    sorted_keys(
                        tags_of_digests(or_empty(s.tags, name@), digests.deep_view().to_set()),
                    ),
                );
            },
            ManifestRequest::DeleteTag { name, digest, tag } => {
                lemma_cleared_tag_is_gone(v, name@, tag@, e, e, e);
            },
            ManifestRequest::DeleteRepository { name } => {
                lemma_cleared_repository_is_gone(v, name@, e, e, e);
            },
            _ => {},
        },
        Request::MirrorConfig(r) => match r {
            MirrorConfigRequest::PutProxyCache(cache) => {
                lemma_cleared_cache_is_gone(v, cache@.id, e, e, e);
            },
            MirrorConfigRequest::DeleteProxyCache { id } => {
                lemma_cleared_cache_is_gone(v, id@, e, e, e);
            },
            MirrorConfigRequest::PutProxyCacheTagValidation(x) => {
                lemma_recorded_validation_is_found(v, x@, e, e, e);
            },
            _ => {},
        },
        _ => {},
    }
}

/// A push under a tag forgets what was known of the tag's upstream, in every
/// cache.
pub proof fn lemma_push_forgets_validation(
    s: StateView,
    name: Seq<char>,
    tag: Seq<char>,
    e: ManifestEntryView,
    cache: Seq<char>,
)
    requires
        !tag.contains(':'),
    ensures
        validation(
            pushed(s, name, tag, e).proxy_cache_tag_validations,
            cache,
            name,
            tag,
        ) is None,
{
    lemma_cleared_tag_is_gone(s.proxy_cache_tag_validations, name, tag, cache, name, tag);
}

// ── Pages ────────────────────────────────────────────────────────────────

/// The keys beyond a text are those of the listing that are greater, in the
/// same order.
proof fn lemma_keys_after(keys: Seq<Seq<char>>, last: Option<Seq<char>>)
    requires
        ascending(keys),
    ensures
        ascending(keys_after(keys, last)),
        forall|k: Seq<char>| #[trigger]
            keys_after(keys, last).contains(k) <==> keys.contains(k) && (last matches Some(l)
                ==> text_lt(l, k)),
    decreases keys.len(),
{
    if keys.len() > 0 {
        let front = keys.drop_last();
        let k0 = keys.last();
        assert forall|i: int, j: int| 0 <= i < j < front.len() implies text_lt(
            #[trigger] front[i],
            #[trigger] front[j],
        ) by {
            assert(text_lt(keys[i], keys[j]));
        }
        lemma_keys_after(front, last);
        let rest = keys_after(front, last);
        assert forall|k: Seq<char>| keys.contains(k) <==> front.contains(k) || k == k0 by {
            if front.contains(k) {
                let i = choose|i: int| 0 <= i < front.len() && front[i] == k;
                assert(keys[i] == k);
            }
            assert(keys[keys.len() - 1] == k0);
            if keys.contains(k) && k != k0 {
                let i = choose|i: int| 0 <= i < keys.len() && keys[i] == k;
                assert(front[i] == k);
            }
        }
        let all = keys_after(keys, last);
        if !(last matches Some(l) && !text_lt(l, k0)) {
            assert(all =~= rest.push(k0));
            assert forall|i: int, j: int| 0 <= i < j < all.len() implies text_lt(
                #[trigger] all[i],
                #[trigger] all[j],
            ) by {
                if j < rest.len() {
                    assert(text_lt(rest[i], rest[j]));
                } else {
                    assert(rest.contains(rest[i]));
                    let q = choose|q: int| 0 <= q < front.len() && front[q] == rest[i];
                    assert(text_lt(keys[q], keys[keys.len() - 1]));
                }
            }
            assert forall|k: Seq<char>| #[trigger] all.contains(k) <==> rest.contains(k) || k
                == k0 by {
                if rest.contains(k) {
                    let i = choose|i: int| 0 <= i < rest.len() && rest[i] == k;
                    assert(all[i] == k);
                }
                assert(all[rest.len() as int] == k0);
                if all.contains(k) && k != k0 {
                    let i = choose|i: int| 0 <= i < all.len() && all[i] == k;
                    assert(rest[i] == k);
                }
            }
        }
    }
}

/// A page lists names beyond `last` only, in strictly ascending order, and at
/// most `n` of them.
pub proof fn lemma_page(names: Set<Seq<char>>, n: Option<usize>, last: Option<Seq<char>>)
    requires
        names.finite(),
    ensures
        ascending(page(names, n, last)),
        n matches Some(limit) ==> page(names, n, last).len() <= limit,
        forall|k: Seq<char>| #[trigger]
            page(names, n, last).contains(k) ==> names.contains(k) && (last matches Some(l)
                ==> text_lt(l, k)),
        forall|k: Seq<char>|
            names.contains(k) && (last matches Some(l) ==> text_lt(l, k)) ==> #[trigger] page(
                names,
                None,
                last,
            ).contains(k),
{
    lemma_finite_listing(names);
    let keys = sorted_keys(names);
    lemma_keys_after(keys, last);
    let all = keys_after(keys, last);
    let p = page(names, n, last);
    assert forall|i: int, j: int| 0 <= i < j < p.len() implies text_lt(
        #[trigger] p[i],
        #[trigger] p[j],
    ) by {
        assert(text_lt(all[i], all[j]));
    }
    assert forall|k: Seq<char>| #[trigger] p.contains(k) implies names.contains(k) && (
    last matches Some(l) ==> text_lt(l, k)) by {
        let i = choose|i: int| 0 <= i < p.len() && p[i] == k;
        assert(all[i] == k);
        assert(all.contains(k));
        assert(keys.contains(k));
    }
    assert forall|k: Seq<char>|
        names.contains(k) && (last matches Some(l) ==> text_lt(l, k)) implies #[trigger] page(
        names,
        None,
        last,
    ).contains(k) by {
        assert(keys.contains(k));
        assert(all.contains(k));
    }
}

/// Reading on from the last name of a page misses nothing and repeats nothing:
/// the page and what lies beyond it are together what lay beyond `last`.
pub proof fn lemma_pages_continue(
    names: Set<Seq<char>>,
    n: usize,
    last: Option<Seq<char>>,
)
    requires
        names.finite(),
        page(names, Some(n), last).len() > 0,
    ensures
        page(names, Some(n), last) + page(
            names,
            None,
            Some(page(names, Some(n), last).last()),
        ) == page(names, None, last),
{
    lemma_finite_listing(names);
    let keys = sorted_keys(names);
    let all = keys_after(keys, last);
    lemma_keys_after(keys, last);
    let first = page(names, Some(n), last);
    let end = first.last();
    let more = keys_after(keys, Some(end));
    lemma_keys_after(keys, Some(end));
    let rest = all.skip(first.len() as int);
    assert(end == all[first.len() - 1]);
    assert forall|i: int, j: int| 0 <= i < j < rest.len() implies text_lt(
        #[trigger] rest[i],
        #[trigger] rest[j],
    ) by {
        assert(text_lt(all[i + first.len()], all[j + first.len()]));
    }
    let dom = Set::new(|k: Seq<char>| more.contains(k));
    assert forall|k: Seq<char>| #[trigger] rest.contains(k) <==> dom.contains(k) by {
        if rest.contains(k) {
            let i = choose|i: int| 0 <= i < rest.len() && rest[i] == k;
            assert(all[i + first.len()] == k);
            assert(all.contains(k));
            assert(text_lt(all[first.len() - 1], all[i + first.len()]));
        }
        if more.contains(k) {
            assert(all.contains(end));
            if let Some(l) = last {
                lemma_text_lt_transitive(l, end, k);
            }
            assert(all.contains(k));
            let i = choose|i: int| 0 <= i < all.len() && all[i] == k;
            if i < first.len() {
                if i < first.len() - 1 {
                    assert(text_lt(all[i], all[first.len() - 1]));
                    lemma_text_lt_transitive(k, end, k);
                }
                lemma_text_lt_irreflexive(k);
            }
            assert(rest[i - first.len()] == k);
        }
    }
    crate::string_map::lemma_listing_unique(rest, more, dom);
    assert(first =~= all.take(first.len() as int));
    assert(first + rest =~= all);
}

// ── Replicas ─────────────────────────────────────────────────────────────

/// The state after the entries of a log, and how each was answered.
pub open spec fn replayed(s: StateView, log: Seq<Entry>) -> (StateView, Seq<ResponseView>)
    decreases log.len(),
{
    if log.len() == 0 {
        (s, Seq::empty())
    } else {
        let (before, answers) = replayed(s, log.drop_last());
        let (after, answer) = entry_step(before, log.last());
        (after, answers.push(answer))
    }
}

/// Replicas agree: a change has the same effect on the same state and the same
/// answer, wherever and whenever it is applied.
pub proof fn lemma_replicas_agree(a: StateView, b: StateView, req: Request)
    requires
        a == b,
    ensures
        request_step(a, req) == request_step(b, req),
{
}

/// Replicas that apply the same log from the same state end in the same state
/// and give the same answers, wherever each of them pauses.
pub proof fn lemma_replicas_agree_on_logs(s: StateView, log: Seq<Entry>, cut: int)
    requires
        0 <= cut <= log.len(),
    ensures
        ({
            let (mid, first) = replayed(s, log.take(cut));
            let (end, rest) = replayed(mid, log.skip(cut));
            replayed(s, log) == (end, first + rest)
        }),
    decreases log.len(),
{
    let (mid, first) = replayed(s, log.take(cut));
    if cut == log.len() {
        assert(log.take(cut) =~= log);
        assert(log.skip(cut) =~= Seq::empty());
        assert(first + Seq::<ResponseView>::empty() =~= first);
    } else {
        lemma_replicas_agree_on_logs(s, log.drop_last(), cut);
        assert(log.drop_last().take(cut) =~= log.take(cut));
        assert(log.drop_last().skip(cut) =~= log.skip(cut).drop_last());
        let (before, answers) = replayed(mid, log.skip(cut).drop_last());
        let answer = entry_step(before, log.last()).1;
        assert(first + answers.push(answer) =~= (first + answers).push(answer));
    }
}

} // verus!
