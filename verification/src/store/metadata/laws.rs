//! What handles, identifiers, jobs, runs and entries promise, told by what they hold.
use super::handle::{
    handle_of, is_handle, is_path_segment, is_repository_path, validate_handle,
    validate_repository_path,
};
use super::public::{public_cache, public_proxy, public_rule};
use super::sync::{
    default_sync_run_phase, default_warm_interval, mirror_rule_job, mirror_strategy_labels,
    proxy_cache_warm_job, sync_job_blocks_trigger, warm_filter_labels, with_event,
};
use super::typed_id::OrgId;
use super::types::{
    ManifestEntry, MirrorRule, MirrorRuleView, MirrorStrategy, OutboundProxyView, ProxyCache,
    ProxyCacheView, SyncJob, SyncJobKind, SyncJobRun, SyncJobRunView, SyncJobStatus,
    SyncRunEventKind, SyncRunEventView, SyncRunStatus, WarmFilter,
};
use crate::error::LayerhouseError;
use crate::oci::digest::Digest;
use crate::oci::json::Json;
use crate::text::{
    decimal_text, lemma_position, lemma_position_is, lemma_split_concat, lemma_split_nonempty, lemma_split_single,
    split_on,
};
use vstd::prelude::*;
use vstd::utf8::encode_utf8;

verus! {

// ── Handles and paths ────────────────────────────────────────────────────

/// A handle has three to thirty-nine bytes, small letters, digits and dashes, with no dash
/// at an end and no two side by side; every such text is a handle.
pub proof fn lemma_handles(s: &str, r: Result<(), LayerhouseError>)
    requires
        call_ensures(validate_handle, (s,), r),
    ensures
        r is Ok <==> ({
            let b = encode_utf8(s@);
            &&& 3 <= b.len() <= 39
            &&& forall|i: int|
                0 <= i < b.len() ==> 97 <= #[trigger] b[i] <= 122 || 48 <= b[i] <= 57 || (b[i] == 45 && 0
                    < i < b.len() - 1 && b[i - 1] != 45)
        }),
{
    let b = encode_utf8(s@);
    if 3 <= b.len() <= 39 && forall|i: int|
        0 <= i < b.len() ==> 97 <= #[trigger] b[i] <= 122 || 48 <= b[i] <= 57 || (b[i] == 45 && 0 < i
            < b.len() - 1 && b[i - 1] != 45) {
        assert(is_handle(b)) by {
            assert(b[0] != 45);
            assert(b[b.len() - 1] != 45);
        }
    }
    if r is Ok {
        assert(is_handle(b));
        assert forall|i: int| 0 <= i < b.len() implies 97 <= #[trigger] b[i] <= 122 || 48 <= b[i]
            <= 57 || (b[i] == 45 && 0 < i < b.len() - 1 && b[i - 1] != 45) by {
            assert(b[0] != 45);
            assert(b[b.len() - 1] != 45);
            if b[i] == 45 {
                assert(b[i - 1] == b[i - 1]);
            }
        }
    }
}

/// The handle of a repository is what stands before its first slash; a repository without a
/// slash, or with nothing behind the first one, has none.
pub proof fn lemma_handle_of_a_repository(
    repository: &str,
    handle: Seq<char>,
    rest: Seq<char>,
    r: Result<&str, LayerhouseError>,
)
    requires
        call_ensures(handle_of, (repository,), r),
        !handle.contains('/'),
    ensures
        repository@ == handle + seq!['/'] + rest && rest.len() > 0 ==> (r matches Ok(h) && h@
            == handle),
        repository@ == handle + seq!['/'] ==> r is Err,
        repository@ == handle ==> r is Err,
{
    let s = repository@;
    assert forall|i: int| 0 <= i < handle.len() implies #[trigger] handle[i] != '/' by {
        assert(handle.contains(handle[i]));
    }
    if s == handle + seq!['/'] + rest {
        lemma_position_is(s, '/', handle.len() as int);
        assert(s.take(handle.len() as int) =~= handle);
        assert(s.skip(handle.len() as int + 1) =~= rest);
    }
    if s == handle + seq!['/'] {
        lemma_position_is(s, '/', handle.len() as int);
        assert(s.skip(handle.len() as int + 1).len() == 0);
    }
    if s == handle {
        lemma_position(s, '/');
    }
}

/// A path of a repository is a handle and further parts, each of them not empty and of small
/// letters, digits, dashes, underscores and dots.
pub proof fn lemma_paths_of_repositories(s: &str, r: Result<(), LayerhouseError>)
    requires
        call_ensures(validate_repository_path, (s,), r),
    ensures
        r is Ok <==> ({
            let parts = split_on(s@, '/');
            &&& parts.len() >= 2
            &&& is_handle(encode_utf8(parts[0]))
            &&& forall|i: int, k: int|
                1 <= i < parts.len() && 0 <= k < encode_utf8(parts[i]).len() ==> ({
                    let b = #[trigger] encode_utf8(parts[i])[k];
                    97 <= b <= 122 || 48 <= b <= 57 || b == 45 || b == 95 || b == 46
                })
            &&& forall|i: int| 1 <= i < parts.len() ==> (#[trigger] parts[i]).len() > 0
        }),
{
    let parts = split_on(s@, '/');
    if is_repository_path(s@) {
        assert forall|i: int, k: int|
            1 <= i < parts.len() && 0 <= k < encode_utf8(parts[i]).len() implies ({
            let b = #[trigger] encode_utf8(parts[i])[k];
            97 <= b <= 122 || 48 <= b <= 57 || b == 45 || b == 95 || b == 46
        }) by {
            assert(is_path_segment(parts[i]));
        }
        assert forall|i: int| 1 <= i < parts.len() implies (#[trigger] parts[i]).len() > 0 by {
            assert(is_path_segment(parts[i]));
        }
    }
}

/// A handle, a slash and a part make a path; a path, a slash and a part make a longer one,
/// with the same handle.
pub proof fn lemma_longer_paths(
    path: &str,
    longer: &str,
    part: Seq<char>,
    a: Result<(), LayerhouseError>,
    b: Result<(), LayerhouseError>,
)
    requires
        call_ensures(validate_repository_path, (path,), a),
        call_ensures(validate_repository_path, (longer,), b),
        longer@ == path@ + seq!['/'] + part,
        !part.contains('/'),
        part.len() > 0,
        forall|k: int|
            0 <= k < encode_utf8(part).len() ==> 97 <= #[trigger] encode_utf8(part)[k] <= 122 || 48
                <= encode_utf8(part)[k] <= 57 || encode_utf8(part)[k] == 45 || encode_utf8(part)[k]
                == 95 || encode_utf8(part)[k] == 46,
    ensures
        a is Ok ==> b is Ok,
        is_handle(encode_utf8(path@)) && !path@.contains('/') ==> b is Ok,
{
    lemma_split_concat(path@, part, '/');
    lemma_split_single(part, '/');
    lemma_split_nonempty(path@, '/');
    let old = split_on(path@, '/');
    let new = split_on(longer@, '/');
    assert(new =~= old.push(part));
    assert(is_path_segment(part));
    if a is Ok {
        assert forall|i: int| 1 <= i < new.len() implies is_path_segment(
            #[trigger] new[i],
        ) by {
            if i < old.len() {
                assert(new[i] == old[i]);
            }
        }
    }
    if is_handle(encode_utf8(path@)) && !path@.contains('/') {
        lemma_split_single(path@, '/');
        assert(new[0] == path@);
        assert(new[1] == part);
    }
}

/// An identifier of an organization is its prefix and thirty-two small hexadecimal digits.
pub proof fn lemma_organization_ids(s: &str, digits: Seq<char>, r: Result<OrgId, LayerhouseError>)
    requires
        call_ensures(OrgId::parse, (s,), r),
    ensures
        s@ == "lhsorg-"@ + digits ==> (r is Ok <==> encode_utf8(digits).len() == 32 && forall|i: int|
            0 <= i < encode_utf8(digits).len() ==> 48 <= #[trigger] encode_utf8(digits)[i] <= 57
                || 97 <= encode_utf8(digits)[i] <= 102),
        r matches Ok(id) ==> id@ == s@ && "lhsorg-"@.is_prefix_of(s@),
{
    if s@ == "lhsorg-"@ + digits {
        assert(s@.skip("lhsorg-"@.len() as int) =~= digits);
        assert(s@.take("lhsorg-"@.len() as int) =~= "lhsorg-"@);
    }
}

// ── Jobs ─────────────────────────────────────────────────────────────────

/// A running job of a rule keeps the rule from being triggered, and so does a one-shot job
/// of it that is due. One of another rule or kind does not, nor does one that waits to run
/// again, nor one that is not due yet.
pub proof fn lemma_what_blocks_a_trigger(
    job: &SyncJob,
    kind: SyncJobKind,
    rule_id: &str,
    now: u64,
    r: bool,
)
    requires
        call_ensures(sync_job_blocks_trigger, (job, kind, rule_id, now), r),
    ensures
        r ==> job@.kind == kind && job@.rule_id == Some(rule_id@),
        job@.kind == kind && job@.rule_id == Some(rule_id@) && job@.status
            == SyncJobStatus::Running ==> r,
        job@.kind == kind && job@.rule_id == Some(rule_id@) && job@.interval_secs == 0
            && job@.next_run_at <= now ==> r,
        job@.status != SyncJobStatus::Running && job@.interval_secs > 0 ==> !r,
        job@.status != SyncJobStatus::Running && job@.next_run_at > now ==> !r,
{
}

/// A job made for a rule waits, has not been claimed or run, is due when it was made, and
/// carries the rule's id and place.
pub proof fn lemma_job_of_a_rule(
    rule: &MirrorRule,
    id: String,
    now: u64,
    interval_secs: u64,
    r: SyncJob,
)
    requires
        call_ensures(mirror_rule_job, (rule, id, now, interval_secs), r),
    ensures
        r@.id == id@,
        r@.kind == SyncJobKind::Mirror,
        r@.rule_id == Some(rule@.id),
        r@.rule_name == Some(rule@.id),
        r@.image == rule@.local_prefix,
        r@.status == SyncJobStatus::Idle,
        r@.claimed_by is None && r@.claimed_at is None && r@.last_run_at is None,
        r@.last_error is None,
        r@.next_run_at == now,
        r@.interval_secs == interval_secs,
{
}

/// A job that warms a cache runs once, is due when it was made, and has an id of its own for
/// each time.
pub proof fn lemma_job_of_a_cache(cache: &ProxyCache, now: u64, r: SyncJob)
    requires
        call_ensures(proxy_cache_warm_job, (cache, now), r),
    ensures
        r@.id == cache@.id + "-warm-"@ + decimal_text(now as nat),
        r@.kind == SyncJobKind::ProxyCache,
        r@.rule_id == Some(cache@.id),
        r@.rule_name == Some(cache@.id),
        r@.image == cache@.local_prefix,
        r@.status == SyncJobStatus::Idle,
        r@.claimed_by is None && r@.claimed_at is None && r@.last_run_at is None,
        r@.last_error is None,
        r@.next_run_at == now,
        r@.interval_secs == 0,
{
}

/// The tags of a rule are named by how they are chosen.
pub proof fn lemma_labels_of_a_strategy(strategy: &MirrorStrategy, r: Vec<String>)
    requires
        call_ensures(mirror_strategy_labels, (strategy,), r),
    ensures
        r@.len() == 1,
        strategy is All ==> r@[0]@ == "all"@,
        strategy matches MirrorStrategy::Latest { count } ==> r@[0]@ == "latest "@ + decimal_text(
            *count as nat,
        ),
        strategy matches MirrorStrategy::Pattern { pattern } ==> r@[0]@ == pattern@,
{
    assert(r.deep_view().len() == r@.len());
    assert(r.deep_view()[0] == r@[0]@);
}

/// One more filter of a cache adds its name, and the filter that warms nothing adds none.
pub proof fn lemma_labels_of_filters(
    filters: &Vec<WarmFilter>,
    longer: &Vec<WarmFilter>,
    filter: WarmFilter,
    before: Vec<String>,
    after: Vec<String>,
)
    requires
        longer@ == filters@.push(filter),
        call_ensures(warm_filter_labels, (filters,), before),
        call_ensures(warm_filter_labels, (longer,), after),
    ensures
        filters@.len() == 0 ==> before@.len() == 0,
        filter is Never ==> after.deep_view() == before.deep_view(),
        filter is All ==> after.deep_view() == before.deep_view().push("all"@),
        filter matches WarmFilter::Latest { count, .. } ==> after.deep_view()
            == before.deep_view().push("latest "@ + decimal_text(count as nat)),
        filter matches WarmFilter::Pattern { pattern } ==> after.deep_view()
            == before.deep_view().push(pattern@),
{
    assert(before.deep_view().len() == before@.len());
    assert(longer.deep_view().drop_last() =~= filters.deep_view());
    assert(longer.deep_view().last() == filter@);
}

/// What holds where nothing else is said.
pub proof fn lemma_defaults(interval: u64, phase: String)
    requires
        call_ensures(default_warm_interval, (), interval),
        call_ensures(default_sync_run_phase, (), phase),
    ensures
        interval == 60 * 60,
        phase@ == "Queued"@,
{
}

// ── Runs ─────────────────────────────────────────────────────────────────

/// What a run is about, which no step of it changes.
pub open spec fn same_run(a: SyncJobRunView, b: SyncJobRunView) -> bool {
    a.id == b.id && a.job_id == b.job_id && a.node_id == b.node_id && a.started_at == b.started_at
}

/// Whether a run got one more event, of a kind, about a tag and at a time.
pub open spec fn says(
    before: SyncJobRunView,
    after: SyncJobRunView,
    kind: SyncRunEventKind,
    tag: Option<Seq<char>>,
    at: u64,
) -> bool {
    &&& after.recent_events.len() > 0
    &&& after.recent_events.last().kind == kind
    &&& after.recent_events.last().tag == tag
    &&& after.recent_events.last().at == at
    &&& before.recent_events.len() < 50 ==> after.recent_events.drop_last() == before.recent_events
}

/// A run begins with nothing done, and goes on as its steps say: each step tells the time
/// and adds an event.
pub proof fn lemma_steps_of_a_run(
    run: SyncJobRunView,
    tag: Seq<char>,
    phase: Seq<char>,
    kind: SyncRunEventKind,
    message: Seq<char>,
    n: usize,
    now: u64,
)
    ensures
        ({
            let a = run.resolution_started(now);
            same_run(run, a) && says(run, a, SyncRunEventKind::Info, None, now) && a.updated_at == now
                && a.current_tag is None && a.status == run.status && a.total_tags == run.total_tags
                && a.completed_tags == run.completed_tags && a.finished_at == run.finished_at
        }),
        ({
            let a = run.resolution_finished(n, now);
            same_run(run, a) && says(run, a, SyncRunEventKind::Info, None, now) && a.updated_at == now
                && a.current_tag is None && a.status == run.status && a.total_tags == n
                && a.completed_tags == 0 && a.finished_at == run.finished_at
        }),
        ({
            let a = run.resolution_failed(message, now);
            same_run(run, a) && says(run, a, SyncRunEventKind::Error, None, now) && a.updated_at
                == now && a.recent_events.last().message == message && a.total_tags == 0
                && a.completed_tags == 0 && a.finished_at == run.finished_at
        }),
        ({
            let a = run.tag_started(tag, phase, now);
            same_run(run, a) && says(run, a, SyncRunEventKind::Info, Some(tag), now) && a.updated_at
                == now && a.current_tag == Some(tag) && a.phase == phase && a.status == run.status
                && a.total_tags == run.total_tags && a.completed_tags == run.completed_tags
        }),
        ({
            let a = run.tag_finished(tag, kind, message, n, now);
            same_run(run, a) && says(run, a, kind, Some(tag), now) && a.updated_at == now
                && a.current_tag == Some(tag) && a.phase == run.phase && a.status == run.status
                && a.total_tags == run.total_tags && a.recent_events.last().message == message && (n
                <= run.total_tags ==> a.completed_tags == n) && (n > run.total_tags
                ==> a.completed_tags == run.total_tags)
        }),
{
    assert(run.recent_events.len() < 50 ==> forall|e: SyncRunEventView|
        #[trigger] run.recent_events.push(e).drop_last() =~= run.recent_events);
}

/// A run that ends keeps the tags that were synced and those that failed, tells when it
/// ended and how, and counts them as done up to the number there were.
pub proof fn lemma_end_of_a_run(
    run: SyncJobRunView,
    status: SyncRunStatus,
    synced: Seq<Seq<char>>,
    failed: Seq<(Seq<char>, Seq<char>)>,
    now: u64,
)
    ensures
        ({
            let a = run.finished(status, synced, failed, now);
            &&& same_run(run, a)
            &&& a.finished_at == Some(now)
            &&& a.updated_at == now
            &&& a.status == status
            &&& a.current_tag is None
            &&& a.tags_synced == synced
            &&& a.tags_failed == failed
            &&& a.total_tags == run.total_tags
            &&& synced.len() + failed.len() <= run.total_tags ==> a.completed_tags == synced.len()
                + failed.len()
            &&& synced.len() + failed.len() > run.total_tags ==> a.completed_tags == run.total_tags
            &&& a.recent_events.last().message == a.phase
            &&& status == SyncRunStatus::Succeeded ==> a.phase == "Succeeded"@ && says(
                run,
                a,
                SyncRunEventKind::Success,
                None,
                now,
            )
            &&& status == SyncRunStatus::PartialFailure ==> a.phase == "Partial failure"@ && says(
                run,
                a,
                SyncRunEventKind::Warning,
                None,
                now,
            )
            &&& status == SyncRunStatus::Failed ==> a.phase == "Failed"@ && says(
                run,
                a,
                SyncRunEventKind::Error,
                None,
                now,
            )
        }),
{
    assert(run.recent_events.len() < 50 ==> forall|e: SyncRunEventView|
        #[trigger] run.recent_events.push(e).drop_last() =~= run.recent_events);
}

/// Of the events of a run the fifty latest are kept, in order.
pub proof fn lemma_latest_events(events: Seq<SyncRunEventView>, event: SyncRunEventView, i: int)
    ensures
        ({
            let kept = with_event(events, event);
            &&& events.len() < 50 ==> kept == events.push(event)
            &&& events.len() >= 50 ==> kept.len() == 50
            &&& 0 <= i < kept.len() ==> kept[kept.len() - 1 - i] == events.push(event)[events.len()
                - i]
        }),
{
}

/// A run that has just begun has done nothing yet.
pub proof fn lemma_a_new_run(id: String, job_id: String, node_id: String, now: u64, r: SyncJobRun)
    requires
        call_ensures(SyncJobRun::running, (id, job_id, node_id, now), r),
    ensures
        r@.id == id@ && r@.job_id == job_id@ && r@.node_id == node_id@,
        r@.started_at == now && r@.updated_at == now && r@.finished_at is None,
        r@.status == SyncRunStatus::Running,
        r@.phase == "Queued"@,
        r@.total_tags == 0 && r@.completed_tags == 0 && r@.current_tag is None,
        r@.recent_events.len() == 0 && r@.tags_synced.len() == 0 && r@.tags_failed.len() == 0,
{
}

// ── What is shown ────────────────────────────────────────────────────────

/// Of the credentials of a rule and a cache, and of their proxies, it is shown whether they
/// are set to something; the rest is shown as it is.
pub proof fn lemma_what_is_shown(
    rule: MirrorRuleView,
    cache: ProxyCacheView,
    proxy: OutboundProxyView,
)
    ensures
        public_rule(rule).username_configured <==> (rule.username matches Some(u) && u.len() > 0),
        public_rule(rule).password_configured <==> (rule.password matches Some(p) && p.len() > 0),
        public_rule(rule).outbound_proxy == public_proxy(rule.outbound_proxy),
        public_rule(rule).id == rule.id,
        public_rule(rule).local_prefix == rule.local_prefix,
        public_rule(rule).upstream_registry == rule.upstream_registry,
        public_rule(rule).upstream_prefix == rule.upstream_prefix,
        public_rule(rule).direction == rule.direction,
        public_rule(rule).schedule == rule.schedule,
        public_rule(rule).strategy == rule.strategy,
        public_rule(rule).plain_http == rule.plain_http,
        public_rule(rule).insecure_tls == rule.insecure_tls,
        public_rule(rule).created_at == rule.created_at,
        public_cache(cache).username_configured <==> (cache.username matches Some(u) && u.len()
            > 0),
        public_cache(cache).password_configured <==> (cache.password matches Some(p) && p.len()
            > 0),
        public_cache(cache).outbound_proxy == public_proxy(cache.outbound_proxy),
        public_cache(cache).id == cache.id,
        public_cache(cache).local_prefix == cache.local_prefix,
        public_cache(cache).upstream_registry == cache.upstream_registry,
        public_cache(cache).upstream_prefix == cache.upstream_prefix,
        public_cache(cache).warm_filters == cache.warm_filters,
        public_cache(cache).warm_schedule == cache.warm_schedule,
        public_cache(cache).plain_http == cache.plain_http,
        public_cache(cache).insecure_tls == cache.insecure_tls,
        public_cache(cache).created_at == cache.created_at,
        public_proxy(proxy).username_configured <==> (proxy.username matches Some(u) && u.len()
            > 0),
        public_proxy(proxy).password_configured <==> (proxy.password matches Some(p) && p.len()
            > 0),
        public_proxy(proxy).protocol == proxy.protocol && public_proxy(proxy).url == proxy.url,
{
}

// ── Entries ──────────────────────────────────────────────────────────────

/// The entry of a manifest that arrives names the bytes it came as, was made and changed
/// when it arrived, and keeps the digests it refers to as they were given.
pub proof fn lemma_entry_of_a_manifest(
    doc: &Json,
    content_type: String,
    body: Vec<u8>,
    blobs: Vec<Digest>,
    now: u64,
    r: ManifestEntry,
    bytes: &[u8],
    digest: Digest,
)
    requires
        call_ensures(
            ManifestEntry::from_parsed_json_at,
            (doc, content_type, body, blobs, now),
            r,
        ),
        call_ensures(Digest::sha256, (bytes,), digest),
        bytes@ == body@,
    ensures
        r@.body == body@,
        r@.content_type == content_type@,
        r@.referenced_blobs == blobs.deep_view(),
        r@.created_at == now && r@.last_modified == now,
        r@.manifest_size_bytes == body@.len(),
        r@.annotations == doc@.get("annotations"@),
        r@.config_summary == doc@.get("config"@),
        r@.digest == digest@,
{
    assert(body.len() == body@.len());
}

} // verus!
