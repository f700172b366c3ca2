//! Sync jobs and the progress of their runs.
use crate::store::metadata::types::{
    MirrorRule, MirrorRuleView, MirrorStrategy, MirrorStrategyView, ProxyCache, ProxyCacheView,
    SyncJob, SyncJobKind, SyncJobRun, SyncJobRunView, SyncJobStatus, SyncJobView, SyncRunEvent,
    SyncRunEventKind, SyncRunEventView, SyncRunStatus, WarmFilter, WarmFilterView,
};
use crate::text::{concat2, concat3, decimal, decimal_text, str_equal};
use vstd::prelude::*;

verus! {

/// How many of the latest events of a run are kept.
pub const MAX_SYNC_RUN_EVENTS: usize = 50;

/// How often a warm image is refreshed where nothing else is said, in seconds.
pub fn default_warm_interval() -> (r: u64)
    ensures
        r == 3600,
{
    3600
}

/// The phase of a run that has not begun its work.
pub fn default_sync_run_phase() -> (r: String)
    ensures
        r@ == "Queued"@,
{
    "Queued".to_owned()
}

// ── Runs ─────────────────────────────────────────────────────────────────

/// The latest events, with one more.
pub open spec fn with_event(
    events: Seq<SyncRunEventView>,
    event: SyncRunEventView,
) -> Seq<SyncRunEventView> {
    let all = events.push(event);
    if all.len() > MAX_SYNC_RUN_EVENTS {
        all.skip(all.len() - MAX_SYNC_RUN_EVENTS)
    } else {
        all
    }
}

pub open spec fn smaller(a: int, b: int) -> int {
    if a <= b {
        a
    } else {
        b
    }
}

/// The phase that a status ends in.
pub open spec fn final_phase(status: SyncRunStatus) -> Seq<char> {
    match status {
        SyncRunStatus::Running => "Running"@,
        SyncRunStatus::Succeeded => "Succeeded"@,
        SyncRunStatus::PartialFailure => "Partial failure"@,
        SyncRunStatus::Failed => "Failed"@,
    }
}

/// The kind of event that a status ends with.
pub open spec fn final_event_kind(status: SyncRunStatus) -> SyncRunEventKind {
    match status {
        SyncRunStatus::Succeeded => SyncRunEventKind::Success,
        SyncRunStatus::PartialFailure => SyncRunEventKind::Warning,
        SyncRunStatus::Failed => SyncRunEventKind::Error,
        SyncRunStatus::Running => SyncRunEventKind::Info,
    }
}

impl SyncJobRunView {
    /// A run that has just begun.
    pub open spec fn started(
        id: Seq<char>,
        job_id: Seq<char>,
        node_id: Seq<char>,
        started_at: u64,
    ) -> Self {
        SyncJobRunView {
            id,
            job_id,
            node_id,
            started_at,
            finished_at: None,
            status: SyncRunStatus::Running,
            phase: "Queued"@,
            total_tags: 0,
            completed_tags: 0,
            current_tag: None,
            updated_at: started_at,
            recent_events: Seq::empty(),
            tags_synced: Seq::empty(),
            tags_failed: Seq::empty(),
        }
    }

    /// The run with one more event.
    pub open spec fn noted(
        self,
        kind: SyncRunEventKind,
        tag: Option<Seq<char>>,
        message: Seq<char>,
        at: u64,
    ) -> Self {
        SyncJobRunView {
            recent_events: with_event(
                self.recent_events,
                SyncRunEventView { at, kind, tag, message },
            ),
            ..self
        }
    }

    pub open spec fn resolution_started(self, now: u64) -> Self {
        SyncJobRunView {
            phase: "Resolving tags"@,
            current_tag: None,
            updated_at: now,
            ..self
        }.noted(SyncRunEventKind::Info, None, "Resolving job target"@, now)
    }

    pub open spec fn resolution_finished(self, total_tags: usize, now: u64) -> Self {
        SyncJobRunView {
            total_tags,
            completed_tags: 0,
            current_tag: None,
            phase: if total_tags == 0 {
                "No tags resolved"@
            } else {
                "Syncing tags"@
            },
            updated_at: now,
            ..self
        }.noted(
            SyncRunEventKind::Info,
            None,
            "Resolved "@ + decimal_text(total_tags as nat) + " tags"@,
            now,
        )
    }

    pub open spec fn resolution_failed(self, message: Seq<char>, now: u64) -> Self {
        SyncJobRunView {
            total_tags: 0,
            completed_tags: 0,
            current_tag: None,
            phase: "Resolve failed"@,
            updated_at: now,
            ..self
        }.noted(SyncRunEventKind::Error, None, message, now)
    }

    pub open spec fn tag_started(self, tag: Seq<char>, phase: Seq<char>, now: u64) -> Self {
        SyncJobRunView { phase, current_tag: Some(tag), updated_at: now, ..self }.noted(
            SyncRunEventKind::Info,
            Some(tag),
            "Started tag sync"@,
            now,
        )
    }

    pub open spec fn tag_finished(
        self,
        tag: Seq<char>,
        kind: SyncRunEventKind,
        message: Seq<char>,
        completed_tags: usize,
        now: u64,
    ) -> Self {
        SyncJobRunView {
            completed_tags: smaller(completed_tags as int, self.total_tags as int) as usize,
            current_tag: Some(tag),
            updated_at: now,
            ..self
        }.noted(kind, Some(tag), message, now)
    }

    pub open spec fn finished(
        self,
        status: SyncRunStatus,
        tags_synced: Seq<Seq<char>>,
        tags_failed: Seq<(Seq<char>, Seq<char>)>,
        now: u64,
    ) -> Self {
        SyncJobRunView {
            finished_at: Some(now),
            status,
            phase: final_phase(status),
            current_tag: None,
            updated_at: now,
            completed_tags: smaller(
                (tags_synced.len() + tags_failed.len()) as int,
                self.total_tags as int,
            ) as usize,
            tags_synced,
            tags_failed,
            ..self
        }.noted(final_event_kind(status), None, final_phase(status), now)
    }

    /// What every run keeps: no more tags done than there are, and a bounded
    /// list of events.
    pub open spec fn within_bounds(self) -> bool {
        self.completed_tags <= self.total_tags && self.recent_events.len() <= MAX_SYNC_RUN_EVENTS
    }
}

/// Every step of a run keeps it within its bounds.
pub proof fn lemma_run_stays_within_bounds(
    run: SyncJobRunView,
    tag: Seq<char>,
    phase: Seq<char>,
    kind: SyncRunEventKind,
    message: Seq<char>,
    n: usize,
    status: SyncRunStatus,
    synced: Seq<Seq<char>>,
    failed: Seq<(Seq<char>, Seq<char>)>,
    now: u64,
)
    requires
        run.within_bounds(),
    ensures
        run.resolution_started(now).within_bounds(),
        run.resolution_finished(n, now).within_bounds(),
        run.resolution_failed(message, now).within_bounds(),
        run.tag_started(tag, phase, now).within_bounds(),
        run.tag_finished(tag, kind, message, n, now).within_bounds(),
        run.finished(status, synced, failed, now).within_bounds(),
{
}

/// The latest event of a run is the last of its list, whatever was dropped.
pub proof fn lemma_latest_event_is_kept(events: Seq<SyncRunEventView>, event: SyncRunEventView)
    ensures
        with_event(events, event).len() > 0,
        with_event(events, event).last() == event,
        with_event(events, event).len() <= MAX_SYNC_RUN_EVENTS,
{
}

impl SyncJobRun {
    /// A run that has just begun.
    pub fn running(id: String, job_id: String, node_id: String, started_at: u64) -> (r: Self)
        ensures
            r@ == SyncJobRunView::started(id@, job_id@, node_id@, started_at),
            r@.within_bounds(),
    {
        let r = SyncJobRun {
            id,
            job_id,
            node_id,
            started_at,
            finished_at: None,
            status: SyncRunStatus::Running,
            phase: default_sync_run_phase(),
            total_tags: 0,
            completed_tags: 0,
            current_tag: None,
            updated_at: started_at,
            recent_events: Vec::new(),
            tags_synced: Vec::new(),
            tags_failed: Vec::new(),
        };
        assert(r@ =~= SyncJobRunView::started(id@, job_id@, node_id@, started_at));
        r
    }

    /// The tags of the job are being resolved.
    pub fn mark_resolution_started(&mut self, now: u64)
        ensures
            final(self)@ == old(self)@.resolution_started(now),
    {
        self.phase = "Resolving tags".to_owned();
        self.current_tag = None;
        self.updated_at = now;
        self.push_event(SyncRunEventKind::Info, None, "Resolving job target", now);
    }

    /// The tags of the job are known.
    pub fn mark_resolution_finished(&mut self, total_tags: usize, now: u64)
        ensures
            final(self)@ == old(self)@.resolution_finished(total_tags, now),
    {
        self.total_tags = total_tags;
        self.completed_tags = 0;
        self.current_tag = None;
        self.phase = if total_tags == 0 {
            "No tags resolved".to_owned()
        } else {
            "Syncing tags".to_owned()
        };
        self.updated_at = now;
        let message = concat3("Resolved ", decimal(total_tags as u64).as_str(), " tags");
        self.push_event(SyncRunEventKind::Info, None, message.as_str(), now);
    }

    /// The tags of the job could not be resolved.
    pub fn mark_resolution_failed(&mut self, message: &str, now: u64)
        ensures
            final(self)@ == old(self)@.resolution_failed(message@, now),
    {
        self.total_tags = 0;
        self.completed_tags = 0;
        self.current_tag = None;
        self.phase = "Resolve failed".to_owned();
        self.updated_at = now;
        self.push_event(SyncRunEventKind::Error, None, message, now);
    }

    /// Work on a tag has begun.
    pub fn mark_tag_started(&mut self, tag: &str, phase: &str, now: u64)
        ensures
            final(self)@ == old(self)@.tag_started(tag@, phase@, now),
    {
        self.phase = phase.to_owned();
        self.current_tag = Some(tag.to_owned());
        self.updated_at = now;
        self.push_event(SyncRunEventKind::Info, Some(tag), "Started tag sync", now);
    }

    /// Work on a tag has ended.
    pub fn mark_tag_finished(
        &mut self,
        tag: &str,
        kind: SyncRunEventKind,
        message: &str,
        completed_tags: usize,
        now: u64,
    )
        ensures
            final(self)@ == old(self)@.tag_finished(tag@, kind, message@, completed_tags, now),
    {
        self.completed_tags = if completed_tags <= self.total_tags {
            completed_tags
        } else {
            self.total_tags
        };
        self.current_tag = Some(tag.to_owned());
        self.updated_at = now;
        self.push_event(kind, Some(tag), message, now);
    }

    /// The run is over.
    pub fn mark_finished(
        &mut self,
        status: SyncRunStatus,
        tags_synced: Vec<String>,
        tags_failed: Vec<(String, String)>,
        now: u64,
    )
        ensures
            final(self)@ == old(self)@.finished(
                status,
                tags_synced.deep_view(),
                tags_failed.deep_view(),
                now,
            ),
    {
        self.finished_at = Some(now);
        self.status = status;
        self.phase = match status {
            SyncRunStatus::Running => "Running".to_owned(),
            SyncRunStatus::Succeeded => "Succeeded".to_owned(),
            SyncRunStatus::PartialFailure => "Partial failure".to_owned(),
            SyncRunStatus::Failed => "Failed".to_owned(),
        };
        self.current_tag = None;
        self.updated_at = now;
        let done: usize = tags_synced.len().saturating_add(tags_failed.len());
        self.completed_tags = if done <= self.total_tags {
            done
        } else {
            self.total_tags
        };
        self.tags_synced = tags_synced;
        self.tags_failed = tags_failed;
        let kind = match status {
            SyncRunStatus::Succeeded => SyncRunEventKind::Success,
            SyncRunStatus::PartialFailure => SyncRunEventKind::Warning,
            SyncRunStatus::Failed => SyncRunEventKind::Error,
            SyncRunStatus::Running => SyncRunEventKind::Info,
        };
        let message = self.phase.clone();
        self.push_event(kind, None, message.as_str(), now);
    }

    /// Adds an event and drops the oldest beyond the bound.
    fn push_event(&mut self, kind: SyncRunEventKind, tag: Option<&str>, message: &str, at: u64)
        ensures
            final(self)@ == old(self)@.noted(kind, tag.deep_view(), message@, at),
    {
        let ghost before = self.recent_events.deep_view();
        let tag = match tag {
            Some(tag) => Some(tag.to_owned()),
            None => None,
        };
        let event = SyncRunEvent { at, kind, tag, message: message.to_owned() };
        self.recent_events.push(event);
        assert(self.recent_events.deep_view() =~= before.push(event@));
        if self.recent_events.len() > MAX_SYNC_RUN_EVENTS {
            let excess: usize = self.recent_events.len() - MAX_SYNC_RUN_EVENTS;
            let latest = self.recent_events.split_off(excess);
            assert(latest.deep_view() =~= before.push(event@).skip(excess as int));
            self.recent_events = latest;
        }
    }
}

// ── Jobs ─────────────────────────────────────────────────────────────────

/// How the tags of a mirror rule are named in a job.
pub open spec fn strategy_labels(strategy: MirrorStrategyView) -> Seq<Seq<char>> {
    match strategy {
        MirrorStrategyView::All => seq!["all"@],
        MirrorStrategyView::Latest { count } => seq!["latest "@ + decimal_text(count as nat)],
        MirrorStrategyView::Pattern { pattern } => seq![pattern],
    }
}

/// How one warm filter is named in a job; the filter that warms nothing is not.
pub open spec fn filter_label(filter: WarmFilterView) -> Seq<Seq<char>> {
    match filter {
        WarmFilterView::Never => Seq::empty(),
        WarmFilterView::All => seq!["all"@],
        WarmFilterView::Latest { count, .. } => seq!["latest "@ + decimal_text(count as nat)],
        WarmFilterView::Pattern { pattern } => seq![pattern],
    }
}

/// How warm filters are named in a job.
pub open spec fn filter_labels(filters: Seq<WarmFilterView>) -> Seq<Seq<char>>
    decreases filters.len(),
{
    if filters.len() == 0 {
        Seq::empty()
    } else {
        filter_labels(filters.drop_last()) + filter_label(filters.last())
    }
}

/// A job that waits for its next run.
pub open spec fn waiting_job(
    id: Seq<char>,
    kind: SyncJobKind,
    rule_id: Seq<char>,
    image: Seq<char>,
    tags: Seq<Seq<char>>,
    interval_secs: u64,
    now: u64,
) -> SyncJobView {
    SyncJobView {
        id,
        kind,
        rule_id: Some(rule_id),
        rule_name: Some(rule_id),
        image,
        tags,
        interval_secs,
        status: SyncJobStatus::Idle,
        claimed_by: None,
        claimed_at: None,
        last_run_at: None,
        next_run_at: now,
        last_error: None,
    }
}

/// The job that a mirror rule stands for.
pub open spec fn rule_job(
    rule: MirrorRuleView,
    id: Seq<char>,
    now: u64,
    interval_secs: u64,
) -> SyncJobView {
    waiting_job(
        id,
        SyncJobKind::Mirror,
        rule.id,
        rule.local_prefix,
        strategy_labels(rule.strategy),
        interval_secs,
        now,
    )
}

/// The job that warms a proxy cache once.
pub open spec fn warm_job(cache: ProxyCacheView, now: u64) -> SyncJobView {
    waiting_job(
        cache.id + "-warm-"@ + decimal_text(now as nat),
        SyncJobKind::ProxyCache,
        cache.id,
        cache.local_prefix,
        filter_labels(cache.warm_filters),
        0,
        now,
    )
}

/// Whether a job keeps its rule from being triggered: it runs, or it is a
/// one-shot job that is due.
pub open spec fn blocks_trigger(
    job: SyncJobView,
    kind: SyncJobKind,
    rule_id: Seq<char>,
    now: u64,
) -> bool {
    &&& job.kind == kind
    &&& job.rule_id == Some(rule_id)
    &&& job.status == SyncJobStatus::Running || (job.interval_secs == 0 && job.next_run_at <= now)
}

/// How the tags of a mirror rule are named in a job.
pub fn mirror_strategy_labels(strategy: &MirrorStrategy) -> (r: Vec<String>)
    ensures
        r.deep_view() == strategy_labels(strategy@),
{
    let label = match strategy {
        MirrorStrategy::All => "all".to_owned(),
        MirrorStrategy::Latest { count } => concat2("latest ", decimal(*count as u64).as_str()),
        MirrorStrategy::Pattern { pattern } => pattern.clone(),
    };
    let mut r: Vec<String> = Vec::new();
    r.push(label);
    assert(r.deep_view() =~= strategy_labels(strategy@));
    r
}

/// How warm filters are named in a job.
pub fn warm_filter_labels(filters: &Vec<WarmFilter>) -> (r: Vec<String>)
    ensures
        r.deep_view() == filter_labels(filters.deep_view()),
{
    let mut r: Vec<String> = Vec::new();
    let ghost all = filters.deep_view();
    let mut i: usize = 0;
    assert(r.deep_view() =~= Seq::<Seq<char>>::empty());
    while i < filters.len()
        invariant
            all == filters.deep_view(),
            i <= filters@.len(),
            r.deep_view() == filter_labels(all.take(i as int)),
        decreases filters@.len() - i,
    {
        let ghost before = r.deep_view();
        let filter = &filters[i];
        assert(all.take(i + 1).drop_last() =~= all.take(i as int));
        assert(all.take(i + 1).last() == filter@);
        let label = match filter {
            WarmFilter::Never => None,
            WarmFilter::All => Some("all".to_owned()),
            WarmFilter::Latest { count, .. } => {
                Some(concat2("latest ", decimal(*count as u64).as_str()))
            },
            WarmFilter::Pattern { pattern } => Some(pattern.clone()),
        };
        if let Some(label) = label {
            r.push(label);
            assert(r.deep_view() =~= before + seq![label@]);
        } else {
            assert(before + Seq::<Seq<char>>::empty() =~= before);
        }
        i = i + 1;
    }
    assert(all.take(all.len() as int) =~= all);
    r
}

/// The job that a mirror rule stands for.
pub fn mirror_rule_job(rule: &MirrorRule, id: String, now: u64, interval_secs: u64) -> (r: SyncJob)
    ensures
        r@ == rule_job(rule@, id@, now, interval_secs),
{
    SyncJob {
        id,
        kind: SyncJobKind::Mirror,
        rule_id: Some(rule.id.clone()),
        rule_name: Some(rule.id.clone()),
        image: rule.local_prefix.clone(),
        tags: mirror_strategy_labels(&rule.strategy),
        interval_secs,
        status: SyncJobStatus::Idle,
        claimed_by: None,
        claimed_at: None,
        last_run_at: None,
        next_run_at: now,
        last_error: None,
    }
}

/// The job that warms a proxy cache once.
pub fn proxy_cache_warm_job(cache: &ProxyCache, now: u64) -> (r: SyncJob)
    ensures
        r@ == warm_job(cache@, now),
{
    SyncJob {
        id: concat3(cache.id.as_str(), "-warm-", decimal(now).as_str()),
        kind: SyncJobKind::ProxyCache,
        rule_id: Some(cache.id.clone()),
        rule_name: Some(cache.id.clone()),
        image: cache.local_prefix.clone(),
        tags: warm_filter_labels(&cache.warm_filters),
        interval_secs: 0,
        status: SyncJobStatus::Idle,
        claimed_by: None,
        claimed_at: None,
        last_run_at: None,
        next_run_at: now,
        last_error: None,
    }
}

/// Whether a job keeps its rule from being triggered.
pub fn sync_job_blocks_trigger(job: &SyncJob, kind: SyncJobKind, rule_id: &str, now: u64) -> (r: bool)
    ensures
        r == blocks_trigger(job@, kind, rule_id@, now),
{
    let same_rule = match &job.rule_id {
        Some(id) => str_equal(id.as_str(), rule_id),
        None => false,
    };
    job.kind == kind && same_rule && (job.status == SyncJobStatus::Running || (job.interval_secs == 0
        && job.next_run_at <= now))
}

/// A job made by triggering a rule blocks another trigger of that rule until
/// it is claimed and finished.
pub proof fn lemma_triggered_job_blocks(
    rule: MirrorRuleView,
    cache: ProxyCacheView,
    id: Seq<char>,
    now: u64,
    later: u64,
)
    requires
        now <= later,
    ensures
        blocks_trigger(rule_job(rule, id, now, 0), SyncJobKind::Mirror, rule.id, later),
        blocks_trigger(warm_job(cache, now), SyncJobKind::ProxyCache, cache.id, later),
{
}

} // verus!
