//! Whether the registry is ready, and what it tells of itself.
use crate::raft::membership::{ClusterStatus, ClusterStatusView, NodeState};
use crate::text::{chars_of, concat2, concat3, decimal, decimal_text, push_char};
use vstd::prelude::*;

verus! {

// ── Readiness ────────────────────────────────────────────────────────────

/// Whether the registry can serve requests: the blob store answers and the
/// cluster has a leader.
pub open spec fn readiness(
    blob_error: Option<Seq<char>>,
    status: Option<ClusterStatusView>,
) -> (u16, Seq<char>) {
    match blob_error {
        Some(e) => (503, "s3 unavailable: "@ + e),
        None => match status {
            None => (503, "raft unavailable"@),
            Some(s) => if s.leader_id is None {
                (503, "raft has no leader"@)
            } else {
                (200, "ready"@)
            },
        },
    }
}

/// Whether the registry can serve requests.
pub fn readyz(blob_error: Option<&str>, status: Option<&ClusterStatus>) -> (r: (u16, String))
    ensures
        (r.0, r.1@) == readiness(
            match blob_error {
                Some(e) => Some(e@),
                None => None,
            },
            match status {
                Some(s) => Some(s@),
                None => None,
            },
        ),
{
    match blob_error {
        Some(e) => return (503, concat2("s3 unavailable: ", e)),
        None => {},
    }
    match status {
        None => (503, "raft unavailable".to_string()),
        Some(s) => if s.leader_id.is_none() {
            (503, "raft has no leader".to_string())
        } else {
            (200, "ready".to_string())
        },
    }
}

// ── Voters ───────────────────────────────────────────────────────────────

/// How many voters make a quorum.
pub open spec fn quorum_of(status: ClusterStatusView) -> nat {
    status.voters.len() / 2 + 1
}

/// Two quorums always share a voter.
pub proof fn lemma_quorums_overlap(status: ClusterStatusView)
    ensures
        2 * quorum_of(status) > status.voters.len(),
{
}

/// The log position that a node has confirmed, where its progress is known.
pub open spec fn confirmed_by(replication: Map<u64, Option<u64>>, id: u64) -> Option<Option<u64>> {
    if replication.contains_key(id) {
        Some(replication[id])
    } else {
        None
    }
}

/// The log position that a node has confirmed, where its progress is known.
pub(crate) fn find_confirmed(status: &ClusterStatus, id: u64) -> (r: Option<Option<u64>>)
    ensures
        r == confirmed_by(status@.replication, id),
{
    broadcast use vstd::std_specs::btree::group_btree_axioms;

    match status.replication.get(&id) {
        Some(matching) => Some(*matching),
        None => None,
    }
}

/// Whether a voter is up to date: it leads, or it has confirmed what was applied
/// last.
pub open spec fn is_healthy(status: ClusterStatusView, id: u64) -> bool {
    status.leader_id == Some(id) || confirmed_by(status.replication, id) == Some(
        status.last_applied_log,
    )
}

/// How many of the first voters are up to date.
pub open spec fn healthy_among(status: ClusterStatusView, n: int) -> nat
    decreases n,
{
    if n <= 0 {
        0
    } else {
        healthy_among(status, n - 1) + if is_healthy(status, status.voters[n - 1].id) {
            1nat
        } else {
            0nat
        }
    }
}

/// Whether a voter is up to date.
fn voter_is_healthy(status: &ClusterStatus, id: u64) -> (r: bool)
    ensures
        r == is_healthy(status@, id),
{
    match status.leader_id {
        Some(leader) => if leader == id {
            return true;
        },
        None => {},
    }
    match (find_confirmed(status, id), status.last_applied_log) {
        (Some(Some(a)), Some(b)) => a == b,
        (Some(None), None) => true,
        _ => false,
    }
}

/// How many voters are up to date.
pub fn healthy_voters(status: &ClusterStatus) -> (r: usize)
    ensures
        r == healthy_among(status@, status@.voters.len() as int),
        r <= status@.voters.len(),
{
    let mut count: usize = 0;
    let mut i: usize = 0;
    while i < status.voters.len()
        invariant
            i <= status.voters@.len(),
            count <= i,
            count == healthy_among(status@, i as int),
        decreases status.voters@.len() - i,
    {
        assert(status@.voters[i as int] == status.voters@[i as int]@);
        if voter_is_healthy(status, status.voters[i].id) {
            count = count + 1;
        }
        i = i + 1;
    }
    count
}

// ── Metrics ──────────────────────────────────────────────────────────────

/// How the garbage collection went.
#[derive(Debug, Clone, Copy, PartialEq, Eq, Structural)]
pub struct GcMetrics {
    pub last_run_at: u64,
    pub deleted: u64,
    pub delete_errors: u64,
}

/// How the keys of the identity provider stand.
#[derive(Debug, PartialEq, Eq)]
pub struct JwksMetrics {
    pub key_count: u64,
    pub cache_age_seconds: u64,
    pub stale_mode: bool,
    pub refresh_failures: u64,
    pub endpoint: Option<String>,
}

/// What a `JwksMetrics` holds.
#[verifier::ext_equal]
pub struct JwksMetricsView {
    pub key_count: u64,
    pub cache_age_seconds: u64,
    pub stale_mode: bool,
    pub refresh_failures: u64,
    pub endpoint: Option<Seq<char>>,
}

impl View for JwksMetrics {
    type V = JwksMetricsView;

    open spec fn view(&self) -> JwksMetricsView {
        JwksMetricsView {
            key_count: self.key_count,
            cache_age_seconds: self.cache_age_seconds,
            stale_mode: self.stale_mode,
            refresh_failures: self.refresh_failures,
            endpoint: self.endpoint.deep_view(),
        }
    }
}

/// A metric in the text format of Prometheus.
pub open spec fn metric(
    name: Seq<char>,
    help: Seq<char>,
    kind: Seq<char>,
    value: Seq<char>,
) -> Seq<char> {
    "# HELP "@ + name + " "@ + help + "\n# TYPE "@ + name + " "@ + kind + "\n"@ + name + value
        + "\n"@
}

/// A value of a metric.
pub open spec fn metric_value(n: nat) -> Seq<char> {
    " "@ + decimal_text(n)
}

/// A flag as a number.
pub open spec fn flag(b: bool) -> nat {
    if b {
        1
    } else {
        0
    }
}

/// A metric in the text format of Prometheus.
fn metric_text(name: &str, help: &str, kind: &str, value: &str) -> (r: String)
    ensures
        r@ == metric(name@, help@, kind@, value@),
{
    let mut r = concat3("# HELP ", name, " ");
    r = concat3(&r, help, "\n# TYPE ");
    r = concat3(&r, name, " ");
    r = concat3(&r, kind, "\n");
    concat3(&concat2(&r, name), value, "\n")
}

/// A metric that is a number.
fn number_metric(name: &str, help: &str, kind: &str, n: u64) -> (r: String)
    ensures
        r@ == metric(name@, help@, kind@, metric_value(n as nat)),
{
    metric_text(name, help, kind, &concat2(" ", &decimal(n)))
}

/// The metrics of the cluster.
pub open spec fn raft_metrics(status: ClusterStatusView) -> Seq<char> {
    metric(
        "layerhouse_raft_leader"@,
        "1 if this node is the Raft leader."@,
        "gauge"@,
        metric_value(flag(status.state is Leader)),
    ) + metric(
        "layerhouse_raft_quorum"@,
        "Required healthy voters for quorum."@,
        "gauge"@,
        metric_value(quorum_of(status)),
    ) + metric(
        "layerhouse_raft_healthy_voters"@,
        "Voters caught up with the leader."@,
        "gauge"@,
        metric_value(healthy_among(status, status.voters.len() as int)),
    )
}

/// The metrics of the garbage collection.
pub open spec fn gc_metrics(gc: GcMetrics) -> Seq<char> {
    metric(
        "layerhouse_gc_last_run_timestamp_seconds"@,
        "Last GC sweep start time."@,
        "gauge"@,
        metric_value(gc.last_run_at as nat),
    ) + metric(
        "layerhouse_gc_last_deleted_blobs"@,
        "Blobs deleted by the last GC sweep."@,
        "gauge"@,
        metric_value(gc.deleted as nat),
    ) + metric(
        "layerhouse_gc_last_delete_errors"@,
        "Blob delete errors from the last GC sweep."@,
        "gauge"@,
        metric_value(gc.delete_errors as nat),
    )
}

/// A text with a backslash before each backslash and double quote.
pub open spec fn escaped_label(s: Seq<char>) -> Seq<char>
    decreases s.len(),
{
    if s.len() == 0 {
        Seq::empty()
    } else {
        let front = escaped_label(s.drop_last());
        if s.last() == '\\' || s.last() == '"' {
            front.push('\\').push(s.last())
        } else {
            front.push(s.last())
        }
    }
}

/// A text with a backslash before each backslash and double quote.
fn escape_label(s: &str) -> (r: String)
    ensures
        r@ == escaped_label(s@),
{
    let chars = chars_of(s);
    let mut r = String::new();
    let mut i: usize = 0;
    assert(r@ =~= escaped_label(s@.take(0)));
    while i < chars.len()
        invariant
            chars@ == s@,
            i <= chars@.len(),
            r@ == escaped_label(s@.take(i as int)),
        decreases chars@.len() - i,
    {
        assert(s@.take(i + 1).drop_last() =~= s@.take(i as int));
        let c: char = chars[i];
        if c == '\\' || c == '"' {
            push_char(&mut r, '\\');
        }
        push_char(&mut r, c);
        i = i + 1;
    }
    assert(s@.take(s@.len() as int) =~= s@);
    r
}

/// The metrics of the keys of the identity provider.
pub open spec fn jwks_metrics(m: JwksMetricsView) -> Seq<char> {
    let numbers = metric(
        "layerhouse_auth_jwks_keys"@,
        "Cached OIDC JWKS verification keys."@,
        "gauge"@,
        metric_value(m.key_count as nat),
    ) + metric(
        "layerhouse_auth_jwks_cache_age_seconds"@,
        "Age of the cached JWKS material."@,
        "gauge"@,
        metric_value(m.cache_age_seconds as nat),
    ) + metric(
        "layerhouse_auth_jwks_stale_cache"@,
        "1 when serving from S3 last-good JWKS cache."@,
        "gauge"@,
        metric_value(flag(m.stale_mode)),
    ) + metric(
        "layerhouse_auth_jwks_refresh_failures_total"@,
        "JWKS refresh failure count."@,
        "counter"@,
        metric_value(m.refresh_failures as nat),
    );
    match m.endpoint {
        Some(endpoint) => numbers + metric(
            "layerhouse_auth_jwks_endpoint_info"@,
            "Active JWKS source endpoint."@,
            "gauge"@,
            "{endpoint=\""@ + escaped_label(endpoint) + "\"} 1"@,
        ),
        None => numbers,
    }
}

/// All metrics of the registry.
pub open spec fn all_metrics(
    status: Option<ClusterStatusView>,
    gc: GcMetrics,
    jwks: Option<JwksMetricsView>,
) -> Seq<char> {
    let up = metric(
        "layerhouse_up"@,
        "Registry process health."@,
        "gauge"@,
        metric_value(1),
    );
    let with_raft = match status {
        Some(s) => up + raft_metrics(s),
        None => up,
    };
    let with_gc = with_raft + gc_metrics(gc);
    match jwks {
        Some(m) => with_gc + jwks_metrics(m),
        None => with_gc,
    }
}

/// The metrics of the cluster.
fn raft_metrics_text(status: &ClusterStatus) -> (r: String)
    ensures
        r@ == raft_metrics(status@),
{
    let leads: u64 = match status.state {
        NodeState::Leader => 1,
        _ => 0,
    };
    let quorum: usize = status.voters.len() / 2 + 1;
    concat3(
        &number_metric("layerhouse_raft_leader", "1 if this node is the Raft leader.", "gauge", leads),
        &number_metric(
            "layerhouse_raft_quorum",
            "Required healthy voters for quorum.",
            "gauge",
            quorum as u64,
        ),
        &number_metric(
            "layerhouse_raft_healthy_voters",
            "Voters caught up with the leader.",
            "gauge",
            healthy_voters(status) as u64,
        ),
    )
}

/// The metrics of the garbage collection.
fn gc_metrics_text(gc: &GcMetrics) -> (r: String)
    ensures
        r@ == gc_metrics(*gc),
{
    concat3(
        &number_metric(
            "layerhouse_gc_last_run_timestamp_seconds",
            "Last GC sweep start time.",
            "gauge",
            gc.last_run_at,
        ),
        &number_metric(
            "layerhouse_gc_last_deleted_blobs",
            "Blobs deleted by the last GC sweep.",
            "gauge",
            gc.deleted,
        ),
        &number_metric(
            "layerhouse_gc_last_delete_errors",
            "Blob delete errors from the last GC sweep.",
            "gauge",
            gc.delete_errors,
        ),
    )
}

/// The metrics of the keys of the identity provider.
fn jwks_metrics_text(m: &JwksMetrics) -> (r: String)
    ensures
        r@ == jwks_metrics(m@),
{
    let stale: u64 = if m.stale_mode {
        1
    } else {
        0
    };
    let keys = concat2(
        &number_metric(
            "layerhouse_auth_jwks_keys",
            "Cached OIDC JWKS verification keys.",
            "gauge",
            m.key_count,
        ),
        &number_metric(
            "layerhouse_auth_jwks_cache_age_seconds",
            "Age of the cached JWKS material.",
            "gauge",
            m.cache_age_seconds,
        ),
    );
    let numbers = concat3(
        &keys,
        &number_metric(
            "layerhouse_auth_jwks_stale_cache",
            "1 when serving from S3 last-good JWKS cache.",
            "gauge",
            stale,
        ),
        &number_metric(
            "layerhouse_auth_jwks_refresh_failures_total",
            "JWKS refresh failure count.",
            "counter",
            m.refresh_failures,
        ),
    );
    match &m.endpoint {
        Some(endpoint) => concat2(
            &numbers,
            &metric_text(
                "layerhouse_auth_jwks_endpoint_info",
                "Active JWKS source endpoint.",
                "gauge",
                &concat3("{endpoint=\"", &escape_label(endpoint), "\"} 1"),
            ),
        ),
        None => numbers,
    }
}

/// All metrics of the registry, in the text format of Prometheus.
pub fn metrics(status: Option<&ClusterStatus>, gc: &GcMetrics, jwks: Option<&JwksMetrics>) -> (r:
    String)
    ensures
        r@ == all_metrics(
            match status {
                Some(s) => Some(s@),
                None => None,
            },
            *gc,
            match jwks {
                Some(m) => Some(m@),
                None => None,
            },
        ),
{
    let mut body = number_metric("layerhouse_up", "Registry process health.", "gauge", 1);
    match status {
        Some(s) => {
            body = concat2(&body, &raft_metrics_text(s));
        },
        None => {},
    }
    body = concat2(&body, &gc_metrics_text(gc));
    match jwks {
        Some(m) => {
            body = concat2(&body, &jwks_metrics_text(m));
        },
        None => {},
    }
    body
}

} // verus!
