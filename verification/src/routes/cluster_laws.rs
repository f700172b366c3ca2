//! What the registry tells of its cluster and of itself, told by what was reported.
use super::cluster_view::{dashboard_status_from_raw, status_source, DashboardClusterStatus};
use super::health::{
    escaped_label, gc_metrics, healthy_among, healthy_voters, is_healthy, jwks_metrics, metric,
    metric_value, metrics, raft_metrics, readyz, GcMetrics, JwksMetrics,
};
use crate::raft::membership::{ClusterStatus, ClusterStatusView, NodeInfoView, NodeState};
use crate::text::{contains_text, decimal_text, occurs_at};
use vstd::prelude::*;

verus! {

// ── Readiness ────────────────────────────────────────────────────────────

/// The registry is ready exactly where the blobs can be reached, the cluster answers and
/// it has a leader; else it says what is missing.
pub proof fn lemma_when_the_registry_is_ready(
    blob_error: Option<&str>,
    status: Option<&ClusterStatus>,
    r: (u16, String),
)
    requires
        call_ensures(readyz, (blob_error, status), r),
    ensures
        r.0 == 200 || r.0 == 503,
        r.0 == 200 <==> blob_error is None && (status matches Some(s) && s.leader_id is Some),
        r.0 == 200 ==> r.1@ == "ready"@,
        blob_error matches Some(e) ==> r.1@ == "s3 unavailable: "@ + e@,
        blob_error is None && status is None ==> r.1@ == "raft unavailable"@,
        blob_error is None && (status matches Some(s) && s.leader_id is None) ==> r.1@
            == "raft has no leader"@,
{
}

// ── Voters ───────────────────────────────────────────────────────────────

/// Whether a node is up to date: it leads, or its progress is known and is what was
/// applied last.
pub open spec fn keeps_up(status: ClusterStatus, id: u64) -> bool {
    status.leader_id == Some(id) || (status.replication@.dom().contains(id)
        && status.replication@[id] == status.last_applied_log)
}

proof fn lemma_healthy_are_places(status: ClusterStatusView, n: int)
    requires
        0 <= n <= status.voters.len(),
    ensures
        ({
            let up = Set::new(|i: int| 0 <= i < n && is_healthy(status, status.voters[i].id));
            up.finite() && up.len() == healthy_among(status, n)
        }),
    decreases n,
{
    let up = Set::new(|i: int| 0 <= i < n && is_healthy(status, status.voters[i].id));
    if n == 0 {
        assert(up =~= Set::empty());
    } else {
        lemma_healthy_are_places(status, n - 1);
        let before = Set::new(
            |i: int| 0 <= i < n - 1 && is_healthy(status, status.voters[i].id),
        );
        if is_healthy(status, status.voters[n - 1].id) {
            assert(up =~= before.insert(n - 1));
        } else {
            assert(up =~= before);
        }
    }
}

/// The voters that are counted as healthy are those that are up to date.
pub proof fn lemma_healthy_voters_keep_up(status: &ClusterStatus, r: usize)
    requires
        call_ensures(healthy_voters, (status,), r),
    ensures
        r == Set::new(
            |i: int| 0 <= i < status.voters@.len() && keeps_up(*status, status.voters@[i].id),
        ).len(),
{
    let n = status.voters@.len() as int;
    lemma_healthy_are_places(status@, n);
    let up = Set::new(
        |i: int| 0 <= i < n && is_healthy(status@, status@.voters[i].id),
    );
    assert forall|i: int| 0 <= i < n implies (#[trigger] status@.voters[i]).id
        == status.voters@[i].id by {
        assert(status.voters.deep_view()[i] == status.voters@[i]@);
    }
    assert(up =~= Set::new(
        |i: int| 0 <= i < status.voters@.len() && keeps_up(*status, status.voters@[i].id),
    ));
}

proof fn lemma_filter_counts(
    status: ClusterStatusView,
    nodes: Seq<NodeInfoView>,
    n: int,
)
    requires
        nodes == status.voters,
        0 <= n <= nodes.len(),
    ensures
        nodes.take(n).filter(|v: NodeInfoView| is_healthy(status, v.id)).len() == healthy_among(
            status,
            n,
        ),
    decreases n,
{
    reveal(Seq::filter);
    if n > 0 {
        lemma_filter_counts(status, nodes, n - 1);
        assert(nodes.take(n).drop_last() =~= nodes.take(n - 1));
        assert(nodes.take(n).last() == nodes[n - 1]);
    }
}

/// The dashboard shows every voter and learner once and in order. One voter leads where
/// there is a leader among them; a voter is healthy exactly where it is up to date, and
/// one that follows lags by what it has not confirmed. The quorum is the smallest number
/// that is more than half of the voters.
pub proof fn lemma_dashboard_shows_the_cluster(
    raw: &ClusterStatus,
    now: u64,
    r: DashboardClusterStatus,
    i: int,
)
    requires
        call_ensures(dashboard_status_from_raw, (raw, now), r),
    ensures
        r.leader_id == raw.leader_id,
        r.term == raw.term,
        r.updated_at == now,
        r.cluster_id@ == "layerhouse-"@ + decimal_text(raw.node_id as nat),
        2 * r.quorum > raw.voters@.len() >= 2 * (r.quorum - 1),
        r.voters@.len() == raw.voters@.len(),
        r.learners@.len() == raw.learners@.len(),
        r.healthy_voters == Set::new(
            |k: int| 0 <= k < raw.voters@.len() && keeps_up(*raw, raw.voters@[k].id),
        ).len(),
        0 <= i < raw.voters@.len() ==> {
            let node = raw.voters@[i];
            let shown = r.voters@[i];
            let leads = raw.leader_id == Some(node.id);
            let sent = if raw.replication@.dom().contains(node.id) {
                raw.replication@[node.id]
            } else {
                None
            };
            &&& shown.node_id == node.id && shown.address@ == node.addr@
            &&& shown.role@ == if leads {
                "leader"@
            } else {
                "voter"@
            }
            &&& shown.status@ == if keeps_up(*raw, node.id) {
                "healthy"@
            } else {
                "lagging"@
            }
            &&& leads ==> shown.commit_index == raw.last_applied_log && shown.replication_lag_ms
                == Some(0u64)
            &&& !leads && sent is None ==> shown.commit_index == raw.last_applied_log
                && shown.replication_lag_ms is None
            &&& !leads && sent is Some ==> shown.commit_index == sent && (
            raw.last_applied_log matches Some(last) ==> (shown.replication_lag_ms matches Some(lag)
                && (last >= sent->0 ==> lag == last - sent->0) && (last < sent->0 ==> lag == 0)))
        },
        0 <= i < raw.learners@.len() ==> {
            let node = raw.learners@[i];
            let shown = r.learners@[i];
            &&& shown.node_id == node.id && shown.address@ == node.addr@
            &&& shown.role@ == "learner"@ && shown.status@ == "healthy"@
            &&& shown.commit_index == raw.last_applied_log && shown.replication_lag_ms is None
        },
{
    let n = raw.voters@.len() as int;
    let nodes = raw@.voters;
    assert(r@.voters == r.voters.deep_view());
    assert(r@.learners == r.learners.deep_view());
    assert(nodes == raw.voters.deep_view());
    assert(r.voters.deep_view().len() == r.voters@.len());
    assert(r.learners.deep_view().len() == r.learners@.len());
    lemma_healthy_are_places(raw@, n);
    lemma_filter_counts(raw@, nodes, n);
    assert(nodes.take(n) =~= nodes);
    let healthy = nodes.filter(|v: NodeInfoView| is_healthy(raw@, v.id));
    nodes.lemma_filter_len(|v: NodeInfoView| is_healthy(raw@, v.id));
    let up = Set::new(|k: int| 0 <= k < n && is_healthy(raw@, raw@.voters[k].id));
    assert forall|k: int| 0 <= k < n implies (#[trigger] raw@.voters[k]).id
        == raw.voters@[k].id by {
        assert(raw.voters.deep_view()[k] == raw.voters@[k]@);
    }
    assert(up =~= Set::new(
        |k: int| 0 <= k < raw.voters@.len() && keeps_up(*raw, raw.voters@[k].id),
    ));
    assert(n <= usize::MAX) by {
        assert(raw.voters.len() == n);
    }
    if 0 <= i < n {
        assert(r.voters.deep_view()[i] == r.voters@[i]@);
        assert(raw.voters.deep_view()[i] == raw.voters@[i]@);
    }
    if 0 <= i < raw.learners@.len() {
        assert(r.learners.deep_view()[i] == r.learners@[i]@);
        assert(raw.learners.deep_view()[i] == raw.learners@[i]@);
    }
}

/// The state of the cluster is asked of the leader, by every node that does not lead
/// itself and knows where the leader is.
pub proof fn lemma_where_the_status_comes_from(local: &ClusterStatus, r: Option<&String>)
    requires
        call_ensures(status_source, (local,), r),
    ensures
        r is Some <==> local.state != NodeState::Leader && local.leader_addr is Some,
        r matches Some(addr) ==> addr@ == local.leader_addr->0@,
{
    assert(r.deep_view() is Some <==> r is Some);
    assert(local@.leader_addr is Some <==> local.leader_addr is Some);
}

// ── Metrics ──────────────────────────────────────────────────────────────

/// A text holds what a part of it holds.
proof fn lemma_contains_part(a: Seq<char>, b: Seq<char>, x: Seq<char>)
    ensures
        contains_text(a, x) ==> contains_text(a + b, x),
        contains_text(b, x) ==> contains_text(a + b, x),
{
    if contains_text(a, x) {
        let i = choose|i: int| occurs_at(a, x, i);
        assert((a + b).subrange(i, i + x.len()) =~= a.subrange(i, i + x.len()));
        assert(occurs_at(a + b, x, i));
    }
    if contains_text(b, x) {
        let i = choose|i: int| occurs_at(b, x, i);
        assert((a + b).subrange(a.len() + i, a.len() + i + x.len()) =~= b.subrange(
            i,
            i + x.len(),
        ));
        assert(occurs_at(a + b, x, a.len() + i));
    }
}

/// The line of a metric that tells a number.
pub open spec fn metric_line(name: Seq<char>, n: nat) -> Seq<char> {
    name + " "@ + decimal_text(n) + "\n"@
}

proof fn lemma_metric_has_its_line(name: Seq<char>, help: Seq<char>, kind: Seq<char>, n: nat)
    ensures
        contains_text(metric(name, help, kind, metric_value(n)), metric_line(name, n)),
{
    let head = "# HELP "@ + name + " "@ + help + "\n# TYPE "@ + name + " "@ + kind + "\n"@;
    let line = metric_line(name, n);
    assert(metric(name, help, kind, metric_value(n)) =~= head + line);
    assert(line.subrange(0, line.len() as int) =~= line);
    assert(occurs_at(line, line, 0));
    lemma_contains_part(head, line, line);
}

/// The metrics tell that the registry is up, whether the node leads, how many voters make
/// a quorum and how many are healthy, and how the last garbage collection went.
pub proof fn lemma_metrics_tell_the_numbers(
    status: Option<&ClusterStatus>,
    gc: &GcMetrics,
    jwks: Option<&JwksMetrics>,
    r: String,
    healthy: usize,
)
    requires
        call_ensures(metrics, (status, gc, jwks), r),
        status matches Some(s) ==> call_ensures(healthy_voters, (s,), healthy),
    ensures
        contains_text(r@, metric_line("layerhouse_up"@, 1)),
        contains_text(
            r@,
            metric_line("layerhouse_gc_last_run_timestamp_seconds"@, gc.last_run_at as nat),
        ),
        contains_text(r@, metric_line("layerhouse_gc_last_deleted_blobs"@, gc.deleted as nat)),
        contains_text(
            r@,
            metric_line("layerhouse_gc_last_delete_errors"@, gc.delete_errors as nat),
        ),
        status matches Some(s) ==> {
            &&& s.state == NodeState::Leader ==> contains_text(
                r@,
                metric_line("layerhouse_raft_leader"@, 1),
            )
            &&& s.state != NodeState::Leader ==> contains_text(
                r@,
                metric_line("layerhouse_raft_leader"@, 0),
            )
            &&& contains_text(
                r@,
                metric_line("layerhouse_raft_quorum"@, (s.voters@.len() / 2 + 1) as nat),
            )
            &&& contains_text(
                r@,
                metric_line("layerhouse_raft_healthy_voters"@, healthy as nat),
            )
        },
        jwks matches Some(m) ==> {
            &&& contains_text(r@, metric_line("layerhouse_auth_jwks_keys"@, m.key_count as nat))
            &&& contains_text(
                r@,
                metric_line("layerhouse_auth_jwks_cache_age_seconds"@, m.cache_age_seconds as nat),
            )
            &&& contains_text(
                r@,
                metric_line(
                    "layerhouse_auth_jwks_stale_cache"@,
                    if m.stale_mode {
                        1
                    } else {
                        0
                    },
                ),
            )
            &&& contains_text(
                r@,
                metric_line(
                    "layerhouse_auth_jwks_refresh_failures_total"@,
                    m.refresh_failures as nat,
                ),
            )
        },
{
    let up = metric(
        "layerhouse_up"@,
        "Registry process health."@,
        "gauge"@,
        metric_value(1),
    );
    let raft = match status {
        Some(s) => raft_metrics(s@),
        None => Seq::empty(),
    };
    let gcs = gc_metrics(*gc);
    let keys = match jwks {
        Some(m) => jwks_metrics(m@),
        None => Seq::empty(),
    };
    assert(r@ =~= up + raft + gcs + keys);
    let whole = r@;
    assert forall|x: Seq<char>| #[trigger]
        contains_text(up, x) implies contains_text(whole, x) by {
        lemma_contains_part(up, raft, x);
        lemma_contains_part(up + raft, gcs, x);
        lemma_contains_part(up + raft + gcs, keys, x);
    }
    assert forall|x: Seq<char>| #[trigger]
        contains_text(raft, x) implies contains_text(whole, x) by {
        lemma_contains_part(up, raft, x);
        lemma_contains_part(up + raft, gcs, x);
        lemma_contains_part(up + raft + gcs, keys, x);
    }
    assert forall|x: Seq<char>| #[trigger]
        contains_text(gcs, x) implies contains_text(whole, x) by {
        lemma_contains_part(up + raft, gcs, x);
        lemma_contains_part(up + raft + gcs, keys, x);
    }
    assert forall|x: Seq<char>| #[trigger]
        contains_text(keys, x) implies contains_text(whole, x) by {
        lemma_contains_part(up + raft + gcs, keys, x);
    }
    lemma_metric_has_its_line("layerhouse_up"@, "Registry process health."@, "gauge"@, 1);
    lemma_gc_lines(*gc);
    if let Some(s) = status {
        lemma_raft_lines(s@);
        assert(s@.voters.len() == s.voters@.len());
    }
    if let Some(m) = jwks {
        lemma_jwks_lines(m);
    }
}

/// Three metrics one after the other hold the lines of each.
proof fn lemma_three_lines(a: Seq<char>, b: Seq<char>, c: Seq<char>, x: Seq<char>)
    ensures
        contains_text(a, x) || contains_text(b, x) || contains_text(c, x) ==> contains_text(
            a + b + c,
            x,
        ),
{
    lemma_contains_part(a, b, x);
    lemma_contains_part(a + b, c, x);
}

proof fn lemma_gc_lines(gc: GcMetrics)
    ensures
        contains_text(
            gc_metrics(gc),
            metric_line("layerhouse_gc_last_run_timestamp_seconds"@, gc.last_run_at as nat),
        ),
        contains_text(
            gc_metrics(gc),
            metric_line("layerhouse_gc_last_deleted_blobs"@, gc.deleted as nat),
        ),
        contains_text(
            gc_metrics(gc),
            metric_line("layerhouse_gc_last_delete_errors"@, gc.delete_errors as nat),
        ),
{
    let a = metric(
        "layerhouse_gc_last_run_timestamp_seconds"@,
        "Last GC sweep start time."@,
        "gauge"@,
        metric_value(gc.last_run_at as nat),
    );
    let b = metric(
        "layerhouse_gc_last_deleted_blobs"@,
        "Blobs deleted by the last GC sweep."@,
        "gauge"@,
        metric_value(gc.deleted as nat),
    );
    let c = metric(
        "layerhouse_gc_last_delete_errors"@,
        "Blob delete errors from the last GC sweep."@,
        "gauge"@,
        metric_value(gc.delete_errors as nat),
    );
    lemma_metric_has_its_line(
        "layerhouse_gc_last_run_timestamp_seconds"@,
        "Last GC sweep start time."@,
        "gauge"@,
        gc.last_run_at as nat,
    );
    lemma_metric_has_its_line(
        "layerhouse_gc_last_deleted_blobs"@,
        "Blobs deleted by the last GC sweep."@,
        "gauge"@,
        gc.deleted as nat,
    );
    lemma_metric_has_its_line(
        "layerhouse_gc_last_delete_errors"@,
        "Blob delete errors from the last GC sweep."@,
        "gauge"@,
        gc.delete_errors as nat,
    );
    lemma_three_lines(
        a,
        b,
        c,
        metric_line("layerhouse_gc_last_run_timestamp_seconds"@, gc.last_run_at as nat),
    );
    lemma_three_lines(a, b, c, metric_line("layerhouse_gc_last_deleted_blobs"@, gc.deleted as nat));
    lemma_three_lines(
        a,
        b,
        c,
        metric_line("layerhouse_gc_last_delete_errors"@, gc.delete_errors as nat),
    );
}

proof fn lemma_raft_lines(s: ClusterStatusView)
    ensures
        contains_text(
            raft_metrics(s),
            metric_line(
                "layerhouse_raft_leader"@,
                if s.state == NodeState::Leader {
                    1
                } else {
                    0
                },
            ),
        ),
        contains_text(
            raft_metrics(s),
            metric_line("layerhouse_raft_quorum"@, (s.voters.len() / 2 + 1) as nat),
        ),
        contains_text(
            raft_metrics(s),
            metric_line(
                "layerhouse_raft_healthy_voters"@,
                healthy_among(s, s.voters.len() as int),
            ),
        ),
{
    let leads: nat = if s.state == NodeState::Leader {
        1
    } else {
        0
    };
    let quorum = (s.voters.len() / 2 + 1) as nat;
    let healthy = healthy_among(s, s.voters.len() as int);
    let a = metric(
        "layerhouse_raft_leader"@,
        "1 if this node is the Raft leader."@,
        "gauge"@,
        metric_value(leads),
    );
    let b = metric(
        "layerhouse_raft_quorum"@,
        "Required healthy voters for quorum."@,
        "gauge"@,
        metric_value(quorum),
    );
    let c = metric(
        "layerhouse_raft_healthy_voters"@,
        "Voters caught up with the leader."@,
        "gauge"@,
        metric_value(healthy),
    );
    assert(raft_metrics(s) == a + b + c);
    lemma_metric_has_its_line(
        "layerhouse_raft_leader"@,
        "1 if this node is the Raft leader."@,
        "gauge"@,
        leads,
    );
    lemma_metric_has_its_line(
        "layerhouse_raft_quorum"@,
        "Required healthy voters for quorum."@,
        "gauge"@,
        quorum,
    );
    lemma_metric_has_its_line(
        "layerhouse_raft_healthy_voters"@,
        "Voters caught up with the leader."@,
        "gauge"@,
        healthy,
    );
    lemma_three_lines(a, b, c, metric_line("layerhouse_raft_leader"@, leads));
    lemma_three_lines(a, b, c, metric_line("layerhouse_raft_quorum"@, quorum));
    lemma_three_lines(a, b, c, metric_line("layerhouse_raft_healthy_voters"@, healthy));
}

proof fn lemma_jwks_lines(m: &JwksMetrics)
    ensures
        contains_text(
            jwks_metrics(m@),
            metric_line("layerhouse_auth_jwks_keys"@, m.key_count as nat),
        ),
        contains_text(
            jwks_metrics(m@),
            metric_line("layerhouse_auth_jwks_cache_age_seconds"@, m.cache_age_seconds as nat),
        ),
        contains_text(
            jwks_metrics(m@),
            metric_line(
                "layerhouse_auth_jwks_stale_cache"@,
                if m.stale_mode {
                    1
                } else {
                    0
                },
            ),
        ),
        contains_text(
            jwks_metrics(m@),
            metric_line(
                "layerhouse_auth_jwks_refresh_failures_total"@,
                m.refresh_failures as nat,
            ),
        ),
{
    let stale: nat = if m.stale_mode {
        1
    } else {
        0
    };
    let a = metric(
        "layerhouse_auth_jwks_keys"@,
        "Cached OIDC JWKS verification keys."@,
        "gauge"@,
        metric_value(m.key_count as nat),
    );
    let b = metric(
        "layerhouse_auth_jwks_cache_age_seconds"@,
        "Age of the cached JWKS material."@,
        "gauge"@,
        metric_value(m.cache_age_seconds as nat),
    );
    let c = metric(
        "layerhouse_auth_jwks_stale_cache"@,
        "1 when serving from S3 last-good JWKS cache."@,
        "gauge"@,
        metric_value(stale),
    );
    let d = metric(
        "layerhouse_auth_jwks_refresh_failures_total"@,
        "JWKS refresh failure count."@,
        "counter"@,
        metric_value(m.refresh_failures as nat),
    );
    let numbers = a + b + c + d;
    assert forall|x: Seq<char>| #[trigger]
        contains_text(numbers, x) implies contains_text(jwks_metrics(m@), x) by {
        if let Some(endpoint) = m@.endpoint {
            lemma_contains_part(
                numbers,
                metric(
                    "layerhouse_auth_jwks_endpoint_info"@,
                    "Active JWKS source endpoint."@,
                    "gauge"@,
                    "{endpoint=\""@ + escaped_label(endpoint) + "\"} 1"@,
                ),
                x,
            );
        }
    }
    lemma_metric_has_its_line(
        "layerhouse_auth_jwks_keys"@,
        "Cached OIDC JWKS verification keys."@,
        "gauge"@,
        m.key_count as nat,
    );
    lemma_metric_has_its_line(
        "layerhouse_auth_jwks_cache_age_seconds"@,
        "Age of the cached JWKS material."@,
        "gauge"@,
        m.cache_age_seconds as nat,
    );
    lemma_metric_has_its_line(
        "layerhouse_auth_jwks_stale_cache"@,
        "1 when serving from S3 last-good JWKS cache."@,
        "gauge"@,
        stale,
    );
    lemma_metric_has_its_line(
        "layerhouse_auth_jwks_refresh_failures_total"@,
        "JWKS refresh failure count."@,
        "counter"@,
        m.refresh_failures as nat,
    );
    let line_a = metric_line("layerhouse_auth_jwks_keys"@, m.key_count as nat);
    let line_b = metric_line(
        "layerhouse_auth_jwks_cache_age_seconds"@,
        m.cache_age_seconds as nat,
    );
    let line_c = metric_line("layerhouse_auth_jwks_stale_cache"@, stale);
    let line_d = metric_line(
        "layerhouse_auth_jwks_refresh_failures_total"@,
        m.refresh_failures as nat,
    );
    lemma_three_lines(a, b, c, line_a);
    lemma_three_lines(a, b, c, line_b);
    lemma_three_lines(a, b, c, line_c);
    lemma_contains_part(a + b + c, d, line_a);
    lemma_contains_part(a + b + c, d, line_b);
    lemma_contains_part(a + b + c, d, line_c);
    lemma_contains_part(a + b + c, d, line_d);
}

/// A label keeps its characters, and a backslash stands before each backslash and each
/// double quote.
pub proof fn lemma_escaped_labels(a: Seq<char>, c: char)
    ensures
        escaped_label(a.push(c)) == escaped_label(a) + if c == '\\' || c == '"' {
            seq!['\\', c]
        } else {
            seq![c]
        },
        !a.contains('\\') && !a.contains('"') ==> escaped_label(a) == a,
    decreases a.len(),
{
    assert(a.push(c).drop_last() =~= a);
    let front = escaped_label(a);
    assert(front.push('\\').push(c) =~= front + seq!['\\', c]);
    assert(front.push(c) =~= front + seq![c]);
    if a.len() > 0 {
        lemma_escaped_labels(a.drop_last(), c);
        assert(a.drop_last().push(a.last()) =~= a);
        if !a.contains('\\') && !a.contains('"') {
            assert(a[a.len() - 1] == a.last());
            let f = a.drop_last();
            if f.contains('\\') {
                let i = choose|i: int| 0 <= i < f.len() && f[i] == '\\';
                assert(a[i] == '\\');
            }
            if f.contains('"') {
                let i = choose|i: int| 0 <= i < f.len() && f[i] == '"';
                assert(a[i] == '"');
            }
        }
    } else {
        assert(escaped_label(a) =~= a);
    }
}

} // verus!
