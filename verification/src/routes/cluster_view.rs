//! How the cluster looks on the dashboard.
use super::health::{confirmed_by, find_confirmed, is_healthy};
use crate::clones::clone_list;
use crate::raft::membership::{ClusterStatus, ClusterStatusView, NodeInfo, NodeInfoView, NodeState};
use crate::text::{concat2, decimal, decimal_text};
use vstd::prelude::*;

verus! {

/// A node as the dashboard shows it.
#[derive(Debug)]
pub struct ClusterMember {
    pub node_id: u64,
    pub address: String,
    pub role: String,
    pub status: String,
    pub commit_index: Option<u64>,
    pub replication_lag_ms: Option<u64>,
}

/// What a `ClusterMember` holds.
#[verifier::ext_equal]
pub struct ClusterMemberView {
    pub node_id: u64,
    pub address: Seq<char>,
    pub role: Seq<char>,
    pub status: Seq<char>,
    pub commit_index: Option<u64>,
    pub replication_lag_ms: Option<u64>,
}

impl View for ClusterMember {
    type V = ClusterMemberView;

    open spec fn view(&self) -> ClusterMemberView {
        ClusterMemberView {
            node_id: self.node_id,
            address: self.address.deep_view(),
            role: self.role.deep_view(),
            status: self.status.deep_view(),
            commit_index: self.commit_index,
            replication_lag_ms: self.replication_lag_ms,
        }
    }
}

impl DeepView for ClusterMember {
    type V = ClusterMemberView;

    open spec fn deep_view(&self) -> ClusterMemberView {
        self@
    }
}

impl Clone for ClusterMember {
    fn clone(&self) -> (r: Self)
        ensures
            r@ == self@,
    {
        ClusterMember {
            node_id: self.node_id,
            address: self.address.clone(),
            role: self.role.clone(),
            status: self.status.clone(),
            commit_index: self.commit_index,
            replication_lag_ms: self.replication_lag_ms,
        }
    }
}

/// The cluster as the dashboard shows it.
#[derive(Debug)]
pub struct DashboardClusterStatus {
    pub cluster_id: String,
    pub leader_id: Option<u64>,
    pub term: u64,
    pub quorum: usize,
    pub healthy_voters: usize,
    pub updated_at: u64,
    pub voters: Vec<ClusterMember>,
    pub learners: Vec<ClusterMember>,
}

/// What a `DashboardClusterStatus` holds.
#[verifier::ext_equal]
pub struct DashboardClusterStatusView {
    pub cluster_id: Seq<char>,
    pub leader_id: Option<u64>,
    pub term: u64,
    pub quorum: usize,
    pub healthy_voters: usize,
    pub updated_at: u64,
    pub voters: Seq<ClusterMemberView>,
    pub learners: Seq<ClusterMemberView>,
}

impl View for DashboardClusterStatus {
    type V = DashboardClusterStatusView;

    open spec fn view(&self) -> DashboardClusterStatusView {
        DashboardClusterStatusView {
            cluster_id: self.cluster_id.deep_view(),
            leader_id: self.leader_id,
            term: self.term,
            quorum: self.quorum,
            healthy_voters: self.healthy_voters,
            updated_at: self.updated_at,
            voters: self.voters.deep_view(),
            learners: self.learners.deep_view(),
        }
    }
}

impl DeepView for DashboardClusterStatus {
    type V = DashboardClusterStatusView;

    open spec fn deep_view(&self) -> DashboardClusterStatusView {
        self@
    }
}

impl Clone for DashboardClusterStatus {
    fn clone(&self) -> (r: Self)
        ensures
            r@ == self@,
    {
        DashboardClusterStatus {
            cluster_id: self.cluster_id.clone(),
            leader_id: self.leader_id,
            term: self.term,
            quorum: self.quorum,
            healthy_voters: self.healthy_voters,
            updated_at: self.updated_at,
            voters: clone_list(&self.voters),
            learners: clone_list(&self.learners),
        }
    }
}

/// The log position that a node has confirmed.
pub open spec fn confirmed(raw: ClusterStatusView, id: u64) -> Option<u64> {
    match confirmed_by(raw.replication, id) {
        Some(matching) => matching,
        None => None,
    }
}

/// A voter as the dashboard shows it.
pub open spec fn voter_view(raw: ClusterStatusView, node: NodeInfoView) -> ClusterMemberView {
    let leads = raw.leader_id == Some(node.id);
    ClusterMemberView {
        node_id: node.id,
        address: node.addr,
        role: if leads {
            "leader"@
        } else {
            "voter"@
        },
        status: if is_healthy(raw, node.id) {
            "healthy"@
        } else {
            "lagging"@
        },
        commit_index: if leads {
            raw.last_applied_log
        } else {
            match confirmed(raw, node.id) {
                Some(index) => Some(index),
                None => raw.last_applied_log,
            }
        },
        replication_lag_ms: if leads {
            Some(0)
        } else {
            match (raw.last_applied_log, confirmed(raw, node.id)) {
                (Some(last), Some(matching)) => Some(
                    if last >= matching {
                        (last - matching) as u64
                    } else {
                        0
                    },
                ),
                _ => None,
            }
        },
    }
}

/// A learner as the dashboard shows it.
pub open spec fn learner_view(raw: ClusterStatusView, node: NodeInfoView) -> ClusterMemberView {
    ClusterMemberView {
        node_id: node.id,
        address: node.addr,
        role: "learner"@,
        status: "healthy"@,
        commit_index: raw.last_applied_log,
        replication_lag_ms: None,
    }
}

/// The cluster as the dashboard shows it.
pub open spec fn dashboard_status(raw: ClusterStatusView, now: u64) -> DashboardClusterStatusView {
    DashboardClusterStatusView {
        cluster_id: "layerhouse-"@ + decimal_text(raw.node_id as nat),
        leader_id: raw.leader_id,
        term: raw.term,
        quorum: (raw.voters.len() / 2 + 1) as usize,
        healthy_voters: raw.voters.filter(|n: NodeInfoView| is_healthy(raw, n.id)).len() as usize,
        updated_at: now,
        voters: raw.voters.map_values(|n: NodeInfoView| voter_view(raw, n)),
        learners: raw.learners.map_values(|n: NodeInfoView| learner_view(raw, n)),
    }
}

/// A voter as the dashboard shows it, and whether it is up to date.
fn show_voter(raw: &ClusterStatus, node: &NodeInfo) -> (r: (ClusterMember, bool))
    ensures
        r.0@ == voter_view(raw@, node@),
        r.1 == is_healthy(raw@, node@.id),
{
    let leads = match raw.leader_id {
        Some(id) => id == node.id,
        None => false,
    };
    let known = find_confirmed(raw, node.id);
    let up_to_date = match known {
        Some(matching) => match (matching, raw.last_applied_log) {
            (Some(a), Some(b)) => a == b,
            (None, None) => true,
            _ => false,
        },
        None => false,
    };
    let matching: Option<u64> = match known {
        Some(m) => m,
        None => None,
    };
    let healthy = leads || up_to_date;
    let member = ClusterMember {
        node_id: node.id,
        address: node.addr.clone(),
        role: if leads {
            "leader".to_string()
        } else {
            "voter".to_string()
        },
        status: if healthy {
            "healthy".to_string()
        } else {
            "lagging".to_string()
        },
        commit_index: if leads {
            raw.last_applied_log
        } else {
            match matching {
                Some(index) => Some(index),
                None => raw.last_applied_log,
            }
        },
        replication_lag_ms: if leads {
            Some(0)
        } else {
            match (raw.last_applied_log, matching) {
                (Some(last), Some(m)) => Some(last.saturating_sub(m)),
                _ => None,
            }
        },
    };
    (member, healthy)
}

/// The cluster as the dashboard shows it.
pub fn dashboard_status_from_raw(raw: &ClusterStatus, now: u64) -> (r: DashboardClusterStatus)
    ensures
        r@ == dashboard_status(raw@, now),
{
    let ghost nodes = raw@.voters;
    let ghost healthy = |n: NodeInfoView| is_healthy(raw@, n.id);
    let mut voters: Vec<ClusterMember> = Vec::new();
    let mut count: usize = 0;
    let mut i: usize = 0;
    proof {
        reveal(Seq::filter);
        assert(nodes.take(0).filter(healthy).len() == 0);
    }
    while i < raw.voters.len()
        invariant
            nodes == raw.voters.deep_view(),
            nodes == raw@.voters,
            healthy == (|n: NodeInfoView| is_healthy(raw@, n.id)),
            i <= raw.voters@.len(),
            count <= i,
            count == nodes.take(i as int).filter(healthy).len(),
            voters@.len() == i,
            forall|j: int| 0 <= j < i ==> (#[trigger] voters@[j])@ == voter_view(raw@, nodes[j]),
        decreases raw.voters@.len() - i,
    {
        proof {
            reveal(Seq::filter);
            assert(nodes.take(i + 1).drop_last() =~= nodes.take(i as int));
            assert(nodes.take(i + 1).last() == raw.voters@[i as int]@);
        }
        let (member, up) = show_voter(raw, &raw.voters[i]);
        voters.push(member);
        if up {
            count = count + 1;
        }
        i = i + 1;
    }
    assert(nodes.take(nodes.len() as int) =~= nodes);
    let mut learners: Vec<ClusterMember> = Vec::new();
    let mut k: usize = 0;
    while k < raw.learners.len()
        invariant
            k <= raw.learners@.len(),
            learners@.len() == k,
            forall|j: int|
                0 <= j < k ==> (#[trigger] learners@[j])@ == learner_view(
                    raw@,
                    raw.learners@[j]@,
                ),
        decreases raw.learners@.len() - k,
    {
        let node = &raw.learners[k];
        learners.push(
            ClusterMember {
                node_id: node.id,
                address: node.addr.clone(),
                role: "learner".to_string(),
                status: "healthy".to_string(),
                commit_index: raw.last_applied_log,
                replication_lag_ms: None,
            },
        );
        k = k + 1;
    }
    assert(voters.deep_view() =~= nodes.map_values(|n: NodeInfoView| voter_view(raw@, n)));
    assert(learners.deep_view() =~= raw@.learners.map_values(
        |n: NodeInfoView| learner_view(raw@, n),
    ));
    DashboardClusterStatus {
        cluster_id: concat2("layerhouse-", &decimal(raw.node_id)),
        leader_id: raw.leader_id,
        term: raw.term,
        quorum: raw.voters.len() / 2 + 1,
        healthy_voters: count,
        updated_at: now,
        voters,
        learners,
    }
}

/// Whom to ask for the state of the cluster: the leader, where it is another
/// node and its address is known.
pub fn status_source(local: &ClusterStatus) -> (r: Option<&String>)
    ensures
        r.deep_view() == if local@.state is Leader {
            None
        } else {
            local@.leader_addr
        },
{
    match local.state {
        NodeState::Leader => None,
        _ => match &local.leader_addr {
            Some(addr) => Some(addr),
            None => None,
        },
    }
}

} // verus!
