use layerhouse::raft::join_loop::{JoinAction, JoinEvent, JoinLoop};
use layerhouse::raft::joining::{
    join_target_for_status, local_membership_confirms_join, merge_seed_and_discovered_peers,
    ordinal_zero_peer_target, restored_membership_peer_targets, select_verification_peer_targets,
    verify_or_rejoin, VerifyStep,
};
use layerhouse::raft::membership::{
    build_cluster_status, commit_wait, ClusterStatus, CommitWait, JoinResponse, JoinResult,
    NodeInfo, NodeState, RaftMetrics,
};
use std::collections::BTreeMap;

fn status(node_id: u64, state: NodeState, leader_addr: Option<&str>) -> ClusterStatus {
    ClusterStatus {
        node_id,
        state,
        leader_id: Some(1),
        leader_addr: leader_addr.map(str::to_string),
        voters: Vec::new(),
        learners: Vec::new(),
        term: 1,
        last_log_index: Some(1),
        last_applied_log: Some(1),
        last_membership_log_id: Some(1),
        millis_since_quorum_ack: None,
        replication: BTreeMap::new(),
    }
}

#[test]
fn restored_peer_targets_exclude_self_and_deduplicate() {
    let peers = restored_membership_peer_targets(
        vec![
            (
                1,
                "layerhouse-0.layerhouse-headless.ns.svc.cluster.local:5051".to_string(),
            ),
            (
                2,
                "layerhouse-1.layerhouse-headless.ns.svc.cluster.local:5051".to_string(),
            ),
            (
                3,
                "layerhouse-2.layerhouse-headless.ns.svc.cluster.local:5051".to_string(),
            ),
            (
                4,
                "layerhouse-2.layerhouse-headless.ns.svc.cluster.local:5051".to_string(),
            ),
            (5, "   ".to_string()),
        ],
        1,
    );

    assert_eq!(
        peers,
        vec![
            "layerhouse-1.layerhouse-headless.ns.svc.cluster.local:5051".to_string(),
            "layerhouse-2.layerhouse-headless.ns.svc.cluster.local:5051".to_string(),
        ]
    );
}

#[test]
fn verification_targets_prefer_restored_membership_peers() {
    let restored = vec![
        "layerhouse-1.layerhouse-headless.ns.svc.cluster.local:5051".to_string(),
        "layerhouse-2.layerhouse-headless.ns.svc.cluster.local:5051".to_string(),
    ];
    let discovered = vec!["layerhouse-headless:5051".to_string()];

    assert_eq!(
        select_verification_peer_targets(restored.clone(), discovered),
        restored
    );
}

#[test]
fn verification_targets_fall_back_to_discovery_when_membership_empty() {
    let discovered = vec!["layerhouse-headless:5051".to_string()];

    assert_eq!(
        select_verification_peer_targets(Vec::new(), discovered.clone()),
        discovered
    );
}

#[test]
fn join_peer_targets_try_restored_peers_before_discovery() {
    assert_eq!(
        merge_seed_and_discovered_peers(
            &vec![
                "layerhouse-0.layerhouse-headless.ns.svc.cluster.local:5051".to_string(),
                "layerhouse-1.layerhouse-headless.ns.svc.cluster.local:5051".to_string(),
            ],
            vec![
                "layerhouse-1.layerhouse-headless.ns.svc.cluster.local:5051".to_string(),
                "layerhouse-headless:5051".to_string(),
            ],
        ),
        vec![
            "layerhouse-0.layerhouse-headless.ns.svc.cluster.local:5051".to_string(),
            "layerhouse-1.layerhouse-headless.ns.svc.cluster.local:5051".to_string(),
            "layerhouse-headless:5051".to_string(),
        ]
    );
}

#[test]
fn join_target_uses_reachable_peer_when_peer_is_leader() {
    let status = status(
        1,
        NodeState::Leader,
        Some("layerhouse-0.layerhouse-headless.ns.svc.cluster.local:5051"),
    );

    assert_eq!(
        join_target_for_status("layerhouse-0.layerhouse-headless.ns.svc:5051", &status),
        Some("layerhouse-0.layerhouse-headless.ns.svc:5051")
    );
}

#[test]
fn join_target_follows_advertised_leader_when_peer_is_follower() {
    let status = status(
        2,
        NodeState::Follower,
        Some("layerhouse-0.layerhouse-headless.ns.svc:5051"),
    );

    assert_eq!(
        join_target_for_status("layerhouse-1.layerhouse-headless.ns.svc:5051", &status),
        Some("layerhouse-0.layerhouse-headless.ns.svc:5051")
    );
}

#[test]
fn restored_stale_voter_without_leader_does_not_confirm_join() {
    assert!(!local_membership_confirms_join(
        None,
        &[2],
        Some(7),
        Some(22),
        true,
        2
    ));
    assert!(!local_membership_confirms_join(
        Some(1),
        &[1, 2],
        Some(7),
        Some(22),
        true,
        2
    ));
    assert!(local_membership_confirms_join(
        Some(1),
        &[1, 2],
        Some(22),
        Some(22),
        true,
        2
    ));
}

#[test]
fn fresh_join_derives_ordinal_zero_seed_from_advertise_addr() {
    assert_eq!(
        ordinal_zero_peer_target("layerhouse-2.layerhouse-headless.ns.svc.cluster.local:5051"),
        Some("layerhouse-0.layerhouse-headless.ns.svc.cluster.local:5051".to_string())
    );
}

#[test]
fn fresh_join_seed_ignores_unparseable_advertise_addr() {
    assert_eq!(ordinal_zero_peer_target("layerhouse-headless:5051"), None);
    assert_eq!(
        ordinal_zero_peer_target("layerhouse-a.layerhouse-headless:5051"),
        None
    );
}

fn peer(node_id: u64, applied: Option<u64>, voters: &[u64]) -> ClusterStatus {
    let mut s = status(node_id, NodeState::Follower, None);
    s.last_applied_log = applied;
    for id in voters {
        s.voters.push(NodeInfo {
            id: *id,
            addr: format!("node-{}:5051", id),
        });
    }
    s
}

#[test]
fn stale_peer_cannot_confirm_membership() {
    let current = peer(1, Some(100), &[1, 2]);
    let stale = peer(2, Some(89), &[1, 2, 3]);
    assert_eq!(verify_or_rejoin(3, &vec![current, stale]), VerifyStep::Rejoin);
}

#[test]
fn strict_majority_of_peers_confirms_membership() {
    assert_eq!(
        verify_or_rejoin(3, &vec![peer(1, Some(100), &[1, 2, 3])]),
        VerifyStep::Confirmed
    );
    assert_eq!(
        verify_or_rejoin(
            3,
            &vec![peer(1, Some(100), &[1, 2, 3]), peer(2, Some(95), &[1, 2])]
        ),
        VerifyStep::Rejoin
    );
    assert_eq!(
        verify_or_rejoin(
            4,
            &vec![
                peer(1, Some(100), &[1, 2, 4]),
                peer(2, Some(90), &[1, 2, 4]),
                peer(3, None, &[])
            ]
        ),
        VerifyStep::Confirmed
    );
}

#[test]
fn unreachable_cluster_is_restarted_by_first_node_only() {
    assert_eq!(verify_or_rejoin(1, &vec![]), VerifyStep::Bootstrap);
    assert_eq!(verify_or_rejoin(2, &vec![]), VerifyStep::NoPeers);
    assert_eq!(
        verify_or_rejoin(2, &vec![peer(2, Some(5), &[2])]),
        VerifyStep::NoPeers
    );
}

fn node(id: u64) -> NodeInfo {
    NodeInfo {
        id,
        addr: format!("node-{id}:1"),
    }
}

fn own_view(node_id: u64, leader: Option<u64>, voter_ids: Vec<u64>) -> RaftMetrics {
    RaftMetrics {
        id: node_id,
        state: NodeState::Follower,
        current_leader: leader,
        current_term: 1,
        last_log_index: Some(5),
        last_applied: Some(5),
        membership_log: Some(3),
        nodes: vec![node(1), node(2), node(3)],
        voter_ids,
        millis_since_quorum_ack: None,
        replication: BTreeMap::from([(2, Some(4)), (3, None)]),
    }
}

#[test]
fn status_lists_every_node_once() {
    let status = build_cluster_status(&own_view(1, Some(2), vec![1, 3]));
    let ids = |nodes: &[NodeInfo]| nodes.iter().map(|n| n.id).collect::<Vec<_>>();
    assert_eq!(ids(&status.voters), vec![1, 3]);
    assert_eq!(ids(&status.learners), vec![2]);
    assert_eq!(status.leader_addr.as_deref(), Some("node-2:1"));
    assert_eq!(
        status.replication,
        BTreeMap::from([(2, Some(4)), (3, None)])
    );
}

#[test]
fn a_change_is_looked_for_until_it_is_committed() {
    assert_eq!(commit_wait(0, Some(3), Some(3)), CommitWait::LookAgain(200));
    assert_eq!(commit_wait(149, None, None), CommitWait::LookAgain(200));
    assert_eq!(commit_wait(149, Some(3), Some(4)), CommitWait::Settle(5000));
    assert_eq!(commit_wait(0, None, Some(0)), CommitWait::Settle(5000));
    assert_eq!(commit_wait(150, Some(3), Some(4)), CommitWait::GiveUp);
}

// ── The loop of a node that joins ─────────────────────────────────────────

fn names(peers: &[&str]) -> Vec<String> {
    peers.iter().map(|peer| peer.to_string()).collect()
}

fn answer(result: JoinResult, leader: Option<&str>) -> JoinEvent {
    JoinEvent::Answer(Some(JoinResponse {
        result,
        leader_addr: leader.map(str::to_string),
    }))
}

#[test]
fn a_node_joins_through_the_leader_that_a_peer_names() {
    let state = JoinLoop::start(2, names(&["a"]));
    assert_eq!(state.action, JoinAction::Discover);
    let state = state.step(JoinEvent::Found(names(&["b", "a"])));
    assert_eq!(state.action, JoinAction::AskStatus("a".to_string()));
    let state = state.step(JoinEvent::Status(None));
    assert_eq!(state.action, JoinAction::AskStatus("b".to_string()));
    let follower = status(3, NodeState::Follower, Some("lead:1"));
    let state = state.step(JoinEvent::Status(Some(follower)));
    assert_eq!(
        state.action,
        JoinAction::RequestJoin {
            target: "lead:1".to_string(),
            redirected: false
        }
    );
    let state = state.step(answer(JoinResult::NotLeader, Some("new:1")));
    assert_eq!(
        state.action,
        JoinAction::RequestJoin {
            target: "new:1".to_string(),
            redirected: true
        }
    );
    let state = state.step(answer(JoinResult::Joined, None));
    assert_eq!(state.action, JoinAction::CheckJoined("new:1".to_string()));
    let mut leader = status(1, NodeState::Leader, None);
    leader.voters = vec![node(1), node(2)];
    let state = state.step(JoinEvent::Seen(
        Some(leader),
        own_view(2, Some(1), vec![1, 2]),
    ));
    assert_eq!(state.action, JoinAction::Finish);
}

#[test]
fn a_second_redirection_is_not_followed() {
    let state = JoinLoop::start(2, names(&["a"]))
        .step(JoinEvent::Found(vec![]))
        .step(JoinEvent::Status(Some(status(1, NodeState::Leader, None))))
        .step(answer(JoinResult::NotLeader, Some("b")))
        .step(answer(JoinResult::NotLeader, Some("c")));
    assert_eq!(state.action, JoinAction::ReadLeader);
    let state = state.step(JoinEvent::Leader(None));
    assert_eq!(state.action, JoinAction::Pause(500));
}

#[test]
fn only_the_first_node_starts_a_cluster_and_only_in_vain() {
    let asked = |node_id: u64| {
        JoinLoop::start(node_id, vec![])
            .step(JoinEvent::Found(names(&["a", "b"])))
            .step(JoinEvent::Status(None))
            .step(JoinEvent::Status(Some(status(
                node_id,
                NodeState::Leader,
                None,
            ))))
    };
    assert_eq!(asked(1).action, JoinAction::ReadLeader);
    let first = asked(1).step(JoinEvent::Leader(None));
    assert_eq!(first.action, JoinAction::Initialize);
    assert_eq!(
        first.step(JoinEvent::Initialized(true)).action,
        JoinAction::Finish
    );
    let known = asked(1).step(JoinEvent::Leader(Some(3)));
    assert_eq!(known.action, JoinAction::Finish);
    let other = asked(2).step(JoinEvent::Leader(None));
    assert_eq!(other.action, JoinAction::Pause(500));
}

#[test]
fn pauses_between_attempts_get_longer() {
    let mut state = JoinLoop::start(2, vec![]);
    let mut pauses = Vec::new();
    for _ in 0..6 {
        state = state
            .step(JoinEvent::Found(vec![]))
            .step(JoinEvent::Leader(None));
        if let JoinAction::Pause(millis) = state.action {
            pauses.push(millis);
        }
        state = state.step(JoinEvent::Paused);
        assert_eq!(state.action, JoinAction::Discover);
    }
    assert_eq!(pauses, vec![500, 1000, 2000, 4000, 8000, 10_000]);
}

#[test]
fn an_unconfirmed_join_goes_on_with_the_next_peer() {
    let state = JoinLoop::start(2, names(&["a", "b"]))
        .step(JoinEvent::Found(vec![]))
        .step(JoinEvent::Status(Some(status(1, NodeState::Leader, None))))
        .step(answer(JoinResult::AlreadyMember, None));
    assert_eq!(state.action, JoinAction::CheckJoined("a".to_string()));
    let state = state.step(JoinEvent::Seen(None, own_view(2, None, vec![])));
    assert_eq!(state.action, JoinAction::AskStatus("b".to_string()));
    let state = state.step(JoinEvent::Status(None));
    assert_eq!(state.action, JoinAction::ReadLeader);
}
