//! Who takes part in the cluster, and how nodes join and leave.
use crate::clones::{clone_list, clone_option};
use crate::text::{
    chars_of, contains_str, contains_text, find_text, first_occurrence, is_digit,
    lemma_first_occurrence, parse_u64, parsed_u64,
};
use std::collections::BTreeMap;
use vstd::prelude::*;

verus! {

// ── Values ───────────────────────────────────────────────────────────────

/// The part that a node plays.
#[derive(Debug, Clone, Copy, PartialEq, Eq, Structural)]
pub enum NodeState {
    Leader,
    Follower,
    Candidate,
    Learner,
}

impl DeepView for NodeState {
    type V = NodeState;

    open spec fn deep_view(&self) -> NodeState {
        *self
    }
}

/// A node and its address.
#[derive(Debug, PartialEq, Eq)]
pub struct NodeInfo {
    pub id: u64,
    pub addr: String,
}

/// What a `NodeInfo` holds.
#[verifier::ext_equal]
pub struct NodeInfoView {
    pub id: u64,
    pub addr: Seq<char>,
}

impl View for NodeInfo {
    type V = NodeInfoView;

    open spec fn view(&self) -> NodeInfoView {
        NodeInfoView {
            id: self.id,
            addr: self.addr.deep_view(),
        }
    }
}

impl DeepView for NodeInfo {
    type V = NodeInfoView;

    open spec fn deep_view(&self) -> NodeInfoView {
        self@
    }
}

impl Clone for NodeInfo {
    fn clone(&self) -> (r: Self)
        ensures
            r@ == self@,
    {
        NodeInfo {
            id: self.id,
            addr: self.addr.clone(),
        }
    }
}

/// How a node sees the cluster.
#[derive(Debug, PartialEq, Eq)]
pub struct ClusterStatus {
    pub node_id: u64,
    pub state: NodeState,
    pub leader_id: Option<u64>,
    pub leader_addr: Option<String>,
    pub voters: Vec<NodeInfo>,
    pub learners: Vec<NodeInfo>,
    pub term: u64,
    pub last_log_index: Option<u64>,
    pub last_applied_log: Option<u64>,
    pub last_membership_log_id: Option<u64>,
    pub millis_since_quorum_ack: Option<u64>,
    pub replication: BTreeMap<u64, Option<u64>>,
}

/// What a `ClusterStatus` holds.
#[verifier::ext_equal]
pub struct ClusterStatusView {
    pub node_id: u64,
    pub state: NodeState,
    pub leader_id: Option<u64>,
    pub leader_addr: Option<Seq<char>>,
    pub voters: Seq<NodeInfoView>,
    pub learners: Seq<NodeInfoView>,
    pub term: u64,
    pub last_log_index: Option<u64>,
    pub last_applied_log: Option<u64>,
    pub last_membership_log_id: Option<u64>,
    pub millis_since_quorum_ack: Option<u64>,
    pub replication: Map<u64, Option<u64>>,
}

impl View for ClusterStatus {
    type V = ClusterStatusView;

    open spec fn view(&self) -> ClusterStatusView {
        ClusterStatusView {
            node_id: self.node_id,
            state: self.state,
            leader_id: self.leader_id,
            leader_addr: self.leader_addr.deep_view(),
            voters: self.voters.deep_view(),
            learners: self.learners.deep_view(),
            term: self.term,
            last_log_index: self.last_log_index,
            last_applied_log: self.last_applied_log,
            last_membership_log_id: self.last_membership_log_id,
            millis_since_quorum_ack: self.millis_since_quorum_ack,
            replication: self.replication@,
        }
    }
}

impl DeepView for ClusterStatus {
    type V = ClusterStatusView;

    open spec fn deep_view(&self) -> ClusterStatusView {
        self@
    }
}

impl Clone for ClusterStatus {
    fn clone(&self) -> (r: Self)
        ensures
            r@ == self@,
    {
        ClusterStatus {
            node_id: self.node_id,
            state: self.state,
            leader_id: self.leader_id,
            leader_addr: clone_option(&self.leader_addr),
            voters: clone_list(&self.voters),
            learners: clone_list(&self.learners),
            term: self.term,
            last_log_index: self.last_log_index,
            last_applied_log: self.last_applied_log,
            last_membership_log_id: self.last_membership_log_id,
            millis_since_quorum_ack: self.millis_since_quorum_ack,
            replication: self.replication.clone(),
        }
    }
}

/// What the consensus engine reports of a node.
#[derive(Debug, PartialEq, Eq)]
pub struct RaftMetrics {
    pub id: u64,
    pub state: NodeState,
    pub current_leader: Option<u64>,
    pub current_term: u64,
    pub last_log_index: Option<u64>,
    pub last_applied: Option<u64>,
    pub membership_log: Option<u64>,
    pub nodes: Vec<NodeInfo>,
    pub voter_ids: Vec<u64>,
    pub millis_since_quorum_ack: Option<u64>,
    pub replication: BTreeMap<u64, Option<u64>>,
}

/// What a `RaftMetrics` holds.
#[verifier::ext_equal]
pub struct RaftMetricsView {
    pub id: u64,
    pub state: NodeState,
    pub current_leader: Option<u64>,
    pub current_term: u64,
    pub last_log_index: Option<u64>,
    pub last_applied: Option<u64>,
    pub membership_log: Option<u64>,
    pub nodes: Seq<NodeInfoView>,
    pub voter_ids: Seq<u64>,
    pub millis_since_quorum_ack: Option<u64>,
    pub replication: Map<u64, Option<u64>>,
}

impl View for RaftMetrics {
    type V = RaftMetricsView;

    open spec fn view(&self) -> RaftMetricsView {
        RaftMetricsView {
            id: self.id,
            state: self.state,
            current_leader: self.current_leader,
            current_term: self.current_term,
            last_log_index: self.last_log_index,
            last_applied: self.last_applied,
            membership_log: self.membership_log,
            nodes: self.nodes.deep_view(),
            voter_ids: self.voter_ids.deep_view(),
            millis_since_quorum_ack: self.millis_since_quorum_ack,
            replication: self.replication@,
        }
    }
}

impl DeepView for RaftMetrics {
    type V = RaftMetricsView;

    open spec fn deep_view(&self) -> RaftMetricsView {
        self@
    }
}

impl Clone for RaftMetrics {
    fn clone(&self) -> (r: Self)
        ensures
            r@ == self@,
    {
        RaftMetrics {
            id: self.id,
            state: self.state,
            current_leader: self.current_leader,
            current_term: self.current_term,
            last_log_index: self.last_log_index,
            last_applied: self.last_applied,
            membership_log: self.membership_log,
            nodes: clone_list(&self.nodes),
            voter_ids: clone_list(&self.voter_ids),
            millis_since_quorum_ack: self.millis_since_quorum_ack,
            replication: self.replication.clone(),
        }
    }
}

/// The answer to a node that asks to join.
#[derive(Debug, Clone, Copy, PartialEq, Eq, Structural)]
pub enum JoinResult {
    Joined,
    NotLeader,
    AlreadyMember,
}

/// The answer to a node that asks to leave.
#[derive(Debug, Clone, Copy, PartialEq, Eq, Structural)]
pub enum LeaveResult {
    Left,
    NotLeader,
    NotMember,
    LastVoter,
}

/// A request to join.
#[derive(Debug, PartialEq, Eq)]
pub struct JoinRequest {
    pub node_id: u64,
    pub addr: String,
}

/// A request to leave.
#[derive(Debug, Clone, Copy, PartialEq, Eq, Structural)]
pub struct LeaveRequest {
    pub node_id: u64,
}

/// The answer to a request to join, with the leader's address where another
/// node is to be asked.
#[derive(Debug, PartialEq, Eq)]
pub struct JoinResponse {
    pub result: JoinResult,
    pub leader_addr: Option<String>,
}

/// The answer to a request to leave, with the leader's address where another
/// node is to be asked.
#[derive(Debug, PartialEq, Eq)]
pub struct LeaveResponse {
    pub result: LeaveResult,
    pub leader_addr: Option<String>,
}

// ── Status ───────────────────────────────────────────────────────────────

/// Those of some nodes that are voters, or those that are not, in order.
pub open spec fn nodes_voting(
    nodes: Seq<NodeInfoView>,
    voters: Seq<u64>,
    voting: bool,
) -> Seq<NodeInfoView>
    decreases nodes.len(),
{
    if nodes.len() == 0 {
        Seq::empty()
    } else if voters.contains(nodes.last().id) == voting {
        nodes_voting(nodes.drop_last(), voters, voting).push(nodes.last())
    } else {
        nodes_voting(nodes.drop_last(), voters, voting)
    }
}

/// The address of the first node of an id at or after a position.
pub open spec fn address_from(nodes: Seq<NodeInfoView>, id: u64, from: int) -> Option<Seq<char>>
    decreases nodes.len() - from,
{
    if from >= nodes.len() {
        None
    } else if nodes[from].id == id {
        Some(nodes[from].addr)
    } else {
        address_from(nodes, id, from + 1)
    }
}

/// The address of the leader, where there is one and it is known.
pub open spec fn leader_address(m: RaftMetricsView) -> Option<Seq<char>> {
    match m.current_leader {
        Some(id) => address_from(m.nodes, id, 0),
        None => None,
    }
}

/// How a node sees the cluster.
pub open spec fn status_of(m: RaftMetricsView) -> ClusterStatusView {
    ClusterStatusView {
        node_id: m.id,
        state: m.state,
        leader_id: m.current_leader,
        leader_addr: leader_address(m),
        voters: nodes_voting(m.nodes, m.voter_ids, true),
        learners: nodes_voting(m.nodes, m.voter_ids, false),
        term: m.current_term,
        last_log_index: m.last_log_index,
        last_applied_log: m.last_applied,
        last_membership_log_id: m.membership_log,
        millis_since_quorum_ack: m.millis_since_quorum_ack,
        replication: m.replication,
    }
}

/// Whether no two nodes of a list have the same id.
pub open spec fn distinct_nodes(nodes: Seq<NodeInfoView>) -> bool {
    forall|i: int, j: int|
        0 <= i < j < nodes.len() ==> #[trigger] nodes[i].id != #[trigger] nodes[j].id
}

impl RaftMetricsView {
    /// Whether a report is one of a consensus engine: every node and every voter is
    /// listed once.
    pub open spec fn wf(self) -> bool {
        distinct_nodes(self.nodes) && self.voter_ids.no_duplicates()
    }
}

impl ClusterStatusView {
    /// Whether every node is listed once, as a voter or as a learner.
    pub open spec fn wf(self) -> bool {
        distinct_nodes(self.voters + self.learners)
    }
}

/// What `nodes_voting` lists.
proof fn lemma_nodes_voting(nodes: Seq<NodeInfoView>, voters: Seq<u64>, voting: bool)
    ensures
        forall|node: NodeInfoView| #[trigger]
            nodes_voting(nodes, voters, voting).contains(node) <==> nodes.contains(node)
                && voters.contains(node.id) == voting,
        distinct_nodes(nodes) ==> distinct_nodes(nodes_voting(nodes, voters, voting)),
    decreases nodes.len(),
{
    if nodes.len() > 0 {
        let front = nodes.drop_last();
        let last = nodes.last();
        let before = nodes_voting(front, voters, voting);
        let listed = nodes_voting(nodes, voters, voting);
        lemma_nodes_voting(front, voters, voting);
        assert(nodes =~= front.push(last));
        assert forall|node: NodeInfoView| #[trigger] nodes.contains(node) <==> front.contains(node)
            || node == last by {
            lemma_push_contains(front, last, node);
        }
        if voters.contains(last.id) == voting {
            assert forall|node: NodeInfoView| #[trigger] listed.contains(node) <==> before.contains(
                node,
            ) || node == last by {
                lemma_push_contains(before, last, node);
            }
            if distinct_nodes(nodes) {
                assert(distinct_nodes(front));
                assert forall|i: int, j: int| 0 <= i < j < listed.len() implies #[trigger]
                listed[i].id != #[trigger] listed[j].id by {
                    if j == before.len() {
                        assert(before.contains(before[i]));
                        assert(front.contains(before[i]));
                        let k = choose|k: int| 0 <= k < front.len() && front[k] == before[i];
                        assert(nodes[k].id != nodes[nodes.len() - 1].id);
                    } else {
                        assert(before[i].id != before[j].id);
                    }
                }
            }
        } else if distinct_nodes(nodes) {
            assert(distinct_nodes(front));
        }
    }
}

/// A list with one more node holds it and what it held before.
proof fn lemma_push_contains(list: Seq<NodeInfoView>, last: NodeInfoView, node: NodeInfoView)
    ensures
        list.push(last).contains(node) <==> list.contains(node) || node == last,
{
    let all = list.push(last);
    assert(all[list.len() as int] == last);
    if list.contains(node) {
        let i = choose|i: int| 0 <= i < list.len() && list[i] == node;
        assert(all[i] == node);
    }
    if all.contains(node) && node != last {
        let i = choose|i: int| 0 <= i < all.len() && all[i] == node;
        assert(list[i] == node);
    }
}

/// Every node of the cluster is listed, as a voter where it is one and as a learner
/// otherwise, and no other node is.
pub proof fn lemma_status_lists_every_node(m: RaftMetricsView, node: NodeInfoView)
    ensures
        status_of(m).voters.contains(node) <==> m.nodes.contains(node) && m.voter_ids.contains(
            node.id,
        ),
        status_of(m).learners.contains(node) <==> m.nodes.contains(node) && !m.voter_ids.contains(
            node.id,
        ),
{
    lemma_nodes_voting(m.nodes, m.voter_ids, true);
    lemma_nodes_voting(m.nodes, m.voter_ids, false);
}

/// No node is listed twice, neither among the voters or the learners nor as both.
pub proof fn lemma_status_lists_no_node_twice(m: RaftMetricsView)
    requires
        m.wf(),
    ensures
        status_of(m).wf(),
{
    lemma_nodes_voting(m.nodes, m.voter_ids, true);
    lemma_nodes_voting(m.nodes, m.voter_ids, false);
    let voters = status_of(m).voters;
    let learners = status_of(m).learners;
    let all = voters + learners;
    assert forall|i: int, j: int| 0 <= i < j < all.len() implies #[trigger] all[i].id != #[trigger]
    all[j].id by {
        if j < voters.len() {
            assert(voters[i].id != voters[j].id);
        } else {
            let l = j - voters.len();
            assert(learners.contains(learners[l]));
            if i < voters.len() {
                assert(voters.contains(voters[i]));
            } else {
                assert(learners[i - voters.len()].id != learners[l].id);
            }
        }
    }
}

/// Whether a list of ids holds an id.
fn holds_id(ids: &Vec<u64>, id: u64) -> (r: bool)
    ensures
        r == ids@.contains(id),
{
    let mut i: usize = 0;
    while i < ids.len()
        invariant
            i <= ids@.len(),
            forall|j: int| 0 <= j < i ==> #[trigger] ids@[j] != id,
        decreases ids@.len() - i,
    {
        if ids[i] == id {
            return true;
        }
        i = i + 1;
    }
    false
}

/// The address of the leader, where there is one and it is known.
fn find_leader_address(m: &RaftMetrics) -> (r: Option<String>)
    ensures
        r.deep_view() == leader_address(m@),
{
    let leader: u64 = match m.current_leader {
        Some(id) => id,
        None => return None,
    };
    let ghost nodes = m.nodes.deep_view();
    let mut i: usize = 0;
    while i < m.nodes.len()
        invariant
            nodes == m.nodes.deep_view(),
            m.current_leader == Some(leader),
            i <= m.nodes@.len(),
            address_from(nodes, leader, 0) == address_from(nodes, leader, i as int),
        decreases m.nodes@.len() - i,
    {
        assert(nodes[i as int] == m.nodes@[i as int]@);
        if m.nodes[i].id == leader {
            return Some(m.nodes[i].addr.clone());
        }
        i = i + 1;
    }
    None
}

/// How a node sees the cluster.
pub fn build_cluster_status(m: &RaftMetrics) -> (r: ClusterStatus)
    ensures
        r@ == status_of(m@),
        m@.wf() ==> r@.wf(),
{
    proof {
        if m@.wf() {
            lemma_status_lists_no_node_twice(m@);
        }
    }
    let ghost nodes = m.nodes.deep_view();
    let ghost ids = m.voter_ids.deep_view();
    assert(ids =~= m.voter_ids@);
    let mut voters: Vec<NodeInfo> = Vec::new();
    let mut learners: Vec<NodeInfo> = Vec::new();
    let mut i: usize = 0;
    assert(voters.deep_view() =~= nodes_voting(nodes.take(0), ids, true));
    assert(learners.deep_view() =~= nodes_voting(nodes.take(0), ids, false));
    while i < m.nodes.len()
        invariant
            nodes == m.nodes.deep_view(),
            ids == m.voter_ids@,
            i <= m.nodes@.len(),
            voters.deep_view() == nodes_voting(nodes.take(i as int), ids, true),
            learners.deep_view() == nodes_voting(nodes.take(i as int), ids, false),
        decreases m.nodes@.len() - i,
    {
        let ghost v0 = voters.deep_view();
        let ghost l0 = learners.deep_view();
        let info = m.nodes[i].clone();
        assert(nodes.take(i + 1).drop_last() =~= nodes.take(i as int));
        assert(nodes.take(i + 1).last() == info@);
        if holds_id(&m.voter_ids, info.id) {
            voters.push(info);
            assert(voters.deep_view() =~= v0.push(info@));
        } else {
            learners.push(info);
            assert(learners.deep_view() =~= l0.push(info@));
        }
        i = i + 1;
    }
    assert(nodes.take(nodes.len() as int) =~= nodes);
    ClusterStatus {
        node_id: m.id,
        state: m.state,
        leader_id: m.current_leader,
        leader_addr: find_leader_address(m),
        voters,
        learners,
        term: m.current_term,
        last_log_index: m.last_log_index,
        last_applied_log: m.last_applied,
        last_membership_log_id: m.membership_log,
        millis_since_quorum_ack: m.millis_since_quorum_ack,
        replication: m.replication.clone(),
    }
}

// ── Checks before a change of membership ─────────────────────────────────

/// Whether a node leads the cluster.
pub open spec fn leads(m: RaftMetricsView) -> bool {
    m.current_leader == Some(m.id)
}

/// What an answer about membership carries.
#[derive(Debug, PartialEq, Eq)]
pub enum ReplyBody {
    Join(JoinResponse),
    Leave(LeaveResponse),
    Message(String),
}

/// An answer about membership, with its HTTP status.
#[derive(Debug, PartialEq, Eq)]
pub struct MembershipReply {
    pub status: u16,
    pub body: ReplyBody,
}

/// What a `MembershipReply` says.
pub enum ReplyView {
    Join { status: u16, result: JoinResult, leader_addr: Option<Seq<char>> },
    Leave { status: u16, left: LeaveResult, leader_addr: Option<Seq<char>> },
    Message { status: u16, text: Seq<char> },
}

impl View for MembershipReply {
    type V = ReplyView;

    open spec fn view(&self) -> ReplyView {
        match self.body {
            ReplyBody::Join(r) => ReplyView::Join {
                status: self.status,
                result: r.result,
                leader_addr: r.leader_addr.deep_view(),
            },
            ReplyBody::Leave(r) => ReplyView::Leave {
                status: self.status,
                left: r.result,
                leader_addr: r.leader_addr.deep_view(),
            },
            ReplyBody::Message(text) => ReplyView::Message { status: self.status, text: text@ },
        }
    }
}

impl DeepView for MembershipReply {
    type V = ReplyView;

    open spec fn deep_view(&self) -> ReplyView {
        self@
    }
}

/// Why a request to join needs no change of membership: another node leads, or
/// the node is a voter.
pub open spec fn join_precheck(m: RaftMetricsView, node_id: u64) -> Option<ReplyView> {
    if !leads(m) {
        Some(
            ReplyView::Join {
                status: 307,
                result: JoinResult::NotLeader,
                leader_addr: leader_address(m),
            },
        )
    } else if m.voter_ids.contains(node_id) {
        Some(
            ReplyView::Join { status: 200, result: JoinResult::AlreadyMember, leader_addr: None },
        )
    } else {
        None
    }
}

/// Why a request to leave is not carried out: another node leads, the node is
/// no voter, or it is the only one.
pub open spec fn leave_precheck(m: RaftMetricsView, node_id: u64) -> Option<ReplyView> {
    if !leads(m) {
        Some(
            ReplyView::Leave {
                status: 307,
                left: LeaveResult::NotLeader,
                leader_addr: leader_address(m),
            },
        )
    } else if !m.voter_ids.contains(node_id) {
        Some(ReplyView::Leave { status: 200, left: LeaveResult::NotMember, leader_addr: None })
    } else if m.voter_ids.to_set().len() <= 1 {
        Some(ReplyView::Leave { status: 200, left: LeaveResult::LastVoter, leader_addr: None })
    } else {
        None
    }
}

/// An answer to a request to join.
fn join_reply(status: u16, result: JoinResult, leader_addr: Option<String>) -> (r: MembershipReply)
    ensures
        r@ == (ReplyView::Join { status, result, leader_addr: leader_addr.deep_view() }),
{
    MembershipReply { status, body: ReplyBody::Join(JoinResponse { result, leader_addr }) }
}

/// An answer to a request to leave.
fn leave_reply(status: u16, result: LeaveResult, leader_addr: Option<String>) -> (r:
    MembershipReply)
    ensures
        r@ == (ReplyView::Leave { status, left: result, leader_addr: leader_addr.deep_view() }),
{
    MembershipReply { status, body: ReplyBody::Leave(LeaveResponse { result, leader_addr }) }
}

/// An answer that is a message.
fn message_reply(status: u16, text: String) -> (r: MembershipReply)
    ensures
        r@ == (ReplyView::Message { status, text: text@ }),
{
    MembershipReply { status, body: ReplyBody::Message(text) }
}

/// Whether a node leads the cluster.
fn is_leader(m: &RaftMetrics) -> (r: bool)
    ensures
        r == leads(m@),
{
    match m.current_leader {
        Some(id) => id == m.id,
        None => false,
    }
}

/// Why a request to join needs no change of membership.
pub fn precheck_join(m: &RaftMetrics, node_id: u64) -> (r: Option<MembershipReply>)
    ensures
        r.deep_view() == join_precheck(m@, node_id),
{
    assert(m.voter_ids.deep_view() =~= m.voter_ids@);
    if !is_leader(m) {
        return Some(join_reply(307, JoinResult::NotLeader, find_leader_address(m)));
    }
    if holds_id(&m.voter_ids, node_id) {
        return Some(join_reply(200, JoinResult::AlreadyMember, None));
    }
    None
}

/// The ids of a list without one, in order and without repetitions.
pub open spec fn ids_without(ids: Seq<u64>, id: u64) -> Seq<u64>
    decreases ids.len(),
{
    if ids.len() == 0 {
        Seq::empty()
    } else {
        let front = ids_without(ids.drop_last(), id);
        if ids.last() == id || front.contains(ids.last()) {
            front
        } else {
            front.push(ids.last())
        }
    }
}

/// What `ids_without` lists.
pub proof fn lemma_ids_without(ids: Seq<u64>, id: u64)
    ensures
        ids_without(ids, id).no_duplicates(),
        forall|x: u64| #[trigger] ids_without(ids, id).contains(x) <==> ids.contains(x) && x != id,
    decreases ids.len(),
{
    if ids.len() > 0 {
        let front = ids.drop_last();
        lemma_ids_without(front, id);
        let f = ids_without(front, id);
        let all = ids_without(ids, id);
        assert forall|x: u64| ids.contains(x) <==> front.contains(x) || x == ids.last() by {
            if front.contains(x) {
                let i = choose|i: int| 0 <= i < front.len() && front[i] == x;
                assert(ids[i] == x);
            }
            assert(ids[ids.len() - 1] == ids.last());
            if ids.contains(x) && x != ids.last() {
                let i = choose|i: int| 0 <= i < ids.len() && ids[i] == x;
                assert(front[i] == x);
            }
        }
        if !(ids.last() == id || f.contains(ids.last())) {
            assert(all =~= f.push(ids.last()));
            assert forall|x: u64| #[trigger] all.contains(x) <==> f.contains(x) || x
                == ids.last() by {
                if f.contains(x) {
                    let i = choose|i: int| 0 <= i < f.len() && f[i] == x;
                    assert(all[i] == x);
                }
                assert(all[f.len() as int] == ids.last());
                if all.contains(x) && x != ids.last() {
                    let i = choose|i: int| 0 <= i < all.len() && all[i] == x;
                    assert(f[i] == x);
                }
            }
        }
    }
}

/// The voters that remain when one leaves.
pub fn remaining_voters(ids: &Vec<u64>, leaving: u64) -> (r: Vec<u64>)
    ensures
        r@ == ids_without(ids@, leaving),
{
    let mut r: Vec<u64> = Vec::new();
    let mut i: usize = 0;
    assert(r@ =~= ids_without(ids@.take(0), leaving));
    while i < ids.len()
        invariant
            i <= ids@.len(),
            r@ == ids_without(ids@.take(i as int), leaving),
        decreases ids@.len() - i,
    {
        assert(ids@.take(i + 1).drop_last() =~= ids@.take(i as int));
        let id: u64 = ids[i];
        if id != leaving && !holds_id(&r, id) {
            r.push(id);
        }
        i = i + 1;
    }
    assert(ids@.take(ids@.len() as int) =~= ids@);
    r
}

/// Why a request to leave is not carried out.
pub fn precheck_leave(m: &RaftMetrics, node_id: u64) -> (r: Option<MembershipReply>)
    ensures
        r.deep_view() == leave_precheck(m@, node_id),
{
    assert(m.voter_ids.deep_view() =~= m.voter_ids@);
    if !is_leader(m) {
        return Some(leave_reply(307, LeaveResult::NotLeader, find_leader_address(m)));
    }
    if !holds_id(&m.voter_ids, node_id) {
        return Some(leave_reply(200, LeaveResult::NotMember, None));
    }
    let others = remaining_voters(&m.voter_ids, node_id);
    proof {
        lemma_others_count(m.voter_ids@, node_id);
    }
    if others.len() == 0 {
        return Some(leave_reply(200, LeaveResult::LastVoter, None));
    }
    None
}

/// A member leaves others behind exactly when it is not alone.
proof fn lemma_others_count(ids: Seq<u64>, id: u64)
    requires
        ids.contains(id),
    ensures
        ids_without(ids, id).len() == 0 <==> ids.to_set().len() <= 1,
{
    lemma_ids_without(ids, id);
    let others = ids_without(ids, id);
    vstd::seq_lib::seq_to_set_is_finite(ids);
    let all = ids.to_set();
    assert(all.contains(id));
    if others.len() == 0 {
        assert(all =~= set![id]) by {
            assert forall|x: u64| all.contains(x) implies x == id by {
                if x != id {
                    assert(others.contains(x));
                }
            }
        }
    } else {
        let x = others[0];
        assert(others.contains(x));
        assert(all.contains(x));
        assert(set![id, x].subset_of(all));
        vstd::set_lib::lemma_len_subset(set![id, x], all);
        assert(set![id, x].len() == 2);
    }
}

/// A cluster never loses its last voter to a request to leave.
pub proof fn lemma_leave_keeps_a_voter(m: RaftMetricsView, node_id: u64)
    requires
        leave_precheck(m, node_id) is None,
    ensures
        ids_without(m.voter_ids, node_id).len() > 0,
{
    lemma_others_count(m.voter_ids, node_id);
}

// ── Changes of membership ────────────────────────────────────────────────

/// The first position from `from` on that holds no digit, or the end.
pub open spec fn digits_end(s: Seq<char>, from: int) -> int
    decreases s.len() - from,
{
    if from < s.len() && is_digit(s[from]) {
        digits_end(s, from + 1)
    } else {
        from
    }
}

/// A run of digits ends where it starts or later.
pub proof fn lemma_digits_end(s: Seq<char>, from: int)
    ensures
        from <= digits_end(s, from),
        from <= s.len() ==> digits_end(s, from) <= s.len(),
    decreases s.len() - from,
{
    if from < s.len() && is_digit(s[from]) {
        lemma_digits_end(s, from + 1);
    }
}

/// The numbers that follow `term: ` in a text from a position on, in order.
pub open spec fn terms_from(s: Seq<char>, from: int) -> Seq<u64>
    decreases s.len() - from,
{
    let p = first_occurrence(s, seq!['t', 'e', 'r', 'm', ':', ' '], from);
    if p < 0 {
        Seq::empty()
    } else {
        let end = digits_end(s, p + 6);
        proof {
            lemma_first_occurrence(s, seq!['t', 'e', 'r', 'm', ':', ' '], from);
            lemma_digits_end(s, p + 6);
        }
        let rest = terms_from(s, end);
        match parsed_u64(s.subrange(p + 6, end)) {
            Some(t) => seq![t] + rest,
            None => rest,
        }
    }
}

/// Whether an error says that a change of membership waits which was proposed
/// in an older term than the committed membership, so that it cannot be
/// committed any more.
pub open spec fn stale_config_change(error_msg: Seq<char>) -> bool {
    let terms = terms_from(error_msg, 0);
    &&& contains_text(error_msg, "already undergoing a configuration change"@)
    &&& terms.len() >= 2
    &&& terms[0] < terms[1]
}

/// The numbers that follow `term: ` in a text.
fn terms_in(chars: &Vec<char>) -> (r: Vec<u64>)
    ensures
        r@ == terms_from(chars@, 0),
{
    let mut wanted: Vec<char> = Vec::new();
    wanted.push('t');
    wanted.push('e');
    wanted.push('r');
    wanted.push('m');
    wanted.push(':');
    wanted.push(' ');
    assert(wanted@ =~= seq!['t', 'e', 'r', 'm', ':', ' ']);
    let mut terms: Vec<u64> = Vec::new();
    let n: usize = chars.len();
    let mut from: usize = 0;
    loop
        invariant
            n == chars@.len(),
            from <= n,
            wanted@ == seq!['t', 'e', 'r', 'm', ':', ' '],
            terms_from(chars@, 0) == terms@ + terms_from(chars@, from as int),
        decreases n - from,
    {
        let p: usize = match find_text(chars, &wanted, from) {
            Some(p) => p,
            None => {
                assert(terms@ =~= terms@ + terms_from(chars@, from as int));
                return terms;
            },
        };
        let start: usize = p + 6;
        let mut end: usize = start;
        while end < n && chars[end] >= '0' && chars[end] <= '9'
            invariant
                n == chars@.len(),
                start <= end <= n,
                digits_end(chars@, start as int) == digits_end(chars@, end as int),
            decreases n - end,
        {
            end = end + 1;
        }
        let ghost before = terms@;
        let ghost rest = terms_from(chars@, end as int);
        match parse_u64(chars, start, end) {
            Some(t) => {
                terms.push(t);
                assert(before + (seq![t] + rest) =~= before.push(t) + rest);
            },
            None => {},
        }
        from = end;
    }
}

/// Whether an error tells of a change of membership that can never be
/// committed.
pub fn is_stale_config_change(error_msg: &str) -> (r: bool)
    ensures
        r == stale_config_change(error_msg@),
{
    if !contains_str(error_msg, "already undergoing a configuration change") {
        return false;
    }
    let terms = terms_in(&chars_of(error_msg));
    terms.len() >= 2 && terms[0] < terms[1]
}

/// Whether the committed membership has moved on.
pub open spec fn log_advanced(previous: Option<u64>, current: Option<u64>) -> bool {
    match (previous, current) {
        (None, Some(_)) => true,
        (Some(p), Some(c)) => c > p,
        (_, None) => false,
    }
}

/// Whether the committed membership has moved on.
pub fn membership_log_advanced(previous: Option<u64>, current: Option<u64>) -> (r: bool)
    ensures
        r == log_advanced(previous, current),
{
    match current {
        None => false,
        Some(c) => match previous {
            None => true,
            Some(p) => c > p,
        },
    }
}

/// How often the committed membership is looked at after a change.
pub const COMMIT_CHECKS: u64 = 150;

/// How long the pause between two looks is.
pub const COMMIT_PAUSE_MS: u64 = 200;

/// How long a node waits after a change was committed.
pub const SETTLE_MS: u64 = 5_000;

/// What a node does that waits for a change of membership to be committed.
#[derive(Debug, Clone, Copy, PartialEq, Eq, Structural)]
pub enum CommitWait {
    /// The change was committed: wait so many milliseconds for it to settle.
    Settle(u64),
    /// Look again after so many milliseconds.
    LookAgain(u64),
    /// The change was not committed in time.
    GiveUp,
}

/// What a node does that waits for a change of membership to be committed, after so
/// many looks.
pub open spec fn commit_wait_of(
    looks: u64,
    previous: Option<u64>,
    current: Option<u64>,
) -> CommitWait {
    if looks >= COMMIT_CHECKS {
        CommitWait::GiveUp
    } else if log_advanced(previous, current) {
        CommitWait::Settle(SETTLE_MS)
    } else {
        CommitWait::LookAgain(COMMIT_PAUSE_MS)
    }
}

/// What a node does that waits for a change of membership to be committed: it looks
/// a number of times whether the committed membership has moved on.
pub fn commit_wait(looks: u64, previous: Option<u64>, current: Option<u64>) -> (r: CommitWait)
    ensures
        r == commit_wait_of(looks, previous, current),
{
    if looks >= COMMIT_CHECKS {
        CommitWait::GiveUp
    } else if membership_log_advanced(previous, current) {
        CommitWait::Settle(SETTLE_MS)
    } else {
        CommitWait::LookAgain(COMMIT_PAUSE_MS)
    }
}

/// How a proposed change of membership ended.
#[derive(Debug, PartialEq, Eq)]
pub enum ChangeOutcome {
    Changed,
    Failed(String),
    TimedOut,
}

/// What a `ChangeOutcome` says.
pub enum ChangeOutcomeView {
    Changed,
    Failed(Seq<char>),
    TimedOut,
}

impl View for ChangeOutcome {
    type V = ChangeOutcomeView;

    open spec fn view(&self) -> ChangeOutcomeView {
        match self {
            ChangeOutcome::Changed => ChangeOutcomeView::Changed,
            ChangeOutcome::Failed(e) => ChangeOutcomeView::Failed(e@),
            ChangeOutcome::TimedOut => ChangeOutcomeView::TimedOut,
        }
    }
}

/// The answer to a request to join, from how its three steps ended: adding the
/// node as a learner, making it a voter, and the commit of the new membership.
/// A step counts only where those before it succeeded.
pub open spec fn join_answer(
    learner_error: Option<Seq<char>>,
    voter_error: Option<Seq<char>>,
    committed: bool,
) -> ReplyView {
    if let Some(e) = learner_error {
        ReplyView::Message { status: 500, text: e }
    } else if let Some(e) = voter_error {
        if stale_config_change(e) {
            ReplyView::Join { status: 409, result: JoinResult::NotLeader, leader_addr: None }
        } else {
            ReplyView::Message { status: 500, text: e }
        }
    } else if !committed {
        ReplyView::Message {
            status: 503,
            text: "timed out waiting for membership change to commit"@,
        }
    } else {
        ReplyView::Join { status: 200, result: JoinResult::Joined, leader_addr: None }
    }
}

/// The answer where the node could not be added as a learner.
pub fn learner_failed(error: String) -> (r: MembershipReply)
    ensures
        forall|voter_error: Option<Seq<char>>, committed: bool|
            r@ == #[trigger] join_answer(Some(error@), voter_error, committed),
        r@ == (ReplyView::Message { status: 500, text: error@ }),
{
    message_reply(500, error)
}

/// The answer where the node could not be made a voter.
pub fn voter_failed(error: String) -> (r: MembershipReply)
    ensures
        forall|committed: bool| r@ == #[trigger] join_answer(None, Some(error@), committed),
        r@ == if stale_config_change(error@) {
            ReplyView::Join { status: 409, result: JoinResult::NotLeader, leader_addr: None }
        } else {
            ReplyView::Message { status: 500, text: error@ }
        },
{
    if is_stale_config_change(&error) {
        join_reply(409, JoinResult::NotLeader, None)
    } else {
        message_reply(500, error)
    }
}

/// The answer once the node was made a voter.
pub fn voter_added(committed: bool) -> (r: MembershipReply)
    ensures
        r@ == join_answer(None, None, committed),
{
    if committed {
        join_reply(200, JoinResult::Joined, None)
    } else {
        message_reply(503, "timed out waiting for membership change to commit".to_string())
    }
}

/// The answer to a request to leave, from how the change of the voters ended
/// and whether the new membership was committed.
pub open spec fn leave_answer(change: ChangeOutcomeView, committed: bool) -> ReplyView {
    match change {
        ChangeOutcomeView::Failed(e) => if stale_config_change(e) {
            ReplyView::Leave { status: 409, left: LeaveResult::NotLeader, leader_addr: None }
        } else {
            ReplyView::Message { status: 500, text: e }
        },
        ChangeOutcomeView::TimedOut => ReplyView::Message {
            status: 503,
            text: "timed out waiting for membership change"@,
        },
        ChangeOutcomeView::Changed => if committed {
            ReplyView::Leave { status: 200, left: LeaveResult::Left, leader_addr: None }
        } else {
            ReplyView::Message {
                status: 503,
                text: "timed out waiting for membership change to commit"@,
            }
        },
    }
}

/// The answer to a request to leave.
pub fn leave_outcome(change: ChangeOutcome, committed: bool) -> (r: MembershipReply)
    ensures
        r@ == leave_answer(change@, committed),
{
    match change {
        ChangeOutcome::Failed(e) => if is_stale_config_change(&e) {
            leave_reply(409, LeaveResult::NotLeader, None)
        } else {
            message_reply(500, e)
        },
        ChangeOutcome::TimedOut => message_reply(
            503,
            "timed out waiting for membership change".to_string(),
        ),
        ChangeOutcome::Changed => if committed {
            leave_reply(200, LeaveResult::Left, None)
        } else {
            message_reply(503, "timed out waiting for membership change to commit".to_string())
        },
    }
}

/// Whether two lists hold the same ids.
fn same_ids(a: &Vec<u64>, b: &Vec<u64>) -> (r: bool)
    ensures
        r == (a@.to_set() == b@.to_set()),
{
    let forward = all_held(a, b);
    let backward = all_held(b, a);
    proof {
        if forward && backward {
            assert(a@.to_set() =~= b@.to_set());
        } else if a@.to_set() == b@.to_set() {
            assert forall|x: u64| a@.contains(x) == b@.contains(x) by {
                assert(a@.to_set().contains(x) == b@.to_set().contains(x));
            }
        }
    }
    forward && backward
}

/// Whether every id of a list is in another.
fn all_held(a: &Vec<u64>, b: &Vec<u64>) -> (r: bool)
    ensures
        r == (forall|x: u64| a@.contains(x) ==> b@.contains(x)),
{
    let mut i: usize = 0;
    while i < a.len()
        invariant
            i <= a@.len(),
            forall|j: int| 0 <= j < i ==> b@.contains(#[trigger] a@[j]),
        decreases a@.len() - i,
    {
        if !holds_id(b, a[i]) {
            assert(a@.contains(a@[i as int]));
            return false;
        }
        i = i + 1;
    }
    true
}

/// Whether the voters are to be replaced: an empty set is refused, and the set
/// that is already in place needs no change.
pub fn replace_voters(current: &Vec<u64>, new_voters: &Vec<u64>) -> (r: Result<bool, String>)
    ensures
        match r {
            Ok(needed) => new_voters@.len() > 0 && needed == (current@.to_set()
                != new_voters@.to_set()),
            Err(e) => new_voters@.len() == 0 && e@ == "replacement voter set must not be empty"@,
        },
{
    if new_voters.len() == 0 {
        return Err("replacement voter set must not be empty".to_string());
    }
    Ok(!same_ids(current, new_voters))
}

/// How a replacement of the voters ended.
pub fn replaced_voters(change: ChangeOutcome, committed: bool) -> (r: Result<(), String>)
    ensures
        match r {
            Ok(_) => change@ is Changed && committed,
            Err(e) => match change@ {
                ChangeOutcomeView::Failed(error) => e@ == error,
                ChangeOutcomeView::TimedOut => e@
                    == "timed out waiting for replace-voters membership change"@,
                ChangeOutcomeView::Changed => !committed && e@
                    == "timed out waiting for replace-voters membership change to commit"@,
            },
        },
{
    match change {
        ChangeOutcome::Failed(e) => Err(e),
        ChangeOutcome::TimedOut => Err(
            "timed out waiting for replace-voters membership change".to_string(),
        ),
        ChangeOutcome::Changed => if committed {
            Ok(())
        } else {
            Err("timed out waiting for replace-voters membership change to commit".to_string())
        },
    }
}

} // verus!
