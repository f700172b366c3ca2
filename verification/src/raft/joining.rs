//! How a node finds the cluster, joins it, and makes sure that it still belongs
//! to it.
use super::membership::{
    ClusterStatus, ClusterStatusView, JoinResponse, JoinResult, NodeState, RaftMetrics,
};
use crate::string_map::{sorted_keys, StringMap};
use crate::text::{
    chars_of, concat3, concat5, decimal, decimal_text, holds_text, parse_u64, parsed_u64,
    rsplit_once, split_first, split_last, split_once, trim, trimmed, without_repeats,
};
use vstd::prelude::*;

verus! {

/// How many log entries a peer may lag behind the most recent one and still
/// count when the membership of this node is checked.
pub const AUTHORITATIVE_LOG_TOLERANCE: u64 = 10;

/// How long the first pause between two attempts to join is.
pub const FIRST_JOIN_DELAY_MS: u64 = 500;

/// How long a pause between two attempts to join can get.
pub const MAX_JOIN_DELAY_MS: u64 = 10_000;

// ── Addresses ────────────────────────────────────────────────────────────

/// The scheme that nodes talk to each other with.
pub open spec fn scheme(tls: bool) -> Seq<char> {
    if tls {
        "https"@
    } else {
        "http"@
    }
}

/// The scheme that nodes talk to each other with.
pub fn raft_scheme(tls: bool) -> (r: &'static str)
    ensures
        r@ == scheme(tls),
{
    if tls {
        "https"
    } else {
        "http"
    }
}

/// The address of a call on another node, such as `status`, `join` or `leave`.
pub fn membership_url(tls: bool, addr: &str, call: &str) -> (r: String)
    ensures
        r@ == scheme(tls) + "://"@ + addr@ + "/raft/"@ + call@,
{
    concat5(raft_scheme(tls), "://", addr, "/raft/", call)
}

/// The name under which peers are looked up.
pub fn discovery_lookup(dns_name: &str, port: u16) -> (r: String)
    ensures
        r@ == dns_name@ + ":"@ + decimal_text(port as nat),
{
    concat3(dns_name, ":", &decimal(port as u64))
}

/// The peers that a lookup found: their addresses, or the name itself where it
/// has to be kept and stands for at least one address.
pub fn discovered_targets(lookup: String, addrs: Vec<String>, preserve_dns_name: bool) -> (r: Vec<
    String,
>)
    ensures
        preserve_dns_name && addrs@.len() > 0 ==> r.deep_view() == seq![lookup@],
        !(preserve_dns_name && addrs@.len() > 0) ==> r == addrs,
{
    if preserve_dns_name && addrs.len() > 0 {
        let mut r: Vec<String> = Vec::new();
        r.push(lookup);
        assert(r.deep_view() =~= seq![lookup@]);
        r
    } else {
        addrs
    }
}

/// Whether a text is the address of a node other than this one.
pub open spec fn is_peer_address(
    nodes: Seq<(u64, Seq<char>)>,
    self_node_id: u64,
    addr: Seq<char>,
) -> bool {
    &&& trimmed(addr).len() > 0
    &&& exists|i: int|
        0 <= i < nodes.len() && (#[trigger] nodes[i]).0 != self_node_id && nodes[i].1 == addr
}

/// The addresses of the nodes other than this one that are not blank.
pub open spec fn peer_addresses(nodes: Seq<(u64, Seq<char>)>, self_node_id: u64) -> Set<Seq<char>> {
    Set::new(|addr: Seq<char>| is_peer_address(nodes, self_node_id, addr))
}

/// The addresses of the other nodes of a membership, each once and in ascending
/// order.
pub fn restored_membership_peer_targets(nodes: Vec<(u64, String)>, self_node_id: u64) -> (r: Vec<
    String,
>)
    ensures
        r.deep_view() == sorted_keys(peer_addresses(nodes.deep_view(), self_node_id)),
        forall|addr: Seq<char>| #[trigger]
            r.deep_view().contains(addr) <==> is_peer_address(
                nodes.deep_view(),
                self_node_id,
                addr,
            ),
{
    let ghost all = nodes.deep_view();
    let mut found: StringMap<bool> = StringMap::new();
    let mut i: usize = 0;
    assert(found@.dom() =~= peer_addresses(all.take(0), self_node_id));
    while i < nodes.len()
        invariant
            all == nodes.deep_view(),
            i <= nodes@.len(),
            found@.dom() == peer_addresses(all.take(i as int), self_node_id),
        decreases nodes@.len() - i,
    {
        let ghost before = found@.dom();
        let ghost addr = all[i as int].1;
        assert(all[i as int] == (nodes@[i as int].0, nodes@[i as int].1@));
        let keep = nodes[i].0 != self_node_id && trim(&nodes[i].1).as_str().unicode_len() > 0;
        if keep {
            found.insert(nodes[i].1.clone(), true);
        }
        proof {
            let now = all.take(i + 1);
            let earlier = all.take(i as int);
            assert forall|a: Seq<char>|
                peer_addresses(now, self_node_id).contains(a) <==> (before.contains(a) || (keep
                    && a == addr)) by {
                if before.contains(a) {
                    let k = choose|k: int|
                        0 <= k < earlier.len() && (#[trigger] earlier[k]).0 != self_node_id
                            && earlier[k].1 == a;
                    assert(now[k] == earlier[k]);
                }
                if keep && a == addr {
                    assert(now[i as int].0 != self_node_id && now[i as int].1 == a);
                }
                if is_peer_address(now, self_node_id, a) && !before.contains(a) {
                    let k = choose|k: int|
                        0 <= k < now.len() && (#[trigger] now[k]).0 != self_node_id && now[k].1
                            == a;
                    if k < i {
                        assert(earlier[k] == now[k]);
                        assert(is_peer_address(earlier, self_node_id, a));
                    }
                }
            }
            assert(found@.dom() =~= peer_addresses(now, self_node_id));
        }
        i = i + 1;
    }
    assert(all.take(all.len() as int) =~= all);
    let r = found.keys();
    assert forall|addr: Seq<char>| #[trigger]
        r.deep_view().contains(addr) <==> is_peer_address(all, self_node_id, addr) by {
        assert(found@.dom().contains(addr) <==> is_peer_address(all, self_node_id, addr));
    }
    r
}

/// The peers to ask about the membership: those of the restored membership, or
/// where there are none those that were discovered.
pub fn select_verification_peer_targets(
    restored_peers: Vec<String>,
    discovered_peers: Vec<String>,
) -> (r: Vec<String>)
    ensures
        r == if restored_peers@.len() == 0 {
            discovered_peers
        } else {
            restored_peers
        },
{
    if restored_peers.len() == 0 {
        discovered_peers
    } else {
        restored_peers
    }
}

/// The peers to ask for admission: the seeds first, then those that were
/// discovered, each once.
pub fn merge_seed_and_discovered_peers(
    seed_peers: &Vec<String>,
    discovered_peers: Vec<String>,
) -> (r: Vec<String>)
    ensures
        r.deep_view() == without_repeats(seed_peers.deep_view() + discovered_peers.deep_view()),
{
    let ghost seeds = seed_peers.deep_view();
    let ghost found = discovered_peers.deep_view();
    let ghost all = seeds + found;
    let mut r: Vec<String> = Vec::new();
    let mut i: usize = 0;
    assert(r.deep_view() =~= without_repeats(all.take(0)));
    while i < seed_peers.len()
        invariant
            seeds == seed_peers.deep_view(),
            all == seeds + found,
            i <= seed_peers@.len(),
            r.deep_view() == without_repeats(all.take(i as int)),
        decreases seed_peers@.len() - i,
    {
        add_new(&mut r, &seed_peers[i], Ghost(all), Ghost(i as int));
        i = i + 1;
    }
    let mut j: usize = 0;
    while j < discovered_peers.len()
        invariant
            found == discovered_peers.deep_view(),
            seeds.len() == seed_peers@.len(),
            all == seeds + found,
            j <= discovered_peers@.len(),
            r.deep_view() == without_repeats(all.take(seeds.len() + j)),
        decreases discovered_peers@.len() - j,
    {
        add_new(&mut r, &discovered_peers[j], Ghost(all), Ghost(seeds.len() + j));
        j = j + 1;
    }
    assert(all.take(all.len() as int) =~= all);
    r
}

/// Adds a text to a list where it is not in it yet.
fn add_new(list: &mut Vec<String>, s: &String, Ghost(all): Ghost<Seq<Seq<char>>>, Ghost(i): Ghost<
    int,
>)
    requires
        0 <= i < all.len(),
        all[i] == s@,
        old(list).deep_view() == without_repeats(all.take(i)),
    ensures
        final(list).deep_view() == without_repeats(all.take(i + 1)),
{
    assert(all.take(i + 1).drop_last() =~= all.take(i));
    if !holds_text(list, s) {
        let ghost before = list.deep_view();
        list.push(s.clone());
        assert(list.deep_view() =~= before.push(s@));
    }
}

/// The address of the first node of a set of numbered nodes, from the address
/// of any of them: `name-N.domain:port` gives `name-0.domain:port`.
pub open spec fn ordinal_zero_address(advertise_addr: Seq<char>) -> Option<Seq<char>> {
    match split_last(advertise_addr, ':') {
        Some((host, port)) => match split_first(host, '.') {
            Some((pod_name, suffix)) => match split_last(pod_name, '-') {
                Some((prefix, ordinal)) => if parsed_u64(ordinal) is Some {
                    Some(prefix + "-0."@ + suffix + ":"@ + port)
                } else {
                    None
                },
                None => None,
            },
            None => None,
        },
        None => None,
    }
}

/// The address of the first node of a set of numbered nodes.
pub fn ordinal_zero_peer_target(advertise_addr: &str) -> (r: Option<String>)
    ensures
        r.deep_view() == ordinal_zero_address(advertise_addr@),
{
    let (host, port) = match rsplit_once(advertise_addr, ':') {
        Some(parts) => parts,
        None => return None,
    };
    let (pod_name, suffix) = match split_once(&host, '.') {
        Some(parts) => parts,
        None => return None,
    };
    let (prefix, ordinal) = match rsplit_once(&pod_name, '-') {
        Some(parts) => parts,
        None => return None,
    };
    let digits = chars_of(&ordinal);
    assert(digits@.subrange(0, digits@.len() as int) =~= ordinal@);
    match parse_u64(&digits, 0, digits.len()) {
        Some(_) => Some(concat5(&prefix, "-0.", &suffix, ":", &port)),
        None => None,
    }
}

/// The peers that a node asks first: the first node of its set, unless it is
/// that node itself.
pub fn seed_peers(node_id: u64, advertise_addr: &str) -> (r: Vec<String>)
    ensures
        r.deep_view() == match ordinal_zero_address(advertise_addr@) {
            Some(addr) if node_id != 1 => seq![addr],
            _ => Seq::<Seq<char>>::empty(),
        },
{
    let mut r: Vec<String> = Vec::new();
    assert(r.deep_view() =~= Seq::<Seq<char>>::empty());
    if node_id != 1 {
        match ordinal_zero_peer_target(advertise_addr) {
            Some(addr) => {
                r.push(addr);
                assert(r.deep_view() =~= seq![addr@]);
            },
            None => {},
        }
    }
    r
}

// ── Joining ──────────────────────────────────────────────────────────────

/// Which address to send a request to join to, as a peer's status tells.
pub open spec fn join_target(peer: Seq<char>, status: ClusterStatusView) -> Option<Seq<char>> {
    if status.state is Leader {
        Some(peer)
    } else {
        status.leader_addr
    }
}

/// Which address to send a request to join to, as a peer's status tells: the
/// peer itself where it leads, else the leader that it names.
pub fn join_target_for_status<'a>(peer: &'a str, status: &'a ClusterStatus) -> (r: Option<&'a str>)
    ensures
        match r {
            Some(addr) => join_target(peer@, status@) == Some(addr@),
            None => join_target(peer@, status@) is None,
        },
{
    match status.state {
        NodeState::Leader => Some(peer),
        _ => match &status.leader_addr {
            Some(addr) => Some(addr.as_str()),
            None => None,
        },
    }
}

/// Which address to send a request to join to after a peer gave its status:
/// none where the peer is this node itself.
pub fn join_request_target<'a>(node_id: u64, peer: &'a str, status: &'a ClusterStatus) -> (r:
    Option<&'a str>)
    ensures
        match r {
            Some(addr) => status.node_id != node_id && join_target(peer@, status@) == Some(addr@),
            None => status.node_id == node_id || join_target(peer@, status@) is None,
        },
{
    if status.node_id == node_id {
        None
    } else {
        join_target_for_status(peer, status)
    }
}

/// What follows from the answer to a request to join.
#[derive(Debug, PartialEq, Eq)]
pub enum JoinStep {
    /// The node was admitted: see whether it has caught up.
    Confirm,
    /// Another node leads: ask that one.
    AskLeader(String),
    /// Go on with the next peer.
    NextPeer,
}

/// What follows from the answer to a request to join.
pub fn join_step(response: &JoinResponse) -> (r: JoinStep)
    ensures
        match r {
            JoinStep::Confirm => response.result is Joined || response.result is AlreadyMember,
            JoinStep::AskLeader(addr) => response.result is NotLeader
                && response.leader_addr.deep_view() == Some(addr@),
            JoinStep::NextPeer => response.result is NotLeader && response.leader_addr is None,
        },
{
    match response.result {
        JoinResult::Joined => JoinStep::Confirm,
        JoinResult::AlreadyMember => JoinStep::Confirm,
        JoinResult::NotLeader => match &response.leader_addr {
            Some(addr) => JoinStep::AskLeader(addr.clone()),
            None => JoinStep::NextPeer,
        },
    }
}

/// Whether the node that another named as leader admitted this node. A second
/// redirection is not followed.
pub fn leader_admitted(response: &JoinResponse) -> (r: bool)
    ensures
        r == (response.result is Joined || response.result is AlreadyMember),
{
    match response.result {
        JoinResult::NotLeader => false,
        _ => true,
    }
}

/// What a node does after it has asked all peers in vain.
#[derive(Debug, Clone, Copy, PartialEq, Eq, Structural)]
pub enum BootstrapStep {
    /// It belongs to a cluster already.
    AlreadyMember,
    /// It starts a cluster of its own.
    Initialize,
    /// It tries again later.
    Retry,
}

/// What a node does after it has asked all peers in vain: only the first node
/// may start a cluster, and only where it knows of no leader.
pub fn bootstrap_step(node_id: u64, current_leader: Option<u64>) -> (r: BootstrapStep)
    ensures
        r == (if node_id != 1 {
            BootstrapStep::Retry
        } else if current_leader is Some {
            BootstrapStep::AlreadyMember
        } else {
            BootstrapStep::Initialize
        }),
{
    if node_id != 1 {
        BootstrapStep::Retry
    } else if current_leader.is_some() {
        BootstrapStep::AlreadyMember
    } else {
        BootstrapStep::Initialize
    }
}

/// How long the pause after a pause is: twice as long, up to a limit.
pub fn next_join_delay(delay_ms: u64) -> (r: u64)
    requires
        delay_ms <= MAX_JOIN_DELAY_MS,
    ensures
        r == if delay_ms * 2 <= MAX_JOIN_DELAY_MS {
            delay_ms * 2
        } else {
            MAX_JOIN_DELAY_MS as int
        },
        delay_ms <= r <= MAX_JOIN_DELAY_MS,
{
    let doubled: u64 = delay_ms * 2;
    if doubled <= MAX_JOIN_DELAY_MS {
        doubled
    } else {
        MAX_JOIN_DELAY_MS
    }
}

/// The index of a log position, with 0 for none.
pub open spec fn log_or_zero(log: Option<u64>) -> u64 {
    match log {
        Some(index) => index,
        None => 0,
    }
}

/// Whether the local view confirms that the node has joined: it knows a leader,
/// the leader lists it, it is a voter, and its view of the membership is no
/// older than the leader's.
pub open spec fn confirms_join(
    current_leader: Option<u64>,
    voter_ids: Seq<u64>,
    local_log: Option<u64>,
    leader_log: Option<u64>,
    leader_has_node: bool,
    node_id: u64,
) -> bool {
    &&& current_leader is Some
    &&& leader_has_node
    &&& voter_ids.contains(node_id)
    &&& log_or_zero(local_log) >= log_or_zero(leader_log)
}

/// Whether the local view confirms that the node has joined.
pub fn local_membership_confirms_join(
    current_leader: Option<u64>,
    voter_ids: &[u64],
    local_membership_log_id: Option<u64>,
    leader_membership_log_id: Option<u64>,
    leader_has_node: bool,
    node_id: u64,
) -> (r: bool)
    ensures
        r == confirms_join(
            current_leader,
            voter_ids@,
            local_membership_log_id,
            leader_membership_log_id,
            leader_has_node,
            node_id,
        ),
{
    let mut is_voter = false;
    let mut i: usize = 0;
    while i < voter_ids.len()
        invariant
            i <= voter_ids@.len(),
            is_voter == voter_ids@.take(i as int).contains(node_id),
        decreases voter_ids@.len() - i,
    {
        let ghost now = voter_ids@.take(i + 1);
        let ghost earlier = voter_ids@.take(i as int);
        if voter_ids[i] == node_id {
            is_voter = true;
            assert(now[i as int] == node_id);
        } else {
            proof {
                if earlier.contains(node_id) {
                    let k = choose|k: int| 0 <= k < earlier.len() && earlier[k] == node_id;
                    assert(now[k] == node_id);
                }
                if now.contains(node_id) {
                    let k = choose|k: int| 0 <= k < now.len() && now[k] == node_id;
                    assert(earlier[k] == node_id);
                }
            }
        }
        i = i + 1;
    }
    assert(voter_ids@.take(voter_ids@.len() as int) =~= voter_ids@);
    current_leader.is_some() && leader_has_node && is_voter && or_zero(local_membership_log_id)
        >= or_zero(leader_membership_log_id)
}

/// The index of a log position, with 0 for none.
fn or_zero(log: Option<u64>) -> (r: u64)
    ensures
        r == log_or_zero(log),
{
    match log {
        Some(index) => index,
        None => 0,
    }
}

/// Whether a status lists a node among the voters.
pub open spec fn lists_voter(status: ClusterStatusView, node_id: u64) -> bool {
    exists|i: int| 0 <= i < status.voters.len() && (#[trigger] status.voters[i]).id == node_id
}

/// Whether a status lists a node among the voters.
fn has_voter(status: &ClusterStatus, node_id: u64) -> (r: bool)
    ensures
        r == lists_voter(status@, node_id),
{
    let ghost voters = status@.voters;
    let mut i: usize = 0;
    while i < status.voters.len()
        invariant
            voters == status.voters.deep_view(),
            voters == status@.voters,
            i <= status.voters@.len(),
            forall|j: int| 0 <= j < i ==> (#[trigger] voters[j]).id != node_id,
        decreases status.voters@.len() - i,
    {
        assert(voters[i as int] == status.voters@[i as int]@);
        if status.voters[i].id == node_id {
            assert(status@.voters[i as int].id == node_id);
            return true;
        }
        i = i + 1;
    }
    false
}

/// Whether a node's own view and the leader's status confirm that it has
/// joined.
pub fn local_join_is_confirmed(m: &RaftMetrics, leader_status: &ClusterStatus, node_id: u64) -> (r:
    bool)
    ensures
        r == confirms_join(
            m@.current_leader,
            m@.voter_ids,
            m@.membership_log,
            leader_status@.last_membership_log_id,
            lists_voter(leader_status@, node_id),
            node_id,
        ),
{
    assert(m.voter_ids.deep_view() =~= m.voter_ids@);
    local_membership_confirms_join(
        m.current_leader,
        m.voter_ids.as_slice(),
        m.membership_log,
        leader_status.last_membership_log_id,
        has_voter(leader_status, node_id),
        node_id,
    )
}

// ── Verification after a restart ─────────────────────────────────────────

/// What a restarted node does once the peers were asked.
#[derive(Debug, Clone, Copy, PartialEq, Eq, Structural)]
pub enum VerifyStep {
    /// No peer answered, and this is the first node: it starts the cluster anew.
    Bootstrap,
    /// No peer answered.
    NoPeers,
    /// The peers confirm that this node is a voter.
    Confirmed,
    /// The node has to join again.
    Rejoin,
}

/// Whether any answer came from another node.
pub open spec fn any_peer(statuses: Seq<ClusterStatusView>, node_id: u64) -> bool {
    exists|i: int| 0 <= i < statuses.len() && (#[trigger] statuses[i]).node_id != node_id
}

/// The highest log index that another node has applied, with 0 for none.
pub open spec fn max_applied(statuses: Seq<ClusterStatusView>, node_id: u64) -> u64
    decreases statuses.len(),
{
    if statuses.len() == 0 {
        0
    } else {
        let front = max_applied(statuses.drop_last(), node_id);
        let here = log_or_zero(statuses.last().last_applied_log);
        if statuses.last().node_id != node_id && here > front {
            here
        } else {
            front
        }
    }
}

/// Whether an answer counts: it comes from another node, which is close enough
/// to the most recent one.
pub open spec fn authoritative(status: ClusterStatusView, node_id: u64, newest: u64) -> bool {
    &&& status.node_id != node_id
    &&& log_or_zero(status.last_applied_log) + AUTHORITATIVE_LOG_TOLERANCE >= newest
}

/// How many answers count.
pub open spec fn authoritative_count(
    statuses: Seq<ClusterStatusView>,
    node_id: u64,
    newest: u64,
) -> nat
    decreases statuses.len(),
{
    if statuses.len() == 0 {
        0
    } else {
        authoritative_count(statuses.drop_last(), node_id, newest) + if authoritative(
            statuses.last(),
            node_id,
            newest,
        ) {
            1nat
        } else {
            0nat
        }
    }
}

/// How many answers that count list this node as a voter.
pub open spec fn confirming_count(
    statuses: Seq<ClusterStatusView>,
    node_id: u64,
    newest: u64,
) -> nat
    decreases statuses.len(),
{
    if statuses.len() == 0 {
        0
    } else {
        confirming_count(statuses.drop_last(), node_id, newest) + if authoritative(
            statuses.last(),
            node_id,
            newest,
        ) && lists_voter(statuses.last(), node_id) {
            1nat
        } else {
            0nat
        }
    }
}

/// What a restarted node does: it is confirmed by a strict majority of the
/// answers that count, and else joins again.
pub open spec fn verification(statuses: Seq<ClusterStatusView>, node_id: u64) -> VerifyStep {
    let newest = max_applied(statuses, node_id);
    if !any_peer(statuses, node_id) {
        if node_id == 1 {
            VerifyStep::Bootstrap
        } else {
            VerifyStep::NoPeers
        }
    } else if 2 * confirming_count(statuses, node_id, newest) > authoritative_count(
        statuses,
        node_id,
        newest,
    ) {
        VerifyStep::Confirmed
    } else {
        VerifyStep::Rejoin
    }
}

/// What a restarted node does once the peers were asked.
pub fn verify_or_rejoin(node_id: u64, statuses: &Vec<ClusterStatus>) -> (r: VerifyStep)
    ensures
        r == verification(statuses.deep_view(), node_id),
{
    let ghost all = statuses.deep_view();
    let n: usize = statuses.len();
    let mut newest: u64 = 0;
    let mut found = false;
    let mut i: usize = 0;
    while i < n
        invariant
            all == statuses.deep_view(),
            n == statuses@.len(),
            i <= n,
            newest == max_applied(all.take(i as int), node_id),
            found == exists|j: int| 0 <= j < i && (#[trigger] all[j]).node_id != node_id,
        decreases n - i,
    {
        assert(all.take(i + 1).drop_last() =~= all.take(i as int));
        assert(all[i as int] == statuses@[i as int]@);
        if statuses[i].node_id != node_id {
            assert(all[i as int].node_id != node_id);
            found = true;
            let here: u64 = or_zero(statuses[i].last_applied_log);
            if here > newest {
                newest = here;
            }
        }
        i = i + 1;
    }
    assert(all.take(n as int) =~= all);
    if !found {
        return if node_id == 1 {
            VerifyStep::Bootstrap
        } else {
            VerifyStep::NoPeers
        };
    }
    let floor: u64 = newest.saturating_sub(AUTHORITATIVE_LOG_TOLERANCE);
    let mut total: usize = 0;
    let mut confirming: usize = 0;
    let mut k: usize = 0;
    while k < n
        invariant
            all == statuses.deep_view(),
            n == statuses@.len(),
            k <= n,
            floor == if newest >= AUTHORITATIVE_LOG_TOLERANCE {
                newest - AUTHORITATIVE_LOG_TOLERANCE
            } else {
                0
            },
            confirming <= total <= k,
            total == authoritative_count(all.take(k as int), node_id, newest),
            confirming == confirming_count(all.take(k as int), node_id, newest),
        decreases n - k,
    {
        assert(all.take(k + 1).drop_last() =~= all.take(k as int));
        assert(all.take(k + 1).last() == statuses@[k as int]@);
        if statuses[k].node_id != node_id && or_zero(statuses[k].last_applied_log) >= floor {
            total = total + 1;
            if has_voter(&statuses[k], node_id) {
                confirming = confirming + 1;
            }
        }
        k = k + 1;
    }
    assert(all.take(n as int) =~= all);
    if confirming > total / 2 {
        VerifyStep::Confirmed
    } else {
        VerifyStep::Rejoin
    }
}

/// Where another node answered, at least one answer counts.
pub proof fn lemma_some_answer_counts(statuses: Seq<ClusterStatusView>, node_id: u64)
    requires
        any_peer(statuses, node_id),
    ensures
        authoritative_count(statuses, node_id, max_applied(statuses, node_id)) > 0,
{
    let newest = max_applied(statuses, node_id);
    let i = lemma_newest_peer(statuses, node_id);
    lemma_counted(statuses, node_id, newest, i);
}

/// The most recent of the other nodes.
pub proof fn lemma_newest_peer(statuses: Seq<ClusterStatusView>, node_id: u64) -> (i: int)
    requires
        any_peer(statuses, node_id),
    ensures
        0 <= i < statuses.len(),
        statuses[i].node_id != node_id,
        log_or_zero(statuses[i].last_applied_log) == max_applied(statuses, node_id),
    decreases statuses.len(),
{
    let front = statuses.drop_last();
    let last = statuses.len() - 1;
    let w = choose|i: int| 0 <= i < statuses.len() && (#[trigger] statuses[i]).node_id != node_id;
    if any_peer(front, node_id) {
        let p = lemma_newest_peer(front, node_id);
        if statuses.last().node_id != node_id && log_or_zero(statuses.last().last_applied_log)
            > max_applied(front, node_id) {
            last
        } else {
            p
        }
    } else {
        if w < last {
            assert(front[w].node_id != node_id);
        }
        lemma_no_peer(front, node_id);
        last
    }
}

/// Without other nodes nothing was applied by any.
proof fn lemma_no_peer(statuses: Seq<ClusterStatusView>, node_id: u64)
    requires
        !any_peer(statuses, node_id),
    ensures
        max_applied(statuses, node_id) == 0,
    decreases statuses.len(),
{
    if statuses.len() > 0 {
        let front = statuses.drop_last();
        assert(statuses[statuses.len() - 1] == statuses.last());
        assert forall|i: int| 0 <= i < front.len() implies (#[trigger] front[i]).node_id
            == node_id by {
            assert(front[i] == statuses[i]);
        }
        lemma_no_peer(front, node_id);
    }
}

/// An answer that counts is counted.
proof fn lemma_counted(statuses: Seq<ClusterStatusView>, node_id: u64, newest: u64, i: int)
    requires
        0 <= i < statuses.len(),
        authoritative(statuses[i], node_id, newest),
    ensures
        authoritative_count(statuses, node_id, newest) > 0,
    decreases statuses.len(),
{
    if i < statuses.len() - 1 {
        assert(statuses.drop_last()[i] == statuses[i]);
        lemma_counted(statuses.drop_last(), node_id, newest, i);
    }
}

/// A node is confirmed only where more than half of the answers that count list
/// it as a voter.
pub proof fn lemma_confirmed_by_majority(statuses: Seq<ClusterStatusView>, node_id: u64)
    ensures
        verification(statuses, node_id) is Confirmed <==> any_peer(statuses, node_id) && 2
            * confirming_count(statuses, node_id, max_applied(statuses, node_id))
            > authoritative_count(statuses, node_id, max_applied(statuses, node_id)),
{
}

/// A peer that lags too far behind the others has no say: with its answer or
/// without it, the outcome is the same.
pub proof fn lemma_stale_peer_has_no_say(
    statuses: Seq<ClusterStatusView>,
    node_id: u64,
    stale: ClusterStatusView,
)
    requires
        any_peer(statuses, node_id),
        log_or_zero(stale.last_applied_log) + AUTHORITATIVE_LOG_TOLERANCE < max_applied(
            statuses,
            node_id,
        ),
    ensures
        verification(statuses.push(stale), node_id) == verification(statuses, node_id),
{
    let more = statuses.push(stale);
    assert(more.drop_last() =~= statuses);
    let w = choose|i: int| 0 <= i < statuses.len() && (#[trigger] statuses[i]).node_id != node_id;
    assert(more[w].node_id != node_id);
}

/// What the node says of itself does not count.
pub proof fn lemma_own_status_has_no_say(
    statuses: Seq<ClusterStatusView>,
    node_id: u64,
    own: ClusterStatusView,
)
    requires
        own.node_id == node_id,
    ensures
        verification(statuses.push(own), node_id) == verification(statuses, node_id),
{
    let more = statuses.push(own);
    assert(more.drop_last() =~= statuses);
    if any_peer(statuses, node_id) {
        let w = choose|i: int|
            0 <= i < statuses.len() && (#[trigger] statuses[i]).node_id != node_id;
        assert(more[w].node_id != node_id);
    }
    if any_peer(more, node_id) {
        let w = choose|i: int| 0 <= i < more.len() && (#[trigger] more[i]).node_id != node_id;
        assert(statuses[w].node_id != node_id);
    }
}

} // verus!
