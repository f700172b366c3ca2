//! What a node does that joins, told by what it was told.
use super::join_loop::{event_of, JoinAction, JoinEvent, JoinEventView, JoinLoop};
use super::joining::{
    any_peer, authoritative, authoritative_count, bootstrap_step, confirming_count,
    discovered_targets, discovery_lookup, join_request_target, join_step, join_target_for_status,
    leader_admitted, lemma_newest_peer, lists_voter, local_join_is_confirmed,
    local_membership_confirms_join, log_or_zero, max_applied, membership_url,
    merge_seed_and_discovered_peers, next_join_delay, ordinal_zero_peer_target, peer_addresses,
    raft_scheme, restored_membership_peer_targets, seed_peers, select_verification_peer_targets,
    verify_or_rejoin, BootstrapStep, JoinStep, VerifyStep,
};
use super::membership::{
    ClusterStatus, ClusterStatusView, JoinResponse, JoinResult, NodeState, RaftMetrics,
};
use crate::string_map::{ascending, lemma_finite_listing, sorted_keys};
use crate::text::{
    decimal_text, is_digit, lemma_decimal_is_read_back, lemma_last_position_is,
    lemma_position_is, lemma_without_repeats, trimmed, without_repeats,
};
use vstd::prelude::*;

verus! {

// ── Addresses ────────────────────────────────────────────────────────────

/// Nodes call each other over TLS where it is on, and only there.
pub proof fn lemma_membership_url(tls: bool, addr: &str, call: &str, r: String)
    requires
        call_ensures(membership_url, (tls, addr, call), r),
    ensures
        tls ==> r@ == "https://"@ + addr@ + "/raft/"@ + call@,
        !tls ==> r@ == "http://"@ + addr@ + "/raft/"@ + call@,
{
    reveal_strlit("https");
    reveal_strlit("http");
    reveal_strlit("://");
    reveal_strlit("https://");
    reveal_strlit("http://");
    assert("https://"@ =~= "https"@ + "://"@);
    assert("http://"@ =~= "http"@ + "://"@);
}

/// A lookup gives the addresses that it found. Where the name is to be kept it stands for
/// them, and only where there are any.
pub proof fn lemma_lookup_gives_peers(
    lookup: String,
    addrs: Vec<String>,
    preserve_dns_name: bool,
    r: Vec<String>,
)
    requires
        call_ensures(discovered_targets, (lookup, addrs, preserve_dns_name), r),
    ensures
        r@.len() == 0 <==> addrs@.len() == 0,
        !preserve_dns_name ==> r == addrs,
        preserve_dns_name && addrs@.len() > 0 ==> r@.len() == 1 && r@[0]@ == lookup@,
{
    assert(r.deep_view().len() == r@.len());
    if preserve_dns_name && addrs@.len() > 0 {
        assert(r.deep_view()[0] == r@[0]@);
    }
}

/// The peers of a restored membership are the addresses of its nodes, but for this one
/// and for those that are blank.
pub proof fn lemma_restored_peers(
    nodes: Vec<(u64, String)>,
    self_node_id: u64,
    r: Vec<String>,
    addr: Seq<char>,
)
    requires
        call_ensures(restored_membership_peer_targets, (nodes, self_node_id), r),
    ensures
        r.deep_view().contains(addr) <==> trimmed(addr).len() > 0 && exists|i: int|
            0 <= i < nodes@.len() && (#[trigger] nodes@[i]).0 != self_node_id && nodes@[i].1@
                == addr,
        ascending(r.deep_view()),
{
    let all = nodes.deep_view();
    let set = peer_addresses(all, self_node_id);
    assert(r.deep_view() == sorted_keys(set));
    lemma_peer_addresses_are_finite(all, self_node_id);
    lemma_finite_listing(set);
    assert(r.deep_view().contains(addr) <==> set.contains(addr));
    if set.contains(addr) {
        let i = choose|i: int|
            0 <= i < all.len() && (#[trigger] all[i]).0 != self_node_id && all[i].1 == addr;
        assert(all[i] == (nodes@[i].0, nodes@[i].1@));
    }
    assert forall|i: int|
        0 <= i < nodes@.len() && (#[trigger] nodes@[i]).0 != self_node_id && nodes@[i].1@ == addr
            && trimmed(addr).len() > 0 implies set.contains(addr) by {
        assert(all[i] == (nodes@[i].0, nodes@[i].1@));
    }
}

proof fn lemma_peer_addresses_are_finite(nodes: Seq<(u64, Seq<char>)>, self_node_id: u64)
    ensures
        peer_addresses(nodes, self_node_id).finite(),
{
    let set = peer_addresses(nodes, self_node_id);
    let texts = nodes.map_values(|n: (u64, Seq<char>)| n.1);
    vstd::seq_lib::seq_to_set_is_finite(texts);
    assert forall|addr: Seq<char>| set.contains(addr) implies texts.to_set().contains(addr) by {
        let i = choose|i: int|
            0 <= i < nodes.len() && (#[trigger] nodes[i]).0 != self_node_id && nodes[i].1 == addr;
        assert(texts[i] == addr);
    }
    vstd::set_lib::lemma_len_subset(set, texts.to_set());
}

/// The membership is verified with the peers that it names, and with those that were
/// discovered only where it names none.
pub proof fn lemma_verification_peers(
    restored: Vec<String>,
    discovered: Vec<String>,
    r: Vec<String>,
)
    requires
        call_ensures(select_verification_peer_targets, (restored, discovered), r),
    ensures
        restored@.len() > 0 ==> r == restored,
        restored@.len() == 0 ==> r == discovered,
{
}

/// The peers that are asked are the seeds and those that were discovered, each once, and
/// the seeds come first.
pub proof fn lemma_merged_peers(
    seeds: &Vec<String>,
    discovered: Vec<String>,
    r: Vec<String>,
    peer: Seq<char>,
)
    requires
        call_ensures(merge_seed_and_discovered_peers, (seeds, discovered), r),
    ensures
        r.deep_view().contains(peer) <==> seeds.deep_view().contains(peer)
            || discovered.deep_view().contains(peer),
        r.deep_view().no_duplicates(),
        seeds.deep_view().no_duplicates() ==> seeds.deep_view().is_prefix_of(r.deep_view()),
{
    let a = seeds.deep_view();
    let b = discovered.deep_view();
    let all = a + b;
    lemma_without_repeats(all);
    if a.contains(peer) {
        let i = choose|i: int| 0 <= i < a.len() && a[i] == peer;
        assert(all[i] == peer);
    }
    if b.contains(peer) {
        let i = choose|i: int| 0 <= i < b.len() && b[i] == peer;
        assert(all[a.len() + i] == peer);
    }
    if all.contains(peer) {
        let i = choose|i: int| 0 <= i < all.len() && all[i] == peer;
        if i < a.len() {
            assert(a[i] == peer);
        } else {
            assert(b[i - a.len()] == peer);
        }
    }
    if a.no_duplicates() {
        lemma_first_texts_stay(a, b);
    }
}

proof fn lemma_first_texts_stay(a: Seq<Seq<char>>, b: Seq<Seq<char>>)
    requires
        a.no_duplicates(),
    ensures
        a.is_prefix_of(without_repeats(a + b)),
    decreases a.len() + b.len(),
{
    if b.len() > 0 {
        lemma_first_texts_stay(a, b.drop_last());
        assert((a + b).drop_last() =~= a + b.drop_last());
        let front = without_repeats(a + b.drop_last());
        let all = without_repeats(a + b);
        assert(a =~= all.take(a.len() as int));
    } else if a.len() > 0 {
        assert(a + b =~= a);
        lemma_first_texts_stay(a.drop_last(), b);
        assert(a.drop_last() + b =~= a.drop_last());
        lemma_without_repeats(a.drop_last());
        lemma_distinct_stay(a);
    } else {
        assert(a =~= without_repeats(a + b).take(0));
    }
}

proof fn lemma_distinct_stay(a: Seq<Seq<char>>)
    requires
        a.no_duplicates(),
    ensures
        without_repeats(a) == a,
    decreases a.len(),
{
    if a.len() > 0 {
        let front = a.drop_last();
        lemma_distinct_stay(front);
        if front.contains(a.last()) {
            let i = choose|i: int| 0 <= i < front.len() && front[i] == a.last();
            assert(a[i] == a[a.len() - 1]);
        }
        assert(front.push(a.last()) =~= a);
    } else {
        assert(without_repeats(a) =~= a);
    }
}

/// From the address of a numbered node follows that of the first one: the number is
/// replaced by zero, and all else stays.
pub proof fn lemma_first_node_of_a_set(
    advertise_addr: &str,
    r: Option<String>,
    name: Seq<char>,
    number: u64,
    domain: Seq<char>,
    port: Seq<char>,
)
    requires
        call_ensures(ordinal_zero_peer_target, (advertise_addr,), r),
        advertise_addr@ == name + seq!['-'] + decimal_text(number as nat) + seq!['.'] + domain
            + seq![':'] + port,
        !name.contains('.'),
        !port.contains(':'),
    ensures
        r matches Some(addr) && addr@ == name + "-0."@ + domain + ":"@ + port,
{
    let digits = decimal_text(number as nat);
    lemma_decimal_is_read_back(number);
    let pod = name + seq!['-'] + digits;
    let host = pod + seq!['.'] + domain;
    let s = advertise_addr@;
    assert(s =~= host + seq![':'] + port);
    assert forall|i: int| host.len() < i < s.len() implies #[trigger] s[i] != ':' by {
        assert(s[i] == port[i - host.len() - 1]);
        assert(port.contains(port[i - host.len() - 1]));
    }
    lemma_last_position_is(s, ':', host.len() as int);
    assert(s.take(host.len() as int) =~= host);
    assert(s.skip(host.len() as int + 1) =~= port);
    assert forall|i: int| 0 <= i < pod.len() implies #[trigger] host[i] != '.' by {
        assert(host[i] == pod[i]);
        if i < name.len() {
            assert(pod[i] == name[i]);
            assert(name.contains(name[i]));
        } else if i > name.len() {
            assert(pod[i] == digits[i - name.len() - 1]);
            assert(is_digit(digits[i - name.len() - 1]));
        }
    }
    lemma_position_is(host, '.', pod.len() as int);
    assert(host.take(pod.len() as int) =~= pod);
    assert(host.skip(pod.len() as int + 1) =~= domain);
    assert forall|i: int| name.len() < i < pod.len() implies #[trigger] pod[i] != '-' by {
        assert(pod[i] == digits[i - name.len() - 1]);
        assert(is_digit(digits[i - name.len() - 1]));
    }
    lemma_last_position_is(pod, '-', name.len() as int);
    assert(pod.take(name.len() as int) =~= name);
    assert(pod.skip(name.len() as int + 1) =~= digits);
    assert(r.deep_view() == Some(name + "-0."@ + domain + ":"@ + port));
}

/// The first node asks nobody first; every other asks the first one.
pub proof fn lemma_seeds(node_id: u64, advertise_addr: &str, r: Vec<String>, zero: Option<String>)
    requires
        call_ensures(seed_peers, (node_id, advertise_addr), r),
        call_ensures(ordinal_zero_peer_target, (advertise_addr,), zero),
    ensures
        node_id == 1 ==> r@.len() == 0,
        node_id != 1 && zero is Some ==> r@.len() == 1 && r@[0]@ == zero->0@,
        zero is None ==> r@.len() == 0,
{
    assert(r.deep_view().len() == r@.len());
    if node_id != 1 && zero is Some {
        assert(zero.deep_view() == Some(zero->0@));
        assert(r.deep_view()[0] == r@[0]@);
    }
}

// ── Joining ──────────────────────────────────────────────────────────────

/// A request to join goes to the peer where it leads, and else to the leader that the
/// peer names. A node never asks itself.
pub proof fn lemma_whom_to_ask<'a>(
    node_id: u64,
    peer: &'a str,
    status: &'a ClusterStatus,
    r: Option<&'a str>,
    named: Option<&'a str>,
)
    requires
        call_ensures(join_request_target, (node_id, peer, status), r),
        call_ensures(join_target_for_status, (peer, status), named),
    ensures
        r is Some <==> status.node_id != node_id && (status.state == NodeState::Leader
            || status.leader_addr is Some),
        r matches Some(addr) ==> addr@ == if status.state == NodeState::Leader {
            peer@
        } else {
            status.leader_addr->0@
        },
        named is Some <==> status.state == NodeState::Leader || status.leader_addr is Some,
        named matches Some(addr) ==> addr@ == if status.state == NodeState::Leader {
            peer@
        } else {
            status.leader_addr->0@
        },
{
    assert(status@.leader_addr is Some <==> status.leader_addr is Some);
}

/// A node that was let in, now or before, sees whether it has caught up; one that was
/// sent on asks the leader that it was sent to, where one was named.
pub proof fn lemma_after_an_answer(response: &JoinResponse, r: JoinStep, admitted: bool)
    requires
        call_ensures(join_step, (response,), r),
        call_ensures(leader_admitted, (response,), admitted),
    ensures
        r is Confirm <==> response.result != JoinResult::NotLeader,
        r is AskLeader <==> response.result == JoinResult::NotLeader && response.leader_addr is Some,
        r matches JoinStep::AskLeader(addr) ==> addr@ == response.leader_addr->0@,
        admitted <==> response.result != JoinResult::NotLeader,
{
    assert(response.leader_addr.deep_view() is Some <==> response.leader_addr is Some);
}

/// Only the first node starts a cluster, and only where it knows of no leader.
pub proof fn lemma_who_starts_a_cluster(
    node_id: u64,
    current_leader: Option<u64>,
    r: BootstrapStep,
)
    requires
        call_ensures(bootstrap_step, (node_id, current_leader), r),
    ensures
        r is Initialize <==> node_id == 1 && current_leader is None,
        r is AlreadyMember <==> node_id == 1 && current_leader is Some,
{
}

/// A pause is twice as long as the one before, up to ten seconds.
pub proof fn lemma_pauses_grow(delay_ms: u64, r: u64)
    requires
        delay_ms <= 10000,
        call_ensures(next_join_delay, (delay_ms,), r),
    ensures
        r <= 10000,
        delay_ms <= 5000 ==> r == 2 * delay_ms,
        delay_ms > 5000 ==> r == 10000,
{
}

/// A node has joined exactly where it knows of a leader and is a voter, the leader lists
/// it as a voter, and it knows of no older membership than the leader.
pub proof fn lemma_when_a_node_has_joined(
    m: &RaftMetrics,
    leader_status: &ClusterStatus,
    node_id: u64,
    r: bool,
)
    requires
        call_ensures(local_join_is_confirmed, (m, leader_status, node_id), r),
    ensures
        r <==> {
            &&& m.current_leader is Some
            &&& m.voter_ids@.contains(node_id)
            &&& exists|i: int|
                0 <= i < leader_status.voters@.len() && (#[trigger] leader_status.voters@[i]).id
                    == node_id
            &&& leader_status.last_membership_log_id matches Some(theirs) ==> theirs == 0
                || (m.membership_log is Some && m.membership_log->0 >= theirs)
        },
{
    assert(m.voter_ids.deep_view() =~= m.voter_ids@);
    let voters = leader_status@.voters;
    assert(voters == leader_status.voters.deep_view());
    assert(voters.len() == leader_status.voters@.len());
    if lists_voter(leader_status@, node_id) {
        let i = choose|i: int| 0 <= i < voters.len() && (#[trigger] voters[i]).id == node_id;
        assert(voters[i] == leader_status.voters@[i]@);
        assert(leader_status.voters@[i].id == node_id);
    }
    assert forall|i: int|
        0 <= i < leader_status.voters@.len() && (#[trigger] leader_status.voters@[i]).id
            == node_id implies lists_voter(leader_status@, node_id) by {
        assert(voters[i] == leader_status.voters@[i]@);
    }
}

// ── Verification after a restart ─────────────────────────────────────────

/// How far a node has applied the log.
pub open spec fn applied(status: ClusterStatusView) -> int {
    match status.last_applied_log {
        Some(index) => index as int,
        None => 0,
    }
}

/// Whether an answer counts: it comes from another node, and no other node is more than
/// ten entries ahead of it.
pub open spec fn counts(statuses: Seq<ClusterStatusView>, node_id: u64, i: int) -> bool {
    &&& 0 <= i < statuses.len()
    &&& statuses[i].node_id != node_id
    &&& forall|j: int|
        0 <= j < statuses.len() && (#[trigger] statuses[j]).node_id != node_id ==> applied(
            statuses[j],
        ) <= applied(statuses[i]) + 10
}

/// Whether an answer counts and lists the node as a voter.
pub open spec fn speaks_for(statuses: Seq<ClusterStatusView>, node_id: u64, i: int) -> bool {
    counts(statuses, node_id, i) && exists|k: int|
        0 <= k < statuses[i].voters.len() && (#[trigger] statuses[i].voters[k]).id == node_id
}

proof fn lemma_max_bounds(statuses: Seq<ClusterStatusView>, node_id: u64)
    ensures
        forall|j: int|
            0 <= j < statuses.len() && (#[trigger] statuses[j]).node_id != node_id ==> applied(
                statuses[j],
            ) <= max_applied(statuses, node_id),
    decreases statuses.len(),
{
    if statuses.len() > 0 {
        let front = statuses.drop_last();
        lemma_max_bounds(front, node_id);
        assert forall|j: int|
            0 <= j < statuses.len() && (#[trigger] statuses[j]).node_id != node_id implies applied(
            statuses[j],
        ) <= max_applied(statuses, node_id) by {
            if j < front.len() {
                assert(front[j] == statuses[j]);
            }
        }
    }
}

/// The positions of a list up to one for which something holds.
spec fn places(n: int, holds: spec_fn(int) -> bool) -> Set<int> {
    Set::new(|i: int| 0 <= i < n && holds(i))
}

proof fn lemma_places_step(n: int, holds: spec_fn(int) -> bool)
    requires
        n >= 0,
        places(n, holds).finite(),
    ensures
        places(n + 1, holds).finite(),
        places(n + 1, holds).len() == places(n, holds).len() + if holds(n) {
            1int
        } else {
            0int
        },
{
    if holds(n) {
        assert(places(n + 1, holds) =~= places(n, holds).insert(n));
    } else {
        assert(places(n + 1, holds) =~= places(n, holds));
    }
}

proof fn lemma_counts_are_sizes(
    statuses: Seq<ClusterStatusView>,
    node_id: u64,
    newest: u64,
    n: int,
)
    requires
        0 <= n <= statuses.len(),
    ensures
        ({
            let said = places(n, |i: int| authoritative(statuses[i], node_id, newest));
            let ayes = places(
                n,
                |i: int|
                    authoritative(statuses[i], node_id, newest) && lists_voter(
                        statuses[i],
                        node_id,
                    ),
            );
            &&& said.finite() && ayes.finite()
            &&& said.len() == authoritative_count(statuses.take(n), node_id, newest)
            &&& ayes.len() == confirming_count(statuses.take(n), node_id, newest)
        }),
    decreases n,
{
    let f = |i: int| authoritative(statuses[i], node_id, newest);
    let g = |i: int|
        authoritative(statuses[i], node_id, newest) && lists_voter(statuses[i], node_id);
    if n == 0 {
        assert(places(0, f) =~= Set::empty());
        assert(places(0, g) =~= Set::empty());
    } else {
        lemma_counts_are_sizes(statuses, node_id, newest, n - 1);
        assert(statuses.take(n).drop_last() =~= statuses.take(n - 1));
        assert(statuses.take(n).last() == statuses[n - 1]);
        lemma_places_step(n - 1, f);
        lemma_places_step(n - 1, g);
    }
}

/// A restarted node to which no other node answers starts the cluster anew where it is
/// the first, and else has no peers. Where others answer, it is confirmed exactly where
/// more than half of the answers that count list it as a voter, and else joins again.
pub proof fn lemma_a_majority_confirms(node_id: u64, statuses: &Vec<ClusterStatus>, r: VerifyStep)
    requires
        call_ensures(verify_or_rejoin, (node_id, statuses), r),
    ensures
        ({
            let all = statuses.deep_view();
            let others = exists|i: int|
                0 <= i < all.len() && (#[trigger] all[i]).node_id != node_id;
            let said = Set::new(|i: int| counts(all, node_id, i));
            let ayes = Set::new(|i: int| speaks_for(all, node_id, i));
            &&& r is Bootstrap <==> !others && node_id == 1
            &&& r is NoPeers <==> !others && node_id != 1
            &&& r is Confirmed <==> others && 2 * ayes.len() > said.len()
            &&& r is Rejoin <==> others && 2 * ayes.len() <= said.len()
        }),
{
    let all = statuses.deep_view();
    let n = all.len() as int;
    let newest = max_applied(all, node_id);
    let said = Set::new(|i: int| counts(all, node_id, i));
    let ayes = Set::new(|i: int| speaks_for(all, node_id, i));
    if any_peer(all, node_id) {
        let w = lemma_newest_peer(all, node_id);
        lemma_max_bounds(all, node_id);
        lemma_counts_are_sizes(all, node_id, newest, n);
        assert(all.take(n) =~= all);
        let f = |i: int| authoritative(all[i], node_id, newest);
        let g = |i: int| authoritative(all[i], node_id, newest) && lists_voter(all[i], node_id);
        assert forall|i: int| 0 <= i < n implies (#[trigger] authoritative(all[i], node_id, newest)
            <==> counts(all, node_id, i)) by {
            assert(applied(all[w]) == newest);
            assert(log_or_zero(all[i].last_applied_log) == applied(all[i]));
        }
        assert(said =~= places(n, f));
        assert(ayes =~= places(n, g));
    }
}

// ── Steps of the loop ────────────────────────────────────────────────────

/// Whether a node that joins goes on: with the next peer, or, once all were asked, by
/// looking at itself.
pub open spec fn goes_on(before: JoinLoop, after: JoinLoop) -> bool {
    &&& after.peers.deep_view() == before.peers.deep_view()
    &&& after.delay_ms == before.delay_ms
    &&& before.asked < before.peers@.len() ==> after.asked == before.asked + 1 && (
    after.action matches JoinAction::AskStatus(peer) && peer@
        == before.peers@[before.asked as int]@)
    &&& before.asked >= before.peers@.len() ==> after.asked == before.asked && after.action
        is ReadLeader
}

/// What a node does next follows from what came of its last action: it asks the peers
/// that it found, one after the other; asks for admission where a peer leads or names a
/// leader, and follows one redirection; is done once its admission is confirmed; and
/// starts over after a pause where all was in vain, but for the first node, which starts
/// a cluster where it knows of no leader.
pub proof fn lemma_steps_of_the_loop(before: JoinLoop, event: JoinEvent, after: JoinLoop)
    requires
        before@.wf(),
        event_of(before@.action, event@),
        call_ensures(JoinLoop::step, (before, event), after),
    ensures
        after.node_id == before.node_id,
        after.seeds.deep_view() == before.seeds.deep_view(),
        event matches JoinEvent::Found(found) ==> {
            &&& forall|peer: Seq<char>| #[trigger]
                after.peers.deep_view().contains(peer) <==> before.seeds.deep_view().contains(peer)
                    || found.deep_view().contains(peer)
            &&& after.delay_ms == before.delay_ms
            &&& after.peers@.len() > 0 ==> after.asked == 1 && (
            after.action matches JoinAction::AskStatus(peer) && peer@ == after.peers@[0]@)
            &&& after.peers@.len() == 0 ==> after.action is ReadLeader
        },
        event matches JoinEvent::Status(None) ==> goes_on(before, after),
        event matches JoinEvent::Status(Some(s)) ==> {
            let leads = s.state == NodeState::Leader;
            if s.node_id != before.node_id && (leads || s.leader_addr is Some) {
                after.action matches JoinAction::RequestJoin { target, redirected } && !redirected
                    && target@ == if leads {
                    before.peers@[before.asked - 1]@
                } else {
                    s.leader_addr->0@
                }
            } else {
                goes_on(before, after)
            }
        },
        event matches JoinEvent::Answer(None) ==> goes_on(before, after),
        event matches JoinEvent::Answer(Some(a)) ==> (
        before.action matches JoinAction::RequestJoin { target, redirected } && if a.result
            != JoinResult::NotLeader {
            after.action matches JoinAction::CheckJoined(leader) && leader@ == target@
        } else if a.leader_addr is Some && !redirected {
            after.action matches JoinAction::RequestJoin { target: t, redirected: again } && again
                && t@ == a.leader_addr->0@
        } else {
            goes_on(before, after)
        }),
        event matches JoinEvent::Seen(None, _) ==> goes_on(before, after),
        event matches JoinEvent::Seen(Some(s), own) ==> if own.current_leader is Some
            && own.voter_ids@.contains(before.node_id) && lists_voter(s@, before.node_id)
            && log_or_zero(own.membership_log) >= log_or_zero(s.last_membership_log_id) {
            after.action is Finish
        } else {
            goes_on(before, after)
        },
        event matches JoinEvent::Leader(leader) ==> {
            &&& after.action is Finish <==> before.node_id == 1 && leader is Some
            &&& after.action is Initialize <==> before.node_id == 1 && leader is None
            &&& before.node_id != 1 ==> after.action == JoinAction::Pause(before.delay_ms)
        },
        event matches JoinEvent::Initialized(started) ==> {
            &&& started ==> after.action is Finish
            &&& !started ==> after.action == JoinAction::Pause(before.delay_ms)
        },
        event is Paused ==> {
            &&& after.action is Discover
            &&& after.peers@.len() == 0 && after.asked == 0
            &&& before.delay_ms <= 5000 ==> after.delay_ms == 2 * before.delay_ms
            &&& before.delay_ms > 5000 ==> after.delay_ms == 10000
        },
{
    let b = before@;
    let a = after@;
    assert(a.peers == after.peers.deep_view() && b.peers == before.peers.deep_view());
    assert(a.peers.len() == after.peers@.len() && b.peers.len() == before.peers@.len());
    assert(b.peers.len() > b.asked ==> b.peers[b.asked as int] == before.peers@[b.asked as int]@);
    assert(b.asked > 0 ==> b.peers[b.asked - 1] == before.peers@[b.asked - 1]@);
    assert(a.action == after.action@ && b.action == before.action@);
    if let JoinEvent::Found(found) = event {
        let all = b.seeds + found.deep_view();
        lemma_without_repeats(all);
        assert(a.peers == without_repeats(all));
        assert forall|peer: Seq<char>| #[trigger]
            after.peers.deep_view().contains(peer) <==> before.seeds.deep_view().contains(peer)
                || found.deep_view().contains(peer) by {
            let x = b.seeds;
            let y = found.deep_view();
            if x.contains(peer) {
                let i = choose|i: int| 0 <= i < x.len() && x[i] == peer;
                assert(all[i] == peer);
            }
            if y.contains(peer) {
                let i = choose|i: int| 0 <= i < y.len() && y[i] == peer;
                assert(all[x.len() + i] == peer);
            }
            if all.contains(peer) {
                let i = choose|i: int| 0 <= i < all.len() && all[i] == peer;
                if i < x.len() {
                    assert(x[i] == peer);
                } else {
                    assert(y[i - x.len()] == peer);
                }
            }
        }
        if a.peers.len() > 0 {
            assert(a.peers[0] == after.peers@[0]@);
        }
    }
    if let JoinEvent::Status(Some(s)) = event {
        assert(event@ == JoinEventView::Status(Some(s@)));
        assert(s@.leader_addr is Some <==> s.leader_addr is Some);
    }
    if let JoinEvent::Answer(Some(r)) = event {
        assert(r.leader_addr.deep_view() is Some <==> r.leader_addr is Some);
    }
    if let JoinEvent::Seen(Some(s), own) = event {
        assert(event@ == JoinEventView::Seen(Some(s@), own@));
        assert(own.voter_ids.deep_view() =~= own.voter_ids@);
    }
}

/// Nodes speak HTTPS where TLS is on and HTTP where it is not, and peers are looked up under
/// their common name and port.
pub proof fn lemma_how_nodes_are_reached(dns_name: &str, port: u16, on: &str, off: &str, r: String)
    requires
        call_ensures(raft_scheme, (true,), on),
        call_ensures(raft_scheme, (false,), off),
        call_ensures(discovery_lookup, (dns_name, port), r),
    ensures
        on@ == "https"@,
        off@ == "http"@,
        r@ == dns_name@ + ":"@ + decimal_text(port as nat),
{
}

/// What the local view must show before a node counts as joined: a leader, itself among the
/// voters, both here and with the leader, and a membership no older than the leader's.
pub proof fn lemma_what_confirms_a_join(
    leader: Option<u64>,
    voters: &[u64],
    local: u64,
    theirs: u64,
    known: bool,
    node_id: u64,
    r: bool,
    none_here: bool,
)
    requires
        call_ensures(
            local_membership_confirms_join,
            (leader, voters, Some(local), Some(theirs), known, node_id),
            r,
        ),
        call_ensures(
            local_membership_confirms_join,
            (leader, voters, None::<u64>, Some(theirs), known, node_id),
            none_here,
        ),
    ensures
        r <==> leader is Some && known && voters@.contains(node_id) && local >= theirs,
        none_here ==> theirs == 0,
{
}

} // verus!
