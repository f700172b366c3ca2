//! What is answered to nodes that join and leave, told by what the reports and the
//! outcomes say.
use crate::raft::membership::{
    address_from, build_cluster_status, commit_wait, digits_end, is_stale_config_change,
    learner_failed, leave_outcome, lemma_ids_without, lemma_status_lists_every_node,
    membership_log_advanced, precheck_join, precheck_leave, remaining_voters, replace_voters,
    replaced_voters, terms_from, voter_added, voter_failed, ChangeOutcome, ClusterStatus,
    CommitWait, JoinResult, LeaveResult, MembershipReply, NodeInfoView, RaftMetrics, ReplyBody,
};
use crate::text::{
    contains_text, decimal_text, first_occurrence, is_digit, lemma_decimal_is_read_back,
    occurs_at,
};
use vstd::prelude::*;

verus! {

// ── Before a change ──────────────────────────────────────────────────────

/// Whether an address is the one of the leader: that of a node with the leader's id.
/// It is unknown exactly where there is no leader or no such node.
pub open spec fn is_leader_address(m: RaftMetrics, addr: Option<Seq<char>>) -> bool {
    match addr {
        Some(a) => exists|i: int|
            #![trigger m@.nodes[i]]
            0 <= i < m@.nodes.len() && m@.current_leader == Some(m@.nodes[i].id) && m@.nodes[i].addr
                == a,
        None => forall|i: int|
            0 <= i < m@.nodes.len() ==> m@.current_leader != Some((#[trigger] m@.nodes[i]).id),
    }
}

proof fn lemma_address_from(nodes: Seq<NodeInfoView>, id: u64, from: int)
    requires
        0 <= from <= nodes.len(),
    ensures
        match address_from(nodes, id, from) {
            Some(a) => exists|i: int|
                #![trigger nodes[i]]
                from <= i < nodes.len() && nodes[i].id == id && nodes[i].addr == a,
            None => forall|i: int| from <= i < nodes.len() ==> (#[trigger] nodes[i]).id != id,
        },
    decreases nodes.len() - from,
{
    if from < nodes.len() && nodes[from].id != id {
        lemma_address_from(nodes, id, from + 1);
    }
}

/// Only the leader changes the membership: a node that does not lead sends one that asks
/// to join to the leader. The leader answers at once exactly to a node that is a voter,
/// that it is a member already; any other node is let in.
pub proof fn lemma_who_may_join(m: &RaftMetrics, node_id: u64, r: Option<MembershipReply>)
    requires
        call_ensures(precheck_join, (m, node_id), r),
    ensures
        m.current_leader != Some(m.id) ==> (r matches Some(reply) && reply.status == 307 && (
        reply.body matches ReplyBody::Join(j) && j.result == JoinResult::NotLeader
            && is_leader_address(*m, j.leader_addr.deep_view()))),
        m.current_leader == Some(m.id) && m.voter_ids@.contains(node_id) ==> (r matches Some(reply)
            && reply.status == 200 && (reply.body matches ReplyBody::Join(j) && j.result
            == JoinResult::AlreadyMember && j.leader_addr is None)),
        m.current_leader == Some(m.id) && !m.voter_ids@.contains(node_id) ==> r is None,
{
    assert(m.voter_ids.deep_view() =~= m.voter_ids@);
    if let Some(id) = m.current_leader {
        lemma_address_from(m@.nodes, id, 0);
    }
}

/// A node that does not lead sends one that asks to leave to the leader. The leader
/// refuses a node that is no voter, and one without which there would be no voter; any
/// other node may leave.
pub proof fn lemma_who_may_leave(m: &RaftMetrics, node_id: u64, r: Option<MembershipReply>)
    requires
        call_ensures(precheck_leave, (m, node_id), r),
    ensures
        ({
            let leads = m.current_leader == Some(m.id);
            let votes = m.voter_ids@.contains(node_id);
            let others = exists|i: int|
                0 <= i < m.voter_ids@.len() && #[trigger] m.voter_ids@[i] != node_id;
            &&& !leads ==> (r matches Some(reply) && reply.status == 307 && (
            reply.body matches ReplyBody::Leave(j) && j.result == LeaveResult::NotLeader
                && is_leader_address(*m, j.leader_addr.deep_view())))
            &&& leads && !votes ==> (r matches Some(reply) && reply.status == 200 && (
            reply.body matches ReplyBody::Leave(j) && j.result == LeaveResult::NotMember
                && j.leader_addr is None))
            &&& leads && votes && !others ==> (r matches Some(reply) && reply.status == 200 && (
            reply.body matches ReplyBody::Leave(j) && j.result == LeaveResult::LastVoter
                && j.leader_addr is None))
            &&& leads && votes && others ==> r is None
        }),
{
    let ids = m.voter_ids@;
    assert(m.voter_ids.deep_view() =~= ids);
    if let Some(id) = m.current_leader {
        lemma_address_from(m@.nodes, id, 0);
    }
    if ids.contains(node_id) {
        let all = ids.to_set();
        vstd::seq_lib::seq_to_set_is_finite(ids);
        if exists|i: int| 0 <= i < ids.len() && #[trigger] ids[i] != node_id {
            let i = choose|i: int| 0 <= i < ids.len() && #[trigger] ids[i] != node_id;
            assert(ids.contains(ids[i]));
            let two = set![node_id, ids[i]];
            assert(two.subset_of(all));
            vstd::set_lib::lemma_len_subset(two, all);
            assert(two.len() == 2);
        } else {
            assert(all =~= set![node_id]);
            assert(all.len() == 1);
        }
    }
}

/// Where a voter leaves, the other voters remain, each once, and no one else.
pub proof fn lemma_other_voters_remain(ids: &Vec<u64>, leaving: u64, r: Vec<u64>, id: u64)
    requires
        call_ensures(remaining_voters, (ids, leaving), r),
    ensures
        r@.contains(id) <==> ids@.contains(id) && id != leaving,
        r@.no_duplicates(),
{
    lemma_ids_without(ids@, leaving);
}

/// The status of a cluster lists the nodes of the report, a voter as such and any other
/// as a learner, and tells all else as it was reported.
pub proof fn lemma_status_tells_the_report(m: &RaftMetrics, r: ClusterStatus, node: NodeInfoView)
    requires
        call_ensures(build_cluster_status, (m,), r),
    ensures
        r.voters.deep_view().contains(node) <==> m.nodes.deep_view().contains(node)
            && m.voter_ids@.contains(node.id),
        r.learners.deep_view().contains(node) <==> m.nodes.deep_view().contains(node)
            && !m.voter_ids@.contains(node.id),
        is_leader_address(*m, r.leader_addr.deep_view()),
        r.node_id == m.id,
        r.state == m.state,
        r.leader_id == m.current_leader,
        r.term == m.current_term,
        r.last_log_index == m.last_log_index,
        r.last_applied_log == m.last_applied,
        r.last_membership_log_id == m.membership_log,
        r.millis_since_quorum_ack == m.millis_since_quorum_ack,
        r.replication@ == m.replication@,
{
    assert(m.voter_ids.deep_view() =~= m.voter_ids@);
    assert(r@.voters == r.voters.deep_view());
    assert(r@.replication == m@.replication);
    lemma_status_lists_every_node(m@, node);
    if let Some(id) = m.current_leader {
        lemma_address_from(m@.nodes, id, 0);
    }
}

// ── After a change ───────────────────────────────────────────────────────

/// The committed membership has moved on exactly where one is known now that comes later
/// than the one before, or none was known before.
pub proof fn lemma_membership_moves_on(previous: Option<u64>, current: Option<u64>, r: bool)
    requires
        call_ensures(membership_log_advanced, (previous, current), r),
    ensures
        r <==> current is Some && (previous is None || previous->0 < current->0),
{
}

/// A node looks a hundred and fifty times, five times a second, whether the membership
/// has moved on, and lets it settle for five seconds once it has.
pub proof fn lemma_wait_for_the_commit(
    looks: u64,
    previous: Option<u64>,
    current: Option<u64>,
    r: CommitWait,
)
    requires
        call_ensures(commit_wait, (looks, previous, current), r),
    ensures
        r is GiveUp <==> looks >= 150,
        r is Settle ==> r == CommitWait::Settle(5000) && current is Some && previous != current,
        r is LookAgain ==> r == CommitWait::LookAgain(200),
        looks < 150 ==> (r is LookAgain <==> current is None || (previous is Some && previous->0
            >= current->0)),
{
}

/// Whether a reply is a failure with a text and a status.
pub open spec fn fails_with(r: MembershipReply, status: u16, text: Seq<char>) -> bool {
    r.status == status && (r.body matches ReplyBody::Message(m) && m@ == text)
}

/// A node joined exactly where it was made a voter and that was committed. What failed is
/// told as it was; a change that waits for an older one that cannot be committed any more
/// is to be asked for again.
pub proof fn lemma_answers_to_join(
    error: String,
    text: &str,
    committed: bool,
    stale: bool,
    learner: MembershipReply,
    failed: MembershipReply,
    added: MembershipReply,
)
    requires
        call_ensures(learner_failed, (error,), learner),
        call_ensures(voter_failed, (error,), failed),
        call_ensures(voter_added, (committed,), added),
        call_ensures(is_stale_config_change, (text,), stale),
        text@ == error@,
    ensures
        fails_with(learner, 500, error@),
        !stale ==> fails_with(failed, 500, error@),
        stale ==> failed.status == 409 && (failed.body matches ReplyBody::Join(j) && j.result
            == JoinResult::NotLeader && j.leader_addr is None),
        committed ==> added.status == 200 && (added.body matches ReplyBody::Join(j) && j.result
            == JoinResult::Joined && j.leader_addr is None),
        !committed ==> fails_with(added, 503, "timed out waiting for membership change to commit"@),
{
}

/// A node left exactly where the voters were changed and that was committed. What failed
/// is told as it was.
pub proof fn lemma_answers_to_leave(
    change: ChangeOutcome,
    committed: bool,
    r: MembershipReply,
    replaced: Result<(), String>,
)
    requires
        call_ensures(leave_outcome, (change, committed), r),
        call_ensures(replaced_voters, (change, committed), replaced),
    ensures
        (r.body matches ReplyBody::Leave(j) && j.result == LeaveResult::Left) <==> change is Changed
            && committed,
        change is Changed && committed ==> r.status == 200,
        change is Changed && !committed ==> fails_with(
            r,
            503,
            "timed out waiting for membership change to commit"@,
        ),
        change is TimedOut ==> fails_with(r, 503, "timed out waiting for membership change"@),
        change matches ChangeOutcome::Failed(e) ==> fails_with(r, 500, e@) || (r.status == 409
            && contains_text(e@, "already undergoing a configuration change"@) && (
        r.body matches ReplyBody::Leave(j) && j.result == LeaveResult::NotLeader)),
        replaced is Ok <==> change is Changed && committed,
        change matches ChangeOutcome::Failed(e) ==> (replaced matches Err(t) && t@ == e@),
{
}

/// A set of voters is replaced where it is not the one in place, and never by nobody.
pub proof fn lemma_voters_are_replaced(
    current: &Vec<u64>,
    new_voters: &Vec<u64>,
    r: Result<bool, String>,
)
    requires
        call_ensures(replace_voters, (current, new_voters), r),
    ensures
        r is Err <==> new_voters@.len() == 0,
        r == Ok::<bool, String>(false) ==> forall|id: u64| #[trigger]
            current@.contains(id) <==> new_voters@.contains(id),
        r == Ok::<bool, String>(true) ==> exists|id: u64| #[trigger]
            current@.contains(id) != new_voters@.contains(id),
{
    let a = current@.to_set();
    let b = new_voters@.to_set();
    if r == Ok::<bool, String>(false) {
        assert forall|id: u64| #[trigger] current@.contains(id) <==> new_voters@.contains(id) by {
            assert(a.contains(id) == b.contains(id));
        }
    }
    if r == Ok::<bool, String>(true) {
        if forall|id: u64| #[trigger] current@.contains(id) == new_voters@.contains(id) {
            assert(a =~= b);
        }
    }
}

// ── Changes that cannot be committed any more ────────────────────────────

/// The text before a number that tells a term.
spec fn mark() -> Seq<char> {
    seq!['t', 'e', 'r', 'm', ':', ' ']
}

/// The first occurrence of a text is where it stands, where it stands nowhere before.
proof fn lemma_first_is(s: Seq<char>, part: Seq<char>, from: int, p: int)
    requires
        0 <= from <= p,
        occurs_at(s, part, p),
        forall|i: int| from <= i < p ==> !#[trigger] occurs_at(s, part, i),
    ensures
        first_occurrence(s, part, from) == p,
    decreases p - from,
{
    if from < p {
        assert(!occurs_at(s, part, from));
        lemma_first_is(s, part, from + 1, p);
    }
}

/// A run of digits ends where the next character is none.
proof fn lemma_digits_end_is(s: Seq<char>, from: int, end: int)
    requires
        0 <= from <= end <= s.len(),
        forall|i: int| from <= i < end ==> is_digit(#[trigger] s[i]),
        end < s.len() ==> !is_digit(s[end]),
    ensures
        digits_end(s, from) == end,
    decreases end - from,
{
    if from < end {
        assert(is_digit(s[from]));
        lemma_digits_end_is(s, from + 1, end);
    }
}

/// Whether a term is told at a position: after its mark stands the number, and no digit
/// follows.
pub open spec fn tells_term(s: Seq<char>, p: int, term: u64) -> bool {
    let digits = decimal_text(term as nat);
    let end = p + 6 + digits.len();
    &&& 0 <= p && end <= s.len()
    &&& s.subrange(p, p + 6) == "term: "@
    &&& s.subrange(p + 6, end) == digits
    &&& end < s.len() ==> !is_digit(s[end])
}

/// An error tells of a change that cannot be committed any more exactly where it tells of
/// a change under way and the first term that it tells is older than the second.
pub proof fn lemma_stale_change_has_an_older_term(
    error_msg: &str,
    r: bool,
    p: int,
    waiting: u64,
    q: int,
    committed: u64,
)
    requires
        call_ensures(is_stale_config_change, (error_msg,), r),
        tells_term(error_msg@, p, waiting),
        tells_term(error_msg@, q, committed),
        p + 6 + decimal_text(waiting as nat).len() <= q,
        forall|i: int|
            0 <= i < q && i != p ==> !#[trigger] occurs_at(error_msg@, "term: "@, i),
    ensures
        r <==> contains_text(error_msg@, "already undergoing a configuration change"@) && waiting
            < committed,
{
    let s = error_msg@;
    reveal_strlit("term: ");
    assert("term: "@ =~= mark());
    lemma_term_is_read(s, 0, p, waiting);
    let e = p + 6 + decimal_text(waiting as nat).len();
    lemma_term_is_read(s, e as int, q, committed);
    let f = q + 6 + decimal_text(committed as nat).len();
    let rest = terms_from(s, f as int);
    assert(terms_from(s, 0) == seq![waiting] + (seq![committed] + rest));
    assert(terms_from(s, 0)[0] == waiting);
    assert(terms_from(s, 0)[1] == committed);
}

/// An error that tells of no change under way, or of no term, does not tell of a change
/// that cannot be committed any more.
pub proof fn lemma_stale_change_is_told(error_msg: &str, r: bool)
    requires
        call_ensures(is_stale_config_change, (error_msg,), r),
        r,
    ensures
        contains_text(error_msg@, "already undergoing a configuration change"@),
        exists|p: int| 0 <= p && #[trigger] occurs_at(error_msg@, "term: "@, p),
{
    let s = error_msg@;
    reveal_strlit("term: ");
    assert("term: "@ =~= mark());
    lemma_first_occurs(s, mark(), 0);
}

/// The first occurrence of a text is an occurrence.
proof fn lemma_first_occurs(s: Seq<char>, part: Seq<char>, from: int)
    ensures
        first_occurrence(s, part, from) >= 0 ==> occurs_at(
            s,
            part,
            first_occurrence(s, part, from),
        ),
    decreases s.len() - from + 1,
{
    if from + part.len() <= s.len() && !occurs_at(s, part, from) {
        lemma_first_occurs(s, part, from + 1);
    }
}

/// The first term that is told from a position on is the first that is read.
proof fn lemma_term_is_read(s: Seq<char>, from: int, p: int, term: u64)
    requires
        0 <= from <= p,
        tells_term(s, p, term),
        "term: "@ == mark(),
        forall|i: int| from <= i < p ==> !#[trigger] occurs_at(s, "term: "@, i),
    ensures
        terms_from(s, from) == seq![term] + terms_from(
            s,
            p + 6 + decimal_text(term as nat).len(),
        ),
{
    let digits = decimal_text(term as nat);
    let end = p + 6 + digits.len();
    assert(occurs_at(s, mark(), p));
    lemma_first_is(s, mark(), from, p);
    lemma_decimal_is_read_back(term);
    assert forall|i: int| p + 6 <= i < end implies is_digit(#[trigger] s[i]) by {
        assert(s.subrange(p + 6, end)[i - p - 6] == s[i]);
        assert(is_digit(digits[i - p - 6]));
    }
    lemma_digits_end_is(s, p + 6, end);
}

} // verus!
