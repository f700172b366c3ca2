//! The loop in which a node joins the cluster, as steps: what the node has to do
//! next, from what it did last and what came of it.
use super::joining::{
    bootstrap_step, confirms_join, join_request_target, join_step, join_target, leader_admitted,
    lists_voter, local_join_is_confirmed, merge_seed_and_discovered_peers, next_join_delay,
    BootstrapStep, JoinStep, FIRST_JOIN_DELAY_MS, MAX_JOIN_DELAY_MS,
};
use super::membership::{
    ClusterStatus, ClusterStatusView, JoinResponse, JoinResult, RaftMetrics, RaftMetricsView,
};
use crate::text::without_repeats;
use vstd::prelude::*;

verus! {

// ── Values ───────────────────────────────────────────────────────────────

/// What a node that joins has to do next.
#[derive(Debug, PartialEq, Eq)]
pub enum JoinAction {
    /// Look for peers.
    Discover,
    /// Ask a peer for its status.
    AskStatus(String),
    /// Ask a node for admission. `redirected` where another node named it as the
    /// leader.
    RequestJoin { target: String, redirected: bool },
    /// Ask the node that admitted this one for its status, and read the own view.
    CheckJoined(String),
    /// Read which leader this node knows of.
    ReadLeader,
    /// Start a cluster with this node alone.
    Initialize,
    /// Wait, for so many milliseconds.
    Pause(u64),
    /// Nothing more: this node belongs to a cluster.
    Finish,
}

/// What a `JoinAction` says.
#[verifier::ext_equal]
pub enum JoinActionView {
    Discover,
    AskStatus(Seq<char>),
    RequestJoin { target: Seq<char>, redirected: bool },
    CheckJoined(Seq<char>),
    ReadLeader,
    Initialize,
    Pause(u64),
    Finish,
}

impl View for JoinAction {
    type V = JoinActionView;

    open spec fn view(&self) -> JoinActionView {
        match self {
            JoinAction::Discover => JoinActionView::Discover,
            JoinAction::AskStatus(peer) => JoinActionView::AskStatus(peer@),
            JoinAction::RequestJoin { target, redirected } => JoinActionView::RequestJoin {
                target: target@,
                redirected: *redirected,
            },
            JoinAction::CheckJoined(leader) => JoinActionView::CheckJoined(leader@),
            JoinAction::ReadLeader => JoinActionView::ReadLeader,
            JoinAction::Initialize => JoinActionView::Initialize,
            JoinAction::Pause(millis) => JoinActionView::Pause(*millis),
            JoinAction::Finish => JoinActionView::Finish,
        }
    }
}

/// What came of an action. A call that failed has no answer.
#[derive(Debug, PartialEq, Eq)]
pub enum JoinEvent {
    /// The peers that were found.
    Found(Vec<String>),
    /// The status of the peer that was asked.
    Status(Option<ClusterStatus>),
    /// The answer to the request for admission.
    Answer(Option<JoinResponse>),
    /// The status of the node that admitted this one, and the own view.
    Seen(Option<ClusterStatus>, RaftMetrics),
    /// The leader that this node knows of.
    Leader(Option<u64>),
    /// Whether a cluster was started.
    Initialized(bool),
    /// The pause is over.
    Paused,
}

/// What a `JoinEvent` says.
pub enum JoinEventView {
    Found(Seq<Seq<char>>),
    Status(Option<ClusterStatusView>),
    Answer(Option<(JoinResult, Option<Seq<char>>)>),
    Seen(Option<ClusterStatusView>, RaftMetricsView),
    Leader(Option<u64>),
    Initialized(bool),
    Paused,
}

impl View for JoinEvent {
    type V = JoinEventView;

    open spec fn view(&self) -> JoinEventView {
        match self {
            JoinEvent::Found(peers) => JoinEventView::Found(peers.deep_view()),
            JoinEvent::Status(status) => JoinEventView::Status(status.deep_view()),
            JoinEvent::Answer(answer) => JoinEventView::Answer(
                match answer {
                    Some(a) => Some((a.result, a.leader_addr.deep_view())),
                    None => None,
                },
            ),
            JoinEvent::Seen(status, own) => JoinEventView::Seen(status.deep_view(), own@),
            JoinEvent::Leader(leader) => JoinEventView::Leader(*leader),
            JoinEvent::Initialized(started) => JoinEventView::Initialized(*started),
            JoinEvent::Paused => JoinEventView::Paused,
        }
    }
}

/// Where a node that joins stands: the peers of this round, how many of them were
/// asked, how long the next pause is, and what is to be done.
#[derive(Debug, PartialEq, Eq)]
pub struct JoinLoop {
    pub node_id: u64,
    pub seeds: Vec<String>,
    pub peers: Vec<String>,
    pub asked: usize,
    pub delay_ms: u64,
    pub action: JoinAction,
}

/// What a `JoinLoop` holds.
#[verifier::ext_equal]
pub struct JoinLoopView {
    pub node_id: u64,
    pub seeds: Seq<Seq<char>>,
    pub peers: Seq<Seq<char>>,
    pub asked: nat,
    pub delay_ms: u64,
    pub action: JoinActionView,
}

impl View for JoinLoop {
    type V = JoinLoopView;

    open spec fn view(&self) -> JoinLoopView {
        JoinLoopView {
            node_id: self.node_id,
            seeds: self.seeds.deep_view(),
            peers: self.peers.deep_view(),
            asked: self.asked as nat,
            delay_ms: self.delay_ms,
            action: self.action@,
        }
    }
}

// ── Steps ────────────────────────────────────────────────────────────────

/// Whether an event is what comes of an action.
pub open spec fn event_of(action: JoinActionView, event: JoinEventView) -> bool {
    match action {
        JoinActionView::Discover => event is Found,
        JoinActionView::AskStatus(_) => event is Status,
        JoinActionView::RequestJoin { .. } => event is Answer,
        JoinActionView::CheckJoined(_) => event is Seen,
        JoinActionView::ReadLeader => event is Leader,
        JoinActionView::Initialize => event is Initialized,
        JoinActionView::Pause(_) => event is Paused,
        JoinActionView::Finish => false,
    }
}

impl JoinLoopView {
    /// Whether this can occur: no more peers were asked than there are, the pause is
    /// within its limit, the peer that is asked is the last of those counted, and all
    /// were asked before the node looks at itself.
    pub open spec fn wf(self) -> bool {
        &&& self.asked <= self.peers.len()
        &&& self.delay_ms <= MAX_JOIN_DELAY_MS
        &&& self.action is Discover ==> self.asked == 0
        &&& self.action matches JoinActionView::AskStatus(peer) ==> self.asked > 0 && peer
            == self.peers[self.asked - 1]
        &&& self.action is ReadLeader ==> self.asked == self.peers.len()
        &&& self.action is Initialize ==> self.asked == self.peers.len() && self.node_id == 1
    }

    /// The first step of a node.
    pub open spec fn start(node_id: u64, seeds: Seq<Seq<char>>) -> JoinLoopView {
        JoinLoopView {
            node_id,
            seeds,
            peers: Seq::empty(),
            asked: 0,
            delay_ms: FIRST_JOIN_DELAY_MS,
            action: JoinActionView::Discover,
        }
    }

    /// With another thing to do.
    pub open spec fn then_do(self, action: JoinActionView) -> JoinLoopView {
        JoinLoopView { action, ..self }
    }

    /// Goes on with the next peer, and looks at the node itself once all were asked.
    pub open spec fn go_on(self) -> JoinLoopView {
        if self.asked < self.peers.len() {
            JoinLoopView {
                asked: self.asked + 1,
                action: JoinActionView::AskStatus(self.peers[self.asked as int]),
                ..self
            }
        } else {
            self.then_do(JoinActionView::ReadLeader)
        }
    }

    /// What follows from the status of a peer: a request to the leader, unless the
    /// peer is this node itself or knows of none.
    pub open spec fn after_status(
        self,
        peer: Seq<char>,
        status: Option<ClusterStatusView>,
    ) -> JoinLoopView {
        match status {
            Some(s) if s.node_id != self.node_id => match join_target(peer, s) {
                Some(target) => self.then_do(
                    JoinActionView::RequestJoin { target, redirected: false },
                ),
                None => self.go_on(),
            },
            _ => self.go_on(),
        }
    }

    /// What follows from the answer to a request for admission. A node that names
    /// another one is followed once.
    pub open spec fn after_answer(
        self,
        target: Seq<char>,
        redirected: bool,
        answer: Option<(JoinResult, Option<Seq<char>>)>,
    ) -> JoinLoopView {
        match answer {
            None => self.go_on(),
            Some((JoinResult::NotLeader, leader)) => match leader {
                Some(addr) if !redirected => self.then_do(
                    JoinActionView::RequestJoin { target: addr, redirected: true },
                ),
                _ => self.go_on(),
            },
            Some(_) => self.then_do(JoinActionView::CheckJoined(target)),
        }
    }

    /// Whether the own view and the status of the leader confirm that this node has
    /// joined.
    pub open spec fn is_confirmed(
        self,
        status: Option<ClusterStatusView>,
        own: RaftMetricsView,
    ) -> bool {
        status matches Some(s) && confirms_join(
            own.current_leader,
            own.voter_ids,
            own.membership_log,
            s.last_membership_log_id,
            lists_voter(s, self.node_id),
            self.node_id,
        )
    }

    /// What follows from an event. The first node starts a cluster where it knows of
    /// no leader; the others wait and start over.
    pub open spec fn next(self, event: JoinEventView) -> JoinLoopView {
        match (self.action, event) {
            (JoinActionView::Discover, JoinEventView::Found(found)) => JoinLoopView {
                peers: without_repeats(self.seeds + found),
                asked: 0,
                ..self
            }.go_on(),
            (JoinActionView::AskStatus(peer), JoinEventView::Status(status)) => self.after_status(
                peer,
                status,
            ),
            (
                JoinActionView::RequestJoin { target, redirected },
                JoinEventView::Answer(answer),
            ) => self.after_answer(target, redirected, answer),
            (JoinActionView::CheckJoined(_), JoinEventView::Seen(status, own)) => {
                if self.is_confirmed(status, own) {
                    self.then_do(JoinActionView::Finish)
                } else {
                    self.go_on()
                }
            },
            (JoinActionView::ReadLeader, JoinEventView::Leader(leader)) => if self.node_id != 1 {
                self.then_do(JoinActionView::Pause(self.delay_ms))
            } else if leader is Some {
                self.then_do(JoinActionView::Finish)
            } else {
                self.then_do(JoinActionView::Initialize)
            },
            (JoinActionView::Initialize, JoinEventView::Initialized(started)) => if started {
                self.then_do(JoinActionView::Finish)
            } else {
                self.then_do(JoinActionView::Pause(self.delay_ms))
            },
            (JoinActionView::Pause(_), JoinEventView::Paused) => JoinLoopView {
                peers: Seq::empty(),
                asked: 0,
                delay_ms: if self.delay_ms * 2 <= MAX_JOIN_DELAY_MS {
                    (self.delay_ms * 2) as u64
                } else {
                    MAX_JOIN_DELAY_MS
                },
                action: JoinActionView::Discover,
                ..self
            },
            _ => self,
        }
    }
}

impl JoinLoop {
    /// The first step of a node: it looks for peers.
    pub fn start(node_id: u64, seeds: Vec<String>) -> (r: Self)
        ensures
            r@ == JoinLoopView::start(node_id, seeds.deep_view()),
            r@.wf(),
    {
        let peers: Vec<String> = Vec::new();
        assert(peers.deep_view() =~= Seq::empty());
        JoinLoop {
            node_id,
            seeds,
            peers,
            asked: 0,
            delay_ms: FIRST_JOIN_DELAY_MS,
            action: JoinAction::Discover,
        }
    }

    /// Goes on with the next peer.
    fn go_on(self) -> (r: Self)
        requires
            self.asked <= self.peers@.len(),
        ensures
            r@ == self@.go_on(),
    {
        let mut r = self;
        if r.asked < r.peers.len() {
            r.action = JoinAction::AskStatus(r.peers[r.asked].clone());
            r.asked = r.asked + 1;
        } else {
            r.action = JoinAction::ReadLeader;
        }
        r
    }

    /// With another thing to do.
    fn then_do(self, action: JoinAction) -> (r: Self)
        ensures
            r@ == self@.then_do(action@),
    {
        let mut r = self;
        r.action = action;
        r
    }

    /// What a node does next, from what came of its last action.
    pub fn step(self, event: JoinEvent) -> (r: Self)
        requires
            self@.wf(),
            event_of(self@.action, event@),
        ensures
            r@ == self@.next(event@),
            r@.wf(),
    {
        proof {
            lemma_step_keeps_wf(self@, event@);
        }
        let mut state = self;
        let action = state.action;
        state.action = JoinAction::ReadLeader;
        match (action, event) {
            (JoinAction::Discover, JoinEvent::Found(found)) => {
                state.peers = merge_seed_and_discovered_peers(&state.seeds, found);
                state.asked = 0;
                state.go_on()
            },
            (JoinAction::AskStatus(peer), JoinEvent::Status(status)) => match status {
                None => state.go_on(),
                Some(s) => match join_request_target(state.node_id, &peer, &s) {
                    Some(target) => {
                        let target = target.to_string();
                        state.then_do(JoinAction::RequestJoin { target, redirected: false })
                    },
                    None => state.go_on(),
                },
            },
            (JoinAction::RequestJoin { target, redirected }, JoinEvent::Answer(answer)) => {
                match answer {
                    None => state.go_on(),
                    Some(a) => if redirected {
                        if leader_admitted(&a) {
                            state.then_do(JoinAction::CheckJoined(target))
                        } else {
                            state.go_on()
                        }
                    } else {
                        match join_step(&a) {
                            JoinStep::Confirm => state.then_do(JoinAction::CheckJoined(target)),
                            JoinStep::AskLeader(leader) => state.then_do(
                                JoinAction::RequestJoin { target: leader, redirected: true },
                            ),
                            JoinStep::NextPeer => state.go_on(),
                        }
                    },
                }
            },
            (JoinAction::CheckJoined(_), JoinEvent::Seen(status, own)) => match status {
                Some(s) => if local_join_is_confirmed(&own, &s, state.node_id) {
                    state.then_do(JoinAction::Finish)
                } else {
                    state.go_on()
                },
                None => state.go_on(),
            },
            (JoinAction::ReadLeader, JoinEvent::Leader(leader)) => {
                let delay: u64 = state.delay_ms;
                match bootstrap_step(state.node_id, leader) {
                    BootstrapStep::AlreadyMember => state.then_do(JoinAction::Finish),
                    BootstrapStep::Initialize => state.then_do(JoinAction::Initialize),
                    BootstrapStep::Retry => state.then_do(JoinAction::Pause(delay)),
                }
            },
            (JoinAction::Initialize, JoinEvent::Initialized(started)) => {
                let delay: u64 = state.delay_ms;
                if started {
                    state.then_do(JoinAction::Finish)
                } else {
                    state.then_do(JoinAction::Pause(delay))
                }
            },
            (JoinAction::Pause(_), JoinEvent::Paused) => {
                state.peers = Vec::new();
                assert(state.peers.deep_view() =~= Seq::empty());
                state.asked = 0;
                state.delay_ms = next_join_delay(state.delay_ms);
                state.then_do(JoinAction::Discover)
            },
            (action, _) => state.then_do(action),
        }
    }
}

// ── Laws ─────────────────────────────────────────────────────────────────

/// Every step leads from what can occur to what can occur.
pub proof fn lemma_step_keeps_wf(s: JoinLoopView, event: JoinEventView)
    requires
        s.wf(),
    ensures
        s.next(event).wf(),
{
}

/// A node is done only where the leader and its own view confirm that it has joined,
/// where it is the first node and knows of a leader, or where it has started a
/// cluster.
pub proof fn lemma_a_node_is_done_for_a_reason(s: JoinLoopView, event: JoinEventView)
    requires
        s.action !is Finish,
    ensures
        s.next(event).action is Finish <==> match (s.action, event) {
            (
                JoinActionView::CheckJoined(_),
                JoinEventView::Seen(status, own),
            ) => s.is_confirmed(status, own),
            (
                JoinActionView::ReadLeader,
                JoinEventView::Leader(leader),
            ) => s.node_id == 1 && leader is Some,
            (JoinActionView::Initialize, JoinEventView::Initialized(started)) => started,
            _ => false,
        },
{
}

/// Where a node stands after some events.
pub open spec fn reached(
    node_id: u64,
    seeds: Seq<Seq<char>>,
    events: Seq<JoinEventView>,
) -> JoinLoopView
    decreases events.len(),
{
    if events.len() == 0 {
        JoinLoopView::start(node_id, seeds)
    } else {
        reached(node_id, seeds, events.drop_last()).next(events.last())
    }
}

/// Whether each of some events is what came of the action before it.
pub open spec fn is_run(node_id: u64, seeds: Seq<Seq<char>>, events: Seq<JoinEventView>) -> bool
    decreases events.len(),
{
    events.len() == 0 || {
        &&& is_run(node_id, seeds, events.drop_last())
        &&& event_of(reached(node_id, seeds, events.drop_last()).action, events.last())
    }
}

/// How many of the events came before the latest search for peers.
pub open spec fn round_start(
    node_id: u64,
    seeds: Seq<Seq<char>>,
    events: Seq<JoinEventView>,
) -> nat
    decreases events.len(),
{
    if events.len() == 0 || reached(node_id, seeds, events).action is Discover {
        events.len()
    } else {
        round_start(node_id, seeds, events.drop_last())
    }
}

/// Whether a peer was asked for its status after the latest search for peers.
pub open spec fn was_asked(
    node_id: u64,
    seeds: Seq<Seq<char>>,
    events: Seq<JoinEventView>,
    peer: Seq<char>,
) -> bool {
    exists|n: int|
        round_start(node_id, seeds, events) < n <= events.len() && #[trigger] reached(
            node_id,
            seeds,
            events.take(n),
        ).action == JoinActionView::AskStatus(peer)
}

/// Whether the peers that a node asks are its seeds and those that its latest search
/// found, each once.
pub open spec fn found_in_round(
    node_id: u64,
    seeds: Seq<Seq<char>>,
    events: Seq<JoinEventView>,
) -> bool {
    let n = round_start(node_id, seeds, events);
    &&& n < events.len()
    &&& events[n as int] matches JoinEventView::Found(found) && reached(
        node_id,
        seeds,
        events,
    ).peers == without_repeats(seeds + found)
}

/// Whatever happens, the node stands where it can, and has asked every peer that it
/// counts as asked in this round.
proof fn lemma_counted_peers_were_asked(
    node_id: u64,
    seeds: Seq<Seq<char>>,
    events: Seq<JoinEventView>,
)
    requires
        is_run(node_id, seeds, events),
    ensures
        reached(node_id, seeds, events).wf(),
        reached(node_id, seeds, events).node_id == node_id,
        reached(node_id, seeds, events).seeds == seeds,
        reached(node_id, seeds, events).action is Discover || found_in_round(
            node_id,
            seeds,
            events,
        ),
        forall|k: int|
            0 <= k < reached(node_id, seeds, events).asked ==> was_asked(
                node_id,
                seeds,
                events,
                #[trigger] reached(node_id, seeds, events).peers[k],
            ),
    decreases events.len(),
{
    if events.len() > 0 {
        let earlier = events.drop_last();
        let before = reached(node_id, seeds, earlier);
        let after = reached(node_id, seeds, events);
        lemma_counted_peers_were_asked(node_id, seeds, earlier);
        lemma_step_keeps_wf(before, events.last());
        assert(events.take(events.len() as int) =~= events);
        if !(after.action is Discover) {
            lemma_round_start(node_id, seeds, earlier);
            if !(before.action is Discover) {
                let n = round_start(node_id, seeds, earlier) as int;
                assert(events[n] == earlier[n]);
            }
        }
        assert forall|k: int| 0 <= k < after.asked implies was_asked(
            node_id,
            seeds,
            events,
            #[trigger] after.peers[k],
        ) by {
            let peer = after.peers[k];
            assert(!(after.action is Discover));
            assert(round_start(node_id, seeds, events) == round_start(node_id, seeds, earlier));
            lemma_round_start(node_id, seeds, earlier);
            if before.action is Discover || k >= before.asked {
                assert(after.action == JoinActionView::AskStatus(peer));
                assert(reached(node_id, seeds, events.take(events.len() as int)).action
                    == JoinActionView::AskStatus(peer));
            } else {
                assert(before.peers[k] == peer);
                assert(was_asked(node_id, seeds, earlier, before.peers[k]));
                let n = choose|n: int|
                    round_start(node_id, seeds, earlier) < n <= earlier.len()
                        && #[trigger] reached(node_id, seeds, earlier.take(n)).action
                        == JoinActionView::AskStatus(peer);
                assert(events.take(n) =~= earlier.take(n));
                assert(reached(node_id, seeds, events.take(n)).action
                    == JoinActionView::AskStatus(peer));
            }
        }
    }
}

/// The latest search for peers is not in the future.
proof fn lemma_round_start(node_id: u64, seeds: Seq<Seq<char>>, events: Seq<JoinEventView>)
    ensures
        round_start(node_id, seeds, events) <= events.len(),
    decreases events.len(),
{
    if events.len() > 0 && !(reached(node_id, seeds, events).action is Discover) {
        lemma_round_start(node_id, seeds, events.drop_last());
    }
}

/// A node starts a cluster of its own only as a last resort: it is the first node,
/// every peer that its latest search gave was asked for its status since, none of them
/// let it join, and it knows of no leader.
pub proof fn lemma_a_cluster_is_started_only_after_all_peers_were_asked(
    node_id: u64,
    seeds: Seq<Seq<char>>,
    events: Seq<JoinEventView>,
)
    requires
        is_run(node_id, seeds, events),
        reached(node_id, seeds, events).action is Initialize,
    ensures
        node_id == 1,
        events.len() > 0,
        events.last() == JoinEventView::Leader(None),
        found_in_round(node_id, seeds, events),
        forall|k: int|
            0 <= k < reached(node_id, seeds, events).peers.len() ==> was_asked(
                node_id,
                seeds,
                events,
                #[trigger] reached(node_id, seeds, events).peers[k],
            ),
        forall|n: int|
            0 <= n <= events.len() ==> !((#[trigger] reached(
                node_id,
                seeds,
                events.take(n),
            )).action is Finish),
{
    lemma_counted_peers_were_asked(node_id, seeds, events);
    lemma_counted_peers_were_asked(node_id, seeds, events.drop_last());
    assert forall|n: int| 0 <= n <= events.len() implies !((#[trigger] reached(
        node_id,
        seeds,
        events.take(n),
    )).action is Finish) by {
        lemma_not_done_before(node_id, seeds, events, n);
    }
}

/// A run goes on only where the node is not done.
proof fn lemma_not_done_before(
    node_id: u64,
    seeds: Seq<Seq<char>>,
    events: Seq<JoinEventView>,
    n: int,
)
    requires
        is_run(node_id, seeds, events),
        0 <= n <= events.len(),
        !(reached(node_id, seeds, events).action is Finish),
    ensures
        !(reached(node_id, seeds, events.take(n)).action is Finish),
    decreases events.len(),
{
    if n == events.len() {
        assert(events.take(n) =~= events);
    } else {
        assert(events.drop_last().take(n) =~= events.take(n));
        lemma_not_done_before(node_id, seeds, events.drop_last(), n);
    }
}

} // verus!
