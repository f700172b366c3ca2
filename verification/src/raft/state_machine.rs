//! The replicated state machine: applies the changes of the log one by one.
use crate::raft::configs::{
    apply_job, apply_mirror_config, apply_repository, apply_token, job_step, mirror_config_step,
    repository_step, token_step,
};
use crate::raft::manifests::apply_manifest;
use crate::raft::model::{adds_references, has_room, manifest_step};
use crate::raft::namespaces::{apply_namespace, namespace_step};
use crate::raft::restore::{countable, normalized_manifests, normalized_state};
use crate::raft::state::{
    Membership, StateMachineData, StateView, StoredMembership, StoredMembershipView,
};
use crate::raft::{LogId, ManifestResponse, ManifestResponseView, Request, Response, ResponseView};
use crate::string_map::sorted_keys;
use vstd::prelude::*;

verus! {

/// What a change does to the state, and how it is answered. A change that is
/// refused is answered with the text of the error.
pub open spec fn request_step(s: StateView, req: Request) -> (StateView, ResponseView) {
    match req {
        Request::Manifest(r) => {
            let (next, answer) = manifest_step(s, r);
            (
                next,
                match answer {
                    Ok(v) => ResponseView::Manifest(v),
                    Err(e) => ResponseView::Error(e.message()),
                },
            )
        },
        Request::MirrorConfig(r) => {
            let (next, answer) = mirror_config_step(s, r);
            (next, ResponseView::MirrorConfig(answer))
        },
        Request::Job(r) => {
            let (next, answer) = job_step(s, r);
            (next, ResponseView::Job(answer))
        },
        Request::Token(r) => {
            let (next, answer) = token_step(s, r);
            (next, ResponseView::Token(answer))
        },
        Request::Repository(r) => {
            let (next, answer) = repository_step(s, r);
            (
                next,
                match answer {
                    Ok(v) => ResponseView::Repository(v),
                    Err(e) => ResponseView::Error(e.message()),
                },
            )
        },
        Request::Namespace(r) => {
            let (next, answer) = namespace_step(s, r);
            (
                next,
                match answer {
                    Ok(v) => ResponseView::Namespace(v),
                    Err(e) => ResponseView::Error(e.message()),
                },
            )
        },
    }
}

/// What an entry of the log carries.
#[derive(Debug)]
pub enum EntryPayload {
    Blank,
    Membership(Membership),
    Normal(Request),
}

/// An entry of the log.
#[derive(Debug)]
pub struct Entry {
    pub log_id: LogId,
    pub payload: EntryPayload,
}

/// What an entry of the log does to the state, and how it is answered.
pub open spec fn entry_step(s: StateView, entry: Entry) -> (StateView, ResponseView) {
    let s = StateView { last_applied_log: Some(entry.log_id), ..s };
    match entry.payload {
        EntryPayload::Blank => (s, ResponseView::Manifest(ManifestResponseView::Done)),
        EntryPayload::Membership(membership) => (
            StateView {
                last_membership: StoredMembershipView {
                    log_id: Some(entry.log_id),
                    membership: membership@,
                },
                ..s
            },
            ResponseView::Manifest(ManifestResponseView::Done),
        ),
        EntryPayload::Normal(req) => request_step(s, req),
    }
}

/// What a snapshot is a snapshot of.
#[derive(Debug)]
pub struct SnapshotMeta {
    pub last_log_id: Option<LogId>,
    pub last_membership: StoredMembership,
    pub snapshot_id: String,
}

/// The state, and the latest snapshot of it.
#[derive(Debug)]
pub struct StateMachine {
    pub data: StateMachineData,
    pub snapshot: Option<(SnapshotMeta, Vec<u8>)>,
}

impl StateMachineData {
    /// Whether every reference count can still grow by one.
    pub fn ref_counts_have_room(&self) -> (r: bool)
        ensures
            r == has_room(self@.blob_ref_counts),
    {
        let n = self.blob_ref_counts.len();
        let ghost counts = self@.blob_ref_counts;
        let ghost ks = sorted_keys(counts.dom());
        let mut i: usize = 0;
        while i < n
            invariant
                counts == self@.blob_ref_counts,
                ks == sorted_keys(counts.dom()),
                n == ks.len(),
                i <= n,
                forall|k: Seq<char>| #[trigger] ks.contains(k) <==> counts.dom().contains(k),
                forall|j: int| 0 <= j < i ==> counts[#[trigger] ks[j]] < u64::MAX,
            decreases n - i,
        {
            if *self.blob_ref_counts.value_at(i) == u64::MAX {
                assert(counts.dom().contains(ks[i as int]));
                return false;
            }
            i = i + 1;
        }
        assert forall|k: Seq<char>| #[trigger] counts.dom().contains(k) implies counts[k]
            < u64::MAX by {
            assert(ks.contains(k));
            let j = choose|j: int| 0 <= j < ks.len() && ks[j] == k;
            assert(ks[j] == k);
        }
        true
    }
}

impl StateMachine {
    /// A state machine without a snapshot.
    pub fn new(data: StateMachineData) -> (r: Self)
        ensures
            r.data == data,
            r.snapshot is None,
    {
        StateMachine { data, snapshot: None }
    }

    /// A state machine with a snapshot.
    pub fn new_with_snapshot(data: StateMachineData, meta: SnapshotMeta, bytes: Vec<u8>) -> (r: Self)
        ensures
            r.data == data,
            r.snapshot == Some((meta, bytes)),
    {
        StateMachine { data, snapshot: Some((meta, bytes)) }
    }

    /// Applies a change. What a change needs to know of the time, it carries.
    pub fn apply_request(data: &mut StateMachineData, req: Request) -> (r: Response)
        requires
            adds_references(req) ==> has_room(old(data)@.blob_ref_counts),
        ensures
            (final(data)@, r@) == request_step(old(data)@, req),
    {
        match req {
            Request::Manifest(req) => match apply_manifest(data, req) {
                Ok(r) => Response::Manifest(r),
                Err(e) => Response::Error(e.message().clone()),
            },
            Request::MirrorConfig(req) => Response::MirrorConfig(apply_mirror_config(data, req)),
            Request::Job(req) => Response::Job(apply_job(data, req)),
            Request::Token(req) => Response::Token(apply_token(data, req)),
            Request::Repository(req) => match apply_repository(data, req) {
                Ok(r) => Response::Repository(r),
                Err(e) => Response::Error(e.message().clone()),
            },
            Request::Namespace(req) => match apply_namespace(data, req) {
                Ok(r) => Response::Namespace(r),
                Err(e) => Response::Error(e.message().clone()),
            },
        }
    }

    /// Applies an entry of the log.
    pub fn apply(&mut self, entry: Entry) -> (r: Response)
        requires
            entry.payload matches EntryPayload::Normal(req) ==> (adds_references(req) ==> has_room(
                old(self).data@.blob_ref_counts,
            )),
        ensures
            (final(self).data@, r@) == entry_step(old(self).data@, entry),
            final(self).snapshot == old(self).snapshot,
    {
        self.data.last_applied_log = Some(entry.log_id);
        match entry.payload {
            EntryPayload::Blank => Response::Manifest(ManifestResponse::Done),
            EntryPayload::Membership(membership) => {
                self.data.last_membership = StoredMembership {
                    log_id: Some(entry.log_id),
                    membership,
                };
                Response::Manifest(ManifestResponse::Done)
            },
            EntryPayload::Normal(req) => Self::apply_request(&mut self.data, req),
        }
    }

    /// Takes over a state that a snapshot held, with the snapshot's log
    /// position and membership.
    pub fn install_snapshot_at(
        &mut self,
        restored: StateMachineData,
        last_log_id: Option<LogId>,
        last_membership: StoredMembership,
        meta: SnapshotMeta,
        bytes: Vec<u8>,
        now: u64,
    )
        requires
            countable(normalized_manifests(restored@.manifests, now)),
        ensures
            final(self).data@ == (StateView {
                last_applied_log: last_log_id,
                last_membership: last_membership@,
                ..normalized_state(restored@, now)
            }),
            final(self).snapshot == Some((meta, bytes)),
    {
        let mut data = restored;
        data.normalize_restored_metadata_at(now);
        data.last_applied_log = last_log_id;
        data.last_membership = last_membership;
        self.data = data;
        self.snapshot = Some((meta, bytes));
    }
}

} // verus!
