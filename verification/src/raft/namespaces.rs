//! Claims and releases of namespace handles.
use crate::error::{outcome, ErrorView, LayerhouseError};
use crate::raft::state::{StateMachineData, StateView};
use crate::raft::{NamespaceRequest, NamespaceResponse};
use crate::store::metadata::handle::{handle_outcome, validate_handle};
use crate::store::metadata::namespace::{
    Namespace, NamespaceView, Owner, OwnerView, ReleaseReason, ReleaseReasonView, ReleasedHandle,
    ReleasedHandleView,
};
use crate::string_map::{sorted_keys, StringMap};
use crate::text::{concat2, concat3, concat4, concat5, debug_quoted, quoted, starts_with};
use vstd::prelude::*;

verus! {

/// What kind of owner holds a handle; who it is stays unsaid.
pub open spec fn owner_kind(owner: OwnerView) -> Seq<char> {
    match owner {
        OwnerView::User(_) => "user"@,
        OwnerView::Org(_) => "org"@,
    }
}

/// How a reason for a release is named.
pub open spec fn reason_label(reason: ReleaseReasonView) -> Seq<char> {
    match reason {
        ReleaseReasonView::OwnerDeleted => "owner-deleted"@,
        ReleaseReasonView::AdminRevoked => "admin-revoked"@,
        ReleaseReasonView::Renamed { .. } => "renamed"@,
    }
}

/// Some repository of a collection lies under a handle.
pub open spec fn any_under(names: Set<Seq<char>>, handle: Seq<char>) -> bool {
    exists|k: Seq<char>| #[trigger] names.contains(k) && (handle + "/"@).is_prefix_of(k)
}

/// Content lies under a handle.
pub open spec fn has_content(s: StateView, handle: Seq<char>) -> bool {
    ||| any_under(s.manifests.dom(), handle)
    ||| any_under(s.tags.dom(), handle)
    ||| any_under(s.repositories.dom(), handle)
}

/// The refusal of a handle that nobody holds.
pub open spec fn not_claimed(handle: Seq<char>) -> ErrorView {
    ErrorView::Internal("handle "@ + debug_quoted(handle) + " is not currently claimed"@)
}

/// The state after a live claim became a tombstone.
pub open spec fn released(
    s: StateView,
    handle: Seq<char>,
    actor: Seq<char>,
    reason: ReleaseReasonView,
    now: u64,
) -> StateView {
    let ns = s.namespaces[handle];
    StateView {
        namespaces: s.namespaces.remove(handle),
        released_handles: s.released_handles.insert(
            handle,
            ReleasedHandleView {
                handle,
                prior_owner: ns.owner,
                prior_owner_label: ns.owner_label,
                released_at: now,
                released_by: actor,
                release_reason: reason,
            },
        ),
        ..s
    }
}

/// What claiming a handle does, and how it is answered.
pub open spec fn claim_step(
    s: StateView,
    handle: Seq<char>,
    owner: OwnerView,
    owner_label: Seq<char>,
    admin_override: bool,
    now: u64,
) -> (StateView, Result<NamespaceResponse, ErrorView>) {
    match handle_outcome(handle) {
        Err(e) => (s, Err(e)),
        Ok(_) => if s.namespaces.dom().contains(handle) {
            (
                s,
                Err(
                    ErrorView::Internal(
                        "handle "@ + debug_quoted(handle) + " is already claimed by a "@
                            + owner_kind(s.namespaces[handle].owner),
                    ),
                ),
            )
        } else if s.released_handles.dom().contains(handle) && !admin_override {
            (
                s,
                Err(
                    ErrorView::Internal(
                        "handle "@ + debug_quoted(handle) + " was previously released ("@
                            + reason_label(s.released_handles[handle].release_reason)
                            + "); reclaim requires admin override"@,
                    ),
                ),
            )
        } else {
            (
                StateView {
                    namespaces: s.namespaces.insert(
                        handle,
                        NamespaceView { handle, owner, owner_label, created_at: now },
                    ),
                    released_handles: s.released_handles.remove(handle),
                    ..s
                },
                Ok(NamespaceResponse::Done),
            )
        },
    }
}

/// What a change of namespaces does, and how it is answered.
pub open spec fn namespace_step(s: StateView, req: NamespaceRequest) -> (
    StateView,
    Result<NamespaceResponse, ErrorView>,
) {
    match req {
        NamespaceRequest::Claim { handle, owner, owner_label, actor, admin_override, now } => {
            claim_step(s, handle@, owner@, owner_label@, admin_override, now)
        },
        NamespaceRequest::Delete { handle, actor, reason, now } => if !s.namespaces.dom().contains(
            handle@,
        ) {
            (s, Err(not_claimed(handle@)))
        } else if has_content(s, handle@) {
            (
                s,
                Err(
                    ErrorView::Internal(
                        "handle "@ + debug_quoted(handle@)
                            + " still owns repositories or manifests; delete them before releasing"@,
                    ),
                ),
            )
        } else {
            (released(s, handle@, actor@, reason@, now), Ok(NamespaceResponse::Done))
        },
        NamespaceRequest::AdminRevoke { handle, actor, now } => if !s.namespaces.dom().contains(
            handle@,
        ) {
            (s, Err(not_claimed(handle@)))
        } else {
            (
                released(s, handle@, actor@, ReleaseReasonView::AdminRevoked, now),
                Ok(NamespaceResponse::Done),
            )
        },
    }
}

/// How a reason for a release is named.
pub fn release_reason_label(reason: &ReleaseReason) -> (r: &'static str)
    ensures
        r@ == reason_label(reason@),
{
    match reason {
        ReleaseReason::OwnerDeleted => "owner-deleted",
        ReleaseReason::AdminRevoked => "admin-revoked",
        ReleaseReason::Renamed { .. } => "renamed",
    }
}

/// Some key of a map lies under a handle.
fn any_key_under<V: DeepView>(map: &StringMap<V>, handle: &str) -> (r: bool)
    ensures
        r == any_under(map@.dom(), handle@),
{
    let prefix = concat2(handle, "/");
    let n = map.len();
    let ghost ks = sorted_keys(map@.dom());
    let mut i: usize = 0;
    while i < n
        invariant
            ks == sorted_keys(map@.dom()),
            n == ks.len(),
            i <= n,
            prefix@ == handle@ + "/"@,
            forall|k: Seq<char>| #[trigger] ks.contains(k) <==> map@.dom().contains(k),
            forall|j: int| 0 <= j < i ==> !prefix@.is_prefix_of(#[trigger] ks[j]),
        decreases n - i,
    {
        if starts_with(map.key_at(i).as_str(), prefix.as_str()) {
            assert(map@.dom().contains(ks[i as int]));
            return true;
        }
        i = i + 1;
    }
    assert forall|k: Seq<char>| #[trigger] map@.dom().contains(k) implies !prefix@.is_prefix_of(
        k,
    ) by {
        assert(ks.contains(k));
        let j = choose|j: int| 0 <= j < ks.len() && ks[j] == k;
        assert(ks[j] == k);
    }
    false
}

/// Content lies under a handle.
fn namespace_has_content(data: &StateMachineData, handle: &str) -> (r: bool)
    ensures
        r == has_content(data@, handle@),
{
    any_key_under(&data.manifests, handle) || any_key_under(&data.tags, handle) || any_key_under(
        &data.repositories,
        handle,
    )
}

/// Turns a live claim into a tombstone.
fn release(
    data: &mut StateMachineData,
    handle: String,
    ns: Namespace,
    actor: crate::auth::identity::Subject,
    reason: ReleaseReason,
    now: u64,
)
    ensures
        final(data)@ == (StateView {
            released_handles: old(data)@.released_handles.insert(
                handle@,
                ReleasedHandleView {
                    handle: handle@,
                    prior_owner: ns@.owner,
                    prior_owner_label: ns@.owner_label,
                    released_at: now,
                    released_by: actor@,
                    release_reason: reason@,
                },
            ),
            ..old(data)@
        }),
{
    let key = handle.clone();
    let _ = data.released_handles.insert(
        key,
        ReleasedHandle {
            handle,
            prior_owner: ns.owner,
            prior_owner_label: ns.owner_label,
            released_at: now,
            released_by: actor,
            release_reason: reason,
        },
    );
}

/// Applies a change of namespaces.
pub fn apply_namespace(data: &mut StateMachineData, req: NamespaceRequest) -> (r: Result<
    NamespaceResponse,
    LayerhouseError,
>)
    ensures
        (final(data)@, outcome(r)) == namespace_step(old(data)@, req),
{
    let ghost before = data@;
    match req {
        NamespaceRequest::Claim { handle, owner, owner_label, actor: _, admin_override, now } => {
            if let Err(e) = validate_handle(handle.as_str()) {
                return Err(e);
            }
            if let Some(ns) = data.namespaces.get(handle.as_str()) {
                let kind = match &ns.owner {
                    Owner::User(_) => "user",
                    Owner::Org(_) => "org",
                };
                return Err(
                    LayerhouseError::Internal(
                        concat4(
                            "handle ",
                            quoted(handle.as_str()).as_str(),
                            " is already claimed by a ",
                            kind,
                        ),
                    ),
                );
            }
            if let Some(tomb) = data.released_handles.get(handle.as_str()) {
                if !admin_override {
                    return Err(
                        LayerhouseError::Internal(
                            concat5(
                                "handle ",
                                quoted(handle.as_str()).as_str(),
                                " was previously released (",
                                release_reason_label(&tomb.release_reason),
                                "); reclaim requires admin override",
                            ),
                        ),
                    );
                }
            }
            let _ = data.released_handles.remove(handle.as_str());
            let key = handle.clone();
            let _ = data.namespaces.insert(
                key,
                Namespace { handle, owner, owner_label, created_at: now },
            );
            assert(data@ =~= claim_step(
                before,
                handle@,
                owner@,
                owner_label@,
                admin_override,
                now,
            ).0);
            Ok(NamespaceResponse::Done)
        },
        NamespaceRequest::Delete { handle, actor, reason, now } => {
            if !data.namespaces.contains_key(handle.as_str()) {
                return Err(
                    LayerhouseError::Internal(
                        concat3(
                            "handle ",
                            quoted(handle.as_str()).as_str(),
                            " is not currently claimed",
                        ),
                    ),
                );
            }
            if namespace_has_content(data, handle.as_str()) {
                return Err(
                    LayerhouseError::Internal(
                        concat3(
                            "handle ",
                            quoted(handle.as_str()).as_str(),
                            " still owns repositories or manifests; delete them before releasing",
                        ),
                    ),
                );
            }
            if let Some(ns) = data.namespaces.remove(handle.as_str()) {
                release(data, handle, ns, actor, reason, now);
            }
            Ok(NamespaceResponse::Done)
        },
        NamespaceRequest::AdminRevoke { handle, actor, now } => {
            match data.namespaces.remove(handle.as_str()) {
                Some(ns) => {
                    release(data, handle, ns, actor, ReleaseReason::AdminRevoked, now);
                    Ok(NamespaceResponse::Done)
                },
                None => {
                    assert(data@.namespaces =~= before.namespaces);
                    Err(
                        LayerhouseError::Internal(
                            concat3(
                                "handle ",
                                quoted(handle.as_str()).as_str(),
                                " is not currently claimed",
                            ),
                        ),
                    )
                },
            }
        },
    }
}

} // verus!
