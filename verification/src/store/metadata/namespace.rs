//! Namespaces: who owns the first segment of repository paths.
use crate::auth::identity::Subject;
use crate::store::metadata::typed_id::OrgId;
use vstd::prelude::*;

verus! {

/// Who owns a namespace.
#[derive(Debug, PartialEq, Eq)]
pub enum Owner {
    User(Subject),
    Org(OrgId),
}

/// Who an `Owner` is.
pub enum OwnerView {
    User(Seq<char>),
    Org(Seq<char>),
}

impl View for Owner {
    type V = OwnerView;

    open spec fn view(&self) -> OwnerView {
        match self {
            Owner::User(subject) => OwnerView::User(subject@),
            Owner::Org(org) => OwnerView::Org(org@),
        }
    }
}

impl DeepView for Owner {
    type V = OwnerView;

    open spec fn deep_view(&self) -> OwnerView {
        self@
    }
}

impl Clone for Owner {
    fn clone(&self) -> (r: Self)
        ensures
            r@ == self@,
    {
        match self {
            Owner::User(subject) => Owner::User(subject.clone()),
            Owner::Org(org) => Owner::Org(org.clone()),
        }
    }
}

/// Why a handle was released.
#[derive(Debug, PartialEq, Eq)]
pub enum ReleaseReason {
    OwnerDeleted,
    AdminRevoked,
    Renamed { new_handle: String },
}

/// What a `ReleaseReason` says.
pub enum ReleaseReasonView {
    OwnerDeleted,
    AdminRevoked,
    Renamed { new_handle: Seq<char> },
}

impl View for ReleaseReason {
    type V = ReleaseReasonView;

    open spec fn view(&self) -> ReleaseReasonView {
        match self {
            ReleaseReason::OwnerDeleted => ReleaseReasonView::OwnerDeleted,
            ReleaseReason::AdminRevoked => ReleaseReasonView::AdminRevoked,
            ReleaseReason::Renamed { new_handle } => {
                ReleaseReasonView::Renamed { new_handle: new_handle@ }
            },
        }
    }
}

impl DeepView for ReleaseReason {
    type V = ReleaseReasonView;

    open spec fn deep_view(&self) -> ReleaseReasonView {
        self@
    }
}

impl Clone for ReleaseReason {
    fn clone(&self) -> (r: Self)
        ensures
            r@ == self@,
    {
        match self {
            ReleaseReason::OwnerDeleted => ReleaseReason::OwnerDeleted,
            ReleaseReason::AdminRevoked => ReleaseReason::AdminRevoked,
            ReleaseReason::Renamed { new_handle } => {
                ReleaseReason::Renamed { new_handle: new_handle.clone() }
            },
        }
    }
}

/// A live claim of a handle.
#[derive(Debug)]
pub struct Namespace {
    pub handle: String,
    pub owner: Owner,
    pub owner_label: String,
    pub created_at: u64,
}

/// What a `Namespace` holds.
#[verifier::ext_equal]
pub struct NamespaceView {
    pub handle: Seq<char>,
    pub owner: OwnerView,
    pub owner_label: Seq<char>,
    pub created_at: u64,
}

impl View for Namespace {
    type V = NamespaceView;

    open spec fn view(&self) -> NamespaceView {
        NamespaceView {
            handle: self.handle.deep_view(),
            owner: self.owner.deep_view(),
            owner_label: self.owner_label.deep_view(),
            created_at: self.created_at,
        }
    }
}

impl DeepView for Namespace {
    type V = NamespaceView;

    open spec fn deep_view(&self) -> NamespaceView {
        self@
    }
}

impl Clone for Namespace {
    fn clone(&self) -> (r: Self)
        ensures
            r@ == self@,
    {
        Namespace {
            handle: self.handle.clone(),
            owner: self.owner.clone(),
            owner_label: self.owner_label.clone(),
            created_at: self.created_at,
        }
    }
}

/// The tombstone of a handle that was claimed before.
#[derive(Debug)]
pub struct ReleasedHandle {
    pub handle: String,
    pub prior_owner: Owner,
    pub prior_owner_label: String,
    pub released_at: u64,
    pub released_by: Subject,
    pub release_reason: ReleaseReason,
}

/// What a `ReleasedHandle` holds.
#[verifier::ext_equal]
pub struct ReleasedHandleView {
    pub handle: Seq<char>,
    pub prior_owner: OwnerView,
    pub prior_owner_label: Seq<char>,
    pub released_at: u64,
    pub released_by: Seq<char>,
    pub release_reason: ReleaseReasonView,
}

impl View for ReleasedHandle {
    type V = ReleasedHandleView;

    open spec fn view(&self) -> ReleasedHandleView {
        ReleasedHandleView {
            handle: self.handle.deep_view(),
            prior_owner: self.prior_owner.deep_view(),
            prior_owner_label: self.prior_owner_label.deep_view(),
            released_at: self.released_at,
            released_by: self.released_by.deep_view(),
            release_reason: self.release_reason.deep_view(),
        }
    }
}

impl DeepView for ReleasedHandle {
    type V = ReleasedHandleView;

    open spec fn deep_view(&self) -> ReleasedHandleView {
        self@
    }
}

impl Clone for ReleasedHandle {
    fn clone(&self) -> (r: Self)
        ensures
            r@ == self@,
    {
        ReleasedHandle {
            handle: self.handle.clone(),
            prior_owner: self.prior_owner.clone(),
            prior_owner_label: self.prior_owner_label.clone(),
            released_at: self.released_at,
            released_by: self.released_by.clone(),
            release_reason: self.release_reason.clone(),
        }
    }
}

} // verus!
