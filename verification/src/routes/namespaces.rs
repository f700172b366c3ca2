//! Namespaces and the rights that their owners grant.
use super::admin::not_blank;
use super::uploads::{is_uuid_v4, uuid_v4_text};
use crate::auth::grants::RepositoryAction;
use crate::auth::identity::Subject;
use crate::auth::middleware::{unauthorized, unauthorized_error};
use crate::auth::token::{AuthIdentity, AuthIdentityView};
use crate::clones::{clone_list, clone_option};
use crate::error::{ErrorView, LayerhouseError};
use crate::listing::{
    predicate, relation, select, sort_list, sorts, stable_sorted, Selection, SortOrder,
};
use crate::raft::NamespaceRequest;
use crate::store::metadata::namespace::{
    Namespace, NamespaceView, Owner, OwnerView, ReleaseReason, ReleaseReasonView,
};
use crate::text::{
    concat3, contains_str, contains_text, debug_quoted, lemma_text_lt_irreflexive,
    lemma_text_lt_total, lemma_text_lt_transitive, lowercase, quoted, str_equal, str_less, text_lt,
    to_lowercase, trim, trimmed,
};
use vstd::prelude::*;

verus! {

// ── Values ───────────────────────────────────────────────────────────────

/// Who a right in a namespace is granted to.
#[derive(Debug)]
pub enum NamespaceGrantGrantee {
    Group { id: String },
    User { id: String },
    Public,
}

/// What a `NamespaceGrantGrantee` says.
pub enum NamespaceGrantGranteeView {
    Group { id: Seq<char> },
    User { id: Seq<char> },
    Public,
}

impl View for NamespaceGrantGrantee {
    type V = NamespaceGrantGranteeView;

    open spec fn view(&self) -> NamespaceGrantGranteeView {
        match self {
            NamespaceGrantGrantee::Group { id } => NamespaceGrantGranteeView::Group { id: id@ },
            NamespaceGrantGrantee::User { id } => NamespaceGrantGranteeView::User { id: id@ },
            NamespaceGrantGrantee::Public => NamespaceGrantGranteeView::Public,
        }
    }
}

impl DeepView for NamespaceGrantGrantee {
    type V = NamespaceGrantGranteeView;

    open spec fn deep_view(&self) -> NamespaceGrantGranteeView {
        self@
    }
}

impl Clone for NamespaceGrantGrantee {
    fn clone(&self) -> (r: Self)
        ensures
            r@ == self@,
    {
        match self {
            NamespaceGrantGrantee::Group { id } => NamespaceGrantGrantee::Group { id: id.clone() },
            NamespaceGrantGrantee::User { id } => NamespaceGrantGrantee::User { id: id.clone() },
            NamespaceGrantGrantee::Public => NamespaceGrantGrantee::Public,
        }
    }
}

/// A right that is granted in a namespace.
#[derive(Debug)]
pub struct NamespaceGrant {
    pub id: String,
    pub namespace: String,
    pub grantee: NamespaceGrantGrantee,
    pub action: RepositoryAction,
    pub label: String,
    pub created_by: String,
    pub created_at: u64,
    pub updated_by: String,
    pub updated_at: u64,
}

/// What a `NamespaceGrant` holds.
#[verifier::ext_equal]
pub struct NamespaceGrantView {
    pub id: Seq<char>,
    pub namespace: Seq<char>,
    pub grantee: NamespaceGrantGranteeView,
    pub action: RepositoryAction,
    pub label: Seq<char>,
    pub created_by: Seq<char>,
    pub created_at: u64,
    pub updated_by: Seq<char>,
    pub updated_at: u64,
}

impl View for NamespaceGrant {
    type V = NamespaceGrantView;

    open spec fn view(&self) -> NamespaceGrantView {
        NamespaceGrantView {
            id: self.id.deep_view(),
            namespace: self.namespace.deep_view(),
            grantee: self.grantee.deep_view(),
            action: self.action,
            label: self.label.deep_view(),
            created_by: self.created_by.deep_view(),
            created_at: self.created_at,
            updated_by: self.updated_by.deep_view(),
            updated_at: self.updated_at,
        }
    }
}

impl DeepView for NamespaceGrant {
    type V = NamespaceGrantView;

    open spec fn deep_view(&self) -> NamespaceGrantView {
        self@
    }
}

impl Clone for NamespaceGrant {
    fn clone(&self) -> (r: Self)
        ensures
            r@ == self@,
    {
        NamespaceGrant {
            id: self.id.clone(),
            namespace: self.namespace.clone(),
            grantee: self.grantee.clone(),
            action: self.action,
            label: self.label.clone(),
            created_by: self.created_by.clone(),
            created_at: self.created_at,
            updated_by: self.updated_by.clone(),
            updated_at: self.updated_at,
        }
    }
}

/// A change of a right that is granted in a namespace: who made it and why, what it
/// was called, and the right before and after it.
#[derive(Debug)]
pub struct NamespaceGrantAuditEvent {
    pub id: String,
    pub namespace: String,
    pub grant_id: Option<String>,
    pub operation: String,
    pub actor: Subject,
    pub actor_label: String,
    pub reason: String,
    pub before: Option<NamespaceGrant>,
    pub after: Option<NamespaceGrant>,
    pub created_at: u64,
}

/// What a `NamespaceGrantAuditEvent` holds.
#[verifier::ext_equal]
pub struct NamespaceGrantAuditEventView {
    pub id: Seq<char>,
    pub namespace: Seq<char>,
    pub grant_id: Option<Seq<char>>,
    pub operation: Seq<char>,
    pub actor: Seq<char>,
    pub actor_label: Seq<char>,
    pub reason: Seq<char>,
    pub before: Option<NamespaceGrantView>,
    pub after: Option<NamespaceGrantView>,
    pub created_at: u64,
}

impl View for NamespaceGrantAuditEvent {
    type V = NamespaceGrantAuditEventView;

    open spec fn view(&self) -> NamespaceGrantAuditEventView {
        NamespaceGrantAuditEventView {
            id: self.id.deep_view(),
            namespace: self.namespace.deep_view(),
            grant_id: self.grant_id.deep_view(),
            operation: self.operation.deep_view(),
            actor: self.actor@,
            actor_label: self.actor_label.deep_view(),
            reason: self.reason.deep_view(),
            before: self.before.deep_view(),
            after: self.after.deep_view(),
            created_at: self.created_at,
        }
    }
}

impl DeepView for NamespaceGrantAuditEvent {
    type V = NamespaceGrantAuditEventView;

    open spec fn deep_view(&self) -> NamespaceGrantAuditEventView {
        self@
    }
}

/// A change of a right as it is shown.
#[derive(Debug)]
pub struct NamespaceGrantAuditResponse {
    pub id: String,
    pub namespace: String,
    pub grant_id: Option<String>,
    pub operation: String,
    pub actor: String,
    pub actor_label: String,
    pub reason: String,
    pub before: Option<NamespaceGrant>,
    pub after: Option<NamespaceGrant>,
    pub created_at: u64,
}

/// What a `NamespaceGrantAuditResponse` holds.
#[verifier::ext_equal]
pub struct NamespaceGrantAuditResponseView {
    pub id: Seq<char>,
    pub namespace: Seq<char>,
    pub grant_id: Option<Seq<char>>,
    pub operation: Seq<char>,
    pub actor: Seq<char>,
    pub actor_label: Seq<char>,
    pub reason: Seq<char>,
    pub before: Option<NamespaceGrantView>,
    pub after: Option<NamespaceGrantView>,
    pub created_at: u64,
}

impl View for NamespaceGrantAuditResponse {
    type V = NamespaceGrantAuditResponseView;

    open spec fn view(&self) -> NamespaceGrantAuditResponseView {
        NamespaceGrantAuditResponseView {
            id: self.id.deep_view(),
            namespace: self.namespace.deep_view(),
            grant_id: self.grant_id.deep_view(),
            operation: self.operation.deep_view(),
            actor: self.actor.deep_view(),
            actor_label: self.actor_label.deep_view(),
            reason: self.reason.deep_view(),
            before: self.before.deep_view(),
            after: self.after.deep_view(),
            created_at: self.created_at,
        }
    }
}

impl DeepView for NamespaceGrantAuditResponse {
    type V = NamespaceGrantAuditResponseView;

    open spec fn deep_view(&self) -> NamespaceGrantAuditResponseView {
        self@
    }
}

/// Somebody who was seen, and when.
#[derive(Debug)]
pub struct ObservedIdentity {
    pub subject: String,
    pub username: Option<String>,
    pub display_name: Option<String>,
    pub email: Option<String>,
    pub groups: Vec<String>,
    pub last_seen_at: u64,
}

/// What a `ObservedIdentity` holds.
#[verifier::ext_equal]
pub struct ObservedIdentityView {
    pub subject: Seq<char>,
    pub username: Option<Seq<char>>,
    pub display_name: Option<Seq<char>>,
    pub email: Option<Seq<char>>,
    pub groups: Seq<Seq<char>>,
    pub last_seen_at: u64,
}

impl View for ObservedIdentity {
    type V = ObservedIdentityView;

    open spec fn view(&self) -> ObservedIdentityView {
        ObservedIdentityView {
            subject: self.subject.deep_view(),
            username: self.username.deep_view(),
            display_name: self.display_name.deep_view(),
            email: self.email.deep_view(),
            groups: self.groups.deep_view(),
            last_seen_at: self.last_seen_at,
        }
    }
}

impl DeepView for ObservedIdentity {
    type V = ObservedIdentityView;

    open spec fn deep_view(&self) -> ObservedIdentityView {
        self@
    }
}

impl Clone for ObservedIdentity {
    fn clone(&self) -> (r: Self)
        ensures
            r@ == self@,
    {
        ObservedIdentity {
            subject: self.subject.clone(),
            username: clone_option(&self.username),
            display_name: clone_option(&self.display_name),
            email: clone_option(&self.email),
            groups: clone_list(&self.groups),
            last_seen_at: self.last_seen_at,
        }
    }
}

/// A namespace as it is shown.
#[derive(Debug)]
pub struct NamespaceResponse {
    pub handle: String,
    pub owner_kind: String,
    pub owner_label: String,
    pub created_at: u64,
}

/// What a `NamespaceResponse` holds.
#[verifier::ext_equal]
pub struct NamespaceResponseView {
    pub handle: Seq<char>,
    pub owner_kind: Seq<char>,
    pub owner_label: Seq<char>,
    pub created_at: u64,
}

impl View for NamespaceResponse {
    type V = NamespaceResponseView;

    open spec fn view(&self) -> NamespaceResponseView {
        NamespaceResponseView {
            handle: self.handle.deep_view(),
            owner_kind: self.owner_kind.deep_view(),
            owner_label: self.owner_label.deep_view(),
            created_at: self.created_at,
        }
    }
}

impl DeepView for NamespaceResponse {
    type V = NamespaceResponseView;

    open spec fn deep_view(&self) -> NamespaceResponseView {
        self@
    }
}

impl Clone for NamespaceResponse {
    fn clone(&self) -> (r: Self)
        ensures
            r@ == self@,
    {
        NamespaceResponse {
            handle: self.handle.clone(),
            owner_kind: self.owner_kind.clone(),
            owner_label: self.owner_label.clone(),
            created_at: self.created_at,
        }
    }
}

/// Who a request names as the grantee of a right. An id is as the client wrote it.
#[derive(Debug)]
pub enum NamespaceGrantGranteeRequest {
    Group { id: String },
    User { id: String },
    Public,
}

/// What a `NamespaceGrantGranteeRequest` says.
pub enum GranteeRequestView {
    Group { id: Seq<char> },
    User { id: Seq<char> },
    Public,
}

impl View for NamespaceGrantGranteeRequest {
    type V = GranteeRequestView;

    open spec fn view(&self) -> GranteeRequestView {
        match self {
            NamespaceGrantGranteeRequest::Group { id } => GranteeRequestView::Group { id: id@ },
            NamespaceGrantGranteeRequest::User { id } => GranteeRequestView::User { id: id@ },
            NamespaceGrantGranteeRequest::Public => GranteeRequestView::Public,
        }
    }
}

impl DeepView for NamespaceGrantGranteeRequest {
    type V = GranteeRequestView;

    open spec fn deep_view(&self) -> GranteeRequestView {
        self@
    }
}

impl Clone for NamespaceGrantGranteeRequest {
    fn clone(&self) -> (r: Self)
        ensures
            r@ == self@,
    {
        match self {
            NamespaceGrantGranteeRequest::Group { id } => NamespaceGrantGranteeRequest::Group {
                id: id.clone(),
            },
            NamespaceGrantGranteeRequest::User { id } => NamespaceGrantGranteeRequest::User {
                id: id.clone(),
            },
            NamespaceGrantGranteeRequest::Public => NamespaceGrantGranteeRequest::Public,
        }
    }
}

/// A request for a right in a namespace.
#[derive(Debug)]
pub struct PutNamespaceGrantRequest {
    pub grantee: NamespaceGrantGranteeRequest,
    pub action: Option<RepositoryAction>,
    pub label: Option<String>,
    pub reason: Option<String>,
}

/// What a `PutNamespaceGrantRequest` holds.
#[verifier::ext_equal]
pub struct PutNamespaceGrantRequestView {
    pub grantee: GranteeRequestView,
    pub action: Option<RepositoryAction>,
    pub label: Option<Seq<char>>,
    pub reason: Option<Seq<char>>,
}

impl View for PutNamespaceGrantRequest {
    type V = PutNamespaceGrantRequestView;

    open spec fn view(&self) -> PutNamespaceGrantRequestView {
        PutNamespaceGrantRequestView {
            grantee: self.grantee.deep_view(),
            action: self.action,
            label: self.label.deep_view(),
            reason: self.reason.deep_view(),
        }
    }
}

impl DeepView for PutNamespaceGrantRequest {
    type V = PutNamespaceGrantRequestView;

    open spec fn deep_view(&self) -> PutNamespaceGrantRequestView {
        self@
    }
}

impl Clone for PutNamespaceGrantRequest {
    fn clone(&self) -> (r: Self)
        ensures
            r@ == self@,
    {
        PutNamespaceGrantRequest {
            grantee: self.grantee.clone(),
            action: self.action,
            label: clone_option(&self.label),
            reason: clone_option(&self.reason),
        }
    }
}

/// A request for a change of a right in a namespace.
#[derive(Debug)]
pub struct PatchNamespaceGrantRequest {
    pub action: Option<RepositoryAction>,
    pub label: Option<String>,
    pub reason: Option<String>,
}

/// What a `PatchNamespaceGrantRequest` holds.
#[verifier::ext_equal]
pub struct PatchNamespaceGrantRequestView {
    pub action: Option<RepositoryAction>,
    pub label: Option<Seq<char>>,
    pub reason: Option<Seq<char>>,
}

impl View for PatchNamespaceGrantRequest {
    type V = PatchNamespaceGrantRequestView;

    open spec fn view(&self) -> PatchNamespaceGrantRequestView {
        PatchNamespaceGrantRequestView {
            action: self.action,
            label: self.label.deep_view(),
            reason: self.reason.deep_view(),
        }
    }
}

impl DeepView for PatchNamespaceGrantRequest {
    type V = PatchNamespaceGrantRequestView;

    open spec fn deep_view(&self) -> PatchNamespaceGrantRequestView {
        self@
    }
}

impl Clone for PatchNamespaceGrantRequest {
    fn clone(&self) -> (r: Self)
        ensures
            r@ == self@,
    {
        PatchNamespaceGrantRequest {
            action: self.action,
            label: clone_option(&self.label),
            reason: clone_option(&self.reason),
        }
    }
}

// ── Callers ──────────────────────────────────────────────────────────────

/// Who is behind a request. That nobody has to log in, and that nobody did, are
/// errors.
pub fn require_auth(auth_enabled: bool, identity: Option<&AuthIdentity>) -> (r: Result<
    &AuthIdentity,
    LayerhouseError,
>)
    ensures
        if !auth_enabled {
            r matches Err(e) && e@ == ErrorView::Internal("auth is not configured"@)
        } else {
            match identity {
                Some(i) => r == Ok::<&AuthIdentity, LayerhouseError>(i),
                None => r matches Err(e) && e@ == unauthorized("authentication required"@),
            }
        },
{
    if !auth_enabled {
        return Err(LayerhouseError::Internal("auth is not configured".to_string()));
    }
    match identity {
        Some(i) => Ok(i),
        None => Err(unauthorized_error("authentication required")),
    }
}

/// The name of a caller in the records of changes.
pub open spec fn caller_label(identity: AuthIdentityView) -> Seq<char> {
    match (identity.display_name, identity.username, identity.email) {
        (Some(name), _, _) => name,
        (None, Some(name), _) => name,
        (None, None, Some(name)) => name,
        (None, None, None) => identity.subject,
    }
}

/// The name of a caller in the records of changes.
pub fn actor_label(identity: &AuthIdentity) -> (r: String)
    ensures
        r@ == caller_label(identity@),
{
    match (&identity.display_name, &identity.username, &identity.email) {
        (Some(name), _, _) => name.clone(),
        (None, Some(name), _) => name.clone(),
        (None, None, Some(name)) => name.clone(),
        (None, None, None) => identity.subject.clone(),
    }
}

// ── Namespaces ───────────────────────────────────────────────────────────

/// A namespace as it is shown.
pub open spec fn shown_namespace(ns: NamespaceView) -> NamespaceResponseView {
    NamespaceResponseView {
        handle: ns.handle,
        owner_kind: match ns.owner {
            OwnerView::User(_) => "user"@,
            OwnerView::Org(_) => "org"@,
        },
        owner_label: ns.owner_label,
        created_at: ns.created_at,
    }
}

/// A namespace as it is shown.
pub fn namespace_response(ns: &Namespace) -> (r: NamespaceResponse)
    ensures
        r@ == shown_namespace(ns@),
{
    NamespaceResponse {
        handle: ns.handle.clone(),
        owner_kind: match &ns.owner {
            Owner::User(_) => "user".to_string(),
            Owner::Org(_) => "org".to_string(),
        },
        owner_label: ns.owner_label.clone(),
        created_at: ns.created_at,
    }
}

/// The namespaces of a user as they are shown, or of all owners.
pub open spec fn shown_namespaces(list: Seq<NamespaceView>, owner: Option<Seq<char>>) -> Seq<
    NamespaceResponseView,
>
    decreases list.len(),
{
    if list.len() == 0 {
        Seq::empty()
    } else {
        let before = shown_namespaces(list.drop_last(), owner);
        if owner matches Some(subject) && list.last().owner != OwnerView::User(subject) {
            before
        } else {
            before.push(shown_namespace(list.last()))
        }
    }
}

/// Whether a user owns a namespace.
pub fn is_owner(ns: &Namespace, subject: &str) -> (r: bool)
    ensures
        r == (ns@.owner == OwnerView::User(subject@)),
{
    match &ns.owner {
        Owner::User(s) => str_equal(s.as_str(), subject),
        Owner::Org(_) => false,
    }
}

/// The namespaces of a user as they are shown, or of all owners.
pub fn list_namespaces(list: &Vec<Namespace>, owner: Option<&str>) -> (r: Vec<NamespaceResponse>)
    ensures
        r.deep_view() == shown_namespaces(
            list.deep_view(),
            match owner {
                Some(subject) => Some(subject@),
                None => None,
            },
        ),
{
    let ghost all = list.deep_view();
    let ghost wanted: Option<Seq<char>> = match owner {
        Some(subject) => Some(subject@),
        None => None,
    };
    let mut r: Vec<NamespaceResponse> = Vec::new();
    let mut i: usize = 0;
    assert(r.deep_view() =~= shown_namespaces(all.take(0), wanted));
    while i < list.len()
        invariant
            all == list.deep_view(),
            wanted == match owner {
                Some(subject) => Some(subject@),
                None => None,
            },
            i <= list@.len(),
            r.deep_view() == shown_namespaces(all.take(i as int), wanted),
        decreases list@.len() - i,
    {
        let ghost before = r.deep_view();
        proof {
            assert(all.take(i + 1).drop_last() =~= all.take(i as int));
            assert(all.take(i + 1).last() == list@[i as int]@);
        }
        let skipped = match owner {
            Some(subject) => !is_owner(&list[i], subject),
            None => false,
        };
        if !skipped {
            let item = namespace_response(&list[i]);
            let ghost shown = item@;
            r.push(item);
            assert(r.deep_view() =~= before.push(shown));
        }
        i = i + 1;
    }
    assert(all.take(all.len() as int) =~= all);
    r
}

/// A namespace that must be there.
pub fn existing_namespace(ns: Option<Namespace>, handle: &str) -> (r: Result<
    Namespace,
    LayerhouseError,
>)
    ensures
        match ns {
            Some(n) => r == Ok::<Namespace, LayerhouseError>(n),
            None => r matches Err(e) && e@ == ErrorView::NameUnknown(
                "namespace "@ + debug_quoted(handle@) + " not found"@,
            ),
        },
{
    match ns {
        Some(n) => Ok(n),
        None => Err(
            LayerhouseError::NameUnknown(concat3("namespace ", &quoted(handle), " not found")),
        ),
    }
}

/// Checks that a namespace is there and that a caller owns it.
pub fn require_namespace_owner(ns: Option<Namespace>, identity: &AuthIdentity, handle: &str) -> (r:
    Result<(), LayerhouseError>)
    ensures
        match ns {
            None => r matches Err(e) && e@ == ErrorView::NameUnknown(
                "namespace "@ + debug_quoted(handle@) + " not found"@,
            ),
            Some(n) => if n@.owner == OwnerView::User(identity@.subject) {
                r is Ok
            } else {
                r matches Err(e) && e@ == ErrorView::Denied(
                    "namespace "@ + debug_quoted(handle@) + " is not owned by the caller"@,
                )
            },
        },
{
    match existing_namespace(ns, handle) {
        Err(e) => Err(e),
        Ok(n) => if is_owner(&n, &identity.subject) {
            Ok(())
        } else {
            Err(
                LayerhouseError::Denied(
                    concat3("namespace ", &quoted(handle), " is not owned by the caller"),
                ),
            )
        },
    }
}

/// The label of the owner of a claimed namespace: the one asked for, or the name
/// of the caller.
pub open spec fn label_of_claim(owner_label: Option<Seq<char>>, identity: AuthIdentityView) -> Seq<
    char,
> {
    match owner_label {
        Some(label) => label,
        None => match identity.username {
            Some(name) => name,
            None => "unknown"@,
        },
    }
}

/// The label of the owner of a claimed namespace.
pub fn claim_label(owner_label: &Option<String>, identity: &AuthIdentity) -> (r: String)
    ensures
        r@ == label_of_claim(owner_label.deep_view(), identity@),
{
    match owner_label {
        Some(label) => label.clone(),
        None => match &identity.username {
            Some(name) => name.clone(),
            None => "unknown".to_string(),
        },
    }
}

/// A text that a request may leave blank, without white space around it.
pub open spec fn plain(value: Option<&str>) -> Option<Seq<char>> {
    match value {
        Some(v) => Some(v@),
        None => None,
    }
}

/// A text that a request may leave blank, without white space around it.
fn filled(value: Option<&str>) -> (r: Option<String>)
    ensures
        r.deep_view() == not_blank(plain(value)),
{
    match value {
        Some(v) => {
            let text = trim(v);
            if text.as_str().unicode_len() > 0 {
                Some(text)
            } else {
                None
            }
        },
        None => None,
    }
}

/// Why a namespace is released: it moves to the handle that the request names,
/// or its owner gives it up.
pub open spec fn release_reason_of(reason: Option<Seq<char>>) -> ReleaseReasonView {
    match not_blank(reason) {
        Some(new_handle) => ReleaseReasonView::Renamed { new_handle },
        None => ReleaseReasonView::OwnerDeleted,
    }
}

/// Why a namespace is released.
pub fn release_reason(reason: Option<&str>) -> (r: ReleaseReason)
    ensures
        r@ == release_reason_of(plain(reason)),
{
    match filled(reason) {
        Some(new_handle) => ReleaseReason::Renamed { new_handle },
        None => ReleaseReason::OwnerDeleted,
    }
}

/// The handle that nobody can claim: the namespaces of the users lie under it.
pub const RESERVED_HANDLE: &'static str = "users";

/// Whether a change claims a handle for a user, with a label.
pub open spec fn claims_handle(
    req: NamespaceRequest,
    handle: Seq<char>,
    subject: Seq<char>,
    label: Seq<char>,
    admin_override: bool,
    now: u64,
) -> bool {
    req matches NamespaceRequest::Claim {
        handle: h,
        owner,
        owner_label,
        actor,
        admin_override: o,
        now: t,
    } && h@ == handle && owner@ == OwnerView::User(subject) && owner_label@ == label && actor@
        == subject && o == admin_override && t == now
}

/// The change by which a caller claims a handle.
pub fn claim_request(
    identity: &AuthIdentity,
    handle: &str,
    owner_label: &Option<String>,
    admin_override: bool,
    now: u64,
) -> (r: Result<NamespaceRequest, LayerhouseError>)
    ensures
        match r {
            Ok(req) => handle@ != RESERVED_HANDLE@ && claims_handle(
                req,
                handle@,
                identity@.subject,
                label_of_claim(owner_label.deep_view(), identity@),
                admin_override,
                now,
            ),
            Err(e) => handle@ == RESERVED_HANDLE@ && e@ == ErrorView::NameInvalid(
                "handle "@ + debug_quoted(handle@) + " is reserved"@,
            ),
        },
{
    if str_equal(handle, RESERVED_HANDLE) {
        return Err(
            LayerhouseError::NameInvalid(concat3("handle ", &quoted(handle), " is reserved")),
        );
    }
    Ok(
        NamespaceRequest::Claim {
            handle: handle.to_string(),
            owner: Owner::User(Subject::new(identity.subject.clone())),
            owner_label: claim_label(owner_label, identity),
            actor: Subject::new(identity.subject.clone()),
            admin_override,
            now,
        },
    )
}

/// The change by which a caller gives up a namespace. Nobody can give up what
/// somebody else owns; whether the handle is claimed at all is found out when the
/// change is applied.
pub fn release_request(
    ns: Option<&Namespace>,
    identity: &AuthIdentity,
    handle: &str,
    reason: Option<&str>,
    now: u64,
) -> (r: Result<NamespaceRequest, LayerhouseError>)
    ensures
        ({
            let foreign = ns matches Some(n) && n@.owner != OwnerView::User(identity@.subject);
            match r {
                Ok(req) => !foreign && (req matches NamespaceRequest::Delete {
                    handle: h,
                    actor,
                    reason: why,
                    now: t,
                } && h@ == handle@ && actor@ == identity@.subject && why@ == release_reason_of(
                    plain(reason),
                ) && t == now),
                Err(e) => foreign && e@ == ErrorView::Denied(
                    "namespace "@ + debug_quoted(handle@) + " is not owned by the caller"@,
                ),
            }
        }),
{
    if let Some(n) = ns {
        if !is_owner(n, &identity.subject) {
            return Err(
                LayerhouseError::Denied(
                    concat3("namespace ", &quoted(handle), " is not owned by the caller"),
                ),
            );
        }
    }
    Ok(
        NamespaceRequest::Delete {
            handle: handle.to_string(),
            actor: Subject::new(identity.subject.clone()),
            reason: release_reason(reason),
            now,
        },
    )
}

// ── Grants ───────────────────────────────────────────────────────────────

/// Why a grant is changed. An administrator has to say.
pub open spec fn reason_of(reason: Option<Seq<char>>, required: bool) -> Result<
    Seq<char>,
    ErrorView,
> {
    match not_blank(reason) {
        Some(text) => Ok(text),
        None => if required {
            Err(ErrorView::NameInvalid("admin grant changes require a reason"@))
        } else {
            Ok("owner change"@)
        },
    }
}

/// Why a grant is changed. An administrator has to say.
pub fn normalized_reason(reason: Option<&str>, required: bool) -> (r: Result<
    String,
    LayerhouseError,
>)
    ensures
        match r {
            Ok(text) => reason_of(plain(reason), required) == Ok::<_, ErrorView>(text@),
            Err(e) => reason_of(plain(reason), required) == Err::<Seq<char>, _>(e@),
        },
{
    match filled(reason) {
        Some(text) => Ok(text),
        None => if required {
            Err(LayerhouseError::NameInvalid("admin grant changes require a reason".to_string()))
        } else {
            Ok("owner change".to_string())
        },
    }
}

/// The grantee that a request names: a group or a user under the id that was read from
/// what the client wrote, or why it could not be read.
pub open spec fn grantee_of(
    grantee: GranteeRequestView,
    read_id: Result<Seq<char>, ErrorView>,
) -> Result<NamespaceGrantGranteeView, ErrorView> {
    match (grantee, read_id) {
        (GranteeRequestView::Public, _) => Ok(NamespaceGrantGranteeView::Public),
        (_, Err(e)) => Err(e),
        (GranteeRequestView::Group { .. }, Ok(id)) => Ok(NamespaceGrantGranteeView::Group { id }),
        (GranteeRequestView::User { .. }, Ok(id)) => Ok(NamespaceGrantGranteeView::User { id }),
    }
}

impl NamespaceGrantGranteeRequest {
    /// The grantee that a request names. `read_id` is what the identity providers read
    /// from the id of a group or a user; the public has no id, and it is not looked at.
    pub fn into_grantee(self, read_id: Result<String, LayerhouseError>) -> (r: Result<
        NamespaceGrantGrantee,
        LayerhouseError,
    >)
        ensures
            match grantee_of(
                self@,
                match read_id {
                    Ok(id) => Ok(id@),
                    Err(e) => Err(e@),
                },
            ) {
                Ok(grantee) => r matches Ok(g) && g@ == grantee,
                Err(error) => r matches Err(e) && e@ == error,
            },
    {
        match (self, read_id) {
            (NamespaceGrantGranteeRequest::Public, _) => Ok(NamespaceGrantGrantee::Public),
            (_, Err(e)) => Err(e),
            (NamespaceGrantGranteeRequest::Group { .. }, Ok(id)) => Ok(
                NamespaceGrantGrantee::Group { id },
            ),
            (NamespaceGrantGranteeRequest::User { .. }, Ok(id)) => Ok(
                NamespaceGrantGrantee::User { id },
            ),
        }
    }
}

/// The action that is granted: what was asked for, which must be one on a repository,
/// but never more than pulling to the public.
pub open spec fn granted_action(
    grantee: NamespaceGrantGranteeView,
    action: Option<RepositoryAction>,
) -> Result<RepositoryAction, ErrorView> {
    match action {
        None => Err(ErrorView::NameInvalid("namespace grants only support repository actions"@)),
        Some(a) => if grantee is Public {
            Ok(RepositoryAction::Pull)
        } else {
            Ok(a)
        },
    }
}

/// The action that is granted. `None` stands for an action on something else than a
/// repository, which is refused.
pub fn public_safe_action(grantee: &NamespaceGrantGrantee, action: Option<RepositoryAction>) -> (r:
    Result<RepositoryAction, LayerhouseError>)
    ensures
        match granted_action(grantee@, action) {
            Ok(a) => r == Ok::<RepositoryAction, LayerhouseError>(a),
            Err(error) => r matches Err(e) && e@ == error,
        },
{
    match action {
        None => Err(
            LayerhouseError::NameInvalid(
                "namespace grants only support repository actions".to_string(),
            ),
        ),
        Some(a) => match grantee {
            NamespaceGrantGrantee::Public => Ok(RepositoryAction::Pull),
            _ => Ok(a),
        },
    }
}

/// Whether two grantees are the same.
pub fn same_grantee(a: &NamespaceGrantGrantee, b: &NamespaceGrantGrantee) -> (r: bool)
    ensures
        r == (a@ == b@),
{
    match (a, b) {
        (NamespaceGrantGrantee::Group { id: x }, NamespaceGrantGrantee::Group { id: y }) => {
            str_equal(x, y)
        },
        (NamespaceGrantGrantee::User { id: x }, NamespaceGrantGrantee::User { id: y }) => str_equal(
            x,
            y,
        ),
        (NamespaceGrantGrantee::Public, NamespaceGrantGrantee::Public) => true,
        _ => false,
    }
}

/// The first position from `from` on of a grant to a grantee, or the end.
pub open spec fn grantee_position(
    grants: Seq<NamespaceGrantView>,
    grantee: NamespaceGrantGranteeView,
    from: int,
) -> int
    decreases grants.len() - from,
{
    if from < grants.len() && grants[from].grantee != grantee {
        grantee_position(grants, grantee, from + 1)
    } else {
        from
    }
}

/// The grant that a grantee already has.
pub open spec fn matching(grants: Seq<NamespaceGrantView>, grantee: NamespaceGrantGranteeView) -> Option<
    NamespaceGrantView,
> {
    let p = grantee_position(grants, grantee, 0);
    if p < grants.len() {
        Some(grants[p])
    } else {
        None
    }
}

/// The grant that a grantee already has.
pub fn matching_grant<'a>(
    grants: &'a Vec<NamespaceGrant>,
    grantee: &NamespaceGrantGrantee,
) -> (r: Option<&'a NamespaceGrant>)
    ensures
        r.deep_view() == matching(grants.deep_view(), grantee@),
{
    let ghost all = grants.deep_view();
    let mut i: usize = 0;
    while i < grants.len()
        invariant
            all == grants.deep_view(),
            i <= grants@.len(),
            grantee_position(all, grantee@, 0) == grantee_position(all, grantee@, i as int),
        decreases grants@.len() - i,
    {
        assert(all[i as int] == grants@[i as int]@);
        if same_grantee(&grants[i].grantee, grantee) {
            return Some(&grants[i]);
        }
        i = i + 1;
    }
    None
}

/// A grant as a request asks for it, or why it is refused. A grantee that has one
/// already keeps its id.
pub open spec fn put_grant_of(
    identity: AuthIdentityView,
    handle: Seq<char>,
    grantee: NamespaceGrantGranteeView,
    request: PutNamespaceGrantRequestView,
    known: Option<NamespaceGrantView>,
    fresh_id: Seq<char>,
    default_label: Seq<char>,
    now: u64,
) -> Result<NamespaceGrantView, ErrorView> {
    match granted_action(grantee, request.action) {
        Err(e) => Err(e),
        Ok(action) => Ok(
            NamespaceGrantView {
                id: match known {
                    Some(grant) => grant.id,
                    None => fresh_id,
                },
                namespace: handle,
                grantee,
                action,
                label: match not_blank(request.label) {
                    Some(label) => label,
                    None => default_label,
                },
                created_by: identity.subject,
                created_at: now,
                updated_by: identity.subject,
                updated_at: now,
            },
        ),
    }
}

/// A text that a request may leave blank.
fn text_or(label: &Option<String>, other: String) -> (r: String)
    ensures
        r@ == match not_blank(label.deep_view()) {
            Some(text) => text,
            None => other@,
        },
{
    let value: Option<&str> = match label {
        Some(text) => Some(text.as_str()),
        None => None,
    };
    assert(plain(value) == label.deep_view());
    match filled(value) {
        Some(text) => text,
        None => other,
    }
}

/// A grant as a request asks for it, under a given id. A grantee that has one already
/// keeps its id.
pub fn put_grant(
    identity: &AuthIdentity,
    handle: &str,
    grantee: &NamespaceGrantGrantee,
    request: &PutNamespaceGrantRequest,
    known: Option<&NamespaceGrant>,
    fresh_id: String,
    default_label: String,
    now: u64,
) -> (r: Result<NamespaceGrant, LayerhouseError>)
    ensures
        match put_grant_of(
            identity@,
            handle@,
            grantee@,
            request@,
            known.deep_view(),
            fresh_id@,
            default_label@,
            now,
        ) {
            Ok(grant) => r matches Ok(g) && g@ == grant,
            Err(error) => r matches Err(e) && e@ == error,
        },
{
    let action = match public_safe_action(grantee, request.action) {
        Ok(a) => a,
        Err(e) => return Err(e),
    };
    Ok(
        NamespaceGrant {
            id: match known {
                Some(grant) => grant.id.clone(),
                None => fresh_id,
            },
            namespace: handle.to_string(),
            grantee: grantee.clone(),
            action,
            label: text_or(&request.label, default_label),
            created_by: identity.subject.clone(),
            created_at: now,
            updated_by: identity.subject.clone(),
            updated_at: now,
        },
    )
}

/// A grant as a request asks for it, under the id that the grantee has already
/// or under a new one.
pub fn new_grant(
    identity: &AuthIdentity,
    handle: &str,
    grantee: &NamespaceGrantGrantee,
    request: &PutNamespaceGrantRequest,
    grants: &Vec<NamespaceGrant>,
    default_label: String,
    now: u64,
) -> (r: Result<NamespaceGrant, LayerhouseError>)
    ensures
        match granted_action(grantee@, request@.action) {
            Err(error) => r matches Err(e) && e@ == error,
            Ok(_) => r matches Ok(g) && exists|id: Seq<char>|
                {
                    &&& is_uuid_v4(id)
                    &&& Ok::<_, ErrorView>(g@) == #[trigger] put_grant_of(
                        identity@,
                        handle@,
                        grantee@,
                        request@,
                        matching(grants.deep_view(), grantee@),
                        id,
                        default_label@,
                        now,
                    )
                },
        },
{
    let id = uuid_v4_text();
    let known = matching_grant(grants, grantee);
    put_grant(identity, handle, grantee, request, known, id, default_label, now)
}

/// The error for a grant that is not there.
pub open spec fn grant_unknown(grant_id: Seq<char>) -> ErrorView {
    ErrorView::NameUnknown("namespace grant "@ + debug_quoted(grant_id) + " not found"@)
}

/// A changed grant, or why the change is refused.
pub open spec fn patched_grant(
    identity: AuthIdentityView,
    grant: NamespaceGrantView,
    request: PatchNamespaceGrantRequestView,
    now: u64,
) -> Result<NamespaceGrantView, ErrorView> {
    match granted_action(grant.grantee, request.action) {
        Err(e) => Err(e),
        Ok(action) => Ok(
            NamespaceGrantView {
                action,
                label: match not_blank(request.label) {
                    Some(label) => label,
                    None => grant.label,
                },
                updated_by: identity.subject,
                updated_at: now,
                ..grant
            },
        ),
    }
}

/// A changed grant, which must be there.
pub fn patch_grant(
    identity: &AuthIdentity,
    grant: Option<NamespaceGrant>,
    grant_id: &str,
    request: &PatchNamespaceGrantRequest,
    now: u64,
) -> (r: Result<NamespaceGrant, LayerhouseError>)
    ensures
        match grant {
            Some(g) => match patched_grant(identity@, g@, request@, now) {
                Ok(patched) => r matches Ok(changed) && changed@ == patched,
                Err(error) => r matches Err(e) && e@ == error,
            },
            None => r matches Err(e) && e@ == grant_unknown(grant_id@),
        },
{
    match grant {
        None => Err(
            LayerhouseError::NameUnknown(
                concat3("namespace grant ", &quoted(grant_id), " not found"),
            ),
        ),
        Some(g) => {
            let mut changed = g;
            match public_safe_action(&changed.grantee, request.action) {
                Err(e) => Err(e),
                Ok(action) => {
                    changed.action = action;
                    changed.label = text_or(&request.label, changed.label.clone());
                    changed.updated_by = identity.subject.clone();
                    changed.updated_at = now;
                    Ok(changed)
                },
            }
        },
    }
}

/// How the deletion of a grant is answered.
pub fn grant_deleted(deleted: bool, grant_id: &str) -> (r: Result<u16, LayerhouseError>)
    ensures
        if deleted {
            r == Ok::<u16, LayerhouseError>(204u16)
        } else {
            r matches Err(e) && e@ == grant_unknown(grant_id@)
        },
{
    if deleted {
        Ok(204)
    } else {
        Err(
            LayerhouseError::NameUnknown(
                concat3("namespace grant ", &quoted(grant_id), " not found"),
            ),
        )
    }
}

/// Whatever is asked for, the public can only ever pull.
pub proof fn lemma_public_can_only_pull(
    identity: AuthIdentityView,
    handle: Seq<char>,
    put: PutNamespaceGrantRequestView,
    known: Option<NamespaceGrantView>,
    id: Seq<char>,
    label: Seq<char>,
    grant: NamespaceGrantView,
    patch: PatchNamespaceGrantRequestView,
    now: u64,
)
    ensures
        put_grant_of(
            identity,
            handle,
            NamespaceGrantGranteeView::Public,
            put,
            known,
            id,
            label,
            now,
        ) matches Ok(made) ==> made.action is Pull,
        grant.grantee is Public ==> (patched_grant(identity, grant, patch, now) matches Ok(changed)
            ==> changed.action is Pull),
{
}

// ── Audit ────────────────────────────────────────────────────────────────

/// A change of a right as it is shown.
pub open spec fn shown_audit(event: NamespaceGrantAuditEventView) -> NamespaceGrantAuditResponseView {
    NamespaceGrantAuditResponseView {
        id: event.id,
        namespace: event.namespace,
        grant_id: event.grant_id,
        operation: event.operation,
        actor: event.actor,
        actor_label: event.actor_label,
        reason: event.reason,
        before: event.before,
        after: event.after,
        created_at: event.created_at,
    }
}

/// A change of a right as it is shown.
pub fn namespace_grant_audit_response(event: &NamespaceGrantAuditEvent) -> (r:
    NamespaceGrantAuditResponse)
    ensures
        r@ == shown_audit(event@),
{
    NamespaceGrantAuditResponse {
        id: event.id.clone(),
        namespace: event.namespace.clone(),
        grant_id: clone_option(&event.grant_id),
        operation: event.operation.clone(),
        actor: event.actor.as_str().to_string(),
        actor_label: event.actor_label.clone(),
        reason: event.reason.clone(),
        before: match &event.before {
            Some(grant) => Some(grant.clone()),
            None => None,
        },
        after: match &event.after {
            Some(grant) => Some(grant.clone()),
            None => None,
        },
        created_at: event.created_at,
    }
}

/// The changes of the rights in a namespace as they are shown: all of them, in
/// the order in which they were made.
pub fn list_namespace_grant_audit(events: &Vec<NamespaceGrantAuditEvent>) -> (r: Vec<
    NamespaceGrantAuditResponse,
>)
    ensures
        r.deep_view() == events.deep_view().map_values(
            |event: NamespaceGrantAuditEventView| shown_audit(event),
        ),
{
    let mut r: Vec<NamespaceGrantAuditResponse> = Vec::new();
    let mut i: usize = 0;
    while i < events.len()
        invariant
            i <= events@.len(),
            r@.len() == i,
            forall|j: int| 0 <= j < i ==> (#[trigger] r@[j])@ == shown_audit(events@[j]@),
        decreases events@.len() - i,
    {
        r.push(namespace_grant_audit_response(&events[i]));
        i = i + 1;
    }
    assert(r.deep_view() =~= events.deep_view().map_values(
        |event: NamespaceGrantAuditEventView| shown_audit(event),
    ));
    r
}

// ── Observed users ───────────────────────────────────────────────────────

/// How many users are listed where the request does not say.
pub const DEFAULT_USERS: usize = 20;

/// How many users are listed at most.
pub const MAX_USERS: usize = 50;

/// How many users are listed.
pub fn user_limit(limit: Option<usize>) -> (r: usize)
    ensures
        1 <= r <= MAX_USERS,
        r == match limit {
            None => DEFAULT_USERS,
            Some(n) => if n < 1 {
                1
            } else if n > MAX_USERS {
                MAX_USERS
            } else {
                n
            },
        },
{
    match limit {
        None => DEFAULT_USERS,
        Some(n) => if n < 1 {
            1
        } else if n > MAX_USERS {
            MAX_USERS
        } else {
            n
        },
    }
}

/// Whether a text, where there is one, holds what is searched for.
pub open spec fn says(value: Option<Seq<char>>, query: Seq<char>) -> bool {
    value matches Some(v) && contains_text(lowercase(v), query)
}

/// Whether a search is for a user.
pub open spec fn user_fits(user: ObservedIdentityView, query: Seq<char>) -> bool {
    ||| query.len() == 0
    ||| contains_text(lowercase(user.subject), query)
    ||| says(user.username, query)
    ||| says(user.display_name, query)
    ||| says(user.email, query)
}

/// Whether a user stands before another: who was seen later, or whose subject
/// comes first.
pub open spec fn user_before(a: ObservedIdentityView, b: ObservedIdentityView) -> bool {
    a.last_seen_at > b.last_seen_at || (a.last_seen_at == b.last_seen_at && text_lt(
        a.subject,
        b.subject,
    ))
}

/// The users that a search is for, the latest seen first.
pub open spec fn users_found(users: Seq<ObservedIdentityView>, q: Seq<char>, limit: int) -> Seq<
    ObservedIdentityView,
> {
    let query = lowercase(trimmed(q));
    let all = stable_sorted(
        users.filter(|u: ObservedIdentityView| user_fits(u, query)),
        |a: ObservedIdentityView, b: ObservedIdentityView| user_before(a, b),
    );
    if all.len() > limit {
        all.take(limit)
    } else {
        all
    }
}

/// The users whose names hold a text.
pub struct UserSearch {
    pub query: String,
}

/// The order in which users are listed.
pub struct UserOrder;

/// Whether a text, where there is one, holds what is searched for.
fn holds(value: &Option<String>, query: &str) -> (r: bool)
    ensures
        r == says(value.deep_view(), query@),
{
    match value {
        Some(v) => contains_str(&to_lowercase(v), query),
        None => false,
    }
}

impl Selection<ObservedIdentity> for UserSearch {
    open spec fn selects(&self, item: ObservedIdentityView) -> bool {
        user_fits(item, self.query@)
    }

    fn is_selected(&self, item: &ObservedIdentity) -> (r: bool) {
        self.query.as_str().unicode_len() == 0 || contains_str(
            &to_lowercase(&item.subject),
            &self.query,
        ) || holds(&item.username, &self.query) || holds(&item.display_name, &self.query) || holds(
            &item.email,
            &self.query,
        )
    }
}

impl SortOrder<ObservedIdentity> for UserOrder {
    open spec fn before(&self, a: ObservedIdentityView, b: ObservedIdentityView) -> bool {
        user_before(a, b)
    }

    fn is_before(&self, a: &ObservedIdentity, b: &ObservedIdentity) -> (r: bool) {
        a.last_seen_at > b.last_seen_at || (a.last_seen_at == b.last_seen_at && str_less(
            &a.subject,
            &b.subject,
        ))
    }
}

/// The users that a search is for, the latest seen first.
pub fn search_observed_identities(users: &Vec<ObservedIdentity>, query: &str, limit: usize) -> (r:
    Vec<ObservedIdentity>)
    ensures
        r.deep_view() == users_found(users.deep_view(), query@, limit as int),
{
    let search = UserSearch { query: to_lowercase(&trim(query)) };
    let found = select(users, &search);
    let sorted = sort_list(found, &UserOrder);
    let ghost wanted = lowercase(trimmed(query@));
    let ghost all = stable_sorted(
        users.deep_view().filter(|u: ObservedIdentityView| user_fits(u, wanted)),
        |a: ObservedIdentityView, b: ObservedIdentityView| user_before(a, b),
    );
    proof {
        assert(predicate::<ObservedIdentity, UserSearch>(search)
            =~= (|u: ObservedIdentityView| user_fits(u, wanted)));
        assert(relation::<ObservedIdentity, UserOrder>(UserOrder)
            =~= (|a: ObservedIdentityView, b: ObservedIdentityView| user_before(a, b)));
        assert(sorted.deep_view() == all);
    }
    let mut r: Vec<ObservedIdentity> = Vec::new();
    let mut i: usize = 0;
    while i < sorted.len() && i < limit
        invariant
            sorted.deep_view() == all,
            sorted@.len() == all.len(),
            i <= sorted@.len(),
            i <= limit,
            r@.len() == i,
            forall|j: int| 0 <= j < i ==> (#[trigger] r@[j])@ == all[j],
        decreases sorted@.len() - i,
    {
        assert(all[i as int] == sorted@[i as int]@);
        r.push(sorted[i].clone());
        i = i + 1;
    }
    assert(r.deep_view() =~= users_found(users.deep_view(), query@, limit as int));
    r
}

/// The order of users is one that a list can be sorted by.
pub proof fn lemma_user_order_sorts()
    ensures
        sorts(|a: ObservedIdentityView, b: ObservedIdentityView| user_before(a, b)),
{
    let before = |a: ObservedIdentityView, b: ObservedIdentityView| user_before(a, b);
    assert forall|a: ObservedIdentityView| !#[trigger] before(a, a) by {
        lemma_text_lt_irreflexive(a.subject);
    }
    assert forall|a: ObservedIdentityView, b: ObservedIdentityView, c: ObservedIdentityView|
        #[trigger] before(a, b) && #[trigger] before(b, c) implies before(a, c) by {
        if text_lt(a.subject, b.subject) && text_lt(b.subject, c.subject) {
            lemma_text_lt_transitive(a.subject, b.subject, c.subject);
        }
    }
    assert forall|a: ObservedIdentityView, b: ObservedIdentityView, c: ObservedIdentityView|
        !#[trigger] before(a, b) && !#[trigger] before(b, c) implies !before(a, c) by {
        lemma_text_lt_total(a.subject, b.subject);
        lemma_text_lt_total(b.subject, c.subject);
        if text_lt(b.subject, a.subject) && text_lt(c.subject, b.subject) {
            lemma_text_lt_transitive(c.subject, b.subject, a.subject);
        }
        if text_lt(c.subject, a.subject) && text_lt(a.subject, c.subject) {
            lemma_text_lt_transitive(c.subject, a.subject, c.subject);
            lemma_text_lt_irreflexive(c.subject);
        }
        lemma_text_lt_irreflexive(a.subject);
    }
}

} // verus!
