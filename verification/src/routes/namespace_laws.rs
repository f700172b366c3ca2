//! Who owns which namespace and who is granted what in it, told by what was asked for.
use super::namespaces::{
    actor_label, claim_label, claim_request, existing_namespace, grant_deleted, grantee_position,
    is_owner, lemma_user_order_sorts, list_namespace_grant_audit, list_namespaces, matching_grant,
    namespace_response, normalized_reason, patch_grant, public_safe_action, put_grant,
    release_reason, release_request, require_auth, require_namespace_owner, same_grantee,
    search_observed_identities, shown_namespaces, user_before, user_fits, user_limit, users_found,
    NamespaceGrant, NamespaceGrantAuditEvent, NamespaceGrantAuditResponse, NamespaceGrantGrantee,
    NamespaceGrantGranteeRequest, NamespaceGrantGranteeView, NamespaceGrantView, NamespaceResponse,
    NamespaceResponseView, ObservedIdentity, ObservedIdentityView, PatchNamespaceGrantRequest,
    PutNamespaceGrantRequest,
};
use crate::auth::grants::RepositoryAction;
use crate::auth::token::AuthIdentity;
use crate::error::LayerhouseError;
use crate::listing::{lemma_page_of_chosen, page_of, stable_sorted};
use crate::raft::NamespaceRequest;
use crate::store::metadata::namespace::{Namespace, NamespaceView, Owner, OwnerView, ReleaseReason};
use crate::text::{contains_text, lowercase, text_lt, trimmed};
use crate::raft::namespaces::release_reason_label;
use vstd::prelude::*;

verus! {

// ── Callers ──────────────────────────────────────────────────────────────

/// A request that needs somebody is let through exactly where authentication is on and
/// somebody is known.
pub proof fn lemma_somebody_must_be_known(
    auth_enabled: bool,
    identity: Option<&AuthIdentity>,
    r: Result<&AuthIdentity, LayerhouseError>,
)
    requires
        call_ensures(require_auth, (auth_enabled, identity), r),
    ensures
        r is Ok <==> auth_enabled && identity is Some,
        r matches Ok(i) ==> identity == Some(i),
        !auth_enabled ==> r->Err_0 is Internal,
        auth_enabled && identity is None ==> r->Err_0 is Unauthorized,
{
}

/// A caller is recorded under the name to show, else the name to log in with, else the mail
/// address, else the subject.
pub proof fn lemma_names_of_callers(identity: &AuthIdentity, r: String)
    requires
        call_ensures(actor_label, (identity,), r),
    ensures
        identity.display_name matches Some(n) ==> r@ == n@,
        identity.display_name is None ==> (identity.username matches Some(n) ==> r@ == n@),
        identity.display_name is None && identity.username is None ==> (
        identity.email matches Some(n) ==> r@ == n@),
        identity.display_name is None && identity.username is None && identity.email is None ==> r@
            == identity.subject@,
{
    assert(identity@.display_name is Some <==> identity.display_name is Some);
    assert(identity@.username is Some <==> identity.username is Some);
    assert(identity@.email is Some <==> identity.email is Some);
}

// ── Namespaces ───────────────────────────────────────────────────────────

/// A namespace is shown with its handle, whether a user or an organisation owns it, and the
/// label of its owner; who the owner is is not shown.
pub proof fn lemma_shown_namespace(ns: &Namespace, r: NamespaceResponse)
    requires
        call_ensures(namespace_response, (ns,), r),
    ensures
        r.handle@ == ns.handle@,
        r.owner_label@ == ns.owner_label@,
        r.created_at == ns.created_at,
        ns.owner is User ==> r.owner_kind@ == "user"@,
        ns.owner is Org ==> r.owner_kind@ == "org"@,
{
}

/// A user owns a namespace where it is claimed for that subject; nobody owns what an
/// organisation has.
pub proof fn lemma_who_owns(ns: &Namespace, subject: &str, r: bool)
    requires
        call_ensures(is_owner, (ns, subject), r),
    ensures
        r <==> (ns.owner matches Owner::User(s) && s@ == subject@),
{
}

proof fn lemma_shown_list(list: Seq<NamespaceView>, owner: Option<Seq<char>>, x: NamespaceResponseView)
    ensures
        shown_namespaces(list, owner).contains(x) <==> exists|i: int|
            0 <= i < list.len() && is_shown_of(#[trigger] list[i], owner, x),
    decreases list.len(),
{
    if list.len() > 0 {
        let front = list.drop_last();
        lemma_shown_list(front, owner, x);
        let before = shown_namespaces(front, owner);
        let all = shown_namespaces(list, owner);
        if all.contains(x) {
            let k = choose|k: int| 0 <= k < all.len() && all[k] == x;
            if k < before.len() {
                assert(before[k] == x);
                let i = choose|i: int|
                    0 <= i < front.len() && is_shown_of(#[trigger] front[i], owner, x);
                assert(is_shown_of(list[i], owner, x));
            } else {
                assert(is_shown_of(list[list.len() - 1], owner, x));
            }
        }
        if exists|i: int| 0 <= i < list.len() && is_shown_of(#[trigger] list[i], owner, x) {
            let i = choose|i: int|
                0 <= i < list.len() && is_shown_of(#[trigger] list[i], owner, x);
            if i < front.len() {
                assert(is_shown_of(front[i], owner, x));
                let k = choose|k: int| 0 <= k < before.len() && before[k] == x;
                assert(all[k] == x);
            } else {
                assert(all[before.len() as int] == x);
            }
        }
    }
}

/// Whether a namespace is shown as it is, to those who want the namespaces of an owner or
/// all.
pub open spec fn is_shown_of(
    ns: NamespaceView,
    owner: Option<Seq<char>>,
    shown: NamespaceResponseView,
) -> bool {
    &&& owner matches Some(subject) ==> ns.owner == OwnerView::User(subject)
    &&& shown.handle == ns.handle
    &&& shown.owner_label == ns.owner_label
    &&& shown.created_at == ns.created_at
    &&& shown.owner_kind == if ns.owner is User {
        "user"@
    } else {
        "org"@
    }
}

/// The namespaces of a user are listed, each as it is, and no others; without a user, all
/// are.
pub proof fn lemma_listed_namespaces(
    list: &Vec<Namespace>,
    owner: Option<&str>,
    r: Vec<NamespaceResponse>,
    shown: NamespaceResponseView,
)
    requires
        call_ensures(list_namespaces, (list, owner), r),
    ensures
        r.deep_view().contains(shown) <==> exists|i: int|
            0 <= i < list@.len() && is_shown_of(
                (#[trigger] list@[i])@,
                match owner {
                    Some(s) => Some(s@),
                    None => None,
                },
                shown,
            ),
{
    let all = list.deep_view();
    let wanted = match owner {
        Some(s) => Some(s@),
        None => None,
    };
    lemma_shown_list(all, wanted, shown);
    if r.deep_view().contains(shown) {
        let i = choose|i: int| 0 <= i < all.len() && is_shown_of(#[trigger] all[i], wanted, shown);
        assert(all[i] == list@[i]@);
        assert(is_shown_of(list@[i]@, wanted, shown));
    }
    assert forall|i: int|
        0 <= i < list@.len() && is_shown_of((#[trigger] list@[i])@, wanted, shown) implies
        r.deep_view().contains(shown) by {
        assert(all[i] == list@[i]@);
    }
}

/// What only the owner may do is allowed exactly where the namespace is there and the
/// caller owns it; one that is not there is unknown, and one of somebody else is denied.
pub proof fn lemma_only_owners(
    ns: Option<Namespace>,
    identity: &AuthIdentity,
    handle: &str,
    found: Result<Namespace, LayerhouseError>,
    r: Result<(), LayerhouseError>,
)
    requires
        call_ensures(existing_namespace, (ns, handle), found),
        call_ensures(require_namespace_owner, (ns, identity, handle), r),
    ensures
        found is Ok <==> ns is Some,
        found matches Ok(n) ==> ns == Some(n),
        r is Ok <==> (ns matches Some(n) && (n.owner matches Owner::User(s) && s@
            == identity.subject@)),
        ns is None ==> r->Err_0 is NameUnknown && found->Err_0 is NameUnknown,
        ns is Some && r is Err ==> r->Err_0 is Denied,
{
}

/// A claim is labelled as asked for, and else with the name of the caller.
pub proof fn lemma_labels_of_claims(
    owner_label: &Option<String>,
    identity: &AuthIdentity,
    r: String,
)
    requires
        call_ensures(claim_label, (owner_label, identity), r),
    ensures
        owner_label matches Some(l) ==> r@ == l@,
        owner_label is None ==> (identity.username matches Some(n) ==> r@ == n@),
        owner_label is None && identity.username is None ==> r@ == "unknown"@,
{
    assert(owner_label.deep_view() is Some <==> owner_label is Some);
    assert(identity@.username is Some <==> identity.username is Some);
}

/// A namespace that is released moves to the handle that is named, without white space
/// around it; without one its owner gives it up.
pub proof fn lemma_why_a_namespace_is_released(reason: Option<&str>, r: ReleaseReason)
    requires
        call_ensures(release_reason, (reason,), r),
    ensures
        r is Renamed <==> (reason matches Some(t) && trimmed(t@).len() > 0),
        r matches ReleaseReason::Renamed { new_handle } ==> new_handle@ == trimmed(reason->0@),
        !(r is Renamed) ==> r is OwnerDeleted,
{
}

/// Anybody may ask for any handle but the reserved one, for oneself only.
pub proof fn lemma_what_can_be_claimed(
    identity: &AuthIdentity,
    handle: &str,
    owner_label: &Option<String>,
    admin_override: bool,
    now: u64,
    label: String,
    r: Result<NamespaceRequest, LayerhouseError>,
)
    requires
        call_ensures(claim_request, (identity, handle, owner_label, admin_override, now), r),
        call_ensures(claim_label, (owner_label, identity), label),
    ensures
        r is Err <==> handle@ == "users"@,
        r matches Err(e) ==> e is NameInvalid,
        r matches Ok(req) ==> (req matches NamespaceRequest::Claim {
            handle: h,
            owner,
            owner_label: l,
            actor,
            admin_override: o,
            now: t,
        } && h@ == handle@ && (owner matches Owner::User(s) && s@ == identity.subject@) && l@
            == label@ && actor@ == identity.subject@ && o == admin_override && t == now),
{
}

/// Nobody gives up what somebody else owns; who gives up a namespace is recorded with the
/// reason and the time.
pub proof fn lemma_what_can_be_released(
    ns: Option<&Namespace>,
    identity: &AuthIdentity,
    handle: &str,
    reason: Option<&str>,
    now: u64,
    why: ReleaseReason,
    r: Result<NamespaceRequest, LayerhouseError>,
)
    requires
        call_ensures(release_request, (ns, identity, handle, reason, now), r),
        call_ensures(release_reason, (reason,), why),
    ensures
        r is Ok <==> (ns matches Some(n) ==> (n.owner matches Owner::User(s) && s@
            == identity.subject@)),
        r matches Err(e) ==> e is Denied,
        r matches Ok(req) ==> (req matches NamespaceRequest::Delete {
            handle: h,
            actor,
            reason: w,
            now: t,
        } && h@ == handle@ && actor@ == identity.subject@ && w@ == why@ && t == now),
{
}

// ── Grants ───────────────────────────────────────────────────────────────

/// A change of a grant has the reason that is given, without white space around it. An
/// administrator must give one; an owner need not.
pub proof fn lemma_why_a_grant_is_changed(
    reason: Option<&str>,
    must: bool,
    r: Result<String, LayerhouseError>,
)
    requires
        call_ensures(normalized_reason, (reason, must), r),
    ensures
        ({
            let given = (reason matches Some(t) && trimmed(t@).len() > 0);
            &&& r is Err <==> must && !given
            &&& given ==> (r matches Ok(t) && t@ == trimmed(reason->0@))
            &&& !given && !must ==> (r matches Ok(t) && t@ == "owner change"@)
            &&& r matches Err(e) ==> e is NameInvalid
        }),
{
}

/// A grant goes to the group, the user or the public that is named, under the id that was
/// read; the public needs none.
pub proof fn lemma_who_is_granted(
    request: NamespaceGrantGranteeRequest,
    read_id: Result<String, LayerhouseError>,
    r: Result<NamespaceGrantGrantee, LayerhouseError>,
)
    requires
        call_ensures(NamespaceGrantGranteeRequest::into_grantee, (request, read_id), r),
    ensures
        request is Public ==> (r matches Ok(g) && g is Public),
        !(request is Public) ==> (r is Ok <==> read_id is Ok),
        request is Group && read_id is Ok ==> (r matches Ok(NamespaceGrantGrantee::Group { id })
            && id@ == read_id->Ok_0@),
        request is User && read_id is Ok ==> (r matches Ok(NamespaceGrantGrantee::User { id })
            && id@ == read_id->Ok_0@),
{
}

/// Only actions on repositories are granted: to the public never more than pulling, to all
/// others what is asked for.
pub proof fn lemma_what_is_granted(
    grantee: &NamespaceGrantGrantee,
    action: Option<RepositoryAction>,
    r: Result<RepositoryAction, LayerhouseError>,
)
    requires
        call_ensures(public_safe_action, (grantee, action), r),
    ensures
        r is Ok <==> action is Some,
        grantee is Public ==> (r matches Ok(a) ==> a is Pull),
        !(grantee is Public) ==> (r matches Ok(a) ==> action == Some(a)),
        r matches Err(e) ==> e is NameInvalid,
{
}

/// Two grantees are the same where they are of the same kind and have the same id.
pub proof fn lemma_same_grantees(a: &NamespaceGrantGrantee, b: &NamespaceGrantGrantee, r: bool)
    requires
        call_ensures(same_grantee, (a, b), r),
    ensures
        r <==> match (a, b) {
            (NamespaceGrantGrantee::Group { id: x }, NamespaceGrantGrantee::Group { id: y }) => x@
                == y@,
            (NamespaceGrantGrantee::User { id: x }, NamespaceGrantGrantee::User { id: y }) => x@
                == y@,
            (NamespaceGrantGrantee::Public, NamespaceGrantGrantee::Public) => true,
            _ => false,
        },
{
}

proof fn lemma_grantee_position(
    grants: Seq<NamespaceGrantView>,
    grantee: NamespaceGrantGranteeView,
    from: int,
)
    requires
        0 <= from <= grants.len(),
    ensures
        from <= grantee_position(grants, grantee, from) <= grants.len(),
        grantee_position(grants, grantee, from) < grants.len() ==> grants[grantee_position(
            grants,
            grantee,
            from,
        )].grantee == grantee,
        forall|i: int|
            from <= i < grantee_position(grants, grantee, from) ==> (#[trigger] grants[i]).grantee
                != grantee,
    decreases grants.len() - from,
{
    if from < grants.len() && grants[from].grantee != grantee {
        lemma_grantee_position(grants, grantee, from + 1);
    }
}

/// The grant of a grantee is found exactly where it has one, and is one of its own.
pub proof fn lemma_grant_is_found(
    grants: &Vec<NamespaceGrant>,
    grantee: &NamespaceGrantGrantee,
    r: Option<&NamespaceGrant>,
)
    requires
        call_ensures(matching_grant, (grants, grantee), r),
    ensures
        r is Some <==> exists|i: int|
            0 <= i < grants@.len() && (#[trigger] grants@[i]).grantee@ == grantee@,
        r matches Some(g) ==> g.grantee@ == grantee@ && grants.deep_view().contains(g@),
{
    let all = grants.deep_view();
    lemma_grantee_position(all, grantee@, 0);
    let p = grantee_position(all, grantee@, 0);
    assert(r.deep_view() is Some <==> r is Some);
    if p < all.len() {
        assert(all[p] == grants@[p]@);
        assert(grants@[p].grantee@ == grantee@);
        assert(all.contains(all[p]));
        if let Some(g) = r {
            assert(g@ == all[p]);
            assert(g@.grantee == g.grantee@);
        }
    }
    assert forall|i: int|
        0 <= i < grants@.len() && (#[trigger] grants@[i]).grantee@ == grantee@ implies p
        < all.len() by {
        assert(all[i] == grants@[i]@);
    }
}

/// A grant is made where an action on repositories is asked for: in the namespace, to the
/// grantee, by the caller and now. A grantee that has one already keeps its id; the label is
/// the one that is given, or the default.
pub proof fn lemma_made_grants(
    identity: &AuthIdentity,
    handle: &str,
    grantee: &NamespaceGrantGrantee,
    request: &PutNamespaceGrantRequest,
    known: Option<&NamespaceGrant>,
    fresh_id: String,
    default_label: String,
    now: u64,
    action: Result<RepositoryAction, LayerhouseError>,
    r: Result<NamespaceGrant, LayerhouseError>,
)
    requires
        call_ensures(
            put_grant,
            (identity, handle, grantee, request, known, fresh_id, default_label, now),
            r,
        ),
        call_ensures(public_safe_action, (grantee, request.action), action),
    ensures
        r is Ok <==> action is Ok,
        r matches Ok(g) ==> {
            &&& known matches Some(k) ==> g.id@ == k.id@
            &&& known is None ==> g.id@ == fresh_id@
            &&& g.namespace@ == handle@
            &&& g.grantee@ == grantee@
            &&& action == Ok::<_, LayerhouseError>(g.action)
            &&& g.created_by@ == identity.subject@ && g.updated_by@ == identity.subject@
            &&& g.created_at == now && g.updated_at == now
            &&& (request.label matches Some(l) && trimmed(l@).len() > 0) ==> g.label@ == trimmed(
                request.label->0@,
            )
            &&& !(request.label matches Some(l) && trimmed(l@).len() > 0) ==> g.label@
                == default_label@
        },
{
    assert(request@.label is Some <==> request.label is Some);
    assert(known.deep_view() is Some <==> known is Some);
    if let Ok(g) = r {
        assert(g@.grantee == g.grantee@);
    }
}

/// A grant is changed where it is there and an action on repositories is asked for. Who made
/// it, when, for whom and where stays; the label stays where none is given.
pub proof fn lemma_changed_grants(
    identity: &AuthIdentity,
    grant: Option<NamespaceGrant>,
    grantee: &NamespaceGrantGrantee,
    grant_id: &str,
    request: &PatchNamespaceGrantRequest,
    now: u64,
    action: Result<RepositoryAction, LayerhouseError>,
    r: Result<NamespaceGrant, LayerhouseError>,
)
    requires
        call_ensures(patch_grant, (identity, grant, grant_id, request, now), r),
        grant matches Some(g) ==> g.grantee@ == grantee@,
        call_ensures(public_safe_action, (grantee, request.action), action),
    ensures
        r is Ok <==> grant is Some && action is Ok,
        grant is None ==> r->Err_0 is NameUnknown,
        r matches Ok(g) ==> {
            let before = grant->0;
            &&& g.id@ == before.id@ && g.namespace@ == before.namespace@
            &&& g.grantee@ == before.grantee@
            &&& g.created_by@ == before.created_by@ && g.created_at == before.created_at
            &&& action == Ok::<_, LayerhouseError>(g.action)
            &&& g.updated_by@ == identity.subject@ && g.updated_at == now
            &&& (request.label matches Some(l) && trimmed(l@).len() > 0) ==> g.label@ == trimmed(
                request.label->0@,
            )
            &&& !(request.label matches Some(l) && trimmed(l@).len() > 0) ==> g.label@
                == before.label@
        },
{
    assert(request@.label is Some <==> request.label is Some);
    if let Ok(g) = r {
        assert(g@.grantee == g.grantee@);
        assert(grant->0@.grantee == grant->0.grantee@);
    }
}

/// A grant that was deleted is answered as done, and one that was not there as unknown.
pub proof fn lemma_answer_to_a_grant_deletion(
    deleted: bool,
    grant_id: &str,
    r: Result<u16, LayerhouseError>,
)
    requires
        call_ensures(grant_deleted, (deleted, grant_id), r),
    ensures
        deleted ==> r == Ok::<u16, LayerhouseError>(204u16),
        !deleted ==> r is Err && r->Err_0 is NameUnknown,
{
}

/// Every change of a grant is shown, in the order in which it was made, with who made it,
/// why, and what was before and after.
pub proof fn lemma_shown_changes(
    events: &Vec<NamespaceGrantAuditEvent>,
    r: Vec<NamespaceGrantAuditResponse>,
    i: int,
)
    requires
        call_ensures(list_namespace_grant_audit, (events,), r),
    ensures
        r@.len() == events@.len(),
        0 <= i < events@.len() ==> {
            let e = events@[i];
            let shown = r@[i];
            &&& shown.id@ == e.id@
            &&& shown.namespace@ == e.namespace@
            &&& shown.grant_id.deep_view() == e.grant_id.deep_view()
            &&& shown.operation@ == e.operation@
            &&& shown.actor@ == e.actor@
            &&& shown.actor_label@ == e.actor_label@
            &&& shown.reason@ == e.reason@
            &&& shown.before.deep_view() == e.before.deep_view()
            &&& shown.after.deep_view() == e.after.deep_view()
            &&& shown.created_at == e.created_at
        },
{
    assert(r.deep_view().len() == r@.len());
    assert(events.deep_view().len() == events@.len());
    if 0 <= i < events@.len() {
        assert(r.deep_view()[i] == r@[i]@);
        assert(events.deep_view()[i] == events@[i]@);
    }
}

// ── Observed users ───────────────────────────────────────────────────────

/// As many users are listed as asked for, at least one and at most fifty, and twenty where
/// the request does not say.
pub proof fn lemma_how_many_users_are_listed(limit: Option<usize>, r: usize)
    requires
        call_ensures(user_limit, (limit,), r),
    ensures
        limit is None ==> r == 20,
        limit matches Some(n) ==> (1 <= n <= 50 ==> r == n) && (n == 0 ==> r == 1) && (n > 50
            ==> r == 50),
{
}

/// Whether a search is for a user: nothing is searched for, or the subject, a name or the
/// mail address holds it.
pub open spec fn is_searched_for(user: ObservedIdentityView, text: Seq<char>) -> bool {
    ||| text.len() == 0
    ||| contains_text(lowercase(user.subject), text)
    ||| user.username matches Some(t) && contains_text(lowercase(t), text)
    ||| user.display_name matches Some(t) && contains_text(lowercase(t), text)
    ||| user.email matches Some(t) && contains_text(lowercase(t), text)
}

/// A search lists users that there are and that it is for, who was seen last first and at
/// most as many as asked for; where fewer are listed, these are all.
pub proof fn lemma_searched_users(
    users: &Vec<ObservedIdentity>,
    query: &str,
    limit: usize,
    r: Vec<ObservedIdentity>,
)
    requires
        limit > 0,
        call_ensures(search_observed_identities, (users, query, limit), r),
    ensures
        ({
            let text = lowercase(trimmed(query@));
            let found = r.deep_view();
            &&& found.len() <= limit
            &&& forall|i: int|
                0 <= i < found.len() ==> users.deep_view().contains(#[trigger] found[i])
                    && is_searched_for(found[i], text)
            &&& forall|i: int, j: int|
                0 <= i < j < found.len() ==> (#[trigger] found[i]).last_seen_at >= (
                #[trigger] found[j]).last_seen_at && (found[i].last_seen_at == found[j].last_seen_at
                    ==> !text_lt(found[j].subject, found[i].subject))
            &&& found.len() < limit ==> forall|u: ObservedIdentityView|
                users.deep_view().contains(u) && is_searched_for(u, text)
                    ==> #[trigger] found.contains(u)
        }),
{
    let text = lowercase(trimmed(query@));
    let found = r.deep_view();
    let all = users.deep_view();
    let wanted = |u: ObservedIdentityView| user_fits(u, text);
    let before = |a: ObservedIdentityView, b: ObservedIdentityView| user_before(a, b);
    let listed = stable_sorted(all.filter(wanted), before);
    let keys = Seq::new(listed.len(), |i: int| Seq::<char>::empty());
    lemma_user_order_sorts();
    lemma_page_of_chosen(all, wanted, before, keys, limit as int, None);
    let (page, more) = page_of(listed, keys, limit as int, None);
    assert(page =~= users_found(all, query@, limit as int));
    assert(found == page);
    assert forall|i: int| 0 <= i < found.len() implies all.contains(#[trigger] found[i])
        && is_searched_for(found[i], text) by {
        assert(wanted(page[i]));
    }
    assert forall|i: int, j: int| 0 <= i < j < found.len() implies (#[trigger] found[i]).last_seen_at
        >= (#[trigger] found[j]).last_seen_at && (found[i].last_seen_at == found[j].last_seen_at
        ==> !text_lt(found[j].subject, found[i].subject)) by {
        assert(!before(page[j], page[i]));
    }
    if found.len() < limit {
        assert(!more);
        assert forall|u: ObservedIdentityView|
            all.contains(u) && is_searched_for(u, text) implies #[trigger] found.contains(u) by {
            assert(wanted(u));
        }
    }
}

/// A release is named by its reason.
pub proof fn lemma_names_of_reasons(reason: &ReleaseReason, r: &'static str)
    requires
        call_ensures(release_reason_label, (reason,), r),
    ensures
        reason is OwnerDeleted ==> r@ == "owner-deleted"@,
        reason is AdminRevoked ==> r@ == "admin-revoked"@,
        reason is Renamed ==> r@ == "renamed"@,
{
}

} // verus!
