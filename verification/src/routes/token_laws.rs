//! What personal tokens may grant and what a session shows, told by what was asked for.
use super::blob_laws::has_header;
use super::pat_api::{
    accept_selection, accepted_scope, accepted_scopes, all_looked_up, check_ceiling,
    check_personal_namespace, check_token_name, created_token, first_beyond, grant_scopes,
    grantable, grantable_scopes, is_searched, list_tokens, lies_in, looked_up, match_count,
    merged_patterns, mint_token, pattern_namespace, pattern_scopes, required_identity, scope_names,
    searched, selection_scope, token_revoked, Candidate, CandidateView, Ceiling, CreatePatRequest,
    CreatePatResponse, GrantableScopeListResponse, GrantableScopeQuery, GrantableScopeView,
    PatListItem, PatScopeSelection, PatScopeSelectionView,
};
use super::reply::Reply;
use super::session_api::{
    extract_cookie_value, get_session, logout_session, token_type_name, SessionResponse,
};
use crate::auth::grants::{rank, scope_tokens, widest_action, GrantSource, RepositoryAction};
use crate::auth::token::{AuthIdentity, TokenType};
use crate::error::{ErrorView, LayerhouseError};
use crate::listing::{lemma_page_starts_within, page_of, page_start};
use crate::oci::digest::{hex_text, sha256_bytes};
use crate::routes::dashboard_api::page_size;
use crate::store::metadata::types::PersonalAccessToken;
use crate::string_map::{lemma_finite_listing, sorted_keys};
use crate::text::{lemma_split_concat, lemma_split_single, lowercase, split_on, trimmed};
use crate::auth::middleware::extract_cookie;
use vstd::prelude::*;
use vstd::utf8::encode_utf8;

verus! {

// ── Callers and lists ────────────────────────────────────────────────────

/// Tokens belong to somebody: nobody has none.
pub proof fn lemma_tokens_need_somebody(
    identity: Option<AuthIdentity>,
    r: Result<AuthIdentity, LayerhouseError>,
)
    requires
        call_ensures(required_identity, (identity,), r),
    ensures
        r is Ok <==> identity is Some,
        r matches Ok(i) ==> identity == Some(i),
        r matches Err(e) ==> e is Unauthorized,
{
}

/// Every token is listed, in order, with what is known of it but its hash.
pub proof fn lemma_listed_tokens(tokens: &Vec<PersonalAccessToken>, r: Vec<PatListItem>, i: int)
    requires
        call_ensures(list_tokens, (tokens,), r),
    ensures
        r@.len() == tokens@.len(),
        0 <= i < tokens@.len() ==> {
            let t = tokens@[i];
            let item = r@[i];
            &&& item.id@ == t.id@ && item.name@ == t.name@
            &&& item.prefix@ == t.token_prefix@
            &&& item.scopes.deep_view() == t.scopes.deep_view()
            &&& item.created_at == t.created_at
            &&& item.last_used_at == t.last_used_at
            &&& item.expires_at == t.expires_at
        },
{
    assert(r.deep_view().len() == r@.len());
    assert(tokens.deep_view().len() == tokens@.len());
    if 0 <= i < tokens@.len() {
        assert(r.deep_view()[i] == r@[i]@);
        assert(tokens.deep_view()[i] == tokens@[i]@);
    }
}

/// A token that was revoked is answered as done, and one that was not there as unknown.
pub proof fn lemma_answer_to_a_revocation(deleted: bool, id: &str, r: Result<u16, LayerhouseError>)
    requires
        call_ensures(token_revoked, (deleted, id), r),
    ensures
        deleted ==> r == Ok::<u16, LayerhouseError>(204u16),
        !deleted ==> r is Err && r->Err_0 is NameUnknown,
{
}

// ── What a token may grant ───────────────────────────────────────────────

/// A token needs a name that is not blank.
pub proof fn lemma_tokens_need_a_name(name: &str, r: Result<(), LayerhouseError>)
    requires
        call_ensures(check_token_name, (name,), r),
    ensures
        r is Ok <==> trimmed(name@).len() > 0,
        r matches Err(e) ==> e is NameInvalid,
{
}

/// A selection needs a repository that is not blank; its scope names the repository,
/// without white space around it, and the actions.
pub proof fn lemma_scope_of_a_selection(
    selection: &PatScopeSelection,
    actions: String,
    r: Result<String, LayerhouseError>,
)
    requires
        call_ensures(selection_scope, (selection,), r),
        call_ensures(scope_tokens, (&selection.actions,), actions),
    ensures
        r is Ok <==> trimmed(selection.repository@).len() > 0,
        r matches Ok(s) ==> s@ == "repository:"@ + trimmed(selection.repository@) + ":"@ + actions@,
        r matches Err(e) ==> e is NameInvalid,
{
}

/// A selection below the personal namespace of a user is for that user only.
pub proof fn lemma_personal_namespaces_stay_personal(
    selection: &PatScopeSelection,
    username: &Option<String>,
    owner: Seq<char>,
    rest: Seq<char>,
    r: Result<(), LayerhouseError>,
)
    requires
        call_ensures(check_personal_namespace, (selection, username), r),
        !owner.contains('/'),
        trimmed(selection.repository@) == "users/"@ + owner + seq!['/'] + rest,
    ensures
        r is Ok <==> (username matches Some(n) && n@ == owner),
        r matches Err(e) ==> e is Denied,
{
    reveal_strlit("users/");
    reveal_strlit("users");
    let repo = trimmed(selection.repository@);
    let users = "users"@;
    assert("users/"@ =~= users + seq!['/']);
    assert(!users.contains('/')) by {
        assert(users =~= seq!['u', 's', 'e', 'r', 's']);
    }
    let below = owner + seq!['/'] + rest;
    assert(repo =~= users + seq!['/'] + below);
    lemma_split_concat(users, below, '/');
    lemma_split_concat(owner, rest, '/');
    lemma_split_single(users, '/');
    lemma_split_single(owner, '/');
    let parts = split_on(repo, '/');
    assert(parts =~= seq![users] + (seq![owner] + split_on(rest, '/')));
    assert(parts[0] == users && parts[1] == owner);
    assert(username.deep_view() is Some <==> username is Some);
}

/// A selection elsewhere reaches into no personal namespace.
pub proof fn lemma_other_namespaces_are_shared(
    selection: &PatScopeSelection,
    username: &Option<String>,
    r: Result<(), LayerhouseError>,
)
    requires
        call_ensures(check_personal_namespace, (selection, username), r),
        split_on(trimmed(selection.repository@), '/')[0] != "users"@,
    ensures
        r is Ok,
{
}

proof fn lemma_first_beyond_is_beyond(
    actions: Seq<RepositoryAction>,
    max_action: RepositoryAction,
    from: int,
)
    requires
        0 <= from <= actions.len(),
    ensures
        from <= first_beyond(actions, max_action, from) <= actions.len(),
        forall|i: int|
            from <= i < first_beyond(actions, max_action, from) ==> rank(max_action) >= rank(
                #[trigger] actions[i],
            ),
        first_beyond(actions, max_action, from) < actions.len() ==> rank(max_action) < rank(
            actions[first_beyond(actions, max_action, from)],
        ),
    decreases actions.len() - from,
{
    if from < actions.len() && rank(max_action) >= rank(actions[from]) {
        lemma_first_beyond_is_beyond(actions, max_action, from + 1);
    }
}

/// Whether a limit, where there is one, is at least an action.
pub open spec fn allows(limit: Option<RepositoryAction>, action: RepositoryAction) -> bool {
    limit is Some && rank(limit->0) >= rank(action)
}

/// Nobody grants more than allowed: a selection is within the limit of a caller exactly
/// where each of its actions is, and, for all of a namespace, where the caller has the
/// widest of them by the own scopes or by a group.
pub proof fn lemma_nobody_grants_more_than_allowed(
    selection: &PatScopeSelection,
    ceiling: &Ceiling,
    path: Seq<char>,
    best: RepositoryAction,
    r: Result<(), LayerhouseError>,
)
    requires
        call_ensures(check_ceiling, (selection, ceiling), r),
        call_ensures(widest_action, (&selection.actions,), best),
    ensures
        ({
            let repo = trimmed(selection.repository@);
            let each = forall|i: int|
                0 <= i < selection.actions@.len() ==> rank(ceiling.max_action) >= rank(
                    #[trigger] selection.actions@[i],
                );
            &&& r is Ok ==> each
            &&& !"/*"@.is_suffix_of(repo) ==> (r is Ok <==> each)
            &&& repo == path + "/*"@ && path.len() > 0 && path != "*"@ ==> (r is Ok <==> each && (
            allows(ceiling.pattern_max, best) || allows(ceiling.group_max, best)))
            &&& r matches Err(e) ==> e is Denied
        }),
{
    let actions = selection.actions@;
    assert(selection@.actions == actions) by {
        assert(selection@.actions =~= actions);
    }
    lemma_first_beyond_is_beyond(actions, ceiling.max_action, 0);
    let repo = trimmed(selection.repository@);
    reveal_strlit("/*");
    if repo == path + "/*"@ {
        assert(repo.take(repo.len() - 2) =~= path);
        assert(repo.skip(repo.len() - 2) =~= "/*"@);
        assert("/*"@.is_suffix_of(repo));
    }
}

/// A selection adds its scope to a token exactly where it names a repository, stays out of
/// other users' namespaces, and is within the limit of the caller; where nobody has to log
/// in there is no limit, and where the limit could not be looked up nothing is added.
pub proof fn lemma_accepted_selections(
    selection: &PatScopeSelection,
    username: &Option<String>,
    ceiling: Option<Result<Ceiling, LayerhouseError>>,
    limit: &Ceiling,
    scope: Result<String, LayerhouseError>,
    own: Result<(), LayerhouseError>,
    within: Result<(), LayerhouseError>,
    r: Result<String, LayerhouseError>,
)
    requires
        call_ensures(accept_selection, (selection, username, ceiling), r),
        call_ensures(selection_scope, (selection,), scope),
        call_ensures(check_personal_namespace, (selection, username), own),
        ceiling matches Some(Ok(c)) ==> c == *limit,
        call_ensures(check_ceiling, (selection, limit), within),
    ensures
        r is Ok <==> scope is Ok && own is Ok && (ceiling is None || (ceiling->0 is Ok && within
            is Ok)),
        r matches Ok(s) ==> s@ == scope->Ok_0@,
{
}

proof fn lemma_accepted_each(
    selections: Seq<PatScopeSelectionView>,
    username: Option<Seq<char>>,
    ceilings: Seq<Option<Result<Ceiling, ErrorView>>>,
)
    ensures
        accepted_scopes(selections, username, ceilings) is Ok <==> forall|i: int|
            0 <= i < selections.len() ==> accepted_scope(
                #[trigger] selections[i],
                username,
                ceilings[i],
            ) is Ok,
        accepted_scopes(selections, username, ceilings) matches Ok(scopes) ==> {
            &&& scopes.len() == selections.len()
            &&& forall|i: int|
                0 <= i < selections.len() ==> accepted_scope(
                    selections[i],
                    username,
                    ceilings[i],
                ) == Ok::<_, ErrorView>(#[trigger] scopes[i])
        },
    decreases selections.len(),
{
    if selections.len() > 0 {
        let front = selections.drop_last();
        lemma_accepted_each(front, username, ceilings);
        assert forall|i: int| 0 <= i < front.len() implies #[trigger] front[i]
            == selections[i] by {}
        assert(selections[selections.len() - 1] == selections.last());
        if forall|i: int|
            0 <= i < selections.len() ==> accepted_scope(
                #[trigger] selections[i],
                username,
                ceilings[i],
            ) is Ok {
            assert forall|i: int| 0 <= i < front.len() implies accepted_scope(
                #[trigger] front[i],
                username,
                ceilings[i],
            ) is Ok by {
                assert(front[i] == selections[i]);
            }
        }
        if accepted_scopes(selections, username, ceilings) is Ok {
            assert forall|i: int| 0 <= i < selections.len() implies accepted_scope(
                #[trigger] selections[i],
                username,
                ceilings[i],
            ) is Ok by {
                if i < front.len() {
                    assert(front[i] == selections[i]);
                }
            }
        }
    }
}

/// A token is granted exactly where it has a name and each of its selections is accepted; it
/// has the scope of each, in order.
pub proof fn lemma_scopes_of_a_token(
    req: &CreatePatRequest,
    username: &Option<String>,
    ceilings: Vec<Option<Result<Ceiling, LayerhouseError>>>,
    i: int,
    one: Result<String, LayerhouseError>,
    r: Result<Vec<String>, LayerhouseError>,
)
    requires
        ceilings@.len() == req.scopes@.len(),
        call_ensures(grant_scopes, (req, username, ceilings), r),
        0 <= i < req.scopes@.len(),
        call_ensures(accept_selection, (&req.scopes@[i], username, ceilings@[i]), one),
    ensures
        trimmed(req.name@).len() == 0 ==> r is Err,
        one is Err ==> r is Err,
        r matches Ok(scopes) ==> scopes@.len() == req.scopes@.len() && scopes@[i]@ == one->Ok_0@,
        trimmed(req.name@).len() > 0 && (forall|k: int|
            0 <= k < req.scopes@.len() ==> accepted_scope(
                (#[trigger] req.scopes@[k])@,
                username.deep_view(),
                looked_up(ceilings@[k]),
            ) is Ok) ==> r is Ok,
{
    let all = req@.scopes;
    let limits = all_looked_up(ceilings@);
    lemma_accepted_each(all, username.deep_view(), limits);
    assert(all == req.scopes.deep_view());
    assert forall|k: int| 0 <= k < req.scopes@.len() implies #[trigger] all[k]
        == req.scopes@[k]@ by {}
    assert(all[i] == req.scopes@[i]@);
    assert(limits[i] == looked_up(ceilings@[i]));
    if let Ok(scopes) = r {
        assert(scopes.deep_view().len() == scopes@.len());
        assert(scopes.deep_view()[i] == scopes@[i]@);
    }
    if forall|k: int|
        0 <= k < req.scopes@.len() ==> accepted_scope(
            (#[trigger] req.scopes@[k])@,
            username.deep_view(),
            looked_up(ceilings@[k]),
        ) is Ok {
        assert forall|k: int| 0 <= k < all.len() implies accepted_scope(
            #[trigger] all[k],
            username.deep_view(),
            limits[k],
        ) is Ok by {
            assert(all[k] == req.scopes@[k]@);
            assert(limits[k] == looked_up(ceilings@[k]));
        }
    }
}

/// A token is stored without its secret: its hash and its first twelve characters are. It
/// belongs to the caller and expires after as many days as asked for, or never. The secret
/// is shown once, in the answer.
pub proof fn lemma_minted_tokens(
    identity: &AuthIdentity,
    req: &CreatePatRequest,
    ceilings: Vec<Option<Result<Ceiling, LayerhouseError>>>,
    now: u64,
    id: String,
    bytes: &Vec<u8>,
    scopes: Result<Vec<String>, LayerhouseError>,
    r: Result<(PersonalAccessToken, CreatePatResponse), LayerhouseError>,
)
    requires
        ceilings@.len() == req.scopes@.len(),
        bytes@.len() == 16,
        req.expires_in_days matches Some(d) ==> now + d * 86400 <= u64::MAX,
        call_ensures(mint_token, (identity, req, ceilings, now, id, bytes), r),
        call_ensures(grant_scopes, (req, &identity.username, ceilings), scopes),
    ensures
        r is Ok <==> scopes is Ok,
        r matches Ok((token, answer)) ==> {
            let secret = "layerhouse-"@ + hex_text(bytes@);
            &&& token.id@ == id@ && answer.id@ == id@
            &&& token.subject@ == identity.subject@
            &&& token.username.deep_view() == identity.username.deep_view()
            &&& token.name@ == req.name@ && answer.name@ == req.name@
            &&& token.scopes.deep_view() == scopes->Ok_0.deep_view()
            &&& answer.scopes.deep_view() == scopes->Ok_0.deep_view()
            &&& token.token_hash@ == hex_text(sha256_bytes(encode_utf8(secret)))
            &&& token.token_prefix@ == secret.take(12)
            &&& answer.token@ == secret
            &&& token.created_at == now && answer.created_at == now
            &&& token.last_used_at is None
            &&& token.expires_at == answer.expires_at
            &&& req.expires_in_days is None ==> token.expires_at is None
            &&& req.expires_in_days matches Some(d) ==> token.expires_at == Some(
                (now + d * 86400) as u64,
            )
        },
{
    assert(identity@.username == identity.username.deep_view());
}

/// A new token is answered with its secret and with what is stored of it.
pub proof fn lemma_answer_with_a_token(
    token: &PersonalAccessToken,
    raw: String,
    r: CreatePatResponse,
)
    requires
        call_ensures(created_token, (token, raw), r),
    ensures
        r.token@ == raw@,
        r.id@ == token.id@ && r.name@ == token.name@,
        r.scopes.deep_view() == token.scopes.deep_view(),
        r.created_at == token.created_at && r.expires_at == token.expires_at,
{
}

// ── What can be granted ──────────────────────────────────────────────────

/// A search is for the repositories whose names begin with the text, and without a text for
/// all.
pub proof fn lemma_searched_repositories(q: &Option<String>, name: &str, rest: Seq<char>, r: bool)
    requires
        call_ensures(is_searched, (q, name), r),
    ensures
        q is None ==> r,
        (q matches Some(t) && lowercase(name@) == lowercase(t@) + rest) ==> r,
        r && q is Some ==> exists|more: Seq<char>|
            lowercase(name@) == #[trigger] (lowercase(q->0@) + more),
{
    assert(q.deep_view() is Some <==> q is Some);
    if let Some(t) = q {
        let p = lowercase(t@);
        let n = lowercase(name@);
        if n == p + rest {
            assert(n.take(p.len() as int) =~= p);
        }
        if p.is_prefix_of(n) {
            assert(n =~= p + n.skip(p.len() as int));
        }
        if p.len() == 0 {
            assert(n =~= p + n);
        }
    }
}

/// Whether a repository can be granted on: it is searched for and the caller has access.
pub open spec fn can_be_granted(
    c: CandidateView,
    q: Option<Seq<char>>,
    scope: GrantableScopeView,
) -> bool {
    &&& searched(q, c.repository)
    &&& c.repository == scope.repository
    &&& c.access == Some((scope.max_grantable, scope.grant_source))
}

proof fn lemma_grantable(
    candidates: Seq<CandidateView>,
    q: Option<Seq<char>>,
    scope: GrantableScopeView,
)
    ensures
        grantable(candidates, q).contains(scope) <==> exists|i: int|
            0 <= i < candidates.len() && can_be_granted(#[trigger] candidates[i], q, scope),
        grantable(candidates, q).len() <= candidates.len(),
    decreases candidates.len(),
{
    if candidates.len() > 0 {
        let front = candidates.drop_last();
        lemma_grantable(front, q, scope);
        let before = grantable(front, q);
        let all = grantable(candidates, q);
        if all.contains(scope) {
            let k = choose|k: int| 0 <= k < all.len() && all[k] == scope;
            if k < before.len() {
                assert(before[k] == scope);
                let i = choose|i: int|
                    0 <= i < front.len() && can_be_granted(#[trigger] front[i], q, scope);
                assert(can_be_granted(candidates[i], q, scope));
            } else {
                assert(can_be_granted(candidates[candidates.len() - 1], q, scope));
            }
        }
        if exists|i: int|
            0 <= i < candidates.len() && can_be_granted(#[trigger] candidates[i], q, scope) {
            let i = choose|i: int|
                0 <= i < candidates.len() && can_be_granted(#[trigger] candidates[i], q, scope);
            if i < front.len() {
                assert(can_be_granted(front[i], q, scope));
                let k = choose|k: int| 0 <= k < before.len() && before[k] == scope;
                assert(all[k] == scope);
            } else {
                assert(all[before.len() as int] =~= scope);
            }
        }
    }
}

/// What can be granted is a page of the repositories that are searched for and that the
/// caller has access to, with that access. A first page behind which nothing follows shows
/// all of them; where more follows, the cursor is the last one shown.
pub proof fn lemma_what_can_be_granted(
    query: &GrantableScopeQuery,
    candidates: &Vec<Candidate>,
    patterns: &Vec<(String, RepositoryAction)>,
    n: usize,
    r: GrantableScopeListResponse,
    scope: GrantableScopeView,
)
    requires
        call_ensures(grantable_scopes, (query, candidates, patterns), r),
        call_ensures(page_size, (query.n,), n),
        n > 0,
    ensures
        ({
            let shown = r.scopes.deep_view();
            let granted = exists|i: int|
                0 <= i < candidates@.len() && can_be_granted(
                    (#[trigger] candidates@[i])@,
                    query.q.deep_view(),
                    scope,
                );
            &&& shown.len() <= n
            &&& shown.contains(scope) ==> granted
            &&& query.cursor is None && r.next_cursor is None && granted ==> shown.contains(scope)
            &&& query.cursor is None ==> (r.next_cursor is Some <==> r.total_matches > n)
            &&& query.cursor is None && r.next_cursor is None ==> r.total_matches == shown.len()
            &&& r.next_cursor matches Some(c) ==> shown.len() == n && c@ == shown.last().repository
        }),
{
    let all = candidates.deep_view();
    let q = query.q.deep_view();
    let scopes = grantable(all, q);
    lemma_grantable(all, q, scope);
    let names = scope_names(scopes);
    let (page, more) = page_of(scopes, names, n as int, query@.cursor);
    let start = page_start(names, query@.cursor);
    let shown = r.scopes.deep_view();
    assert(r@.scopes == shown);
    assert(shown == page);
    assert(r.next_cursor.deep_view() is Some <==> r.next_cursor is Some);
    assert(query.cursor.deep_view() is Some <==> query.cursor is Some);
    if let Some(key) = query@.cursor {
        lemma_page_starts_within(names, key);
    }
    assert(0 <= start <= scopes.len());
    assert(candidates@.len() <= usize::MAX) by {
        assert(candidates.len() == candidates@.len());
    }
    if shown.contains(scope) {
        let k = choose|k: int| 0 <= k < page.len() && page[k] == scope;
        assert(scopes[start + k] == scope);
        assert(scopes.contains(scope));
        let i = choose|i: int| 0 <= i < all.len() && can_be_granted(#[trigger] all[i], q, scope);
        assert(all[i] == candidates@[i]@);
        assert(can_be_granted(candidates@[i]@, q, scope));
    }
    if exists|i: int|
        0 <= i < candidates@.len() && can_be_granted((#[trigger] candidates@[i])@, q, scope) {
        let i = choose|i: int|
            0 <= i < candidates@.len() && can_be_granted((#[trigger] candidates@[i])@, q, scope);
        assert(all[i] == candidates@[i]@);
        assert(can_be_granted(all[i], q, scope));
        assert(scopes.contains(scope));
        if query@.cursor is None && !more {
            assert(page =~= scopes);
        }
    }
}

proof fn lemma_merged(patterns: Seq<(Seq<char>, RepositoryAction)>, pattern: Seq<char>)
    ensures
        ({
            let m = merged_patterns(patterns);
            &&& m.dom().finite()
            &&& m.dom().contains(pattern) <==> exists|i: int|
                0 <= i < patterns.len() && (#[trigger] patterns[i]).0 == pattern
            &&& m.dom().contains(pattern) ==> exists|i: int|
                0 <= i < patterns.len() && #[trigger] patterns[i] == (pattern, m[pattern])
            &&& forall|i: int|
                0 <= i < patterns.len() && (#[trigger] patterns[i]).0 == pattern ==> rank(
                    m[pattern],
                ) >= rank(patterns[i].1)
        }),
    decreases patterns.len(),
{
    if patterns.len() > 0 {
        let front = patterns.drop_last();
        lemma_merged(front, pattern);
        let m = merged_patterns(patterns);
        let before = merged_patterns(front);
        let last = patterns.len() - 1;
        assert forall|i: int| 0 <= i < front.len() implies #[trigger] patterns[i] == front[i] by {}
        assert(patterns[last] == patterns.last());
        if before.dom().contains(pattern) {
            let i = choose|i: int|
                0 <= i < front.len() && #[trigger] front[i] == (pattern, before[pattern]);
            assert(patterns[i] == front[i]);
        }
        if m.dom().contains(pattern) {
            if m[pattern] == patterns.last().1 && patterns.last().0 == pattern {
                assert(patterns[last] == (pattern, m[pattern]));
            } else {
                let i = choose|i: int|
                    0 <= i < front.len() && #[trigger] front[i] == (pattern, before[pattern]);
                assert(patterns[i] == (pattern, m[pattern]));
            }
        }
        assert forall|i: int|
            0 <= i < patterns.len() && (#[trigger] patterns[i]).0 == pattern implies rank(
            m[pattern],
        ) >= rank(patterns[i].1) by {
            if i < last {
                assert(patterns[i] == front[i]);
            }
        }
    }
}

/// Each pattern that the caller has is listed once, in ascending order, with the widest
/// action that it has on it and with how many of the repositories lie in its namespace.
pub proof fn lemma_patterns_that_can_be_granted(
    query: &GrantableScopeQuery,
    candidates: &Vec<Candidate>,
    patterns: &Vec<(String, RepositoryAction)>,
    r: GrantableScopeListResponse,
    i: int,
)
    requires
        call_ensures(grantable_scopes, (query, candidates, patterns), r),
        0 <= i < r.namespace_patterns@.len(),
    ensures
        ({
            let shown = r.namespace_patterns@[i];
            let given = patterns.deep_view();
            let scopes = grantable(candidates.deep_view(), query.q.deep_view());
            &&& shown.grant_source == GrantSource::GroupGrant
            &&& exists|k: int|
                0 <= k < given.len() && #[trigger] given[k] == (shown.pattern@, shown.max_grantable)
            &&& forall|k: int|
                0 <= k < given.len() && (#[trigger] given[k]).0 == shown.pattern@ ==> rank(
                    shown.max_grantable,
                ) >= rank(given[k].1)
            &&& shown.current_match_count == scopes.filter(
                |s: GrantableScopeView|
                    lies_in(pattern_namespace(shown.pattern@), s.repository),
            ).len()
        }),
{
    let given = patterns.deep_view();
    let m = merged_patterns(given);
    let keys = sorted_keys(m.dom());
    let listed = r.namespace_patterns.deep_view();
    let scopes = grantable(candidates.deep_view(), query.q.deep_view());
    assert(r@.namespace_patterns == listed);
    assert(listed == pattern_scopes(scopes, m));
    assert(listed.len() == r.namespace_patterns@.len());
    assert(listed[i] == r.namespace_patterns@[i]@);
    lemma_merged(given, keys[i]);
    lemma_finite_listing(m.dom());
    assert(keys.contains(keys[i]));
    lemma_grantable(candidates.deep_view(), query.q.deep_view(), arbitrary());
    scopes.lemma_filter_len(
        |s: GrantableScopeView| lies_in(pattern_namespace(keys[i]), s.repository),
    );
    assert(candidates@.len() <= usize::MAX) by {
        assert(candidates.len() == candidates@.len());
    }
    assert(match_count(scopes, pattern_namespace(keys[i])) <= usize::MAX);
}

/// Every pattern of the caller is listed.
pub proof fn lemma_every_pattern_is_listed(
    query: &GrantableScopeQuery,
    candidates: &Vec<Candidate>,
    patterns: &Vec<(String, RepositoryAction)>,
    r: GrantableScopeListResponse,
    k: int,
)
    requires
        call_ensures(grantable_scopes, (query, candidates, patterns), r),
        0 <= k < patterns@.len(),
    ensures
        exists|i: int|
            0 <= i < r.namespace_patterns@.len() && (#[trigger] r.namespace_patterns@[i]).pattern@
                == patterns@[k].0@,
{
    let given = patterns.deep_view();
    let m = merged_patterns(given);
    let keys = sorted_keys(m.dom());
    let listed = r.namespace_patterns.deep_view();
    let scopes = grantable(candidates.deep_view(), query.q.deep_view());
    assert(r@.namespace_patterns == listed);
    assert(listed == pattern_scopes(scopes, m));
    assert(listed.len() == r.namespace_patterns@.len());
    assert(given[k] == (patterns@[k].0@, patterns@[k].1));
    lemma_merged(given, given[k].0);
    lemma_finite_listing(m.dom());
    assert(keys.contains(given[k].0));
    let i = choose|i: int| 0 <= i < keys.len() && keys[i] == given[k].0;
    assert(listed[i] == r.namespace_patterns@[i]@);
    assert(r.namespace_patterns@[i].pattern@ == patterns@[k].0@);
}

/// The namespace of a pattern is its path, with or without the word in front.
pub proof fn lemma_namespace_of_a_pattern(path: Seq<char>)
    requires
        !"repository:"@.is_prefix_of(path + "/*"@),
    ensures
        pattern_namespace(path + "/*"@) == path,
        pattern_namespace("repository:"@ + path + "/*"@) == path,
{
    reveal_strlit("/*");
    let word = "repository:"@;
    let repo = path + "/*"@;
    let whole = word + path + "/*"@;
    assert(repo.take(repo.len() - 2) =~= path);
    assert(repo.skip(repo.len() - 2) =~= "/*"@);
    assert("/*"@.is_suffix_of(repo));
    assert(whole =~= word + repo);
    assert(whole.take(word.len() as int) =~= word);
    assert(whole.skip(word.len() as int) =~= repo);
}

// ── Sessions ─────────────────────────────────────────────────────────────

/// Where nobody has to log in, everybody is an administrator without a name. Else a session
/// shows who is logged in, and nobody has none.
pub proof fn lemma_shown_sessions(
    auth_enabled: bool,
    identity: Option<AuthIdentity>,
    is_admin: bool,
    r: Result<SessionResponse, LayerhouseError>,
)
    requires
        call_ensures(get_session, (auth_enabled, identity, is_admin), r),
    ensures
        r is Err <==> auth_enabled && identity is None,
        r matches Err(e) ==> e is Unauthorized,
        !auth_enabled ==> {
            let s = r->Ok_0;
            !s.auth_enabled && s.subject is None && s.is_admin && s.scopes@.len() == 0
        },
        auth_enabled ==> (identity matches Some(i) ==> {
            let s = r->Ok_0;
            &&& s.auth_enabled
            &&& s.subject.deep_view() == Some(i.subject@)
            &&& s.username.deep_view() == i.username.deep_view()
            &&& s.display_name.deep_view() == i.display_name.deep_view()
            &&& s.email.deep_view() == i.email.deep_view()
            &&& s.groups.deep_view() == i.groups.deep_view()
            &&& s.scopes.deep_view() == i.scopes.deep_view()
            &&& s.is_admin == is_admin
        }),
{
    assert(identity.deep_view() is Some <==> identity is Some);
    if let Ok(s) = r {
        assert(s.subject.deep_view() is Some <==> s.subject is Some);
        assert(s@.scopes == s.scopes.deep_view());
        assert(s.scopes.deep_view().len() == s.scopes@.len());
    }
}

/// A logout sends the browser to the identity provider where that can be told who leaves,
/// and else to the start; both cookies of the session end either way.
pub proof fn lemma_answer_to_a_logout(
    endpoint: &Option<String>,
    logout_hint: &Option<String>,
    attributes: &str,
    r: Reply,
)
    requires
        call_ensures(logout_session, (endpoint, logout_hint, attributes), r),
    ensures
        r.status == 307,
        endpoint is Some && logout_hint is Some ==> has_header(
            r,
            "location"@,
            endpoint->0@ + "?id_token_hint="@ + logout_hint->0@ + "&post_logout_redirect_uri=/"@,
        ),
        endpoint is None || logout_hint is None ==> has_header(r, "location"@, "/"@),
        has_header(
            r,
            "set-cookie"@,
            "layerhouse_session"@ + "="@ + Seq::<char>::empty() + "; "@ + (attributes@
                + "; Path=/; Max-Age=0"@),
        ),
        has_header(
            r,
            "set-cookie"@,
            "layerhouse_logout_hint"@ + "="@ + Seq::<char>::empty() + "; "@ + (attributes@
                + "; Path=/api/v1/session/logout; Max-Age=0"@),
        ),
{
    assert(endpoint.deep_view() is Some <==> endpoint is Some);
    assert(logout_hint.deep_view() is Some <==> logout_hint is Some);
    let h = r.headers.deep_view();
    assert(r@.headers == h);
    assert(h[0] == (r.headers@[0].0@, r.headers@[0].1@));
    assert(h[1] == (r.headers@[1].0@, r.headers@[1].1@));
    assert(h[2] == (r.headers@[2].0@, r.headers@[2].1@));
    assert(r.headers@[0].0@ == "location"@);
    assert(r.headers@[1].0@ == "set-cookie"@);
    assert(r.headers@[2].0@ == "set-cookie"@);
}

/// Each kind of token has a name of its own.
pub proof fn lemma_names_of_tokens(kind: TokenType, r: &'static str)
    requires
        call_ensures(token_type_name, (kind,), r),
    ensures
        kind is KanidmAccess ==> r@ == "oidc_access"@,
        kind is PersonalAccess ==> r@ == "personal_access"@,
        kind is OciBearer ==> r@ == "oci_bearer"@,
        kind is Session ==> r@ == "session"@,
{
}

/// A session reads cookies as a login does.
pub proof fn lemma_cookies_are_read_alike(
    header: &str,
    name: &str,
    a: Option<String>,
    b: Option<String>,
)
    requires
        call_ensures(extract_cookie_value, (header, name), a),
        call_ensures(extract_cookie, (header, name), b),
    ensures
        a.deep_view() == b.deep_view(),
{
}

} // verus!
