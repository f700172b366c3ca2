//! Personal access tokens: what they may grant, how they are made and listed.
use super::dashboard_api::{page_len, page_size};
use super::uploads::{is_uuid_v4, uuid_v4_text};
use crate::auth::grants::{
    action_rank, action_text, actions_text, grant_covers, rank, scope_tokens, widest, widest_action,
    GrantSource, RepositoryAction,
};
use crate::auth::middleware::{unauthorized, unauthorized_error};
use crate::auth::oauth2::random_bytes;
use crate::auth::token::{AuthIdentity, AuthIdentityView};
use crate::clones::{clone_list, clone_option};
use crate::error::{ErrorView, LayerhouseError};
use crate::listing::{page_of, paginate};
use crate::oci::digest::{hex_encode, hex_text, sha256_bytes, sha256_of};
use crate::store::metadata::types::{PersonalAccessToken, PersonalAccessTokenView};
use crate::string_map::{sorted_keys, StringMap};
use crate::text::{
    chars_of, concat2, concat3, concat4, concat5, debug_quoted, lowercase, quoted, split_on, split,
    starts_with, str_equal, strip_prefix, strip_suffix, text_of, to_lowercase, trim, trimmed,
};
use vstd::prelude::*;
use vstd::utf8::encode_utf8;

verus! {

// ── Values ───────────────────────────────────────────────────────────────

/// The actions that a token shall allow on a repository, or on the repositories of a
/// namespace pattern such as `team-a/*`.
#[derive(Debug)]
pub struct PatScopeSelection {
    pub repository: String,
    pub actions: Vec<RepositoryAction>,
}

/// What a `PatScopeSelection` holds.
#[verifier::ext_equal]
pub struct PatScopeSelectionView {
    pub repository: Seq<char>,
    pub actions: Seq<RepositoryAction>,
}

impl View for PatScopeSelection {
    type V = PatScopeSelectionView;

    open spec fn view(&self) -> PatScopeSelectionView {
        PatScopeSelectionView {
            repository: self.repository.deep_view(),
            actions: self.actions@,
        }
    }
}

impl DeepView for PatScopeSelection {
    type V = PatScopeSelectionView;

    open spec fn deep_view(&self) -> PatScopeSelectionView {
        self@
    }
}

impl Clone for PatScopeSelection {
    fn clone(&self) -> (r: Self)
        ensures
            r@ == self@,
    {
        PatScopeSelection {
            repository: self.repository.clone(),
            actions: self.actions.clone(),
        }
    }
}

/// A request for a token.
#[derive(Debug)]
pub struct CreatePatRequest {
    pub name: String,
    pub scopes: Vec<PatScopeSelection>,
    pub expires_in_days: Option<u32>,
}

/// What a `CreatePatRequest` holds.
#[verifier::ext_equal]
pub struct CreatePatRequestView {
    pub name: Seq<char>,
    pub scopes: Seq<PatScopeSelectionView>,
    pub expires_in_days: Option<u32>,
}

impl View for CreatePatRequest {
    type V = CreatePatRequestView;

    open spec fn view(&self) -> CreatePatRequestView {
        CreatePatRequestView {
            name: self.name.deep_view(),
            scopes: self.scopes.deep_view(),
            expires_in_days: self.expires_in_days,
        }
    }
}

impl DeepView for CreatePatRequest {
    type V = CreatePatRequestView;

    open spec fn deep_view(&self) -> CreatePatRequestView {
        self@
    }
}

impl Clone for CreatePatRequest {
    fn clone(&self) -> (r: Self)
        ensures
            r@ == self@,
    {
        CreatePatRequest {
            name: self.name.clone(),
            scopes: clone_list(&self.scopes),
            expires_in_days: self.expires_in_days,
        }
    }
}

/// A new token, with its secret.
#[derive(Debug)]
pub struct CreatePatResponse {
    pub id: String,
    pub name: String,
    pub token: String,
    pub scopes: Vec<String>,
    pub created_at: u64,
    pub expires_at: Option<u64>,
}

/// What a `CreatePatResponse` holds.
#[verifier::ext_equal]
pub struct CreatePatResponseView {
    pub id: Seq<char>,
    pub name: Seq<char>,
    pub token: Seq<char>,
    pub scopes: Seq<Seq<char>>,
    pub created_at: u64,
    pub expires_at: Option<u64>,
}

impl View for CreatePatResponse {
    type V = CreatePatResponseView;

    open spec fn view(&self) -> CreatePatResponseView {
        CreatePatResponseView {
            id: self.id.deep_view(),
            name: self.name.deep_view(),
            token: self.token.deep_view(),
            scopes: self.scopes.deep_view(),
            created_at: self.created_at,
            expires_at: self.expires_at,
        }
    }
}

impl DeepView for CreatePatResponse {
    type V = CreatePatResponseView;

    open spec fn deep_view(&self) -> CreatePatResponseView {
        self@
    }
}

impl Clone for CreatePatResponse {
    fn clone(&self) -> (r: Self)
        ensures
            r@ == self@,
    {
        CreatePatResponse {
            id: self.id.clone(),
            name: self.name.clone(),
            token: self.token.clone(),
            scopes: clone_list(&self.scopes),
            created_at: self.created_at,
            expires_at: self.expires_at,
        }
    }
}

/// A token as it is listed, without its secret.
#[derive(Debug)]
pub struct PatListItem {
    pub id: String,
    pub name: String,
    pub prefix: String,
    pub scopes: Vec<String>,
    pub created_at: u64,
    pub last_used_at: Option<u64>,
    pub expires_at: Option<u64>,
}

/// What a `PatListItem` holds.
#[verifier::ext_equal]
pub struct PatListItemView {
    pub id: Seq<char>,
    pub name: Seq<char>,
    pub prefix: Seq<char>,
    pub scopes: Seq<Seq<char>>,
    pub created_at: u64,
    pub last_used_at: Option<u64>,
    pub expires_at: Option<u64>,
}

impl View for PatListItem {
    type V = PatListItemView;

    open spec fn view(&self) -> PatListItemView {
        PatListItemView {
            id: self.id.deep_view(),
            name: self.name.deep_view(),
            prefix: self.prefix.deep_view(),
            scopes: self.scopes.deep_view(),
            created_at: self.created_at,
            last_used_at: self.last_used_at,
            expires_at: self.expires_at,
        }
    }
}

impl DeepView for PatListItem {
    type V = PatListItemView;

    open spec fn deep_view(&self) -> PatListItemView {
        self@
    }
}

impl Clone for PatListItem {
    fn clone(&self) -> (r: Self)
        ensures
            r@ == self@,
    {
        PatListItem {
            id: self.id.clone(),
            name: self.name.clone(),
            prefix: self.prefix.clone(),
            scopes: clone_list(&self.scopes),
            created_at: self.created_at,
            last_used_at: self.last_used_at,
            expires_at: self.expires_at,
        }
    }
}

/// A search for what can be granted.
#[derive(Debug)]
pub struct GrantableScopeQuery {
    pub q: Option<String>,
    pub n: Option<usize>,
    pub cursor: Option<String>,
}

/// What a `GrantableScopeQuery` holds.
#[verifier::ext_equal]
pub struct GrantableScopeQueryView {
    pub q: Option<Seq<char>>,
    pub n: Option<usize>,
    pub cursor: Option<Seq<char>>,
}

impl View for GrantableScopeQuery {
    type V = GrantableScopeQueryView;

    open spec fn view(&self) -> GrantableScopeQueryView {
        GrantableScopeQueryView {
            q: self.q.deep_view(),
            n: self.n,
            cursor: self.cursor.deep_view(),
        }
    }
}

impl DeepView for GrantableScopeQuery {
    type V = GrantableScopeQueryView;

    open spec fn deep_view(&self) -> GrantableScopeQueryView {
        self@
    }
}

impl Clone for GrantableScopeQuery {
    fn clone(&self) -> (r: Self)
        ensures
            r@ == self@,
    {
        GrantableScopeQuery {
            q: clone_option(&self.q),
            n: self.n,
            cursor: clone_option(&self.cursor),
        }
    }
}

/// A repository, and what the caller may grant on it.
#[derive(Debug)]
pub struct Candidate {
    pub repository: String,
    pub access: Option<(RepositoryAction, GrantSource)>,
}

/// What a `Candidate` holds.
#[verifier::ext_equal]
pub struct CandidateView {
    pub repository: Seq<char>,
    pub access: Option<(RepositoryAction, GrantSource)>,
}

impl View for Candidate {
    type V = CandidateView;

    open spec fn view(&self) -> CandidateView {
        CandidateView {
            repository: self.repository.deep_view(),
            access: self.access,
        }
    }
}

impl DeepView for Candidate {
    type V = CandidateView;

    open spec fn deep_view(&self) -> CandidateView {
        self@
    }
}

impl Clone for Candidate {
    fn clone(&self) -> (r: Self)
        ensures
            r@ == self@,
    {
        Candidate {
            repository: self.repository.clone(),
            access: self.access,
        }
    }
}

/// A repository on which something can be granted.
#[derive(Debug)]
pub struct GrantableScope {
    pub repository: String,
    pub max_grantable: RepositoryAction,
    pub grant_source: GrantSource,
}

/// What a `GrantableScope` holds.
#[verifier::ext_equal]
pub struct GrantableScopeView {
    pub repository: Seq<char>,
    pub max_grantable: RepositoryAction,
    pub grant_source: GrantSource,
}

impl View for GrantableScope {
    type V = GrantableScopeView;

    open spec fn view(&self) -> GrantableScopeView {
        GrantableScopeView {
            repository: self.repository.deep_view(),
            max_grantable: self.max_grantable,
            grant_source: self.grant_source,
        }
    }
}

impl DeepView for GrantableScope {
    type V = GrantableScopeView;

    open spec fn deep_view(&self) -> GrantableScopeView {
        self@
    }
}

impl Clone for GrantableScope {
    fn clone(&self) -> (r: Self)
        ensures
            r@ == self@,
    {
        GrantableScope {
            repository: self.repository.clone(),
            max_grantable: self.max_grantable,
            grant_source: self.grant_source,
        }
    }
}

/// A pattern on which something can be granted.
#[derive(Debug)]
pub struct NamespacePatternScope {
    pub pattern: String,
    pub current_match_count: u64,
    pub max_grantable: RepositoryAction,
    pub grant_source: GrantSource,
}

/// What a `NamespacePatternScope` holds.
#[verifier::ext_equal]
pub struct NamespacePatternScopeView {
    pub pattern: Seq<char>,
    pub current_match_count: u64,
    pub max_grantable: RepositoryAction,
    pub grant_source: GrantSource,
}

impl View for NamespacePatternScope {
    type V = NamespacePatternScopeView;

    open spec fn view(&self) -> NamespacePatternScopeView {
        NamespacePatternScopeView {
            pattern: self.pattern.deep_view(),
            current_match_count: self.current_match_count,
            max_grantable: self.max_grantable,
            grant_source: self.grant_source,
        }
    }
}

impl DeepView for NamespacePatternScope {
    type V = NamespacePatternScopeView;

    open spec fn deep_view(&self) -> NamespacePatternScopeView {
        self@
    }
}

impl Clone for NamespacePatternScope {
    fn clone(&self) -> (r: Self)
        ensures
            r@ == self@,
    {
        NamespacePatternScope {
            pattern: self.pattern.clone(),
            current_match_count: self.current_match_count,
            max_grantable: self.max_grantable,
            grant_source: self.grant_source,
        }
    }
}

/// What can be granted.
#[derive(Debug)]
pub struct GrantableScopeListResponse {
    pub scopes: Vec<GrantableScope>,
    pub namespace_patterns: Vec<NamespacePatternScope>,
    pub total_matches: u64,
    pub next_cursor: Option<String>,
}

/// What a `GrantableScopeListResponse` holds.
#[verifier::ext_equal]
pub struct GrantableScopeListResponseView {
    pub scopes: Seq<GrantableScopeView>,
    pub namespace_patterns: Seq<NamespacePatternScopeView>,
    pub total_matches: u64,
    pub next_cursor: Option<Seq<char>>,
}

impl View for GrantableScopeListResponse {
    type V = GrantableScopeListResponseView;

    open spec fn view(&self) -> GrantableScopeListResponseView {
        GrantableScopeListResponseView {
            scopes: self.scopes.deep_view(),
            namespace_patterns: self.namespace_patterns.deep_view(),
            total_matches: self.total_matches,
            next_cursor: self.next_cursor.deep_view(),
        }
    }
}

impl DeepView for GrantableScopeListResponse {
    type V = GrantableScopeListResponseView;

    open spec fn deep_view(&self) -> GrantableScopeListResponseView {
        self@
    }
}

impl Clone for GrantableScopeListResponse {
    fn clone(&self) -> (r: Self)
        ensures
            r@ == self@,
    {
        GrantableScopeListResponse {
            scopes: clone_list(&self.scopes),
            namespace_patterns: clone_list(&self.namespace_patterns),
            total_matches: self.total_matches,
            next_cursor: clone_option(&self.next_cursor),
        }
    }
}

// ── Callers ──────────────────────────────────────────────────────────────

/// Who is behind a request. Nobody is an error.
pub fn required_identity(identity: Option<AuthIdentity>) -> (r: Result<
    AuthIdentity,
    LayerhouseError,
>)
    ensures
        match identity {
            Some(i) => r == Ok::<AuthIdentity, LayerhouseError>(i),
            None => r matches Err(e) && e@ == unauthorized("authentication required"@),
        },
{
    match identity {
        Some(i) => Ok(i),
        None => Err(unauthorized_error("authentication required")),
    }
}

// ── Lists ────────────────────────────────────────────────────────────────

/// A token as it is listed.
pub open spec fn listed_token(token: PersonalAccessTokenView) -> PatListItemView {
    PatListItemView {
        id: token.id,
        name: token.name,
        prefix: token.token_prefix,
        scopes: token.scopes,
        created_at: token.created_at,
        last_used_at: token.last_used_at,
        expires_at: token.expires_at,
    }
}

/// Tokens as they are listed, in order.
pub fn list_tokens(tokens: &Vec<PersonalAccessToken>) -> (r: Vec<PatListItem>)
    ensures
        r.deep_view() == tokens.deep_view().map_values(
            |t: PersonalAccessTokenView| listed_token(t),
        ),
{
    let mut items: Vec<PatListItem> = Vec::new();
    let mut i: usize = 0;
    while i < tokens.len()
        invariant
            i <= tokens@.len(),
            items@.len() == i,
            forall|j: int| 0 <= j < i ==> (#[trigger] items@[j])@ == listed_token(tokens@[j]@),
        decreases tokens@.len() - i,
    {
        let t = &tokens[i];
        items.push(
            PatListItem {
                id: t.id.clone(),
                name: t.name.clone(),
                prefix: t.token_prefix.clone(),
                scopes: clone_list(&t.scopes),
                created_at: t.created_at,
                last_used_at: t.last_used_at,
                expires_at: t.expires_at,
            },
        );
        i = i + 1;
    }
    assert(items.deep_view() =~= tokens.deep_view().map_values(
        |t: PersonalAccessTokenView| listed_token(t),
    ));
    items
}

/// How the revocation of a token is answered.
pub fn token_revoked(deleted: bool, id: &str) -> (r: Result<u16, LayerhouseError>)
    ensures
        if deleted {
            r == Ok::<u16, LayerhouseError>(204u16)
        } else {
            r matches Err(e) && e@ == ErrorView::NameUnknown("token not found: "@ + id@)
        },
{
    if deleted {
        Ok(204)
    } else {
        Err(LayerhouseError::NameUnknown(concat2("token not found: ", id)))
    }
}

// ── What a token may grant ───────────────────────────────────────────────

/// Checks the name of a token: it must not be blank.
pub fn check_token_name(name: &str) -> (r: Result<(), LayerhouseError>)
    ensures
        if trimmed(name@).len() == 0 {
            r matches Err(e) && e@ == ErrorView::NameInvalid("token name is required"@)
        } else {
            r is Ok
        },
{
    if trim(name).as_str().unicode_len() == 0 {
        Err(LayerhouseError::NameInvalid("token name is required".to_string()))
    } else {
        Ok(())
    }
}

/// The scope that a selection asks for.
pub open spec fn selection_scope_of(selection: PatScopeSelectionView) -> Result<
    Seq<char>,
    ErrorView,
> {
    let repo = trimmed(selection.repository);
    if repo.len() == 0 {
        Err(ErrorView::NameInvalid("scope repository is required"@))
    } else {
        Ok("repository:"@ + repo + ":"@ + actions_text(selection.actions))
    }
}

/// The scope that a selection asks for, `repository:<name>:<actions>`.
pub fn selection_scope(selection: &PatScopeSelection) -> (r: Result<String, LayerhouseError>)
    ensures
        match r {
            Ok(scope) => selection_scope_of(selection@) == Ok::<_, ErrorView>(scope@),
            Err(e) => selection_scope_of(selection@) == Err::<Seq<char>, _>(e@),
        },
{
    let repo = trim(&selection.repository);
    if repo.as_str().unicode_len() == 0 {
        return Err(LayerhouseError::NameInvalid("scope repository is required".to_string()));
    }
    Ok(concat4("repository:", &repo, ":", &scope_tokens(&selection.actions)))
}

/// Whether a repository is in the personal namespace of somebody else than a
/// user.
pub open spec fn is_foreign(username: Option<Seq<char>>, repository: Seq<char>) -> bool {
    let parts = split_on(repository, '/');
    parts.len() > 1 && parts[0] == "users"@ && username != Some(parts[1])
}

/// Checks that a selection does not reach into the personal namespace of
/// somebody else.
pub fn check_personal_namespace(selection: &PatScopeSelection, username: &Option<String>) -> (r:
    Result<(), LayerhouseError>)
    ensures
        ({
            let repo = trimmed(selection@.repository);
            if is_foreign(username.deep_view(), repo) {
                r matches Err(e) && e@ == ErrorView::Denied(
                    "cannot grant a scope in the personal namespace of another user: "@
                        + debug_quoted(repo),
                )
            } else {
                r is Ok
            }
        }),
{
    let repo = trim(&selection.repository);
    let parts = split(&repo, '/');
    let ghost all = parts.deep_view();
    let foreign = if parts.len() > 1 && str_equal(&parts[0], "users") {
        assert(all[0] == parts@[0]@ && all[1] == parts@[1]@);
        match username {
            Some(name) => !str_equal(name, &parts[1]),
            None => true,
        }
    } else {
        assert(parts@.len() > 1 ==> all[0] == parts@[0]@);
        false
    };
    if foreign {
        Err(
            LayerhouseError::Denied(
                concat2(
                    "cannot grant a scope in the personal namespace of another user: ",
                    &quoted(&repo),
                ),
            ),
        )
    } else {
        Ok(())
    }
}

/// What a caller may grant at most: on the repository of a selection, and, for
/// namespace patterns, by the own scopes and by the own groups.
#[derive(Debug, Clone, Copy)]
pub struct Ceiling {
    pub max_action: RepositoryAction,
    pub pattern_max: Option<RepositoryAction>,
    pub group_max: Option<RepositoryAction>,
}

/// The first position from `from` on of an action beyond a limit, or the end.
pub open spec fn first_beyond(
    actions: Seq<RepositoryAction>,
    max_action: RepositoryAction,
    from: int,
) -> int
    decreases actions.len() - from,
{
    if from < actions.len() && rank(max_action) >= rank(actions[from]) {
        first_beyond(actions, max_action, from + 1)
    } else {
        from
    }
}

/// Whether a limit, where there is one, includes an action.
pub open spec fn reaches(limit: Option<RepositoryAction>, action: RepositoryAction) -> bool {
    limit matches Some(max) && rank(max) >= rank(action)
}

/// Whether a repository is a pattern for all of a namespace.
pub open spec fn is_namespace_pattern(repo: Seq<char>) -> bool {
    &&& "/*"@.is_suffix_of(repo)
    &&& repo.take(repo.len() - "/*"@.len()).len() > 0
    &&& repo.take(repo.len() - "/*"@.len()) != "*"@
}

/// Why a caller may not grant what a selection asks for.
pub open spec fn ceiling_error(selection: PatScopeSelectionView, ceiling: Ceiling) -> Option<
    ErrorView,
> {
    let repo = trimmed(selection.repository);
    let p = first_beyond(selection.actions, ceiling.max_action, 0);
    let best = widest(selection.actions);
    if p < selection.actions.len() {
        Some(
            ErrorView::Denied(
                "cannot grant action "@ + action_text(selection.actions[p]) + " on repository "@
                    + debug_quoted(repo) + (": your maximum grantable action is "@ + action_text(
                    ceiling.max_action,
                )),
            ),
        )
    } else if is_namespace_pattern(repo) && !reaches(ceiling.pattern_max, best) && !reaches(
        ceiling.group_max,
        best,
    ) {
        Some(
            ErrorView::Denied(
                "cannot grant namespace-pattern scope "@ + debug_quoted(repo)
                    + ": no matching grant pattern found"@,
            ),
        )
    } else {
        None
    }
}

/// Whether a limit, where there is one, includes an action.
fn within(limit: Option<RepositoryAction>, action: RepositoryAction) -> (r: bool)
    ensures
        r == reaches(limit, action),
{
    match limit {
        Some(max) => grant_covers(max, action),
        None => false,
    }
}

/// Whether a repository is a pattern for all of a namespace.
fn names_a_namespace(repo: &str) -> (r: bool)
    ensures
        r == is_namespace_pattern(repo@),
{
    match strip_suffix(repo, "/*") {
        Some(prefix) => prefix.as_str().unicode_len() > 0 && !str_equal(&prefix, "*"),
        None => false,
    }
}

/// Checks that a caller may grant what a selection asks for.
pub fn check_ceiling(selection: &PatScopeSelection, ceiling: &Ceiling) -> (r: Result<
    (),
    LayerhouseError,
>)
    ensures
        match r {
            Ok(_) => ceiling_error(selection@, *ceiling) is None,
            Err(e) => ceiling_error(selection@, *ceiling) == Some(e@),
        },
{
    let repo = trim(&selection.repository);
    let mut i: usize = 0;
    while i < selection.actions.len()
        invariant
            i <= selection.actions@.len(),
            repo@ == trimmed(selection@.repository),
            first_beyond(selection@.actions, ceiling.max_action, 0) == first_beyond(
                selection@.actions,
                ceiling.max_action,
                i as int,
            ),
        decreases selection.actions@.len() - i,
    {
        if !grant_covers(ceiling.max_action, selection.actions[i]) {
            let limit = concat2(
                ": your maximum grantable action is ",
                ceiling.max_action.scope_token(),
            );
            let text = concat5(
                "cannot grant action ",
                selection.actions[i].scope_token(),
                " on repository ",
                &quoted(&repo),
                &limit,
            );
            return Err(LayerhouseError::Denied(text));
        }
        i = i + 1;
    }
    if names_a_namespace(&repo) {
        let best = widest_action(&selection.actions);
        if !within(ceiling.pattern_max, best) && !within(ceiling.group_max, best) {
            return Err(
                LayerhouseError::Denied(
                    concat3(
                        "cannot grant namespace-pattern scope ",
                        &quoted(&repo),
                        ": no matching grant pattern found",
                    ),
                ),
            );
        }
    }
    Ok(())
}

/// What is known of what a caller may grant at most, or why it is not known.
pub open spec fn looked_up(ceiling: Option<Result<Ceiling, LayerhouseError>>) -> Option<
    Result<Ceiling, ErrorView>,
> {
    match ceiling {
        Some(Ok(c)) => Some(Ok(c)),
        Some(Err(e)) => Some(Err(e@)),
        None => None,
    }
}

/// The scope that a selection adds to a token, or why it adds none. Where nobody
/// has to log in there is no limit.
pub open spec fn accepted_scope(
    selection: PatScopeSelectionView,
    username: Option<Seq<char>>,
    ceiling: Option<Result<Ceiling, ErrorView>>,
) -> Result<Seq<char>, ErrorView> {
    let repo = trimmed(selection.repository);
    match selection_scope_of(selection) {
        Err(e) => Err(e),
        Ok(scope) => if is_foreign(username, repo) {
            Err(
                ErrorView::Denied(
                    "cannot grant a scope in the personal namespace of another user: "@
                        + debug_quoted(repo),
                ),
            )
        } else {
            match ceiling {
                None => Ok(scope),
                Some(Err(e)) => Err(e),
                Some(Ok(c)) => match ceiling_error(selection, c) {
                    Some(e) => Err(e),
                    None => Ok(scope),
                },
            }
        },
    }
}

/// The scope that a selection adds to a token, or why it adds none.
pub fn accept_selection(
    selection: &PatScopeSelection,
    username: &Option<String>,
    ceiling: Option<Result<Ceiling, LayerhouseError>>,
) -> (r: Result<String, LayerhouseError>)
    ensures
        ({
            let scope = accepted_scope(selection@, username.deep_view(), looked_up(ceiling));
            match r {
                Ok(s) => scope == Ok::<_, ErrorView>(s@),
                Err(e) => scope == Err::<Seq<char>, _>(e@),
            }
        }),
{
    let scope = match selection_scope(selection) {
        Ok(scope) => scope,
        Err(e) => return Err(e),
    };
    if let Err(e) = check_personal_namespace(selection, username) {
        return Err(e);
    }
    match ceiling {
        None => Ok(scope),
        Some(Err(e)) => Err(e),
        Some(Ok(c)) => match check_ceiling(selection, &c) {
            Ok(_) => Ok(scope),
            Err(e) => Err(e),
        },
    }
}

/// Nobody can grant more than the own rights allow: each action of an accepted
/// selection is within the limit of the caller.
pub proof fn lemma_grants_stay_below_ceiling(
    selection: PatScopeSelectionView,
    ceiling: Ceiling,
    i: int,
)
    requires
        ceiling_error(selection, ceiling) is None,
        0 <= i < selection.actions.len(),
    ensures
        rank(ceiling.max_action) >= rank(selection.actions[i]),
{
    lemma_first_beyond(selection.actions, ceiling.max_action, 0, i);
}

/// What stands before the first action beyond a limit is within it.
proof fn lemma_first_beyond(
    actions: Seq<RepositoryAction>,
    max_action: RepositoryAction,
    from: int,
    i: int,
)
    requires
        0 <= from <= i < actions.len(),
        i < first_beyond(actions, max_action, from),
    ensures
        rank(max_action) >= rank(actions[i]),
    decreases actions.len() - from,
{
    if from < i {
        lemma_first_beyond(actions, max_action, from + 1, i);
    }
}

/// A token for all of a namespace needs a right to all of the namespace: by the
/// own scopes or by a group, for the widest action that is asked for.
pub proof fn lemma_namespace_needs_pattern(selection: PatScopeSelectionView, ceiling: Ceiling)
    requires
        ceiling_error(selection, ceiling) is None,
        is_namespace_pattern(trimmed(selection.repository)),
    ensures
        reaches(ceiling.pattern_max, widest(selection.actions)) || reaches(
            ceiling.group_max,
            widest(selection.actions),
        ),
{
}

/// What is known of the limits of some selections.
pub open spec fn all_looked_up(ceilings: Seq<Option<Result<Ceiling, LayerhouseError>>>) -> Seq<
    Option<Result<Ceiling, ErrorView>>,
> {
    ceilings.map_values(|c: Option<Result<Ceiling, LayerhouseError>>| looked_up(c))
}

/// The scopes that some selections add to a token, each with its limit, or why
/// the first that is refused adds none.
pub open spec fn accepted_scopes(
    selections: Seq<PatScopeSelectionView>,
    username: Option<Seq<char>>,
    ceilings: Seq<Option<Result<Ceiling, ErrorView>>>,
) -> Result<Seq<Seq<char>>, ErrorView>
    decreases selections.len(),
{
    if selections.len() == 0 {
        Ok(Seq::empty())
    } else {
        match accepted_scopes(selections.drop_last(), username, ceilings) {
            Err(e) => Err(e),
            Ok(scopes) => match accepted_scope(
                selections.last(),
                username,
                ceilings[selections.len() - 1],
            ) {
                Err(e) => Err(e),
                Ok(scope) => Ok(scopes.push(scope)),
            },
        }
    }
}

/// The scopes of the token that is asked for, or why there is none: it has no
/// name, or one of its selections is refused.
pub open spec fn granted_scopes(
    req: CreatePatRequestView,
    username: Option<Seq<char>>,
    ceilings: Seq<Option<Result<Ceiling, ErrorView>>>,
) -> Result<Seq<Seq<char>>, ErrorView> {
    if trimmed(req.name).len() == 0 {
        Err(ErrorView::NameInvalid("token name is required"@))
    } else {
        accepted_scopes(req.scopes, username, ceilings)
    }
}

/// A refusal of the first selections is a refusal of all of them.
proof fn lemma_refused_early(
    selections: Seq<PatScopeSelectionView>,
    username: Option<Seq<char>>,
    ceilings: Seq<Option<Result<Ceiling, ErrorView>>>,
    n: int,
)
    requires
        0 <= n <= selections.len(),
        accepted_scopes(selections.take(n), username, ceilings) is Err,
    ensures
        accepted_scopes(selections, username, ceilings) == accepted_scopes(
            selections.take(n),
            username,
            ceilings,
        ),
    decreases selections.len(),
{
    if n == selections.len() {
        assert(selections.take(n) =~= selections);
    } else {
        assert(selections.drop_last().take(n) =~= selections.take(n));
        lemma_refused_early(selections.drop_last(), username, ceilings, n);
    }
}

/// The scopes of the token that is asked for, or why there is none.
pub fn grant_scopes(
    req: &CreatePatRequest,
    username: &Option<String>,
    ceilings: Vec<Option<Result<Ceiling, LayerhouseError>>>,
) -> (r: Result<Vec<String>, LayerhouseError>)
    requires
        ceilings@.len() == req.scopes@.len(),
    ensures
        match granted_scopes(req@, username.deep_view(), all_looked_up(ceilings@)) {
            Ok(scopes) => r matches Ok(s) && s.deep_view() == scopes,
            Err(error) => r matches Err(e) && e@ == error,
        },
{
    if let Err(e) = check_token_name(&req.name) {
        return Err(e);
    }
    let ghost limits = all_looked_up(ceilings@);
    let ghost all = req@.scopes;
    let mut rest = ceilings;
    let mut scopes: Vec<String> = Vec::new();
    let mut i: usize = 0;
    assert(all.take(0) =~= Seq::empty());
    assert(scopes.deep_view() =~= Seq::empty());
    assert(rest@ =~= ceilings@.skip(0));
    while i < req.scopes.len()
        invariant
            trimmed(req@.name).len() > 0,
            all == req@.scopes,
            all.len() == req.scopes@.len(),
            limits == all_looked_up(ceilings@),
            ceilings@.len() == req.scopes@.len(),
            i <= req.scopes@.len(),
            rest@ == ceilings@.skip(i as int),
            accepted_scopes(all.take(i as int), username.deep_view(), limits) == Ok::<_, ErrorView>(
                scopes.deep_view(),
            ),
        decreases req.scopes@.len() - i,
    {
        let ceiling = rest.remove(0);
        assert(rest@ =~= ceilings@.skip(i + 1));
        assert(limits[i as int] == looked_up(ceiling));
        assert(all.take(i + 1).drop_last() =~= all.take(i as int));
        assert(all.take(i + 1).last() == req.scopes@[i as int]@);
        let ghost before = scopes.deep_view();
        match accept_selection(&req.scopes[i], username, ceiling) {
            Ok(scope) => {
                scopes.push(scope);
                assert(scopes.deep_view() =~= before.push(scope@));
            },
            Err(e) => {
                proof {
                    lemma_refused_early(all, username.deep_view(), limits, i + 1);
                }
                return Err(e);
            },
        }
        i = i + 1;
    }
    assert(all.take(all.len() as int) =~= all);
    Ok(scopes)
}

/// Where a token is granted, it carries one scope for each selection, and no
/// selection was refused.
proof fn lemma_accepted_one_by_one(
    selections: Seq<PatScopeSelectionView>,
    username: Option<Seq<char>>,
    ceilings: Seq<Option<Result<Ceiling, ErrorView>>>,
    i: int,
)
    requires
        accepted_scopes(selections, username, ceilings) is Ok,
        0 <= i < selections.len(),
    ensures
        ({
            let scopes = accepted_scopes(selections, username, ceilings)->Ok_0;
            &&& scopes.len() == selections.len()
            &&& accepted_scope(selections[i], username, ceilings[i]) == Ok::<_, ErrorView>(
                scopes[i],
            )
        }),
    decreases selections.len(),
{
    let front = selections.drop_last();
    if i < front.len() {
        lemma_accepted_one_by_one(front, username, ceilings, i);
    } else if front.len() > 0 {
        lemma_accepted_one_by_one(front, username, ceilings, 0);
    }
}

/// A token never carries more than its creator could grant: where a request is
/// granted, the token has one scope for each selection, which is the scope that
/// the selection asks for, and every action of every selection is within the
/// limit of the caller.
pub proof fn lemma_token_stays_below_ceilings(
    req: CreatePatRequestView,
    username: Option<Seq<char>>,
    ceilings: Seq<Option<Result<Ceiling, ErrorView>>>,
    i: int,
    j: int,
)
    requires
        granted_scopes(req, username, ceilings) is Ok,
        0 <= i < req.scopes.len(),
        0 <= j < req.scopes[i].actions.len(),
    ensures
        ({
            let scopes = granted_scopes(req, username, ceilings)->Ok_0;
            &&& scopes.len() == req.scopes.len()
            &&& selection_scope_of(req.scopes[i]) == Ok::<_, ErrorView>(scopes[i])
            &&& ceilings[i] matches Some(limit) ==> limit is Ok && rank(limit->Ok_0.max_action)
                >= rank(req.scopes[i].actions[j])
        }),
{
    lemma_accepted_one_by_one(req.scopes, username, ceilings, i);
    if let Some(Ok(c)) = ceilings[i] {
        lemma_grants_stay_below_ceiling(req.scopes[i], c, j);
    }
}

/// One selection that is refused refuses the whole request.
pub proof fn lemma_one_refusal_refuses_all(
    req: CreatePatRequestView,
    username: Option<Seq<char>>,
    ceilings: Seq<Option<Result<Ceiling, ErrorView>>>,
    i: int,
)
    requires
        0 <= i < req.scopes.len(),
        accepted_scope(req.scopes[i], username, ceilings[i]) is Err,
    ensures
        granted_scopes(req, username, ceilings) is Err,
{
    if accepted_scopes(req.scopes, username, ceilings) is Ok {
        lemma_accepted_one_by_one(req.scopes, username, ceilings, i);
    }
}

// ── New tokens ───────────────────────────────────────────────────────────

/// How many random bytes a token has.
pub const TOKEN_BYTES: usize = 16;

/// How many characters of a token are shown in lists.
pub const PREFIX_CHARS: usize = 12;

/// How many seconds a day has.
pub const DAY_SECS: u64 = 86400;

/// The secret text of a token.
pub open spec fn raw_token(bytes: Seq<u8>) -> Seq<char> {
    "layerhouse-"@ + hex_text(bytes)
}

/// When a token expires.
pub open spec fn expiry(days: Option<u32>, now: u64) -> Option<u64> {
    match days {
        Some(d) => Some((now + d * DAY_SECS) as u64),
        None => None,
    }
}

/// What is stored of a token: its hash and its beginning, not its secret.
pub open spec fn stored_token(
    identity: AuthIdentityView,
    name: Seq<char>,
    scopes: Seq<Seq<char>>,
    days: Option<u32>,
    now: u64,
    id: Seq<char>,
    bytes: Seq<u8>,
) -> PersonalAccessTokenView {
    PersonalAccessTokenView {
        id,
        subject: identity.subject,
        username: identity.username,
        name,
        token_hash: hex_text(sha256_bytes(encode_utf8(raw_token(bytes)))),
        token_prefix: raw_token(bytes).take(PREFIX_CHARS as int),
        scopes,
        created_at: now,
        last_used_at: None,
        expires_at: expiry(days, now),
    }
}

/// A token from random bytes: what is stored of it, and its secret.
fn token_of(
    identity: &AuthIdentity,
    name: &str,
    scopes: &Vec<String>,
    days: Option<u32>,
    now: u64,
    id: String,
    bytes: &Vec<u8>,
) -> (r: (PersonalAccessToken, String))
    requires
        bytes@.len() == TOKEN_BYTES,
        days matches Some(d) ==> now + d * DAY_SECS <= u64::MAX,
    ensures
        r.0@ == stored_token(
            identity@,
            name@,
            scopes.deep_view(),
            days,
            now,
            id@,
            bytes@,
        ),
        r.1@ == raw_token(bytes@),
{
    let raw = concat2("layerhouse-", &hex_encode(bytes.as_slice()));
    let token_hash = hex_encode(sha256_of(raw.as_str().as_bytes()).as_slice());
    let chars = chars_of(&raw);
    proof {
        reveal_strlit("layerhouse-");
    }
    let token_prefix = text_of(&chars, 0, PREFIX_CHARS);
    assert(chars@.subrange(0, PREFIX_CHARS as int) =~= raw@.take(PREFIX_CHARS as int));
    let expires_at: Option<u64> = match days {
        Some(d) => {
            assert(d * DAY_SECS <= u64::MAX);
            Some(now + (d as u64) * DAY_SECS)
        },
        None => None,
    };
    let token = PersonalAccessToken {
        id,
        subject: identity.subject.clone(),
        username: clone_option(&identity.username),
        name: name.to_string(),
        token_hash,
        token_prefix,
        scopes: clone_list(scopes),
        created_at: now,
        last_used_at: None,
        expires_at,
    };
    (token, raw)
}

/// How a new token is answered.
pub fn created_token(token: &PersonalAccessToken, raw: String) -> (r: CreatePatResponse)
    ensures
        r@ == (CreatePatResponseView {
            id: token@.id,
            name: token@.name,
            token: raw@,
            scopes: token@.scopes,
            created_at: token@.created_at,
            expires_at: token@.expires_at,
        }),
{
    CreatePatResponse {
        id: token.id.clone(),
        name: token.name.clone(),
        token: raw,
        scopes: clone_list(&token.scopes),
        created_at: token.created_at,
        expires_at: token.expires_at,
    }
}

/// The answer that shows a new token, with its secret.
pub open spec fn shown_token(token: PersonalAccessTokenView, bytes: Seq<u8>) -> CreatePatResponseView {
    CreatePatResponseView {
        id: token.id,
        name: token.name,
        token: raw_token(bytes),
        scopes: token.scopes,
        created_at: token.created_at,
        expires_at: token.expires_at,
    }
}

/// The token that is asked for, made from an id and random bytes: what is stored
/// of it, and how it is answered. Where the request has no name or one of its
/// selections is refused, there is no token.
pub fn mint_token(
    identity: &AuthIdentity,
    req: &CreatePatRequest,
    ceilings: Vec<Option<Result<Ceiling, LayerhouseError>>>,
    now: u64,
    id: String,
    bytes: &Vec<u8>,
) -> (r: Result<(PersonalAccessToken, CreatePatResponse), LayerhouseError>)
    requires
        ceilings@.len() == req.scopes@.len(),
        bytes@.len() == TOKEN_BYTES,
        req.expires_in_days matches Some(d) ==> now + d * DAY_SECS <= u64::MAX,
    ensures
        match granted_scopes(req@, identity@.username, all_looked_up(ceilings@)) {
            Err(error) => r matches Err(e) && e@ == error,
            Ok(scopes) => {
                let token = stored_token(
                    identity@,
                    req@.name,
                    scopes,
                    req@.expires_in_days,
                    now,
                    id@,
                    bytes@,
                );
                r matches Ok(made) && made.0@ == token && made.1@ == shown_token(token, bytes@)
            },
        },
{
    match grant_scopes(req, &identity.username, ceilings) {
        Err(e) => Err(e),
        Ok(scopes) => {
            let (token, raw) = token_of(
                identity,
                &req.name,
                &scopes,
                req.expires_in_days,
                now,
                id,
                bytes,
            );
            let answer = created_token(&token, raw);
            Ok((token, answer))
        },
    }
}

/// The token that is asked for, with a random id and a random secret. Where the
/// request has no name or one of its selections is refused, there is no token.
pub fn create_token(
    identity: &AuthIdentity,
    req: &CreatePatRequest,
    ceilings: Vec<Option<Result<Ceiling, LayerhouseError>>>,
    now: u64,
) -> (r: Result<(PersonalAccessToken, CreatePatResponse), LayerhouseError>)
    requires
        ceilings@.len() == req.scopes@.len(),
        req.expires_in_days matches Some(d) ==> now + d * DAY_SECS <= u64::MAX,
    ensures
        match granted_scopes(req@, identity@.username, all_looked_up(ceilings@)) {
            Err(error) => r matches Err(e) && e@ == error,
            Ok(scopes) => r matches Ok(made) && exists|id: Seq<char>, bytes: Seq<u8>|
                {
                    &&& is_uuid_v4(id)
                    &&& bytes.len() == TOKEN_BYTES
                    &&& made.0@ == #[trigger] stored_token(
                        identity@,
                        req@.name,
                        scopes,
                        req@.expires_in_days,
                        now,
                        id,
                        bytes,
                    )
                    &&& made.1@ == shown_token(made.0@, bytes)
                },
        },
{
    let bytes = random_bytes(TOKEN_BYTES);
    let id = uuid_v4_text();
    mint_token(identity, req, ceilings, now, id, &bytes)
}

// ── What can be granted ──────────────────────────────────────────────────

/// Whether a search is for a repository: its name begins with the text searched
/// for, letters compared in lowercase.
pub open spec fn searched(q: Option<Seq<char>>, name: Seq<char>) -> bool {
    match q {
        Some(text) => lowercase(text).len() == 0 || lowercase(text).is_prefix_of(lowercase(name)),
        None => true,
    }
}

/// Whether a search is for a repository.
pub fn is_searched(q: &Option<String>, name: &str) -> (r: bool)
    ensures
        r == searched(q.deep_view(), name@),
{
    match q {
        Some(text) => {
            let prefix = to_lowercase(text);
            prefix.as_str().unicode_len() == 0 || starts_with(&to_lowercase(name), &prefix)
        },
        None => true,
    }
}

/// The repositories searched for on which the caller may grant something.
pub open spec fn grantable(candidates: Seq<CandidateView>, q: Option<Seq<char>>) -> Seq<
    GrantableScopeView,
>
    decreases candidates.len(),
{
    if candidates.len() == 0 {
        Seq::empty()
    } else {
        let before = grantable(candidates.drop_last(), q);
        let last = candidates.last();
        match last.access {
            Some((action, source)) if searched(q, last.repository) => before.push(
                GrantableScopeView {
                    repository: last.repository,
                    max_grantable: action,
                    grant_source: source,
                },
            ),
            _ => before,
        }
    }
}

/// The repositories searched for on which the caller may grant something.
fn grantable_list(candidates: &Vec<Candidate>, q: &Option<String>) -> (r: Vec<GrantableScope>)
    ensures
        r.deep_view() == grantable(candidates.deep_view(), q.deep_view()),
{
    let ghost all = candidates.deep_view();
    let mut r: Vec<GrantableScope> = Vec::new();
    let mut i: usize = 0;
    assert(r.deep_view() =~= grantable(all.take(0), q.deep_view()));
    while i < candidates.len()
        invariant
            all == candidates.deep_view(),
            i <= candidates@.len(),
            r.deep_view() == grantable(all.take(i as int), q.deep_view()),
        decreases candidates@.len() - i,
    {
        let c = &candidates[i];
        let ghost before = r.deep_view();
        proof {
            assert(all.take(i + 1).drop_last() =~= all.take(i as int));
            assert(all.take(i + 1).last() == c@);
        }
        if let Some((action, source)) = c.access {
            if is_searched(q, &c.repository) {
                let scope = GrantableScope {
                    repository: c.repository.clone(),
                    max_grantable: action,
                    grant_source: source,
                };
                let ghost shown = scope@;
                r.push(scope);
                assert(r.deep_view() =~= before.push(shown));
            }
        }
        i = i + 1;
    }
    assert(all.take(all.len() as int) =~= all);
    r
}

/// Patterns with what can be granted on each: the widest of what is listed.
pub open spec fn merged_patterns(patterns: Seq<(Seq<char>, RepositoryAction)>) -> Map<
    Seq<char>,
    RepositoryAction,
>
    decreases patterns.len(),
{
    if patterns.len() == 0 {
        Map::empty()
    } else {
        let before = merged_patterns(patterns.drop_last());
        let (pattern, action) = patterns.last();
        if before.dom().contains(pattern) && rank(action) <= rank(before[pattern]) {
            before
        } else {
            before.insert(pattern, action)
        }
    }
}

/// Patterns with what can be granted on each.
fn merge_patterns(patterns: &Vec<(String, RepositoryAction)>) -> (r: StringMap<RepositoryAction>)
    ensures
        r@ == merged_patterns(patterns.deep_view()),
{
    let ghost all = patterns.deep_view();
    let mut merged: StringMap<RepositoryAction> = StringMap::new();
    let mut i: usize = 0;
    while i < patterns.len()
        invariant
            all == patterns.deep_view(),
            i <= patterns@.len(),
            merged@ == merged_patterns(all.take(i as int)),
        decreases patterns@.len() - i,
    {
        let pattern = &patterns[i].0;
        let action = patterns[i].1;
        proof {
            assert(all.take(i + 1).drop_last() =~= all.take(i as int));
            assert(all.take(i + 1).last() == (pattern@, action));
        }
        let known: Option<RepositoryAction> = match merged.get(pattern) {
            Some(a) => Some(*a),
            None => None,
        };
        let wider = match known {
            Some(a) => action_rank(action) > action_rank(a),
            None => true,
        };
        if wider {
            let _ = merged.insert(pattern.clone(), action);
        }
        i = i + 1;
    }
    assert(all.take(all.len() as int) =~= all);
    merged
}

/// A limit on a pattern includes every action that is listed for it.
pub proof fn lemma_merged_is_widest(patterns: Seq<(Seq<char>, RepositoryAction)>, i: int)
    requires
        0 <= i < patterns.len(),
    ensures
        merged_patterns(patterns).dom().contains(patterns[i].0),
        rank(merged_patterns(patterns)[patterns[i].0]) >= rank(patterns[i].1),
    decreases patterns.len(),
{
    if i < patterns.len() - 1 {
        assert(patterns.drop_last()[i] == patterns[i]);
        lemma_merged_is_widest(patterns.drop_last(), i);
    }
}

/// The namespace that a pattern is for.
pub open spec fn pattern_namespace(pattern: Seq<char>) -> Seq<char> {
    let repo = if "repository:"@.is_prefix_of(pattern) {
        pattern.skip("repository:"@.len() as int)
    } else {
        pattern
    };
    if "/*"@.is_suffix_of(repo) {
        repo.take(repo.len() - "/*"@.len())
    } else {
        repo
    }
}

/// Whether a repository is a namespace or lies in it.
pub open spec fn lies_in(namespace: Seq<char>, repository: Seq<char>) -> bool {
    repository == namespace || (namespace + "/"@).is_prefix_of(repository)
}

/// How many repositories lie in a namespace.
pub open spec fn match_count(scopes: Seq<GrantableScopeView>, namespace: Seq<char>) -> nat {
    scopes.filter(|s: GrantableScopeView| lies_in(namespace, s.repository)).len()
}

/// A pattern, with how many repositories it is for.
pub open spec fn pattern_scope(
    scopes: Seq<GrantableScopeView>,
    pattern: Seq<char>,
    action: RepositoryAction,
) -> NamespacePatternScopeView {
    NamespacePatternScopeView {
        pattern,
        current_match_count: match_count(scopes, pattern_namespace(pattern)) as u64,
        max_grantable: action,
        grant_source: GrantSource::GroupGrant,
    }
}

/// Patterns in ascending order, with how many repositories each is for.
pub open spec fn pattern_scopes(
    scopes: Seq<GrantableScopeView>,
    patterns: Map<Seq<char>, RepositoryAction>,
) -> Seq<NamespacePatternScopeView> {
    sorted_keys(patterns.dom()).map_values(
        |k: Seq<char>| pattern_scope(scopes, k, patterns[k]),
    )
}

/// The namespace that a pattern is for.
fn namespace_of(pattern: &str) -> (r: String)
    ensures
        r@ == pattern_namespace(pattern@),
{
    let repo = match strip_prefix(pattern, "repository:") {
        Some(rest) => rest,
        None => pattern.to_string(),
    };
    match strip_suffix(&repo, "/*") {
        Some(prefix) => prefix,
        None => repo,
    }
}

/// How many repositories lie in a namespace.
fn count_matches(scopes: &Vec<GrantableScope>, namespace: &str) -> (r: u64)
    ensures
        r == match_count(scopes.deep_view(), namespace@),
{
    let ghost all = scopes.deep_view();
    let ghost inside = |s: GrantableScopeView| lies_in(namespace@, s.repository);
    let below = concat2(namespace, "/");
    let mut count: u64 = 0;
    let mut i: usize = 0;
    proof {
        reveal(Seq::filter);
        assert(all.take(0).filter(inside).len() == 0);
    }
    while i < scopes.len()
        invariant
            all == scopes.deep_view(),
            inside == (|s: GrantableScopeView| lies_in(namespace@, s.repository)),
            below@ == namespace@ + "/"@,
            i <= scopes@.len(),
            count <= i,
            count == all.take(i as int).filter(inside).len(),
        decreases scopes@.len() - i,
    {
        proof {
            reveal(Seq::filter);
            assert(all.take(i + 1).drop_last() =~= all.take(i as int));
            assert(all.take(i + 1).last() == scopes@[i as int]@);
        }
        let name = &scopes[i].repository;
        if str_equal(name, namespace) || starts_with(name, &below) {
            count = count + 1;
        }
        i = i + 1;
    }
    assert(all.take(all.len() as int) =~= all);
    count
}

/// Patterns in ascending order, with how many repositories each is for.
fn list_patterns(scopes: &Vec<GrantableScope>, patterns: &StringMap<RepositoryAction>) -> (r: Vec<
    NamespacePatternScope,
>)
    ensures
        r.deep_view() == pattern_scopes(scopes.deep_view(), patterns@),
{
    let n: usize = patterns.len();
    let ghost keys = sorted_keys(patterns@.dom());
    let ghost all = scopes.deep_view();
    let mut r: Vec<NamespacePatternScope> = Vec::new();
    let mut i: usize = 0;
    while i < n
        invariant
            n == keys.len(),
            keys == sorted_keys(patterns@.dom()),
            all == scopes.deep_view(),
            i <= n,
            r@.len() == i,
            forall|j: int|
                0 <= j < i ==> (#[trigger] r@[j])@ == pattern_scope(
                    all,
                    keys[j],
                    patterns@[keys[j]],
                ),
        decreases n - i,
    {
        let pattern = patterns.key_at(i);
        let action = *patterns.value_at(i);
        r.push(
            NamespacePatternScope {
                pattern: pattern.clone(),
                current_match_count: count_matches(scopes, &namespace_of(pattern)),
                max_grantable: action,
                grant_source: GrantSource::GroupGrant,
            },
        );
        i = i + 1;
    }
    assert(r.deep_view() =~= pattern_scopes(all, patterns@));
    r
}

/// The names of some repositories.
pub open spec fn scope_names(scopes: Seq<GrantableScopeView>) -> Seq<Seq<char>> {
    scopes.map_values(|s: GrantableScopeView| s.repository)
}

/// What can be granted: a page of the repositories searched for, and all
/// patterns.
pub open spec fn grantable_answer(
    query: GrantableScopeQueryView,
    candidates: Seq<CandidateView>,
    patterns: Seq<(Seq<char>, RepositoryAction)>,
) -> GrantableScopeListResponseView {
    let scopes = grantable(candidates, query.q);
    let (page, has_more) = page_of(
        scopes,
        scope_names(scopes),
        page_len(query.n) as int,
        query.cursor,
    );
    GrantableScopeListResponseView {
        scopes: page,
        namespace_patterns: pattern_scopes(scopes, merged_patterns(patterns)),
        total_matches: scopes.len() as u64,
        next_cursor: if has_more && page.len() > 0 {
            Some(page.last().repository)
        } else {
            None
        },
    }
}

/// What can be granted: a page of the repositories searched for, and all
/// patterns. The page behind this one begins behind the cursor.
pub fn grantable_scopes(
    query: &GrantableScopeQuery,
    candidates: &Vec<Candidate>,
    patterns: &Vec<(String, RepositoryAction)>,
) -> (r: GrantableScopeListResponse)
    ensures
        r@ == grantable_answer(query@, candidates.deep_view(), patterns.deep_view()),
{
    let scopes = grantable_list(candidates, &query.q);
    let ghost all = scopes.deep_view();
    let total: usize = scopes.len();
    let namespace_patterns = list_patterns(&scopes, &merge_patterns(patterns));
    let mut names: Vec<String> = Vec::new();
    let mut i: usize = 0;
    while i < scopes.len()
        invariant
            all == scopes.deep_view(),
            i <= scopes@.len(),
            names@.len() == i,
            forall|j: int| 0 <= j < i ==> (#[trigger] names@[j])@ == all[j].repository,
        decreases scopes@.len() - i,
    {
        assert(all[i as int] == scopes@[i as int]@);
        names.push(scopes[i].repository.clone());
        i = i + 1;
    }
    assert(names.deep_view() =~= scope_names(all));
    let n: usize = page_size(query.n);
    let cursor: Option<&str> = match &query.cursor {
        Some(c) => Some(c.as_str()),
        None => None,
    };
    let (page, has_more) = paginate(scopes, &names, n, cursor);
    let next_cursor = if has_more && page.len() > 0 {
        let k: usize = page.len() - 1;
        assert(page.deep_view().last() == page@[k as int]@);
        Some(page[k].repository.clone())
    } else {
        None
    };
    GrantableScopeListResponse {
        scopes: page,
        namespace_patterns,
        total_matches: total as u64,
        next_cursor,
    }
}

} // verus!
