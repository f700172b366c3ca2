//! Which requests need an identity, which credentials they carry, and how those
//! that are refused are answered.
use super::permissions::OciAction;
use super::token::{AuthIdentity, AuthIdentityView};
use crate::clones::clone_option;
use crate::error::{ErrorView, LayerhouseError};
use crate::text::{
    concat3, concat5, join, joined, lemma_join_split, lemma_position_is, lemma_split_concat,
    lemma_split_nonempty, lemma_split_single, part_of, position, split, split_first, split_on,
    split_once, starts_with, str_equal, strip_prefix, trim, trimmed,
};
use vstd::prelude::*;

verus! {

/// The name of the cookie that holds a session.
pub const SESSION_COOKIE: &'static str = "orb_chrysa_session";

/// Where a login starts.
pub const LOGIN_PATH: &'static str = "/oauth2/start";

// ── Paths ────────────────────────────────────────────────────────────────

/// Whether a path can be requested without an identity.
pub open spec fn public_path(path: Seq<char>) -> bool {
    ||| path == "/healthz"@
    ||| path == "/readyz"@
    ||| path == "/metrics"@
    ||| path == "/v2/"@
    ||| path == "/v2/token"@
    ||| path == "/favicon.svg"@
    ||| "/assets/"@.is_prefix_of(path)
    ||| "/brand/"@.is_prefix_of(path)
    ||| "/oauth2/"@.is_prefix_of(path)
}

/// Whether a path can be requested without an identity.
pub fn is_public_path(path: &str) -> (r: bool)
    ensures
        r == public_path(path@),
{
    str_equal(path, "/healthz") || str_equal(path, "/readyz") || str_equal(path, "/metrics")
        || str_equal(path, "/v2/") || str_equal(path, "/v2/token") || str_equal(
        path,
        "/favicon.svg",
    ) || starts_with(path, "/assets/") || starts_with(path, "/brand/") || starts_with(
        path,
        "/oauth2/",
    )
}

/// Whether a path belongs to the dashboard rather than to an interface for
/// programs.
pub open spec fn dashboard_path(path: Seq<char>) -> bool {
    !"/api/"@.is_prefix_of(path) && !"/v2/"@.is_prefix_of(path) && !"/raft/"@.is_prefix_of(path)
}

/// Whether a path belongs to the dashboard.
pub fn is_dashboard_request_path(path: &str) -> (r: bool)
    ensures
        r == dashboard_path(path@),
{
    !starts_with(path, "/api/") && !starts_with(path, "/v2/") && !starts_with(path, "/raft/")
}

/// Whether a part of a path ends the name of the repository.
pub open spec fn is_verb(part: Seq<char>) -> bool {
    part == "blobs"@ || part == "manifests"@ || part == "tags"@ || part == "referrers"@ || part
        == "uploads"@
}

/// The first position whose part ends the name of the repository, or the end.
pub open spec fn verb_position(parts: Seq<Seq<char>>, from: int) -> int
    decreases parts.len() - from,
{
    if from < parts.len() && !is_verb(parts[from]) {
        verb_position(parts, from + 1)
    } else {
        from
    }
}

/// The repository that a registry path is about, or nothing.
pub open spec fn path_repository(path: Seq<char>) -> Seq<char> {
    if "/v2/"@.is_prefix_of(path) {
        let parts = split_on(path.skip("/v2/"@.len() as int), '/');
        let p = verb_position(parts, 0);
        if 0 < p < parts.len() {
            joined(parts.take(p), "/"@)
        } else {
            Seq::empty()
        }
    } else {
        Seq::empty()
    }
}

/// The repository that a registry path is about, or nothing.
pub fn extract_repository_from_path(path: &str) -> (r: String)
    ensures
        r@ == path_repository(path@),
{
    let rest = match strip_prefix(path, "/v2/") {
        Some(rest) => rest,
        None => return String::new(),
    };
    let parts = split(&rest, '/');
    let ghost all = parts.deep_view();
    let mut i: usize = 0;
    while i < parts.len()
        invariant
            "/v2/"@.is_prefix_of(path@),
            rest@ == path@.skip("/v2/"@.len() as int),
            all == parts.deep_view(),
            all == split_on(rest@, '/'),
            i <= parts@.len(),
            verb_position(all, 0) == verb_position(all, i as int),
        decreases parts@.len() - i,
    {
        assert(all[i as int] == parts@[i as int]@);
        let part: &str = parts[i].as_str();
        if str_equal(part, "blobs") || str_equal(part, "manifests") || str_equal(part, "tags")
            || str_equal(part, "referrers") || str_equal(part, "uploads") {
            if i == 0 {
                return String::new();
            }
            assert(all.subrange(0, i as int) =~= all.take(i as int));
            return join(&part_of(&parts, 0, i), "/");
        }
        i = i + 1;
    }
    String::new()
}

/// What a request for a path must be allowed to do.
pub enum DemandView {
    /// Nothing beyond having an identity.
    Nothing,
    /// An action on a repository.
    Repository(Seq<char>, OciAction),
    /// The administration of the registry.
    Administration,
}

/// What a request for a path must be allowed to do.
#[derive(Debug, PartialEq, Eq)]
pub enum Demand {
    /// Nothing beyond having an identity.
    Nothing,
    /// An action on a repository.
    Repository(String, OciAction),
    /// The administration of the registry.
    Administration,
}

impl View for Demand {
    type V = DemandView;

    open spec fn view(&self) -> DemandView {
        match self {
            Demand::Nothing => DemandView::Nothing,
            Demand::Repository(name, action) => DemandView::Repository(name@, *action),
            Demand::Administration => DemandView::Administration,
        }
    }
}

/// What a request for a path must be allowed to do.
pub open spec fn demand_of(path: Seq<char>, method: Seq<char>) -> DemandView {
    if "/v2/"@.is_prefix_of(path) {
        DemandView::Repository(path_repository(path), OciAction::of_method(method))
    } else if "/api/v1/admin/"@.is_prefix_of(path) {
        DemandView::Administration
    } else {
        DemandView::Nothing
    }
}

/// What a request for a path must be allowed to do.
pub fn request_demand(path: &str, method: &str) -> (r: Demand)
    ensures
        r@ == demand_of(path@, method@),
{
    if starts_with(path, "/v2/") {
        Demand::Repository(extract_repository_from_path(path), OciAction::from_method(method))
    } else if starts_with(path, "/api/v1/admin/") {
        Demand::Administration
    } else {
        Demand::Nothing
    }
}

// ── Credentials ──────────────────────────────────────────────────────────

/// The credential that a request carries.
#[derive(Debug, PartialEq, Eq)]
pub enum RequestCredential {
    Bearer(String),
    SessionCookie(String),
}

/// What a `RequestCredential` holds.
pub enum CredentialView {
    Bearer(Seq<char>),
    SessionCookie(Seq<char>),
}

impl View for RequestCredential {
    type V = CredentialView;

    open spec fn view(&self) -> CredentialView {
        match self {
            RequestCredential::Bearer(token) => CredentialView::Bearer(token@),
            RequestCredential::SessionCookie(value) => CredentialView::SessionCookie(value@),
        }
    }
}

impl DeepView for RequestCredential {
    type V = CredentialView;

    open spec fn deep_view(&self) -> CredentialView {
        self@
    }
}

// ── Cookies ──────────────────────────────────────────────────────────────

/// The value of a `Set-Cookie` header: the name of a cookie, its value and its
/// attributes.
pub open spec fn set_cookie(name: Seq<char>, value: Seq<char>, attributes: Seq<char>) -> Seq<char> {
    name + "="@ + value + "; "@ + attributes
}

/// The value of a `Set-Cookie` header.
pub(crate) fn set_cookie_text(name: &str, value: &str, attributes: &str) -> (r: String)
    ensures
        r@ == set_cookie(name@, value@, attributes@),
{
    concat5(name, "=", value, "; ", attributes)
}

/// The cookie that ends a session.
pub open spec fn cleared_session() -> Seq<char> {
    set_cookie(
        SESSION_COOKIE@,
        Seq::empty(),
        "HttpOnly; Secure; SameSite=Lax; Path=/; Max-Age=0"@,
    )
}

/// The cookie that ends a session.
pub fn clear_session_cookie() -> (r: String)
    ensures
        r@ == cleared_session(),
{
    proof {
        reveal_strlit("");
        assert(""@ =~= Seq::empty());
    }
    set_cookie_text(SESSION_COOKIE, "", "HttpOnly; Secure; SameSite=Lax; Path=/; Max-Age=0")
}

/// The name of the cookie that a `Set-Cookie` header is about.
pub open spec fn set_cookie_name(header: Seq<char>) -> Seq<char> {
    header.take(position(header, '='))
}

/// A `Set-Cookie` header is about the cookie that it was made for.
pub proof fn lemma_set_cookie_name(name: Seq<char>, value: Seq<char>, attributes: Seq<char>)
    requires
        !name.contains('='),
    ensures
        set_cookie_name(set_cookie(name, value, attributes)) == name,
{
    reveal_strlit("=");
    let header = set_cookie(name, value, attributes);
    let n = name.len() as int;
    assert(header[n] == '=');
    assert forall|i: int| 0 <= i < n implies #[trigger] header[i] != '=' by {
        assert(header[i] == name[i]);
        assert(name.contains(name[i]));
    }
    lemma_position_is(header, '=', n);
    assert(header.take(n) =~= name);
}

/// The value of a part `name=value` of a cookie header.
pub open spec fn cookie_part(part: Seq<char>, name: Seq<char>) -> Option<Seq<char>> {
    match split_first(trimmed(part), '=') {
        Some((key, value)) if key == name => Some(value),
        _ => None,
    }
}

/// The value of the first cookie of a name, from a position of the parts on.
pub open spec fn cookie_from(parts: Seq<Seq<char>>, name: Seq<char>, from: int) -> Option<Seq<char>>
    decreases parts.len() - from,
{
    if from >= parts.len() {
        None
    } else if cookie_part(parts[from], name) is Some {
        cookie_part(parts[from], name)
    } else {
        cookie_from(parts, name, from + 1)
    }
}

/// The value of the first cookie of a name.
pub open spec fn cookie(header: Seq<char>, name: Seq<char>) -> Option<Seq<char>> {
    cookie_from(split_on(header, ';'), name, 0)
}

/// The value of the first cookie of a name.
pub fn extract_cookie(header: &str, name: &str) -> (r: Option<String>)
    ensures
        r.deep_view() == cookie(header@, name@),
{
    let parts = split(header, ';');
    let ghost all = parts.deep_view();
    let mut i: usize = 0;
    while i < parts.len()
        invariant
            all == parts.deep_view(),
            all == split_on(header@, ';'),
            i <= parts@.len(),
            cookie(header@, name@) == cookie_from(all, name@, i as int),
        decreases parts@.len() - i,
    {
        assert(all[i as int] == parts@[i as int]@);
        match split_once(&trim(&parts[i]), '=') {
            Some((key, value)) => {
                if str_equal(&key, name) {
                    return Some(value);
                }
            },
            None => {},
        }
        i = i + 1;
    }
    None
}

/// An optional text.
pub open spec fn text_or_none(s: Option<&str>) -> Option<Seq<char>> {
    match s {
        Some(text) => Some(text@),
        None => None,
    }
}

/// The token of a `Bearer` authorization.
pub open spec fn bearer_token(authorization: Option<Seq<char>>) -> Option<Seq<char>> {
    match authorization {
        Some(text) if "Bearer "@.is_prefix_of(text) => Some(text.skip("Bearer "@.len() as int)),
        _ => None,
    }
}

/// The token of a `Bearer` authorization.
pub fn extract_bearer_token(authorization: Option<&str>) -> (r: Option<String>)
    ensures
        r.deep_view() == bearer_token(text_or_none(authorization)),
{
    match authorization {
        Some(text) => strip_prefix(text, "Bearer "),
        None => None,
    }
}

/// The credential of a request: a bearer token, or else a session.
pub open spec fn credential(
    authorization: Option<Seq<char>>,
    cookies: Option<Seq<char>>,
) -> Option<CredentialView> {
    match bearer_token(authorization) {
        Some(token) => Some(CredentialView::Bearer(token)),
        None => match cookies {
            Some(header) => match cookie(header, SESSION_COOKIE@) {
                Some(value) => Some(CredentialView::SessionCookie(value)),
                None => None,
            },
            None => None,
        },
    }
}

/// The credential of a request: a bearer token, or else a session.
pub fn extract_credential(authorization: Option<&str>, cookies: Option<&str>) -> (r: Option<
    RequestCredential,
>)
    ensures
        r.deep_view() == credential(text_or_none(authorization), text_or_none(cookies)),
{
    match extract_bearer_token(authorization) {
        Some(token) => return Some(RequestCredential::Bearer(token)),
        None => {},
    }
    match cookies {
        Some(header) => match extract_cookie(header, SESSION_COOKIE) {
            Some(value) => Some(RequestCredential::SessionCookie(value)),
            None => None,
        },
        None => None,
    }
}

// ── Sessions ─────────────────────────────────────────────────────────────

/// A session of the dashboard.
#[derive(Debug, PartialEq, Eq)]
pub struct DashboardSession {
    pub subject: String,
    pub username: Option<String>,
    pub display_name: Option<String>,
    pub email: Option<String>,
    pub access_token: String,
    pub refresh_token: String,
    pub id_token: String,
    pub expires_at: u64,
}

/// What a `DashboardSession` holds.
#[verifier::ext_equal]
pub struct DashboardSessionView {
    pub subject: Seq<char>,
    pub username: Option<Seq<char>>,
    pub display_name: Option<Seq<char>>,
    pub email: Option<Seq<char>>,
    pub access_token: Seq<char>,
    pub refresh_token: Seq<char>,
    pub id_token: Seq<char>,
    pub expires_at: u64,
}

impl View for DashboardSession {
    type V = DashboardSessionView;

    open spec fn view(&self) -> DashboardSessionView {
        DashboardSessionView {
            subject: self.subject@,
            username: self.username.deep_view(),
            display_name: self.display_name.deep_view(),
            email: self.email.deep_view(),
            access_token: self.access_token@,
            refresh_token: self.refresh_token@,
            id_token: self.id_token@,
            expires_at: self.expires_at,
        }
    }
}

/// An error that asks for authentication.
pub open spec fn unauthorized(message: Seq<char>) -> ErrorView {
    ErrorView::Unauthorized { message, realm: None, service: None, scope: None }
}

/// An error that asks for authentication.
pub(crate) fn unauthorized_error(message: &str) -> (r: LayerhouseError)
    ensures
        r@ == unauthorized(message@),
{
    LayerhouseError::Unauthorized {
        message: message.to_string(),
        realm: None,
        service: None,
        scope: None,
    }
}

/// The session of a cookie, where it could be read and has not expired.
pub fn live_session(session: Option<DashboardSession>, now: u64) -> (r: Result<
    DashboardSession,
    LayerhouseError,
>)
    ensures
        match session {
            None => r matches Err(e) && e@ == unauthorized("invalid session"@),
            Some(s) => if now >= s.expires_at {
                r matches Err(e) && e@ == unauthorized("session expired"@)
            } else {
                r == Ok::<_, LayerhouseError>(s)
            },
        },
{
    match session {
        None => Err(unauthorized_error("invalid session")),
        Some(s) => if now >= s.expires_at {
            Err(unauthorized_error("session expired"))
        } else {
            Ok(s)
        },
    }
}

/// Who a session belongs to: the identity of its token, which must be of the
/// same subject, with the profile that the session holds.
pub fn session_identity(session: &DashboardSession, identity: AuthIdentity) -> (r: Result<
    AuthIdentity,
    LayerhouseError,
>)
    ensures
        match r {
            Ok(i) => identity@.subject == session@.subject && i@ == (AuthIdentityView {
                username: session@.username,
                display_name: session@.display_name,
                email: session@.email,
                ..identity@
            }),
            Err(e) => identity@.subject != session@.subject && e@ == unauthorized(
                "session subject mismatch"@,
            ),
        },
{
    if !str_equal(&identity.subject, &session.subject) {
        return Err(unauthorized_error("session subject mismatch"));
    }
    Ok(
        AuthIdentity {
            subject: identity.subject,
            username: clone_option(&session.username),
            display_name: clone_option(&session.display_name),
            email: clone_option(&session.email),
            groups: identity.groups,
            scopes: identity.scopes,
            token_type: identity.token_type,
        },
    )
}

// ── Refusals ─────────────────────────────────────────────────────────────

/// How a refused request is answered.
#[derive(Debug, PartialEq, Eq)]
pub enum RefusalKind {
    /// By sending the browser elsewhere for now.
    Redirect(String),
    /// By an error.
    Error(LayerhouseError),
}

/// How a refused request is answered, and the cookie that goes with it.
#[derive(Debug, PartialEq, Eq)]
pub struct Refusal {
    pub kind: RefusalKind,
    pub set_cookie: Option<String>,
}

/// What a `Refusal` says.
pub enum RefusalView {
    Redirect { location: Seq<char>, set_cookie: Option<Seq<char>> },
    Error { error: ErrorView, set_cookie: Option<Seq<char>> },
}

impl View for Refusal {
    type V = RefusalView;

    open spec fn view(&self) -> RefusalView {
        match self.kind {
            RefusalKind::Redirect(location) => RefusalView::Redirect {
                location: location@,
                set_cookie: self.set_cookie.deep_view(),
            },
            RefusalKind::Error(e) => RefusalView::Error {
                error: e@,
                set_cookie: self.set_cookie.deep_view(),
            },
        }
    }
}

/// The service that a registry path names to clients: its first part.
pub open spec fn path_service(path: Seq<char>) -> Seq<char> {
    if "/v2/"@.is_prefix_of(path) {
        split_on(path.skip("/v2/"@.len() as int), '/')[0]
    } else {
        "registry"@
    }
}

/// How a request without credentials is answered.
pub open spec fn login_demand(path: Seq<char>, realm: Seq<char>) -> RefusalView {
    if dashboard_path(path) {
        RefusalView::Redirect { location: LOGIN_PATH@, set_cookie: None }
    } else {
        RefusalView::Error {
            error: ErrorView::Unauthorized {
                message: "authentication required"@,
                realm: Some(realm),
                service: Some(path_service(path)),
                scope: Some("repository:"@ + path_repository(path) + ":*"@),
            },
            set_cookie: None,
        }
    }
}

/// How a request without credentials is answered: the dashboard sends the
/// browser to the login, everything else names where a token is to be had.
pub fn auth_required_response(path: &str, realm: &str) -> (r: Refusal)
    ensures
        r@ == login_demand(path@, realm@),
{
    if is_dashboard_request_path(path) {
        return Refusal { kind: RefusalKind::Redirect(LOGIN_PATH.to_string()), set_cookie: None };
    }
    let repository = extract_repository_from_path(path);
    let service = match strip_prefix(path, "/v2/") {
        Some(rest) => {
            let parts = split(&rest, '/');
            assert(parts.deep_view()[0] == parts@[0]@);
            parts[0].clone()
        },
        None => "registry".to_string(),
    };
    Refusal {
        kind: RefusalKind::Error(
            LayerhouseError::Unauthorized {
                message: "authentication required".to_string(),
                realm: Some(realm.to_string()),
                service: Some(service),
                scope: Some(concat3("repository:", &repository, ":*")),
            },
        ),
        set_cookie: None,
    }
}

/// How a request with a useless session is answered.
pub open spec fn session_refusal(path: Seq<char>, error: ErrorView) -> RefusalView {
    if dashboard_path(path) {
        RefusalView::Redirect {
            location: LOGIN_PATH@,
            set_cookie: Some(cleared_session()),
        }
    } else {
        RefusalView::Error { error, set_cookie: Some(cleared_session()) }
    }
}

/// How a request with a useless session is answered: as one without, and the
/// session ends.
pub fn session_cookie_auth_error_response(path: &str, error: LayerhouseError) -> (r: Refusal)
    ensures
        r@ == session_refusal(path@, error@),
{
    let kind = if is_dashboard_request_path(path) {
        RefusalKind::Redirect(LOGIN_PATH.to_string())
    } else {
        RefusalKind::Error(error)
    };
    Refusal { kind, set_cookie: Some(clear_session_cookie()) }
}

/// Who a request is let in as, from what came of its credential. Without an
/// identity it is refused.
pub fn let_in(
    path: &str,
    realm: &str,
    uses_session_cookie: bool,
    outcome: Result<Option<AuthIdentity>, LayerhouseError>,
) -> (r: Result<AuthIdentity, Refusal>)
    ensures
        match outcome {
            Ok(Some(identity)) => r == Ok::<AuthIdentity, Refusal>(identity),
            Ok(None) => r matches Err(refusal) && refusal@ == login_demand(path@, realm@),
            Err(e) => r matches Err(refusal) && refusal@ == if uses_session_cookie {
                session_refusal(path@, e@)
            } else {
                RefusalView::Error { error: e@, set_cookie: None }
            },
        },
{
    match outcome {
        Ok(Some(identity)) => Ok(identity),
        Ok(None) => Err(auth_required_response(path, realm)),
        Err(e) => if uses_session_cookie {
            Err(session_cookie_auth_error_response(path, e))
        } else {
            Err(Refusal { kind: RefusalKind::Error(e), set_cookie: None })
        },
    }
}

// ── Laws ─────────────────────────────────────────────────────────────────

/// The interfaces for programs are never answered with a redirection.
pub proof fn lemma_programs_are_not_redirected(path: Seq<char>, realm: Seq<char>, error: ErrorView)
    requires
        "/v2/"@.is_prefix_of(path) || "/api/"@.is_prefix_of(path) || "/raft/"@.is_prefix_of(path),
    ensures
        login_demand(path, realm) is Error,
        session_refusal(path, error) is Error,
{
}

/// A bearer token takes precedence over a session.
pub proof fn lemma_bearer_comes_first(
    authorization: Option<Seq<char>>,
    cookies: Option<Seq<char>>,
)
    requires
        bearer_token(authorization) is Some,
    ensures
        credential(authorization, cookies) == Some(
            CredentialView::Bearer(bearer_token(authorization)->0),
        ),
{
}

/// A path below a repository names that repository, however many parts its
/// name has, as long as none of them is reserved.
pub proof fn lemma_path_names_repository(name: Seq<char>, verb: Seq<char>, rest: Seq<char>)
    requires
        is_verb(verb),
        forall|i: int|
            0 <= i < split_on(name, '/').len() ==> !is_verb(#[trigger] split_on(name, '/')[i]),
    ensures
        path_repository("/v2/"@ + name + "/"@ + verb + "/"@ + rest) == name,
{
    reveal_strlit("/v2/");
    reveal_strlit("/");
    reveal_strlit("blobs");
    reveal_strlit("manifests");
    reveal_strlit("tags");
    reveal_strlit("referrers");
    reveal_strlit("uploads");
    let path = "/v2/"@ + name + "/"@ + verb + "/"@ + rest;
    let tail = verb + seq!['/'] + rest;
    assert("/"@ =~= seq!['/']);
    assert(path.skip(4) =~= name + seq!['/'] + tail);
    assert(path.take(4) =~= "/v2/"@);
    assert("/v2/"@.is_prefix_of(path));
    lemma_split_concat(name, tail, '/');
    lemma_split_concat(verb, rest, '/');
    assert(!verb.contains('/')) by {
        if verb.contains('/') {
            let i = choose|i: int| 0 <= i < verb.len() && verb[i] == '/';
            assert(verb[i] == '/');
        }
    }
    lemma_split_single(verb, '/');
    let parts = split_on(path.skip(4), '/');
    let names = split_on(name, '/');
    let n = names.len() as int;
    assert(parts =~= names + (seq![verb] + split_on(rest, '/')));
    assert(parts[n] == verb);
    assert forall|i: int| 0 <= i < n implies !is_verb(#[trigger] parts[i]) by {
        assert(parts[i] == names[i]);
    }
    lemma_verb_at(parts, 0, n);
    lemma_split_nonempty(name, '/');
    assert(parts.take(n) =~= names);
    lemma_join_split(name, '/');
}

/// The first reserved part is found.
proof fn lemma_verb_at(parts: Seq<Seq<char>>, from: int, n: int)
    requires
        0 <= from <= n < parts.len(),
        is_verb(parts[n]),
        forall|i: int| from <= i < n ==> !is_verb(#[trigger] parts[i]),
    ensures
        verb_position(parts, from) == n,
    decreases n - from,
{
    if from < n {
        lemma_verb_at(parts, from + 1, n);
    }
}

} // verus!
