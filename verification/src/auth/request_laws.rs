//! Who a request comes from, what it needs and how it is refused, told by what it carries.
use super::middleware::{
    auth_required_response, clear_session_cookie, cookie_from, cookie_part, extract_bearer_token,
    extract_cookie, extract_credential, extract_repository_from_path, is_dashboard_request_path,
    is_public_path, is_verb, lemma_path_names_repository, let_in, live_session, request_demand,
    session_cookie_auth_error_response, session_identity, DashboardSession, Demand, Refusal,
    RefusalKind, RequestCredential,
};
use super::permissions::OciAction;
use super::token::{AuthIdentity, TokenClaims};
use crate::error::LayerhouseError;
use crate::text::{
    lemma_position, lemma_position_is, lemma_split_concat, lemma_split_single, position, split_on,
    trimmed,
};
use vstd::prelude::*;

verus! {

// ── Paths ────────────────────────────────────────────────────────────────

/// Without an identity one can ask how the registry is, where to log in and for what the
/// login page is made of; nothing else.
pub proof fn lemma_public_paths(path: &str, r: bool)
    requires
        call_ensures(is_public_path, (path,), r),
    ensures
        r <==> path@ == "/healthz"@ || path@ == "/readyz"@ || path@ == "/metrics"@ || path@
            == "/v2/"@ || path@ == "/v2/token"@ || path@ == "/favicon.svg"@ || (exists|
            rest: Seq<char>,
        | path@ == #[trigger] ("/assets/"@ + rest)) || (exists|rest: Seq<char>|
            path@ == #[trigger] ("/brand/"@ + rest)) || (exists|rest: Seq<char>|
            path@ == #[trigger] ("/oauth2/"@ + rest)),
{
    lemma_starts("/assets/"@, path@);
    lemma_starts("/brand/"@, path@);
    lemma_starts("/oauth2/"@, path@);
}

/// A text starts with another exactly where something follows that one.
proof fn lemma_starts(prefix: Seq<char>, s: Seq<char>)
    ensures
        prefix.is_prefix_of(s) <==> exists|rest: Seq<char>| s == #[trigger] (prefix + rest),
{
    if prefix.is_prefix_of(s) {
        assert(s =~= prefix + s.skip(prefix.len() as int));
    }
    if exists|rest: Seq<char>| s == #[trigger] (prefix + rest) {
        let rest = choose|rest: Seq<char>| s == #[trigger] (prefix + rest);
        assert(s.take(prefix.len() as int) =~= prefix);
    }
}

/// The interfaces for programs are not part of the dashboard, and all else is.
pub proof fn lemma_paths_of_the_dashboard(path: &str, r: bool)
    requires
        call_ensures(is_dashboard_request_path, (path,), r),
    ensures
        !r <==> (exists|rest: Seq<char>| path@ == #[trigger] ("/api/"@ + rest)) || (exists|
            rest: Seq<char>,
        | path@ == #[trigger] ("/v2/"@ + rest)) || (exists|rest: Seq<char>|
            path@ == #[trigger] ("/raft/"@ + rest)),
{
    lemma_starts("/api/"@, path@);
    lemma_starts("/v2/"@, path@);
    lemma_starts("/raft/"@, path@);
}

/// Whether a text is a part of a path that no repository name may have.
pub open spec fn is_reserved(part: Seq<char>) -> bool {
    part == "blobs"@ || part == "manifests"@ || part == "tags"@ || part == "referrers"@ || part
        == "uploads"@
}

/// A request under a repository must be allowed on that repository what its method does; a
/// request to the administration must be allowed that; any other request nothing.
pub proof fn lemma_what_a_request_needs(
    path: &str,
    method: &str,
    name: Seq<char>,
    verb: Seq<char>,
    rest: Seq<char>,
    repository: String,
    action: OciAction,
    r: Demand,
)
    requires
        call_ensures(request_demand, (path, method), r),
        call_ensures(extract_repository_from_path, (path,), repository),
        call_ensures(OciAction::from_method, (method,), action),
        is_reserved(verb),
        forall|i: int|
            0 <= i < split_on(name, '/').len() ==> !is_reserved(
                #[trigger] split_on(name, '/')[i],
            ),
    ensures
        path@ == "/v2/"@ + name + "/"@ + verb + "/"@ + rest ==> {
            &&& repository@ == name
            &&& r matches Demand::Repository(n, a) && n@ == name && a == action
        },
        r is Repository <==> exists|tail: Seq<char>| path@ == #[trigger] ("/v2/"@ + tail),
        r is Administration <==> exists|tail: Seq<char>|
            path@ == #[trigger] ("/api/v1/admin/"@ + tail),
{
    lemma_starts("/v2/"@, path@);
    lemma_starts("/api/v1/admin/"@, path@);
    assert forall|i: int| 0 <= i < split_on(name, '/').len() implies !is_verb(
        #[trigger] split_on(name, '/')[i],
    ) by {
        assert(!is_reserved(split_on(name, '/')[i]));
    }
    if path@ == "/v2/"@ + name + "/"@ + verb + "/"@ + rest {
        lemma_path_names_repository(name, verb, rest);
        let tail = name + "/"@ + verb + "/"@ + rest;
        assert(path@ =~= "/v2/"@ + tail);
    }
    reveal_strlit("/v2/");
    reveal_strlit("/api/v1/admin/");
    if "/v2/"@.is_prefix_of(path@) && "/api/v1/admin/"@.is_prefix_of(path@) {
        assert(path@[1] == "/v2/"@[1]);
        assert(path@[1] == "/api/v1/admin/"@[1]);
    }
}

// ── Credentials ──────────────────────────────────────────────────────────

proof fn lemma_cookie_from(parts: Seq<Seq<char>>, name: Seq<char>, from: int, p: int)
    requires
        0 <= from <= p < parts.len(),
        cookie_part(parts[p], name) is Some,
        forall|i: int| from <= i < p ==> cookie_part(#[trigger] parts[i], name) is None,
    ensures
        cookie_from(parts, name, from) == cookie_part(parts[p], name),
    decreases p - from,
{
    if from < p {
        assert(cookie_part(parts[from], name) is None);
        lemma_cookie_from(parts, name, from + 1, p);
    }
}

/// The value of a cookie is what follows its name and an equals sign, in the first part of
/// the header that starts so; white space around a part does not matter.
pub proof fn lemma_value_of_a_cookie(
    header: &str,
    name: &str,
    value: Seq<char>,
    p: int,
    r: Option<String>,
)
    requires
        call_ensures(extract_cookie, (header, name), r),
        !name@.contains('='),
        0 <= p < split_on(header@, ';').len(),
        trimmed(split_on(header@, ';')[p]) == name@ + seq!['='] + value,
        forall|i: int|
            0 <= i < p ==> !(name@ + seq!['=']).is_prefix_of(
                trimmed(#[trigger] split_on(header@, ';')[i]),
            ),
    ensures
        r matches Some(v) && v@ == value,
{
    let parts = split_on(header@, ';');
    let n = name@.len() as int;
    let t = trimmed(parts[p]);
    assert forall|i: int| 0 <= i < n implies #[trigger] t[i] != '=' by {
        assert(t[i] == name@[i]);
        assert(name@.contains(name@[i]));
    }
    lemma_position_is(t, '=', n);
    assert(t.take(n) =~= name@);
    assert(t.skip(n + 1) =~= value);
    assert forall|i: int| 0 <= i < p implies cookie_part(#[trigger] parts[i], name@) is None by {
        let u = trimmed(parts[i]);
        lemma_position(u, '=');
        let q = position(u, '=');
        if q < u.len() && u.take(q) == name@ {
            assert(u.take(q + 1) =~= name@ + seq!['=']);
        }
    }
    lemma_cookie_from(parts, name@, 0, p);
    assert(r.deep_view() == Some(value));
}

/// A bearer token is what follows the word; without it there is none.
pub proof fn lemma_bearer_tokens(authorization: Option<&str>, token: Seq<char>, r: Option<String>)
    requires
        call_ensures(extract_bearer_token, (authorization,), r),
    ensures
        (authorization matches Some(t) && t@ == "Bearer "@ + token) ==> (r matches Some(v) && v@
            == token),
        authorization is None ==> r is None,
        r matches Some(v) ==> (authorization matches Some(t) && t@ == "Bearer "@ + v@),
{
    let word = "Bearer "@;
    assert(r.deep_view() is Some <==> r is Some);
    if let Some(t) = authorization {
        if t@ == word + token {
            assert(t@.take(word.len() as int) =~= word);
            assert(t@.skip(word.len() as int) =~= token);
        }
        if word.is_prefix_of(t@) {
            assert(t@ =~= word + t@.skip(word.len() as int));
        }
    }
}

/// A request is known by its bearer token, where it has one, and else by the cookie of its
/// session.
pub proof fn lemma_what_a_request_is_known_by(
    authorization: Option<&str>,
    cookies: Option<&str>,
    header: &str,
    r: Option<RequestCredential>,
    token: Option<String>,
    session: Option<String>,
)
    requires
        call_ensures(extract_credential, (authorization, cookies), r),
        call_ensures(extract_bearer_token, (authorization,), token),
        cookies matches Some(h) ==> h == header,
        call_ensures(extract_cookie, (header, "orb_chrysa_session"), session),
    ensures
        token matches Some(t) ==> (r matches Some(RequestCredential::Bearer(v)) && v@ == t@),
        token is None && cookies is Some ==> (session matches Some(s) ==> (
        r matches Some(RequestCredential::SessionCookie(v)) && v@ == s@)),
        token is None && (cookies is None || session is None) ==> r is None,
{
    assert(r.deep_view() is Some <==> r is Some);
    assert(token.deep_view() is Some <==> token is Some);
    assert(session.deep_view() is Some <==> session is Some);
}

// ── Sessions ─────────────────────────────────────────────────────────────

/// A session is live until the time at which it expires, and not from then on.
pub proof fn lemma_live_sessions(
    session: Option<DashboardSession>,
    now: u64,
    r: Result<DashboardSession, LayerhouseError>,
)
    requires
        call_ensures(live_session, (session, now), r),
    ensures
        r is Ok <==> (session matches Some(s) && now < s.expires_at),
        r matches Ok(s) ==> session == Some(s),
        session is None ==> (r matches Err(LayerhouseError::Unauthorized { message, .. })
            && message@ == "invalid session"@),
        session is Some && r is Err ==> (
        r matches Err(LayerhouseError::Unauthorized { message, .. }) && message@
            == "session expired"@),
{
}

/// A session is used only by the subject that it belongs to; its profile is shown, and the
/// rights are those of the identity.
pub proof fn lemma_who_a_session_belongs_to(
    session: &DashboardSession,
    identity: AuthIdentity,
    r: Result<AuthIdentity, LayerhouseError>,
)
    requires
        call_ensures(session_identity, (session, identity), r),
    ensures
        r is Ok <==> identity.subject@ == session.subject@,
        r matches Ok(i) ==> {
            &&& i.subject@ == identity.subject@
            &&& i.groups.deep_view() == identity.groups.deep_view()
            &&& i.scopes.deep_view() == identity.scopes.deep_view()
            &&& i.token_type == identity.token_type
            &&& i.username.deep_view() == session.username.deep_view()
            &&& i.display_name.deep_view() == session.display_name.deep_view()
            &&& i.email.deep_view() == session.email.deep_view()
        },
        r matches Err(e) ==> (e matches LayerhouseError::Unauthorized { message, .. } && message@
            == "session subject mismatch"@),
{
}

/// A claim is shown without white space around it, and not at all where nothing is left.
pub proof fn lemma_shown_claims(
    claims: &TokenClaims,
    value: &Option<String>,
    r: Option<String>,
    shown: Option<String>,
    user: Option<String>,
    mail: Option<String>,
)
    requires
        call_ensures(TokenClaims::trimmed, (value,), r),
        call_ensures(TokenClaims::display_name, (claims,), shown),
        call_ensures(TokenClaims::username, (claims,), user),
        call_ensures(TokenClaims::email, (claims,), mail),
    ensures
        r is Some <==> (value matches Some(t) && trimmed(t@).len() > 0),
        r matches Some(t) ==> t@ == trimmed(value->0@),
        shown is Some <==> (claims.name matches Some(t) && trimmed(t@).len() > 0),
        shown matches Some(t) ==> t@ == trimmed(claims.name->0@),
        user is Some <==> (claims.preferred_username matches Some(t) && trimmed(t@).len() > 0),
        user matches Some(t) ==> t@ == trimmed(claims.preferred_username->0@),
        mail is Some <==> (claims.email matches Some(t) && trimmed(t@).len() > 0),
        mail matches Some(t) ==> t@ == trimmed(claims.email->0@),
{
    assert(r.deep_view() is Some <==> r is Some);
    assert(shown.deep_view() is Some <==> shown is Some);
    assert(user.deep_view() is Some <==> user is Some);
    assert(mail.deep_view() is Some <==> mail is Some);
    assert(value.deep_view() is Some <==> value is Some);
    assert(claims@.name is Some <==> claims.name is Some);
    assert(claims@.preferred_username is Some <==> claims.preferred_username is Some);
    assert(claims@.email is Some <==> claims.email is Some);
}

// ── Refusals ─────────────────────────────────────────────────────────────

/// Without credentials the dashboard sends the browser to the login; a program is told what
/// is missing and where a token is to be had.
pub proof fn lemma_refusal_without_credentials(
    path: &str,
    realm: &str,
    repository: String,
    dashboard: bool,
    r: Refusal,
)
    requires
        call_ensures(auth_required_response, (path, realm), r),
        call_ensures(is_dashboard_request_path, (path,), dashboard),
        call_ensures(extract_repository_from_path, (path,), repository),
    ensures
        r.set_cookie is None,
        dashboard ==> (r.kind matches RefusalKind::Redirect(l) && l@ == "/oauth2/start"@),
        !dashboard ==> (r.kind matches RefusalKind::Error(e) && (
        e matches LayerhouseError::Unauthorized { message, realm: m, scope, .. } && message@
            == "authentication required"@ && m.deep_view() == Some(realm@) && scope.deep_view()
            == Some("repository:"@ + repository@ + ":*"@))),
{
    assert(r.set_cookie.deep_view() is None <==> r.set_cookie is None);
}

/// A session that is of no use is ended: the browser is sent to the login, or a program is
/// told the error, and the cookie is taken back.
pub proof fn lemma_refusal_of_a_session(
    path: &str,
    error: LayerhouseError,
    dashboard: bool,
    cleared: String,
    r: Refusal,
)
    requires
        call_ensures(session_cookie_auth_error_response, (path, error), r),
        call_ensures(is_dashboard_request_path, (path,), dashboard),
        call_ensures(clear_session_cookie, (), cleared),
    ensures
        r.set_cookie matches Some(c) && c@ == cleared@,
        cleared@ == "orb_chrysa_session=; HttpOnly; Secure; SameSite=Lax; Path=/; Max-Age=0"@,
        dashboard ==> (r.kind matches RefusalKind::Redirect(l) && l@ == "/oauth2/start"@),
        !dashboard ==> (r.kind matches RefusalKind::Error(e) && e@ == error@),
{
    assert(r.set_cookie.deep_view() is Some <==> r.set_cookie is Some);
    reveal_strlit("orb_chrysa_session=; HttpOnly; Secure; SameSite=Lax; Path=/; Max-Age=0");
    reveal_strlit("orb_chrysa_session");
    reveal_strlit("=");
    reveal_strlit("; ");
    reveal_strlit("HttpOnly; Secure; SameSite=Lax; Path=/; Max-Age=0");
    assert("orb_chrysa_session=; HttpOnly; Secure; SameSite=Lax; Path=/; Max-Age=0"@
        =~= "orb_chrysa_session"@ + "="@ + Seq::<char>::empty() + "; "@
        + "HttpOnly; Secure; SameSite=Lax; Path=/; Max-Age=0"@);
}

/// A request is let in exactly where its credential gave an identity, and as that one. Else
/// it is refused: as one without credentials, as one with a useless session, or with the
/// error.
pub proof fn lemma_who_is_let_in(
    path: &str,
    realm: &str,
    uses_session_cookie: bool,
    outcome: Result<Option<AuthIdentity>, LayerhouseError>,
    error: LayerhouseError,
    r: Result<AuthIdentity, Refusal>,
    without: Refusal,
    useless: Refusal,
)
    requires
        call_ensures(let_in, (path, realm, uses_session_cookie, outcome), r),
        call_ensures(auth_required_response, (path, realm), without),
        outcome matches Err(e) ==> e == error,
        call_ensures(session_cookie_auth_error_response, (path, error), useless),
    ensures
        r is Ok <==> outcome matches Ok(Some(_)),
        r matches Ok(i) ==> outcome == Ok::<_, LayerhouseError>(Some(i)),
        outcome matches Ok(None) ==> (r matches Err(refusal) && refusal@ == without@),
        outcome is Err && uses_session_cookie ==> (r matches Err(refusal) && refusal@ == useless@),
        outcome is Err && !uses_session_cookie ==> (r matches Err(refusal) && (
        refusal.kind matches RefusalKind::Error(e) && e@ == error@) && refusal.set_cookie is None),
{
    if let Err(refusal) = r {
        assert(refusal.set_cookie.deep_view() is None <==> refusal.set_cookie is None);
    }
}

/// A registry path names its first part as the service to log in to; any other path names
/// the registry.
pub proof fn lemma_service_of_a_refusal(
    path: &str,
    realm: &str,
    first: Seq<char>,
    rest: Seq<char>,
    dashboard: bool,
    r: Refusal,
)
    requires
        call_ensures(auth_required_response, (path, realm), r),
        call_ensures(is_dashboard_request_path, (path,), dashboard),
        !dashboard,
        !first.contains('/'),
    ensures
        path@ == "/v2/"@ + first + seq!['/'] + rest || path@ == "/v2/"@ + first ==> (
        r.kind matches RefusalKind::Error(e) && (e matches LayerhouseError::Unauthorized {
            service,
            ..
        } && service.deep_view() == Some(first))),
        !"/v2/"@.is_prefix_of(path@) ==> (r.kind matches RefusalKind::Error(e) && (
        e matches LayerhouseError::Unauthorized { service, .. } && service.deep_view() == Some(
            "registry"@,
        ))),
{
    let n = "/v2/"@.len() as int;
    if path@ == "/v2/"@ + first + seq!['/'] + rest {
        assert(path@.take(n) =~= "/v2/"@);
        assert(path@.skip(n) =~= first + seq!['/'] + rest);
        lemma_split_concat(first, rest, '/');
        lemma_split_single(first, '/');
    }
    if path@ == "/v2/"@ + first {
        assert(path@.take(n) =~= "/v2/"@);
        assert(path@.skip(n) =~= first);
        lemma_split_single(first, '/');
    }
}

} // verus!
