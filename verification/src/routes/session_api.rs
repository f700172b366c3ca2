//! Who is logged in, and how to log out.
use super::reply::{Reply, ReplyView};
use crate::auth::middleware::{
    cookie, extract_cookie, lemma_set_cookie_name, set_cookie, set_cookie_name, set_cookie_text,
    unauthorized, unauthorized_error,
};
use crate::auth::token::{AuthIdentity, AuthIdentityView, TokenType};
use crate::error::{ErrorView, LayerhouseError};
use crate::text::{concat2, concat4};
use vstd::prelude::*;

verus! {

/// Who is logged in.
#[derive(Debug, PartialEq, Eq)]
pub struct SessionResponse {
    pub auth_enabled: bool,
    pub subject: Option<String>,
    pub username: Option<String>,
    pub display_name: Option<String>,
    pub email: Option<String>,
    pub groups: Vec<String>,
    pub scopes: Vec<String>,
    pub token_type: Option<String>,
    pub is_admin: bool,
}

/// What a `SessionResponse` holds.
#[verifier::ext_equal]
pub struct SessionResponseView {
    pub auth_enabled: bool,
    pub subject: Option<Seq<char>>,
    pub username: Option<Seq<char>>,
    pub display_name: Option<Seq<char>>,
    pub email: Option<Seq<char>>,
    pub groups: Seq<Seq<char>>,
    pub scopes: Seq<Seq<char>>,
    pub token_type: Option<Seq<char>>,
    pub is_admin: bool,
}

impl View for SessionResponse {
    type V = SessionResponseView;

    open spec fn view(&self) -> SessionResponseView {
        SessionResponseView {
            auth_enabled: self.auth_enabled,
            subject: self.subject.deep_view(),
            username: self.username.deep_view(),
            display_name: self.display_name.deep_view(),
            email: self.email.deep_view(),
            groups: self.groups.deep_view(),
            scopes: self.scopes.deep_view(),
            token_type: self.token_type.deep_view(),
            is_admin: self.is_admin,
        }
    }
}

/// The name of a kind of token.
pub open spec fn token_type_text(token_type: TokenType) -> Seq<char> {
    match token_type {
        TokenType::KanidmAccess => "oidc_access"@,
        TokenType::PersonalAccess => "personal_access"@,
        TokenType::OciBearer => "oci_bearer"@,
        TokenType::Session => "session"@,
    }
}

/// The name of a kind of token.
pub fn token_type_name(token_type: TokenType) -> (r: &'static str)
    ensures
        r@ == token_type_text(token_type),
{
    match token_type {
        TokenType::KanidmAccess => "oidc_access",
        TokenType::PersonalAccess => "personal_access",
        TokenType::OciBearer => "oci_bearer",
        TokenType::Session => "session",
    }
}

/// Who is logged in. Where nobody has to log in, everybody administrates the
/// registry and nobody is named.
pub open spec fn session_of(
    auth_enabled: bool,
    identity: Option<AuthIdentityView>,
    is_admin: bool,
) -> Result<SessionResponseView, ErrorView> {
    if !auth_enabled {
        Ok(
            SessionResponseView {
                auth_enabled: false,
                subject: None,
                username: None,
                display_name: None,
                email: None,
                groups: Seq::empty(),
                scopes: Seq::empty(),
                token_type: None,
                is_admin: true,
            },
        )
    } else {
        match identity {
            None => Err(unauthorized("authentication required"@)),
            Some(i) => Ok(
                SessionResponseView {
                    auth_enabled: true,
                    subject: Some(i.subject),
                    username: i.username,
                    display_name: i.display_name,
                    email: i.email,
                    groups: i.groups,
                    scopes: i.scopes,
                    token_type: Some(token_type_text(i.token_type)),
                    is_admin,
                },
            ),
        }
    }
}

/// Who is logged in.
pub fn get_session(auth_enabled: bool, identity: Option<AuthIdentity>, is_admin: bool) -> (r:
    Result<SessionResponse, LayerhouseError>)
    ensures
        match r {
            Ok(s) => session_of(auth_enabled, identity.deep_view(), is_admin) == Ok::<
                _,
                ErrorView,
            >(s@),
            Err(e) => session_of(auth_enabled, identity.deep_view(), is_admin) == Err::<
                SessionResponseView,
                _,
            >(e@),
        },
{
    if !auth_enabled {
        let r = SessionResponse {
            auth_enabled: false,
            subject: None,
            username: None,
            display_name: None,
            email: None,
            groups: Vec::new(),
            scopes: Vec::new(),
            token_type: None,
            is_admin: true,
        };
        assert(r@.groups =~= Seq::empty());
        assert(r@.scopes =~= Seq::empty());
        return Ok(r);
    }
    match identity {
        None => Err(unauthorized_error("authentication required")),
        Some(i) => Ok(
            SessionResponse {
                auth_enabled: true,
                subject: Some(i.subject),
                username: i.username,
                display_name: i.display_name,
                email: i.email,
                groups: i.groups,
                scopes: i.scopes,
                token_type: Some(token_type_name(i.token_type).to_string()),
                is_admin,
            },
        ),
    }
}

/// The name of the session cookie that a logout ends.
pub const LOGOUT_SESSION_COOKIE: &'static str = "layerhouse_session";

/// The name of the cookie that a logout needs.
pub const LOGOUT_HINT_COOKIE: &'static str = "layerhouse_logout_hint";

/// The name of the cookie that tells of a logout.
pub const LOGGED_OUT_COOKIE: &'static str = "layerhouse_logged_out";

/// The value of the first cookie of a name.
pub fn extract_cookie_value(header: &str, name: &str) -> (r: Option<String>)
    ensures
        r.deep_view() == cookie(header@, name@),
{
    extract_cookie(header, name)
}

/// Where a logout sends the browser, if the identity provider is to be told.
pub open spec fn end_session_location(
    endpoint: Option<Seq<char>>,
    logout_hint: Option<Seq<char>>,
) -> Option<Seq<char>> {
    match (endpoint, logout_hint) {
        (Some(url), Some(id_token)) => Some(
            url + "?id_token_hint="@ + id_token + "&post_logout_redirect_uri=/"@,
        ),
        _ => None,
    }
}

/// How a logout is answered.
pub open spec fn logout_of(
    endpoint: Option<Seq<char>>,
    logout_hint: Option<Seq<char>>,
    attributes: Seq<char>,
) -> ReplyView {
    let target = end_session_location(endpoint, logout_hint);
    let cleared = ReplyView::bare(307).with(
        "location"@,
        match target {
            Some(url) => url,
            None => "/"@,
        },
    ).with(
        "set-cookie"@,
        set_cookie(LOGOUT_SESSION_COOKIE@, Seq::empty(), attributes + "; Path=/; Max-Age=0"@),
    ).with(
        "set-cookie"@,
        set_cookie(
            LOGOUT_HINT_COOKIE@,
            Seq::empty(),
            attributes + "; Path=/api/v1/session/logout; Max-Age=0"@,
        ),
    );
    if target is Some {
        cleared
    } else {
        cleared.with(
            "set-cookie"@,
            set_cookie(LOGGED_OUT_COOKIE@, "1"@, attributes + "; Path=/; Max-Age=300"@),
        )
    }
}

/// How a logout is answered: both cookies of the session end, and where the
/// identity provider is not told, a marker keeps the next page from logging in
/// again at once.
pub fn logout_session(
    endpoint: &Option<String>,
    logout_hint: &Option<String>,
    attributes: &str,
) -> (r: Reply)
    ensures
        r@ == logout_of(endpoint.deep_view(), logout_hint.deep_view(), attributes@),
{
    let target = match (endpoint, logout_hint) {
        (Some(url), Some(id_token)) => Some(
            concat4(url, "?id_token_hint=", id_token, "&post_logout_redirect_uri=/"),
        ),
        _ => None,
    };
    let location = match &target {
        Some(url) => url.clone(),
        None => "/".to_string(),
    };
    proof {
        reveal_strlit("");
        assert(""@ =~= Seq::empty());
    }
    let cleared = Reply::bare(307).with("location", &location).with(
        "set-cookie",
        &set_cookie_text(LOGOUT_SESSION_COOKIE, "", &concat2(attributes, "; Path=/; Max-Age=0")),
    ).with(
        "set-cookie",
        &set_cookie_text(
            LOGOUT_HINT_COOKIE,
            "",
            &concat2(attributes, "; Path=/api/v1/session/logout; Max-Age=0"),
        ),
    );
    if target.is_some() {
        cleared
    } else {
        cleared.with(
            "set-cookie",
            &set_cookie_text(LOGGED_OUT_COOKIE, "1", &concat2(attributes, "; Path=/; Max-Age=300")),
        )
    }
}

// ── Laws ─────────────────────────────────────────────────────────────────

/// A logout ends both cookies of the session, whether or not the identity provider is
/// told, and leaves a mark only where it is not told.
pub proof fn lemma_logout_ends_both_cookies(
    endpoint: Option<Seq<char>>,
    logout_hint: Option<Seq<char>>,
    attributes: Seq<char>,
)
    ensures
        ({
            let headers = logout_of(endpoint, logout_hint, attributes).headers;
            &&& headers[1].0 == "set-cookie"@
            &&& set_cookie_name(headers[1].1) == LOGOUT_SESSION_COOKIE@
            &&& headers[2].0 == "set-cookie"@
            &&& set_cookie_name(headers[2].1) == LOGOUT_HINT_COOKIE@
            &&& if end_session_location(endpoint, logout_hint) is Some {
                headers.len() == 3
            } else {
                headers.len() == 4 && set_cookie_name(headers[3].1) == LOGGED_OUT_COOKIE@
            }
        }),
{
    reveal_strlit("layerhouse_session");
    reveal_strlit("layerhouse_logout_hint");
    reveal_strlit("layerhouse_logged_out");
    lemma_set_cookie_name(
        LOGOUT_SESSION_COOKIE@,
        Seq::empty(),
        attributes + "; Path=/; Max-Age=0"@,
    );
    lemma_set_cookie_name(
        LOGOUT_HINT_COOKIE@,
        Seq::empty(),
        attributes + "; Path=/api/v1/session/logout; Max-Age=0"@,
    );
    lemma_set_cookie_name(LOGGED_OUT_COOKIE@, "1"@, attributes + "; Path=/; Max-Age=300"@);
}

} // verus!
