//! The login of the dashboard: the OAuth 2.0 authorization code flow with PKCE.
use super::middleware::{
    cleared_session, cookie, extract_cookie, lemma_set_cookie_name, set_cookie, set_cookie_name,
    set_cookie_text, text_or_none, unauthorized, unauthorized_error, DashboardSession, DashboardSessionView,
    SESSION_COOKIE,
};
use super::token::{nonblank, TokenClaims, TokenClaimsView};
use crate::error::{ErrorView, LayerhouseError};
use crate::oci::digest::{sha256_bytes, sha256_of};
use crate::oci::json::{json_document, json_error, Json, JsonView};
use crate::routes::reply::{Reply, ReplyView};
use crate::text::{
    concat2, concat3, concat4, concat5, decimal, decimal_text, is_space, join, joined,
    lemma_position_is, lemma_split_single, lemma_trimmed_same, push_char, split_first, split_on,
    split_once, str_equal,
};
use vstd::prelude::*;
use vstd::utf8::encode_utf8;

verus! {

/// The name of the cookie that a login leaves until it is completed.
pub const OAUTH2_COOKIE: &'static str = "layerhouse_oauth2";

/// How many seconds a login may take.
pub const OAUTH2_COOKIE_MAX_AGE_SECS: u64 = 600;

/// What a login asks the identity provider for.
pub const OAUTH2_LOGIN_SCOPE: &'static str = "openid profile email groups";

/// The page of the dashboard that tells of a login whose state does not fit.
pub const STATE_ERROR_PAGE: &'static str = "/?oauth_error=state#/oauth2/error";

/// How many random bytes a state and a code verifier are made of.
pub const SECRET_BYTES: usize = 32;

/// How many seconds a session lasts where the provider does not say.
pub const DEFAULT_SESSION_SECS: u64 = 86400;

/// The parameters of the provider's answer to a login.
#[derive(Debug, PartialEq, Eq)]
pub struct CallbackQuery {
    pub code: Option<String>,
    pub _state: Option<String>,
}

// ── Outside functions ────────────────────────────────────────────────────

/// What the `URL_SAFE_NO_PAD` engine of `base64` encodes some bytes to.
pub uninterp spec fn base64_url(bytes: Seq<u8>) -> Seq<char>;

/// Whether a character is in the alphabet of URL-safe base64.
pub open spec fn is_base64_url_char(c: char) -> bool {
    let u = c as int;
    48 <= u <= 57 || 65 <= u <= 90 || 97 <= u <= 122 || u == 45 || u == 95
}

/// How many characters of base64 without padding stand for `n` bytes: four for
/// three bytes, two or three for what is left.
pub open spec fn base64_len(n: nat) -> nat {
    if n % 3 == 0 {
        n / 3 * 4
    } else {
        n / 3 * 4 + n % 3 + 1
    }
}

/// `base64::Engine::encode` with the `URL_SAFE_NO_PAD` engine, which needs a buffer
/// for the text. Claims the named text, its length, and that it holds characters of
/// the engine's alphabet only.
#[verifier::external_body]
fn encode_base64_url(bytes: &Vec<u8>) -> (r: String)
    requires
        base64_len(bytes@.len()) <= isize::MAX,
    ensures
        r@ == base64_url(bytes@),
        r@.len() == base64_len(bytes@.len()),
        forall|i: int| 0 <= i < r@.len() ==> is_base64_url_char(#[trigger] r@[i]),
{
    base64::Engine::encode(&base64::engine::general_purpose::URL_SAFE_NO_PAD, bytes)
}

/// `rand::Rng::fill_bytes` of `rand::rng`. Claims the number of bytes only.
#[verifier::external_body]
pub(crate) fn random_bytes(len: usize) -> (r: Vec<u8>)
    requires
        len <= isize::MAX,
    ensures
        r@.len() == len,
{
    let mut bytes = vec![0u8; len];
    rand::Rng::fill_bytes(&mut rand::rng(), &mut bytes);
    bytes
}

// ── Encodings ────────────────────────────────────────────────────────────

/// Whether a byte stands for itself in an encoded parameter.
pub open spec fn is_unreserved(b: u8) -> bool {
    65 <= b <= 90 || 97 <= b <= 122 || 48 <= b <= 57 || b == 45 || b == 95 || b == 46 || b == 126
}

/// The uppercase hexadecimal digit of a value below sixteen.
pub open spec fn upper_hex(v: int) -> char {
    if v < 10 {
        (48 + v) as char
    } else {
        (55 + v) as char
    }
}

/// How a byte is written in an encoded parameter.
pub open spec fn encoded_byte(b: u8) -> Seq<char> {
    if is_unreserved(b) {
        seq![b as char]
    } else {
        seq!['%', upper_hex(b as int / 16), upper_hex(b as int % 16)]
    }
}

/// Some bytes as an encoded parameter.
pub open spec fn encoded_bytes(bytes: Seq<u8>) -> Seq<char>
    decreases bytes.len(),
{
    if bytes.len() == 0 {
        Seq::empty()
    } else {
        encoded_bytes(bytes.drop_last()) + encoded_byte(bytes.last())
    }
}

/// A text as an encoded parameter.
pub open spec fn percent_encoded(value: Seq<char>) -> Seq<char> {
    encoded_bytes(encode_utf8(value))
}

/// The uppercase hexadecimal digit of a value below sixteen.
fn upper_hex_digit(v: u8) -> (r: char)
    requires
        v < 16,
    ensures
        r == upper_hex(v as int),
{
    if v < 10 {
        (48 + v) as char
    } else {
        (55 + v) as char
    }
}

/// A text as an encoded parameter: letters, digits and `-_.~` stand for
/// themselves, other bytes are written in hexadecimal.
pub fn percent_encode(value: &str) -> (r: String)
    ensures
        r@ == percent_encoded(value@),
{
    let bytes = value.as_bytes();
    let ghost all = bytes@;
    let mut r = String::new();
    let mut i: usize = 0;
    assert(r@ =~= encoded_bytes(all.take(0)));
    while i < bytes.len()
        invariant
            all == bytes@,
            i <= bytes@.len(),
            r@ == encoded_bytes(all.take(i as int)),
        decreases bytes@.len() - i,
    {
        let ghost before = r@;
        assert(all.take(i + 1).drop_last() =~= all.take(i as int));
        let b: u8 = bytes[i];
        if (b >= 65 && b <= 90) || (b >= 97 && b <= 122) || (b >= 48 && b <= 57) || b == 45 || b
            == 95 || b == 46 || b == 126 {
            push_char(&mut r, b as char);
            assert(r@ =~= before + encoded_byte(b));
        } else {
            push_char(&mut r, '%');
            push_char(&mut r, upper_hex_digit(b / 16));
            push_char(&mut r, upper_hex_digit(b % 16));
            assert(r@ =~= before + encoded_byte(b));
        }
        i = i + 1;
    }
    assert(all.take(all.len() as int) =~= all);
    r
}

/// Some fields as `key=value` texts.
pub open spec fn form_fields(fields: Seq<(Seq<char>, Seq<char>)>) -> Seq<Seq<char>> {
    fields.map_values(
        |f: (Seq<char>, Seq<char>)| percent_encoded(f.0) + "="@ + percent_encoded(f.1),
    )
}

/// Some fields as the body of a form.
pub fn form_encode(fields: &Vec<(String, String)>) -> (r: String)
    ensures
        r@ == joined(form_fields(fields.deep_view()), "&"@),
{
    let mut parts: Vec<String> = Vec::new();
    let mut i: usize = 0;
    while i < fields.len()
        invariant
            i <= fields@.len(),
            parts@.len() == i,
            forall|j: int|
                0 <= j < i ==> (#[trigger] parts@[j])@ == percent_encoded(fields@[j].0@) + "="@
                    + percent_encoded(fields@[j].1@),
        decreases fields@.len() - i,
    {
        parts.push(concat3(&percent_encode(&fields[i].0), "=", &percent_encode(&fields[i].1)));
        i = i + 1;
    }
    assert(parts.deep_view() =~= form_fields(fields.deep_view()));
    join(&parts, "&")
}

// ── Secrets ──────────────────────────────────────────────────────────────

/// Whether a text consists of URL-safe base64 characters.
pub open spec fn is_secret_text(s: Seq<char>) -> bool {
    forall|i: int| 0 <= i < s.len() ==> is_base64_url_char(#[trigger] s[i])
}

/// A random text of URL-safe characters.
pub fn random_urlsafe(len: usize) -> (r: String)
    requires
        base64_len(len as nat) <= isize::MAX,
    ensures
        is_secret_text(r@),
        r@.len() == base64_len(len as nat),
        exists|bytes: Seq<u8>| bytes.len() == len && r@ == #[trigger] base64_url(bytes),
{
    let bytes = random_bytes(len);
    encode_base64_url(&bytes)
}

/// The PKCE challenge of a code verifier: its SHA-256 hash in URL-safe base64.
pub open spec fn challenge(code_verifier: Seq<char>) -> Seq<char> {
    base64_url(sha256_bytes(encode_utf8(code_verifier)))
}

/// The PKCE challenge of a code verifier.
pub fn pkce_challenge(code_verifier: &str) -> (r: String)
    ensures
        r@ == challenge(code_verifier@),
{
    let digest = sha256_of(code_verifier.as_bytes());
    encode_base64_url(&digest)
}

// ── Start ────────────────────────────────────────────────────────────────

/// Where a login sends the browser.
pub open spec fn login_url_of(
    authorization_endpoint: Seq<char>,
    client_id: Seq<char>,
    redirect_uri: Seq<char>,
    state: Seq<char>,
    code_challenge: Seq<char>,
) -> Seq<char> {
    authorization_endpoint + "?response_type=code&client_id="@ + percent_encoded(client_id)
        + "&redirect_uri="@ + percent_encoded(redirect_uri) + "&scope="@ + percent_encoded(
        OAUTH2_LOGIN_SCOPE@,
    ) + "&state="@ + percent_encoded(state) + "&code_challenge="@ + percent_encoded(code_challenge)
        + "&code_challenge_method=S256"@
}

/// Where a login sends the browser.
pub fn login_url(
    authorization_endpoint: &str,
    client_id: &str,
    redirect_uri: &str,
    state: &str,
    code_verifier: &str,
) -> (r: String)
    ensures
        r@ == login_url_of(
            authorization_endpoint@,
            client_id@,
            redirect_uri@,
            state@,
            challenge(code_verifier@),
        ),
{
    let code_challenge = pkce_challenge(code_verifier);
    let client = percent_encode(client_id);
    let redirect = percent_encode(redirect_uri);
    let scope = percent_encode(OAUTH2_LOGIN_SCOPE);
    let a = concat5(
        authorization_endpoint,
        "?response_type=code&client_id=",
        &client,
        "&redirect_uri=",
        &redirect,
    );
    let b = concat5(&a, "&scope=", &scope, "&state=", &percent_encode(state));
    concat4(&b, "&code_challenge=", &percent_encode(&code_challenge), "&code_challenge_method=S256")
}

/// The value of the cookie that a login leaves.
pub open spec fn login_cookie_value(state: Seq<char>, code_verifier: Seq<char>) -> Seq<char> {
    state + "."@ + code_verifier
}

/// The cookie that a login leaves.
pub open spec fn login_cookie_text(state: Seq<char>, code_verifier: Seq<char>) -> Seq<char> {
    set_cookie(
        OAUTH2_COOKIE@,
        login_cookie_value(state, code_verifier),
        "HttpOnly; Secure; SameSite=Lax; Path=/oauth2; Max-Age="@ + decimal_text(
            OAUTH2_COOKIE_MAX_AGE_SECS as nat,
        ),
    )
}

/// The cookie that a login leaves until it is completed.
pub fn login_cookie(state: &str, code_verifier: &str) -> (r: String)
    ensures
        r@ == login_cookie_text(state@, code_verifier@),
{
    set_cookie_text(
        OAUTH2_COOKIE,
        &concat3(state, ".", code_verifier),
        &concat2(
            "HttpOnly; Secure; SameSite=Lax; Path=/oauth2; Max-Age=",
            &decimal(OAUTH2_COOKIE_MAX_AGE_SECS),
        ),
    )
}

/// The cookie that ends a login, with these attributes.
pub open spec fn cleared_login(attributes: Seq<char>) -> Seq<char> {
    set_cookie(OAUTH2_COOKIE@, Seq::empty(), attributes + "; Path=/oauth2; Max-Age=0"@)
}

/// The cookie that ends a login, with these attributes.
fn clear_login_cookie(attributes: &str) -> (r: String)
    ensures
        r@ == cleared_login(attributes@),
{
    proof {
        reveal_strlit("");
        assert(""@ =~= Seq::empty());
    }
    set_cookie_text(OAUTH2_COOKIE, "", &concat2(attributes, "; Path=/oauth2; Max-Age=0"))
}

/// The cookie that ends a login that was completed.
pub fn clear_oauth2_cookie() -> (r: String)
    ensures
        r@ == cleared_login("HttpOnly; Secure; SameSite=Lax"@),
{
    clear_login_cookie("HttpOnly; Secure; SameSite=Lax")
}

// ── Callback ─────────────────────────────────────────────────────────────

/// The code of a provider's answer. Without one the login starts again.
pub fn callback_code(query: &CallbackQuery) -> (r: Option<&String>)
    ensures
        match r {
            Some(code) => query.code.deep_view() == Some(code@) && code@.len() > 0,
            None => query.code matches Some(code) ==> code@.len() == 0,
        },
{
    match &query.code {
        Some(code) => if code.as_str().unicode_len() > 0 {
            Some(code)
        } else {
            None
        },
        None => None,
    }
}

/// The code verifier of a login, from the cookies of the browser and the state
/// that the provider sent back.
pub open spec fn verifier_of(cookies: Option<Seq<char>>, state: Option<Seq<char>>) -> Result<
    Seq<char>,
    ErrorView,
> {
    match cookies {
        None => Err(unauthorized("missing oauth2 state"@)),
        Some(header) => match cookie(header, OAUTH2_COOKIE@) {
            None => Err(unauthorized("missing oauth2 state"@)),
            Some(value) => match split_first(value, '.') {
                None => Err(unauthorized("invalid oauth2 state"@)),
                Some((stored_state, code_verifier)) => if Some(stored_state) == state {
                    Ok(code_verifier)
                } else {
                    Err(unauthorized("oauth2 state mismatch"@))
                },
            },
        },
    }
}

/// The code verifier of a login.
pub fn oauth2_code_verifier(cookies: Option<&str>, state: Option<&str>) -> (r: Result<
    String,
    LayerhouseError,
>)
    ensures
        match r {
            Ok(v) => verifier_of(text_or_none(cookies), text_or_none(state)) == Ok::<_, ErrorView>(
                v@,
            ),
            Err(e) => verifier_of(text_or_none(cookies), text_or_none(state)) == Err::<
                Seq<char>,
                _,
            >(e@),
        },
{
    let header = match cookies {
        Some(header) => header,
        None => return Err(unauthorized_error("missing oauth2 state")),
    };
    let value = match extract_cookie(header, OAUTH2_COOKIE) {
        Some(value) => value,
        None => return Err(unauthorized_error("missing oauth2 state")),
    };
    let (stored_state, code_verifier) = match split_once(&value, '.') {
        Some(parts) => parts,
        None => return Err(unauthorized_error("invalid oauth2 state")),
    };
    let same = match state {
        Some(state) => str_equal(&stored_state, state),
        None => false,
    };
    if !same {
        return Err(unauthorized_error("oauth2 state mismatch"));
    }
    Ok(code_verifier)
}

/// The fields of the request that exchanges a code for tokens.
pub open spec fn exchange_fields(
    code: Seq<char>,
    redirect_uri: Seq<char>,
    client_id: Seq<char>,
    client_secret: Seq<char>,
    code_verifier: Seq<char>,
) -> Seq<(Seq<char>, Seq<char>)> {
    seq![
        ("grant_type"@, "authorization_code"@),
        ("code"@, code),
        ("redirect_uri"@, redirect_uri),
        ("client_id"@, client_id),
        ("client_secret"@, client_secret),
        ("code_verifier"@, code_verifier),
    ]
}

/// The body of the request that exchanges a code for tokens.
pub fn exchange_form(
    code: &str,
    redirect_uri: &str,
    client_id: &str,
    client_secret: &str,
    code_verifier: &str,
) -> (r: String)
    ensures
        r@ == joined(
            form_fields(
                exchange_fields(code@, redirect_uri@, client_id@, client_secret@, code_verifier@),
            ),
            "&"@,
        ),
{
    let mut fields: Vec<(String, String)> = Vec::new();
    fields.push(("grant_type".to_string(), "authorization_code".to_string()));
    fields.push(("code".to_string(), code.to_string()));
    fields.push(("redirect_uri".to_string(), redirect_uri.to_string()));
    fields.push(("client_id".to_string(), client_id.to_string()));
    fields.push(("client_secret".to_string(), client_secret.to_string()));
    fields.push(("code_verifier".to_string(), code_verifier.to_string()));
    assert(fields.deep_view() =~= exchange_fields(
        code@,
        redirect_uri@,
        client_id@,
        client_secret@,
        code_verifier@,
    ));
    form_encode(&fields)
}

/// How many seconds a session lasts.
pub open spec fn session_lifetime(token: JsonView) -> u64 {
    match token.get("expires_in"@) {
        Some(v) => match v.unsigned() {
            Some(secs) => secs,
            None => DEFAULT_SESSION_SECS,
        },
        None => DEFAULT_SESSION_SECS,
    }
}

/// How many seconds a session lasts, as the provider's answer says.
pub fn session_lifetime_secs(token: &Json) -> (r: u64)
    ensures
        r == session_lifetime(token@),
{
    match token.get("expires_in") {
        Some(v) => match v.as_u64() {
            Some(secs) => secs,
            None => DEFAULT_SESSION_SECS,
        },
        None => DEFAULT_SESSION_SECS,
    }
}

/// The id token of the provider's answer, which must come with an access token.
pub fn answer_id_token(token: &Json) -> (r: Result<&String, LayerhouseError>)
    ensures
        match r {
            Ok(id) => token@.text_field("access_token"@) is Some && token@.text_field("id_token"@)
                == Some(id@),
            Err(e) => if token@.text_field("access_token"@) is None {
                e@ == ErrorView::Internal("missing access_token"@)
            } else {
                token@.text_field("id_token"@) is None && e@ == ErrorView::Internal(
                    "missing id_token"@,
                )
            },
        },
{
    match token.text_field("access_token") {
        Some(_) => {},
        None => return Err(LayerhouseError::Internal("missing access_token".to_string())),
    }
    match token.text_field("id_token") {
        Some(id) => Ok(id),
        None => Err(LayerhouseError::Internal("missing id_token".to_string())),
    }
}

/// The session of a completed login.
pub open spec fn session_of(token: JsonView, claims: TokenClaimsView, now: u64) -> Result<
    DashboardSessionView,
    ErrorView,
> {
    match (token.text_field("access_token"@), token.text_field("id_token"@)) {
        (None, _) => Err(ErrorView::Internal("missing access_token"@)),
        (_, None) => Err(ErrorView::Internal("missing id_token"@)),
        (Some(access_token), Some(id_token)) => Ok(
            DashboardSessionView {
                subject: claims.subject,
                username: nonblank(claims.preferred_username),
                display_name: nonblank(claims.name),
                email: nonblank(claims.email),
                access_token,
                refresh_token: match token.text_field("refresh_token"@) {
                    Some(t) => t,
                    None => Seq::empty(),
                },
                id_token,
                expires_at: (now + session_lifetime(token)) as u64,
            },
        ),
    }
}

/// The session of a completed login, from the provider's answer and what the id
/// token in it says.
pub fn session_from_token(token: &Json, claims: &TokenClaims, now: u64) -> (r: Result<
    DashboardSession,
    LayerhouseError,
>)
    requires
        now + session_lifetime(token@) <= u64::MAX,
    ensures
        match r {
            Ok(s) => session_of(token@, claims@, now) == Ok::<_, ErrorView>(s@),
            Err(e) => session_of(token@, claims@, now) == Err::<DashboardSessionView, _>(e@),
        },
{
    let access_token = match token.text_field("access_token") {
        Some(t) => t.clone(),
        None => return Err(LayerhouseError::Internal("missing access_token".to_string())),
    };
    let id_token = match token.text_field("id_token") {
        Some(t) => t.clone(),
        None => return Err(LayerhouseError::Internal("missing id_token".to_string())),
    };
    let refresh_token = match token.text_field("refresh_token") {
        Some(t) => t.clone(),
        None => String::new(),
    };
    let expires_at: u64 = now + session_lifetime_secs(token);
    Ok(
        DashboardSession {
            subject: claims.subject.clone(),
            username: claims.username(),
            display_name: claims.display_name(),
            email: claims.email(),
            access_token,
            refresh_token,
            id_token,
            expires_at,
        },
    )
}

/// What is done with the provider's answer to a login.
#[derive(Debug, PartialEq, Eq)]
pub enum CallbackStep {
    /// The login starts again.
    Restart,
    /// The code is exchanged for tokens by a request with this body.
    Exchange { form: String },
}

/// What is done with the provider's answer to a login: a text is the body of the
/// request that exchanges its code for tokens, and without one the login starts
/// again.
pub open spec fn callback_step_of(
    code: Option<Seq<char>>,
    state: Option<Seq<char>>,
    auth_enabled: bool,
    cookies: Option<Seq<char>>,
    redirect_uri: Seq<char>,
    client_id: Seq<char>,
    client_secret: Seq<char>,
) -> Result<Option<Seq<char>>, ErrorView> {
    if code is None || code->0.len() == 0 {
        Ok(None)
    } else {
        match verifier_of(cookies, state) {
            Err(e) => Err(e),
            Ok(code_verifier) => if !auth_enabled {
                Err(ErrorView::Internal("auth not configured"@))
            } else {
                Ok(
                    Some(
                        joined(
                            form_fields(
                                exchange_fields(
                                    code->0,
                                    redirect_uri,
                                    client_id,
                                    client_secret,
                                    code_verifier,
                                ),
                            ),
                            "&"@,
                        ),
                    ),
                )
            },
        }
    }
}

/// What is done with the provider's answer to a login.
pub fn begin_callback(
    query: &CallbackQuery,
    auth_enabled: bool,
    cookies: Option<&str>,
    redirect_uri: &str,
    client_id: &str,
    client_secret: &str,
) -> (r: Result<CallbackStep, LayerhouseError>)
    ensures
        ({
            let step = callback_step_of(
                query.code.deep_view(),
                query._state.deep_view(),
                auth_enabled,
                text_or_none(cookies),
                redirect_uri@,
                client_id@,
                client_secret@,
            );
            match r {
                Ok(CallbackStep::Restart) => step == Ok::<Option<Seq<char>>, ErrorView>(None),
                Ok(CallbackStep::Exchange { form }) => step == Ok::<_, ErrorView>(Some(form@)),
                Err(e) => step == Err::<Option<Seq<char>>, _>(e@),
            }
        }),
{
    let code = match callback_code(query) {
        Some(code) => code,
        None => return Ok(CallbackStep::Restart),
    };
    let state: Option<&str> = match &query._state {
        Some(s) => Some(s.as_str()),
        None => None,
    };
    assert(text_or_none(state) == query._state.deep_view());
    match oauth2_code_verifier(cookies, state) {
        Err(e) => Err(e),
        Ok(code_verifier) => if auth_enabled {
            Ok(
                CallbackStep::Exchange {
                    form: exchange_form(
                        code,
                        redirect_uri,
                        client_id,
                        client_secret,
                        &code_verifier,
                    ),
                },
            )
        } else {
            Err(LayerhouseError::Internal("auth not configured".to_string()))
        },
    }
}

/// How a callback that failed is answered in the dashboard: where the state of
/// the login does not fit, with the page that says so, and the cookie of the
/// login ends. Every other error is answered as such.
pub fn callback_refused(error: &LayerhouseError, attributes: &str) -> (r: Option<Reply>)
    ensures
        r.deep_view() == if error@ is Unauthorized {
            Some(
                ReplyView::bare(307).with("location"@, STATE_ERROR_PAGE@).with(
                    "set-cookie"@,
                    cleared_login(attributes@),
                ),
            )
        } else {
            None
        },
{
    match error {
        LayerhouseError::Unauthorized { .. } => Some(
            Reply::bare(307).with("location", STATE_ERROR_PAGE).with(
                "set-cookie",
                &clear_login_cookie(attributes),
            ),
        ),
        _ => None,
    }
}

/// The document of the provider's answer to an exchange.
pub fn token_answer(body: &str) -> (r: Result<Json, LayerhouseError>)
    ensures
        match json_document(encode_utf8(body@)) {
            Some(doc) => r matches Ok(token) && token@ == doc,
            None => r matches Err(e) && e@ == ErrorView::Internal(
                "token parse failed: "@ + json_error(encode_utf8(body@)),
            ),
        },
{
    match Json::parse(body.as_bytes()) {
        Ok(token) => Ok(token),
        Err(e) => Err(LayerhouseError::Internal(concat2("token parse failed: ", &e))),
    }
}

/// The session of a completed login, from the provider's answer and what its id
/// token says, where that can be read.
pub fn complete_callback(token: &Json, claims: Option<&TokenClaims>, now: u64) -> (r: Result<
    DashboardSession,
    LayerhouseError,
>)
    requires
        now + session_lifetime(token@) <= u64::MAX,
    ensures
        match (token@.text_field("access_token"@), token@.text_field("id_token"@), claims) {
            (None, _, _) => r matches Err(e) && e@ == ErrorView::Internal("missing access_token"@),
            (_, None, _) => r matches Err(e) && e@ == ErrorView::Internal("missing id_token"@),
            (_, _, None) => r matches Err(e) && e@ == ErrorView::Internal("invalid id_token"@),
            (_, _, Some(c)) => r matches Ok(s) && session_of(token@, c@, now) == Ok::<_, ErrorView>(
                s@,
            ),
        },
{
    if let Err(e) = answer_id_token(token) {
        return Err(e);
    }
    match claims {
        None => Err(LayerhouseError::Internal("invalid id_token".to_string())),
        Some(c) => session_from_token(token, c, now),
    }
}

/// The cookie that holds a session.
pub open spec fn session_cookie_text(cookie_value: Seq<char>, expires_in: u64) -> Seq<char> {
    set_cookie(
        SESSION_COOKIE@,
        cookie_value,
        "HttpOnly; Secure; SameSite=Lax; Path=/; Max-Age="@ + decimal_text(expires_in as nat),
    )
}

/// The cookie that holds a session.
pub fn session_cookie(cookie_value: &str, expires_in: u64) -> (r: String)
    ensures
        r@ == session_cookie_text(cookie_value@, expires_in),
{
    set_cookie_text(
        SESSION_COOKIE,
        cookie_value,
        &concat2("HttpOnly; Secure; SameSite=Lax; Path=/; Max-Age=", &decimal(expires_in)),
    )
}

// ── Laws ─────────────────────────────────────────────────────────────────

/// What ends a login ends the cookie that the login left, whichever attributes it
/// has.
pub proof fn lemma_login_cookie_ends(
    state: Seq<char>,
    code_verifier: Seq<char>,
    attributes: Seq<char>,
)
    ensures
        set_cookie_name(cleared_login(attributes)) == set_cookie_name(
            login_cookie_text(state, code_verifier),
        ),
        set_cookie_name(cleared_login(attributes)) == OAUTH2_COOKIE@,
{
    reveal_strlit("layerhouse_oauth2");
    lemma_set_cookie_name(
        OAUTH2_COOKIE@,
        Seq::empty(),
        attributes + "; Path=/oauth2; Max-Age=0"@,
    );
    lemma_set_cookie_name(
        OAUTH2_COOKIE@,
        login_cookie_value(state, code_verifier),
        "HttpOnly; Secure; SameSite=Lax; Path=/oauth2; Max-Age="@ + decimal_text(
            OAUTH2_COOKIE_MAX_AGE_SECS as nat,
        ),
    );
}

/// What ends a useless session ends the cookie that a completed login sets.
pub proof fn lemma_session_cookie_ends(cookie_value: Seq<char>, expires_in: u64)
    ensures
        set_cookie_name(cleared_session()) == set_cookie_name(
            session_cookie_text(cookie_value, expires_in),
        ),
        set_cookie_name(cleared_session()) == SESSION_COOKIE@,
{
    reveal_strlit("orb_chrysa_session");
    lemma_set_cookie_name(
        SESSION_COOKIE@,
        cookie_value,
        "HttpOnly; Secure; SameSite=Lax; Path=/; Max-Age="@ + decimal_text(expires_in as nat),
    );
    lemma_set_cookie_name(
        SESSION_COOKIE@,
        Seq::empty(),
        "HttpOnly; Secure; SameSite=Lax; Path=/; Max-Age=0"@,
    );
}

/// A login that was started can be completed: from the cookie that it left and
/// the state that it sent, the callback reads the code verifier again. Without
/// that state it reads none.
pub proof fn lemma_login_roundtrip(
    state: Seq<char>,
    code_verifier: Seq<char>,
    returned: Option<Seq<char>>,
)
    requires
        is_secret_text(state),
        is_secret_text(code_verifier),
    ensures
        verifier_of(
            Some(OAUTH2_COOKIE@ + "="@ + login_cookie_value(state, code_verifier)),
            returned,
        ) == if returned == Some(state) {
            Ok(code_verifier)
        } else {
            Err(unauthorized("oauth2 state mismatch"@))
        },
{
    reveal_strlit("layerhouse_oauth2");
    reveal_strlit("=");
    reveal_strlit(".");
    let name = OAUTH2_COOKIE@;
    let value = login_cookie_value(state, code_verifier);
    let header = name + "="@ + value;
    assert(value =~= state + seq!['.'] + code_verifier);
    assert(header =~= name + seq!['='] + value);
    assert(name.len() == 17);
    assert forall|i: int| 0 <= i < header.len() implies #[trigger] header[i] != ';' && !is_space(
        header[i],
    ) by {
        if i < 17 {
            assert(header[i] == name[i]);
        } else if i > 17 {
            let k = i - 18;
            assert(header[i] == value[k]);
            if k < state.len() {
                assert(value[k] == state[k]);
            } else if k > state.len() {
                assert(value[k] == code_verifier[k - state.len() - 1]);
            }
        }
    }
    lemma_split_single(header, ';');
    lemma_trimmed_same(header);
    assert forall|i: int| 0 <= i < 17 implies #[trigger] header[i] != '=' by {
        assert(header[i] == name[i]);
    }
    lemma_position_is(header, '=', 17);
    assert(header.take(17) =~= name);
    assert(header.skip(18) =~= value);
    let parts = split_on(header, ';');
    assert(parts[0] == header);
    assert(cookie(header, name) == Some(value));
    let n = state.len() as int;
    assert forall|i: int| 0 <= i < n implies #[trigger] value[i] != '.' by {
        assert(value[i] == state[i]);
    }
    lemma_position_is(value, '.', n);
    assert(value.take(n) =~= state);
    assert(value.skip(n + 1) =~= code_verifier);
}

} // verus!
