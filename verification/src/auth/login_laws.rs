//! How tokens are handed out and how a login goes, told by what was asked and answered.
use super::discovery::{discovery_url, extract_origin, rewrite_base, OidcDiscovery};
use super::middleware::{extract_cookie, DashboardSession};
use super::oauth2::{
    answer_id_token, begin_callback, callback_code, callback_refused, clear_oauth2_cookie,
    complete_callback, encoded_bytes, exchange_form, form_encode, form_fields, login_cookie,
    login_url, oauth2_code_verifier, percent_encode, pkce_challenge, session_cookie,
    session_lifetime_secs, upper_hex, CallbackQuery, CallbackStep,
};
use super::permissions::{parse_scopes, OciAction};
use super::token::TokenClaims;
use super::token_endpoint::{
    all_words, base64_decoded, basic_credentials, credentials_required, extract_basic_auth,
    requested_permissions, scope_string, values_of, TokenQuery, TokenResponse,
};
use crate::error::LayerhouseError;
use crate::oci::json::{Json, JsonView};
use crate::routes::reply::Reply;
use crate::text::{
    decimal_text, first_occurrence, joined, lemma_position, lemma_position_is, occurs_at, trimmed,
    without_trailing, words,
};
use vstd::prelude::*;
use vstd::utf8::{encode_utf8, encode_utf8_decode_utf8, encode_utf8_valid_utf8};

verus! {

// ── Tokens ───────────────────────────────────────────────────────────────

proof fn lemma_values_push(
    pairs: Seq<(Seq<char>, Seq<char>)>,
    pair: (Seq<char>, Seq<char>),
    key: Seq<char>,
)
    ensures
        values_of(pairs.push(pair), key) == if pair.0 == key {
            values_of(pairs, key).push(pair.1)
        } else {
            values_of(pairs, key)
        },
{
    assert(pairs.push(pair).drop_last() =~= pairs);
}

/// A query keeps every scope, in order, and of each other value the last one: one more
/// pair adds its scope or replaces its value, and changes nothing else.
pub proof fn lemma_one_more_pair(
    pairs: Vec<(String, String)>,
    more: Vec<(String, String)>,
    pair: (String, String),
    before: TokenQuery,
    after: TokenQuery,
)
    requires
        more@ == pairs@.push(pair),
        call_ensures(TokenQuery::from_pairs, (pairs,), before),
        call_ensures(TokenQuery::from_pairs, (more,), after),
    ensures
        pairs@.len() == 0 ==> before.scope@.len() == 0 && before.service is None,
        after.scope.deep_view() == if pair.0@ == "scope"@ {
            before.scope.deep_view().push(pair.1@)
        } else {
            before.scope.deep_view()
        },
        after.service.deep_view() == if pair.0@ == "service"@ {
            Some(pair.1@)
        } else {
            before.service.deep_view()
        },
        after._account.deep_view() == if pair.0@ == "account"@ {
            Some(pair.1@)
        } else {
            before._account.deep_view()
        },
        after._client_id.deep_view() == if pair.0@ == "client_id"@ {
            Some(pair.1@)
        } else {
            before._client_id.deep_view()
        },
{
    let a = pairs.deep_view();
    let p = (pair.0@, pair.1@);
    assert(more.deep_view() =~= a.push(p));
    lemma_values_push(a, p, "scope"@);
    lemma_values_push(a, p, "service"@);
    lemma_values_push(a, p, "account"@);
    lemma_values_push(a, p, "client_id"@);
    assert(before@.scope == before.scope.deep_view());
    assert(after@.scope == after.scope.deep_view());
    if pairs@.len() == 0 {
        assert(a.len() == 0);
        assert(before.scope.deep_view().len() == before.scope@.len());
        assert(before.service.deep_view() is Some <==> before.service is Some);
    }
}

/// The scopes of a query as one text are their words with a space between each two; without
/// words there is no text.
pub proof fn lemma_scopes_as_one_text(
    scopes: &Vec<String>,
    r: Option<String>,
    more: &Vec<String>,
    added: String,
)
    requires
        call_ensures(scope_string, (scopes,), r),
        more@ == scopes@.push(added),
    ensures
        scopes@.len() == 0 ==> r is None,
        r matches Some(t) ==> t@ == joined(all_words(scopes.deep_view()), " "@) && t@.len() > 0,
        all_words(more.deep_view()) == all_words(scopes.deep_view()) + words(added@),
{
    assert(r.deep_view() is Some <==> r is Some);
    assert(more.deep_view() =~= scopes.deep_view().push(added@));
    assert(more.deep_view().drop_last() =~= scopes.deep_view());
    if scopes@.len() == 0 {
        assert(scopes.deep_view().len() == 0);
        assert(all_words(scopes.deep_view()) =~= Seq::empty());
    }
}

/// A token for a scope must be allowed what the words of the scope grant, and without a
/// scope nothing.
pub proof fn lemma_what_a_token_must_be_allowed(
    scope: &Option<String>,
    list: &Vec<String>,
    r: Vec<(String, OciAction)>,
    read: Vec<(String, OciAction)>,
)
    requires
        call_ensures(requested_permissions, (scope,), r),
        scope matches Some(t) ==> list.deep_view() == words(t@),
        call_ensures(parse_scopes, (list,), read),
    ensures
        scope is None ==> r@.len() == 0,
        scope is Some ==> r.deep_view() == read.deep_view(),
{
    assert(scope.deep_view() is Some <==> scope is Some);
    assert(r.deep_view().len() == r@.len());
}

/// A name and a password are separated by the first colon; without a colon there are none.
pub proof fn lemma_names_and_passwords(
    decoded: Vec<u8>,
    text: Seq<char>,
    name: Seq<char>,
    password: Seq<char>,
    r: Option<(String, String)>,
)
    requires
        decoded@ == encode_utf8(text),
        call_ensures(basic_credentials, (decoded,), r),
    ensures
        text == name + seq![':'] + password && !name.contains(':') ==> (r matches Some((n, p))
            && n@ == name && p@ == password),
        !text.contains(':') ==> r is None,
{
    encode_utf8_valid_utf8(text);
    encode_utf8_decode_utf8(text);
    assert(r.deep_view() is Some <==> r is Some);
    lemma_position(text, ':');
    if text == name + seq![':'] + password && !name.contains(':') {
        assert forall|i: int| 0 <= i < name.len() implies #[trigger] text[i] != ':' by {
            assert(text[i] == name[i]);
            assert(name.contains(name[i]));
        }
        lemma_position_is(text, ':', name.len() as int);
        assert(text.take(name.len() as int) =~= name);
        assert(text.skip(name.len() as int + 1) =~= password);
        assert(r.deep_view() == Some((name, password)));
    }
}

/// Whoever comes without a name and a password is told where to log in, for which service
/// and for what.
pub proof fn lemma_credentials_are_asked_for(
    realm: &str,
    query: &TokenQuery,
    scope: Option<String>,
    r: LayerhouseError,
)
    requires
        call_ensures(credentials_required, (realm, query), r),
        call_ensures(scope_string, (&query.scope,), scope),
    ensures
        r matches LayerhouseError::Unauthorized { message, realm: m, service, scope: s } && {
            &&& message@ == "authentication required"@
            &&& m.deep_view() == Some(realm@)
            &&& service.deep_view() == query.service.deep_view()
            &&& s.deep_view() == scope.deep_view()
        },
{
}

/// A token is handed out for one hour, under both names.
pub proof fn lemma_tokens_last_an_hour(token: String, issued_at: String, r: TokenResponse)
    requires
        call_ensures(TokenResponse::issued, (token, issued_at), r),
    ensures
        r.expires_in == 3600,
        r.token@ == token@ && r.access_token@ == token@,
        r.issued_at@ == issued_at@,
{
}

// ── Discovery ────────────────────────────────────────────────────────────

/// The document of an issuer is found at a fixed place under it, with or without a slash at
/// the end.
pub proof fn lemma_place_of_the_document(issuer_url: &str, base: Seq<char>, r: String)
    requires
        call_ensures(discovery_url, (issuer_url,), r),
        base.len() > 0 ==> base.last() != '/',
        issuer_url@ == base || issuer_url@ == base + seq!['/'],
    ensures
        r@ == base + "/.well-known/openid-configuration"@,
{
    assert(without_trailing(base, '/') == base);
    if issuer_url@ == base + seq!['/'] {
        assert(issuer_url@.drop_last() =~= base);
        assert(issuer_url@.last() == '/');
    }
}

proof fn lemma_first_place(s: Seq<char>, part: Seq<char>, from: int, p: int)
    requires
        0 <= from <= p,
        occurs_at(s, part, p),
        forall|i: int| from <= i < p ==> !#[trigger] occurs_at(s, part, i),
    ensures
        first_occurrence(s, part, from) == p,
    decreases p - from,
{
    if from < p {
        assert(!occurs_at(s, part, from));
        lemma_first_place(s, part, from + 1, p);
    }
}

/// The origin of an address is its scheme, its host and its port, whatever path follows.
pub proof fn lemma_origin_of_an_address(
    url: &str,
    scheme: Seq<char>,
    host: Seq<char>,
    path: Seq<char>,
    r: String,
)
    requires
        call_ensures(extract_origin, (url,), r),
        url@ == scheme + "://"@ + host + path,
        !scheme.contains(':'),
        !host.contains('/'),
        path.len() == 0 || path[0] == '/',
    ensures
        r@ == scheme + "://"@ + host,
{
    reveal_strlit("://");
    let s = url@;
    let mark = "://"@;
    let n = scheme.len() as int;
    assert(s.subrange(n, n + 3) =~= mark);
    assert(occurs_at(s, mark, n));
    assert forall|i: int| 0 <= i < n implies !#[trigger] occurs_at(s, mark, i) by {
        if occurs_at(s, mark, i) {
            assert(s.subrange(i, i + 3)[0] == ':');
            assert(s[i] == scheme[i]);
            assert(scheme.contains(scheme[i]));
        }
    }
    lemma_first_place(s, mark, 0, n);
    let rest = s.skip(n + 3);
    assert(rest =~= host + path);
    assert forall|i: int| 0 <= i < host.len() implies #[trigger] rest[i] != '/' by {
        assert(rest[i] == host[i]);
        assert(host.contains(host[i]));
    }
    if path.len() > 0 {
        lemma_position_is(rest, '/', host.len() as int);
    } else {
        lemma_position(rest, '/');
        assert(rest =~= host);
    }
    assert(s.take(n + 3 + host.len()) =~= scheme + "://"@ + host);
}

/// An address under one origin is moved to the other and keeps what follows; any other
/// address stays.
pub proof fn lemma_moved_addresses(
    url: &str,
    from_base: &str,
    to_base: &str,
    rest: Seq<char>,
    from: String,
    to: String,
    r: String,
)
    requires
        call_ensures(rewrite_base, (url, from_base, to_base), r),
        call_ensures(extract_origin, (from_base,), from),
        call_ensures(extract_origin, (to_base,), to),
    ensures
        url@ == from@ + rest ==> r@ == to@ + rest,
        !from@.is_prefix_of(url@) ==> r@ == url@,
{
    if url@ == from@ + rest {
        assert(url@.take(from@.len() as int) =~= from@);
        assert(url@.skip(from@.len() as int) =~= rest);
    }
}

/// A text field of a document, where it has one.
pub open spec fn text_at(doc: JsonView, key: Seq<char>) -> Option<Seq<char>> {
    match doc.get(key) {
        Some(JsonView::Text(t)) => Some(t),
        _ => None,
    }
}

/// A document is read exactly where it names where to log in, where to get tokens and where
/// the keys are. What the browser is sent to stays; what the registry calls itself is moved
/// to the issuer as the registry reaches it.
pub proof fn lemma_what_a_document_names(
    doc: &Json,
    issuer_url: &str,
    public_base: &str,
    token: &str,
    keys: &str,
    moved_token: String,
    moved_keys: String,
    r: Result<OidcDiscovery, LayerhouseError>,
)
    requires
        call_ensures(OidcDiscovery::from_document, (doc, issuer_url, public_base), r),
        text_at(doc@, "token_endpoint"@) == Some(token@),
        text_at(doc@, "jwks_uri"@) == Some(keys@),
        call_ensures(rewrite_base, (token, public_base, issuer_url), moved_token),
        call_ensures(rewrite_base, (keys, public_base, issuer_url), moved_keys),
    ensures
        r is Ok <==> text_at(doc@, "authorization_endpoint"@) is Some,
        r matches Ok(d) ==> {
            &&& Some(d.authorization_endpoint@) == text_at(doc@, "authorization_endpoint"@)
            &&& d.token_endpoint@ == moved_token@
            &&& d.jwks_uri@ == moved_keys@
            &&& d.end_session_endpoint.deep_view() == text_at(doc@, "end_session_endpoint"@)
        },
{
}

/// A document that lacks one of the three addresses is refused, and the first that is
/// missing is named.
pub proof fn lemma_what_a_document_must_name(
    doc: &Json,
    issuer_url: &str,
    public_base: &str,
    r: Result<OidcDiscovery, LayerhouseError>,
)
    requires
        call_ensures(OidcDiscovery::from_document, (doc, issuer_url, public_base), r),
    ensures
        ({
            let login = text_at(doc@, "authorization_endpoint"@) is Some;
            let token = text_at(doc@, "token_endpoint"@) is Some;
            let keys = text_at(doc@, "jwks_uri"@) is Some;
            &&& r is Ok <==> login && token && keys
            &&& !login ==> (r matches Err(LayerhouseError::Internal(t)) && t@
                == "discovery missing "@ + "authorization_endpoint"@)
            &&& login && !token ==> (r matches Err(LayerhouseError::Internal(t)) && t@
                == "discovery missing "@ + "token_endpoint"@)
            &&& login && token && !keys ==> (r matches Err(LayerhouseError::Internal(t)) && t@
                == "discovery missing "@ + "jwks_uri"@)
        }),
{
}

// ── Login ────────────────────────────────────────────────────────────────

/// A letter, a digit and each of `-_.~` stands for itself in an encoded parameter; any
/// other byte is a percent sign and its two hexadecimal digits.
pub proof fn lemma_encoded_bytes(bytes: Seq<u8>, b: u8)
    ensures
        ({
            let c = b as char;
            let plain = ('A' <= c && c <= 'Z') || ('a' <= c && c <= 'z') || ('0' <= c && c <= '9')
                || c == '-' || c == '_' || c == '.' || c == '~';
            &&& plain ==> encoded_bytes(bytes.push(b)) == encoded_bytes(bytes).push(c)
            &&& !plain ==> encoded_bytes(bytes.push(b)) == encoded_bytes(bytes).push('%').push(
                upper_hex(b as int / 16),
            ).push(upper_hex(b as int % 16))
        }),
        encoded_bytes(Seq::empty()) == Seq::<char>::empty(),
{
    assert(bytes.push(b).drop_last() =~= bytes);
    let front = encoded_bytes(bytes);
    assert(front + seq![b as char] =~= front.push(b as char));
    assert(front + seq!['%', upper_hex(b as int / 16), upper_hex(b as int % 16)] =~= front.push(
        '%',
    ).push(upper_hex(b as int / 16)).push(upper_hex(b as int % 16)));
}

/// A login sends the browser to the provider with the client, where to come back to, what is
/// asked for, the state and the challenge of the code verifier, each encoded.
pub proof fn lemma_where_a_login_goes(
    endpoint: &str,
    client_id: &str,
    redirect_uri: &str,
    state: &str,
    verifier: &str,
    challenge: String,
    text: &str,
    client: String,
    redirect: String,
    scope: String,
    sent_state: String,
    sent_challenge: String,
    r: String,
)
    requires
        call_ensures(login_url, (endpoint, client_id, redirect_uri, state, verifier), r),
        call_ensures(pkce_challenge, (verifier,), challenge),
        text@ == challenge@,
        call_ensures(percent_encode, (client_id,), client),
        call_ensures(percent_encode, (redirect_uri,), redirect),
        call_ensures(percent_encode, ("openid profile email groups",), scope),
        call_ensures(percent_encode, (state,), sent_state),
        call_ensures(percent_encode, (text,), sent_challenge),
    ensures
        r@ == endpoint@ + "?response_type=code&client_id="@ + client@ + "&redirect_uri="@
            + redirect@ + "&scope="@ + scope@ + "&state="@ + sent_state@ + "&code_challenge="@
            + sent_challenge@ + "&code_challenge_method=S256"@,
{
}

/// The cookie of a login holds its state and its code verifier for ten minutes, and only
/// for the paths of the login; the one that ends it holds nothing and is gone at once. The
/// cookie of a session lasts as long as the session.
pub proof fn lemma_cookies_of_a_login(
    state: &str,
    verifier: &str,
    value: &str,
    expires_in: u64,
    login: String,
    cleared: String,
    session: String,
)
    requires
        call_ensures(login_cookie, (state, verifier), login),
        call_ensures(clear_oauth2_cookie, (), cleared),
        call_ensures(session_cookie, (value, expires_in), session),
    ensures
        login@ == "layerhouse_oauth2"@ + "="@ + (state@ + "."@ + verifier@) + "; "@ + (
        "HttpOnly; Secure; SameSite=Lax; Path=/oauth2; Max-Age="@ + decimal_text(600)),
        cleared@ == "layerhouse_oauth2"@ + "="@ + Seq::<char>::empty() + "; "@ + (
        "HttpOnly; Secure; SameSite=Lax"@ + "; Path=/oauth2; Max-Age=0"@),
        session@ == "orb_chrysa_session"@ + "="@ + value@ + "; "@ + (
        "HttpOnly; Secure; SameSite=Lax; Path=/; Max-Age="@ + decimal_text(expires_in as nat)),
{
}

/// A login is continued only with the state that it was started with: the verifier is what
/// follows the state in the cookie that the login left.
pub proof fn lemma_state_of_a_login(
    cookies: Option<&str>,
    header: &str,
    state: Option<&str>,
    value: Option<String>,
    started: Seq<char>,
    verifier: Seq<char>,
    r: Result<String, LayerhouseError>,
)
    requires
        call_ensures(oauth2_code_verifier, (cookies, state), r),
        cookies matches Some(h) ==> h == header,
        call_ensures(extract_cookie, (header, "layerhouse_oauth2"), value),
        value matches Some(v) ==> v@ == started + seq!['.'] + verifier && !started.contains('.'),
    ensures
        r is Ok <==> cookies is Some && value is Some && (state matches Some(s) && s@ == started),
        r matches Ok(v) ==> v@ == verifier,
        r matches Err(e) ==> (e matches LayerhouseError::Unauthorized { message, .. } && (
        cookies is None || value is None ==> message@ == "missing oauth2 state"@) && (cookies
            is Some && value is Some ==> message@ == "oauth2 state mismatch"@)),
{
    assert(value.deep_view() is Some <==> value is Some);
    if let Some(v) = value {
        assert forall|i: int| 0 <= i < started.len() implies #[trigger] v@[i] != '.' by {
            assert(v@[i] == started[i]);
            assert(started.contains(started[i]));
        }
        lemma_position_is(v@, '.', started.len() as int);
        assert(v@.take(started.len() as int) =~= started);
        assert(v@.skip(started.len() as int + 1) =~= verifier);
    }
}

/// A provider's answer without a code starts the login again. One with a code is exchanged
/// for tokens, where the login is the one that was started and authentication is on.
pub proof fn lemma_answers_to_a_login(
    query: &CallbackQuery,
    auth_enabled: bool,
    cookies: Option<&str>,
    redirect_uri: &str,
    client_id: &str,
    client_secret: &str,
    state: Option<&str>,
    code: &str,
    known: &str,
    verifier: Result<String, LayerhouseError>,
    form: String,
    r: Result<CallbackStep, LayerhouseError>,
)
    requires
        call_ensures(
            begin_callback,
            (query, auth_enabled, cookies, redirect_uri, client_id, client_secret),
            r,
        ),
        query._state is None ==> state is None,
        query._state matches Some(s) ==> (state matches Some(t) && t@ == s@),
        query.code matches Some(c) ==> code@ == c@,
        call_ensures(oauth2_code_verifier, (cookies, state), verifier),
        verifier matches Ok(v) ==> known@ == v@,
        call_ensures(exchange_form, (code, redirect_uri, client_id, client_secret, known), form),
    ensures
        ({
            let has_code = (query.code matches Some(c) && c@.len() > 0);
            &&& !has_code ==> (r matches Ok(CallbackStep::Restart))
            &&& has_code ==> (verifier matches Err(e) ==> (r matches Err(x) && x@ == e@))
            &&& has_code && verifier is Ok && auth_enabled ==> (
            r matches Ok(CallbackStep::Exchange { form: f }) && f@ == form@)
            &&& has_code && verifier is Ok && !auth_enabled ==> (
            r matches Err(LayerhouseError::Internal(t)) && t@ == "auth not configured"@)
        }),
{
    assert(query.code.deep_view() is Some <==> query.code is Some);
    assert(query._state.deep_view() is Some <==> query._state is Some);
}

/// The code of a provider's answer is used where it is not empty.
pub proof fn lemma_code_of_an_answer(query: &CallbackQuery, r: Option<&String>)
    requires
        call_ensures(callback_code, (query,), r),
    ensures
        r is Some <==> (query.code matches Some(c) && c@.len() > 0),
        r matches Some(c) ==> c@ == query.code->0@,
{
    assert(query.code.deep_view() is Some <==> query.code is Some);
}

/// A login that failed for its state is answered with the page that says so, and its cookie
/// ends; any other failure is answered as such.
pub proof fn lemma_refused_logins(error: &LayerhouseError, attributes: &str, r: Option<Reply>)
    requires
        call_ensures(callback_refused, (error, attributes), r),
    ensures
        r is Some <==> error is Unauthorized,
        r matches Some(reply) ==> reply.status == 307 && reply.headers@.len() == 2
            && reply.headers@[0].0@ == "location"@ && reply.headers@[0].1@
            == "/?oauth_error=state#/oauth2/error"@ && reply.headers@[1].0@ == "set-cookie"@,
{
    assert(r.deep_view() is Some <==> r is Some);
    if let Some(reply) = r {
        let h = reply.headers.deep_view();
        assert(reply@.headers == h);
        assert(h.len() == reply.headers@.len());
        assert(h[0] == (reply.headers@[0].0@, reply.headers@[0].1@));
        assert(h[1] == (reply.headers@[1].0@, reply.headers@[1].1@));
    }
}

/// A session lasts as long as the provider says, and a day where it does not.
pub proof fn lemma_how_long_a_session_lasts(token: &Json, r: u64)
    requires
        call_ensures(session_lifetime_secs, (token,), r),
    ensures
        token@.get("expires_in"@) is None ==> r == 86400,
        token@.get("expires_in"@) matches Some(v) ==> (v.unsigned() matches Some(n) ==> r == n) && (
        v.unsigned() is None ==> r == 86400),
{
}

/// A login is complete exactly where the provider's answer has both tokens and the id token
/// could be read. The session then belongs to the subject of the id token, holds the tokens,
/// and ends when its time is over.
pub proof fn lemma_completed_logins(
    token: &Json,
    claims: Option<&TokenClaims>,
    now: u64,
    lifetime: u64,
    id: Result<&String, LayerhouseError>,
    r: Result<DashboardSession, LayerhouseError>,
)
    requires
        call_ensures(session_lifetime_secs, (token,), lifetime),
        now + lifetime <= u64::MAX,
        call_ensures(answer_id_token, (token,), id),
        call_ensures(complete_callback, (token, claims, now), r),
    ensures
        id is Ok <==> text_at(token@, "access_token"@) is Some && text_at(token@, "id_token"@)
            is Some,
        r is Ok <==> id is Ok && claims is Some,
        id is Ok && claims is None ==> (r matches Err(LayerhouseError::Internal(t)) && t@
            == "invalid id_token"@),
        r matches Ok(s) ==> {
            let c = claims->0;
            &&& s.subject@ == c.subject@
            &&& text_at(token@, "access_token"@) == Some(s.access_token@)
            &&& text_at(token@, "id_token"@) == Some(s.id_token@)
            &&& text_at(token@, "refresh_token"@) matches Some(t) ==> s.refresh_token@ == t
            &&& text_at(token@, "refresh_token"@) is None ==> s.refresh_token@.len() == 0
            &&& s.expires_at == now + lifetime
            &&& s.username is Some <==> (c.preferred_username matches Some(t) && trimmed(t@).len()
                > 0)
        },
{
    if let Ok(s) = r {
        let c = claims->0;
        assert(s@.username == s.username.deep_view());
        assert(s.username.deep_view() is Some <==> s.username is Some);
        assert(c@.preferred_username is Some <==> c.preferred_username is Some);
    }
}

/// A `Basic` authorization gives the name and the password that its encoded text holds; any
/// other gives none.
pub proof fn lemma_basic_authorizations(
    header: &str,
    encoded: Seq<char>,
    name: Seq<char>,
    password: Seq<char>,
    r: Option<(String, String)>,
    without: Option<(String, String)>,
)
    requires
        call_ensures(extract_basic_auth, (Some(header),), r),
        call_ensures(extract_basic_auth, (None::<&str>,), without),
        !name.contains(':'),
    ensures
        without is None,
        !"Basic "@.is_prefix_of(header@) ==> r is None,
        header@ == "Basic "@ + encoded && base64_decoded(encoded) is None ==> r is None,
        header@ == "Basic "@ + encoded && base64_decoded(encoded) == Some(
            encode_utf8(name + seq![':'] + password),
        ) ==> (r matches Some((n, p)) && n@ == name && p@ == password),
{
    assert(r.deep_view() is Some <==> r is Some);
    assert(without.deep_view() is Some <==> without is Some);
    if header@ == "Basic "@ + encoded {
        assert(header@.skip("Basic "@.len() as int) =~= encoded);
        assert(header@.take("Basic "@.len() as int) =~= "Basic "@);
        let text = name + seq![':'] + password;
        if base64_decoded(encoded) == Some(encode_utf8(text)) {
            encode_utf8_valid_utf8(text);
            encode_utf8_decode_utf8(text);
            assert forall|i: int| 0 <= i < name.len() implies #[trigger] text[i] != ':' by {
                assert(name.contains(name[i]));
            }
            lemma_position_is(text, ':', name.len() as int);
            assert(text.take(name.len() as int) =~= name);
            assert(text.skip(name.len() as int + 1) =~= password);
            assert(r.deep_view() == Some((name, password)));
        }
    }
}

/// One more field of a form adds its encoded key and value.
pub proof fn lemma_one_more_field(
    fields: &Vec<(String, String)>,
    more: &Vec<(String, String)>,
    field: (String, String),
    key: String,
    value: String,
    before: String,
    after: String,
    key_text: &str,
    value_text: &str,
)
    requires
        more@ == fields@.push(field),
        key_text@ == field.0@,
        value_text@ == field.1@,
        call_ensures(percent_encode, (key_text,), key),
        call_ensures(percent_encode, (value_text,), value),
        call_ensures(form_encode, (fields,), before),
        call_ensures(form_encode, (more,), after),
    ensures
        fields@.len() == 0 ==> before@.len() == 0 && after@ == key@ + "="@ + value@,
        fields@.len() > 0 ==> after@ == before@ + "&"@ + (key@ + "="@ + value@),
{
    let a = fields.deep_view();
    let b = more.deep_view();
    assert(b =~= a.push((field.0@, field.1@)));
    let fa = form_fields(a);
    let fb = form_fields(b);
    assert(fb =~= fa.push(key@ + "="@ + value@));
    assert(fb.drop_last() =~= fa);
    assert(fb.last() == key@ + "="@ + value@);
}

} // verus!
