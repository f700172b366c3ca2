//! The endpoint that hands out bearer tokens.
use super::permissions::{parse_scopes, scopes_of, OciAction};
use crate::clones::clone_option;
use crate::error::{ErrorView, LayerhouseError};
use crate::text::{
    concat2, join, joined, split_first, split_once, split_whitespace, str_equal, string_from_utf8,
    strip_prefix, words,
};
use vstd::prelude::*;
use vstd::utf8::{decode_utf8, encode_utf8_decode_utf8, valid_utf8};

verus! {

// ── Outside functions ────────────────────────────────────────────────────

/// What `serde_urlencoded::from_str` returns for pairs of texts: the keys and
/// values of an `application/x-www-form-urlencoded` text, or the text of the
/// error.
pub uninterp spec fn form_pairs(query: Seq<char>) -> Result<
    Seq<(Seq<char>, Seq<char>)>,
    Seq<char>,
>;

/// What the `STANDARD` engine of `base64` decodes a text to, if it can.
pub uninterp spec fn base64_decoded(text: Seq<char>) -> Option<Seq<u8>>;

/// `serde_urlencoded::from_str`. Claims the named pairs or error text.
#[verifier::external_body]
fn decode_form(query: &str) -> (r: Result<Vec<(String, String)>, String>)
    ensures
        match r {
            Ok(pairs) => form_pairs(query@) == Ok::<_, Seq<char>>(pairs.deep_view()),
            Err(e) => form_pairs(query@) == Err::<Seq<(Seq<char>, Seq<char>)>, _>(e@),
        },
{
    serde_urlencoded::from_str::<Vec<(String, String)>>(query).map_err(|e| e.to_string())
}

/// `base64::Engine::decode` with the `STANDARD` engine. Claims the named bytes.
#[verifier::external_body]
fn decode_base64(text: &str) -> (r: Option<Vec<u8>>)
    ensures
        r.deep_view() == base64_decoded(text@),
{
    base64::Engine::decode(&base64::engine::general_purpose::STANDARD, text).ok()
}

// ── Queries ──────────────────────────────────────────────────────────────

/// What a client asks a token for.
#[derive(Debug, PartialEq, Eq)]
pub struct TokenQuery {
    pub service: Option<String>,
    pub scope: Vec<String>,
    pub _account: Option<String>,
    pub _client_id: Option<String>,
}

/// What a `TokenQuery` holds.
#[verifier::ext_equal]
pub struct TokenQueryView {
    pub service: Option<Seq<char>>,
    pub scope: Seq<Seq<char>>,
    pub account: Option<Seq<char>>,
    pub client_id: Option<Seq<char>>,
}

impl View for TokenQuery {
    type V = TokenQueryView;

    open spec fn view(&self) -> TokenQueryView {
        TokenQueryView {
            service: self.service.deep_view(),
            scope: self.scope.deep_view(),
            account: self._account.deep_view(),
            client_id: self._client_id.deep_view(),
        }
    }
}

/// The values of a key, in order.
pub open spec fn values_of(pairs: Seq<(Seq<char>, Seq<char>)>, key: Seq<char>) -> Seq<Seq<char>>
    decreases pairs.len(),
{
    if pairs.len() == 0 {
        Seq::empty()
    } else if pairs.last().0 == key {
        values_of(pairs.drop_last(), key).push(pairs.last().1)
    } else {
        values_of(pairs.drop_last(), key)
    }
}

/// The last value of a key.
pub open spec fn last_value(pairs: Seq<(Seq<char>, Seq<char>)>, key: Seq<char>) -> Option<
    Seq<char>,
> {
    let values = values_of(pairs, key);
    if values.len() > 0 {
        Some(values.last())
    } else {
        None
    }
}

/// The query that some pairs stand for.
pub open spec fn query_of(pairs: Seq<(Seq<char>, Seq<char>)>) -> TokenQueryView {
    TokenQueryView {
        service: last_value(pairs, "service"@),
        scope: values_of(pairs, "scope"@),
        account: last_value(pairs, "account"@),
        client_id: last_value(pairs, "client_id"@),
    }
}

impl TokenQuery {
    /// The query that some pairs stand for: all scopes are kept, of the other
    /// values the last.
    pub fn from_pairs(pairs: Vec<(String, String)>) -> (r: Self)
        ensures
            r@ == query_of(pairs.deep_view()),
    {
        let ghost all = pairs.deep_view();
        let mut query = TokenQuery {
            service: None,
            scope: Vec::new(),
            _account: None,
            _client_id: None,
        };
        let mut i: usize = 0;
        assert(query@ =~= query_of(all.take(0)));
        while i < pairs.len()
            invariant
                all == pairs.deep_view(),
                i <= pairs@.len(),
                query@ == query_of(all.take(i as int)),
            decreases pairs@.len() - i,
        {
            let ghost scopes = query.scope.deep_view();
            proof {
                assert(all.take(i + 1).drop_last() =~= all.take(i as int));
                assert(all.take(i + 1).last() == (pairs@[i as int].0@, pairs@[i as int].1@));
                reveal_strlit("service");
                reveal_strlit("scope");
                reveal_strlit("account");
                reveal_strlit("client_id");
                assert("service"@.len() == 7 && "scope"@.len() == 5 && "client_id"@.len() == 9);
                assert("service"@[0] != "account"@[0]);
            }
            let value = pairs[i].1.clone();
            if str_equal(&pairs[i].0, "service") {
                query.service = Some(value);
            } else if str_equal(&pairs[i].0, "scope") {
                query.scope.push(value);
                assert(query.scope.deep_view() =~= scopes.push(value@));
            } else if str_equal(&pairs[i].0, "account") {
                query._account = Some(value);
            } else if str_equal(&pairs[i].0, "client_id") {
                query._client_id = Some(value);
            }
            i = i + 1;
        }
        assert(all.take(all.len() as int) =~= all);
        query
    }

    /// The query of a raw query string; without one, a query that asks for
    /// nothing.
    pub fn from_raw_query(raw_query: Option<&str>) -> (r: Result<Self, LayerhouseError>)
        ensures
            match raw_query {
                None => r matches Ok(q) && q@ == query_of(Seq::empty()),
                Some(text) => match form_pairs(text@) {
                    Ok(pairs) => r matches Ok(q) && q@ == query_of(pairs),
                    Err(error) => r matches Err(e) && e@ == ErrorView::NameInvalid(
                        "invalid token query: "@ + error,
                    ),
                },
            },
    {
        let pairs: Vec<(String, String)> = match raw_query {
            Some(query) => match decode_form(query) {
                Ok(pairs) => pairs,
                Err(e) => return Err(
                    LayerhouseError::NameInvalid(concat2("invalid token query: ", &e)),
                ),
            },
            None => Vec::new(),
        };
        assert(raw_query is None ==> pairs.deep_view() =~= Seq::empty());
        Ok(Self::from_pairs(pairs))
    }
}

// ── Scopes ───────────────────────────────────────────────────────────────

/// The words of some texts, one text after the other.
pub open spec fn all_words(texts: Seq<Seq<char>>) -> Seq<Seq<char>>
    decreases texts.len(),
{
    if texts.len() == 0 {
        Seq::empty()
    } else {
        all_words(texts.drop_last()) + words(texts.last())
    }
}

/// The scopes of a query as one text, unless there are none.
pub open spec fn scope_text(scopes: Seq<Seq<char>>) -> Option<Seq<char>> {
    let text = joined(all_words(scopes), " "@);
    if text.len() > 0 {
        Some(text)
    } else {
        None
    }
}

/// The scopes of a query as one text, unless there are none.
pub fn scope_string(scopes: &Vec<String>) -> (r: Option<String>)
    ensures
        r.deep_view() == scope_text(scopes.deep_view()),
{
    let ghost all = scopes.deep_view();
    let mut found: Vec<String> = Vec::new();
    let mut i: usize = 0;
    assert(found.deep_view() =~= all_words(all.take(0)));
    while i < scopes.len()
        invariant
            all == scopes.deep_view(),
            i <= scopes@.len(),
            found.deep_view() == all_words(all.take(i as int)),
        decreases scopes@.len() - i,
    {
        let ghost before = found.deep_view();
        assert(all.take(i + 1).drop_last() =~= all.take(i as int));
        assert(all.take(i + 1).last() == scopes@[i as int]@);
        let mut more = split_whitespace(&scopes[i]);
        let ghost added = more.deep_view();
        let ghost more_before = more@;
        let ghost found_before = found@;
        found.append(&mut more);
        assert(found@ == found_before + more_before);
        assert(found.deep_view() =~= before + added);
        i = i + 1;
    }
    assert(all.take(all.len() as int) =~= all);
    let value = join(&found, " ");
    if value.as_str().unicode_len() > 0 {
        Some(value)
    } else {
        None
    }
}

/// What a token for a scope must be allowed to do.
pub open spec fn scope_demands(scope: Option<Seq<char>>) -> Seq<(Seq<char>, OciAction)> {
    match scope {
        Some(text) => scopes_of(words(text)),
        None => Seq::empty(),
    }
}

/// What a token for a scope must be allowed to do. Words that are no scopes
/// demand nothing.
pub fn requested_permissions(scope: &Option<String>) -> (r: Vec<(String, OciAction)>)
    ensures
        r.deep_view() == scope_demands(scope.deep_view()),
{
    match scope {
        Some(text) => parse_scopes(&split_whitespace(text)),
        None => {
            let r: Vec<(String, OciAction)> = Vec::new();
            assert(r.deep_view() =~= Seq::empty());
            r
        },
    }
}

// ── Credentials ──────────────────────────────────────────────────────────

/// The user name and password that some bytes stand for.
pub open spec fn credentials(decoded: Seq<u8>) -> Option<(Seq<char>, Seq<char>)> {
    if valid_utf8(decoded) {
        split_first(decode_utf8(decoded), ':')
    } else {
        None
    }
}

/// The user name and password that some bytes stand for: they are separated by
/// the first colon.
pub fn basic_credentials(decoded: Vec<u8>) -> (r: Option<(String, String)>)
    ensures
        r.deep_view() == credentials(decoded@),
{
    match string_from_utf8(decoded) {
        Some(text) => {
            proof {
                encode_utf8_decode_utf8(text@);
            }
            split_once(&text, ':')
        },
        None => None,
    }
}

/// The user name and password of a `Basic` authorization.
pub open spec fn basic_auth(header: Option<Seq<char>>) -> Option<(Seq<char>, Seq<char>)> {
    match header {
        Some(text) => if "Basic "@.is_prefix_of(text) {
            match base64_decoded(text.skip("Basic "@.len() as int)) {
                Some(decoded) => credentials(decoded),
                None => None,
            }
        } else {
            None
        },
        None => None,
    }
}

/// The user name and password of a `Basic` authorization.
pub fn extract_basic_auth(header: Option<&str>) -> (r: Option<(String, String)>)
    ensures
        r.deep_view() == basic_auth(
            match header {
                Some(text) => Some(text@),
                None => None,
            },
        ),
{
    let text = match header {
        Some(text) => text,
        None => return None,
    };
    match strip_prefix(text, "Basic ") {
        Some(encoded) => match decode_base64(&encoded) {
            Some(decoded) => {
                assert(decoded.deep_view() =~= decoded@);
                basic_credentials(decoded)
            },
            None => None,
        },
        None => None,
    }
}

/// The error for a request without credentials.
pub fn credentials_required(realm: &str, query: &TokenQuery) -> (r: LayerhouseError)
    ensures
        r@ == (ErrorView::Unauthorized {
            message: "authentication required"@,
            realm: Some(realm@),
            service: query@.service,
            scope: scope_text(query@.scope),
        }),
{
    LayerhouseError::Unauthorized {
        message: "authentication required".to_string(),
        realm: Some(realm.to_string()),
        service: clone_option(&query.service),
        scope: scope_string(&query.scope),
    }
}

// ── Answers ──────────────────────────────────────────────────────────────

/// How many seconds a bearer token is valid.
pub const TOKEN_LIFETIME_SECS: u64 = 3600;

/// A bearer token that is handed out.
#[derive(Debug, PartialEq, Eq)]
pub struct TokenResponse {
    pub token: String,
    pub access_token: String,
    pub expires_in: u64,
    pub issued_at: String,
}

impl TokenResponse {
    /// The answer that hands out a token, which stands in it under both names.
    pub fn issued(token: String, issued_at: String) -> (r: Self)
        ensures
            r.token@ == token@,
            r.access_token@ == token@,
            r.expires_in == TOKEN_LIFETIME_SECS,
            r.issued_at@ == issued_at@,
    {
        TokenResponse {
            token: token.clone(),
            access_token: token,
            expires_in: TOKEN_LIFETIME_SECS,
            issued_at,
        }
    }
}

} // verus!
