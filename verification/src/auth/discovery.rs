//! The discovery document of the identity provider.
use crate::error::{ErrorView, LayerhouseError};
use crate::oci::json::{Json, JsonView};
use crate::text::{
    chars_of, concat2, find_char, find_text, first_occurrence, position, strip_prefix, text_of,
    trim_end_matches, without_trailing,
};
use vstd::prelude::*;

verus! {

/// The endpoints of the identity provider.
#[derive(Debug, PartialEq, Eq)]
pub struct OidcDiscovery {
    pub authorization_endpoint: String,
    pub token_endpoint: String,
    pub jwks_uri: String,
    pub end_session_endpoint: Option<String>,
}

/// What an `OidcDiscovery` holds.
#[verifier::ext_equal]
pub struct OidcDiscoveryView {
    pub authorization_endpoint: Seq<char>,
    pub token_endpoint: Seq<char>,
    pub jwks_uri: Seq<char>,
    pub end_session_endpoint: Option<Seq<char>>,
}

impl View for OidcDiscovery {
    type V = OidcDiscoveryView;

    open spec fn view(&self) -> OidcDiscoveryView {
        OidcDiscoveryView {
            authorization_endpoint: self.authorization_endpoint@,
            token_endpoint: self.token_endpoint@,
            jwks_uri: self.jwks_uri@,
            end_session_endpoint: self.end_session_endpoint.deep_view(),
        }
    }
}

// ── Addresses ────────────────────────────────────────────────────────────

/// Where the discovery document of an issuer is.
pub fn discovery_url(issuer_url: &str) -> (r: String)
    ensures
        r@ == without_trailing(issuer_url@, '/') + "/.well-known/openid-configuration"@,
{
    concat2(&trim_end_matches(issuer_url, '/'), "/.well-known/openid-configuration")
}

/// Where the host of an address starts: behind `://`, or at its start.
pub open spec fn host_start(url: Seq<char>) -> int {
    let p = first_occurrence(url, "://"@, 0);
    if p >= 0 {
        p + 3
    } else {
        0
    }
}

/// Scheme, host and port of an address: all before the first `/` behind the
/// scheme.
pub open spec fn origin(url: Seq<char>) -> Seq<char> {
    let start = host_start(url);
    url.take(start + position(url.skip(start), '/'))
}

/// Scheme, host and port of an address.
pub fn extract_origin(url: &str) -> (r: String)
    ensures
        r@ == origin(url@),
{
    let chars = chars_of(url);
    let mark = chars_of("://");
    let n: usize = chars.len();
    proof {
        reveal_strlit("://");
        assert(mark@.len() == 3);
    }
    let start: usize = match find_text(&chars, &mark, 0) {
        Some(p) => p + 3,
        None => 0,
    };
    let end: usize = find_char(&chars, start, n, '/');
    proof {
        assert(chars@.subrange(start as int, n as int) =~= url@.skip(start as int));
        assert(chars@.subrange(0, end as int) =~= url@.take(end as int));
    }
    text_of(&chars, 0, end)
}

/// An address with the origin of one base replaced by that of another.
pub open spec fn rebased(url: Seq<char>, from_base: Seq<char>, to_base: Seq<char>) -> Seq<char> {
    if origin(from_base).is_prefix_of(url) {
        origin(to_base) + url.skip(origin(from_base).len() as int)
    } else {
        url
    }
}

/// An address with the origin of one base replaced by that of another. An
/// address that does not start with the first origin stays as it is.
pub fn rewrite_base(url: &str, from_base: &str, to_base: &str) -> (r: String)
    ensures
        r@ == rebased(url@, from_base@, to_base@),
{
    let from_origin = extract_origin(from_base);
    let to_origin = extract_origin(to_base);
    match strip_prefix(url, &from_origin) {
        Some(rest) => concat2(&to_origin, &rest),
        None => url.to_string(),
    }
}

// ── The document ─────────────────────────────────────────────────────────

/// The error for a document that lacks a field.
pub open spec fn missing(what: Seq<char>) -> ErrorView {
    ErrorView::Internal("discovery missing "@ + what)
}

/// The endpoints that a document names. Those that the registry itself calls
/// are moved to the origin under which it reaches the provider.
pub open spec fn discovered(doc: JsonView, issuer_url: Seq<char>, public_base: Seq<char>) -> Result<
    OidcDiscoveryView,
    ErrorView,
> {
    match (
        doc.text_field("authorization_endpoint"@),
        doc.text_field("token_endpoint"@),
        doc.text_field("jwks_uri"@),
    ) {
        (None, _, _) => Err(missing("authorization_endpoint"@)),
        (_, None, _) => Err(missing("token_endpoint"@)),
        (_, _, None) => Err(missing("jwks_uri"@)),
        (Some(authorization), Some(token), Some(jwks)) => Ok(
            OidcDiscoveryView {
                authorization_endpoint: authorization,
                token_endpoint: rebased(token, public_base, issuer_url),
                jwks_uri: rebased(jwks, public_base, issuer_url),
                end_session_endpoint: doc.text_field("end_session_endpoint"@),
            },
        ),
    }
}

/// A text field of a document, or the error for its lack.
fn required<'a>(doc: &'a Json, field: &str) -> (r: Result<&'a String, LayerhouseError>)
    ensures
        match r {
            Ok(text) => doc@.text_field(field@) == Some(text@),
            Err(e) => doc@.text_field(field@) is None && e@ == missing(field@),
        },
{
    match doc.text_field(field) {
        Some(text) => Ok(text),
        None => Err(LayerhouseError::Internal(concat2("discovery missing ", field))),
    }
}

impl OidcDiscovery {
    /// The endpoints that a document names.
    pub fn from_document(doc: &Json, issuer_url: &str, public_base: &str) -> (r: Result<
        Self,
        LayerhouseError,
    >)
        ensures
            match r {
                Ok(d) => discovered(doc@, issuer_url@, public_base@) == Ok::<_, ErrorView>(d@),
                Err(e) => discovered(doc@, issuer_url@, public_base@) == Err::<
                    OidcDiscoveryView,
                    _,
                >(e@),
            },
    {
        let authorization_endpoint = match required(doc, "authorization_endpoint") {
            Ok(text) => text.clone(),
            Err(e) => return Err(e),
        };
        let token_endpoint = match required(doc, "token_endpoint") {
            Ok(text) => rewrite_base(text, public_base, issuer_url),
            Err(e) => return Err(e),
        };
        let jwks_uri = match required(doc, "jwks_uri") {
            Ok(text) => rewrite_base(text, public_base, issuer_url),
            Err(e) => return Err(e),
        };
        let end_session_endpoint = match doc.text_field("end_session_endpoint") {
            Some(text) => Some(text.clone()),
            None => None,
        };
        Ok(
            OidcDiscovery {
                authorization_endpoint,
                token_endpoint,
                jwks_uri,
                end_session_endpoint,
            },
        )
    }
}

/// Moving an address to the base that it has already changes nothing.
pub proof fn lemma_rebase_to_same_base(url: Seq<char>, base: Seq<char>)
    ensures
        rebased(url, base, base) == url,
{
    if origin(base).is_prefix_of(url) {
        assert(origin(base) + url.skip(origin(base).len() as int) =~= url);
    }
}

} // verus!
