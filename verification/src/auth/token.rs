//! Who a request comes from, and what tokens say of it.
use crate::clones::{clone_list, clone_option};
use crate::text::{trim, trimmed};
use vstd::prelude::*;

verus! {

/// The kinds of tokens.
#[derive(Debug, Clone, Copy, PartialEq, Eq, Structural)]
pub enum TokenType {
    KanidmAccess,
    PersonalAccess,
    OciBearer,
    Session,
}

impl DeepView for TokenType {
    type V = TokenType;

    open spec fn deep_view(&self) -> TokenType {
        *self
    }
}

/// Who a request comes from.
#[derive(Debug)]
pub struct AuthIdentity {
    pub subject: String,
    pub username: Option<String>,
    pub display_name: Option<String>,
    pub email: Option<String>,
    pub groups: Vec<String>,
    pub scopes: Vec<String>,
    pub token_type: TokenType,
}

/// What a `AuthIdentity` holds.
#[verifier::ext_equal]
pub struct AuthIdentityView {
    pub subject: Seq<char>,
    pub username: Option<Seq<char>>,
    pub display_name: Option<Seq<char>>,
    pub email: Option<Seq<char>>,
    pub groups: Seq<Seq<char>>,
    pub scopes: Seq<Seq<char>>,
    pub token_type: TokenType,
}

impl View for AuthIdentity {
    type V = AuthIdentityView;

    open spec fn view(&self) -> AuthIdentityView {
        AuthIdentityView {
            subject: self.subject.deep_view(),
            username: self.username.deep_view(),
            display_name: self.display_name.deep_view(),
            email: self.email.deep_view(),
            groups: self.groups.deep_view(),
            scopes: self.scopes.deep_view(),
            token_type: self.token_type,
        }
    }
}

impl DeepView for AuthIdentity {
    type V = AuthIdentityView;

    open spec fn deep_view(&self) -> AuthIdentityView {
        self@
    }
}

impl Clone for AuthIdentity {
    fn clone(&self) -> (r: Self)
        ensures
            r@ == self@,
    {
        AuthIdentity {
            subject: self.subject.clone(),
            username: clone_option(&self.username),
            display_name: clone_option(&self.display_name),
            email: clone_option(&self.email),
            groups: clone_list(&self.groups),
            scopes: clone_list(&self.scopes),
            token_type: self.token_type,
        }
    }
}

/// For whom a token is meant.
#[derive(Debug, PartialEq, Eq)]
pub enum AudienceClaim {
    One(String),
    Many(Vec<String>),
}

/// What an `AudienceClaim` holds.
#[verifier::ext_equal]
pub enum AudienceClaimView {
    One(Seq<char>),
    Many(Seq<Seq<char>>),
}

impl View for AudienceClaim {
    type V = AudienceClaimView;

    open spec fn view(&self) -> AudienceClaimView {
        match self {
            AudienceClaim::One(a) => AudienceClaimView::One(a@),
            AudienceClaim::Many(list) => AudienceClaimView::Many(list.deep_view()),
        }
    }
}

impl DeepView for AudienceClaim {
    type V = AudienceClaimView;

    open spec fn deep_view(&self) -> AudienceClaimView {
        self@
    }
}

impl Clone for AudienceClaim {
    fn clone(&self) -> (r: Self)
        ensures
            r@ == self@,
    {
        match self {
            AudienceClaim::One(a) => AudienceClaim::One(a.clone()),
            AudienceClaim::Many(list) => AudienceClaim::Many(clone_list(list)),
        }
    }
}

/// What a token says.
#[derive(Debug)]
pub struct TokenClaims {
    pub subject: String,
    pub exp: usize,
    pub aud: Option<AudienceClaim>,
    pub groups: Option<Vec<String>>,
    pub name: Option<String>,
    pub preferred_username: Option<String>,
    pub email: Option<String>,
    pub scope: Option<String>,
    pub token_type: Option<String>,
    pub iat: Option<usize>,
    pub iss: Option<String>,
}

/// What a `TokenClaims` holds.
#[verifier::ext_equal]
pub struct TokenClaimsView {
    pub subject: Seq<char>,
    pub exp: usize,
    pub aud: Option<AudienceClaimView>,
    pub groups: Option<Seq<Seq<char>>>,
    pub name: Option<Seq<char>>,
    pub preferred_username: Option<Seq<char>>,
    pub email: Option<Seq<char>>,
    pub scope: Option<Seq<char>>,
    pub token_type: Option<Seq<char>>,
    pub iat: Option<usize>,
    pub iss: Option<Seq<char>>,
}

impl View for TokenClaims {
    type V = TokenClaimsView;

    open spec fn view(&self) -> TokenClaimsView {
        TokenClaimsView {
            subject: self.subject.deep_view(),
            exp: self.exp,
            aud: self.aud.deep_view(),
            groups: self.groups.deep_view(),
            name: self.name.deep_view(),
            preferred_username: self.preferred_username.deep_view(),
            email: self.email.deep_view(),
            scope: self.scope.deep_view(),
            token_type: self.token_type.deep_view(),
            iat: self.iat,
            iss: self.iss.deep_view(),
        }
    }
}

impl DeepView for TokenClaims {
    type V = TokenClaimsView;

    open spec fn deep_view(&self) -> TokenClaimsView {
        self@
    }
}

impl Clone for TokenClaims {
    fn clone(&self) -> (r: Self)
        ensures
            r@ == self@,
    {
        TokenClaims {
            subject: self.subject.clone(),
            exp: self.exp,
            aud: clone_option(&self.aud),
            groups: match &self.groups {
                Some(groups) => Some(clone_list(groups)),
                None => None,
            },
            name: clone_option(&self.name),
            preferred_username: clone_option(&self.preferred_username),
            email: clone_option(&self.email),
            scope: clone_option(&self.scope),
            token_type: clone_option(&self.token_type),
            iat: self.iat,
            iss: clone_option(&self.iss),
        }
    }
}

/// A text without white space around it, where anything is left of it.
pub open spec fn nonblank(value: Option<Seq<char>>) -> Option<Seq<char>> {
    match value {
        Some(text) if trimmed(text).len() > 0 => Some(trimmed(text)),
        _ => None,
    }
}

impl TokenClaims {
    /// A claim without white space around it, where anything is left of it.
    pub fn trimmed(value: &Option<String>) -> (r: Option<String>)
        ensures
            r.deep_view() == nonblank(value.deep_view()),
    {
        match value {
            Some(text) => {
                let t = trim(text);
                if t.as_str().unicode_len() > 0 {
                    Some(t)
                } else {
                    None
                }
            },
            None => None,
        }
    }

    /// The name to show.
    pub fn display_name(&self) -> (r: Option<String>)
        ensures
            r.deep_view() == nonblank(self@.name),
    {
        Self::trimmed(&self.name)
    }

    /// The name to log in with.
    pub fn username(&self) -> (r: Option<String>)
        ensures
            r.deep_view() == nonblank(self@.preferred_username),
    {
        Self::trimmed(&self.preferred_username)
    }

    /// The mail address.
    pub fn email(&self) -> (r: Option<String>)
        ensures
            r.deep_view() == nonblank(self@.email),
    {
        Self::trimmed(&self.email)
    }
}

} // verus!
