//! What may be shown of configured upstreams: everything but the credentials.
use crate::clones::{clone_list, clone_option};
use crate::store::metadata::types::{
    MirrorRule, MirrorRulePublic, MirrorRulePublicView, MirrorRuleView, OutboundProxy,
    OutboundProxyPublic, OutboundProxyPublicView, OutboundProxyView, ProxyCache, ProxyCachePublic,
    ProxyCachePublicView, ProxyCacheView,
};
use vstd::prelude::*;
use vstd::std_specs::convert::FromSpecImpl;

verus! {

/// Whether a credential is set to something.
pub open spec fn is_configured(value: Option<Seq<char>>) -> bool {
    value matches Some(v) && v.len() > 0
}

/// What may be shown of an outbound proxy.
pub open spec fn public_proxy(proxy: OutboundProxyView) -> OutboundProxyPublicView {
    OutboundProxyPublicView {
        protocol: proxy.protocol,
        url: proxy.url,
        username_configured: is_configured(proxy.username),
        password_configured: is_configured(proxy.password),
    }
}

/// What may be shown of a mirror rule.
pub open spec fn public_rule(rule: MirrorRuleView) -> MirrorRulePublicView {
    MirrorRulePublicView {
        id: rule.id,
        direction: rule.direction,
        local_prefix: rule.local_prefix,
        upstream_registry: rule.upstream_registry,
        upstream_prefix: rule.upstream_prefix,
        schedule: rule.schedule,
        strategy: rule.strategy,
        plain_http: rule.plain_http,
        insecure_tls: rule.insecure_tls,
        outbound_proxy: public_proxy(rule.outbound_proxy),
        username_configured: is_configured(rule.username),
        password_configured: is_configured(rule.password),
        created_at: rule.created_at,
    }
}

/// What may be shown of a proxy cache.
pub open spec fn public_cache(cache: ProxyCacheView) -> ProxyCachePublicView {
    ProxyCachePublicView {
        id: cache.id,
        local_prefix: cache.local_prefix,
        upstream_registry: cache.upstream_registry,
        upstream_prefix: cache.upstream_prefix,
        warm_filters: cache.warm_filters,
        warm_schedule: cache.warm_schedule,
        plain_http: cache.plain_http,
        insecure_tls: cache.insecure_tls,
        outbound_proxy: public_proxy(cache.outbound_proxy),
        username_configured: is_configured(cache.username),
        password_configured: is_configured(cache.password),
        created_at: cache.created_at,
    }
}

/// What is shown of a rule does not depend on what its credentials are, only
/// on whether they are set.
pub proof fn lemma_public_rule_hides_credentials(
    rule: MirrorRuleView,
    username: Option<Seq<char>>,
    password: Option<Seq<char>>,
    proxy_username: Option<Seq<char>>,
    proxy_password: Option<Seq<char>>,
)
    requires
        is_configured(username) == is_configured(rule.username),
        is_configured(password) == is_configured(rule.password),
        is_configured(proxy_username) == is_configured(rule.outbound_proxy.username),
        is_configured(proxy_password) == is_configured(rule.outbound_proxy.password),
    ensures
        public_rule(
            MirrorRuleView {
                username,
                password,
                outbound_proxy: OutboundProxyView {
                    username: proxy_username,
                    password: proxy_password,
                    ..rule.outbound_proxy
                },
                ..rule
            },
        ) == public_rule(rule),
{
}

/// What is shown of a cache does not depend on what its credentials are, only
/// on whether they are set.
pub proof fn lemma_public_cache_hides_credentials(
    cache: ProxyCacheView,
    username: Option<Seq<char>>,
    password: Option<Seq<char>>,
    proxy_username: Option<Seq<char>>,
    proxy_password: Option<Seq<char>>,
)
    requires
        is_configured(username) == is_configured(cache.username),
        is_configured(password) == is_configured(cache.password),
        is_configured(proxy_username) == is_configured(cache.outbound_proxy.username),
        is_configured(proxy_password) == is_configured(cache.outbound_proxy.password),
    ensures
        public_cache(
            ProxyCacheView {
                username,
                password,
                outbound_proxy: OutboundProxyView {
                    username: proxy_username,
                    password: proxy_password,
                    ..cache.outbound_proxy
                },
                ..cache
            },
        ) == public_cache(cache),
{
}

/// Whether a credential is set to something.
fn configured(value: &Option<String>) -> (r: bool)
    ensures
        r == is_configured(value.deep_view()),
{
    match value {
        Some(v) => !v.as_str().is_empty(),
        None => false,
    }
}

impl<'a> From<&'a OutboundProxy> for OutboundProxyPublic {
    fn from(proxy: &'a OutboundProxy) -> (r: Self)
        ensures
            r@ == public_proxy(proxy@),
    {
        OutboundProxyPublic {
            protocol: proxy.protocol,
            url: clone_option(&proxy.url),
            username_configured: configured(&proxy.username),
            password_configured: configured(&proxy.password),
        }
    }
}

impl<'a> FromSpecImpl<&'a OutboundProxy> for OutboundProxyPublic {
    open spec fn obeys_from_spec() -> bool {
        false
    }

    open spec fn from_spec(proxy: &'a OutboundProxy) -> Self {
        arbitrary()
    }
}

impl<'a> From<&'a MirrorRule> for MirrorRulePublic {
    fn from(rule: &'a MirrorRule) -> (r: Self)
        ensures
            r@ == public_rule(rule@),
    {
        MirrorRulePublic {
            id: rule.id.clone(),
            direction: rule.direction,
            local_prefix: rule.local_prefix.clone(),
            upstream_registry: rule.upstream_registry.clone(),
            upstream_prefix: clone_option(&rule.upstream_prefix),
            schedule: clone_option(&rule.schedule),
            strategy: rule.strategy.clone(),
            plain_http: rule.plain_http,
            insecure_tls: rule.insecure_tls,
            outbound_proxy: OutboundProxyPublic::from(&rule.outbound_proxy),
            username_configured: configured(&rule.username),
            password_configured: configured(&rule.password),
            created_at: rule.created_at,
        }
    }
}

impl<'a> FromSpecImpl<&'a MirrorRule> for MirrorRulePublic {
    open spec fn obeys_from_spec() -> bool {
        false
    }

    open spec fn from_spec(rule: &'a MirrorRule) -> Self {
        arbitrary()
    }
}

impl<'a> From<&'a ProxyCache> for ProxyCachePublic {
    fn from(cache: &'a ProxyCache) -> (r: Self)
        ensures
            r@ == public_cache(cache@),
    {
        ProxyCachePublic {
            id: cache.id.clone(),
            local_prefix: cache.local_prefix.clone(),
            upstream_registry: cache.upstream_registry.clone(),
            upstream_prefix: clone_option(&cache.upstream_prefix),
            warm_filters: clone_list(&cache.warm_filters),
            warm_schedule: clone_option(&cache.warm_schedule),
            plain_http: cache.plain_http,
            insecure_tls: cache.insecure_tls,
            outbound_proxy: OutboundProxyPublic::from(&cache.outbound_proxy),
            username_configured: configured(&cache.username),
            password_configured: configured(&cache.password),
            created_at: cache.created_at,
        }
    }
}

impl<'a> FromSpecImpl<&'a ProxyCache> for ProxyCachePublic {
    open spec fn obeys_from_spec() -> bool {
        false
    }

    open spec fn from_spec(cache: &'a ProxyCache) -> Self {
        arbitrary()
    }
}

} // verus!
