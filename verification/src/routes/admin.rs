//! What an administrator configures: mirror rules and proxy caches.
use super::paths::count_param;
use crate::error::{ErrorView, LayerhouseError};
use crate::store::metadata::public::{public_cache, public_rule};
use crate::store::metadata::types::{
    MirrorRule, MirrorRulePublic, MirrorRuleView, MirrorStrategy, MirrorStrategyView, OutboundProxy,
    OutboundProxyProtocol, OutboundProxyView, ProxyCache, ProxyCachePublic, ProxyCacheView,
    WarmFilter, WarmFilterView,
};
use crate::string_map::StringMap;
use crate::text::{
    chars_of, concat2, lemma_trimmed_twice, parse_u64, trim, trimmed,
};
use aioduct::ProxyConfig;
use vstd::prelude::*;

verus! {

// ── Proxies ──────────────────────────────────────────────────────────────

/// What `aioduct::ProxyConfig::http` has against an address, where it has
/// anything.
pub uninterp spec fn http_proxy_fault(url: Seq<char>) -> Option<Seq<char>>;

/// What `aioduct::ProxyConfig::socks4` has against an address, where it has
/// anything.
pub uninterp spec fn socks4_proxy_fault(url: Seq<char>) -> Option<Seq<char>>;

/// What `aioduct::ProxyConfig::socks5h` has against an address, where it has
/// anything.
pub uninterp spec fn socks5h_proxy_fault(url: Seq<char>) -> Option<Seq<char>>;

/// Calls `aioduct::ProxyConfig::http`, which reads the address of an HTTP proxy,
/// and keeps only the text of its error. The outcome depends on the address
/// alone.
#[verifier::external_body]
fn check_http_proxy(url: &str) -> (r: Option<String>)
    ensures
        r.deep_view() == http_proxy_fault(url@),
{
    match ProxyConfig::http(url) {
        Ok(_) => None,
        Err(e) => Some(e.to_string()),
    }
}

/// Calls `aioduct::ProxyConfig::socks4`, which reads the address of a SOCKS4
/// proxy, and keeps only the text of its error. The outcome depends on the
/// address alone.
#[verifier::external_body]
fn check_socks4_proxy(url: &str) -> (r: Option<String>)
    ensures
        r.deep_view() == socks4_proxy_fault(url@),
{
    match ProxyConfig::socks4(url) {
        Ok(_) => None,
        Err(e) => Some(e.to_string()),
    }
}

/// Calls `aioduct::ProxyConfig::socks5h`, which reads the address of a SOCKS5
/// proxy that resolves names, and keeps only the text of its error. The outcome
/// depends on the address alone.
#[verifier::external_body]
fn check_socks5h_proxy(url: &str) -> (r: Option<String>)
    ensures
        r.deep_view() == socks5h_proxy_fault(url@),
{
    match ProxyConfig::socks5h(url) {
        Ok(_) => None,
        Err(e) => Some(e.to_string()),
    }
}

/// A text without white space around it, where anything is left.
pub open spec fn not_blank(value: Option<Seq<char>>) -> Option<Seq<char>> {
    match value {
        Some(v) => if trimmed(v).len() > 0 {
            Some(trimmed(v))
        } else {
            None
        },
        None => None,
    }
}

/// Takes the white space around a text away. A blank text is as good as none.
pub fn normalize_optional(value: &mut Option<String>)
    ensures
        final(value).deep_view() == not_blank(old(value).deep_view()),
{
    if let Some(v) = value.take() {
        let text = trim(&v);
        if text.as_str().unicode_len() > 0 {
            *value = Some(text);
        }
    }
}

/// A proxy with its texts normalized. A direct connection has no proxy details.
pub open spec fn normalized_proxy(proxy: OutboundProxyView) -> OutboundProxyView {
    if proxy.protocol is Direct {
        OutboundProxyView { protocol: proxy.protocol, url: None, username: None, password: None }
    } else {
        OutboundProxyView {
            protocol: proxy.protocol,
            url: not_blank(proxy.url),
            username: not_blank(proxy.username),
            password: not_blank(proxy.password),
        }
    }
}

/// What the check of a proxy's address found, as an error. A missing address has
/// an error of its own.
pub open spec fn address_fault(
    url: Option<Seq<char>>,
    missing: Seq<char>,
    fault: spec_fn(Seq<char>) -> Option<Seq<char>>,
) -> Option<ErrorView> {
    match url {
        None => Some(ErrorView::NameInvalid(missing)),
        Some(u) => match fault(u) {
            Some(text) => Some(ErrorView::NameInvalid(text)),
            None => None,
        },
    }
}

/// What is wrong with a proxy whose texts are normalized.
pub open spec fn proxy_error(proxy: OutboundProxyView) -> Option<ErrorView> {
    match proxy.protocol {
        OutboundProxyProtocol::Direct => None,
        OutboundProxyProtocol::Http => address_fault(
            proxy.url,
            "outbound_proxy.url is required for HTTP proxy"@,
            |u: Seq<char>| http_proxy_fault(u),
        ),
        OutboundProxyProtocol::Socks4 => address_fault(
            proxy.url,
            "outbound_proxy.url is required for SOCKS4 proxy"@,
            |u: Seq<char>| socks4_proxy_fault(u),
        ),
        OutboundProxyProtocol::Socks5 => address_fault(
            proxy.url,
            "outbound_proxy.url is required for SOCKS5h proxy"@,
            |u: Seq<char>| socks5h_proxy_fault(u),
        ),
        OutboundProxyProtocol::Https => Some(
            ErrorView::NameInvalid(
                "HTTPS outbound proxy is deferred until aioduct exposes HTTPS proxy support"@,
            ),
        ),
    }
}

/// An outcome from the error that a check found.
pub open spec fn checked(r: Result<(), LayerhouseError>, error: Option<ErrorView>) -> bool {
    match r {
        Ok(_) => error is None,
        Err(e) => error == Some(e@),
    }
}

/// An outcome from what the check of an address found.
pub fn address_outcome(fault: Option<String>) -> (r: Result<(), LayerhouseError>)
    ensures
        match fault {
            Some(text) => r matches Err(e) && e@ == ErrorView::NameInvalid(text@),
            None => r is Ok,
        },
{
    match fault {
        Some(text) => Err(LayerhouseError::NameInvalid(text)),
        None => Ok(()),
    }
}

/// Normalizes a proxy and checks that it can be used.
pub fn validate_outbound_proxy(proxy: &mut OutboundProxy) -> (r: Result<(), LayerhouseError>)
    ensures
        final(proxy)@ == normalized_proxy(old(proxy)@),
        checked(r, proxy_error(normalized_proxy(old(proxy)@))),
{
    normalize_optional(&mut proxy.url);
    normalize_optional(&mut proxy.username);
    normalize_optional(&mut proxy.password);
    match proxy.protocol {
        OutboundProxyProtocol::Direct => {
            proxy.url = None;
            proxy.username = None;
            proxy.password = None;
            Ok(())
        },
        OutboundProxyProtocol::Http => match &proxy.url {
            None => Err(
                LayerhouseError::NameInvalid(
                    "outbound_proxy.url is required for HTTP proxy".to_string(),
                ),
            ),
            Some(url) => address_outcome(check_http_proxy(url)),
        },
        OutboundProxyProtocol::Socks4 => match &proxy.url {
            None => Err(
                LayerhouseError::NameInvalid(
                    "outbound_proxy.url is required for SOCKS4 proxy".to_string(),
                ),
            ),
            Some(url) => address_outcome(check_socks4_proxy(url)),
        },
        OutboundProxyProtocol::Socks5 => match &proxy.url {
            None => Err(
                LayerhouseError::NameInvalid(
                    "outbound_proxy.url is required for SOCKS5h proxy".to_string(),
                ),
            ),
            Some(url) => address_outcome(check_socks5h_proxy(url)),
        },
        OutboundProxyProtocol::Https => Err(
            LayerhouseError::NameInvalid(
                "HTTPS outbound proxy is deferred until aioduct exposes HTTPS proxy support".to_string(),
            ),
        ),
    }
}

// ── Checks ───────────────────────────────────────────────────────────────

/// What is wrong with a text that must not be blank.
pub open spec fn required_error(value: Seq<char>, field: Seq<char>) -> Option<ErrorView> {
    if trimmed(value).len() == 0 {
        Some(ErrorView::NameInvalid(field + " is required"@))
    } else {
        None
    }
}

/// Checks that a text is not blank.
pub fn required(value: &str, field: &str) -> (r: Result<(), LayerhouseError>)
    ensures
        checked(r, required_error(value@, field@)),
{
    if trim(value).as_str().unicode_len() == 0 {
        Err(LayerhouseError::NameInvalid(concat2(field, " is required")))
    } else {
        Ok(())
    }
}

/// What is wrong with a mirror strategy.
pub open spec fn strategy_error(strategy: MirrorStrategyView) -> Option<ErrorView> {
    match strategy {
        MirrorStrategyView::All => None,
        MirrorStrategyView::Latest { count } => if count > 0 {
            None
        } else {
            Some(ErrorView::NameInvalid("strategy.count must be greater than zero"@))
        },
        MirrorStrategyView::Pattern { pattern } => if trimmed(pattern).len() > 0 {
            None
        } else {
            Some(ErrorView::NameInvalid("strategy.pattern is required"@))
        },
    }
}

/// Checks a mirror strategy.
pub fn validate_strategy(strategy: &MirrorStrategy) -> (r: Result<(), LayerhouseError>)
    ensures
        checked(r, strategy_error(strategy@)),
{
    match strategy {
        MirrorStrategy::All => Ok(()),
        MirrorStrategy::Latest { count } => if *count > 0 {
            Ok(())
        } else {
            Err(
                LayerhouseError::NameInvalid("strategy.count must be greater than zero".to_string()),
            )
        },
        MirrorStrategy::Pattern { pattern } => if trim(pattern).as_str().unicode_len() > 0 {
            Ok(())
        } else {
            Err(LayerhouseError::NameInvalid("strategy.pattern is required".to_string()))
        },
    }
}

/// What is wrong with a single warm filter.
pub open spec fn warm_filter_error(filter: WarmFilterView) -> Option<ErrorView> {
    match filter {
        WarmFilterView::Never => None,
        WarmFilterView::All => None,
        WarmFilterView::Latest { count, .. } => if count > 0 {
            None
        } else {
            Some(ErrorView::NameInvalid("warm_filters.latest.count must be greater than zero"@))
        },
        WarmFilterView::Pattern { pattern } => if trimmed(pattern).len() > 0 {
            None
        } else {
            Some(ErrorView::NameInvalid("warm_filters.pattern is required"@))
        },
    }
}

/// What is wrong with the first bad one of some warm filters, from `from` on.
pub open spec fn first_filter_error(filters: Seq<WarmFilterView>, from: int) -> Option<ErrorView>
    decreases filters.len() - from,
{
    if from >= filters.len() {
        None
    } else if warm_filter_error(filters[from]) is Some {
        warm_filter_error(filters[from])
    } else {
        first_filter_error(filters, from + 1)
    }
}

/// What is wrong with the warm filters of a proxy cache. A filter that never
/// warms goes with no other.
pub open spec fn warm_filters_error(filters: Seq<WarmFilterView>) -> Option<ErrorView> {
    if filters.contains(WarmFilterView::Never) && filters.len() > 1 {
        Some(ErrorView::NameInvalid("warm_filters.none is exclusive"@))
    } else {
        first_filter_error(filters, 0)
    }
}

/// Whether a list of filters has one that never warms.
fn holds_never(filters: &Vec<WarmFilter>) -> (r: bool)
    ensures
        r == filters.deep_view().contains(WarmFilterView::Never),
{
    let ghost all = filters.deep_view();
    let mut i: usize = 0;
    while i < filters.len()
        invariant
            all == filters.deep_view(),
            i <= filters@.len(),
            forall|j: int| 0 <= j < i ==> #[trigger] all[j] != WarmFilterView::Never,
        decreases filters@.len() - i,
    {
        assert(all[i as int] == filters@[i as int]@);
        if let WarmFilter::Never = &filters[i] {
            return true;
        }
        i = i + 1;
    }
    false
}

/// Checks a single warm filter.
fn validate_warm_filter(filter: &WarmFilter) -> (r: Result<(), LayerhouseError>)
    ensures
        checked(r, warm_filter_error(filter@)),
{
    match filter {
        WarmFilter::Never => Ok(()),
        WarmFilter::All => Ok(()),
        WarmFilter::Latest { count, .. } => if *count > 0 {
            Ok(())
        } else {
            Err(
                LayerhouseError::NameInvalid(
                    "warm_filters.latest.count must be greater than zero".to_string(),
                ),
            )
        },
        WarmFilter::Pattern { pattern } => if trim(pattern).as_str().unicode_len() > 0 {
            Ok(())
        } else {
            Err(LayerhouseError::NameInvalid("warm_filters.pattern is required".to_string()))
        },
    }
}

/// Checks the warm filters of a proxy cache.
pub fn validate_warm_filters(filters: &Vec<WarmFilter>) -> (r: Result<(), LayerhouseError>)
    ensures
        checked(r, warm_filters_error(filters.deep_view())),
{
    if holds_never(filters) && filters.len() > 1 {
        return Err(LayerhouseError::NameInvalid("warm_filters.none is exclusive".to_string()));
    }
    let ghost all = filters.deep_view();
    let mut i: usize = 0;
    while i < filters.len()
        invariant
            all == filters.deep_view(),
            i <= filters@.len(),
            warm_filters_error(all) == first_filter_error(all, i as int),
        decreases filters@.len() - i,
    {
        assert(all[i as int] == filters@[i as int]@);
        if let Err(e) = validate_warm_filter(&filters[i]) {
            return Err(e);
        }
        i = i + 1;
    }
    Ok(())
}

/// What is wrong with where a rule or a cache lies and how it reaches its
/// upstream.
pub open spec fn place_error(
    id: Seq<char>,
    local_prefix: Seq<char>,
    upstream_registry: Seq<char>,
    plain_http: bool,
    insecure_tls: bool,
) -> Option<ErrorView> {
    if required_error(id, "id"@) is Some {
        required_error(id, "id"@)
    } else if required_error(local_prefix, "local_prefix"@) is Some {
        required_error(local_prefix, "local_prefix"@)
    } else if required_error(upstream_registry, "upstream_registry"@) is Some {
        required_error(upstream_registry, "upstream_registry"@)
    } else if plain_http && insecure_tls {
        Some(ErrorView::NameInvalid("plain_http and insecure_tls are mutually exclusive"@))
    } else {
        None
    }
}

/// Checks where a rule or a cache lies and how it reaches its upstream.
fn validate_place(
    id: &str,
    local_prefix: &str,
    upstream_registry: &str,
    plain_http: bool,
    insecure_tls: bool,
) -> (r: Result<(), LayerhouseError>)
    ensures
        checked(r, place_error(id@, local_prefix@, upstream_registry@, plain_http, insecure_tls)),
{
    if let Err(e) = required(id, "id") {
        return Err(e);
    }
    if let Err(e) = required(local_prefix, "local_prefix") {
        return Err(e);
    }
    if let Err(e) = required(upstream_registry, "upstream_registry") {
        return Err(e);
    }
    if plain_http && insecure_tls {
        return Err(
            LayerhouseError::NameInvalid(
                "plain_http and insecure_tls are mutually exclusive".to_string(),
            ),
        );
    }
    Ok(())
}

// ── Mirror rules ─────────────────────────────────────────────────────────

/// What is wrong with where a mirror rule lies.
pub open spec fn rule_place_error(rule: MirrorRuleView) -> Option<ErrorView> {
    place_error(
        rule.id,
        rule.local_prefix,
        rule.upstream_registry,
        rule.plain_http,
        rule.insecure_tls,
    )
}

/// A mirror rule with its optional texts normalized, those of its proxy aside.
pub open spec fn rule_with_texts(rule: MirrorRuleView) -> MirrorRuleView {
    MirrorRuleView {
        upstream_prefix: not_blank(rule.upstream_prefix),
        schedule: not_blank(rule.schedule),
        username: not_blank(rule.username),
        password: not_blank(rule.password),
        ..rule
    }
}

/// A mirror rule with all its optional texts normalized.
pub open spec fn normalized_rule(rule: MirrorRuleView) -> MirrorRuleView {
    MirrorRuleView {
        outbound_proxy: normalized_proxy(rule.outbound_proxy),
        ..rule_with_texts(rule)
    }
}

/// What is wrong with a mirror rule.
pub open spec fn mirror_rule_error(rule: MirrorRuleView) -> Option<ErrorView> {
    if rule_place_error(rule) is Some {
        rule_place_error(rule)
    } else if strategy_error(rule.strategy) is Some {
        strategy_error(rule.strategy)
    } else {
        proxy_error(normalized_proxy(rule.outbound_proxy))
    }
}

/// Normalizes a mirror rule and checks it. What stands behind the first fault is
/// left as it was.
pub fn validate_mirror_rule(rule: &mut MirrorRule) -> (r: Result<(), LayerhouseError>)
    ensures
        checked(r, mirror_rule_error(old(rule)@)),
        final(rule)@ == if rule_place_error(old(rule)@) is Some {
            old(rule)@
        } else if strategy_error(old(rule)@.strategy) is Some {
            rule_with_texts(old(rule)@)
        } else {
            normalized_rule(old(rule)@)
        },
{
    if let Err(e) = validate_place(
        &rule.id,
        &rule.local_prefix,
        &rule.upstream_registry,
        rule.plain_http,
        rule.insecure_tls,
    ) {
        return Err(e);
    }
    normalize_optional(&mut rule.upstream_prefix);
    normalize_optional(&mut rule.schedule);
    normalize_optional(&mut rule.username);
    normalize_optional(&mut rule.password);
    if let Err(e) = validate_strategy(&rule.strategy) {
        return Err(e);
    }
    validate_outbound_proxy(&mut rule.outbound_proxy)
}

/// The mirror rule that a request puts under an id, stamped with the time where
/// it has none.
pub fn put_rule(id: String, rule: MirrorRule, now: u64) -> (r: Result<MirrorRule, LayerhouseError>)
    ensures
        ({
            let asked = MirrorRuleView { id: id@, ..rule@ };
            match r {
                Ok(put) => mirror_rule_error(asked) is None && put@ == (MirrorRuleView {
                    created_at: if rule@.created_at == 0 {
                        now
                    } else {
                        rule@.created_at
                    },
                    ..normalized_rule(asked)
                }),
                Err(e) => mirror_rule_error(asked) == Some(e@),
            }
        }),
{
    let mut put = rule;
    put.id = id;
    if let Err(e) = validate_mirror_rule(&mut put) {
        return Err(e);
    }
    if put.created_at == 0 {
        put.created_at = now;
    }
    Ok(put)
}

// ── Proxy caches ─────────────────────────────────────────────────────────

/// What is wrong with where a proxy cache lies.
pub open spec fn cache_place_error(cache: ProxyCacheView) -> Option<ErrorView> {
    place_error(
        cache.id,
        cache.local_prefix,
        cache.upstream_registry,
        cache.plain_http,
        cache.insecure_tls,
    )
}

/// A proxy cache with its optional texts normalized, those of its proxy aside.
pub open spec fn cache_with_texts(cache: ProxyCacheView) -> ProxyCacheView {
    ProxyCacheView {
        upstream_prefix: not_blank(cache.upstream_prefix),
        warm_schedule: not_blank(cache.warm_schedule),
        username: not_blank(cache.username),
        password: not_blank(cache.password),
        ..cache
    }
}

/// A proxy cache with all its optional texts normalized.
pub open spec fn normalized_cache(cache: ProxyCacheView) -> ProxyCacheView {
    ProxyCacheView {
        outbound_proxy: normalized_proxy(cache.outbound_proxy),
        ..cache_with_texts(cache)
    }
}

/// What is wrong with a proxy cache.
pub open spec fn proxy_cache_error(cache: ProxyCacheView) -> Option<ErrorView> {
    if cache_place_error(cache) is Some {
        cache_place_error(cache)
    } else if warm_filters_error(cache.warm_filters) is Some {
        warm_filters_error(cache.warm_filters)
    } else {
        proxy_error(normalized_proxy(cache.outbound_proxy))
    }
}

/// Normalizes a proxy cache and checks it. What stands behind the first fault is
/// left as it was.
pub fn validate_proxy_cache(cache: &mut ProxyCache) -> (r: Result<(), LayerhouseError>)
    ensures
        checked(r, proxy_cache_error(old(cache)@)),
        final(cache)@ == if cache_place_error(old(cache)@) is Some {
            old(cache)@
        } else if warm_filters_error(old(cache)@.warm_filters) is Some {
            cache_with_texts(old(cache)@)
        } else {
            normalized_cache(old(cache)@)
        },
{
    if let Err(e) = validate_place(
        &cache.id,
        &cache.local_prefix,
        &cache.upstream_registry,
        cache.plain_http,
        cache.insecure_tls,
    ) {
        return Err(e);
    }
    normalize_optional(&mut cache.upstream_prefix);
    normalize_optional(&mut cache.warm_schedule);
    normalize_optional(&mut cache.username);
    normalize_optional(&mut cache.password);
    if let Err(e) = validate_warm_filters(&cache.warm_filters) {
        return Err(e);
    }
    validate_outbound_proxy(&mut cache.outbound_proxy)
}

/// The proxy cache that a request puts under an id, stamped with the time where
/// it has none.
pub fn put_proxy_cache(id: String, cache: ProxyCache, now: u64) -> (r: Result<
    ProxyCache,
    LayerhouseError,
>)
    ensures
        ({
            let asked = ProxyCacheView { id: id@, ..cache@ };
            match r {
                Ok(put) => proxy_cache_error(asked) is None && put@ == (ProxyCacheView {
                    created_at: if cache@.created_at == 0 {
                        now
                    } else {
                        cache@.created_at
                    },
                    ..normalized_cache(asked)
                }),
                Err(e) => proxy_cache_error(asked) == Some(e@),
            }
        }),
{
    let mut put = cache;
    put.id = id;
    if let Err(e) = validate_proxy_cache(&mut put) {
        return Err(e);
    }
    if put.created_at == 0 {
        put.created_at = now;
    }
    Ok(put)
}

// ── Laws ─────────────────────────────────────────────────────────────────

/// A text normalized once stays as it is.
pub proof fn lemma_not_blank_twice(value: Option<Seq<char>>)
    ensures
        not_blank(not_blank(value)) == not_blank(value),
{
    if let Some(v) = value {
        lemma_trimmed_twice(v);
    }
}

/// A proxy normalized once stays as it is.
pub proof fn lemma_proxy_normalized_twice(proxy: OutboundProxyView)
    ensures
        normalized_proxy(normalized_proxy(proxy)) == normalized_proxy(proxy),
{
    lemma_not_blank_twice(proxy.url);
    lemma_not_blank_twice(proxy.username);
    lemma_not_blank_twice(proxy.password);
}

/// A mirror rule that was accepted is accepted again, and stays as it is.
pub proof fn lemma_rule_accepted_twice(rule: MirrorRuleView)
    requires
        mirror_rule_error(rule) is None,
    ensures
        mirror_rule_error(normalized_rule(rule)) is None,
        normalized_rule(normalized_rule(rule)) == normalized_rule(rule),
{
    lemma_not_blank_twice(rule.upstream_prefix);
    lemma_not_blank_twice(rule.schedule);
    lemma_not_blank_twice(rule.username);
    lemma_not_blank_twice(rule.password);
    lemma_proxy_normalized_twice(rule.outbound_proxy);
}

/// A proxy cache that was accepted is accepted again, and stays as it is.
pub proof fn lemma_cache_accepted_twice(cache: ProxyCacheView)
    requires
        proxy_cache_error(cache) is None,
    ensures
        proxy_cache_error(normalized_cache(cache)) is None,
        normalized_cache(normalized_cache(cache)) == normalized_cache(cache),
{
    lemma_not_blank_twice(cache.upstream_prefix);
    lemma_not_blank_twice(cache.warm_schedule);
    lemma_not_blank_twice(cache.username);
    lemma_not_blank_twice(cache.password);
    lemma_proxy_normalized_twice(cache.outbound_proxy);
}

// ── Answers ──────────────────────────────────────────────────────────────

/// A mirror rule as a request gets to see it.
pub enum ShownRule {
    Whole(MirrorRule),
    Public(MirrorRulePublic),
}

/// A mirror rule as a request gets to see it: without its secrets unless the
/// request asks for them.
pub fn shown_rule(rule: MirrorRule, include_secrets: Option<bool>) -> (r: ShownRule)
    ensures
        match r {
            ShownRule::Whole(whole) => include_secrets == Some(true) && whole == rule,
            ShownRule::Public(public) => include_secrets != Some(true) && public@ == public_rule(
                rule@,
            ),
        },
{
    match include_secrets {
        Some(true) => ShownRule::Whole(rule),
        _ => ShownRule::Public(MirrorRulePublic::from(&rule)),
    }
}

/// Mirror rules as a request gets to see them: without their secrets unless the
/// request asks for them.
pub fn shown_rules(rules: Vec<MirrorRule>, include_secrets: Option<bool>) -> (r: Vec<ShownRule>)
    ensures
        r@.len() == rules@.len(),
        forall|i: int|
            0 <= i < rules@.len() ==> match #[trigger] r@[i] {
                ShownRule::Whole(whole) => include_secrets == Some(true) && whole@ == rules@[i]@,
                ShownRule::Public(public) => include_secrets != Some(true) && public@
                    == public_rule(rules@[i]@),
            },
{
    let mut shown: Vec<ShownRule> = Vec::new();
    let mut i: usize = 0;
    while i < rules.len()
        invariant
            i <= rules@.len(),
            shown@.len() == i,
            forall|j: int|
                0 <= j < i ==> match #[trigger] shown@[j] {
                    ShownRule::Whole(whole) => include_secrets == Some(true) && whole@
                        == rules@[j]@,
                    ShownRule::Public(public) => include_secrets != Some(true) && public@
                        == public_rule(rules@[j]@),
                },
        decreases rules@.len() - i,
    {
        shown.push(shown_rule(rules[i].clone(), include_secrets));
        i = i + 1;
    }
    shown
}

/// Proxy caches without their secrets.
pub fn shown_caches(caches: &Vec<ProxyCache>) -> (r: Vec<ProxyCachePublic>)
    ensures
        r.deep_view() == caches.deep_view().map_values(|c: ProxyCacheView| public_cache(c)),
{
    let mut shown: Vec<ProxyCachePublic> = Vec::new();
    let mut i: usize = 0;
    while i < caches.len()
        invariant
            i <= caches@.len(),
            shown@.len() == i,
            forall|j: int| 0 <= j < i ==> (#[trigger] shown@[j])@ == public_cache(caches@[j]@),
        decreases caches@.len() - i,
    {
        shown.push(ProxyCachePublic::from(&caches[i]));
        i = i + 1;
    }
    assert(shown.deep_view() =~= caches.deep_view().map_values(|c: ProxyCacheView| public_cache(c)));
    shown
}

/// What is stored under an id. What is not there has an unknown name.
pub fn known<T>(value: Option<T>, id: &str) -> (r: Result<T, LayerhouseError>)
    ensures
        match value {
            Some(v) => r == Ok::<T, LayerhouseError>(v),
            None => r matches Err(e) && e@ == ErrorView::NameUnknown(id@),
        },
{
    match value {
        Some(v) => Ok(v),
        None => Err(LayerhouseError::NameUnknown(id.to_string())),
    }
}

/// How many runs of a job are listed where the request does not say.
pub const DEFAULT_RUNS: usize = 20;

/// How many runs of a job are listed.
pub fn run_limit(params: &StringMap<String>) -> (r: usize)
    ensures
        r == if params@.dom().contains("limit"@) {
            match count_param(params@["limit"@]) {
                Some(n) => n,
                None => DEFAULT_RUNS,
            }
        } else {
            DEFAULT_RUNS
        },
{
    match params.get("limit") {
        Some(value) => {
            let chars = chars_of(value);
            assert(chars@.subrange(0, chars@.len() as int) =~= value@);
            match parse_u64(&chars, 0, chars.len()) {
                Some(n) => if n <= usize::MAX as u64 {
                    n as usize
                } else {
                    DEFAULT_RUNS
                },
                None => DEFAULT_RUNS,
            }
        },
        None => DEFAULT_RUNS,
    }
}

} // verus!
