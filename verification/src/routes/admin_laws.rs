//! What an administrator may configure and gets to see, told by what was asked for.
use super::admin::{
    address_outcome, first_filter_error, http_proxy_fault, known, normalized_proxy, place_error,
    proxy_error, put_proxy_cache, put_rule, required, run_limit, shown_caches, shown_rule,
    socks4_proxy_fault, socks5h_proxy_fault, validate_strategy, validate_warm_filters,
    warm_filter_error, warm_filters_error, ShownRule,
};
use crate::error::{ErrorView, LayerhouseError};
use crate::store::metadata::types::{
    MirrorRule, MirrorRuleView, MirrorStrategy, OutboundProxyProtocol, OutboundProxyPublicView,
    OutboundProxyView, ProxyCache, ProxyCachePublic, ProxyCacheView, WarmFilter, WarmFilterView,
};
use crate::string_map::StringMap;
use crate::text::{decimal_text, lemma_decimal_is_read_back, trimmed};
use vstd::prelude::*;

verus! {

// ── Checks ───────────────────────────────────────────────────────────────

/// A required text must not be blank.
pub proof fn lemma_required_texts(value: &str, field: &str, r: Result<(), LayerhouseError>)
    requires
        call_ensures(required, (value, field), r),
    ensures
        r is Ok <==> trimmed(value@).len() > 0,
        r matches Err(e) ==> (e matches LayerhouseError::NameInvalid(t) && t@ == field@
            + " is required"@),
{
}

/// A strategy that mirrors the latest tags must mirror some, and one that mirrors by a
/// pattern must have one.
pub proof fn lemma_strategies(strategy: &MirrorStrategy, r: Result<(), LayerhouseError>)
    requires
        call_ensures(validate_strategy, (strategy,), r),
    ensures
        r is Ok <==> match strategy {
            MirrorStrategy::All => true,
            MirrorStrategy::Latest { count } => *count > 0,
            MirrorStrategy::Pattern { pattern } => trimmed(pattern@).len() > 0,
        },
        r matches Err(e) ==> e is NameInvalid,
{
}

/// Whether a filter can be used.
pub open spec fn is_usable(filter: WarmFilterView) -> bool {
    match filter {
        WarmFilterView::Never => true,
        WarmFilterView::All => true,
        WarmFilterView::Latest { count, .. } => count > 0,
        WarmFilterView::Pattern { pattern } => trimmed(pattern).len() > 0,
    }
}

/// Whether filters can be used together: each can be used, and one that never warms stands
/// alone.
pub open spec fn are_usable(filters: Seq<WarmFilterView>) -> bool {
    &&& forall|i: int| 0 <= i < filters.len() ==> is_usable(#[trigger] filters[i])
    &&& (exists|i: int| 0 <= i < filters.len() && (#[trigger] filters[i]) is Never)
        ==> filters.len() == 1
}

proof fn lemma_first_filter_error(filters: Seq<WarmFilterView>, from: int)
    requires
        0 <= from <= filters.len(),
    ensures
        first_filter_error(filters, from) is None <==> forall|i: int|
            from <= i < filters.len() ==> is_usable(#[trigger] filters[i]),
    decreases filters.len() - from,
{
    if from < filters.len() {
        assert(warm_filter_error(filters[from]) is None <==> is_usable(filters[from]));
        lemma_first_filter_error(filters, from + 1);
    }
}

proof fn lemma_filters_error(filters: Seq<WarmFilterView>)
    ensures
        warm_filters_error(filters) is None <==> are_usable(filters),
{
    lemma_first_filter_error(filters, 0);
    if filters.contains(WarmFilterView::Never) {
        let i = choose|i: int| 0 <= i < filters.len() && filters[i] == WarmFilterView::Never;
        assert(filters[i] is Never);
    }
    if exists|i: int| 0 <= i < filters.len() && (#[trigger] filters[i]) is Never {
        let i = choose|i: int| 0 <= i < filters.len() && (#[trigger] filters[i]) is Never;
        assert(filters[i] == WarmFilterView::Never);
        assert(filters.contains(WarmFilterView::Never));
    }
}

/// Filters are accepted exactly where they can be used together.
pub proof fn lemma_warm_filters(filters: &Vec<WarmFilter>, r: Result<(), LayerhouseError>)
    requires
        call_ensures(validate_warm_filters, (filters,), r),
    ensures
        r is Ok <==> are_usable(filters.deep_view()),
        r matches Err(e) ==> e is NameInvalid,
{
    lemma_filters_error(filters.deep_view());
    lemma_filter_errors_are_invalid(filters.deep_view(), 0);
}

proof fn lemma_filter_errors_are_invalid(filters: Seq<WarmFilterView>, from: int)
    requires
        0 <= from <= filters.len(),
    ensures
        first_filter_error(filters, from) matches Some(e) ==> e is NameInvalid,
    decreases filters.len() - from,
{
    if from < filters.len() {
        lemma_filter_errors_are_invalid(filters, from + 1);
    }
}

/// What an outside check has against an address is the error; an address without fault is
/// accepted.
pub proof fn lemma_addresses(fault: Option<String>, r: Result<(), LayerhouseError>)
    requires
        call_ensures(address_outcome, (fault,), r),
    ensures
        r is Ok <==> fault is None,
        r matches Err(e) ==> (e matches LayerhouseError::NameInvalid(t) && t@ == fault->0@),
{
}

// ── Rules and caches ─────────────────────────────────────────────────────

/// Whether a proxy can be used: a direct connection needs nothing, any other needs an
/// address that is not blank and without fault, and one over HTTPS cannot be used yet.
pub open spec fn proxy_is_usable(proxy: OutboundProxyView) -> bool {
    let named = proxy.url matches Some(u) && trimmed(u).len() > 0;
    let url = trimmed(proxy.url->0);
    match proxy.protocol {
        OutboundProxyProtocol::Direct => true,
        OutboundProxyProtocol::Http => named && http_proxy_fault(url) is None,
        OutboundProxyProtocol::Socks4 => named && socks4_proxy_fault(url) is None,
        OutboundProxyProtocol::Socks5 => named && socks5h_proxy_fault(url) is None,
        OutboundProxyProtocol::Https => false,
    }
}

/// Whether a text is stored as it was given: without white space around it, and not at all
/// where nothing is left.
pub open spec fn is_tidied(given: Option<Seq<char>>, stored: Option<Seq<char>>) -> bool {
    match given {
        Some(t) => if trimmed(t).len() > 0 {
            stored == Some(trimmed(t))
        } else {
            stored is None
        },
        None => stored is None,
    }
}

/// Whether a proxy is stored as it was given. A direct connection keeps no details.
pub open spec fn proxy_is_tidied(given: OutboundProxyView, stored: OutboundProxyView) -> bool {
    &&& stored.protocol == given.protocol
    &&& given.protocol is Direct ==> stored.url is None && stored.username is None
        && stored.password is None
    &&& !(given.protocol is Direct) ==> is_tidied(given.url, stored.url) && is_tidied(
        given.username,
        stored.username,
    ) && is_tidied(given.password, stored.password)
}

/// A mirror rule is accepted exactly where it has an id, a place and an upstream, does not
/// ask for plain HTTP and for insecure TLS at once, and its strategy and proxy can be used.
/// It is stored under the id, with the time where it has none, and else as it was given.
pub proof fn lemma_accepted_rules(
    id: String,
    rule: MirrorRule,
    now: u64,
    strategy: Result<(), LayerhouseError>,
    r: Result<MirrorRule, LayerhouseError>,
)
    requires
        call_ensures(put_rule, (id, rule, now), r),
        call_ensures(validate_strategy, (&rule.strategy,), strategy),
    ensures
        r is Ok <==> {
            &&& trimmed(id@).len() > 0
            &&& trimmed(rule.local_prefix@).len() > 0
            &&& trimmed(rule.upstream_registry@).len() > 0
            &&& !(rule.plain_http && rule.insecure_tls)
            &&& strategy is Ok
            &&& proxy_is_usable(rule.outbound_proxy@)
        },
        r matches Ok(put) ==> {
            &&& put.id@ == id@
            &&& put.direction == rule.direction
            &&& put.local_prefix@ == rule.local_prefix@
            &&& put.upstream_registry@ == rule.upstream_registry@
            &&& put.strategy@ == rule.strategy@
            &&& put.plain_http == rule.plain_http && put.insecure_tls == rule.insecure_tls
            &&& rule.created_at == 0 ==> put.created_at == now
            &&& rule.created_at != 0 ==> put.created_at == rule.created_at
            &&& is_tidied(rule.upstream_prefix.deep_view(), put.upstream_prefix.deep_view())
            &&& is_tidied(rule.schedule.deep_view(), put.schedule.deep_view())
            &&& is_tidied(rule.username.deep_view(), put.username.deep_view())
            &&& is_tidied(rule.password.deep_view(), put.password.deep_view())
            &&& proxy_is_tidied(rule.outbound_proxy@, put.outbound_proxy@)
        },
{
    let asked = MirrorRuleView { id: id@, ..rule@ };
    lemma_proxy_error(asked.outbound_proxy);
    if let Ok(put) = r {
        assert(put@.outbound_proxy == put.outbound_proxy@);
    }
}

proof fn lemma_proxy_error(proxy: OutboundProxyView)
    ensures
        proxy_error(normalized_proxy(proxy)) is None
            <==> proxy_is_usable(proxy),
        proxy_is_tidied(proxy, normalized_proxy(proxy)),
{
}

/// A proxy cache is accepted exactly where it has an id, a place and an upstream, does not
/// ask for plain HTTP and for insecure TLS at once, and its filters and proxy can be used.
/// It is stored under the id, with the time where it has none, and else as it was given.
pub proof fn lemma_accepted_caches(
    id: String,
    cache: ProxyCache,
    now: u64,
    r: Result<ProxyCache, LayerhouseError>,
)
    requires
        call_ensures(put_proxy_cache, (id, cache, now), r),
    ensures
        r is Ok <==> {
            &&& trimmed(id@).len() > 0
            &&& trimmed(cache.local_prefix@).len() > 0
            &&& trimmed(cache.upstream_registry@).len() > 0
            &&& !(cache.plain_http && cache.insecure_tls)
            &&& are_usable(cache.warm_filters.deep_view())
            &&& proxy_is_usable(cache.outbound_proxy@)
        },
        r matches Ok(put) ==> {
            &&& put.id@ == id@
            &&& put.local_prefix@ == cache.local_prefix@
            &&& put.upstream_registry@ == cache.upstream_registry@
            &&& put.warm_filters.deep_view() == cache.warm_filters.deep_view()
            &&& put.plain_http == cache.plain_http && put.insecure_tls == cache.insecure_tls
            &&& cache.created_at == 0 ==> put.created_at == now
            &&& cache.created_at != 0 ==> put.created_at == cache.created_at
            &&& is_tidied(cache.upstream_prefix.deep_view(), put.upstream_prefix.deep_view())
            &&& is_tidied(cache.warm_schedule.deep_view(), put.warm_schedule.deep_view())
            &&& is_tidied(cache.username.deep_view(), put.username.deep_view())
            &&& is_tidied(cache.password.deep_view(), put.password.deep_view())
            &&& proxy_is_tidied(cache.outbound_proxy@, put.outbound_proxy@)
        },
{
    let asked = ProxyCacheView { id: id@, ..cache@ };
    lemma_proxy_error(asked.outbound_proxy);
    lemma_filters_error(asked.warm_filters);
    if let Ok(put) = r {
        assert(put@.outbound_proxy == put.outbound_proxy@);
        assert(put@.warm_filters == put.warm_filters.deep_view());
    }
}

// ── Answers ──────────────────────────────────────────────────────────────

/// Whether a proxy is shown without its credentials.
pub open spec fn proxy_is_shown(proxy: OutboundProxyView, shown: OutboundProxyPublicView) -> bool {
    &&& shown.protocol == proxy.protocol
    &&& shown.url == proxy.url
    &&& shown.username_configured <==> is_set(proxy.username)
    &&& shown.password_configured <==> is_set(proxy.password)
}

/// Whether a credential is set to something.
pub open spec fn is_set(value: Option<Seq<char>>) -> bool {
    value is Some && value->0.len() > 0
}

/// A rule is shown as a whole only where its secrets are asked for. Else all of it is shown
/// but its credentials, of which only whether they are set.
pub proof fn lemma_shown_rules(rule: MirrorRule, include_secrets: Option<bool>, r: ShownRule)
    requires
        call_ensures(shown_rule, (rule, include_secrets), r),
    ensures
        r is Whole <==> include_secrets == Some(true),
        r matches ShownRule::Whole(whole) ==> whole == rule,
        r matches ShownRule::Public(shown) ==> {
            &&& shown.id@ == rule.id@
            &&& shown.direction == rule.direction
            &&& shown.local_prefix@ == rule.local_prefix@
            &&& shown.upstream_registry@ == rule.upstream_registry@
            &&& shown.upstream_prefix.deep_view() == rule.upstream_prefix.deep_view()
            &&& shown.schedule.deep_view() == rule.schedule.deep_view()
            &&& shown.strategy@ == rule.strategy@
            &&& shown.plain_http == rule.plain_http && shown.insecure_tls == rule.insecure_tls
            &&& shown.created_at == rule.created_at
            &&& shown.username_configured <==> is_set(rule.username.deep_view())
            &&& shown.password_configured <==> is_set(rule.password.deep_view())
            &&& proxy_is_shown(rule.outbound_proxy@, shown.outbound_proxy@)
        },
{
    if let ShownRule::Public(shown) = r {
        assert(shown@.outbound_proxy == shown.outbound_proxy@);
    }
}

/// Every cache is shown, in order, all of it but its credentials, of which only whether
/// they are set.
pub proof fn lemma_shown_caches(caches: &Vec<ProxyCache>, r: Vec<ProxyCachePublic>, i: int)
    requires
        call_ensures(shown_caches, (caches,), r),
    ensures
        r@.len() == caches@.len(),
        0 <= i < caches@.len() ==> {
            let cache = caches@[i];
            let shown = r@[i];
            &&& shown.id@ == cache.id@
            &&& shown.local_prefix@ == cache.local_prefix@
            &&& shown.upstream_registry@ == cache.upstream_registry@
            &&& shown.upstream_prefix.deep_view() == cache.upstream_prefix.deep_view()
            &&& shown.warm_filters.deep_view() == cache.warm_filters.deep_view()
            &&& shown.warm_schedule.deep_view() == cache.warm_schedule.deep_view()
            &&& shown.plain_http == cache.plain_http && shown.insecure_tls == cache.insecure_tls
            &&& shown.created_at == cache.created_at
            &&& shown.username_configured <==> is_set(cache.username.deep_view())
            &&& shown.password_configured <==> is_set(cache.password.deep_view())
            &&& proxy_is_shown(cache.outbound_proxy@, shown.outbound_proxy@)
        },
{
    assert(r.deep_view().len() == r@.len());
    assert(caches.deep_view().len() == caches@.len());
    if 0 <= i < caches@.len() {
        assert(r.deep_view()[i] == r@[i]@);
        assert(caches.deep_view()[i] == caches@[i]@);
        assert(r@[i]@.outbound_proxy == r@[i].outbound_proxy@);
    }
}

/// What is there is answered, and what is not has an unknown name.
pub proof fn lemma_known<T>(value: Option<T>, id: &str, r: Result<T, LayerhouseError>)
    requires
        call_ensures(known::<T>, (value, id), r),
    ensures
        r is Ok <==> value is Some,
        r matches Ok(v) ==> value == Some(v),
        r matches Err(e) ==> (e matches LayerhouseError::NameUnknown(t) && t@ == id@),
{
}

/// As many runs are listed as asked for, and twenty where the request does not say.
pub proof fn lemma_how_many_runs_are_listed(params: &StringMap<String>, n: usize, r: usize)
    requires
        call_ensures(run_limit, (params,), r),
    ensures
        !params@.dom().contains("limit"@) ==> r == 20,
        params@.dom().contains("limit"@) && params@["limit"@] == decimal_text(n as nat) ==> r == n,
{
    lemma_decimal_is_read_back(n as u64);
}

/// A rule or a cache has an id, a place and an upstream, none of them blank, and does not ask
/// for plain and for unchecked connections at once; the first of these that is amiss is
/// told.
pub proof fn lemma_places(
    id: Seq<char>,
    local_prefix: Seq<char>,
    upstream: Seq<char>,
    plain: bool,
    insecure: bool,
)
    ensures
        ({
            let e = place_error(id, local_prefix, upstream, plain, insecure);
            let a = trimmed(id).len() > 0;
            let b = trimmed(local_prefix).len() > 0;
            let c = trimmed(upstream).len() > 0;
            &&& e is None <==> a && b && c && !(plain && insecure)
            &&& !a ==> e == Some(ErrorView::NameInvalid("id is required"@))
            &&& a && !b ==> e == Some(ErrorView::NameInvalid("local_prefix is required"@))
            &&& a && b && !c ==> e == Some(
                ErrorView::NameInvalid("upstream_registry is required"@),
            )
            &&& a && b && c && plain && insecure ==> e == Some(
                ErrorView::NameInvalid("plain_http and insecure_tls are mutually exclusive"@),
            )
        }),
{
    reveal_strlit("id");
    reveal_strlit("local_prefix");
    reveal_strlit("upstream_registry");
    reveal_strlit(" is required");
    reveal_strlit("id is required");
    reveal_strlit("local_prefix is required");
    reveal_strlit("upstream_registry is required");
    assert("id"@ + " is required"@ =~= "id is required"@);
    assert("local_prefix"@ + " is required"@ =~= "local_prefix is required"@);
    assert("upstream_registry"@ + " is required"@ =~= "upstream_registry is required"@);
}

} // verus!
