//! The values that the metadata store keeps and hands out.
use crate::clones::{clone_list, clone_option, clone_pairs};
use crate::oci::digest::Digest;
use crate::oci::json::{Json, JsonView};
use vstd::prelude::*;

verus! {

/// A manifest of a repository, as stored.
#[derive(Debug)]
pub struct ManifestEntry {
    pub digest: Digest,
    pub content_type: String,
    pub body: Vec<u8>,
    pub referenced_blobs: Vec<Digest>,
    pub subject: Option<Digest>,
    pub artifact_type: Option<String>,
    pub annotations: Option<Json>,
    pub stored_size_bytes: u64,
    pub manifest_size_bytes: u64,
    pub created_at: u64,
    pub last_modified: u64,
    pub config_summary: Option<Json>,
}

/// What a `ManifestEntry` holds.
#[verifier::ext_equal]
pub struct ManifestEntryView {
    pub digest: Seq<char>,
    pub content_type: Seq<char>,
    pub body: Seq<u8>,
    pub referenced_blobs: Seq<Seq<char>>,
    pub subject: Option<Seq<char>>,
    pub artifact_type: Option<Seq<char>>,
    pub annotations: Option<JsonView>,
    pub stored_size_bytes: u64,
    pub manifest_size_bytes: u64,
    pub created_at: u64,
    pub last_modified: u64,
    pub config_summary: Option<JsonView>,
}

impl View for ManifestEntry {
    type V = ManifestEntryView;

    open spec fn view(&self) -> ManifestEntryView {
        ManifestEntryView {
            digest: self.digest.deep_view(),
            content_type: self.content_type.deep_view(),
            body: self.body.deep_view(),
            referenced_blobs: self.referenced_blobs.deep_view(),
            subject: self.subject.deep_view(),
            artifact_type: self.artifact_type.deep_view(),
            annotations: self.annotations.deep_view(),
            stored_size_bytes: self.stored_size_bytes,
            manifest_size_bytes: self.manifest_size_bytes,
            created_at: self.created_at,
            last_modified: self.last_modified,
            config_summary: self.config_summary.deep_view(),
        }
    }
}

impl DeepView for ManifestEntry {
    type V = ManifestEntryView;

    open spec fn deep_view(&self) -> ManifestEntryView {
        self@
    }
}

impl Clone for ManifestEntry {
    fn clone(&self) -> (r: Self)
        ensures
            r@ == self@,
    {
        ManifestEntry {
            digest: self.digest.clone(),
            content_type: self.content_type.clone(),
            body: clone_list(&self.body),
            referenced_blobs: clone_list(&self.referenced_blobs),
            subject: clone_option(&self.subject),
            artifact_type: clone_option(&self.artifact_type),
            annotations: clone_option(&self.annotations),
            stored_size_bytes: self.stored_size_bytes,
            manifest_size_bytes: self.manifest_size_bytes,
            created_at: self.created_at,
            last_modified: self.last_modified,
            config_summary: clone_option(&self.config_summary),
        }
    }
}

/// Which way a mirror rule copies.
#[derive(Debug, Clone, Copy, PartialEq, Eq, Structural)]
pub enum MirrorDirection {
    Pull,
    Push,
}

impl DeepView for MirrorDirection {
    type V = MirrorDirection;

    open spec fn deep_view(&self) -> MirrorDirection {
        *self
    }
}

impl Default for MirrorDirection {
    fn default() -> (r: Self)
        ensures
            r == MirrorDirection::Pull,
    {
        MirrorDirection::Pull
    }
}

/// Which tags a mirror rule copies.
#[derive(Debug, PartialEq, Eq)]
pub enum MirrorStrategy {
    All,
    Latest { count: u32 },
    Pattern { pattern: String },
}

/// What a `MirrorStrategy` says.
pub enum MirrorStrategyView {
    All,
    Latest { count: u32 },
    Pattern { pattern: Seq<char> },
}

impl View for MirrorStrategy {
    type V = MirrorStrategyView;

    open spec fn view(&self) -> MirrorStrategyView {
        match self {
            MirrorStrategy::All => MirrorStrategyView::All,
            MirrorStrategy::Latest { count } => MirrorStrategyView::Latest { count: *count },
            MirrorStrategy::Pattern { pattern } => MirrorStrategyView::Pattern { pattern: pattern@ },
        }
    }
}

impl DeepView for MirrorStrategy {
    type V = MirrorStrategyView;

    open spec fn deep_view(&self) -> MirrorStrategyView {
        self@
    }
}

impl Clone for MirrorStrategy {
    fn clone(&self) -> (r: Self)
        ensures
            r@ == self@,
    {
        match self {
            MirrorStrategy::All => MirrorStrategy::All,
            MirrorStrategy::Latest { count } => MirrorStrategy::Latest { count: *count },
            MirrorStrategy::Pattern { pattern } => {
                MirrorStrategy::Pattern { pattern: pattern.clone() }
            },
        }
    }
}

impl Default for MirrorStrategy {
    fn default() -> (r: Self)
        ensures
            r == MirrorStrategy::All,
    {
        MirrorStrategy::All
    }
}

/// The protocol spoken to an outbound proxy, or none.
#[derive(Debug, Clone, Copy, PartialEq, Eq, Structural)]
pub enum OutboundProxyProtocol {
    Direct,
    Http,
    Https,
    Socks4,
    Socks5,
}

impl DeepView for OutboundProxyProtocol {
    type V = OutboundProxyProtocol;

    open spec fn deep_view(&self) -> OutboundProxyProtocol {
        *self
    }
}

impl Default for OutboundProxyProtocol {
    fn default() -> (r: Self)
        ensures
            r == OutboundProxyProtocol::Direct,
    {
        OutboundProxyProtocol::Direct
    }
}

/// The proxy through which an upstream is reached.
#[derive(Debug, PartialEq, Eq)]
pub struct OutboundProxy {
    pub protocol: OutboundProxyProtocol,
    pub url: Option<String>,
    pub username: Option<String>,
    pub password: Option<String>,
}

/// What a `OutboundProxy` holds.
#[verifier::ext_equal]
pub struct OutboundProxyView {
    pub protocol: OutboundProxyProtocol,
    pub url: Option<Seq<char>>,
    pub username: Option<Seq<char>>,
    pub password: Option<Seq<char>>,
}

impl View for OutboundProxy {
    type V = OutboundProxyView;

    open spec fn view(&self) -> OutboundProxyView {
        OutboundProxyView {
            protocol: self.protocol,
            url: self.url.deep_view(),
            username: self.username.deep_view(),
            password: self.password.deep_view(),
        }
    }
}

impl DeepView for OutboundProxy {
    type V = OutboundProxyView;

    open spec fn deep_view(&self) -> OutboundProxyView {
        self@
    }
}

impl Clone for OutboundProxy {
    fn clone(&self) -> (r: Self)
        ensures
            r@ == self@,
    {
        OutboundProxy {
            protocol: self.protocol,
            url: clone_option(&self.url),
            username: clone_option(&self.username),
            password: clone_option(&self.password),
        }
    }
}

impl Default for OutboundProxy {
    fn default() -> (r: Self)
        ensures
            r@ == (OutboundProxyView {
                protocol: OutboundProxyProtocol::Direct,
                url: None,
                username: None,
                password: None,
            }),
    {
        OutboundProxy {
            protocol: OutboundProxyProtocol::Direct,
            url: None,
            username: None,
            password: None,
        }
    }
}

/// An outbound proxy without its credentials.
#[derive(Debug, PartialEq, Eq)]
pub struct OutboundProxyPublic {
    pub protocol: OutboundProxyProtocol,
    pub url: Option<String>,
    pub username_configured: bool,
    pub password_configured: bool,
}

/// What a `OutboundProxyPublic` holds.
#[verifier::ext_equal]
pub struct OutboundProxyPublicView {
    pub protocol: OutboundProxyProtocol,
    pub url: Option<Seq<char>>,
    pub username_configured: bool,
    pub password_configured: bool,
}

impl View for OutboundProxyPublic {
    type V = OutboundProxyPublicView;

    open spec fn view(&self) -> OutboundProxyPublicView {
        OutboundProxyPublicView {
            protocol: self.protocol,
            url: self.url.deep_view(),
            username_configured: self.username_configured,
            password_configured: self.password_configured,
        }
    }
}

impl DeepView for OutboundProxyPublic {
    type V = OutboundProxyPublicView;

    open spec fn deep_view(&self) -> OutboundProxyPublicView {
        self@
    }
}

impl Clone for OutboundProxyPublic {
    fn clone(&self) -> (r: Self)
        ensures
            r@ == self@,
    {
        OutboundProxyPublic {
            protocol: self.protocol,
            url: clone_option(&self.url),
            username_configured: self.username_configured,
            password_configured: self.password_configured,
        }
    }
}

/// A personal access token, known by the hash of its secret.
#[derive(Debug)]
pub struct PersonalAccessToken {
    pub id: String,
    pub subject: String,
    pub username: Option<String>,
    pub name: String,
    pub token_hash: String,
    pub token_prefix: String,
    pub scopes: Vec<String>,
    pub created_at: u64,
    pub last_used_at: Option<u64>,
    pub expires_at: Option<u64>,
}

/// What a `PersonalAccessToken` holds.
#[verifier::ext_equal]
pub struct PersonalAccessTokenView {
    pub id: Seq<char>,
    pub subject: Seq<char>,
    pub username: Option<Seq<char>>,
    pub name: Seq<char>,
    pub token_hash: Seq<char>,
    pub token_prefix: Seq<char>,
    pub scopes: Seq<Seq<char>>,
    pub created_at: u64,
    pub last_used_at: Option<u64>,
    pub expires_at: Option<u64>,
}

impl View for PersonalAccessToken {
    type V = PersonalAccessTokenView;

    open spec fn view(&self) -> PersonalAccessTokenView {
        PersonalAccessTokenView {
            id: self.id.deep_view(),
            subject: self.subject.deep_view(),
            username: self.username.deep_view(),
            name: self.name.deep_view(),
            token_hash: self.token_hash.deep_view(),
            token_prefix: self.token_prefix.deep_view(),
            scopes: self.scopes.deep_view(),
            created_at: self.created_at,
            last_used_at: self.last_used_at.deep_view(),
            expires_at: self.expires_at.deep_view(),
        }
    }
}

impl DeepView for PersonalAccessToken {
    type V = PersonalAccessTokenView;

    open spec fn deep_view(&self) -> PersonalAccessTokenView {
        self@
    }
}

impl Clone for PersonalAccessToken {
    fn clone(&self) -> (r: Self)
        ensures
            r@ == self@,
    {
        PersonalAccessToken {
            id: self.id.clone(),
            subject: self.subject.clone(),
            username: clone_option(&self.username),
            name: self.name.clone(),
            token_hash: self.token_hash.clone(),
            token_prefix: self.token_prefix.clone(),
            scopes: clone_list(&self.scopes),
            created_at: self.created_at,
            last_used_at: self.last_used_at,
            expires_at: self.expires_at,
        }
    }
}

/// A rule that mirrors a part of an upstream registry.
#[derive(Debug)]
pub struct MirrorRule {
    pub id: String,
    pub direction: MirrorDirection,
    pub local_prefix: String,
    pub upstream_registry: String,
    pub upstream_prefix: Option<String>,
    pub schedule: Option<String>,
    pub strategy: MirrorStrategy,
    pub plain_http: bool,
    pub insecure_tls: bool,
    pub outbound_proxy: OutboundProxy,
    pub username: Option<String>,
    pub password: Option<String>,
    pub created_at: u64,
}

/// What a `MirrorRule` holds.
#[verifier::ext_equal]
pub struct MirrorRuleView {
    pub id: Seq<char>,
    pub direction: MirrorDirection,
    pub local_prefix: Seq<char>,
    pub upstream_registry: Seq<char>,
    pub upstream_prefix: Option<Seq<char>>,
    pub schedule: Option<Seq<char>>,
    pub strategy: MirrorStrategyView,
    pub plain_http: bool,
    pub insecure_tls: bool,
    pub outbound_proxy: OutboundProxyView,
    pub username: Option<Seq<char>>,
    pub password: Option<Seq<char>>,
    pub created_at: u64,
}

impl View for MirrorRule {
    type V = MirrorRuleView;

    open spec fn view(&self) -> MirrorRuleView {
        MirrorRuleView {
            id: self.id.deep_view(),
            direction: self.direction,
            local_prefix: self.local_prefix.deep_view(),
            upstream_registry: self.upstream_registry.deep_view(),
            upstream_prefix: self.upstream_prefix.deep_view(),
            schedule: self.schedule.deep_view(),
            strategy: self.strategy.deep_view(),
            plain_http: self.plain_http,
            insecure_tls: self.insecure_tls,
            outbound_proxy: self.outbound_proxy.deep_view(),
            username: self.username.deep_view(),
            password: self.password.deep_view(),
            created_at: self.created_at,
        }
    }
}

impl DeepView for MirrorRule {
    type V = MirrorRuleView;

    open spec fn deep_view(&self) -> MirrorRuleView {
        self@
    }
}

impl Clone for MirrorRule {
    fn clone(&self) -> (r: Self)
        ensures
            r@ == self@,
    {
        MirrorRule {
            id: self.id.clone(),
            direction: self.direction,
            local_prefix: self.local_prefix.clone(),
            upstream_registry: self.upstream_registry.clone(),
            upstream_prefix: clone_option(&self.upstream_prefix),
            schedule: clone_option(&self.schedule),
            strategy: self.strategy.clone(),
            plain_http: self.plain_http,
            insecure_tls: self.insecure_tls,
            outbound_proxy: self.outbound_proxy.clone(),
            username: clone_option(&self.username),
            password: clone_option(&self.password),
            created_at: self.created_at,
        }
    }
}

/// A mirror rule without its credentials.
#[derive(Debug)]
pub struct MirrorRulePublic {
    pub id: String,
    pub direction: MirrorDirection,
    pub local_prefix: String,
    pub upstream_registry: String,
    pub upstream_prefix: Option<String>,
    pub schedule: Option<String>,
    pub strategy: MirrorStrategy,
    pub plain_http: bool,
    pub insecure_tls: bool,
    pub outbound_proxy: OutboundProxyPublic,
    pub username_configured: bool,
    pub password_configured: bool,
    pub created_at: u64,
}

/// What a `MirrorRulePublic` holds.
#[verifier::ext_equal]
pub struct MirrorRulePublicView {
    pub id: Seq<char>,
    pub direction: MirrorDirection,
    pub local_prefix: Seq<char>,
    pub upstream_registry: Seq<char>,
    pub upstream_prefix: Option<Seq<char>>,
    pub schedule: Option<Seq<char>>,
    pub strategy: MirrorStrategyView,
    pub plain_http: bool,
    pub insecure_tls: bool,
    pub outbound_proxy: OutboundProxyPublicView,
    pub username_configured: bool,
    pub password_configured: bool,
    pub created_at: u64,
}

impl View for MirrorRulePublic {
    type V = MirrorRulePublicView;

    open spec fn view(&self) -> MirrorRulePublicView {
        MirrorRulePublicView {
            id: self.id.deep_view(),
            direction: self.direction,
            local_prefix: self.local_prefix.deep_view(),
            upstream_registry: self.upstream_registry.deep_view(),
            upstream_prefix: self.upstream_prefix.deep_view(),
            schedule: self.schedule.deep_view(),
            strategy: self.strategy.deep_view(),
            plain_http: self.plain_http,
            insecure_tls: self.insecure_tls,
            outbound_proxy: self.outbound_proxy.deep_view(),
            username_configured: self.username_configured,
            password_configured: self.password_configured,
            created_at: self.created_at,
        }
    }
}

impl DeepView for MirrorRulePublic {
    type V = MirrorRulePublicView;

    open spec fn deep_view(&self) -> MirrorRulePublicView {
        self@
    }
}

impl Clone for MirrorRulePublic {
    fn clone(&self) -> (r: Self)
        ensures
            r@ == self@,
    {
        MirrorRulePublic {
            id: self.id.clone(),
            direction: self.direction,
            local_prefix: self.local_prefix.clone(),
            upstream_registry: self.upstream_registry.clone(),
            upstream_prefix: clone_option(&self.upstream_prefix),
            schedule: clone_option(&self.schedule),
            strategy: self.strategy.clone(),
            plain_http: self.plain_http,
            insecure_tls: self.insecure_tls,
            outbound_proxy: self.outbound_proxy.clone(),
            username_configured: self.username_configured,
            password_configured: self.password_configured,
            created_at: self.created_at,
        }
    }
}

/// By which time the latest tags are chosen.
#[derive(Debug, Clone, Copy, PartialEq, Eq, Structural)]
pub enum WarmSortBy {
    Created,
    Pushed,
    Pulled,
}

impl DeepView for WarmSortBy {
    type V = WarmSortBy;

    open spec fn deep_view(&self) -> WarmSortBy {
        *self
    }
}

impl Default for WarmSortBy {
    fn default() -> (r: Self)
        ensures
            r == WarmSortBy::Pushed,
    {
        WarmSortBy::Pushed
    }
}

/// Which tags of a proxy cache are kept warm.
#[derive(Debug, PartialEq, Eq)]
pub enum WarmFilter {
    Never,
    All,
    Latest { count: u32, sort_by: WarmSortBy },
    Pattern { pattern: String },
}

/// What a `WarmFilter` says.
pub enum WarmFilterView {
    Never,
    All,
    Latest { count: u32, sort_by: WarmSortBy },
    Pattern { pattern: Seq<char> },
}

impl View for WarmFilter {
    type V = WarmFilterView;

    open spec fn view(&self) -> WarmFilterView {
        match self {
            WarmFilter::Never => WarmFilterView::Never,
            WarmFilter::All => WarmFilterView::All,
            WarmFilter::Latest { count, sort_by } => {
                WarmFilterView::Latest { count: *count, sort_by: *sort_by }
            },
            WarmFilter::Pattern { pattern } => WarmFilterView::Pattern { pattern: pattern@ },
        }
    }
}

impl DeepView for WarmFilter {
    type V = WarmFilterView;

    open spec fn deep_view(&self) -> WarmFilterView {
        self@
    }
}

impl Clone for WarmFilter {
    fn clone(&self) -> (r: Self)
        ensures
            r@ == self@,
    {
        match self {
            WarmFilter::Never => WarmFilter::Never,
            WarmFilter::All => WarmFilter::All,
            WarmFilter::Latest { count, sort_by } => {
                WarmFilter::Latest { count: *count, sort_by: *sort_by }
            },
            WarmFilter::Pattern { pattern } => WarmFilter::Pattern { pattern: pattern.clone() },
        }
    }
}

/// A pull-through cache of a part of an upstream registry.
#[derive(Debug)]
pub struct ProxyCache {
    pub id: String,
    pub local_prefix: String,
    pub upstream_registry: String,
    pub upstream_prefix: Option<String>,
    pub warm_filters: Vec<WarmFilter>,
    pub warm_schedule: Option<String>,
    pub plain_http: bool,
    pub insecure_tls: bool,
    pub outbound_proxy: OutboundProxy,
    pub username: Option<String>,
    pub password: Option<String>,
    pub created_at: u64,
}

/// What a `ProxyCache` holds.
#[verifier::ext_equal]
pub struct ProxyCacheView {
    pub id: Seq<char>,
    pub local_prefix: Seq<char>,
    pub upstream_registry: Seq<char>,
    pub upstream_prefix: Option<Seq<char>>,
    pub warm_filters: Seq<WarmFilterView>,
    pub warm_schedule: Option<Seq<char>>,
    pub plain_http: bool,
    pub insecure_tls: bool,
    pub outbound_proxy: OutboundProxyView,
    pub username: Option<Seq<char>>,
    pub password: Option<Seq<char>>,
    pub created_at: u64,
}

impl View for ProxyCache {
    type V = ProxyCacheView;

    open spec fn view(&self) -> ProxyCacheView {
        ProxyCacheView {
            id: self.id.deep_view(),
            local_prefix: self.local_prefix.deep_view(),
            upstream_registry: self.upstream_registry.deep_view(),
            upstream_prefix: self.upstream_prefix.deep_view(),
            warm_filters: self.warm_filters.deep_view(),
            warm_schedule: self.warm_schedule.deep_view(),
            plain_http: self.plain_http,
            insecure_tls: self.insecure_tls,
            outbound_proxy: self.outbound_proxy.deep_view(),
            username: self.username.deep_view(),
            password: self.password.deep_view(),
            created_at: self.created_at,
        }
    }
}

impl DeepView for ProxyCache {
    type V = ProxyCacheView;

    open spec fn deep_view(&self) -> ProxyCacheView {
        self@
    }
}

impl Clone for ProxyCache {
    fn clone(&self) -> (r: Self)
        ensures
            r@ == self@,
    {
        ProxyCache {
            id: self.id.clone(),
            local_prefix: self.local_prefix.clone(),
            upstream_registry: self.upstream_registry.clone(),
            upstream_prefix: clone_option(&self.upstream_prefix),
            warm_filters: clone_list(&self.warm_filters),
            warm_schedule: clone_option(&self.warm_schedule),
            plain_http: self.plain_http,
            insecure_tls: self.insecure_tls,
            outbound_proxy: self.outbound_proxy.clone(),
            username: clone_option(&self.username),
            password: clone_option(&self.password),
            created_at: self.created_at,
        }
    }
}

/// When a cached tag was last held against its upstream.
#[derive(Debug, PartialEq, Eq)]
pub struct ProxyCacheTagValidation {
    pub cache_id: String,
    pub repository: String,
    pub tag: String,
    pub upstream_digest: String,
    pub last_validated_at: u64,
}

/// What a `ProxyCacheTagValidation` holds.
#[verifier::ext_equal]
pub struct ProxyCacheTagValidationView {
    pub cache_id: Seq<char>,
    pub repository: Seq<char>,
    pub tag: Seq<char>,
    pub upstream_digest: Seq<char>,
    pub last_validated_at: u64,
}

impl View for ProxyCacheTagValidation {
    type V = ProxyCacheTagValidationView;

    open spec fn view(&self) -> ProxyCacheTagValidationView {
        ProxyCacheTagValidationView {
            cache_id: self.cache_id.deep_view(),
            repository: self.repository.deep_view(),
            tag: self.tag.deep_view(),
            upstream_digest: self.upstream_digest.deep_view(),
            last_validated_at: self.last_validated_at,
        }
    }
}

impl DeepView for ProxyCacheTagValidation {
    type V = ProxyCacheTagValidationView;

    open spec fn deep_view(&self) -> ProxyCacheTagValidationView {
        self@
    }
}

impl Clone for ProxyCacheTagValidation {
    fn clone(&self) -> (r: Self)
        ensures
            r@ == self@,
    {
        ProxyCacheTagValidation {
            cache_id: self.cache_id.clone(),
            repository: self.repository.clone(),
            tag: self.tag.clone(),
            upstream_digest: self.upstream_digest.clone(),
            last_validated_at: self.last_validated_at,
        }
    }
}

/// A proxy cache without its credentials.
#[derive(Debug)]
pub struct ProxyCachePublic {
    pub id: String,
    pub local_prefix: String,
    pub upstream_registry: String,
    pub upstream_prefix: Option<String>,
    pub warm_filters: Vec<WarmFilter>,
    pub warm_schedule: Option<String>,
    pub plain_http: bool,
    pub insecure_tls: bool,
    pub outbound_proxy: OutboundProxyPublic,
    pub username_configured: bool,
    pub password_configured: bool,
    pub created_at: u64,
}

/// What a `ProxyCachePublic` holds.
#[verifier::ext_equal]
pub struct ProxyCachePublicView {
    pub id: Seq<char>,
    pub local_prefix: Seq<char>,
    pub upstream_registry: Seq<char>,
    pub upstream_prefix: Option<Seq<char>>,
    pub warm_filters: Seq<WarmFilterView>,
    pub warm_schedule: Option<Seq<char>>,
    pub plain_http: bool,
    pub insecure_tls: bool,
    pub outbound_proxy: OutboundProxyPublicView,
    pub username_configured: bool,
    pub password_configured: bool,
    pub created_at: u64,
}

impl View for ProxyCachePublic {
    type V = ProxyCachePublicView;

    open spec fn view(&self) -> ProxyCachePublicView {
        ProxyCachePublicView {
            id: self.id.deep_view(),
            local_prefix: self.local_prefix.deep_view(),
            upstream_registry: self.upstream_registry.deep_view(),
            upstream_prefix: self.upstream_prefix.deep_view(),
            warm_filters: self.warm_filters.deep_view(),
            warm_schedule: self.warm_schedule.deep_view(),
            plain_http: self.plain_http,
            insecure_tls: self.insecure_tls,
            outbound_proxy: self.outbound_proxy.deep_view(),
            username_configured: self.username_configured,
            password_configured: self.password_configured,
            created_at: self.created_at,
        }
    }
}

impl DeepView for ProxyCachePublic {
    type V = ProxyCachePublicView;

    open spec fn deep_view(&self) -> ProxyCachePublicView {
        self@
    }
}

impl Clone for ProxyCachePublic {
    fn clone(&self) -> (r: Self)
        ensures
            r@ == self@,
    {
        ProxyCachePublic {
            id: self.id.clone(),
            local_prefix: self.local_prefix.clone(),
            upstream_registry: self.upstream_registry.clone(),
            upstream_prefix: clone_option(&self.upstream_prefix),
            warm_filters: clone_list(&self.warm_filters),
            warm_schedule: clone_option(&self.warm_schedule),
            plain_http: self.plain_http,
            insecure_tls: self.insecure_tls,
            outbound_proxy: self.outbound_proxy.clone(),
            username_configured: self.username_configured,
            password_configured: self.password_configured,
            created_at: self.created_at,
        }
    }
}

/// An image that is kept warm.
#[derive(Debug)]
pub struct WarmImage {
    pub id: String,
    pub image: String,
    pub tags: Vec<String>,
    pub interval_secs: u64,
}

/// What a `WarmImage` holds.
#[verifier::ext_equal]
pub struct WarmImageView {
    pub id: Seq<char>,
    pub image: Seq<char>,
    pub tags: Seq<Seq<char>>,
    pub interval_secs: u64,
}

impl View for WarmImage {
    type V = WarmImageView;

    open spec fn view(&self) -> WarmImageView {
        WarmImageView {
            id: self.id.deep_view(),
            image: self.image.deep_view(),
            tags: self.tags.deep_view(),
            interval_secs: self.interval_secs,
        }
    }
}

impl DeepView for WarmImage {
    type V = WarmImageView;

    open spec fn deep_view(&self) -> WarmImageView {
        self@
    }
}

impl Clone for WarmImage {
    fn clone(&self) -> (r: Self)
        ensures
            r@ == self@,
    {
        WarmImage {
            id: self.id.clone(),
            image: self.image.clone(),
            tags: clone_list(&self.tags),
            interval_secs: self.interval_secs,
        }
    }
}

/// What a sync job was made from.
#[derive(Debug, Clone, Copy, PartialEq, Eq, Structural)]
pub enum SyncJobKind {
    LegacyWarm,
    Mirror,
    ProxyCache,
}

impl DeepView for SyncJobKind {
    type V = SyncJobKind;

    open spec fn deep_view(&self) -> SyncJobKind {
        *self
    }
}

impl Default for SyncJobKind {
    fn default() -> (r: Self)
        ensures
            r == SyncJobKind::LegacyWarm,
    {
        SyncJobKind::LegacyWarm
    }
}

/// Whether a sync job is claimed by a node.
#[derive(Debug, Clone, Copy, PartialEq, Eq, Structural)]
pub enum SyncJobStatus {
    Idle,
    Running,
}

impl DeepView for SyncJobStatus {
    type V = SyncJobStatus;

    open spec fn deep_view(&self) -> SyncJobStatus {
        *self
    }
}

/// A scheduled or triggered copy of an image.
#[derive(Debug)]
pub struct SyncJob {
    pub id: String,
    pub kind: SyncJobKind,
    pub rule_id: Option<String>,
    pub rule_name: Option<String>,
    pub image: String,
    pub tags: Vec<String>,
    pub interval_secs: u64,
    pub status: SyncJobStatus,
    pub claimed_by: Option<String>,
    pub claimed_at: Option<u64>,
    pub last_run_at: Option<u64>,
    pub next_run_at: u64,
    pub last_error: Option<String>,
}

/// What a `SyncJob` holds.
#[verifier::ext_equal]
pub struct SyncJobView {
    pub id: Seq<char>,
    pub kind: SyncJobKind,
    pub rule_id: Option<Seq<char>>,
    pub rule_name: Option<Seq<char>>,
    pub image: Seq<char>,
    pub tags: Seq<Seq<char>>,
    pub interval_secs: u64,
    pub status: SyncJobStatus,
    pub claimed_by: Option<Seq<char>>,
    pub claimed_at: Option<u64>,
    pub last_run_at: Option<u64>,
    pub next_run_at: u64,
    pub last_error: Option<Seq<char>>,
}

impl View for SyncJob {
    type V = SyncJobView;

    open spec fn view(&self) -> SyncJobView {
        SyncJobView {
            id: self.id.deep_view(),
            kind: self.kind,
            rule_id: self.rule_id.deep_view(),
            rule_name: self.rule_name.deep_view(),
            image: self.image.deep_view(),
            tags: self.tags.deep_view(),
            interval_secs: self.interval_secs,
            status: self.status,
            claimed_by: self.claimed_by.deep_view(),
            claimed_at: self.claimed_at.deep_view(),
            last_run_at: self.last_run_at.deep_view(),
            next_run_at: self.next_run_at,
            last_error: self.last_error.deep_view(),
        }
    }
}

impl DeepView for SyncJob {
    type V = SyncJobView;

    open spec fn deep_view(&self) -> SyncJobView {
        self@
    }
}

impl Clone for SyncJob {
    fn clone(&self) -> (r: Self)
        ensures
            r@ == self@,
    {
        SyncJob {
            id: self.id.clone(),
            kind: self.kind,
            rule_id: clone_option(&self.rule_id),
            rule_name: clone_option(&self.rule_name),
            image: self.image.clone(),
            tags: clone_list(&self.tags),
            interval_secs: self.interval_secs,
            status: self.status,
            claimed_by: clone_option(&self.claimed_by),
            claimed_at: self.claimed_at,
            last_run_at: self.last_run_at,
            next_run_at: self.next_run_at,
            last_error: clone_option(&self.last_error),
        }
    }
}

/// How a run of a sync job stands.
#[derive(Debug, Clone, Copy, PartialEq, Eq, Structural)]
pub enum SyncRunStatus {
    Running,
    Succeeded,
    PartialFailure,
    Failed,
}

impl DeepView for SyncRunStatus {
    type V = SyncRunStatus;

    open spec fn deep_view(&self) -> SyncRunStatus {
        *self
    }
}

/// How serious an event of a run is.
#[derive(Debug, Clone, Copy, PartialEq, Eq, Structural)]
pub enum SyncRunEventKind {
    Info,
    Success,
    Warning,
    Error,
}

impl DeepView for SyncRunEventKind {
    type V = SyncRunEventKind;

    open spec fn deep_view(&self) -> SyncRunEventKind {
        *self
    }
}

/// Something that happened during a run.
#[derive(Debug, PartialEq, Eq)]
pub struct SyncRunEvent {
    pub at: u64,
    pub kind: SyncRunEventKind,
    pub tag: Option<String>,
    pub message: String,
}

/// What a `SyncRunEvent` holds.
#[verifier::ext_equal]
pub struct SyncRunEventView {
    pub at: u64,
    pub kind: SyncRunEventKind,
    pub tag: Option<Seq<char>>,
    pub message: Seq<char>,
}

impl View for SyncRunEvent {
    type V = SyncRunEventView;

    open spec fn view(&self) -> SyncRunEventView {
        SyncRunEventView {
            at: self.at,
            kind: self.kind,
            tag: self.tag.deep_view(),
            message: self.message.deep_view(),
        }
    }
}

impl DeepView for SyncRunEvent {
    type V = SyncRunEventView;

    open spec fn deep_view(&self) -> SyncRunEventView {
        self@
    }
}

impl Clone for SyncRunEvent {
    fn clone(&self) -> (r: Self)
        ensures
            r@ == self@,
    {
        SyncRunEvent {
            at: self.at,
            kind: self.kind,
            tag: clone_option(&self.tag),
            message: self.message.clone(),
        }
    }
}

/// One run of a sync job.
#[derive(Debug)]
pub struct SyncJobRun {
    pub id: String,
    pub job_id: String,
    pub node_id: String,
    pub started_at: u64,
    pub finished_at: Option<u64>,
    pub status: SyncRunStatus,
    pub phase: String,
    pub total_tags: usize,
    pub completed_tags: usize,
    pub current_tag: Option<String>,
    pub updated_at: u64,
    pub recent_events: Vec<SyncRunEvent>,
    pub tags_synced: Vec<String>,
    pub tags_failed: Vec<(String, String)>,
}

/// What a `SyncJobRun` holds.
#[verifier::ext_equal]
pub struct SyncJobRunView {
    pub id: Seq<char>,
    pub job_id: Seq<char>,
    pub node_id: Seq<char>,
    pub started_at: u64,
    pub finished_at: Option<u64>,
    pub status: SyncRunStatus,
    pub phase: Seq<char>,
    pub total_tags: usize,
    pub completed_tags: usize,
    pub current_tag: Option<Seq<char>>,
    pub updated_at: u64,
    pub recent_events: Seq<SyncRunEventView>,
    pub tags_synced: Seq<Seq<char>>,
    pub tags_failed: Seq<(Seq<char>, Seq<char>)>,
}

impl View for SyncJobRun {
    type V = SyncJobRunView;

    open spec fn view(&self) -> SyncJobRunView {
        SyncJobRunView {
            id: self.id.deep_view(),
            job_id: self.job_id.deep_view(),
            node_id: self.node_id.deep_view(),
            started_at: self.started_at,
            finished_at: self.finished_at.deep_view(),
            status: self.status,
            phase: self.phase.deep_view(),
            total_tags: self.total_tags,
            completed_tags: self.completed_tags,
            current_tag: self.current_tag.deep_view(),
            updated_at: self.updated_at,
            recent_events: self.recent_events.deep_view(),
            tags_synced: self.tags_synced.deep_view(),
            tags_failed: self.tags_failed.deep_view(),
        }
    }
}

impl DeepView for SyncJobRun {
    type V = SyncJobRunView;

    open spec fn deep_view(&self) -> SyncJobRunView {
        self@
    }
}

impl Clone for SyncJobRun {
    fn clone(&self) -> (r: Self)
        ensures
            r@ == self@,
    {
        SyncJobRun {
            id: self.id.clone(),
            job_id: self.job_id.clone(),
            node_id: self.node_id.clone(),
            started_at: self.started_at,
            finished_at: self.finished_at,
            status: self.status,
            phase: self.phase.clone(),
            total_tags: self.total_tags,
            completed_tags: self.completed_tags,
            current_tag: clone_option(&self.current_tag),
            updated_at: self.updated_at,
            recent_events: clone_list(&self.recent_events),
            tags_synced: clone_list(&self.tags_synced),
            tags_failed: clone_pairs(&self.tags_failed),
        }
    }
}

/// A Helm chart.
#[derive(Debug)]
pub struct HelmChart {
    pub name: String,
    pub description: String,
    pub latest_version: String,
    pub versions: Vec<String>,
}

/// What a `HelmChart` holds.
#[verifier::ext_equal]
pub struct HelmChartView {
    pub name: Seq<char>,
    pub description: Seq<char>,
    pub latest_version: Seq<char>,
    pub versions: Seq<Seq<char>>,
}

impl View for HelmChart {
    type V = HelmChartView;

    open spec fn view(&self) -> HelmChartView {
        HelmChartView {
            name: self.name.deep_view(),
            description: self.description.deep_view(),
            latest_version: self.latest_version.deep_view(),
            versions: self.versions.deep_view(),
        }
    }
}

impl DeepView for HelmChart {
    type V = HelmChartView;

    open spec fn deep_view(&self) -> HelmChartView {
        self@
    }
}

impl Clone for HelmChart {
    fn clone(&self) -> (r: Self)
        ensures
            r@ == self@,
    {
        HelmChart {
            name: self.name.clone(),
            description: self.description.clone(),
            latest_version: self.latest_version.clone(),
            versions: clone_list(&self.versions),
        }
    }
}

/// One version of a Helm chart.
#[derive(Debug)]
pub struct HelmChartVersion {
    pub name: String,
    pub version: String,
    pub app_version: Option<String>,
    pub description: String,
    pub created: String,
}

/// What a `HelmChartVersion` holds.
#[verifier::ext_equal]
pub struct HelmChartVersionView {
    pub name: Seq<char>,
    pub version: Seq<char>,
    pub app_version: Option<Seq<char>>,
    pub description: Seq<char>,
    pub created: Seq<char>,
}

impl View for HelmChartVersion {
    type V = HelmChartVersionView;

    open spec fn view(&self) -> HelmChartVersionView {
        HelmChartVersionView {
            name: self.name.deep_view(),
            version: self.version.deep_view(),
            app_version: self.app_version.deep_view(),
            description: self.description.deep_view(),
            created: self.created.deep_view(),
        }
    }
}

impl DeepView for HelmChartVersion {
    type V = HelmChartVersionView;

    open spec fn deep_view(&self) -> HelmChartVersionView {
        self@
    }
}

impl Clone for HelmChartVersion {
    fn clone(&self) -> (r: Self)
        ensures
            r@ == self@,
    {
        HelmChartVersion {
            name: self.name.clone(),
            version: self.version.clone(),
            app_version: clone_option(&self.app_version),
            description: self.description.clone(),
            created: self.created.clone(),
        }
    }
}

/// Who may pull from a repository.
#[derive(Debug, Clone, Copy, PartialEq, Eq, Structural)]
pub enum Visibility {
    Private,
    PublicPull,
}

impl DeepView for Visibility {
    type V = Visibility;

    open spec fn deep_view(&self) -> Visibility {
        *self
    }
}

impl Default for Visibility {
    fn default() -> (r: Self)
        ensures
            r == Visibility::Private,
    {
        Visibility::Private
    }
}

/// A repository as an object of its own, with or without manifests.
#[derive(Debug)]
pub struct Repository {
    pub name: String,
    pub description: String,
    pub owner: Option<String>,
    pub visibility: Visibility,
    pub created_at: u64,
}

/// What a `Repository` holds.
#[verifier::ext_equal]
pub struct RepositoryView {
    pub name: Seq<char>,
    pub description: Seq<char>,
    pub owner: Option<Seq<char>>,
    pub visibility: Visibility,
    pub created_at: u64,
}

impl View for Repository {
    type V = RepositoryView;

    open spec fn view(&self) -> RepositoryView {
        RepositoryView {
            name: self.name.deep_view(),
            description: self.description.deep_view(),
            owner: self.owner.deep_view(),
            visibility: self.visibility,
            created_at: self.created_at,
        }
    }
}

impl DeepView for Repository {
    type V = RepositoryView;

    open spec fn deep_view(&self) -> RepositoryView {
        self@
    }
}

impl Clone for Repository {
    fn clone(&self) -> (r: Self)
        ensures
            r@ == self@,
    {
        Repository {
            name: self.name.clone(),
            description: self.description.clone(),
            owner: clone_option(&self.owner),
            visibility: self.visibility,
            created_at: self.created_at,
        }
    }
}

/// A repository as it is listed.
#[derive(Debug)]
pub struct RepositorySummary {
    pub name: String,
    pub tag_count: usize,
    pub manifest_count: usize,
    pub stored_size_bytes: u64,
    pub manifest_size_bytes: u64,
    pub last_modified: u64,
    pub description: String,
    pub owner: Option<String>,
    pub visibility: Visibility,
}

/// What a `RepositorySummary` holds.
#[verifier::ext_equal]
pub struct RepositorySummaryView {
    pub name: Seq<char>,
    pub tag_count: usize,
    pub manifest_count: usize,
    pub stored_size_bytes: u64,
    pub manifest_size_bytes: u64,
    pub last_modified: u64,
    pub description: Seq<char>,
    pub owner: Option<Seq<char>>,
    pub visibility: Visibility,
}

impl View for RepositorySummary {
    type V = RepositorySummaryView;

    open spec fn view(&self) -> RepositorySummaryView {
        RepositorySummaryView {
            name: self.name.deep_view(),
            tag_count: self.tag_count,
            manifest_count: self.manifest_count,
            stored_size_bytes: self.stored_size_bytes,
            manifest_size_bytes: self.manifest_size_bytes,
            last_modified: self.last_modified,
            description: self.description.deep_view(),
            owner: self.owner.deep_view(),
            visibility: self.visibility,
        }
    }
}

impl DeepView for RepositorySummary {
    type V = RepositorySummaryView;

    open spec fn deep_view(&self) -> RepositorySummaryView {
        self@
    }
}

impl Clone for RepositorySummary {
    fn clone(&self) -> (r: Self)
        ensures
            r@ == self@,
    {
        RepositorySummary {
            name: self.name.clone(),
            tag_count: self.tag_count,
            manifest_count: self.manifest_count,
            stored_size_bytes: self.stored_size_bytes,
            manifest_size_bytes: self.manifest_size_bytes,
            last_modified: self.last_modified,
            description: self.description.clone(),
            owner: clone_option(&self.owner),
            visibility: self.visibility,
        }
    }
}

/// A manifest as it is listed.
#[derive(Debug)]
pub struct ManifestSummary {
    pub digest: String,
    pub media_type: String,
    pub artifact_type: Option<String>,
    pub stored_size_bytes: u64,
    pub manifest_size_bytes: u64,
    pub created_at: u64,
    pub last_modified: u64,
    pub tags: Vec<String>,
    pub subject: Option<String>,
    pub annotations: Option<Json>,
    pub config_summary: Option<Json>,
    pub body: Json,
}

/// What a `ManifestSummary` holds.
#[verifier::ext_equal]
pub struct ManifestSummaryView {
    pub digest: Seq<char>,
    pub media_type: Seq<char>,
    pub artifact_type: Option<Seq<char>>,
    pub stored_size_bytes: u64,
    pub manifest_size_bytes: u64,
    pub created_at: u64,
    pub last_modified: u64,
    pub tags: Seq<Seq<char>>,
    pub subject: Option<Seq<char>>,
    pub annotations: Option<JsonView>,
    pub config_summary: Option<JsonView>,
    pub body: JsonView,
}

impl View for ManifestSummary {
    type V = ManifestSummaryView;

    open spec fn view(&self) -> ManifestSummaryView {
        ManifestSummaryView {
            digest: self.digest.deep_view(),
            media_type: self.media_type.deep_view(),
            artifact_type: self.artifact_type.deep_view(),
            stored_size_bytes: self.stored_size_bytes,
            manifest_size_bytes: self.manifest_size_bytes,
            created_at: self.created_at,
            last_modified: self.last_modified,
            tags: self.tags.deep_view(),
            subject: self.subject.deep_view(),
            annotations: self.annotations.deep_view(),
            config_summary: self.config_summary.deep_view(),
            body: self.body.deep_view(),
        }
    }
}

impl DeepView for ManifestSummary {
    type V = ManifestSummaryView;

    open spec fn deep_view(&self) -> ManifestSummaryView {
        self@
    }
}

impl Clone for ManifestSummary {
    fn clone(&self) -> (r: Self)
        ensures
            r@ == self@,
    {
        ManifestSummary {
            digest: self.digest.clone(),
            media_type: self.media_type.clone(),
            artifact_type: clone_option(&self.artifact_type),
            stored_size_bytes: self.stored_size_bytes,
            manifest_size_bytes: self.manifest_size_bytes,
            created_at: self.created_at,
            last_modified: self.last_modified,
            tags: clone_list(&self.tags),
            subject: clone_option(&self.subject),
            annotations: clone_option(&self.annotations),
            config_summary: clone_option(&self.config_summary),
            body: self.body.clone(),
        }
    }
}

/// A manifest that refers to another.
#[derive(Debug)]
pub struct ReferrerEntry {
    pub digest: Digest,
    pub media_type: String,
    pub size: u64,
    pub artifact_type: Option<String>,
    pub annotations: Option<Json>,
}

/// What a `ReferrerEntry` holds.
#[verifier::ext_equal]
pub struct ReferrerEntryView {
    pub digest: Seq<char>,
    pub media_type: Seq<char>,
    pub size: u64,
    pub artifact_type: Option<Seq<char>>,
    pub annotations: Option<JsonView>,
}

impl View for ReferrerEntry {
    type V = ReferrerEntryView;

    open spec fn view(&self) -> ReferrerEntryView {
        ReferrerEntryView {
            digest: self.digest.deep_view(),
            media_type: self.media_type.deep_view(),
            size: self.size,
            artifact_type: self.artifact_type.deep_view(),
            annotations: self.annotations.deep_view(),
        }
    }
}

impl DeepView for ReferrerEntry {
    type V = ReferrerEntryView;

    open spec fn deep_view(&self) -> ReferrerEntryView {
        self@
    }
}

impl Clone for ReferrerEntry {
    fn clone(&self) -> (r: Self)
        ensures
            r@ == self@,
    {
        ReferrerEntry {
            digest: self.digest.clone(),
            media_type: self.media_type.clone(),
            size: self.size,
            artifact_type: clone_option(&self.artifact_type),
            annotations: clone_option(&self.annotations),
        }
    }
}

/// Where a permission rule comes from.
#[derive(Debug, Clone, Copy, PartialEq, Eq, Structural)]
pub enum RuleSource {
    Config,
    Raft,
}

impl DeepView for RuleSource {
    type V = RuleSource;

    open spec fn deep_view(&self) -> RuleSource {
        *self
    }
}

/// What the members of some groups may do.
#[derive(Debug)]
pub struct PermissionRule {
    pub id: String,
    pub name: String,
    pub groups: Vec<String>,
    pub scopes: Vec<String>,
    pub source: RuleSource,
    pub created_at: u64,
}

/// What a `PermissionRule` holds.
#[verifier::ext_equal]
pub struct PermissionRuleView {
    pub id: Seq<char>,
    pub name: Seq<char>,
    pub groups: Seq<Seq<char>>,
    pub scopes: Seq<Seq<char>>,
    pub source: RuleSource,
    pub created_at: u64,
}

impl View for PermissionRule {
    type V = PermissionRuleView;

    open spec fn view(&self) -> PermissionRuleView {
        PermissionRuleView {
            id: self.id.deep_view(),
            name: self.name.deep_view(),
            groups: self.groups.deep_view(),
            scopes: self.scopes.deep_view(),
            source: self.source,
            created_at: self.created_at,
        }
    }
}

impl DeepView for PermissionRule {
    type V = PermissionRuleView;

    open spec fn deep_view(&self) -> PermissionRuleView {
        self@
    }
}

impl Clone for PermissionRule {
    fn clone(&self) -> (r: Self)
        ensures
            r@ == self@,
    {
        PermissionRule {
            id: self.id.clone(),
            name: self.name.clone(),
            groups: clone_list(&self.groups),
            scopes: clone_list(&self.scopes),
            source: self.source,
            created_at: self.created_at,
        }
    }
}

/// How much a deletion removed.
#[derive(Debug, Clone, Copy, PartialEq, Eq, Structural)]
pub struct DeleteCounts {
    pub deleted_manifests: usize,
    pub deleted_tags: usize,
}

/// How a blob stands when its deletion is requested.
#[derive(Debug, PartialEq, Eq)]
pub struct BlobDeleteStatus {
    pub digest: String,
    pub referenced: bool,
    pub ref_count: u64,
}

/// What a `BlobDeleteStatus` holds.
#[verifier::ext_equal]
pub struct BlobDeleteStatusView {
    pub digest: Seq<char>,
    pub referenced: bool,
    pub ref_count: u64,
}

impl View for BlobDeleteStatus {
    type V = BlobDeleteStatusView;

    open spec fn view(&self) -> BlobDeleteStatusView {
        BlobDeleteStatusView {
            digest: self.digest.deep_view(),
            referenced: self.referenced,
            ref_count: self.ref_count,
        }
    }
}

impl DeepView for BlobDeleteStatus {
    type V = BlobDeleteStatusView;

    open spec fn deep_view(&self) -> BlobDeleteStatusView {
        self@
    }
}

impl Clone for BlobDeleteStatus {
    fn clone(&self) -> (r: Self)
        ensures
            r@ == self@,
    {
        BlobDeleteStatus {
            digest: self.digest.clone(),
            referenced: self.referenced,
            ref_count: self.ref_count,
        }
    }
}

/// How a blob stands.
#[derive(Debug, PartialEq, Eq)]
pub struct BlobLifecycleStatus {
    pub digest: String,
    pub referenced: bool,
    pub ref_count: u64,
    pub delete_requested: bool,
}

/// What a `BlobLifecycleStatus` holds.
#[verifier::ext_equal]
pub struct BlobLifecycleStatusView {
    pub digest: Seq<char>,
    pub referenced: bool,
    pub ref_count: u64,
    pub delete_requested: bool,
}

impl View for BlobLifecycleStatus {
    type V = BlobLifecycleStatusView;

    open spec fn view(&self) -> BlobLifecycleStatusView {
        BlobLifecycleStatusView {
            digest: self.digest.deep_view(),
            referenced: self.referenced,
            ref_count: self.ref_count,
            delete_requested: self.delete_requested,
        }
    }
}

impl DeepView for BlobLifecycleStatus {
    type V = BlobLifecycleStatusView;

    open spec fn deep_view(&self) -> BlobLifecycleStatusView {
        self@
    }
}

impl Clone for BlobLifecycleStatus {
    fn clone(&self) -> (r: Self)
        ensures
            r@ == self@,
    {
        BlobLifecycleStatus {
            digest: self.digest.clone(),
            referenced: self.referenced,
            ref_count: self.ref_count,
            delete_requested: self.delete_requested,
        }
    }
}

} // verus!
