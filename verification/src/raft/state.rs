//! The replicated state and its mathematical model.
use crate::raft::LogId;
use crate::store::metadata::namespace::{
    Namespace, NamespaceView, ReleasedHandle, ReleasedHandleView,
};
use crate::store::metadata::types::{
    HelmChart, HelmChartVersion, HelmChartVersionView, HelmChartView, ManifestEntry,
    ManifestEntryView, MirrorRule, MirrorRuleView, PermissionRule, PermissionRuleView,
    PersonalAccessToken, PersonalAccessTokenView, ProxyCache, ProxyCacheView, Repository,
    RepositoryView, SyncJob, SyncJobRun, SyncJobRunView, SyncJobView, WarmImage, WarmImageView,
};
use crate::store::metadata::validations::{ProxyCacheTagValidations, ValidationsModel};
use crate::string_map::StringMap;
use vstd::prelude::*;

verus! {

/// Who takes part in the cluster: the voter sets that are in force, and the
/// address of every node.
#[derive(Debug, PartialEq, Eq)]
pub struct Membership {
    pub configs: Vec<Vec<u64>>,
    pub nodes: Vec<(u64, String)>,
}

/// What a `Membership` says.
#[verifier::ext_equal]
pub struct MembershipView {
    pub configs: Seq<Seq<u64>>,
    pub nodes: Seq<(u64, Seq<char>)>,
}

impl View for Membership {
    type V = MembershipView;

    open spec fn view(&self) -> MembershipView {
        MembershipView { configs: self.configs.deep_view(), nodes: self.nodes.deep_view() }
    }
}

impl DeepView for Membership {
    type V = MembershipView;

    open spec fn deep_view(&self) -> MembershipView {
        self@
    }
}

impl Clone for Membership {
    fn clone(&self) -> (r: Self)
        ensures
            r@ == self@,
    {
        let mut configs: Vec<Vec<u64>> = Vec::new();
        let mut i: usize = 0;
        while i < self.configs.len()
            invariant
                i <= self.configs@.len(),
                configs@.len() == i,
                forall|j: int|
                    0 <= j < i ==> (#[trigger] configs@[j]).deep_view()
                        == self.configs@[j].deep_view(),
            decreases self.configs@.len() - i,
        {
            let voters = self.configs[i].clone();
            assert(voters.deep_view() =~= self.configs@[i as int].deep_view());
            configs.push(voters);
            i = i + 1;
        }
        let mut nodes: Vec<(u64, String)> = Vec::new();
        let mut k: usize = 0;
        while k < self.nodes.len()
            invariant
                k <= self.nodes@.len(),
                nodes@.len() == k,
                forall|j: int|
                    0 <= j < k ==> (#[trigger] nodes@[j]).deep_view()
                        == self.nodes@[j].deep_view(),
            decreases self.nodes@.len() - k,
        {
            nodes.push((self.nodes[k].0, self.nodes[k].1.clone()));
            k = k + 1;
        }
        assert(configs.deep_view() =~= self.configs.deep_view());
        assert(nodes.deep_view() =~= self.nodes.deep_view());
        Membership { configs, nodes }
    }
}

/// The membership, and the log position that set it.
#[derive(Debug, PartialEq, Eq)]
pub struct StoredMembership {
    pub log_id: Option<LogId>,
    pub membership: Membership,
}

/// What a `StoredMembership` says.
#[verifier::ext_equal]
pub struct StoredMembershipView {
    pub log_id: Option<LogId>,
    pub membership: MembershipView,
}

impl View for StoredMembership {
    type V = StoredMembershipView;

    open spec fn view(&self) -> StoredMembershipView {
        StoredMembershipView { log_id: self.log_id, membership: self.membership@ }
    }
}

impl DeepView for StoredMembership {
    type V = StoredMembershipView;

    open spec fn deep_view(&self) -> StoredMembershipView {
        self@
    }
}

impl Clone for StoredMembership {
    fn clone(&self) -> (r: Self)
        ensures
            r@ == self@,
    {
        StoredMembership { log_id: self.log_id, membership: self.membership.clone() }
    }
}

/// The replicated state.
#[derive(Debug)]
pub struct StateMachineData {
    pub last_applied_log: Option<LogId>,
    pub last_membership: StoredMembership,
    pub manifests: StringMap<StringMap<ManifestEntry>>,
    pub tags: StringMap<StringMap<String>>,
    /// How many manifests refer to each blob.
    pub blob_ref_counts: StringMap<u64>,
    pub blob_delete_requests: StringMap<u64>,
    pub mirror_rules: StringMap<MirrorRule>,
    pub proxy_caches: StringMap<ProxyCache>,
    pub proxy_cache_tag_validations: ProxyCacheTagValidations,
    pub warm_images: StringMap<WarmImage>,
    pub sync_jobs: StringMap<SyncJob>,
    pub sync_job_runs: StringMap<Vec<SyncJobRun>>,
    pub helm_charts: StringMap<HelmChart>,
    pub helm_chart_versions: StringMap<Vec<HelmChartVersion>>,
    pub personal_access_tokens: StringMap<PersonalAccessToken>,
    /// Repositories as objects of their own, by name.
    pub repositories: StringMap<Repository>,
    pub permission_rules: StringMap<PermissionRule>,
    /// Live claims of first path segments. Content is created under a handle
    /// only while its claim is live.
    pub namespaces: StringMap<Namespace>,
    /// Tombstones of handles that were claimed before.
    pub released_handles: StringMap<ReleasedHandle>,
}

/// The state as a mathematical value.
#[verifier::ext_equal]
pub struct StateView {
    pub last_applied_log: Option<LogId>,
    pub last_membership: StoredMembershipView,
    pub manifests: Map<Seq<char>, Map<Seq<char>, ManifestEntryView>>,
    pub tags: Map<Seq<char>, Map<Seq<char>, Seq<char>>>,
    pub blob_ref_counts: Map<Seq<char>, u64>,
    pub blob_delete_requests: Map<Seq<char>, u64>,
    pub mirror_rules: Map<Seq<char>, MirrorRuleView>,
    pub proxy_caches: Map<Seq<char>, ProxyCacheView>,
    pub proxy_cache_tag_validations: ValidationsModel,
    pub warm_images: Map<Seq<char>, WarmImageView>,
    pub sync_jobs: Map<Seq<char>, SyncJobView>,
    pub sync_job_runs: Map<Seq<char>, Seq<SyncJobRunView>>,
    pub helm_charts: Map<Seq<char>, HelmChartView>,
    pub helm_chart_versions: Map<Seq<char>, Seq<HelmChartVersionView>>,
    pub personal_access_tokens: Map<Seq<char>, PersonalAccessTokenView>,
    pub repositories: Map<Seq<char>, RepositoryView>,
    pub permission_rules: Map<Seq<char>, PermissionRuleView>,
    pub namespaces: Map<Seq<char>, NamespaceView>,
    pub released_handles: Map<Seq<char>, ReleasedHandleView>,
}

impl View for StateMachineData {
    type V = StateView;

    open spec fn view(&self) -> StateView {
        StateView {
            last_applied_log: self.last_applied_log.deep_view(),
            last_membership: self.last_membership.deep_view(),
            manifests: self.manifests.deep_view(),
            tags: self.tags.deep_view(),
            blob_ref_counts: self.blob_ref_counts.deep_view(),
            blob_delete_requests: self.blob_delete_requests.deep_view(),
            mirror_rules: self.mirror_rules.deep_view(),
            proxy_caches: self.proxy_caches.deep_view(),
            proxy_cache_tag_validations: self.proxy_cache_tag_validations.deep_view(),
            warm_images: self.warm_images.deep_view(),
            sync_jobs: self.sync_jobs.deep_view(),
            sync_job_runs: self.sync_job_runs.deep_view(),
            helm_charts: self.helm_charts.deep_view(),
            helm_chart_versions: self.helm_chart_versions.deep_view(),
            personal_access_tokens: self.personal_access_tokens.deep_view(),
            repositories: self.repositories.deep_view(),
            permission_rules: self.permission_rules.deep_view(),
            namespaces: self.namespaces.deep_view(),
            released_handles: self.released_handles.deep_view(),
        }
    }
}

impl DeepView for StateMachineData {
    type V = StateView;

    open spec fn deep_view(&self) -> StateView {
        self@
    }
}

impl Default for StateMachineData {
    fn default() -> (r: Self)
        ensures
            r@ == empty_state(),
    {
        let r = StateMachineData {
            last_applied_log: None,
            last_membership: StoredMembership {
                log_id: None,
                membership: Membership { configs: Vec::new(), nodes: Vec::new() },
            },
            manifests: StringMap::new(),
            tags: StringMap::new(),
            blob_ref_counts: StringMap::new(),
            blob_delete_requests: StringMap::new(),
            mirror_rules: StringMap::new(),
            proxy_caches: StringMap::new(),
            proxy_cache_tag_validations: StringMap::new(),
            warm_images: StringMap::new(),
            sync_jobs: StringMap::new(),
            sync_job_runs: StringMap::new(),
            helm_charts: StringMap::new(),
            helm_chart_versions: StringMap::new(),
            personal_access_tokens: StringMap::new(),
            repositories: StringMap::new(),
            permission_rules: StringMap::new(),
            namespaces: StringMap::new(),
            released_handles: StringMap::new(),
        };
        assert(r@ =~= empty_state());
        r
    }
}

/// The state before anything was applied.
pub open spec fn empty_state() -> StateView {
    StateView {
        last_applied_log: None,
        last_membership: StoredMembershipView {
            log_id: None,
            membership: MembershipView { configs: Seq::empty(), nodes: Seq::empty() },
        },
        manifests: Map::empty(),
        tags: Map::empty(),
        blob_ref_counts: Map::empty(),
        blob_delete_requests: Map::empty(),
        mirror_rules: Map::empty(),
        proxy_caches: Map::empty(),
        proxy_cache_tag_validations: Map::empty(),
        warm_images: Map::empty(),
        sync_jobs: Map::empty(),
        sync_job_runs: Map::empty(),
        helm_charts: Map::empty(),
        helm_chart_versions: Map::empty(),
        personal_access_tokens: Map::empty(),
        repositories: Map::empty(),
        permission_rules: Map::empty(),
        namespaces: Map::empty(),
        released_handles: Map::empty(),
    }
}

impl Clone for StateMachineData {
    fn clone(&self) -> (r: Self)
        ensures
            r@ == self@,
    {
        StateMachineData {
            last_applied_log: self.last_applied_log,
            last_membership: self.last_membership.clone(),
            manifests: self.manifests.clone(),
            tags: self.tags.clone(),
            blob_ref_counts: self.blob_ref_counts.clone(),
            blob_delete_requests: self.blob_delete_requests.clone(),
            mirror_rules: self.mirror_rules.clone(),
            proxy_caches: self.proxy_caches.clone(),
            proxy_cache_tag_validations: self.proxy_cache_tag_validations.clone(),
            warm_images: self.warm_images.clone(),
            sync_jobs: self.sync_jobs.clone(),
            sync_job_runs: self.sync_job_runs.clone(),
            helm_charts: self.helm_charts.clone(),
            helm_chart_versions: self.helm_chart_versions.clone(),
            personal_access_tokens: self.personal_access_tokens.clone(),
            repositories: self.repositories.clone(),
            permission_rules: self.permission_rules.clone(),
            namespaces: self.namespaces.clone(),
            released_handles: self.released_handles.clone(),
        }
    }
}

} // verus!
