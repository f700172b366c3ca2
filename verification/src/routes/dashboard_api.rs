//! The lists of the dashboard: repositories and manifests, filtered, sorted and
//! cut into pages.
use super::globs::{fits, glob_matches};
use crate::auth::grants::{GrantSource, RepositoryAction};
use crate::clones::clone_option;
use crate::error::{ErrorView, LayerhouseError};
use crate::listing::{
    page_of, paginate, predicate, relation, select, sort_list, sorts, stable_sorted, Selection,
    SortOrder,
};
use crate::oci::json::{json_rendered, JsonView};
use crate::store::metadata::types::{
    ManifestSummary, ManifestSummaryView, RepositorySummary, RepositorySummaryView, Visibility,
};
use crate::text::{
    concat2, concat3, concat5, contains_str, contains_text, decimal, decimal_text, join, joined,
    lemma_text_lt_irreflexive, lemma_text_lt_total, lemma_text_lt_transitive, lowercase,
    starts_with, str_equal, str_less, text_lt, to_lowercase,
};
use vstd::prelude::*;

verus! {

/// How many items a page has where the client does not say.
pub const DEFAULT_PAGE_SIZE: usize = 50;

/// How many items a page has at most.
pub const MAX_PAGE_SIZE: usize = 200;

// ── Values ───────────────────────────────────────────────────────────────

/// Which repositories are listed.
#[derive(Debug, Clone, Copy, PartialEq, Eq, Structural)]
pub enum OwnershipFilter {
    All,
    Mine,
    Shared,
    Public,
}

impl DeepView for OwnershipFilter {
    type V = OwnershipFilter;

    open spec fn deep_view(&self) -> OwnershipFilter {
        *self
    }
}

impl Default for OwnershipFilter {
    fn default() -> (r: Self)
        ensures
            r == OwnershipFilter::All,
    {
        OwnershipFilter::All
    }
}

/// What a client asks of the list of repositories.
#[derive(Debug)]
pub struct RepositoryQuery {
    pub n: Option<usize>,
    pub last: Option<String>,
    pub q: Option<String>,
    pub recency: Option<String>,
    pub sort: Option<String>,
    pub filter: OwnershipFilter,
}

/// What a `RepositoryQuery` holds.
#[verifier::ext_equal]
pub struct RepositoryQueryView {
    pub n: Option<usize>,
    pub last: Option<Seq<char>>,
    pub q: Option<Seq<char>>,
    pub recency: Option<Seq<char>>,
    pub sort: Option<Seq<char>>,
    pub filter: OwnershipFilter,
}

impl View for RepositoryQuery {
    type V = RepositoryQueryView;

    open spec fn view(&self) -> RepositoryQueryView {
        RepositoryQueryView {
            n: self.n,
            last: self.last.deep_view(),
            q: self.q.deep_view(),
            recency: self.recency.deep_view(),
            sort: self.sort.deep_view(),
            filter: self.filter,
        }
    }
}

impl DeepView for RepositoryQuery {
    type V = RepositoryQueryView;

    open spec fn deep_view(&self) -> RepositoryQueryView {
        self@
    }
}

impl Clone for RepositoryQuery {
    fn clone(&self) -> (r: Self)
        ensures
            r@ == self@,
    {
        RepositoryQuery {
            n: self.n,
            last: clone_option(&self.last),
            q: clone_option(&self.q),
            recency: clone_option(&self.recency),
            sort: clone_option(&self.sort),
            filter: self.filter,
        }
    }
}

/// A repository as it is listed, with what the client may do with it.
#[derive(Debug)]
pub struct EnrichedRepositorySummary {
    pub name: String,
    pub tag_count: usize,
    pub manifest_count: usize,
    pub stored_size_bytes: u64,
    pub manifest_size_bytes: u64,
    pub last_modified: u64,
    pub description: String,
    pub created_by: Option<String>,
    pub visibility: Visibility,
    pub access_level: RepositoryAction,
    pub max_grantable: RepositoryAction,
    pub grant_source: GrantSource,
}

/// What a `EnrichedRepositorySummary` holds.
#[verifier::ext_equal]
pub struct EnrichedRepositorySummaryView {
    pub name: Seq<char>,
    pub tag_count: usize,
    pub manifest_count: usize,
    pub stored_size_bytes: u64,
    pub manifest_size_bytes: u64,
    pub last_modified: u64,
    pub description: Seq<char>,
    pub created_by: Option<Seq<char>>,
    pub visibility: Visibility,
    pub access_level: RepositoryAction,
    pub max_grantable: RepositoryAction,
    pub grant_source: GrantSource,
}

impl View for EnrichedRepositorySummary {
    type V = EnrichedRepositorySummaryView;

    open spec fn view(&self) -> EnrichedRepositorySummaryView {
        EnrichedRepositorySummaryView {
            name: self.name.deep_view(),
            tag_count: self.tag_count,
            manifest_count: self.manifest_count,
            stored_size_bytes: self.stored_size_bytes,
            manifest_size_bytes: self.manifest_size_bytes,
            last_modified: self.last_modified,
            description: self.description.deep_view(),
            created_by: self.created_by.deep_view(),
            visibility: self.visibility,
            access_level: self.access_level,
            max_grantable: self.max_grantable,
            grant_source: self.grant_source,
        }
    }
}

impl DeepView for EnrichedRepositorySummary {
    type V = EnrichedRepositorySummaryView;

    open spec fn deep_view(&self) -> EnrichedRepositorySummaryView {
        self@
    }
}

impl Clone for EnrichedRepositorySummary {
    fn clone(&self) -> (r: Self)
        ensures
            r@ == self@,
    {
        EnrichedRepositorySummary {
            name: self.name.clone(),
            tag_count: self.tag_count,
            manifest_count: self.manifest_count,
            stored_size_bytes: self.stored_size_bytes,
            manifest_size_bytes: self.manifest_size_bytes,
            last_modified: self.last_modified,
            description: self.description.clone(),
            created_by: clone_option(&self.created_by),
            visibility: self.visibility,
            access_level: self.access_level,
            max_grantable: self.max_grantable,
            grant_source: self.grant_source,
        }
    }
}

/// What a client asks of the list of manifests.
#[derive(Debug)]
pub struct ManifestQuery {
    pub n: Option<usize>,
    pub last: Option<String>,
    pub q: Option<String>,
    pub kind: Option<String>,
    pub tag: Option<String>,
    pub tagged: Option<bool>,
    pub platform: Option<String>,
    pub media_type: Option<String>,
    pub stored_size_min: Option<u64>,
    pub stored_size_max: Option<u64>,
    pub created_after: Option<String>,
    pub created_before: Option<String>,
    pub sort: Option<String>,
}

/// What a `ManifestQuery` holds.
#[verifier::ext_equal]
pub struct ManifestQueryView {
    pub n: Option<usize>,
    pub last: Option<Seq<char>>,
    pub q: Option<Seq<char>>,
    pub kind: Option<Seq<char>>,
    pub tag: Option<Seq<char>>,
    pub tagged: Option<bool>,
    pub platform: Option<Seq<char>>,
    pub media_type: Option<Seq<char>>,
    pub stored_size_min: Option<u64>,
    pub stored_size_max: Option<u64>,
    pub created_after: Option<Seq<char>>,
    pub created_before: Option<Seq<char>>,
    pub sort: Option<Seq<char>>,
}

impl View for ManifestQuery {
    type V = ManifestQueryView;

    open spec fn view(&self) -> ManifestQueryView {
        ManifestQueryView {
            n: self.n,
            last: self.last.deep_view(),
            q: self.q.deep_view(),
            kind: self.kind.deep_view(),
            tag: self.tag.deep_view(),
            tagged: self.tagged,
            platform: self.platform.deep_view(),
            media_type: self.media_type.deep_view(),
            stored_size_min: self.stored_size_min,
            stored_size_max: self.stored_size_max,
            created_after: self.created_after.deep_view(),
            created_before: self.created_before.deep_view(),
            sort: self.sort.deep_view(),
        }
    }
}

impl DeepView for ManifestQuery {
    type V = ManifestQueryView;

    open spec fn deep_view(&self) -> ManifestQueryView {
        self@
    }
}

impl Clone for ManifestQuery {
    fn clone(&self) -> (r: Self)
        ensures
            r@ == self@,
    {
        ManifestQuery {
            n: self.n,
            last: clone_option(&self.last),
            q: clone_option(&self.q),
            kind: clone_option(&self.kind),
            tag: clone_option(&self.tag),
            tagged: self.tagged,
            platform: clone_option(&self.platform),
            media_type: clone_option(&self.media_type),
            stored_size_min: self.stored_size_min,
            stored_size_max: self.stored_size_max,
            created_after: clone_option(&self.created_after),
            created_before: clone_option(&self.created_before),
            sort: clone_option(&self.sort),
        }
    }
}

/// A page of repositories.
#[derive(Debug)]
pub struct RepositoryListResponse {
    pub repositories: Vec<EnrichedRepositorySummary>,
    pub total_reachable: u64,
    pub next_cursor: Option<String>,
    pub has_more: bool,
}

/// A page of manifests.
#[derive(Debug)]
pub struct ManifestListResponse {
    pub name: String,
    pub manifests: Vec<ManifestSummary>,
    pub total: usize,
    pub has_more: bool,
    pub next: Option<String>,
}

/// What a page of a list holds.
#[verifier::ext_equal]
pub struct PageView<V> {
    pub items: Seq<V>,
    pub total: nat,
    pub has_more: bool,
    pub next: Option<Seq<char>>,
}

impl View for RepositoryListResponse {
    type V = PageView<EnrichedRepositorySummaryView>;

    open spec fn view(&self) -> PageView<EnrichedRepositorySummaryView> {
        PageView {
            items: self.repositories.deep_view(),
            total: self.total_reachable as nat,
            has_more: self.has_more,
            next: self.next_cursor.deep_view(),
        }
    }
}

/// What a `ManifestListResponse` holds: the repository and the page of its manifests.
#[verifier::ext_equal]
pub struct ManifestListView {
    pub name: Seq<char>,
    pub page: PageView<ManifestSummaryView>,
}

impl View for ManifestListResponse {
    type V = ManifestListView;

    open spec fn view(&self) -> ManifestListView {
        ManifestListView {
            name: self.name@,
            page: PageView {
                items: self.manifests.deep_view(),
                total: self.total as nat,
                has_more: self.has_more,
                next: self.next.deep_view(),
            },
        }
    }
}

// ── Pages ────────────────────────────────────────────────────────────────

/// How many items a page has.
pub open spec fn page_len(n: Option<usize>) -> usize {
    match n {
        None => DEFAULT_PAGE_SIZE,
        Some(0) => 1,
        Some(k) => if k > MAX_PAGE_SIZE {
            MAX_PAGE_SIZE
        } else {
            k
        },
    }
}

/// How many items a page has: as many as asked for, within limits.
pub fn page_size(n: Option<usize>) -> (r: usize)
    ensures
        r == page_len(n),
        1 <= r <= MAX_PAGE_SIZE,
{
    match n {
        None => DEFAULT_PAGE_SIZE,
        Some(k) => if k == 0 {
            1
        } else if k > MAX_PAGE_SIZE {
            MAX_PAGE_SIZE
        } else {
            k
        },
    }
}

/// Where the page behind an item is.
pub open spec fn next_page(base: Seq<char>, n: usize, last: Seq<char>) -> Seq<char> {
    base + "?n="@ + decimal_text(n as nat) + "&last="@ + last
}

/// Where the page behind an item is.
pub fn next_url(base: &str, n: usize, last: &str) -> (r: String)
    ensures
        r@ == next_page(base@, n, last@),
{
    concat5(base, "?n=", &decimal(n as u64), "&last=", last)
}

/// The `Link` header of a page that is not the last.
pub fn link_header(has_more: bool, next: &Option<String>) -> (r: Option<String>)
    ensures
        r.deep_view() == match next.deep_view() {
            Some(url) if has_more => Some("<"@ + url + ">; rel=\"next\""@),
            _ => None,
        },
{
    if !has_more {
        return None;
    }
    match next {
        Some(url) => Some(concat3("<", url, ">; rel=\"next\"")),
        None => None,
    }
}

// ── Repositories ─────────────────────────────────────────────────────────

/// A repository with what the client may do with it.
pub open spec fn enriched_view(
    repo: RepositorySummaryView,
    action: RepositoryAction,
    source: GrantSource,
) -> EnrichedRepositorySummaryView {
    EnrichedRepositorySummaryView {
        name: repo.name,
        tag_count: repo.tag_count,
        manifest_count: repo.manifest_count,
        stored_size_bytes: repo.stored_size_bytes,
        manifest_size_bytes: repo.manifest_size_bytes,
        last_modified: repo.last_modified,
        description: repo.description,
        created_by: repo.owner,
        visibility: repo.visibility,
        access_level: action,
        max_grantable: action,
        grant_source: source,
    }
}

impl EnrichedRepositorySummary {
    /// A repository with what the client may do with it.
    pub fn from_summary(
        repo: RepositorySummary,
        action: RepositoryAction,
        source: GrantSource,
    ) -> (r: Self)
        ensures
            r@ == enriched_view(repo@, action, source),
    {
        EnrichedRepositorySummary {
            name: repo.name,
            tag_count: repo.tag_count,
            manifest_count: repo.manifest_count,
            stored_size_bytes: repo.stored_size_bytes,
            manifest_size_bytes: repo.manifest_size_bytes,
            last_modified: repo.last_modified,
            description: repo.description,
            created_by: repo.owner,
            visibility: repo.visibility,
            access_level: action,
            max_grantable: action,
            grant_source: source,
        }
    }

    /// A repository of a registry where nobody has to log in: everybody may do
    /// everything.
    pub fn open_to_all(repo: RepositorySummary) -> (r: Self)
        ensures
            r@ == enriched_view(repo@, RepositoryAction::Delete, GrantSource::Public),
    {
        Self::from_summary(repo, RepositoryAction::Delete, GrantSource::Public)
    }
}

/// The repositories that a client has a grant on, in order, each with what the
/// client may do with it.
pub open spec fn granted_repositories(
    repos: Seq<RepositorySummaryView>,
    access: Seq<Option<(RepositoryAction, GrantSource)>>,
) -> Seq<EnrichedRepositorySummaryView>
    decreases repos.len(),
{
    if repos.len() == 0 {
        Seq::empty()
    } else {
        let front = granted_repositories(repos.drop_last(), access);
        match access[repos.len() - 1] {
            Some((action, source)) => front.push(enriched_view(repos.last(), action, source)),
            None => front,
        }
    }
}

/// The repositories that a client sees. Where nobody has to log in, these are all,
/// and everybody may do everything with them.
pub open spec fn visible_to(
    repos: Seq<RepositorySummaryView>,
    access: Option<Seq<Option<(RepositoryAction, GrantSource)>>>,
) -> Seq<EnrichedRepositorySummaryView> {
    match access {
        Some(grants) => granted_repositories(repos, grants),
        None => repos.map_values(
            |repo: RepositorySummaryView|
                enriched_view(repo, RepositoryAction::Delete, GrantSource::Public),
        ),
    }
}

/// The repositories that a client sees, with what the client may do with them. There
/// is one entry of `access` for each repository, and none at all where nobody has to
/// log in.
pub fn visible_repositories(
    repos: &Vec<RepositorySummary>,
    access: &Option<Vec<Option<(RepositoryAction, GrantSource)>>>,
) -> (r: Vec<EnrichedRepositorySummary>)
    requires
        access matches Some(grants) ==> grants@.len() == repos@.len(),
    ensures
        r.deep_view() == visible_to(
            repos.deep_view(),
            match access {
                Some(grants) => Some(grants@),
                None => None,
            },
        ),
{
    let ghost all = repos.deep_view();
    let mut seen: Vec<EnrichedRepositorySummary> = Vec::new();
    let mut i: usize = 0;
    match access {
        Some(grants) => {
            assert(seen.deep_view() =~= granted_repositories(all.take(0), grants@));
            while i < repos.len()
                invariant
                    all == repos.deep_view(),
                    grants@.len() == repos@.len(),
                    i <= repos@.len(),
                    seen.deep_view() == granted_repositories(all.take(i as int), grants@),
                decreases repos@.len() - i,
            {
                let ghost before = seen.deep_view();
                assert(all.take(i + 1).drop_last() =~= all.take(i as int));
                assert(all.take(i + 1).last() == repos@[i as int]@);
                if let Some((action, source)) = grants[i] {
                    let repo = EnrichedRepositorySummary::from_summary(
                        repos[i].clone(),
                        action,
                        source,
                    );
                    seen.push(repo);
                    assert(seen.deep_view() =~= before.push(repo@));
                }
                i = i + 1;
            }
            assert(all.take(i as int) =~= all);
        },
        None => {
            while i < repos.len()
                invariant
                    i <= repos@.len(),
                    seen@.len() == i,
                    forall|j: int|
                        0 <= j < i ==> (#[trigger] seen@[j])@ == enriched_view(
                            repos@[j]@,
                            RepositoryAction::Delete,
                            GrantSource::Public,
                        ),
                decreases repos@.len() - i,
            {
                seen.push(EnrichedRepositorySummary::open_to_all(repos[i].clone()));
                i = i + 1;
            }
            assert(seen.deep_view() =~= visible_to(all, None));
        },
    }
    seen
}

/// A repository is listed where the client has a grant on it, and nowhere else: what
/// is listed comes from a repository with a grant, and every repository with a grant
/// is listed with that grant.
pub proof fn lemma_only_granted_repositories_are_visible(
    repos: Seq<RepositorySummaryView>,
    access: Seq<Option<(RepositoryAction, GrantSource)>>,
)
    ensures
        forall|repo: EnrichedRepositorySummaryView| #[trigger]
            granted_repositories(repos, access).contains(repo) <==> exists|i: int|
                0 <= i < repos.len() && is_granted_at(repos, access, i, repo),
    decreases repos.len(),
{
    let listed = granted_repositories(repos, access);
    if repos.len() > 0 {
        let front = repos.drop_last();
        let before = granted_repositories(front, access);
        let last = repos.len() - 1;
        lemma_only_granted_repositories_are_visible(front, access);
        assert forall|repo: EnrichedRepositorySummaryView| #[trigger]
            listed.contains(repo) implies exists|i: int|
            0 <= i < repos.len() && is_granted_at(repos, access, i, repo) by {
            let k = choose|k: int| 0 <= k < listed.len() && listed[k] == repo;
            if k < before.len() {
                assert(before[k] == repo);
                assert(before.contains(repo));
                let i = choose|i: int|
                    0 <= i < front.len() && is_granted_at(front, access, i, repo);
                assert(is_granted_at(repos, access, i, repo));
            } else {
                assert(is_granted_at(repos, access, last, repo));
            }
        }
        assert forall|repo: EnrichedRepositorySummaryView, i: int|
            0 <= i < repos.len() && #[trigger] is_granted_at(repos, access, i, repo) implies
            listed.contains(repo) by {
            if i < last {
                assert(is_granted_at(front, access, i, repo));
                assert(before.contains(repo));
                let k = choose|k: int| 0 <= k < before.len() && before[k] == repo;
                assert(listed[k] == repo);
            } else {
                assert(listed[before.len() as int] == repo);
            }
        }
    }
}

/// Whether a repository is the one at a position, with the grant on it.
pub open spec fn is_granted_at(
    repos: Seq<RepositorySummaryView>,
    access: Seq<Option<(RepositoryAction, GrantSource)>>,
    i: int,
    repo: EnrichedRepositorySummaryView,
) -> bool {
    access[i] matches Some(grant) && repo == enriched_view(repos[i], grant.0, grant.1)
}

/// Whether a repository is in the personal namespace of a user,
/// `users/<username>/*`.
pub open spec fn is_personal(username: Seq<char>, repository: Seq<char>) -> bool {
    username.len() > 0 && ("users/"@ + username + "/"@).is_prefix_of(repository)
}

/// Whether a repository is in the personal namespace of a user.
pub fn in_personal_namespace(username: &str, repository: &str) -> (r: bool)
    ensures
        r == is_personal(username@, repository@),
{
    username.unicode_len() > 0 && starts_with(repository, &concat3("users/", username, "/"))
}

/// How many seconds a repository counts as recently changed.
pub const RECENT_SECS: u64 = 604800;

/// After how many seconds a repository counts as stale.
pub const STALE_SECS: u64 = 2592000;

/// How long ago something was.
pub open spec fn age(now: u64, then_at: u64) -> int {
    if now >= then_at {
        now - then_at
    } else {
        0
    }
}

/// What a list of repositories is filtered by.
pub struct RepositorySelection {
    pub filter: OwnershipFilter,
    /// The name of the user, where somebody is logged in.
    pub username: Option<String>,
    /// The text that names must hold, in lowercase.
    pub text: String,
    pub recency: Option<String>,
    pub now: u64,
}

/// Whether a repository passes the ownership filter. Without a user everything
/// passes.
pub open spec fn passes_ownership(
    filter: OwnershipFilter,
    username: Option<Seq<char>>,
    repo: EnrichedRepositorySummaryView,
) -> bool {
    match username {
        None => true,
        Some(name) => match filter {
            OwnershipFilter::All => true,
            OwnershipFilter::Mine => is_personal(name, repo.name),
            OwnershipFilter::Shared => !is_personal(name, repo.name),
            OwnershipFilter::Public => repo.visibility is PublicPull,
        },
    }
}

/// Whether a text holds another, letters compared in lowercase.
pub open spec fn mentions(text: Seq<char>, wanted: Seq<char>) -> bool {
    wanted.len() == 0 || contains_text(lowercase(text), wanted)
}

/// Whether a repository passes the filter on its last change.
pub open spec fn passes_recency(recency: Option<Seq<char>>, last_modified: u64, now: u64) -> bool {
    match recency {
        Some(r) => if r == "recent"@ {
            age(now, last_modified) <= RECENT_SECS
        } else if r == "stale"@ {
            age(now, last_modified) >= STALE_SECS
        } else {
            true
        },
        None => true,
    }
}

impl Selection<EnrichedRepositorySummary> for RepositorySelection {
    open spec fn selects(&self, v: EnrichedRepositorySummaryView) -> bool {
        &&& passes_ownership(self.filter, self.username.deep_view(), v)
        &&& mentions(v.name, self.text@)
        &&& passes_recency(self.recency.deep_view(), v.last_modified, self.now)
    }

    fn is_selected(&self, item: &EnrichedRepositorySummary) -> (r: bool) {
        let owned = match &self.username {
            None => true,
            Some(name) => match self.filter {
                OwnershipFilter::All => true,
                OwnershipFilter::Mine => in_personal_namespace(name, &item.name),
                OwnershipFilter::Shared => !in_personal_namespace(name, &item.name),
                OwnershipFilter::Public => match item.visibility {
                    Visibility::PublicPull => true,
                    Visibility::Private => false,
                },
            },
        };
        let named = self.text.as_str().unicode_len() == 0 || contains_str(
            &to_lowercase(&item.name),
            &self.text,
        );
        let elapsed: u64 = self.now.saturating_sub(item.last_modified);
        let timely = match &self.recency {
            Some(r) => if str_equal(r, "recent") {
                elapsed <= RECENT_SECS
            } else if str_equal(r, "stale") {
                elapsed >= STALE_SECS
            } else {
                true
            },
            None => true,
        };
        proof {
            reveal_strlit("recent");
            reveal_strlit("stale");
            assert("recent"@.len() == 6 && "stale"@.len() == 5);
        }
        owned && named && timely
    }
}

/// The orders of a list of repositories.
#[derive(Debug, Clone, Copy, PartialEq, Eq, Structural)]
pub enum RepositorySort {
    NameAsc,
    TagCountDesc,
    UpdatedAsc,
    UpdatedDesc,
}

/// The order that a client asks for; the last changed first where it asks for
/// none that is known.
pub open spec fn repository_sort_of(sort: Option<Seq<char>>) -> RepositorySort {
    match sort {
        Some(s) => if s == "name_asc"@ {
            RepositorySort::NameAsc
        } else if s == "tag_count_desc"@ {
            RepositorySort::TagCountDesc
        } else if s == "updated_asc"@ {
            RepositorySort::UpdatedAsc
        } else {
            RepositorySort::UpdatedDesc
        },
        None => RepositorySort::UpdatedDesc,
    }
}

/// The order that a client asks for.
pub fn repository_sort(sort: &Option<String>) -> (r: RepositorySort)
    ensures
        r == repository_sort_of(sort.deep_view()),
{
    match sort {
        Some(s) => if str_equal(s, "name_asc") {
            RepositorySort::NameAsc
        } else if str_equal(s, "tag_count_desc") {
            RepositorySort::TagCountDesc
        } else if str_equal(s, "updated_asc") {
            RepositorySort::UpdatedAsc
        } else {
            RepositorySort::UpdatedDesc
        },
        None => RepositorySort::UpdatedDesc,
    }
}

/// Whether a repository is to stand before another. Names settle what is equal
/// otherwise.
pub open spec fn repository_before(
    sort: RepositorySort,
    a: EnrichedRepositorySummaryView,
    b: EnrichedRepositorySummaryView,
) -> bool {
    match sort {
        RepositorySort::NameAsc => text_lt(a.name, b.name),
        RepositorySort::TagCountDesc => a.tag_count > b.tag_count || (a.tag_count == b.tag_count
            && text_lt(a.name, b.name)),
        RepositorySort::UpdatedAsc => a.last_modified < b.last_modified || (a.last_modified
            == b.last_modified && text_lt(a.name, b.name)),
        RepositorySort::UpdatedDesc => a.last_modified > b.last_modified || (a.last_modified
            == b.last_modified && text_lt(a.name, b.name)),
    }
}

impl SortOrder<EnrichedRepositorySummary> for RepositorySort {
    open spec fn before(
        &self,
        a: EnrichedRepositorySummaryView,
        b: EnrichedRepositorySummaryView,
    ) -> bool {
        repository_before(*self, a, b)
    }

    fn is_before(&self, a: &EnrichedRepositorySummary, b: &EnrichedRepositorySummary) -> (r: bool) {
        match self {
            RepositorySort::NameAsc => str_less(&a.name, &b.name),
            RepositorySort::TagCountDesc => a.tag_count > b.tag_count || (a.tag_count
                == b.tag_count && str_less(&a.name, &b.name)),
            RepositorySort::UpdatedAsc => a.last_modified < b.last_modified || (a.last_modified
                == b.last_modified && str_less(&a.name, &b.name)),
            RepositorySort::UpdatedDesc => a.last_modified > b.last_modified || (a.last_modified
                == b.last_modified && str_less(&a.name, &b.name)),
        }
    }
}

/// The keys by which repositories are found again.
pub open spec fn repository_keys(items: Seq<EnrichedRepositorySummaryView>) -> Seq<Seq<char>> {
    items.map_values(|r: EnrichedRepositorySummaryView| r.name)
}

/// What a query of repositories selects.
pub open spec fn repository_wanted(
    query: RepositoryQueryView,
    username: Option<Seq<char>>,
    now: u64,
) -> spec_fn(EnrichedRepositorySummaryView) -> bool {
    |v: EnrichedRepositorySummaryView|
        {
            &&& passes_ownership(query.filter, username, v)
            &&& mentions(v.name, search_text(query.q))
            &&& passes_recency(query.recency, v.last_modified, now)
        }
}

/// The text that a client searches for, in lowercase.
pub open spec fn search_text(q: Option<Seq<char>>) -> Seq<char> {
    match q {
        Some(text) => lowercase(text),
        None => Seq::empty(),
    }
}

/// The repositories that a query lists, in order, before they are cut into
/// pages.
pub open spec fn listed_repositories(
    repos: Seq<EnrichedRepositorySummaryView>,
    query: RepositoryQueryView,
    username: Option<Seq<char>>,
    now: u64,
) -> Seq<EnrichedRepositorySummaryView> {
    let sort = repository_sort_of(query.sort);
    stable_sorted(
        repos.filter(repository_wanted(query, username, now)),
        |a: EnrichedRepositorySummaryView, b: EnrichedRepositorySummaryView|
            repository_before(sort, a, b),
    )
}

/// A page of repositories.
pub open spec fn repository_page(
    repos: Seq<EnrichedRepositorySummaryView>,
    query: RepositoryQueryView,
    username: Option<Seq<char>>,
    now: u64,
) -> PageView<EnrichedRepositorySummaryView> {
    let listed = listed_repositories(repos, query, username, now);
    let n = page_len(query.n);
    let page = page_of(listed, repository_keys(listed), n as int, query.last);
    PageView {
        items: page.0,
        total: listed.len(),
        has_more: page.1,
        next: if page.0.len() > 0 {
            Some(next_page("/api/v1/repositories"@, n, page.0.last().name))
        } else {
            None
        },
    }
}

/// Owned copies of some repositories.
fn own_repositories(items: &Vec<&EnrichedRepositorySummary>) -> (r: Vec<EnrichedRepositorySummary>)
    ensures
        r.deep_view() == items.deep_view(),
{
    let mut r: Vec<EnrichedRepositorySummary> = Vec::new();
    let mut i: usize = 0;
    while i < items.len()
        invariant
            i <= items@.len(),
            r@.len() == i,
            forall|j: int| 0 <= j < i ==> (#[trigger] r@[j])@ == items@[j]@,
        decreases items@.len() - i,
    {
        r.push(items[i].clone());
        i = i + 1;
    }
    assert(r.deep_view() =~= items.deep_view());
    r
}

/// A page of repositories. Repositories that the client may not pull are not
/// among those given.
pub fn list_repositories(
    repos: &Vec<EnrichedRepositorySummary>,
    query: &RepositoryQuery,
    username: Option<String>,
    now: u64,
) -> (r: RepositoryListResponse)
    ensures
        r@ == repository_page(repos.deep_view(), query@, username.deep_view(), now),
{
    let text = match &query.q {
        Some(q) => to_lowercase(q),
        None => String::new(),
    };
    let ghost named = username.deep_view();
    let selection = RepositorySelection {
        filter: query.filter,
        username,
        text,
        recency: clone_option(&query.recency),
        now,
    };
    proof {
        assert(text@ =~= search_text(query@.q));
        assert(predicate::<EnrichedRepositorySummary, RepositorySelection>(selection)
            =~= repository_wanted(query@, named, now));
    }
    let chosen = select(repos, &selection);
    let sort = repository_sort(&query.sort);
    proof {
        assert(relation::<EnrichedRepositorySummary, RepositorySort>(sort) =~= (
        |a: EnrichedRepositorySummaryView, b: EnrichedRepositorySummaryView|
            repository_before(sort, a, b)));
    }
    let listed = sort_list(chosen, &sort);
    let ghost all = listed.deep_view();
    let total: usize = listed.len();
    let mut keys: Vec<String> = Vec::new();
    let mut i: usize = 0;
    while i < listed.len()
        invariant
            i <= listed@.len(),
            keys@.len() == i,
            forall|j: int| 0 <= j < i ==> (#[trigger] keys@[j])@ == listed@[j]@.name,
        decreases listed@.len() - i,
    {
        keys.push(listed[i].name.clone());
        i = i + 1;
    }
    assert(keys.deep_view() =~= repository_keys(all));
    let n: usize = page_size(query.n);
    let last: Option<&str> = match &query.last {
        Some(l) => Some(l.as_str()),
        None => None,
    };
    let (page, has_more) = paginate(listed, &keys, n, last);
    let next_cursor = if page.len() > 0 {
        let k: usize = page.len() - 1;
        assert(page.deep_view().last() == page@[k as int]@);
        Some(next_url("/api/v1/repositories", n, &page[k].name))
    } else {
        None
    };
    RepositoryListResponse {
        repositories: own_repositories(&page),
        total_reachable: total as u64,
        next_cursor,
        has_more,
    }
}

// ── Manifests ────────────────────────────────────────────────────────────

/// What a manifest can be searched by, without its config and annotations.
pub open spec fn manifest_names(item: ManifestSummaryView) -> Seq<Seq<char>> {
    seq![
        item.digest,
        item.media_type,
        match item.artifact_type {
            Some(t) => t,
            None => Seq::empty(),
        },
        joined(item.tags, " "@),
    ]
}

/// A list with one more text, where there is one.
pub open spec fn with_text(texts: Seq<Seq<char>>, text: Option<Seq<char>>) -> Seq<Seq<char>> {
    match text {
        Some(t) => texts.push(t),
        None => texts,
    }
}

/// The text that a manifest is searched in, from the texts of its config and its
/// annotations.
pub open spec fn searched_text(
    item: ManifestSummaryView,
    config: Option<Seq<char>>,
    annotations: Option<Seq<char>>,
) -> Seq<char> {
    lowercase(joined(with_text(with_text(manifest_names(item), config), annotations), " "@))
}

/// The compact text of a JSON value, where there is one.
pub open spec fn rendered_option(value: Option<JsonView>) -> Option<Seq<char>> {
    match value {
        Some(v) => Some(json_rendered(v)),
        None => None,
    }
}

/// The text that a manifest is searched in.
pub open spec fn manifest_text(item: ManifestSummaryView) -> Seq<char> {
    searched_text(item, rendered_option(item.config_summary), rendered_option(item.annotations))
}

/// Adds a text, where there is one.
fn push_text(texts: &mut Vec<String>, text: Option<String>)
    ensures
        final(texts).deep_view() == with_text(old(texts).deep_view(), text.deep_view()),
{
    let ghost before = texts.deep_view();
    match text {
        Some(t) => {
            texts.push(t);
            assert(texts.deep_view() =~= before.push(t@));
        },
        None => {},
    }
}

/// The text that a manifest is searched in, from the texts of its config and its
/// annotations: these, its digest, its types and its tags, in lowercase.
pub fn blob_of(
    item: &ManifestSummary,
    config: Option<String>,
    annotations: Option<String>,
) -> (r: String)
    ensures
        r@ == searched_text(item@, config.deep_view(), annotations.deep_view()),
{
    let artifact_type = match &item.artifact_type {
        Some(t) => t.clone(),
        None => String::new(),
    };
    assert(item.artifact_type is None ==> artifact_type@ =~= Seq::empty());
    let mut values: Vec<String> = Vec::new();
    values.push(item.digest.clone());
    values.push(item.media_type.clone());
    values.push(artifact_type);
    values.push(join(&item.tags, " "));
    assert(values.deep_view() =~= manifest_names(item@));
    push_text(&mut values, config);
    push_text(&mut values, annotations);
    to_lowercase(&join(&values, " "))
}

/// The text that a manifest is searched in: its digest, types, tags, config and
/// annotations, in lowercase.
pub fn search_blob(item: &ManifestSummary) -> (r: String)
    ensures
        r@ == manifest_text(item@),
{
    let config = match &item.config_summary {
        Some(v) => Some(v.text()),
        None => None,
    };
    let annotations = match &item.annotations {
        Some(v) => Some(v.text()),
        None => None,
    };
    blob_of(item, config, annotations)
}

/// Whether a manifest is of a kind.
pub open spec fn is_kind(item: ManifestSummaryView, kind: Seq<char>) -> bool {
    let artifact_type = match item.artifact_type {
        Some(t) => t,
        None => Seq::empty(),
    };
    let is_image = contains_text(artifact_type, "image.config"@);
    let is_helm = contains_text(artifact_type, "helm.config"@);
    let is_wasm = contains_text(artifact_type, "wasm.config"@);
    let is_artifact = contains_text(artifact_type, "artifact.manifest"@) || contains_text(
        item.media_type,
        "artifact.manifest"@,
    );
    if kind == "image"@ {
        is_image
    } else if kind == "helm"@ {
        is_helm
    } else if kind == "wasm"@ {
        is_wasm
    } else if kind == "artifact"@ {
        is_artifact
    } else if kind == "unknown"@ {
        !is_image && !is_helm && !is_wasm && !is_artifact
    } else {
        true
    }
}

/// Whether a manifest is of a kind. What is not known as a kind fits all.
pub fn type_matches(item: &ManifestSummary, kind: &str) -> (r: bool)
    ensures
        r == is_kind(item@, kind@),
{
    let artifact_type = match &item.artifact_type {
        Some(t) => t.clone(),
        None => String::new(),
    };
    assert(item.artifact_type is None ==> artifact_type@ =~= Seq::empty());
    let is_image = contains_str(&artifact_type, "image.config");
    let is_helm = contains_str(&artifact_type, "helm.config");
    let is_wasm = contains_str(&artifact_type, "wasm.config");
    let is_artifact = contains_str(&artifact_type, "artifact.manifest") || contains_str(
        &item.media_type,
        "artifact.manifest",
    );
    if str_equal(kind, "image") {
        is_image
    } else if str_equal(kind, "helm") {
        is_helm
    } else if str_equal(kind, "wasm") {
        is_wasm
    } else if str_equal(kind, "artifact") {
        is_artifact
    } else if str_equal(kind, "unknown") {
        !is_image && !is_helm && !is_wasm && !is_artifact
    } else {
        true
    }
}

/// Whether any of some tags fits a pattern.
pub open spec fn any_tag_fits(tags: Seq<Seq<char>>, pattern: Seq<char>) -> bool {
    exists|i: int| 0 <= i < tags.len() && fits(pattern, #[trigger] tags[i])
}

/// Whether any of some tags fits a pattern.
fn some_tag_fits(tags: &Vec<String>, pattern: &str) -> (r: bool)
    ensures
        r == any_tag_fits(tags.deep_view(), pattern@),
{
    let ghost all = tags.deep_view();
    let mut i: usize = 0;
    while i < tags.len()
        invariant
            all == tags.deep_view(),
            i <= tags@.len(),
            forall|j: int| 0 <= j < i ==> !fits(pattern@, #[trigger] all[j]),
        decreases tags@.len() - i,
    {
        assert(all[i as int] == tags@[i as int]@);
        if glob_matches(pattern, &tags[i]) {
            assert(fits(pattern@, all[i as int]));
            return true;
        }
        i = i + 1;
    }
    false
}

/// Whether a manifest fits a query whose dates were read.
pub open spec fn manifest_wanted(
    query: ManifestQueryView,
    created_from: Option<u64>,
    created_to: Option<u64>,
    item: ManifestSummaryView,
) -> bool {
    &&& search_text(query.q).len() == 0 || contains_text(manifest_text(item), search_text(query.q))
    &&& query.kind matches Some(kind) ==> kind == "all"@ || is_kind(item, kind)
    &&& query.tagged matches Some(tagged) ==> (item.tags.len() > 0) == tagged
    &&& query.tag matches Some(pattern) ==> pattern.len() == 0 || any_tag_fits(item.tags, pattern)
    &&& query.media_type matches Some(t) ==> item.artifact_type == Some(t) || item.media_type == t
    &&& query.platform matches Some(p) ==> contains_text(manifest_text(item), lowercase(p))
    &&& query.stored_size_min matches Some(min) ==> item.stored_size_bytes >= min
    &&& query.stored_size_max matches Some(max) ==> item.stored_size_bytes <= max
    &&& created_from matches Some(lower) ==> item.created_at >= lower
    &&& created_to matches Some(upper) ==> item.created_at <= upper
}

/// What a list of manifests is filtered by.
pub struct ManifestSelection<'a> {
    pub query: &'a ManifestQuery,
    pub created_from: Option<u64>,
    pub created_to: Option<u64>,
}

impl<'a> Selection<ManifestSummary> for ManifestSelection<'a> {
    open spec fn selects(&self, v: ManifestSummaryView) -> bool {
        manifest_wanted(self.query@, self.created_from, self.created_to, v)
    }

    fn is_selected(&self, item: &ManifestSummary) -> (r: bool) {
        let text = search_blob(item);
        let q = match &self.query.q {
            Some(q) => to_lowercase(q),
            None => String::new(),
        };
        assert(q@ =~= search_text(self.query@.q));
        if q.as_str().unicode_len() > 0 && !contains_str(&text, &q) {
            return false;
        }
        if let Some(kind) = &self.query.kind {
            if !str_equal(kind, "all") && !type_matches(item, kind) {
                return false;
            }
        }
        if let Some(tagged) = self.query.tagged {
            if (item.tags.len() > 0) != tagged {
                return false;
            }
        }
        if let Some(pattern) = &self.query.tag {
            if pattern.as_str().unicode_len() > 0 && !some_tag_fits(&item.tags, pattern) {
                return false;
            }
        }
        if let Some(t) = &self.query.media_type {
            let by_artifact = match &item.artifact_type {
                Some(a) => str_equal(a, t),
                None => false,
            };
            if !by_artifact && !str_equal(&item.media_type, t) {
                return false;
            }
        }
        if let Some(p) = &self.query.platform {
            if !contains_str(&text, &to_lowercase(p)) {
                return false;
            }
        }
        if let Some(min) = self.query.stored_size_min {
            if item.stored_size_bytes < min {
                return false;
            }
        }
        if let Some(max) = self.query.stored_size_max {
            if item.stored_size_bytes > max {
                return false;
            }
        }
        if let Some(lower) = self.created_from {
            if item.created_at < lower {
                return false;
            }
        }
        if let Some(upper) = self.created_to {
            if item.created_at > upper {
                return false;
            }
        }
        true
    }
}

/// The orders of a list of manifests.
#[derive(Debug, Clone, Copy, PartialEq, Eq, Structural)]
pub enum ManifestSort {
    UpdatedAsc,
    UpdatedDesc,
    StoredSizeDesc,
    StoredSizeAsc,
    DigestAsc,
    TagCountDesc,
}

/// The order that a client asks for; the last changed first where it asks for
/// none that is known.
pub open spec fn manifest_sort_of(sort: Option<Seq<char>>) -> ManifestSort {
    match sort {
        Some(s) => if s == "updated_asc"@ {
            ManifestSort::UpdatedAsc
        } else if s == "stored_size_desc"@ {
            ManifestSort::StoredSizeDesc
        } else if s == "stored_size_asc"@ {
            ManifestSort::StoredSizeAsc
        } else if s == "digest_asc"@ {
            ManifestSort::DigestAsc
        } else if s == "tag_count_desc"@ {
            ManifestSort::TagCountDesc
        } else {
            ManifestSort::UpdatedDesc
        },
        None => ManifestSort::UpdatedDesc,
    }
}

/// The order that a client asks for.
pub fn manifest_sort(sort: &Option<String>) -> (r: ManifestSort)
    ensures
        r == manifest_sort_of(sort.deep_view()),
{
    match sort {
        Some(s) => if str_equal(s, "updated_asc") {
            ManifestSort::UpdatedAsc
        } else if str_equal(s, "stored_size_desc") {
            ManifestSort::StoredSizeDesc
        } else if str_equal(s, "stored_size_asc") {
            ManifestSort::StoredSizeAsc
        } else if str_equal(s, "digest_asc") {
            ManifestSort::DigestAsc
        } else if str_equal(s, "tag_count_desc") {
            ManifestSort::TagCountDesc
        } else {
            ManifestSort::UpdatedDesc
        },
        None => ManifestSort::UpdatedDesc,
    }
}

/// Whether a manifest is to stand before another.
pub open spec fn manifest_before(
    sort: ManifestSort,
    a: ManifestSummaryView,
    b: ManifestSummaryView,
) -> bool {
    match sort {
        ManifestSort::UpdatedAsc => a.last_modified < b.last_modified,
        ManifestSort::UpdatedDesc => a.last_modified > b.last_modified,
        ManifestSort::StoredSizeDesc => a.stored_size_bytes > b.stored_size_bytes,
        ManifestSort::StoredSizeAsc => a.stored_size_bytes < b.stored_size_bytes,
        ManifestSort::DigestAsc => text_lt(a.digest, b.digest),
        ManifestSort::TagCountDesc => a.tags.len() > b.tags.len(),
    }
}

impl SortOrder<ManifestSummary> for ManifestSort {
    open spec fn before(&self, a: ManifestSummaryView, b: ManifestSummaryView) -> bool {
        manifest_before(*self, a, b)
    }

    fn is_before(&self, a: &ManifestSummary, b: &ManifestSummary) -> (r: bool) {
        match self {
            ManifestSort::UpdatedAsc => a.last_modified < b.last_modified,
            ManifestSort::UpdatedDesc => a.last_modified > b.last_modified,
            ManifestSort::StoredSizeDesc => a.stored_size_bytes > b.stored_size_bytes,
            ManifestSort::StoredSizeAsc => a.stored_size_bytes < b.stored_size_bytes,
            ManifestSort::DigestAsc => str_less(&a.digest, &b.digest),
            ManifestSort::TagCountDesc => a.tags.len() > b.tags.len(),
        }
    }
}

/// What `chrono::DateTime::parse_from_rfc3339` reads: the seconds since the Unix
/// epoch, or the text of the error.
pub uninterp spec fn rfc3339_timestamp(text: Seq<char>) -> Result<i64, Seq<char>>;

/// `chrono::DateTime::parse_from_rfc3339`, as seconds since the Unix epoch.
/// Claims the named outcome.
#[verifier::external_body]
fn parse_rfc3339(text: &str) -> (r: Result<i64, String>)
    ensures
        match r {
            Ok(t) => rfc3339_timestamp(text@) == Ok::<_, Seq<char>>(t),
            Err(e) => rfc3339_timestamp(text@) == Err::<i64, _>(e@),
        },
{
    chrono::DateTime::parse_from_rfc3339(text).map(|t| t.timestamp()).map_err(|e| e.to_string())
}

/// The bound that a date stands for, from what was read of it.
pub open spec fn bound_of(read: Result<i64, Seq<char>>, field: Seq<char>) -> Result<u64, ErrorView> {
    match read {
        Ok(t) => if t >= 0 {
            Ok(t as u64)
        } else {
            Err(ErrorView::NameInvalid(field + " must be after 1970-01-01"@))
        },
        Err(e) => Err(ErrorView::NameInvalid(field + " is invalid: "@ + e)),
    }
}

/// The bound that a date stands for, from what was read of it.
pub fn epoch_bound(read: Result<i64, String>, field: &str) -> (r: Result<u64, LayerhouseError>)
    ensures
        ({
            let seen: Result<i64, Seq<char>> = match read {
                Ok(t) => Ok(t),
                Err(e) => Err(e@),
            };
            match r {
                Ok(t) => bound_of(seen, field@) == Ok::<_, ErrorView>(t),
                Err(e) => bound_of(seen, field@) == Err::<u64, _>(e@),
            }
        }),
{
    match read {
        Ok(t) => if t >= 0 {
            Ok(t as u64)
        } else {
            Err(LayerhouseError::NameInvalid(concat2(field, " must be after 1970-01-01")))
        },
        Err(e) => Err(LayerhouseError::NameInvalid(concat3(field, " is invalid: ", &e))),
    }
}

/// The bound that a date stands for.
pub fn parse_rfc3339_epoch(value: &str, field: &str) -> (r: Result<u64, LayerhouseError>)
    ensures
        match r {
            Ok(t) => bound_of(rfc3339_timestamp(value@), field@) == Ok::<_, ErrorView>(t),
            Err(e) => bound_of(rfc3339_timestamp(value@), field@) == Err::<u64, _>(e@),
        },
{
    epoch_bound(parse_rfc3339(value), field)
}

/// The manifests that a query lists, in order, before they are cut into pages.
pub open spec fn listed_manifests(
    items: Seq<ManifestSummaryView>,
    query: ManifestQueryView,
    created_from: Option<u64>,
    created_to: Option<u64>,
) -> Seq<ManifestSummaryView> {
    let sort = manifest_sort_of(query.sort);
    stable_sorted(
        items.filter(
            |v: ManifestSummaryView| manifest_wanted(query, created_from, created_to, v),
        ),
        |a: ManifestSummaryView, b: ManifestSummaryView| manifest_before(sort, a, b),
    )
}

/// The keys by which manifests are found again.
pub open spec fn manifest_keys(items: Seq<ManifestSummaryView>) -> Seq<Seq<char>> {
    items.map_values(|m: ManifestSummaryView| m.digest)
}

/// A page of the manifests of a repository.
pub open spec fn manifest_page(
    name: Seq<char>,
    items: Seq<ManifestSummaryView>,
    query: ManifestQueryView,
    created_from: Option<u64>,
    created_to: Option<u64>,
) -> ManifestListView {
    let listed = listed_manifests(items, query, created_from, created_to);
    let n = page_len(query.n);
    let page = page_of(listed, manifest_keys(listed), n as int, query.last);
    ManifestListView {
        name,
        page: PageView {
            items: page.0,
            total: listed.len(),
            has_more: page.1,
            next: if page.0.len() > 0 {
                Some(
                    next_page(
                        "/api/v1/repositories/"@ + name + "/manifests"@,
                        n,
                        page.0.last().digest,
                    ),
                )
            } else {
                None
            },
        },
    }
}

/// Owned copies of some manifests.
fn own_manifests(items: &Vec<&ManifestSummary>) -> (r: Vec<ManifestSummary>)
    ensures
        r.deep_view() == items.deep_view(),
{
    let mut r: Vec<ManifestSummary> = Vec::new();
    let mut i: usize = 0;
    while i < items.len()
        invariant
            i <= items@.len(),
            r@.len() == i,
            forall|j: int| 0 <= j < i ==> (#[trigger] r@[j])@ == items@[j]@,
        decreases items@.len() - i,
    {
        r.push(items[i].clone());
        i = i + 1;
    }
    assert(r.deep_view() =~= items.deep_view());
    r
}

/// A page of the manifests of a repository, once the dates of the query were
/// read.
pub fn manifests_between(
    name: &str,
    items: &Vec<ManifestSummary>,
    query: &ManifestQuery,
    created_from: Option<u64>,
    created_to: Option<u64>,
) -> (r: ManifestListResponse)
    ensures
        r@ == manifest_page(name@, items.deep_view(), query@, created_from, created_to),
{
    let selection = ManifestSelection { query, created_from, created_to };
    let chosen = select(items, &selection);
    proof {
        assert(predicate::<ManifestSummary, ManifestSelection>(selection) =~= (
        |v: ManifestSummaryView| manifest_wanted(query@, created_from, created_to, v)));
    }
    let sort = manifest_sort(&query.sort);
    proof {
        assert(relation::<ManifestSummary, ManifestSort>(sort) =~= (
        |a: ManifestSummaryView, b: ManifestSummaryView| manifest_before(sort, a, b)));
    }
    let listed = sort_list(chosen, &sort);
    let ghost all = listed.deep_view();
    let total: usize = listed.len();
    let mut keys: Vec<String> = Vec::new();
    let mut i: usize = 0;
    while i < listed.len()
        invariant
            i <= listed@.len(),
            keys@.len() == i,
            forall|j: int| 0 <= j < i ==> (#[trigger] keys@[j])@ == listed@[j]@.digest,
        decreases listed@.len() - i,
    {
        keys.push(listed[i].digest.clone());
        i = i + 1;
    }
    assert(keys.deep_view() =~= manifest_keys(all));
    let n: usize = page_size(query.n);
    let last: Option<&str> = match &query.last {
        Some(l) => Some(l.as_str()),
        None => None,
    };
    let (page, has_more) = paginate(listed, &keys, n, last);
    let next = if page.len() > 0 {
        let k: usize = page.len() - 1;
        assert(page.deep_view().last() == page@[k as int]@);
        let base = concat3("/api/v1/repositories/", name, "/manifests");
        Some(next_url(&base, n, &page[k].digest))
    } else {
        None
    };
    ManifestListResponse {
        name: name.to_string(),
        manifests: own_manifests(&page),
        total,
        has_more,
        next,
    }
}

/// What a date of a query bounds, where there is one.
pub open spec fn date_bound(date: Option<Seq<char>>, field: Seq<char>) -> Result<
    Option<u64>,
    ErrorView,
> {
    match date {
        None => Ok(None),
        Some(text) => match bound_of(rfc3339_timestamp(text), field) {
            Ok(t) => Ok(Some(t)),
            Err(e) => Err(e),
        },
    }
}

/// What a date of a query bounds, where there is one.
fn read_bound(date: &Option<String>, field: &str) -> (r: Result<Option<u64>, LayerhouseError>)
    ensures
        match r {
            Ok(t) => date_bound(date.deep_view(), field@) == Ok::<_, ErrorView>(t),
            Err(e) => date_bound(date.deep_view(), field@) == Err::<Option<u64>, _>(e@),
        },
{
    match date {
        None => Ok(None),
        Some(text) => match parse_rfc3339_epoch(text, field) {
            Ok(t) => Ok(Some(t)),
            Err(e) => Err(e),
        },
    }
}

/// A page of the manifests of a repository.
pub fn list_manifests(name: &str, items: &Vec<ManifestSummary>, query: &ManifestQuery) -> (r:
    Result<ManifestListResponse, LayerhouseError>)
    ensures
        match (
            date_bound(query@.created_after, "created_after"@),
            date_bound(query@.created_before, "created_before"@),
        ) {
            (Err(error), _) => r matches Err(e) && e@ == error,
            (Ok(_), Err(error)) => r matches Err(e) && e@ == error,
            (Ok(lower), Ok(upper)) => r matches Ok(page) && page@ == manifest_page(
                name@,
                items.deep_view(),
                query@,
                lower,
                upper,
            ),
        },
{
    let lower = match read_bound(&query.created_after, "created_after") {
        Ok(t) => t,
        Err(e) => return Err(e),
    };
    let upper = match read_bound(&query.created_before, "created_before") {
        Ok(t) => t,
        Err(e) => return Err(e),
    };
    Ok(manifests_between(name, items, query, lower, upper))
}

// ── Laws ─────────────────────────────────────────────────────────────────

/// Texts are compared as a list is sorted.
proof fn lemma_not_less_chains(a: Seq<char>, b: Seq<char>, c: Seq<char>)
    requires
        !text_lt(a, b),
        !text_lt(b, c),
    ensures
        !text_lt(a, c),
{
    lemma_text_lt_total(a, b);
    lemma_text_lt_total(b, c);
    if text_lt(a, c) {
        if a == b {
        } else if b == c {
        } else {
            lemma_text_lt_transitive(c, b, a);
            lemma_text_lt_transitive(c, a, c);
            lemma_text_lt_irreflexive(c);
        }
    }
}

/// Every order of repositories sorts.
pub proof fn lemma_repository_order_sorts(sort: RepositorySort)
    ensures
        sorts(
            |a: EnrichedRepositorySummaryView, b: EnrichedRepositorySummaryView|
                repository_before(sort, a, b),
        ),
{
    let before = |a: EnrichedRepositorySummaryView, b: EnrichedRepositorySummaryView|
        repository_before(sort, a, b);
    assert forall|a: EnrichedRepositorySummaryView| !#[trigger] before(a, a) by {
        lemma_text_lt_irreflexive(a.name);
    }
    assert forall|
        a: EnrichedRepositorySummaryView,
        b: EnrichedRepositorySummaryView,
        c: EnrichedRepositorySummaryView,
    | #[trigger] before(a, b) && #[trigger] before(b, c) implies before(a, c) by {
        if text_lt(a.name, b.name) && text_lt(b.name, c.name) {
            lemma_text_lt_transitive(a.name, b.name, c.name);
        }
    }
    assert forall|
        a: EnrichedRepositorySummaryView,
        b: EnrichedRepositorySummaryView,
        c: EnrichedRepositorySummaryView,
    | !#[trigger] before(a, b) && !#[trigger] before(b, c) implies !before(a, c) by {
        if !text_lt(a.name, b.name) && !text_lt(b.name, c.name) {
            lemma_not_less_chains(a.name, b.name, c.name);
        }
    }
}

/// Every order of manifests sorts.
pub proof fn lemma_manifest_order_sorts(sort: ManifestSort)
    ensures
        sorts(|a: ManifestSummaryView, b: ManifestSummaryView| manifest_before(sort, a, b)),
{
    let before = |a: ManifestSummaryView, b: ManifestSummaryView| manifest_before(sort, a, b);
    assert forall|a: ManifestSummaryView| !#[trigger] before(a, a) by {
        lemma_text_lt_irreflexive(a.digest);
    }
    assert forall|a: ManifestSummaryView, b: ManifestSummaryView, c: ManifestSummaryView|
        #[trigger] before(a, b) && #[trigger] before(b, c) implies before(a, c) by {
        if text_lt(a.digest, b.digest) && text_lt(b.digest, c.digest) {
            lemma_text_lt_transitive(a.digest, b.digest, c.digest);
        }
    }
    assert forall|a: ManifestSummaryView, b: ManifestSummaryView, c: ManifestSummaryView|
        !#[trigger] before(a, b) && !#[trigger] before(b, c) implies !before(a, c) by {
        if !text_lt(a.digest, b.digest) && !text_lt(b.digest, c.digest) {
            lemma_not_less_chains(a.digest, b.digest, c.digest);
        }
    }
}

/// Each repository is either the user's own or shared, so the two filters split
/// the list.
pub proof fn lemma_mine_and_shared_split(
    username: Seq<char>,
    repo: EnrichedRepositorySummaryView,
)
    ensures
        passes_ownership(OwnershipFilter::Mine, Some(username), repo) != passes_ownership(
            OwnershipFilter::Shared,
            Some(username),
            repo,
        ),
{
}

} // verus!
