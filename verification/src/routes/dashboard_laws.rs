//! What the lists of the dashboard show, told by what was asked for and what there is.
use super::dashboard_api::{
    blob_of, epoch_bound, granted_repositories, in_personal_namespace, is_granted_at,
    lemma_manifest_order_sorts, lemma_only_granted_repositories_are_visible,
    lemma_repository_order_sorts, link_header, list_repositories, listed_manifests,
    listed_repositories, manifest_before, manifest_keys, manifest_names, manifest_page,
    manifest_sort_of, manifest_wanted, manifests_between, next_url, page_len, page_size,
    repository_before, repository_keys, repository_page, repository_sort_of, repository_wanted,
    search_blob, type_matches, visible_repositories, visible_to, EnrichedRepositorySummary,
    EnrichedRepositorySummaryView, ManifestListResponse, ManifestQuery, ManifestQueryView,
    OwnershipFilter, RepositoryListResponse, RepositoryQuery, RepositoryQueryView,
};
use super::globs::fits;
use crate::auth::grants::{GrantSource, RepositoryAction};
use crate::error::LayerhouseError;
use crate::listing::{lemma_page_of_chosen, page_of};
use crate::store::metadata::types::{
    ManifestSummary, ManifestSummaryView, RepositorySummary, RepositorySummaryView, Visibility,
};
use crate::text::{
    contains_text, decimal_text, joined, lowercase, text_lt,
};
use crate::text_laws::lemma_one_more_is_joined;
use vstd::prelude::*;

verus! {

// ── Pages ────────────────────────────────────────────────────────────────

/// A page has as many items as asked for where that is at most two hundred, and fifty
/// where the client does not say; it has never none and never more than two hundred.
pub proof fn lemma_page_sizes(n: Option<usize>, r: usize)
    requires
        call_ensures(page_size, (n,), r),
    ensures
        n is None ==> r == 50,
        n matches Some(k) ==> {
            &&& 1 <= k <= 200 ==> r == k
            &&& k == 0 ==> r == 1
            &&& k > 200 ==> r == 200
        },
{
}

/// How many items a page may have at most.
pub open spec fn is_page_limit(n: Option<usize>, limit: int) -> bool {
    &&& n is None ==> limit == 50
    &&& n matches Some(k) ==> (1 <= k <= 200 ==> limit == k) && (k > 200 ==> limit == 200) && (k
        == 0 ==> limit == 1)
}

/// A page that is not the last links to the next one, and no other page does.
pub proof fn lemma_link_to_the_next_page(has_more: bool, next: &Option<String>, r: Option<String>)
    requires
        call_ensures(link_header, (has_more, next), r),
    ensures
        r is Some <==> has_more && next is Some,
        has_more && next is Some ==> r->0@ == "<"@ + next->0@ + ">; rel=\"next\""@,
{
    assert(r.deep_view() is Some <==> r is Some);
    assert(next.deep_view() is Some <==> next is Some);
}

// ── Repositories ─────────────────────────────────────────────────────────

/// Whether a repository lies in the personal namespace of a user.
pub open spec fn belongs_to(user: Seq<char>, repository: Seq<char>) -> bool {
    user.len() > 0 && exists|rest: Seq<char>|
        repository == #[trigger] ("users/"@ + user + "/"@ + rest)
}

/// A personal namespace holds what lies under `users/` and the name of the user, and
/// nobody has a namespace without a name.
pub proof fn lemma_personal_namespace(username: &str, repository: &str, r: bool)
    requires
        call_ensures(in_personal_namespace, (username, repository), r),
    ensures
        r <==> belongs_to(username@, repository@),
{
    let prefix = "users/"@ + username@ + "/"@;
    if prefix.is_prefix_of(repository@) {
        let rest = repository@.skip(prefix.len() as int);
        assert(repository@ =~= prefix + rest);
    }
    if belongs_to(username@, repository@) {
        let rest = choose|rest: Seq<char>|
            repository@ == #[trigger] ("users/"@ + username@ + "/"@ + rest);
        assert(repository@ =~= prefix + rest);
        assert(prefix =~= repository@.take(prefix.len() as int));
    }
}

/// Whether a repository was changed when a query asks for it: within the last seven days,
/// or not within the last thirty.
pub open spec fn is_timely(recency: Option<Seq<char>>, last_modified: u64, now: u64) -> bool {
    &&& recency == Some("recent"@) ==> now <= last_modified + 604800
    &&& recency == Some("stale"@) ==> now >= last_modified + 2592000
}

/// Whether a query asks for a repository: it is whose the query asks for, its name holds
/// the text that is searched for, and it was changed when the query asks for.
pub open spec fn is_asked_for(
    query: RepositoryQueryView,
    username: Option<Seq<char>>,
    now: u64,
    repo: EnrichedRepositorySummaryView,
) -> bool {
    &&& username matches Some(user) ==> match query.filter {
        OwnershipFilter::All => true,
        OwnershipFilter::Mine => belongs_to(user, repo.name),
        OwnershipFilter::Shared => !belongs_to(user, repo.name),
        OwnershipFilter::Public => repo.visibility == Visibility::PublicPull,
    }
    &&& query.q matches Some(text) ==> lowercase(text).len() == 0 || contains_text(
        lowercase(repo.name),
        lowercase(text),
    )
    &&& is_timely(query.recency, repo.last_modified, now)
}

proof fn lemma_wanted_is_asked_for(
    query: RepositoryQueryView,
    username: Option<Seq<char>>,
    now: u64,
    repo: EnrichedRepositorySummaryView,
)
    ensures
        repository_wanted(query, username, now)(repo) <==> is_asked_for(query, username, now, repo),
{
    reveal_strlit("recent");
    reveal_strlit("stale");
    assert("recent"@.len() == 6 && "stale"@.len() == 5);
    if let Some(user) = username {
        let prefix = "users/"@ + user + "/"@;
        if prefix.is_prefix_of(repo.name) {
            let rest = repo.name.skip(prefix.len() as int);
            assert(repo.name =~= prefix + rest);
        }
        if belongs_to(user, repo.name) {
            let rest = choose|rest: Seq<char>|
                repo.name == #[trigger] ("users/"@ + user + "/"@ + rest);
            assert(repo.name =~= prefix + rest);
            assert(prefix =~= repo.name.take(prefix.len() as int));
        }
    }
}

/// Whether two repositories stand in the order that a query asks for: by name, the most
/// tags first, the longest unchanged first, or else the last changed first; names settle
/// what is equal otherwise.
pub open spec fn stand_in_order(
    sort: Option<Seq<char>>,
    a: EnrichedRepositorySummaryView,
    b: EnrichedRepositorySummaryView,
) -> bool {
    let named = !text_lt(b.name, a.name);
    if sort == Some("name_asc"@) {
        named
    } else if sort == Some("tag_count_desc"@) {
        a.tag_count >= b.tag_count && (a.tag_count == b.tag_count ==> named)
    } else if sort == Some("updated_asc"@) {
        a.last_modified <= b.last_modified && (a.last_modified == b.last_modified ==> named)
    } else {
        a.last_modified >= b.last_modified && (a.last_modified == b.last_modified ==> named)
    }
}

proof fn lemma_repository_page(
    repos: Seq<EnrichedRepositorySummaryView>,
    query: RepositoryQueryView,
    username: Option<Seq<char>>,
    now: u64,
)
    ensures
        ({
            let page = repository_page(repos, query, username, now);
            let items = page.items;
            let limit = page_len(query.n) as int;
            &&& is_page_limit(query.n, limit)
            &&& items.len() <= limit && (page.has_more ==> items.len() == limit)
            &&& items.len() <= page.total <= repos.len()
            &&& forall|i: int|
                0 <= i < items.len() ==> repos.contains(#[trigger] items[i]) && is_asked_for(
                    query,
                    username,
                    now,
                    items[i],
                )
            &&& forall|i: int, j: int|
                0 <= i < j < items.len() ==> stand_in_order(
                    query.sort,
                    #[trigger] items[i],
                    #[trigger] items[j],
                )
            &&& query.last is None ==> (page.has_more <==> page.total > limit)
            &&& query.last is None && !page.has_more ==> page.total == items.len()
            &&& query.last is None && !page.has_more ==> forall|v: EnrichedRepositorySummaryView|
                repos.contains(v) && is_asked_for(query, username, now, v)
                    ==> #[trigger] items.contains(v)
        }),
{
    let sort = repository_sort_of(query.sort);
    let before = |a: EnrichedRepositorySummaryView, b: EnrichedRepositorySummaryView|
        repository_before(sort, a, b);
    let wanted = repository_wanted(query, username, now);
    let listed = listed_repositories(repos, query, username, now);
    let keys = repository_keys(listed);
    let n = page_len(query.n) as int;
    lemma_repository_order_sorts(sort);
    lemma_page_of_chosen(repos, wanted, before, keys, n, query.last);
    let (items, more) = page_of(listed, keys, n, query.last);
    assert forall|i: int| 0 <= i < items.len() implies repos.contains(#[trigger] items[i])
        && is_asked_for(query, username, now, items[i]) by {
        lemma_wanted_is_asked_for(query, username, now, items[i]);
        assert(wanted(items[i]));
    }
    assert forall|i: int, j: int| 0 <= i < j < items.len() implies stand_in_order(
        query.sort,
        #[trigger] items[i],
        #[trigger] items[j],
    ) by {
        assert(!before(items[j], items[i]));
        reveal_strlit("name_asc");
        reveal_strlit("tag_count_desc");
        reveal_strlit("updated_asc");
        assert("name_asc"@.len() == 8 && "tag_count_desc"@.len() == 14 && "updated_asc"@.len()
            == 11);
    }
    if query.last is None && !more {
        assert forall|v: EnrichedRepositorySummaryView|
            repos.contains(v) && is_asked_for(query, username, now, v) implies
            #[trigger] items.contains(v) by {
            lemma_wanted_is_asked_for(query, username, now, v);
            assert(wanted(v));
        }
    }
}

/// A page of repositories shows some that there are and that the query asks for, in the
/// order that it asks for, and no more than a page may have. It is full where more
/// follows. A first page behind which nothing follows shows all that the query asks for;
/// how many these are in all is told with every page. So with "recent" a repository is
/// listed that was changed within the last seven days, and no other.
pub proof fn lemma_listed_repositories_are_asked_for(
    repos: &Vec<EnrichedRepositorySummary>,
    query: &RepositoryQuery,
    username: Option<String>,
    now: u64,
    r: RepositoryListResponse,
    limit: int,
)
    requires
        call_ensures(list_repositories, (repos, query, username, now), r),
        is_page_limit(query.n, limit),
    ensures
        ({
            let items = r.repositories.deep_view();
            let user = username.deep_view();
            &&& items.len() <= limit && (r.has_more ==> items.len() == limit)
            &&& items.len() <= r.total_reachable
            &&& forall|i: int|
                0 <= i < items.len() ==> repos.deep_view().contains(#[trigger] items[i])
                    && is_asked_for(query@, user, now, items[i])
            &&& forall|i: int, j: int|
                0 <= i < j < items.len() ==> stand_in_order(
                    query.sort.deep_view(),
                    #[trigger] items[i],
                    #[trigger] items[j],
                )
            &&& query.last is None ==> (r.has_more <==> r.total_reachable > limit)
            &&& query.last is None && !r.has_more ==> r.total_reachable == items.len()
            &&& query.last is None && !r.has_more ==> forall|i: int|
                0 <= i < repos@.len() && is_asked_for(query@, user, now, (#[trigger] repos@[i])@)
                    ==> items.contains(repos@[i]@)
        }),
{
    let items = r.repositories.deep_view();
    let user = username.deep_view();
    lemma_repository_page(repos.deep_view(), query@, user, now);
    let page = repository_page(repos.deep_view(), query@, user, now);
    assert(r@ == page);
    assert(r@.items == items);
    assert(r@.total == r.total_reachable);
    assert(r@.has_more == r.has_more);
    assert(limit == page_len(query.n));
    if query.last is None && !r.has_more {
        assert(query@.last is None);
        assert forall|i: int|
            0 <= i < repos@.len() && is_asked_for(query@, user, now, (#[trigger] repos@[i])@) implies
            items.contains(repos@[i]@) by {
            assert(repos.deep_view()[i] == repos@[i]@);
            assert(repos.deep_view().contains(repos@[i]@));
        }
    }
}

/// With "recent" a repository that is listed was changed at most seven days before now,
/// and one that was changed now is listed, where nothing else is asked for and the page
/// is the only one.
pub proof fn lemma_recent_repositories(
    repos: &Vec<EnrichedRepositorySummary>,
    query: &RepositoryQuery,
    username: Option<String>,
    now: u64,
    r: RepositoryListResponse,
    i: int,
)
    requires
        call_ensures(list_repositories, (repos, query, username, now), r),
        query.recency matches Some(t) && t@ == "recent"@,
    ensures
        0 <= i < r.repositories@.len() ==> now <= r.repositories@[i].last_modified + 604800,
        0 <= i < repos@.len() && repos@[i].last_modified == now && query.filter
            == OwnershipFilter::All && query.q is None && query.last is None && !r.has_more
            ==> r.repositories.deep_view().contains(repos@[i]@),
{
    let items = r.repositories.deep_view();
    let user = username.deep_view();
    lemma_repository_page(repos.deep_view(), query@, user, now);
    assert(r@.items == items);
    if 0 <= i < r.repositories@.len() {
        assert(items[i] == r.repositories@[i]@);
    }
    reveal_strlit("recent");
    reveal_strlit("stale");
    assert("recent"@.len() == 6 && "stale"@.len() == 5);
    if 0 <= i < repos@.len() {
        assert(repos.deep_view()[i] == repos@[i]@);
        assert(repos.deep_view().contains(repos@[i]@));
    }
}

/// A page that shows anything names where the next one starts: behind its last
/// repository.
pub proof fn lemma_next_page_of_repositories(
    repos: &Vec<EnrichedRepositorySummary>,
    query: &RepositoryQuery,
    username: Option<String>,
    now: u64,
    r: RepositoryListResponse,
    n: usize,
)
    requires
        call_ensures(list_repositories, (repos, query, username, now), r),
        call_ensures(page_size, (query.n,), n),
    ensures
        r.next_cursor is Some <==> r.repositories@.len() > 0,
        r.repositories@.len() > 0 ==> r.next_cursor->0@ == "/api/v1/repositories?n="@
            + decimal_text(n as nat) + "&last="@ + r.repositories@.last().name@,
{
    let items = r.repositories.deep_view();
    let page = repository_page(repos.deep_view(), query@, username.deep_view(), now);
    assert(r@ == page);
    assert(r@.items == items);
    assert(r@.next == r.next_cursor.deep_view());
    if items.len() > 0 {
        assert(items.last() == r.repositories@.last()@);
        reveal_strlit("/api/v1/repositories?n=");
        reveal_strlit("/api/v1/repositories");
        reveal_strlit("?n=");
        assert("/api/v1/repositories?n="@ =~= "/api/v1/repositories"@ + "?n="@);
    }
}

/// A client sees a repository where it has a grant on it, with that grant, and nothing
/// else; where nobody has to log in, it sees all, and may do everything.
pub proof fn lemma_seen_repositories(
    repos: &Vec<RepositorySummary>,
    access: &Option<Vec<Option<(RepositoryAction, GrantSource)>>>,
    r: Vec<EnrichedRepositorySummary>,
    seen: EnrichedRepositorySummaryView,
)
    requires
        access matches Some(grants) ==> grants@.len() == repos@.len(),
        call_ensures(visible_repositories, (repos, access), r),
    ensures
        r.deep_view().contains(seen) <==> exists|i: int|
            0 <= i < repos@.len() && is_shown_as((#[trigger] repos@[i])@, access, i, seen),
{
    let all = repos.deep_view();
    if let Some(grants) = access {
        lemma_only_granted_repositories_are_visible(all, grants@);
        assert(r.deep_view() == granted_repositories(all, grants@));
        if r.deep_view().contains(seen) {
            let i = choose|i: int|
                0 <= i < all.len() && is_granted_at(all, grants@, i, seen);
            assert(all[i] == repos@[i]@);
            assert(is_shown_as(repos@[i]@, access, i, seen));
        }
        assert forall|i: int|
            0 <= i < repos@.len() && is_shown_as((#[trigger] repos@[i])@, access, i, seen) implies
            r.deep_view().contains(seen) by {
            assert(all[i] == repos@[i]@);
            assert(is_granted_at(all, grants@, i, seen));
        }
    } else {
        let shown = r.deep_view();
        assert(shown == visible_to(all, None));
        if shown.contains(seen) {
            let i = choose|i: int| 0 <= i < shown.len() && shown[i] == seen;
            assert(all[i] == repos@[i]@);
            assert(is_shown_as(repos@[i]@, access, i, seen));
        }
        assert forall|i: int|
            0 <= i < repos@.len() && is_shown_as((#[trigger] repos@[i])@, access, i, seen) implies
            shown.contains(seen) by {
            assert(all[i] == repos@[i]@);
            assert(shown[i] =~= seen);
        }
    }
}

/// Whether a repository is shown with what the client may do with it.
pub open spec fn is_shown_as(
    repo: RepositorySummaryView,
    access: &Option<Vec<Option<(RepositoryAction, GrantSource)>>>,
    i: int,
    seen: EnrichedRepositorySummaryView,
) -> bool {
    &&& match access {
        Some(grants) => grants@[i] == Some((seen.access_level, seen.grant_source)),
        None => seen.access_level == RepositoryAction::Delete && seen.grant_source
            == GrantSource::Public,
    }
    &&& seen.max_grantable == seen.access_level
    &&& seen.name == repo.name
    &&& seen.tag_count == repo.tag_count
    &&& seen.manifest_count == repo.manifest_count
    &&& seen.stored_size_bytes == repo.stored_size_bytes
    &&& seen.manifest_size_bytes == repo.manifest_size_bytes
    &&& seen.last_modified == repo.last_modified
    &&& seen.description == repo.description
    &&& seen.created_by == repo.owner
    &&& seen.visibility == repo.visibility
}

// ── Manifests ────────────────────────────────────────────────────────────

/// Whether a manifest is of a kind: an image, a chart, a module or an artifact is known by
/// its artifact type, an artifact by its media type too, and what is none of these is
/// unknown. What is not known as a kind fits all.
pub proof fn lemma_kinds(
    item: &ManifestSummary,
    kind: &str,
    r: bool,
    image: bool,
    helm: bool,
    wasm: bool,
    artifact: bool,
)
    requires
        call_ensures(type_matches, (item, kind), r),
        call_ensures(type_matches, (item, "image"), image),
        call_ensures(type_matches, (item, "helm"), helm),
        call_ensures(type_matches, (item, "wasm"), wasm),
        call_ensures(type_matches, (item, "artifact"), artifact),
    ensures
        image <==> (item.artifact_type matches Some(t) && contains_text(t@, "image.config"@)),
        helm <==> (item.artifact_type matches Some(t) && contains_text(t@, "helm.config"@)),
        wasm <==> (item.artifact_type matches Some(t) && contains_text(t@, "wasm.config"@)),
        artifact <==> (item.artifact_type matches Some(t) && contains_text(
            t@,
            "artifact.manifest"@,
        )) || contains_text(item.media_type@, "artifact.manifest"@),
        kind@ == "unknown"@ ==> (r <==> !image && !helm && !wasm && !artifact),
        kind@ != "image"@ && kind@ != "helm"@ && kind@ != "wasm"@ && kind@ != "artifact"@ && kind@
            != "unknown"@ ==> r,
{
    reveal_strlit("image");
    reveal_strlit("helm");
    reveal_strlit("wasm");
    reveal_strlit("artifact");
    reveal_strlit("unknown");
    reveal_strlit("image.config");
    reveal_strlit("helm.config");
    reveal_strlit("wasm.config");
    reveal_strlit("artifact.manifest");
    assert("image"@[0] == 'i' && "helm"@[0] == 'h' && "wasm"@[0] == 'w' && "artifact"@[0] == 'a'
        && "unknown"@[0] == 'u');
    assert(item.artifact_type is None ==> item@.artifact_type is None);
    assert(item.artifact_type matches Some(t) ==> item@.artifact_type == Some(t@));
    assert(!contains_text(Seq::empty(), "image.config"@));
    assert(!contains_text(Seq::empty(), "helm.config"@));
    assert(!contains_text(Seq::empty(), "wasm.config"@));
    assert(!contains_text(Seq::empty(), "artifact.manifest"@));
}

/// Whether a query asks for a manifest, where its searched text is known and so is
/// whether it is of the kind asked for.
pub open spec fn manifest_is_asked_for(
    query: ManifestQueryView,
    created_from: Option<u64>,
    created_to: Option<u64>,
    item: ManifestSummaryView,
    text: Seq<char>,
    of_kind: bool,
) -> bool {
    &&& query.q matches Some(q) ==> lowercase(q).len() == 0 || contains_text(text, lowercase(q))
    &&& query.kind matches Some(kind) ==> kind == "all"@ || of_kind
    &&& query.tagged == Some(true) ==> item.tags.len() > 0
    &&& query.tagged == Some(false) ==> item.tags.len() == 0
    &&& query.tag matches Some(pattern) ==> pattern.len() == 0 || exists|i: int|
        0 <= i < item.tags.len() && fits(pattern, #[trigger] item.tags[i])
    &&& query.media_type matches Some(t) ==> item.artifact_type == Some(t) || item.media_type == t
    &&& query.platform matches Some(p) ==> contains_text(text, lowercase(p))
    &&& query.stored_size_min matches Some(min) ==> min <= item.stored_size_bytes
    &&& query.stored_size_max matches Some(max) ==> item.stored_size_bytes <= max
    &&& created_from matches Some(lower) ==> lower <= item.created_at
    &&& created_to matches Some(upper) ==> item.created_at <= upper
}

/// Whether two manifests stand in the order that a query asks for.
pub open spec fn manifests_in_order(
    sort: Option<Seq<char>>,
    a: ManifestSummaryView,
    b: ManifestSummaryView,
) -> bool {
    if sort == Some("updated_asc"@) {
        a.last_modified <= b.last_modified
    } else if sort == Some("stored_size_desc"@) {
        a.stored_size_bytes >= b.stored_size_bytes
    } else if sort == Some("stored_size_asc"@) {
        a.stored_size_bytes <= b.stored_size_bytes
    } else if sort == Some("digest_asc"@) {
        !text_lt(b.digest, a.digest)
    } else if sort == Some("tag_count_desc"@) {
        a.tags.len() >= b.tags.len()
    } else {
        a.last_modified >= b.last_modified
    }
}

proof fn lemma_manifest_page(
    name: Seq<char>,
    all: Seq<ManifestSummaryView>,
    query: ManifestQueryView,
    created_from: Option<u64>,
    created_to: Option<u64>,
)
    ensures
        ({
            let page = manifest_page(name, all, query, created_from, created_to).page;
            let items = page.items;
            let limit = page_len(query.n) as int;
            &&& is_page_limit(query.n, limit)
            &&& items.len() <= limit && (page.has_more ==> items.len() == limit)
            &&& items.len() <= page.total <= all.len()
            &&& forall|i: int|
                0 <= i < items.len() ==> all.contains(#[trigger] items[i]) && manifest_wanted(
                    query,
                    created_from,
                    created_to,
                    items[i],
                )
            &&& forall|i: int, j: int|
                0 <= i < j < items.len() ==> manifests_in_order(
                    query.sort,
                    #[trigger] items[i],
                    #[trigger] items[j],
                )
            &&& query.last is None ==> (page.has_more <==> page.total > limit)
            &&& query.last is None && !page.has_more ==> page.total == items.len()
            &&& query.last is None && !page.has_more ==> forall|v: ManifestSummaryView|
                all.contains(v) && manifest_wanted(query, created_from, created_to, v)
                    ==> #[trigger] items.contains(v)
        }),
{
    let sort = manifest_sort_of(query.sort);
    let before = |a: ManifestSummaryView, b: ManifestSummaryView| manifest_before(sort, a, b);
    let wanted = |v: ManifestSummaryView| manifest_wanted(query, created_from, created_to, v);
    let listed = listed_manifests(all, query, created_from, created_to);
    let keys = manifest_keys(listed);
    let n = page_len(query.n) as int;
    lemma_manifest_order_sorts(sort);
    lemma_page_of_chosen(all, wanted, before, keys, n, query.last);
    let (items, more) = page_of(listed, keys, n, query.last);
    assert forall|i: int| 0 <= i < items.len() implies all.contains(#[trigger] items[i])
        && manifest_wanted(query, created_from, created_to, items[i]) by {
        assert(wanted(items[i]));
    }
    assert forall|i: int, j: int| 0 <= i < j < items.len() implies manifests_in_order(
        query.sort,
        #[trigger] items[i],
        #[trigger] items[j],
    ) by {
        assert(!before(items[j], items[i]));
        reveal_strlit("updated_asc");
        reveal_strlit("stored_size_desc");
        reveal_strlit("stored_size_asc");
        reveal_strlit("digest_asc");
        reveal_strlit("tag_count_desc");
        assert("updated_asc"@.len() == 11 && "stored_size_desc"@.len() == 16
            && "stored_size_asc"@.len() == 15 && "digest_asc"@.len() == 10
            && "tag_count_desc"@.len() == 14);
    }
    if query.last is None && !more {
        assert forall|v: ManifestSummaryView|
            all.contains(v) && manifest_wanted(query, created_from, created_to, v) implies
            #[trigger] items.contains(v) by {
            assert(wanted(v));
        }
    }
}

/// A page of manifests shows some of the repository, in the order that the query asks for,
/// and no more than a page may have. It is full where more follows; how many the query
/// asks for in all is told with every page.
pub proof fn lemma_page_of_manifests(
    name: &str,
    all: &Vec<ManifestSummary>,
    query: &ManifestQuery,
    created_from: Option<u64>,
    created_to: Option<u64>,
    r: ManifestListResponse,
    limit: int,
)
    requires
        call_ensures(manifests_between, (name, all, query, created_from, created_to), r),
        is_page_limit(query.n, limit),
    ensures
        ({
            let items = r.manifests.deep_view();
            &&& r.name@ == name@
            &&& items.len() <= limit && (r.has_more ==> items.len() == limit)
            &&& items.len() <= r.total <= all@.len()
            &&& forall|i: int| 0 <= i < items.len() ==> all.deep_view().contains(#[trigger] items[i])
            &&& forall|i: int, j: int|
                0 <= i < j < items.len() ==> manifests_in_order(
                    query.sort.deep_view(),
                    #[trigger] items[i],
                    #[trigger] items[j],
                )
            &&& query.last is None ==> (r.has_more <==> r.total > limit)
            &&& query.last is None && !r.has_more ==> r.total == items.len()
            &&& r.next is Some <==> items.len() > 0
            &&& items.len() > 0 ==> r.next->0@ == "/api/v1/repositories/"@ + name@ + "/manifests"@
                + "?n="@ + decimal_text(limit as nat) + "&last="@ + items.last().digest
        }),
{
    let items = r.manifests.deep_view();
    lemma_manifest_page(name@, all.deep_view(), query@, created_from, created_to);
    let page = manifest_page(name@, all.deep_view(), query@, created_from, created_to).page;
    assert(r@.page == page);
    assert(r@.page.items == items);
    assert(r@.page.total == r.total);
    assert(r@.page.next == r.next.deep_view());
    assert(limit == page_len(query.n));
    assert(all.deep_view().len() == all@.len());
}

/// A manifest that a page shows is one that the query asks for; and a first page behind
/// which nothing follows shows each such manifest.
pub proof fn lemma_listed_manifests_are_asked_for(
    name: &str,
    all: &Vec<ManifestSummary>,
    query: &ManifestQuery,
    created_from: Option<u64>,
    created_to: Option<u64>,
    r: ManifestListResponse,
    i: int,
    item: ManifestSummary,
    text: String,
    kind: &str,
    of_kind: bool,
)
    requires
        call_ensures(manifests_between, (name, all, query, created_from, created_to), r),
        0 <= i < all@.len(),
        item == all@[i],
        call_ensures(search_blob, (&item,), text),
        query.kind matches Some(k) ==> k@ == kind@,
        call_ensures(type_matches, (&item, kind), of_kind),
    ensures
        r.manifests.deep_view().contains(item@) ==> manifest_is_asked_for(
            query@,
            created_from,
            created_to,
            item@,
            text@,
            of_kind,
        ),
        query.last is None && !r.has_more && manifest_is_asked_for(
            query@,
            created_from,
            created_to,
            item@,
            text@,
            of_kind,
        ) ==> r.manifests.deep_view().contains(item@),
{
    let items = r.manifests.deep_view();
    lemma_manifest_page(name@, all.deep_view(), query@, created_from, created_to);
    let page = manifest_page(name@, all.deep_view(), query@, created_from, created_to).page;
    assert(r@.page == page);
    assert(r@.page.items == items);
    assert(all.deep_view()[i] == item@);
    assert(all.deep_view().contains(item@));
    assert(query@.last is None <==> query.last is None);
    assert(manifest_wanted(query@, created_from, created_to, item@) <==> manifest_is_asked_for(
        query@,
        created_from,
        created_to,
        item@,
        text@,
        of_kind,
    ));
    if items.contains(item@) {
        let k = choose|k: int| 0 <= k < items.len() && items[k] == item@;
        assert(manifest_wanted(query@, created_from, created_to, items[k]));
    }
}

/// A date bounds where it is not before the year 1970, by its seconds since then.
pub proof fn lemma_dates_bound(
    read: Result<i64, String>,
    field: &str,
    r: Result<u64, LayerhouseError>,
)
    requires
        call_ensures(epoch_bound, (read, field), r),
    ensures
        r is Ok <==> (read matches Ok(t) && t >= 0),
        r matches Ok(t) ==> read is Ok && t == read->Ok_0,
        r matches Err(e) ==> (e matches LayerhouseError::NameInvalid(text) && match read {
            Ok(_) => text@ == field@ + " must be after 1970-01-01"@,
            Err(m) => text@ == field@ + " is invalid: "@ + m@,
        }),
{
}

/// The page behind an item is asked for by its size and that item.
pub proof fn lemma_where_the_next_page_is(base: &str, n: usize, last: &str, r: String)
    requires
        call_ensures(next_url, (base, n, last), r),
    ensures
        r@ == base@ + "?n="@ + decimal_text(n as nat) + "&last="@ + last@,
{
}

/// A repository is shown as it is, with what the client may do with it and why; where nobody
/// has to log in, everybody may do everything.
pub proof fn lemma_shown_with_rights(
    repo: RepositorySummary,
    action: RepositoryAction,
    source: GrantSource,
    r: EnrichedRepositorySummary,
    open: EnrichedRepositorySummary,
)
    requires
        call_ensures(EnrichedRepositorySummary::from_summary, (repo, action, source), r),
        call_ensures(EnrichedRepositorySummary::open_to_all, (repo,), open),
    ensures
        r@.name == repo@.name && r@.tag_count == repo@.tag_count,
        r@.manifest_count == repo@.manifest_count,
        r@.stored_size_bytes == repo@.stored_size_bytes,
        r@.manifest_size_bytes == repo@.manifest_size_bytes,
        r@.last_modified == repo@.last_modified,
        r@.description == repo@.description,
        r@.created_by == repo@.owner && r@.visibility == repo@.visibility,
        r@.access_level == action && r@.max_grantable == action,
        r@.grant_source == source,
        open@.name == repo@.name,
        open@.access_level == RepositoryAction::Delete,
        open@.max_grantable == RepositoryAction::Delete,
        open@.grant_source == GrantSource::Public,
{
}

/// A manifest is searched by its digest, its types and its tags, and by its config and its
/// annotations where it has them.
pub proof fn lemma_what_is_searched(
    item: &ManifestSummary,
    config: Option<String>,
    annotations: Option<String>,
    r: String,
)
    requires
        call_ensures(blob_of, (item, config, annotations), r),
    ensures
        ({
            let kind = match item@.artifact_type {
                Some(t) => t,
                None => Seq::empty(),
            };
            let names = item@.digest + " "@ + item@.media_type + " "@ + kind + " "@ + joined(
                item@.tags,
                " "@,
            );
            &&& config is None && annotations is None ==> r@ == lowercase(names)
            &&& config is Some && annotations is None ==> r@ == lowercase(
                names + " "@ + config->0@,
            )
            &&& config is None && annotations is Some ==> r@ == lowercase(
                names + " "@ + annotations->0@,
            )
            &&& config is Some && annotations is Some ==> r@ == lowercase(
                names + " "@ + config->0@ + " "@ + annotations->0@,
            )
        }),
{
    let all = manifest_names(item@);
    let sep = " "@;
    let kind = match item@.artifact_type {
        Some(t) => t,
        None => Seq::empty(),
    };
    let tags = joined(item@.tags, sep);
    let one = seq![item@.digest];
    let two = one.push(item@.media_type);
    let three = two.push(kind);
    assert(all =~= three.push(tags));
    lemma_one_more_is_joined(one, item@.media_type, sep);
    lemma_one_more_is_joined(two, kind, sep);
    lemma_one_more_is_joined(three, tags, sep);
    if let Some(c) = config {
        lemma_one_more_is_joined(all, c@, sep);
        if let Some(a) = annotations {
            lemma_one_more_is_joined(all.push(c@), a@, sep);
        }
    } else if let Some(a) = annotations {
        lemma_one_more_is_joined(all, a@, sep);
    }
}

} // verus!
