//! What is read from the replicated state.
use crate::clones::{clone_list, clone_option};
use crate::oci::json::{json_document, Json, JsonView};
use crate::oci::manifest::{descriptors, saturated, stored_sum, StoredTally};
use crate::raft::configs::runs_of;
use crate::raft::model::{tags_of_digests, RepoModel, RepoTagsModel};
use crate::raft::state::{StateMachineData, StateView};
use crate::store::metadata::types::{
    HelmChart, HelmChartVersion, ManifestEntry, ManifestEntryView, ManifestSummary,
    ManifestSummaryView, MirrorRule, PersonalAccessToken, PersonalAccessTokenView, ProxyCache,
    ProxyCacheTagValidation, ReferrerEntry, ReferrerEntryView, Repository, RepositorySummary,
    RepositorySummaryView, RepositoryView, SyncJob, SyncJobRun, Visibility, WarmImage,
};
use crate::store::metadata::validations::{get_proxy_cache_tag_validation, or_empty, validation};
use crate::string_map::{
    ascending, clone_keeps_view, lemma_sorted_keys, lists_keys, sorted_keys, StringMap,
};
use crate::text::{starts_with, str_equal, str_less, text_lt};
use vstd::prelude::*;

verus! {

// ── Generic readers ──────────────────────────────────────────────────────

/// The values of a map in ascending order of their keys.
pub open spec fn values_in_order<T>(m: Map<Seq<char>, T>) -> Seq<T> {
    sorted_keys(m.dom()).map_values(|k: Seq<char>| m[k])
}

/// The value under a key, where there is one.
pub open spec fn lookup<T>(m: Map<Seq<char>, T>, key: Seq<char>) -> Option<T> {
    if m.dom().contains(key) {
        Some(m[key])
    } else {
        None
    }
}

/// Copies of the values of a map in ascending order of their keys.
fn list_values<V: Clone + DeepView>(map: &StringMap<V>) -> (r: Vec<V>)
    requires
        clone_keeps_view::<V>(),
    ensures
        r.deep_view() == values_in_order(map@),
{
    let n = map.len();
    let ghost ks = sorted_keys(map@.dom());
    let mut r: Vec<V> = Vec::new();
    let mut i: usize = 0;
    while i < n
        invariant
            clone_keeps_view::<V>(),
            ks == sorted_keys(map@.dom()),
            n == ks.len(),
            i <= n,
            r@.len() == i,
            forall|j: int| 0 <= j < i ==> (#[trigger] r@[j]).deep_view() == map@[ks[j]],
        decreases n - i,
    {
        let value = map.value_at(i);
        let copy = value.clone();
        assert(cloned::<V>(*value, copy));
        r.push(copy);
        i = i + 1;
    }
    assert(r.deep_view() =~= values_in_order(map@));
    r
}

/// A copy of the value under a key, where there is one.
fn copy_value<V: Clone + DeepView>(map: &StringMap<V>, key: &str) -> (r: Option<V>)
    requires
        clone_keeps_view::<V>(),
    ensures
        r.deep_view() == lookup(map@, key@),
{
    match map.get(key) {
        Some(value) => {
            let copy = value.clone();
            assert(cloned::<V>(*value, copy));
            Some(copy)
        },
        None => None,
    }
}

/// The keys beyond a text, in order.
pub open spec fn keys_after(keys: Seq<Seq<char>>, last: Option<Seq<char>>) -> Seq<Seq<char>>
    decreases keys.len(),
{
    if keys.len() == 0 {
        Seq::empty()
    } else if last matches Some(l) && !text_lt(l, keys.last()) {
        keys_after(keys.drop_last(), last)
    } else {
        keys_after(keys.drop_last(), last).push(keys.last())
    }
}

/// At most the first `n`.
pub open spec fn at_most<T>(items: Seq<T>, n: Option<usize>) -> Seq<T> {
    match n {
        Some(n) => if n < items.len() {
            items.take(n as int)
        } else {
            items
        },
        None => items,
    }
}

/// A page of names: those beyond `last`, at most `n` of them, in ascending
/// order.
pub open spec fn page(names: Set<Seq<char>>, n: Option<usize>, last: Option<Seq<char>>) -> Seq<
    Seq<char>,
> {
    at_most(keys_after(sorted_keys(names), last), n)
}

/// A page of the keys of a map.
fn page_keys<V: DeepView>(map: &StringMap<V>, n: Option<usize>, last: Option<&str>) -> (r: Vec<
    String,
>)
    ensures
        r.deep_view() == page(map@.dom(), n, last.deep_view()),
{
    let keys = map.keys();
    let ghost ks = keys.deep_view();
    let mut r: Vec<String> = Vec::new();
    let mut i: usize = 0;
    assert(r.deep_view() =~= keys_after(ks.take(0), last.deep_view()));
    while i < keys.len()
        invariant
            ks == keys.deep_view(),
            i <= keys@.len(),
            r.deep_view() == keys_after(ks.take(i as int), last.deep_view()),
        decreases keys@.len() - i,
    {
        let ghost before = r.deep_view();
        assert(ks.take(i + 1).drop_last() =~= ks.take(i as int));
        assert(ks.take(i + 1).last() == keys@[i as int]@);
        let wanted = match last {
            Some(last) => str_less(last, keys[i].as_str()),
            None => true,
        };
        if wanted {
            r.push(keys[i].clone());
            assert(r.deep_view() =~= before.push(keys@[i as int]@));
        }
        i = i + 1;
    }
    assert(ks.take(ks.len() as int) =~= ks);
    let ghost all = r.deep_view();
    assert(all.len() == r@.len());
    if let Some(n) = n {
        if n < r.len() {
            r.truncate(n);
            assert(r.deep_view() =~= all.take(n as int));
        }
    }
    r
}

// ── Manifests ────────────────────────────────────────────────────────────

/// A reference that names a digest rather than a tag.
pub open spec fn names_digest(reference: Seq<char>) -> bool {
    "sha256:"@.is_prefix_of(reference) || "sha512:"@.is_prefix_of(reference)
}

/// The manifest under a digest of a repository.
pub open spec fn entry_at(s: StateView, name: Seq<char>, digest: Seq<char>) -> Option<
    ManifestEntryView,
> {
    lookup(or_empty(s.manifests, name), digest)
}

/// The manifest that a reference of a repository stands for.
pub open spec fn manifest_of(s: StateView, name: Seq<char>, reference: Seq<char>) -> Option<
    ManifestEntryView,
> {
    if names_digest(reference) {
        entry_at(s, name, reference)
    } else {
        match lookup(or_empty(s.tags, name), reference) {
            Some(digest) => entry_at(s, name, digest),
            None => None,
        }
    }
}

/// The tags of a repository that point to a digest, in ascending order.
pub open spec fn tags_at(tags: RepoTagsModel, digest: Seq<char>) -> Seq<Seq<char>> {
    sorted_keys(tags_of_digests(tags, set![digest]))
}

/// A manifest as it is listed.
pub open spec fn manifest_summary(
    digest: Seq<char>,
    e: ManifestEntryView,
    tags: RepoTagsModel,
) -> ManifestSummaryView {
    ManifestSummaryView {
        digest,
        media_type: e.content_type,
        artifact_type: e.artifact_type,
        stored_size_bytes: e.stored_size_bytes,
        manifest_size_bytes: e.manifest_size_bytes,
        created_at: e.created_at,
        last_modified: e.last_modified,
        tags: tags_at(tags, digest),
        subject: e.subject,
        annotations: e.annotations,
        config_summary: e.config_summary,
        body: match json_document(e.body) {
            Some(doc) => doc,
            None => JsonView::Null,
        },
    }
}

/// The manifests of a repository as they are listed.
pub open spec fn manifest_summaries(repo: RepoModel, tags: RepoTagsModel) -> Seq<
    ManifestSummaryView,
> {
    sorted_keys(repo.dom()).map_values(|k: Seq<char>| manifest_summary(k, repo[k], tags))
}

/// Whether a manifest refers to a subject, and is of a wanted type.
pub open spec fn is_referrer(
    e: ManifestEntryView,
    subject: Seq<char>,
    artifact_type: Option<Seq<char>>,
) -> bool {
    &&& e.subject == Some(subject)
    &&& artifact_type matches Some(wanted) ==> e.artifact_type == Some(wanted)
}

/// A manifest as a referrer.
pub open spec fn as_referrer(e: ManifestEntryView) -> ReferrerEntryView {
    ReferrerEntryView {
        digest: e.digest,
        media_type: e.content_type,
        size: e.body.len() as u64,
        artifact_type: e.artifact_type,
        annotations: e.annotations,
    }
}

/// The referrers among some manifests, in order.
pub open spec fn referrers(
    entries: Seq<ManifestEntryView>,
    subject: Seq<char>,
    artifact_type: Option<Seq<char>>,
) -> Seq<ReferrerEntryView>
    decreases entries.len(),
{
    if entries.len() == 0 {
        Seq::empty()
    } else if is_referrer(entries.last(), subject, artifact_type) {
        referrers(entries.drop_last(), subject, artifact_type).push(as_referrer(entries.last()))
    } else {
        referrers(entries.drop_last(), subject, artifact_type)
    }
}

/// The tags of a repository that point to a digest.
fn find_tags(tags: &StringMap<String>, digest: &str) -> (r: Vec<String>)
    ensures
        r.deep_view() == tags_at(tags@, digest@),
{
    let n = tags.len();
    let ghost ks = sorted_keys(tags@.dom());
    let ghost want = tags_of_digests(tags@, set![digest@]);
    let mut r: Vec<String> = Vec::new();
    let mut i: usize = 0;
    while i < n
        invariant
            ks == sorted_keys(tags@.dom()),
            lists_keys(ks, tags@.dom()),
            n == ks.len(),
            i <= n,
            ascending(r.deep_view()),
            forall|k: Seq<char>| #[trigger]
                r.deep_view().contains(k) <==> ks.take(i as int).contains(k) && tags@[k] == digest@,
        decreases n - i,
    {
        let ghost before = r.deep_view();
        let ghost front = ks.take(i as int);
        let ghost next = ks.take(i + 1);
        let ghost k = ks[i as int];
        assert(next =~= front.push(k));
        assert forall|x: Seq<char>| next.contains(x) <==> front.contains(x) || x == k by {
            if front.contains(x) {
                let j = choose|j: int| 0 <= j < front.len() && front[j] == x;
                assert(next[j] == x);
            }
            assert(next[i as int] == k);
            if next.contains(x) && x != k {
                let j = choose|j: int| 0 <= j < next.len() && next[j] == x;
                assert(front[j] == x);
            }
        }
        if str_equal(tags.value_at(i).as_str(), digest) {
            r.push(tags.key_at(i).clone());
            assert(r.deep_view() =~= before.push(k));
            assert forall|x: int, y: int| 0 <= x < y < r.deep_view().len() implies text_lt(
                #[trigger] r.deep_view()[x],
                #[trigger] r.deep_view()[y],
            ) by {
                if y == before.len() {
                    assert(before.contains(before[x]));
                    let q = choose|q: int| 0 <= q < front.len() && front[q] == before[x];
                    assert(text_lt(ks[q], ks[i as int]));
                } else {
                    assert(text_lt(before[x], before[y]));
                }
            }
            assert forall|x: Seq<char>| #[trigger] r.deep_view().contains(x) <==> before.contains(x)
                || x == k by {
                if before.contains(x) {
                    let j = choose|j: int| 0 <= j < before.len() && before[j] == x;
                    assert(r.deep_view()[j] == x);
                }
                assert(r.deep_view()[before.len() as int] == k);
                if r.deep_view().contains(x) && x != k {
                    let j = choose|j: int|
                        0 <= j < r.deep_view().len() && r.deep_view()[j] == x;
                    assert(before[j] == x);
                }
            }
        }
        i = i + 1;
    }
    proof {
        assert(ks.take(ks.len() as int) =~= ks);
        assert forall|k: Seq<char>| #[trigger] r.deep_view().contains(k) <==> want.contains(k) by {
            assert(ks.contains(k) <==> tags@.dom().contains(k));
        }
        lemma_sorted_keys(r.deep_view(), want);
    }
    r
}

/// The manifests of a repository as they are listed.
pub fn build_manifest_summaries(
    repo_manifests: &StringMap<ManifestEntry>,
    repo_tags: Option<&StringMap<String>>,
) -> (r: Vec<ManifestSummary>)
    ensures
        r.deep_view() == manifest_summaries(
            repo_manifests@,
            match repo_tags {
                Some(tags) => tags@,
                None => Map::empty(),
            },
        ),
{
    let empty: StringMap<String> = StringMap::new();
    let tags = match repo_tags {
        Some(tags) => tags,
        None => &empty,
    };
    let ghost repo = repo_manifests@;
    let n = repo_manifests.len();
    let ghost ks = sorted_keys(repo.dom());
    let mut r: Vec<ManifestSummary> = Vec::new();
    let mut i: usize = 0;
    while i < n
        invariant
            repo == repo_manifests@,
            ks == sorted_keys(repo.dom()),
            n == ks.len(),
            i <= n,
            r@.len() == i,
            forall|j: int|
                0 <= j < i ==> (#[trigger] r@[j])@ == manifest_summary(ks[j], repo[ks[j]], tags@),
        decreases n - i,
    {
        let digest = repo_manifests.key_at(i);
        let entry = repo_manifests.value_at(i);
        assert(entry.body.deep_view() =~= entry.body@);
        let body = match Json::from_slice(entry.body.as_slice()) {
            Some(doc) => doc,
            None => Json::Null,
        };
        let subject = match &entry.subject {
            Some(subject) => Some(subject.to_string()),
            None => None,
        };
        let summary = ManifestSummary {
            digest: digest.clone(),
            media_type: entry.content_type.clone(),
            artifact_type: clone_option(&entry.artifact_type),
            stored_size_bytes: entry.stored_size_bytes,
            manifest_size_bytes: entry.manifest_size_bytes,
            created_at: entry.created_at,
            last_modified: entry.last_modified,
            tags: find_tags(tags, digest.as_str()),
            subject,
            annotations: clone_option(&entry.annotations),
            config_summary: clone_option(&entry.config_summary),
            body,
        };
        assert(summary@ =~= manifest_summary(ks[i as int], repo[ks[i as int]], tags@));
        r.push(summary);
        i = i + 1;
    }
    assert(r.deep_view() =~= manifest_summaries(repo, tags@));
    r
}

// ── Repositories ─────────────────────────────────────────────────────────

/// The descriptors of the blobs of some manifests.
pub open spec fn all_descriptors(entries: Seq<ManifestEntryView>) -> Seq<JsonView>
    decreases entries.len(),
{
    if entries.len() == 0 {
        Seq::empty()
    } else {
        all_descriptors(entries.drop_last()) + match json_document(entries.last().body) {
            Some(doc) => descriptors(doc),
            None => Seq::empty(),
        }
    }
}

/// The bytes that the blobs of a repository take, each counted once.
pub open spec fn repository_stored_size(repo: RepoModel) -> u64 {
    saturated(stored_sum(all_descriptors(values_in_order(repo))))
}

/// The bytes that some manifests take.
pub open spec fn manifest_bytes(entries: Seq<ManifestEntryView>) -> nat
    decreases entries.len(),
{
    if entries.len() == 0 {
        0
    } else {
        manifest_bytes(entries.drop_last()) + entries.last().manifest_size_bytes as nat
    }
}

/// The latest modification of some manifests, or zero.
pub open spec fn latest_modification(entries: Seq<ManifestEntryView>) -> u64
    decreases entries.len(),
{
    if entries.len() == 0 {
        0
    } else {
        let t = latest_modification(entries.drop_last());
        if entries.last().last_modified > t {
            entries.last().last_modified
        } else {
            t
        }
    }
}

/// A repository with manifests, as it is listed.
pub open spec fn repository_summary(
    name: Seq<char>,
    repo: RepoModel,
    tags: RepoTagsModel,
    meta: Option<RepositoryView>,
) -> RepositorySummaryView {
    RepositorySummaryView {
        name,
        tag_count: tags.dom().len() as usize,
        manifest_count: repo.dom().len() as usize,
        stored_size_bytes: repository_stored_size(repo),
        manifest_size_bytes: saturated(manifest_bytes(values_in_order(repo))),
        last_modified: latest_modification(values_in_order(repo)),
        description: match meta {
            Some(m) => m.description,
            None => Seq::empty(),
        },
        owner: match meta {
            Some(m) => m.owner,
            None => None,
        },
        visibility: match meta {
            Some(m) => m.visibility,
            None => Visibility::Private,
        },
    }
}

/// A repository without manifests, as it is listed.
pub open spec fn shadow_summary(name: Seq<char>, meta: RepositoryView) -> RepositorySummaryView {
    RepositorySummaryView {
        name,
        tag_count: 0,
        manifest_count: 0,
        stored_size_bytes: 0,
        manifest_size_bytes: 0,
        last_modified: meta.created_at,
        description: meta.description,
        owner: meta.owner,
        visibility: meta.visibility,
    }
}

/// The repositories with manifests, as they are listed.
pub open spec fn pushed_summaries(s: StateView) -> Seq<RepositorySummaryView> {
    sorted_keys(s.manifests.dom()).map_values(
        |name: Seq<char>|
            repository_summary(
                name,
                s.manifests[name],
                or_empty(s.tags, name),
                lookup(s.repositories, name),
            ),
    )
}

/// Those of some repository objects that have no manifests, as they are
/// listed.
pub open spec fn shadow_summaries(s: StateView, names: Seq<Seq<char>>) -> Seq<
    RepositorySummaryView,
>
    decreases names.len(),
{
    if names.len() == 0 {
        Seq::empty()
    } else if s.manifests.dom().contains(names.last()) {
        shadow_summaries(s, names.drop_last())
    } else {
        shadow_summaries(s, names.drop_last()).push(
            shadow_summary(names.last(), s.repositories[names.last()]),
        )
    }
}

/// All repositories as they are listed: first those with manifests, then the
/// others.
pub open spec fn repository_summaries(s: StateView) -> Seq<RepositorySummaryView> {
    pushed_summaries(s) + shadow_summaries(s, sorted_keys(s.repositories.dom()))
}

/// The bytes that the blobs of a repository take, each counted once.
pub fn repository_stored_size_bytes(repo: &StringMap<ManifestEntry>) -> (r: u64)
    ensures
        r == repository_stored_size(repo@),
{
    let n = repo.len();
    let ghost ks = sorted_keys(repo@.dom());
    let ghost entries = values_in_order(repo@);
    let mut tally = StoredTally::new();
    let mut i: usize = 0;
    assert(all_descriptors(entries.take(0)) =~= Seq::<JsonView>::empty());
    while i < n
        invariant
            ks == sorted_keys(repo@.dom()),
            entries == values_in_order(repo@),
            n == ks.len(),
            i <= n,
            tally.stands_at(all_descriptors(entries.take(i as int))),
        decreases n - i,
    {
        let entry = repo.value_at(i);
        assert(entry.body.deep_view() =~= entry.body@);
        assert(entries.take(i + 1).drop_last() =~= entries.take(i as int));
        assert(entries.take(i + 1).last() == entry@);
        let ghost done = all_descriptors(entries.take(i as int));
        match Json::from_slice(entry.body.as_slice()) {
            Some(doc) => {
                tally.count(&doc, Ghost(done));
            },
            None => {
                assert(done + Seq::<JsonView>::empty() =~= done);
            },
        }
        i = i + 1;
    }
    assert(entries.take(entries.len() as int) =~= entries);
    tally.total(Ghost(all_descriptors(entries)))
}

/// The bytes that the manifests of a repository take.
pub fn repository_manifest_size_bytes(repo: &StringMap<ManifestEntry>) -> (r: u64)
    ensures
        r == saturated(manifest_bytes(values_in_order(repo@))),
{
    let n = repo.len();
    let ghost ks = sorted_keys(repo@.dom());
    let ghost entries = values_in_order(repo@);
    let mut total: u64 = 0;
    let mut i: usize = 0;
    while i < n
        invariant
            ks == sorted_keys(repo@.dom()),
            entries == values_in_order(repo@),
            n == ks.len(),
            i <= n,
            total == saturated(manifest_bytes(entries.take(i as int))),
        decreases n - i,
    {
        let entry = repo.value_at(i);
        assert(entries.take(i + 1).drop_last() =~= entries.take(i as int));
        assert(entries.take(i + 1).last() == entry@);
        total = total.saturating_add(entry.manifest_size_bytes);
        i = i + 1;
    }
    assert(entries.take(entries.len() as int) =~= entries);
    total
}

/// The latest modification of the manifests of a repository, or zero.
fn repository_last_modified(repo: &StringMap<ManifestEntry>) -> (r: u64)
    ensures
        r == latest_modification(values_in_order(repo@)),
{
    let n = repo.len();
    let ghost ks = sorted_keys(repo@.dom());
    let ghost entries = values_in_order(repo@);
    let mut latest: u64 = 0;
    let mut i: usize = 0;
    while i < n
        invariant
            ks == sorted_keys(repo@.dom()),
            entries == values_in_order(repo@),
            n == ks.len(),
            i <= n,
            latest == latest_modification(entries.take(i as int)),
        decreases n - i,
    {
        let entry = repo.value_at(i);
        assert(entries.take(i + 1).drop_last() =~= entries.take(i as int));
        assert(entries.take(i + 1).last() == entry@);
        if entry.last_modified > latest {
            latest = entry.last_modified;
        }
        i = i + 1;
    }
    assert(entries.take(entries.len() as int) =~= entries);
    latest
}

// ── Tokens ───────────────────────────────────────────────────────────────

/// The tokens of a subject among some tokens, in order.
pub open spec fn tokens_of(tokens: Seq<PersonalAccessTokenView>, subject: Seq<char>) -> Seq<
    PersonalAccessTokenView,
>
    decreases tokens.len(),
{
    if tokens.len() == 0 {
        Seq::empty()
    } else if tokens.last().subject == subject {
        tokens_of(tokens.drop_last(), subject).push(tokens.last())
    } else {
        tokens_of(tokens.drop_last(), subject)
    }
}

/// The first token of a hash at or after a position.
pub open spec fn token_of_hash(
    tokens: Seq<PersonalAccessTokenView>,
    hash: Seq<char>,
    from: int,
) -> Option<PersonalAccessTokenView>
    decreases tokens.len() - from,
{
    if from >= tokens.len() {
        None
    } else if tokens[from].token_hash == hash {
        Some(tokens[from])
    } else {
        token_of_hash(tokens, hash, from + 1)
    }
}

// ── Readers of the state ─────────────────────────────────────────────────

impl StateMachineData {
    /// The manifest that a reference of a repository stands for.
    pub fn get_manifest(&self, name: &str, reference: &str) -> (r: Option<ManifestEntry>)
        ensures
            r.deep_view() == manifest_of(self@, name@, reference@),
    {
        if starts_with(reference, "sha256:") || starts_with(reference, "sha512:") {
            return match self.manifests.get(name) {
                Some(repo) => copy_value(repo, reference),
                None => None,
            };
        }
        let digest = match self.tags.get(name) {
            Some(tags) => match tags.get(reference) {
                Some(digest) => digest,
                None => return None,
            },
            None => return None,
        };
        match self.manifests.get(name) {
            Some(repo) => copy_value(repo, digest.as_str()),
            None => None,
        }
    }

    /// A page of the tags of a repository.
    pub fn list_tags(&self, name: &str, n: Option<usize>, last: Option<&str>) -> (r: Vec<String>)
        ensures
            r.deep_view() == page(or_empty(self@.tags, name@).dom(), n, last.deep_view()),
    {
        match self.tags.get(name) {
            Some(tags) => page_keys(tags, n, last),
            None => {
                let none: StringMap<String> = StringMap::new();
                page_keys(&none, n, last)
            },
        }
    }

    /// A page of the repositories that have manifests.
    pub fn list_repositories(&self, n: Option<usize>, last: Option<&str>) -> (r: Vec<String>)
        ensures
            r.deep_view() == page(self@.manifests.dom(), n, last.deep_view()),
    {
        page_keys(&self.manifests, n, last)
    }

    /// One repository with manifests, as it is listed.
    fn summarize(&self, name: &String, repo: &StringMap<ManifestEntry>) -> (r: RepositorySummary)
        ensures
            r@ == repository_summary(
                name@,
                repo@,
                or_empty(self@.tags, name@),
                lookup(self@.repositories, name@),
            ),
    {
        let tag_count: usize = match self.tags.get(name.as_str()) {
            Some(tags) => tags.len(),
            None => 0,
        };
        let (description, owner, visibility) = match self.repositories.get(name.as_str()) {
            Some(meta) => (meta.description.clone(), clone_option(&meta.owner), meta.visibility),
            None => (String::new(), None, Visibility::Private),
        };
        RepositorySummary {
            name: name.clone(),
            tag_count,
            manifest_count: repo.len(),
            stored_size_bytes: repository_stored_size_bytes(repo),
            manifest_size_bytes: repository_manifest_size_bytes(repo),
            last_modified: repository_last_modified(repo),
            description,
            owner,
            visibility,
        }
    }

    /// All repositories as they are listed.
    pub fn list_repository_summaries(&self) -> (r: Vec<RepositorySummary>)
        ensures
            r.deep_view() == repository_summaries(self@),
    {
        let mut r: Vec<RepositorySummary> = Vec::new();
        let ghost s = self@;
        let n = self.manifests.len();
        let ghost ks = sorted_keys(s.manifests.dom());
        let mut i: usize = 0;
        while i < n
            invariant
                s == self@,
                ks == sorted_keys(s.manifests.dom()),
                n == ks.len(),
                i <= n,
                r@.len() == i,
                forall|j: int| 0 <= j < i ==> (#[trigger] r@[j])@ == pushed_summaries(s)[j],
            decreases n - i,
        {
            let name = self.manifests.key_at(i);
            let repo = self.manifests.value_at(i);
            r.push(self.summarize(name, repo));
            i = i + 1;
        }
        assert(r.deep_view() =~= pushed_summaries(s));
        let m = self.repositories.len();
        let ghost names = sorted_keys(s.repositories.dom());
        let mut j: usize = 0;
        assert(r.deep_view() =~= pushed_summaries(s) + shadow_summaries(s, names.take(0)));
        while j < m
            invariant
                s == self@,
                names == sorted_keys(s.repositories.dom()),
                m == names.len(),
                j <= m,
                r.deep_view() == pushed_summaries(s) + shadow_summaries(s, names.take(j as int)),
            decreases m - j,
        {
            let ghost before = r.deep_view();
            let name = self.repositories.key_at(j);
            let repo = self.repositories.value_at(j);
            assert(names.take(j + 1).drop_last() =~= names.take(j as int));
            if !self.manifests.contains_key(name.as_str()) {
                let summary = RepositorySummary {
                    name: name.clone(),
                    tag_count: 0,
                    manifest_count: 0,
                    stored_size_bytes: 0,
                    manifest_size_bytes: 0,
                    last_modified: repo.created_at,
                    description: repo.description.clone(),
                    owner: clone_option(&repo.owner),
                    visibility: repo.visibility,
                };
                r.push(summary);
                assert(r.deep_view() =~= before.push(summary@));
                assert(before.push(summary@) =~= pushed_summaries(s) + shadow_summaries(
                    s,
                    names.take(j as int),
                ).push(summary@));
            }
            j = j + 1;
        }
        assert(names.take(names.len() as int) =~= names);
        r
    }

    /// The manifests of a repository as they are listed.
    pub fn list_manifest_summaries(&self, name: &str) -> (r: Vec<ManifestSummary>)
        ensures
            r.deep_view() == manifest_summaries(
                or_empty(self@.manifests, name@),
                or_empty(self@.tags, name@),
            ),
    {
        match self.manifests.get(name) {
            Some(repo) => build_manifest_summaries(repo, self.tags.get(name)),
            None => {
                let none: StringMap<ManifestEntry> = StringMap::new();
                build_manifest_summaries(&none, self.tags.get(name))
            },
        }
    }

    /// The manifests of a repository that refer to a subject.
    pub fn list_referrers(
        &self,
        name: &str,
        subject_digest: &str,
        artifact_type: Option<&str>,
    ) -> (r: Vec<ReferrerEntry>)
        ensures
            r.deep_view() == referrers(
                values_in_order(or_empty(self@.manifests, name@)),
                subject_digest@,
                artifact_type.deep_view(),
            ),
    {
        let empty: StringMap<ManifestEntry> = StringMap::new();
        let repo = match self.manifests.get(name) {
            Some(repo) => repo,
            None => &empty,
        };
        let n = repo.len();
        let ghost ks = sorted_keys(repo@.dom());
        let ghost entries = values_in_order(repo@);
        let mut r: Vec<ReferrerEntry> = Vec::new();
        let mut i: usize = 0;
        assert(r.deep_view() =~= referrers(
            entries.take(0),
            subject_digest@,
            artifact_type.deep_view(),
        ));
        while i < n
            invariant
                ks == sorted_keys(repo@.dom()),
                entries == values_in_order(repo@),
                n == ks.len(),
                i <= n,
                r.deep_view() == referrers(
                    entries.take(i as int),
                    subject_digest@,
                    artifact_type.deep_view(),
                ),
            decreases n - i,
        {
            let ghost before = r.deep_view();
            let entry = repo.value_at(i);
            assert(entry.body.deep_view() =~= entry.body@);
            assert(entries.take(i + 1).drop_last() =~= entries.take(i as int));
            assert(entries.take(i + 1).last() == entry@);
            let refers = match &entry.subject {
                Some(subject) => str_equal(subject.to_string().as_str(), subject_digest),
                None => false,
            };
            let wanted = match artifact_type {
                Some(filter) => match &entry.artifact_type {
                    Some(kind) => str_equal(kind.as_str(), filter),
                    None => false,
                },
                None => true,
            };
            if refers && wanted {
                let referrer = ReferrerEntry {
                    digest: entry.digest.clone(),
                    media_type: entry.content_type.clone(),
                    size: entry.body.len() as u64,
                    artifact_type: clone_option(&entry.artifact_type),
                    annotations: clone_option(&entry.annotations),
                };
                r.push(referrer);
                assert(r.deep_view() =~= before.push(as_referrer(entry@)));
            }
            i = i + 1;
        }
        assert(entries.take(entries.len() as int) =~= entries);
        r
    }

    pub fn list_mirror_rules(&self) -> (r: Vec<MirrorRule>)
        ensures
            r.deep_view() == values_in_order(self@.mirror_rules),
    {
        list_values(&self.mirror_rules)
    }

    pub fn get_mirror_rule(&self, id: &str) -> (r: Option<MirrorRule>)
        ensures
            r.deep_view() == lookup(self@.mirror_rules, id@),
    {
        copy_value(&self.mirror_rules, id)
    }

    pub fn get_repository(&self, name: &str) -> (r: Option<Repository>)
        ensures
            r.deep_view() == lookup(self@.repositories, name@),
    {
        copy_value(&self.repositories, name)
    }

    pub fn list_proxy_caches(&self) -> (r: Vec<ProxyCache>)
        ensures
            r.deep_view() == values_in_order(self@.proxy_caches),
    {
        list_values(&self.proxy_caches)
    }

    pub fn get_proxy_cache(&self, id: &str) -> (r: Option<ProxyCache>)
        ensures
            r.deep_view() == lookup(self@.proxy_caches, id@),
    {
        copy_value(&self.proxy_caches, id)
    }

    pub fn get_proxy_cache_tag_validation(
        &self,
        cache_id: &str,
        repository: &str,
        tag: &str,
    ) -> (r: Option<ProxyCacheTagValidation>)
        ensures
            r.deep_view() == validation(
                self@.proxy_cache_tag_validations,
                cache_id@,
                repository@,
                tag@,
            ),
    {
        get_proxy_cache_tag_validation(&self.proxy_cache_tag_validations, cache_id, repository, tag)
    }

    pub fn list_warm_images(&self) -> (r: Vec<WarmImage>)
        ensures
            r.deep_view() == values_in_order(self@.warm_images),
    {
        list_values(&self.warm_images)
    }

    pub fn get_warm_image(&self, id: &str) -> (r: Option<WarmImage>)
        ensures
            r.deep_view() == lookup(self@.warm_images, id@),
    {
        copy_value(&self.warm_images, id)
    }

    pub fn list_sync_jobs(&self) -> (r: Vec<SyncJob>)
        ensures
            r.deep_view() == values_in_order(self@.sync_jobs),
    {
        list_values(&self.sync_jobs)
    }

    pub fn get_sync_job(&self, id: &str) -> (r: Option<SyncJob>)
        ensures
            r.deep_view() == lookup(self@.sync_jobs, id@),
    {
        copy_value(&self.sync_jobs, id)
    }

    /// The latest runs of a job, at most `limit` of them.
    pub fn list_sync_job_runs(&self, job_id: &str, limit: usize) -> (r: Vec<SyncJobRun>)
        ensures
            r.deep_view() == if runs_of(self@, job_id@).len() > limit {
                runs_of(self@, job_id@).skip(runs_of(self@, job_id@).len() - limit)
            } else {
                runs_of(self@, job_id@)
            },
    {
        let mut runs: Vec<SyncJobRun> = match self.sync_job_runs.get(job_id) {
            Some(runs) => clone_list(runs),
            None => Vec::new(),
        };
        let ghost all = runs_of(self@, job_id@);
        assert(runs.deep_view() =~= all);
        assert(all.len() == runs@.len());
        if runs.len() > limit {
            let start: usize = runs.len() - limit;
            let latest = runs.split_off(start);
            assert(latest.deep_view() =~= all.skip(start as int));
            latest
        } else {
            runs
        }
    }

    pub fn list_helm_charts(&self) -> (r: Vec<HelmChart>)
        ensures
            r.deep_view() == values_in_order(self@.helm_charts),
    {
        list_values(&self.helm_charts)
    }

    pub fn list_helm_chart_versions(&self, name: &str) -> (r: Option<Vec<HelmChartVersion>>)
        ensures
            r.deep_view() == lookup(self@.helm_chart_versions, name@),
    {
        match self.helm_chart_versions.get(name) {
            Some(versions) => Some(clone_list(versions)),
            None => None,
        }
    }

    /// The tokens of a subject.
    pub fn list_personal_access_tokens(&self, subject: &str) -> (r: Vec<PersonalAccessToken>)
        ensures
            r.deep_view() == tokens_of(values_in_order(self@.personal_access_tokens), subject@),
    {
        let n = self.personal_access_tokens.len();
        let ghost ks = sorted_keys(self@.personal_access_tokens.dom());
        let ghost tokens = values_in_order(self@.personal_access_tokens);
        let mut r: Vec<PersonalAccessToken> = Vec::new();
        let mut i: usize = 0;
        assert(r.deep_view() =~= tokens_of(tokens.take(0), subject@));
        while i < n
            invariant
                ks == sorted_keys(self@.personal_access_tokens.dom()),
                tokens == values_in_order(self@.personal_access_tokens),
                n == ks.len(),
                i <= n,
                r.deep_view() == tokens_of(tokens.take(i as int), subject@),
            decreases n - i,
        {
            let ghost before = r.deep_view();
            let token = self.personal_access_tokens.value_at(i);
            assert(tokens.take(i + 1).drop_last() =~= tokens.take(i as int));
            assert(tokens.take(i + 1).last() == token@);
            if str_equal(token.subject.as_str(), subject) {
                r.push(token.clone());
                assert(r.deep_view() =~= before.push(token@));
            }
            i = i + 1;
        }
        assert(tokens.take(tokens.len() as int) =~= tokens);
        r
    }

    /// The token of a hash.
    pub fn get_personal_access_token_by_hash(&self, token_hash: &str) -> (r: Option<
        PersonalAccessToken,
    >)
        ensures
            r.deep_view() == token_of_hash(
                values_in_order(self@.personal_access_tokens),
                token_hash@,
                0,
            ),
    {
        let n = self.personal_access_tokens.len();
        let ghost ks = sorted_keys(self@.personal_access_tokens.dom());
        let ghost tokens = values_in_order(self@.personal_access_tokens);
        let mut i: usize = 0;
        while i < n
            invariant
                ks == sorted_keys(self@.personal_access_tokens.dom()),
                tokens == values_in_order(self@.personal_access_tokens),
                n == ks.len(),
                i <= n,
                token_of_hash(tokens, token_hash@, 0) == token_of_hash(
                    tokens,
                    token_hash@,
                    i as int,
                ),
            decreases n - i,
        {
            let token = self.personal_access_tokens.value_at(i);
            assert(tokens[i as int] == token@);
            if str_equal(token.token_hash.as_str(), token_hash) {
                return Some(token.clone());
            }
            i = i + 1;
        }
        None
    }
}

} // verus!
