//! What the readers of the replicated state promise: which entries they give, which
//! they leave out, and in which order they come.
use crate::raft::model::tags_of_digests;
use crate::raft::reads::{
    latest_modification, lookup, manifest_bytes, manifest_of, page, pushed_summaries, referrers,
    repository_manifest_size_bytes, repository_summaries, shadow_summaries, token_of_hash, tokens_of, values_in_order,
};
use crate::raft::state::{StateMachineData, StateView};
use crate::raft::state_laws::lemma_page;
use crate::store::metadata::types::{
    ManifestEntry, ManifestEntryView, ManifestSummary, PersonalAccessToken,
    PersonalAccessTokenView, ReferrerEntry, ReferrerEntryView, RepositorySummary,
    RepositorySummaryView, SyncJobRun, Visibility,
};
use crate::store::metadata::validations::or_empty;
use crate::string_map::{
    ascending, lemma_ascending_position, lemma_finite_keys, lemma_finite_listing, sorted_keys,
    StringMap,
};
use crate::text::text_lt;
use vstd::prelude::*;

verus! {

// ── Listings ─────────────────────────────────────────────────────────────

/// The keys of a longer listing that are wanted, from those of a shorter one.
proof fn lemma_kept_push(
    keys: Seq<Seq<char>>,
    kept: Seq<Seq<char>>,
    wanted: spec_fn(Seq<char>) -> bool,
) -> (r: Seq<Seq<char>>)
    requires
        keys.len() > 0,
        ascending(keys),
        ascending(kept),
        forall|k: Seq<char>| #[trigger]
            kept.contains(k) <==> keys.drop_last().contains(k) && wanted(k),
    ensures
        r == if wanted(keys.last()) {
            kept.push(keys.last())
        } else {
            kept
        },
        ascending(r),
        forall|k: Seq<char>| #[trigger] r.contains(k) <==> keys.contains(k) && wanted(k),
{
    let front = keys.drop_last();
    let last = keys.last();
    let r = if wanted(last) {
        kept.push(last)
    } else {
        kept
    };
    assert forall|k: Seq<char>| keys.contains(k) <==> front.contains(k) || k == last by {
        if front.contains(k) {
            let i = choose|i: int| 0 <= i < front.len() && front[i] == k;
            assert(keys[i] == k);
        }
        assert(keys[keys.len() - 1] == last);
        if keys.contains(k) && k != last {
            let i = choose|i: int| 0 <= i < keys.len() && keys[i] == k;
            assert(front[i] == k);
        }
    }
    if wanted(last) {
        assert forall|i: int, j: int| 0 <= i < j < r.len() implies text_lt(
            #[trigger] r[i],
            #[trigger] r[j],
        ) by {
            if j < kept.len() {
                assert(text_lt(kept[i], kept[j]));
            } else {
                assert(kept.contains(kept[i]));
                let q = choose|q: int| 0 <= q < front.len() && front[q] == kept[i];
                assert(text_lt(keys[q], keys[keys.len() - 1]));
            }
        }
        assert forall|k: Seq<char>| #[trigger] r.contains(k) <==> kept.contains(k) || k == last by {
            if kept.contains(k) {
                let i = choose|i: int| 0 <= i < kept.len() && kept[i] == k;
                assert(r[i] == k);
            }
            assert(r[kept.len() as int] == last);
            if r.contains(k) && k != last {
                let i = choose|i: int| 0 <= i < r.len() && r[i] == k;
                assert(kept[i] == k);
            }
        }
    }
    r
}

proof fn lemma_front_ascending(keys: Seq<Seq<char>>)
    requires
        keys.len() > 0,
        ascending(keys),
    ensures
        ascending(keys.drop_last()),
{
    let front = keys.drop_last();
    assert forall|i: int, j: int| 0 <= i < j < front.len() implies text_lt(
        #[trigger] front[i],
        #[trigger] front[j],
    ) by {
        assert(text_lt(keys[i], keys[j]));
    }
}

/// What is listed of a map are its values, each once, in ascending order of their
/// keys.
pub proof fn lemma_values_are_listed<T>(m: Map<Seq<char>, T>) -> (keys: Seq<Seq<char>>)
    requires
        m.dom().finite(),
    ensures
        ascending(keys),
        keys.no_duplicates(),
        forall|k: Seq<char>| #[trigger] keys.contains(k) <==> m.dom().contains(k),
        values_in_order(m).len() == keys.len(),
        keys.len() == m.dom().len(),
        forall|i: int| 0 <= i < keys.len() ==> #[trigger] values_in_order(m)[i] == m[keys[i]],
        forall|k: Seq<char>| #[trigger] m.dom().contains(k) ==> values_in_order(m).contains(m[k]),
{
    lemma_finite_listing(m.dom());
    let keys = sorted_keys(m.dom());
    if keys.len() > 0 {
        lemma_ascending_position(keys, 0);
    }
    assert(keys.to_set() =~= m.dom());
    keys.unique_seq_to_set();
    assert forall|k: Seq<char>| #[trigger] m.dom().contains(k) implies values_in_order(m).contains(
        m[k],
    ) by {
        assert(keys.contains(k));
        let i = choose|i: int| 0 <= i < keys.len() && keys[i] == k;
        assert(values_in_order(m)[i] == m[k]);
    }
    keys
}

/// What is read under a key is what is stored under it, and nothing where nothing is.
pub proof fn lemma_lookup_reads_what_is_stored<T>(m: Map<Seq<char>, T>, key: Seq<char>, value: T)
    ensures
        lookup(m.insert(key, value), key) == Some(value),
        lookup(m.remove(key), key) is None,
        lookup(m, key) is Some <==> m.dom().contains(key),
        lookup(m, key) matches Some(v) ==> v == m[key],
{
}

/// A page is never shorter than it can be: it has as many names as are asked for, or
/// all that there are beyond `last`.
pub proof fn lemma_page_is_full(names: Set<Seq<char>>, n: usize, last: Option<Seq<char>>)
    requires
        names.finite(),
    ensures
        ({
            let rest = page(names, None, last);
            let first = page(names, Some(n), last);
            &&& first.len() == if n < rest.len() {
                n as nat
            } else {
                rest.len()
            }
            &&& forall|i: int| 0 <= i < first.len() ==> #[trigger] first[i] == rest[i]
            &&& n > 0 && (exists|k: Seq<char>| #[trigger]
                names.contains(k) && (last matches Some(l) ==> text_lt(l, k))) ==> first.len() > 0
        }),
{
    lemma_page(names, Some(n), last);
    let rest = page(names, None, last);
    if exists|k: Seq<char>| #[trigger]
        names.contains(k) && (last matches Some(l) ==> text_lt(l, k)) {
        let k = choose|k: Seq<char>| #[trigger]
            names.contains(k) && (last matches Some(l) ==> text_lt(l, k));
        assert(page(names, None, last).contains(k));
        assert(rest.len() > 0);
    }
}

/// The tags that are listed are tags of the repository that come after `last`, in
/// ascending order and at most `n`; without a limit all of them are listed.
pub proof fn lemma_listed_tags(
    data: &StateMachineData,
    name: &str,
    n: Option<usize>,
    last: Option<&str>,
    r: Vec<String>,
)
    requires
        call_ensures(StateMachineData::list_tags, (data, name, n, last), r),
        or_empty(data@.tags, name@).dom().finite(),
    ensures
        ascending(r.deep_view()),
        n matches Some(limit) ==> r@.len() <= limit,
        forall|t: Seq<char>| #[trigger]
            r.deep_view().contains(t) ==> data@.tags.dom().contains(name@)
                && data@.tags[name@].dom().contains(t) && (last matches Some(l) ==> text_lt(l@, t)),
        forall|t: Seq<char>|
            n is None && data@.tags.dom().contains(name@) && #[trigger] data@.tags[name@].dom().contains(
                t,
            ) && (last matches Some(l) ==> text_lt(l@, t)) ==> r.deep_view().contains(t),
{
    let names = or_empty(data@.tags, name@).dom();
    lemma_page(names, n, last.deep_view());
    assert(r.deep_view().len() == r@.len());
    assert forall|t: Seq<char>|
        n is None && data@.tags.dom().contains(name@) && #[trigger] data@.tags[name@].dom().contains(
            t,
        ) && (last matches Some(l) ==> text_lt(l@, t)) implies r.deep_view().contains(t) by {
        assert(page(names, None, last.deep_view()).contains(t));
    }
}

/// The repositories that are listed hold manifests and come after `last`, in ascending
/// order and at most `n`; without a limit all of them are listed.
pub proof fn lemma_listed_repositories(
    data: &StateMachineData,
    n: Option<usize>,
    last: Option<&str>,
    r: Vec<String>,
)
    requires
        call_ensures(StateMachineData::list_repositories, (data, n, last), r),
    ensures
        ascending(r.deep_view()),
        n matches Some(limit) ==> r@.len() <= limit,
        forall|t: Seq<char>| #[trigger]
            r.deep_view().contains(t) ==> data@.manifests.dom().contains(t) && (last matches Some(l)
                ==> text_lt(l@, t)),
        forall|t: Seq<char>|
            n is None && #[trigger] data@.manifests.dom().contains(t) && (last matches Some(l)
                ==> text_lt(l@, t)) ==> r.deep_view().contains(t),
{
    lemma_finite_keys(&data.manifests);
    let names = data@.manifests.dom();
    lemma_page(names, n, last.deep_view());
    assert(r.deep_view().len() == r@.len());
    assert forall|t: Seq<char>|
        n is None && #[trigger] data@.manifests.dom().contains(t) && (last matches Some(l)
            ==> text_lt(l@, t)) implies r.deep_view().contains(t) by {
        assert(page(names, None, last.deep_view()).contains(t));
    }
}

// ── Manifests ────────────────────────────────────────────────────────────

/// A manifest is read under its digest; under a tag, what the tag points to is read;
/// and what is read of a repository is one of its manifests.
pub proof fn lemma_manifest_is_read(
    s: StateView,
    name: Seq<char>,
    reference: Seq<char>,
    digest: Seq<char>,
)
    ensures
        "sha256:"@.is_prefix_of(digest) && s.manifests.dom().contains(name)
            && s.manifests[name].dom().contains(digest) ==> manifest_of(s, name, digest) == Some(
            s.manifests[name][digest],
        ),
        "sha512:"@.is_prefix_of(digest) && s.manifests.dom().contains(name)
            && s.manifests[name].dom().contains(digest) ==> manifest_of(s, name, digest) == Some(
            s.manifests[name][digest],
        ),
        !reference.contains(':') && s.tags.dom().contains(name) && s.tags[name].dom().contains(
            reference,
        ) && s.tags[name][reference] == digest && s.manifests.dom().contains(name)
            && s.manifests[name].dom().contains(digest) ==> manifest_of(s, name, reference) == Some(
            s.manifests[name][digest],
        ),
        !reference.contains(':') && !(s.tags.dom().contains(name) && s.tags[name].dom().contains(
            reference,
        )) ==> manifest_of(s, name, reference) is None,
        manifest_of(s, name, reference) is Some ==> s.manifests.dom().contains(name) && exists|
            d: Seq<char>,
        | #[trigger]
            s.manifests[name].dom().contains(d) && s.manifests[name][d] == manifest_of(
                s,
                name,
                reference,
            )->0,
{
    reveal_strlit("sha256:");
    reveal_strlit("sha512:");
    if !reference.contains(':') {
        if "sha256:"@.is_prefix_of(reference) {
            assert(reference[6] == "sha256:"@[6]);
        }
        if "sha512:"@.is_prefix_of(reference) {
            assert(reference[6] == "sha512:"@[6]);
        }
    }
}

/// The referrers among the manifests under some keys, and which keys those are.
proof fn lemma_referrers_among(
    keys: Seq<Seq<char>>,
    repo: Map<Seq<char>, ManifestEntryView>,
    subject: Seq<char>,
    artifact_type: Option<Seq<char>>,
) -> (kept: Seq<Seq<char>>)
    requires
        ascending(keys),
    ensures
        ascending(kept),
        forall|k: Seq<char>| #[trigger]
            kept.contains(k) <==> keys.contains(k) && repo[k].subject == Some(subject) && (
            artifact_type matches Some(t) ==> repo[k].artifact_type == Some(t)),
        ({
            let found = referrers(
                keys.map_values(|k: Seq<char>| repo[k]),
                subject,
                artifact_type,
            );
            &&& found.len() == kept.len()
            &&& forall|i: int|
                0 <= i < kept.len() ==> #[trigger] found[i] == (ReferrerEntryView {
                    digest: repo[kept[i]].digest,
                    media_type: repo[kept[i]].content_type,
                    size: repo[kept[i]].body.len() as u64,
                    artifact_type: repo[kept[i]].artifact_type,
                    annotations: repo[kept[i]].annotations,
                })
        }),
    decreases keys.len(),
{
    if keys.len() == 0 {
        Seq::empty()
    } else {
        let front = keys.drop_last();
        lemma_front_ascending(keys);
        let before = lemma_referrers_among(front, repo, subject, artifact_type);
        let wanted = |k: Seq<char>|
            repo[k].subject == Some(subject) && (artifact_type matches Some(t)
                ==> repo[k].artifact_type == Some(t));
        let kept = lemma_kept_push(keys, before, wanted);
        let entries = keys.map_values(|k: Seq<char>| repo[k]);
        assert(entries.drop_last() =~= front.map_values(|k: Seq<char>| repo[k]));
        assert(entries.last() == repo[keys.last()]);
        kept
    }
}

/// The referrers of a digest are the manifests of the repository whose subject is that
/// digest, of the wanted artifact type where one is asked for: every such manifest is
/// listed, no other is, and each comes once, in ascending order of the digests that
/// they are stored under.
pub proof fn lemma_listed_referrers(
    data: &StateMachineData,
    name: &str,
    subject: &str,
    artifact_type: Option<&str>,
    r: Vec<ReferrerEntry>,
) -> (digests: Seq<Seq<char>>)
    requires
        call_ensures(StateMachineData::list_referrers, (data, name, subject, artifact_type), r),
        or_empty(data@.manifests, name@).dom().finite(),
    ensures
        ({
            let repo = or_empty(data@.manifests, name@);
            &&& r@.len() == digests.len()
            &&& ascending(digests)
            &&& forall|d: Seq<char>| #[trigger]
                digests.contains(d) <==> repo.dom().contains(d) && repo[d].subject == Some(subject@)
                    && (artifact_type matches Some(t) ==> repo[d].artifact_type == Some(t@))
            &&& forall|i: int|
                0 <= i < digests.len() ==> (#[trigger] r@[i])@ == (ReferrerEntryView {
                    digest: repo[digests[i]].digest,
                    media_type: repo[digests[i]].content_type,
                    size: repo[digests[i]].body.len() as u64,
                    artifact_type: repo[digests[i]].artifact_type,
                    annotations: repo[digests[i]].annotations,
                })
        }),
{
    let repo = or_empty(data@.manifests, name@);
    lemma_finite_listing(repo.dom());
    let keys = sorted_keys(repo.dom());
    let kept = lemma_referrers_among(keys, repo, subject@, artifact_type.deep_view());
    assert(r.deep_view().len() == r@.len());
    assert forall|i: int| 0 <= i < kept.len() implies (#[trigger] r@[i])@ == (ReferrerEntryView {
        digest: repo[kept[i]].digest,
        media_type: repo[kept[i]].content_type,
        size: repo[kept[i]].body.len() as u64,
        artifact_type: repo[kept[i]].artifact_type,
        annotations: repo[kept[i]].annotations,
    }) by {
        assert(r.deep_view()[i] == r@[i]@);
    }
    kept
}

/// The manifests of a repository are listed each once, in ascending order of their
/// digests, each with its own sizes and times and with exactly the tags that point to
/// it.
pub proof fn lemma_listed_manifests(
    data: &StateMachineData,
    name: &str,
    r: Vec<ManifestSummary>,
) -> (digests: Seq<Seq<char>>)
    requires
        call_ensures(StateMachineData::list_manifest_summaries, (data, name), r),
        or_empty(data@.manifests, name@).dom().finite(),
        or_empty(data@.tags, name@).dom().finite(),
    ensures
        ({
            let repo = or_empty(data@.manifests, name@);
            let tags = or_empty(data@.tags, name@);
            &&& r@.len() == digests.len()
            &&& ascending(digests)
            &&& forall|d: Seq<char>| #[trigger] digests.contains(d) <==> repo.dom().contains(d)
            &&& forall|i: int|
                0 <= i < digests.len() ==> {
                    let shown = (#[trigger] r@[i])@;
                    let e = repo[digests[i]];
                    &&& shown.digest == digests[i]
                    &&& shown.media_type == e.content_type
                    &&& shown.artifact_type == e.artifact_type
                    &&& shown.subject == e.subject
                    &&& shown.annotations == e.annotations
                    &&& shown.config_summary == e.config_summary
                    &&& shown.stored_size_bytes == e.stored_size_bytes
                    &&& shown.manifest_size_bytes == e.manifest_size_bytes
                    &&& shown.created_at == e.created_at
                    &&& shown.last_modified == e.last_modified
                    &&& ascending(shown.tags)
                    &&& forall|t: Seq<char>| #[trigger]
                        shown.tags.contains(t) <==> tags.dom().contains(t) && tags[t] == digests[i]
                }
        }),
{
    let repo = or_empty(data@.manifests, name@);
    let tags = or_empty(data@.tags, name@);
    lemma_finite_listing(repo.dom());
    let keys = sorted_keys(repo.dom());
    assert(r.deep_view().len() == r@.len());
    assert forall|i: int| 0 <= i < keys.len() implies {
        let shown = (#[trigger] r@[i])@;
        let e = repo[keys[i]];
        &&& shown.digest == keys[i]
        &&& shown.media_type == e.content_type
        &&& shown.artifact_type == e.artifact_type
        &&& shown.subject == e.subject
        &&& shown.annotations == e.annotations
        &&& shown.config_summary == e.config_summary
        &&& shown.stored_size_bytes == e.stored_size_bytes
        &&& shown.manifest_size_bytes == e.manifest_size_bytes
        &&& shown.created_at == e.created_at
        &&& shown.last_modified == e.last_modified
        &&& ascending(shown.tags)
        &&& forall|t: Seq<char>| #[trigger]
            shown.tags.contains(t) <==> tags.dom().contains(t) && tags[t] == keys[i]
    } by {
        assert(r.deep_view()[i] == r@[i]@);
        let gone = tags_of_digests(tags, set![keys[i]]);
        assert(gone.subset_of(tags.dom()));
        vstd::set_lib::lemma_len_subset(gone, tags.dom());
        lemma_finite_listing(gone);
    }
    keys
}

// ── Repositories ─────────────────────────────────────────────────────────

/// The latest modification of some manifests is that of one of them, and none of them
/// was modified later.
proof fn lemma_latest_of_entries(entries: Seq<ManifestEntryView>)
    ensures
        forall|i: int|
            0 <= i < entries.len() ==> (#[trigger] entries[i]).last_modified <= latest_modification(
                entries,
            ),
        entries.len() > 0 ==> exists|i: int|
            0 <= i < entries.len() && (#[trigger] entries[i]).last_modified == latest_modification(
                entries,
            ),
    decreases entries.len(),
{
    if entries.len() > 0 {
        let front = entries.drop_last();
        lemma_latest_of_entries(front);
        let last = entries.len() - 1;
        let t = latest_modification(front);
        assert forall|i: int| 0 <= i < entries.len() implies (#[trigger] entries[i]).last_modified
            <= latest_modification(entries) by {
            if i < last {
                assert(front[i] == entries[i]);
            }
        }
        if entries.last().last_modified > t || front.len() == 0 {
            assert(entries[last].last_modified == latest_modification(entries));
        } else {
            let i = choose|i: int|
                0 <= i < front.len() && (#[trigger] front[i]).last_modified == t;
            assert(entries[i].last_modified == latest_modification(entries));
        }
    }
}

/// The bytes of some manifests are those of each of them together.
proof fn lemma_bytes_of_entries(entries: Seq<ManifestEntryView>)
    ensures
        manifest_bytes(entries) == entries.map_values(
            |e: ManifestEntryView| e.manifest_size_bytes as int,
        ).fold_left(0int, |sum: int, n: int| sum + n),
    decreases entries.len(),
{
    let sizes = entries.map_values(|e: ManifestEntryView| e.manifest_size_bytes as int);
    reveal(Seq::fold_left);
    if entries.len() > 0 {
        lemma_bytes_of_entries(entries.drop_last());
        assert(sizes.drop_last() =~= entries.drop_last().map_values(
            |e: ManifestEntryView| e.manifest_size_bytes as int,
        ));
    }
}

/// What a repository with manifests shows as its last change is the latest change of
/// any of its manifests.
proof fn lemma_latest_of_repository(repo: Map<Seq<char>, ManifestEntryView>)
    requires
        repo.dom().finite(),
    ensures
        forall|d: Seq<char>| #[trigger]
            repo.dom().contains(d) ==> repo[d].last_modified <= latest_modification(
                values_in_order(repo),
            ),
        repo.dom().len() > 0 ==> exists|d: Seq<char>| #[trigger]
            repo.dom().contains(d) && repo[d].last_modified == latest_modification(
                values_in_order(repo),
            ),
{
    let keys = lemma_values_are_listed(repo);
    let entries = values_in_order(repo);
    lemma_latest_of_entries(entries);
    assert forall|d: Seq<char>| #[trigger] repo.dom().contains(d) implies repo[d].last_modified
        <= latest_modification(entries) by {
        assert(keys.contains(d));
        let i = choose|i: int| 0 <= i < keys.len() && keys[i] == d;
        assert(entries[i] == repo[d]);
    }
    if repo.dom().len() > 0 {
        let i = choose|i: int|
            0 <= i < entries.len() && (#[trigger] entries[i]).last_modified == latest_modification(
                entries,
            );
        assert(keys.contains(keys[i]));
        assert(repo.dom().contains(keys[i]));
    }
}

/// Which of some repository objects are listed as repositories without manifests.
proof fn lemma_shadows_among(s: StateView, names: Seq<Seq<char>>) -> (kept: Seq<Seq<char>>)
    requires
        ascending(names),
    ensures
        ascending(kept),
        forall|k: Seq<char>| #[trigger]
            kept.contains(k) <==> names.contains(k) && !s.manifests.dom().contains(k),
        shadow_summaries(s, names).len() == kept.len(),
        forall|i: int|
            0 <= i < kept.len() ==> #[trigger] shadow_summaries(s, names)[i] == (
            RepositorySummaryView {
                name: kept[i],
                tag_count: 0,
                manifest_count: 0,
                stored_size_bytes: 0,
                manifest_size_bytes: 0,
                last_modified: s.repositories[kept[i]].created_at,
                description: s.repositories[kept[i]].description,
                owner: s.repositories[kept[i]].owner,
                visibility: s.repositories[kept[i]].visibility,
            }),
    decreases names.len(),
{
    if names.len() == 0 {
        Seq::empty()
    } else {
        lemma_front_ascending(names);
        let before = lemma_shadows_among(s, names.drop_last());
        lemma_kept_push(names, before, |k: Seq<char>| !s.manifests.dom().contains(k))
    }
}

/// What is shown of a repository that holds manifests: its counts are those of its
/// manifests and tags, its last change is the latest change of any of its manifests,
/// and what is known of the repository itself is shown as it is.
pub open spec fn shows_repository(s: StateView, shown: RepositorySummaryView) -> bool {
    let repo = s.manifests[shown.name];
    let tags = or_empty(s.tags, shown.name);
    let known = s.repositories.dom().contains(shown.name);
    let meta = s.repositories[shown.name];
    &&& shown.manifest_count == repo.dom().len() as usize
    &&& shown.tag_count == tags.dom().len() as usize
    &&& forall|d: Seq<char>| #[trigger]
        repo.dom().contains(d) ==> repo[d].last_modified <= shown.last_modified
    &&& repo.dom().len() > 0 ==> exists|d: Seq<char>| #[trigger]
        repo.dom().contains(d) && repo[d].last_modified == shown.last_modified
    &&& forall|d: Seq<char>| #[trigger]
        repo.dom().contains(d) ==> repo[d].manifest_size_bytes <= shown.manifest_size_bytes
    &&& known ==> shown.description == meta.description && shown.owner == meta.owner
        && shown.visibility == meta.visibility
    &&& !known ==> shown.description.len() == 0 && shown.owner is None && shown.visibility
        == Visibility::Private
}

/// What is shown of a repository without manifests: nothing is counted, and its last
/// change is its creation.
pub open spec fn shows_empty_repository(s: StateView, shown: RepositorySummaryView) -> bool {
    let meta = s.repositories[shown.name];
    &&& shown.manifest_count == 0 && shown.tag_count == 0
    &&& shown.stored_size_bytes == 0 && shown.manifest_size_bytes == 0
    &&& shown.last_modified == meta.created_at
    &&& shown.description == meta.description && shown.owner == meta.owner && shown.visibility
        == meta.visibility
}

/// The bytes of a repository are at least those of each of its manifests.
proof fn lemma_bytes_cover_each(entries: Seq<ManifestEntryView>, i: int)
    requires
        0 <= i < entries.len(),
    ensures
        entries[i].manifest_size_bytes <= manifest_bytes(entries),
    decreases entries.len(),
{
    if i < entries.len() - 1 {
        lemma_bytes_cover_each(entries.drop_last(), i);
    }
}

/// The summaries show every repository once, whether it holds manifests or is only
/// known by its object, and no other. One with manifests shows the latest change of
/// any of them.
pub proof fn lemma_listed_summaries(data: &StateMachineData, r: Vec<RepositorySummary>)
    requires
        call_ensures(StateMachineData::list_repository_summaries, (data,), r),
        forall|name: Seq<char>| #[trigger]
            data@.manifests.dom().contains(name) ==> data@.manifests[name].dom().finite(),
    ensures
        forall|i: int|
            0 <= i < r@.len() ==> {
                let shown = (#[trigger] r@[i])@;
                if data@.manifests.dom().contains(shown.name) {
                    shows_repository(data@, shown)
                } else {
                    data@.repositories.dom().contains(shown.name) && shows_empty_repository(
                        data@,
                        shown,
                    )
                }
            },
        forall|i: int, j: int|
            0 <= i < j < r@.len() ==> (#[trigger] r@[i])@.name != (#[trigger] r@[j])@.name,
        forall|name: Seq<char>|
            #![trigger data@.manifests.dom().contains(name)]
            #![trigger data@.repositories.dom().contains(name)]
            data@.manifests.dom().contains(name) || data@.repositories.dom().contains(name)
                ==> exists|i: int| 0 <= i < r@.len() && (#[trigger] r@[i])@.name == name,
{
    let s = data@;
    lemma_finite_keys(&data.manifests);
    lemma_finite_keys(&data.repositories);
    lemma_finite_listing(s.manifests.dom());
    lemma_finite_listing(s.repositories.dom());
    let names = sorted_keys(s.manifests.dom());
    let metas = sorted_keys(s.repositories.dom());
    let kept = lemma_shadows_among(s, metas);
    let all = repository_summaries(s);
    assert(r.deep_view().len() == r@.len());
    assert(all.len() == names.len() + kept.len());
    assert forall|i: int| 0 <= i < r@.len() implies (#[trigger] r@[i])@.name == if i < names.len() {
        names[i]
    } else {
        kept[i - names.len()]
    } by {
        assert(r.deep_view()[i] == r@[i]@);
        if i >= names.len() {
            assert(all[i] == shadow_summaries(s, metas)[i - names.len()]);
        }
    }
    assert forall|i: int| 0 <= i < r@.len() implies {
        let shown = (#[trigger] r@[i])@;
        if s.manifests.dom().contains(shown.name) {
            shows_repository(s, shown)
        } else {
            s.repositories.dom().contains(shown.name) && shows_empty_repository(s, shown)
        }
    } by {
        assert(r.deep_view()[i] == r@[i]@);
        if i < names.len() {
            assert(names.contains(names[i]));
            assert(all[i] == pushed_summaries(s)[i]);
            let repo = s.manifests[names[i]];
            lemma_latest_of_repository(repo);
            let keys = lemma_values_are_listed(repo);
            assert forall|d: Seq<char>| #[trigger] repo.dom().contains(d) implies repo[d].manifest_size_bytes
                <= r@[i]@.manifest_size_bytes by {
                assert(keys.contains(d));
                let k = choose|k: int| 0 <= k < keys.len() && keys[k] == d;
                assert(values_in_order(repo)[k] == repo[d]);
                lemma_bytes_cover_each(values_in_order(repo), k);
            }
        } else {
            assert(all[i] == shadow_summaries(s, metas)[i - names.len()]);
            assert(kept.contains(kept[i - names.len()]));
            assert(metas.contains(kept[i - names.len()]));
        }
    }
    assert forall|i: int, j: int| 0 <= i < j < r@.len() implies (#[trigger] r@[i])@.name != (
    #[trigger] r@[j])@.name by {
        if names.len() > 0 {
            lemma_ascending_position(names, 0);
        }
        if kept.len() > 0 {
            lemma_ascending_position(kept, 0);
        }
        if i < names.len() {
            assert(names.contains(names[i]));
        }
        if j >= names.len() {
            assert(kept.contains(kept[j - names.len()]));
        }
    }
    assert forall|name: Seq<char>|
        s.manifests.dom().contains(name) || s.repositories.dom().contains(name) implies exists|
        i: int,
    | 0 <= i < r@.len() && (#[trigger] r@[i])@.name == name by {
        if s.manifests.dom().contains(name) {
            assert(names.contains(name));
            let i = choose|i: int| 0 <= i < names.len() && names[i] == name;
            assert(r@[i]@.name == name);
        } else {
            assert(metas.contains(name));
            assert(kept.contains(name));
            let i = choose|i: int| 0 <= i < kept.len() && kept[i] == name;
            assert(r@[i + names.len()]@.name == name);
        }
    }
}

/// The bytes that the manifests of a repository take are those of each of them
/// together, up to the largest number.
pub proof fn lemma_manifest_bytes_add_up(
    repo: &StringMap<ManifestEntry>,
    r: u64,
)
    requires
        call_ensures(repository_manifest_size_bytes, (repo,), r),
    ensures
        ({
            let total = values_in_order(repo@).map_values(
                |e: ManifestEntryView| e.manifest_size_bytes as int,
            ).fold_left(0int, |sum: int, n: int| sum + n);
            r == if total <= u64::MAX {
                total
            } else {
                u64::MAX as int
            }
        }),
{
    lemma_bytes_of_entries(values_in_order(repo@));
}

// ── Tokens ───────────────────────────────────────────────────────────────

proof fn lemma_tokens_among(
    keys: Seq<Seq<char>>,
    tokens: Map<Seq<char>, PersonalAccessTokenView>,
    subject: Seq<char>,
) -> (kept: Seq<Seq<char>>)
    requires
        ascending(keys),
    ensures
        ascending(kept),
        forall|k: Seq<char>| #[trigger]
            kept.contains(k) <==> keys.contains(k) && tokens[k].subject == subject,
        ({
            let found = tokens_of(keys.map_values(|k: Seq<char>| tokens[k]), subject);
            &&& found.len() == kept.len()
            &&& forall|i: int| 0 <= i < kept.len() ==> #[trigger] found[i] == tokens[kept[i]]
        }),
    decreases keys.len(),
{
    if keys.len() == 0 {
        Seq::empty()
    } else {
        let front = keys.drop_last();
        lemma_front_ascending(keys);
        let before = lemma_tokens_among(front, tokens, subject);
        let kept = lemma_kept_push(keys, before, |k: Seq<char>| tokens[k].subject == subject);
        let entries = keys.map_values(|k: Seq<char>| tokens[k]);
        assert(entries.drop_last() =~= front.map_values(|k: Seq<char>| tokens[k]));
        kept
    }
}

/// A subject is shown all of its tokens and no other, each once.
pub proof fn lemma_listed_tokens(
    data: &StateMachineData,
    subject: &str,
    r: Vec<PersonalAccessToken>,
) -> (ids: Seq<Seq<char>>)
    requires
        call_ensures(StateMachineData::list_personal_access_tokens, (data, subject), r),
    ensures
        r@.len() == ids.len(),
        ascending(ids),
        forall|id: Seq<char>| #[trigger]
            ids.contains(id) <==> data@.personal_access_tokens.dom().contains(id)
                && data@.personal_access_tokens[id].subject == subject@,
        forall|i: int|
            0 <= i < ids.len() ==> (#[trigger] r@[i])@ == data@.personal_access_tokens[ids[i]],
{
    lemma_finite_keys(&data.personal_access_tokens);
    let tokens = data@.personal_access_tokens;
    lemma_finite_listing(tokens.dom());
    let keys = sorted_keys(tokens.dom());
    let kept = lemma_tokens_among(keys, tokens, subject@);
    assert(r.deep_view().len() == r@.len());
    assert forall|i: int| 0 <= i < kept.len() implies (#[trigger] r@[i])@ == tokens[kept[i]] by {
        assert(r.deep_view()[i] == r@[i]@);
    }
    kept
}

proof fn lemma_hash_search(tokens: Seq<PersonalAccessTokenView>, hash: Seq<char>, from: int)
    requires
        0 <= from <= tokens.len(),
    ensures
        match token_of_hash(tokens, hash, from) {
            Some(t) => t.token_hash == hash && exists|i: int|
                from <= i < tokens.len() && #[trigger] tokens[i] == t,
            None => forall|i: int|
                from <= i < tokens.len() ==> (#[trigger] tokens[i]).token_hash != hash,
        },
    decreases tokens.len() - from,
{
    if from < tokens.len() {
        if tokens[from].token_hash != hash {
            lemma_hash_search(tokens, hash, from + 1);
        } else {
            assert(tokens[from] == token_of_hash(tokens, hash, from)->0);
        }
    }
}

/// A token is found by its hash exactly where a stored token has that hash.
pub proof fn lemma_token_found_by_hash(
    data: &StateMachineData,
    hash: &str,
    r: Option<PersonalAccessToken>,
)
    requires
        call_ensures(StateMachineData::get_personal_access_token_by_hash, (data, hash), r),
    ensures
        match r {
            Some(t) => t@.token_hash == hash@ && exists|id: Seq<char>| #[trigger]
                data@.personal_access_tokens.dom().contains(id)
                    && data@.personal_access_tokens[id] == t@,
            None => forall|id: Seq<char>| #[trigger]
                data@.personal_access_tokens.dom().contains(id)
                    ==> data@.personal_access_tokens[id].token_hash != hash@,
        },
{
    lemma_finite_keys(&data.personal_access_tokens);
    let map = data@.personal_access_tokens;
    let tokens = values_in_order(map);
    let keys = lemma_values_are_listed(map);
    lemma_hash_search(tokens, hash@, 0);
    match r {
        Some(t) => {
            let i = choose|i: int| 0 <= i < tokens.len() && #[trigger] tokens[i] == t@;
            assert(keys.contains(keys[i]));
        },
        None => {
            assert forall|id: Seq<char>| #[trigger] map.dom().contains(id) implies map[id].token_hash
                != hash@ by {
                assert(keys.contains(id));
                let i = choose|i: int| 0 <= i < keys.len() && keys[i] == id;
                assert(tokens[i] == map[id]);
            }
        },
    }
}

// ── Runs ─────────────────────────────────────────────────────────────────

/// The runs that are shown of a job are its latest, in the order in which they were
/// recorded: as many as are asked for, or all.
pub proof fn lemma_listed_runs(
    data: &StateMachineData,
    job_id: &str,
    limit: usize,
    r: Vec<SyncJobRun>,
)
    requires
        call_ensures(StateMachineData::list_sync_job_runs, (data, job_id, limit), r),
    ensures
        !data@.sync_job_runs.dom().contains(job_id@) ==> r@.len() == 0,
        data@.sync_job_runs.dom().contains(job_id@) ==> {
            let all = data@.sync_job_runs[job_id@];
            &&& r@.len() == if limit < all.len() {
                limit as nat
            } else {
                all.len()
            }
            &&& forall|i: int|
                0 <= i < r@.len() ==> (#[trigger] r@[i])@ == all[all.len() - r@.len() + i]
        },
{
    assert(r.deep_view().len() == r@.len());
    assert forall|i: int| 0 <= i < r@.len() implies (#[trigger] r@[i])@ == r.deep_view()[i] by {}
}

} // verus!
