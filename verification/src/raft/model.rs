//! What each change does to the state, over its mathematical model.
use crate::error::ErrorView;
use crate::oci::digest::{is_digest, sha256_name};
use crate::oci::json::json_document;
use crate::oci::manifest::referenced_digests;
use crate::raft::state::StateView;
use crate::raft::{ManifestRequest, ManifestResponseView, Request};
use crate::store::metadata::handle::handle_of_outcome;
use crate::store::metadata::types::{BlobDeleteStatusView, DeleteCounts, ManifestEntryView};
use crate::store::metadata::validations::{
    or_empty, without_repository, without_tag, ValidationsModel,
};
use crate::string_map::sorted_keys;
use crate::text::debug_quoted;
use vstd::prelude::*;

verus! {

pub type RepoModel = Map<Seq<char>, ManifestEntryView>;

pub type ManifestsModel = Map<Seq<char>, RepoModel>;

pub type RepoTagsModel = Map<Seq<char>, Seq<char>>;

pub type CountsModel = Map<Seq<char>, u64>;

// ── Reference counts ─────────────────────────────────────────────────────

/// How many references to a blob are counted.
pub open spec fn count_of(counts: CountsModel, digest: Seq<char>) -> u64 {
    if counts.dom().contains(digest) {
        counts[digest]
    } else {
        0
    }
}

/// Every count can still grow by one.
pub open spec fn has_room(counts: CountsModel) -> bool {
    forall|d: Seq<char>| #[trigger] counts.dom().contains(d) ==> counts[d] < u64::MAX
}

/// Whether a change adds references to blobs: only a push does.
pub open spec fn adds_references(req: Request) -> bool {
    req matches Request::Manifest(change) && change is PutManifest
}

/// The counts with one more reference to each of some blobs.
pub open spec fn incremented(counts: CountsModel, refs: Seq<Seq<char>>) -> CountsModel
    decreases refs.len(),
{
    if refs.len() == 0 {
        counts
    } else {
        let c = incremented(counts, refs.drop_last());
        c.insert(refs.last(), (count_of(c, refs.last()) + 1) as u64)
    }
}

/// The counts with one reference less to a blob; a count never goes below
/// zero, and is dropped at zero.
pub open spec fn one_less(counts: CountsModel, digest: Seq<char>) -> CountsModel {
    if count_of(counts, digest) <= 1 {
        counts.remove(digest)
    } else {
        counts.insert(digest, (counts[digest] - 1) as u64)
    }
}

/// The counts with one reference less to each of some blobs.
pub open spec fn decremented(counts: CountsModel, refs: Seq<Seq<char>>) -> CountsModel
    decreases refs.len(),
{
    if refs.len() == 0 {
        counts
    } else {
        one_less(decremented(counts, refs.drop_last()), refs.last())
    }
}

/// The counts without the references of some manifests.
pub open spec fn without_entries(
    counts: CountsModel,
    entries: Seq<ManifestEntryView>,
) -> CountsModel
    decreases entries.len(),
{
    if entries.len() == 0 {
        counts
    } else {
        decremented(
            without_entries(counts, entries.drop_last()),
            entries.last().referenced_blobs,
        )
    }
}

/// The blobs that the manifests of a repository refer to, manifest by
/// manifest.
pub open spec fn repository_refs(repo: RepoModel, keys: Seq<Seq<char>>) -> Seq<Seq<char>>
    decreases keys.len(),
{
    if keys.len() == 0 {
        Seq::empty()
    } else {
        repository_refs(repo, keys.drop_last()) + repo[keys.last()].referenced_blobs
    }
}

/// The blobs that the manifests of some repositories refer to.
pub open spec fn refs_under(manifests: ManifestsModel, names: Seq<Seq<char>>) -> Seq<Seq<char>>
    decreases names.len(),
{
    if names.len() == 0 {
        Seq::empty()
    } else {
        refs_under(manifests, names.drop_last()) + repository_refs(
            manifests[names.last()],
            sorted_keys(manifests[names.last()].dom()),
        )
    }
}

/// The blobs that all manifests refer to.
pub open spec fn all_refs(manifests: ManifestsModel) -> Seq<Seq<char>> {
    refs_under(manifests, sorted_keys(manifests.dom()))
}

// ── Namespaces ───────────────────────────────────────────────────────────

/// A write that creates content needs a live claim of the handle.
pub open spec fn live_namespace_outcome(s: StateView, repository: Seq<char>) -> Result<(), ErrorView> {
    match handle_of_outcome(repository) {
        Err(e) => Err(e),
        Ok(handle) => if s.namespaces.dom().contains(handle) {
            Ok(())
        } else {
            Err(
                ErrorView::Internal(
                    "namespace "@ + debug_quoted(handle) + " does not exist (referenced by "@
                        + debug_quoted(repository) + ")"@,
                ),
            )
        },
    }
}

// ── Manifests ────────────────────────────────────────────────────────────

/// The texts that are digests, in order.
pub open spec fn valid_digests(texts: Seq<Seq<char>>) -> Seq<Seq<char>>
    decreases texts.len(),
{
    if texts.len() == 0 {
        Seq::empty()
    } else if is_digest(texts.last()) {
        valid_digests(texts.drop_last()).push(texts.last())
    } else {
        valid_digests(texts.drop_last())
    }
}

/// The blobs that a pushed manifest refers to: those that the request names,
/// or else those that its body does.
pub open spec fn pushed_refs(body: Seq<u8>, given: Seq<Seq<char>>) -> Seq<Seq<char>> {
    if valid_digests(given).len() > 0 {
        valid_digests(given)
    } else {
        match json_document(body) {
            Some(doc) => referenced_digests(doc),
            None => Seq::empty(),
        }
    }
}

/// The texts without repetitions, in ascending order.
pub open spec fn sorted_unique(texts: Seq<Seq<char>>) -> Seq<Seq<char>> {
    sorted_keys(texts.to_set())
}

/// The digest that a pushed manifest is stored under: the one that is asked
/// for, or else that of its body.
pub open spec fn pushed_digest(body: Seq<u8>, digest: Seq<char>) -> Seq<char> {
    if is_digest(digest) {
        digest
    } else {
        sha256_name(body)
    }
}

/// A digest, where the text is one.
pub open spec fn checked_digest(text: Option<Seq<char>>) -> Option<Seq<char>> {
    match text {
        Some(t) => if is_digest(t) {
            Some(t)
        } else {
            None
        },
        None => None,
    }
}

/// The state with a manifest stored in a repository.
pub open spec fn with_entry(s: StateView, name: Seq<char>, e: ManifestEntryView) -> StateView {
    let repo = or_empty(s.manifests, name);
    let counts = if repo.dom().contains(e.digest) {
        decremented(s.blob_ref_counts, repo[e.digest].referenced_blobs)
    } else {
        s.blob_ref_counts
    };
    StateView {
        manifests: s.manifests.insert(name, repo.insert(e.digest, e)),
        blob_ref_counts: incremented(counts, e.referenced_blobs),
        ..s
    }
}

/// The state with a tag of a repository set to a digest; what was known of
/// the tag's upstream is forgotten.
pub open spec fn with_tag(
    s: StateView,
    name: Seq<char>,
    tag: Seq<char>,
    digest: Seq<char>,
) -> StateView {
    StateView {
        proxy_cache_tag_validations: without_tag(s.proxy_cache_tag_validations, name, tag),
        tags: s.tags.insert(name, or_empty(s.tags, name).insert(tag, digest)),
        ..s
    }
}

/// The state after a push: the manifest is stored, and where the reference is
/// a tag, the tag points to it.
pub open spec fn pushed(
    s: StateView,
    name: Seq<char>,
    reference: Seq<char>,
    e: ManifestEntryView,
) -> StateView {
    if reference.contains(':') {
        with_entry(s, name, e)
    } else {
        with_tag(with_entry(s, name, e), name, reference, e.digest)
    }
}

/// The tags of a repository that point to one of some digests.
pub open spec fn tags_of_digests(tags: RepoTagsModel, digests: Set<Seq<char>>) -> Set<Seq<char>> {
    tags.dom().filter(|t: Seq<char>| digests.contains(tags[t]))
}

/// The validations without those of some tags of a repository.
pub open spec fn without_tags(
    v: ValidationsModel,
    name: Seq<char>,
    tags: Seq<Seq<char>>,
) -> ValidationsModel
    decreases tags.len(),
{
    if tags.len() == 0 {
        v
    } else {
        without_tag(without_tags(v, name, tags.drop_last()), name, tags.last())
    }
}

/// The digests of a repository that are among some digests, in ascending
/// order.
pub open spec fn present_digests(repo: RepoModel, digests: Set<Seq<char>>) -> Seq<Seq<char>> {
    sorted_keys(repo.dom().intersect(digests))
}

/// The manifests under some digests.
pub open spec fn entries_at(repo: RepoModel, keys: Seq<Seq<char>>) -> Seq<ManifestEntryView> {
    keys.map_values(|k: Seq<char>| repo[k])
}

/// The state without the manifests of a repository under some digests, and
/// without the tags that point to them.
pub open spec fn without_manifests(
    s: StateView,
    name: Seq<char>,
    digests: Set<Seq<char>>,
) -> StateView {
    let repo = or_empty(s.manifests, name);
    let tags = or_empty(s.tags, name);
    let gone = tags_of_digests(tags, digests);
    StateView {
        manifests: if s.manifests.dom().contains(name) {
            s.manifests.insert(name, repo.remove_keys(digests))
        } else {
            s.manifests
        },
        blob_ref_counts: without_entries(
            s.blob_ref_counts,
            entries_at(repo, present_digests(repo, digests)),
        ),
        tags: if s.tags.dom().contains(name) {
            s.tags.insert(name, tags.remove_keys(gone))
        } else {
            s.tags
        },
        proxy_cache_tag_validations: without_tags(
            s.proxy_cache_tag_validations,
            name,
            sorted_keys(gone),
        ),
        ..s
    }
}

/// How many manifests and tags go with some digests of a repository.
pub open spec fn manifest_delete_counts(
    s: StateView,
    name: Seq<char>,
    digests: Set<Seq<char>>,
) -> DeleteCounts {
    DeleteCounts {
        deleted_manifests: present_digests(
            or_empty(s.manifests, name),
            digests,
        ).len() as usize,
        deleted_tags: sorted_keys(
            tags_of_digests(or_empty(s.tags, name), digests),
        ).len() as usize,
    }
}

/// Whether a tag of a repository points to a digest.
pub open spec fn tag_points_to(
    s: StateView,
    name: Seq<char>,
    tag: Seq<char>,
    digest: Seq<char>,
) -> bool {
    &&& s.tags.dom().contains(name)
    &&& s.tags[name].dom().contains(tag)
    &&& s.tags[name][tag] == digest
}

/// The state without a tag of a repository.
pub open spec fn without_repository_tag(s: StateView, name: Seq<char>, tag: Seq<char>) -> StateView {
    StateView {
        tags: s.tags.insert(name, s.tags[name].remove(tag)),
        proxy_cache_tag_validations: without_tag(s.proxy_cache_tag_validations, name, tag),
        ..s
    }
}

/// The state without a repository's manifests and tags.
pub open spec fn without_repository_content(s: StateView, name: Seq<char>) -> StateView {
    let repo = or_empty(s.manifests, name);
    StateView {
        manifests: s.manifests.remove(name),
        tags: s.tags.remove(name),
        blob_ref_counts: without_entries(
            s.blob_ref_counts,
            entries_at(repo, sorted_keys(repo.dom())),
        ),
        proxy_cache_tag_validations: without_repository(s.proxy_cache_tag_validations, name),
        ..s
    }
}

/// The manifest that a push stores.
pub open spec fn pushed_entry(req: ManifestRequest) -> ManifestEntryView
    recommends
        req is PutManifest,
{
    ManifestEntryView {
        digest: pushed_digest(req->body@, req->PutManifest_digest@),
        content_type: req->content_type@,
        body: req->body@,
        referenced_blobs: sorted_unique(
            pushed_refs(req->body@, req->referenced_blobs.deep_view()),
        ),
        subject: checked_digest(req->subject.deep_view()),
        artifact_type: req->artifact_type.deep_view(),
        annotations: req->annotations.deep_view(),
        stored_size_bytes: req->stored_size_bytes,
        manifest_size_bytes: req->manifest_size_bytes,
        created_at: req->created_at,
        last_modified: req->last_modified,
        config_summary: req->config_summary.deep_view(),
    }
}

/// What a change of manifests, tags or blobs does, and how it is answered.
pub open spec fn manifest_step(s: StateView, req: ManifestRequest) -> (
    StateView,
    Result<ManifestResponseView, ErrorView>,
) {
    match req {
        ManifestRequest::PutManifest { name, reference, .. } => match live_namespace_outcome(
            s,
            name@,
        ) {
            Err(e) => (s, Err(e)),
            Ok(_) => (
                pushed(s, name@, reference@, pushed_entry(req)),
                Ok(ManifestResponseView::Done),
            ),
        },
        ManifestRequest::DeleteManifest { name, digest } => (
            without_manifests(s, name@, set![digest@]),
            Ok(ManifestResponseView::Done),
        ),
        ManifestRequest::DeleteTag { name, digest, tag } => if tag_points_to(
            s,
            name@,
            tag@,
            digest@,
        ) {
            (without_repository_tag(s, name@, tag@), Ok(ManifestResponseView::Bool(true)))
        } else {
            (s, Ok(ManifestResponseView::Bool(false)))
        },
        ManifestRequest::DeleteRepository { name } => (
            without_repository_content(s, name@),
            Ok(
                ManifestResponseView::DeleteCounts(
                    DeleteCounts {
                        deleted_manifests: or_empty(s.manifests, name@).dom().len() as usize,
                        deleted_tags: or_empty(s.tags, name@).dom().len() as usize,
                    },
                ),
            ),
        ),
        ManifestRequest::DeleteManifests { name, digests } => (
            without_manifests(s, name@, digests.deep_view().to_set()),
            Ok(
                ManifestResponseView::DeleteCounts(
                    manifest_delete_counts(s, name@, digests.deep_view().to_set()),
                ),
            ),
        ),
        ManifestRequest::MountBlob { source_repo, dest_repo, digest } => match live_namespace_outcome(
            s,
            dest_repo@,
        ) {
            Err(e) => (s, Err(e)),
            Ok(_) => (s, Ok(ManifestResponseView::Done)),
        },
        ManifestRequest::RecordBlobDelete { digest, requested_at } => (
            StateView {
                blob_delete_requests: s.blob_delete_requests.insert(digest@, requested_at),
                ..s
            },
            Ok(
                ManifestResponseView::BlobDeleteStatus(
                    BlobDeleteStatusView {
                        digest: digest@,
                        referenced: count_of(s.blob_ref_counts, digest@) > 0,
                        ref_count: count_of(s.blob_ref_counts, digest@),
                    },
                ),
            ),
        ),
        ManifestRequest::ClearBlobDelete { digest } => (
            StateView { blob_delete_requests: s.blob_delete_requests.remove(digest@), ..s },
            Ok(ManifestResponseView::Done),
        ),
    }
}

} // verus!
