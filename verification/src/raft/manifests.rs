//! Changes of manifests, tags and blobs.
use crate::clones::clone_list;
use crate::error::{outcome, ErrorView, LayerhouseError};
use crate::oci::digest::Digest;
use crate::oci::json::Json;
use crate::oci::manifest::extract_referenced_digests;
use crate::raft::model::{
    count_of, decremented, entries_at, has_room, incremented, live_namespace_outcome,
    manifest_delete_counts, manifest_step, one_less, present_digests, pushed_entry, pushed_refs,
    sorted_unique, tag_points_to, tags_of_digests, valid_digests, with_entry, with_tag,
    without_entries, without_manifests, without_repository_content, without_repository_tag,
    without_tags,
};
use crate::raft::refcount::{fits, lemma_decremented_room, lemma_unique_fits};
use crate::raft::state::StateMachineData;
use crate::raft::{ManifestRequest, ManifestResponse, ManifestResponseView};
use crate::store::metadata::handle::handle_of;
use crate::store::metadata::types::{
    BlobDeleteStatus, BlobLifecycleStatus, BlobLifecycleStatusView, DeleteCounts, ManifestEntry,
    ManifestEntryView,
};
use crate::store::metadata::validations::{
    clear_proxy_cache_tag_validations_for_repository, clear_proxy_cache_tag_validations_for_tag,
    or_empty, ProxyCacheTagValidations,
};
use crate::string_map::{
    ascending, lemma_ascending_position, lemma_sorted_keys, lists_keys, sorted_keys, StringMap,
};
use crate::text::{concat5, contains_char, quoted, str_equal, text_lt};
use vstd::prelude::*;

verus! {

// ── Reference counts ─────────────────────────────────────────────────────

/// Counts one more reference to each of some blobs.
pub(crate) fn count_references(counts: &mut StringMap<u64>, refs: &Vec<Digest>)
    requires
        fits(old(counts)@, refs.deep_view()),
    ensures
        final(counts)@ == incremented(old(counts)@, refs.deep_view()),
{
    let ghost all = refs.deep_view();
    let ghost start = counts@;
    let mut i: usize = 0;
    while i < refs.len()
        invariant
            all == refs.deep_view(),
            i <= refs@.len(),
            fits(start, all),
            counts@ == incremented(start, all.take(i as int)),
        decreases refs@.len() - i,
    {
        let key = refs[i].to_string();
        assert(key@ == all[i as int]);
        let n: u64 = match counts.get(key.as_str()) {
            Some(n) => *n,
            None => 0,
        };
        assert(n == count_of(incremented(start, all.take(i as int)), all[i as int]));
        assert(all.take(i + 1).drop_last() =~= all.take(i as int));
        let _ = counts.insert(key, n + 1);
        i = i + 1;
    }
    assert(all.take(all.len() as int) =~= all);
}

/// Counts one reference less to each of some blobs.
pub(crate) fn drop_references(counts: &mut StringMap<u64>, refs: &Vec<Digest>)
    ensures
        final(counts)@ == decremented(old(counts)@, refs.deep_view()),
{
    let ghost all = refs.deep_view();
    let ghost start = counts@;
    let mut i: usize = 0;
    while i < refs.len()
        invariant
            all == refs.deep_view(),
            i <= refs@.len(),
            counts@ == decremented(start, all.take(i as int)),
        decreases refs@.len() - i,
    {
        let ghost before = counts@;
        let key = refs[i].to_string();
        assert(key@ == all[i as int]);
        assert(all.take(i + 1).drop_last() =~= all.take(i as int));
        let n: u64 = match counts.get(key.as_str()) {
            Some(n) => *n,
            None => 0,
        };
        if n <= 1 {
            let _ = counts.remove(key.as_str());
        } else {
            let _ = counts.insert(key, n - 1);
        }
        assert(counts@ == one_less(before, all[i as int]));
        i = i + 1;
    }
    assert(all.take(all.len() as int) =~= all);
}

/// The digests without repetitions, in ascending order.
pub(crate) fn sort_unique(refs: &Vec<Digest>) -> (r: Vec<Digest>)
    ensures
        r.deep_view() == sorted_unique(refs.deep_view()),
        r.deep_view().no_duplicates(),
{
    let ghost all = refs.deep_view();
    let mut seen: StringMap<Digest> = StringMap::new();
    let mut i: usize = 0;
    assert(seen@.dom() =~= all.take(0).to_set());
    while i < refs.len()
        invariant
            all == refs.deep_view(),
            i <= refs@.len(),
            seen@.dom() == all.take(i as int).to_set(),
            forall|k: Seq<char>| #[trigger] seen@.dom().contains(k) ==> seen@[k] == k,
        decreases refs@.len() - i,
    {
        let ghost front = all.take(i as int);
        let ghost next = all.take(i + 1);
        assert(next =~= front.push(all[i as int]));
        let _ = seen.insert(refs[i].to_string(), refs[i].clone());
        assert forall|k: Seq<char>| seen@.dom().contains(k) <==> next.to_set().contains(k) by {
            if front.contains(k) {
                let j = choose|j: int| 0 <= j < front.len() && front[j] == k;
                assert(next[j] == k);
            }
            assert(next[i as int] == all[i as int]);
            if next.contains(k) && k != all[i as int] {
                let j = choose|j: int| 0 <= j < next.len() && next[j] == k;
                assert(front[j] == k);
            }
        }
        assert(seen@.dom() =~= next.to_set());
        i = i + 1;
    }
    assert(all.take(all.len() as int) =~= all);
    let n = seen.len();
    let ghost ks = sorted_keys(seen@.dom());
    let mut r: Vec<Digest> = Vec::new();
    let mut j: usize = 0;
    while j < n
        invariant
            ks == sorted_keys(seen@.dom()),
            n == ks.len(),
            j <= n,
            forall|k: Seq<char>| #[trigger] seen@.dom().contains(k) ==> seen@[k] == k,
            r@.len() == j,
            forall|x: int| 0 <= x < j ==> (#[trigger] r@[x])@ == ks[x],
        decreases n - j,
    {
        r.push(seen.value_at(j).clone());
        j = j + 1;
    }
    assert(r.deep_view() =~= ks);
    proof {
        if ks.len() > 0 {
            lemma_ascending_position(ks, 0);
        }
    }
    r
}

impl StateMachineData {
    /// How many references to a blob are counted.
    pub fn blob_ref_count_str(&self, digest: &str) -> (r: u64)
        ensures
            r == count_of(self@.blob_ref_counts, digest@),
    {
        match self.blob_ref_counts.get(digest) {
            Some(n) => *n,
            None => 0,
        }
    }

    /// How a blob stands.
    pub fn blob_lifecycle_status(&self, digest: &Digest) -> (r: BlobLifecycleStatus)
        ensures
            r@ == (BlobLifecycleStatusView {
                digest: digest@,
                referenced: count_of(self@.blob_ref_counts, digest@) > 0,
                ref_count: count_of(self@.blob_ref_counts, digest@),
                delete_requested: self@.blob_delete_requests.dom().contains(digest@),
            }),
    {
        let digest = digest.to_string();
        let ref_count = self.blob_ref_count_str(digest.as_str());
        BlobLifecycleStatus {
            delete_requested: self.blob_delete_requests.contains_key(digest.as_str()),
            digest,
            referenced: ref_count > 0,
            ref_count,
        }
    }
}

// ── Namespaces ───────────────────────────────────────────────────────────

/// A write that creates content needs a live claim of the handle.
pub(crate) fn require_live_namespace(data: &StateMachineData, repository: &str) -> (r: Result<
    (),
    LayerhouseError,
>)
    ensures
        outcome(r) == live_namespace_outcome(data@, repository@),
{
    let handle = match handle_of(repository) {
        Ok(handle) => handle,
        Err(e) => return Err(e),
    };
    if !data.namespaces.contains_key(handle) {
        return Err(
            LayerhouseError::Internal(
                concat5(
                    "namespace ",
                    quoted(handle).as_str(),
                    " does not exist (referenced by ",
                    quoted(repository).as_str(),
                    ")",
                ),
            ),
        );
    }
    Ok(())
}

// ── Pushes ───────────────────────────────────────────────────────────────

/// The texts that are digests, in order.
fn keep_digests(texts: &Vec<String>) -> (r: Vec<Digest>)
    ensures
        r.deep_view() == valid_digests(texts.deep_view()),
{
    let ghost all = texts.deep_view();
    let mut r: Vec<Digest> = Vec::new();
    let mut i: usize = 0;
    assert(r.deep_view() =~= Seq::<Seq<char>>::empty());
    while i < texts.len()
        invariant
            all == texts.deep_view(),
            i <= texts@.len(),
            r.deep_view() == valid_digests(all.take(i as int)),
        decreases texts@.len() - i,
    {
        let ghost before = r.deep_view();
        assert(all.take(i + 1).drop_last() =~= all.take(i as int));
        assert(all.take(i + 1).last() == texts@[i as int]@);
        if let Some(digest) = Digest::from_str_checked(texts[i].as_str()) {
            r.push(digest);
            assert(r.deep_view() =~= before.push(digest@));
        }
        i = i + 1;
    }
    assert(all.take(all.len() as int) =~= all);
    r
}

/// The blobs that a pushed manifest refers to.
fn find_references(body: &Vec<u8>, given: &Vec<String>) -> (r: Vec<Digest>)
    ensures
        r.deep_view() == sorted_unique(pushed_refs(body@, given.deep_view())),
        r.deep_view().no_duplicates(),
{
    let mut refs = keep_digests(given);
    assert(refs.deep_view().len() == refs@.len());
    if refs.len() == 0 {
        if let Some(doc) = Json::from_slice(body.as_slice()) {
            refs = extract_referenced_digests(&doc);
        } else {
            assert(refs.deep_view() =~= Seq::<Seq<char>>::empty());
        }
    }
    sort_unique(&refs)
}

impl StateMachineData {
    /// Stores a manifest in a repository.
    fn store_entry(&mut self, name: &str, entry: ManifestEntry)
        requires
            has_room(old(self)@.blob_ref_counts),
            entry@.referenced_blobs.no_duplicates(),
        ensures
            final(self)@ == with_entry(old(self)@, name@, entry@),
    {
        let ghost before = self@;
        let ghost e = entry@;
        let key = entry.digest.to_string();
        let refs = clone_list(&entry.referenced_blobs);
        let mut repo = match self.manifests.remove(name) {
            Some(repo) => repo,
            None => StringMap::new(),
        };
        let previous = repo.insert(key, entry);
        let _ = self.manifests.insert(name.to_owned(), repo);
        if let Some(previous) = previous {
            drop_references(&mut self.blob_ref_counts, &previous.referenced_blobs);
            proof {
                lemma_decremented_room(before.blob_ref_counts, previous@.referenced_blobs);
            }
        }
        proof {
            lemma_unique_fits(self@.blob_ref_counts, refs.deep_view());
        }
        count_references(&mut self.blob_ref_counts, &refs);
        proof {
            let want = with_entry(before, name@, e);
            assert(self@.manifests =~= want.manifests);
            assert(self@ =~= want);
        }
    }

    /// Points a tag of a repository to a digest.
    fn set_tag(&mut self, name: &str, tag: String, digest: String)
        ensures
            final(self)@ == with_tag(old(self)@, name@, tag@, digest@),
    {
        let ghost before = self@;
        let ghost t = tag@;
        clear_proxy_cache_tag_validations_for_tag(
            &mut self.proxy_cache_tag_validations,
            name,
            tag.as_str(),
        );
        let mut tags = match self.tags.remove(name) {
            Some(tags) => tags,
            None => StringMap::new(),
        };
        let _ = tags.insert(tag, digest);
        let _ = self.tags.insert(name.to_owned(), tags);
        proof {
            let want = with_tag(before, name@, t, digest@);
            assert(self@.tags =~= want.tags);
            assert(self@ =~= want);
        }
    }
}

// ── Deletions ────────────────────────────────────────────────────────────

/// Counts the references of some manifests no more.
fn drop_entries(counts: &mut StringMap<u64>, entries: &Vec<ManifestEntry>)
    ensures
        final(counts)@ == without_entries(old(counts)@, entries.deep_view()),
{
    let ghost all = entries.deep_view();
    let ghost start = counts@;
    let mut i: usize = 0;
    while i < entries.len()
        invariant
            all == entries.deep_view(),
            i <= entries@.len(),
            counts@ == without_entries(start, all.take(i as int)),
        decreases entries@.len() - i,
    {
        assert(all.take(i + 1).drop_last() =~= all.take(i as int));
        assert(all.take(i + 1).last() == entries@[i as int]@);
        drop_references(counts, &entries[i].referenced_blobs);
        i = i + 1;
    }
    assert(all.take(all.len() as int) =~= all);
}

/// An ascending listing grows by a key beyond its last.
proof fn lemma_listing_push(keys: Seq<Seq<char>>, k: Seq<char>)
    requires
        ascending(keys),
        forall|i: int| 0 <= i < keys.len() ==> text_lt(#[trigger] keys[i], k),
    ensures
        ascending(keys.push(k)),
{
}

/// Takes the manifests under some digests out of a repository.
fn take_entries(repo: &mut StringMap<ManifestEntry>, digests: &StringMap<()>) -> (r: Vec<
    ManifestEntry,
>)
    ensures
        final(repo)@ == old(repo)@.remove_keys(digests@.dom()),
        r.deep_view() == entries_at(
            old(repo)@,
            present_digests(old(repo)@, digests@.dom()),
        ),
{
    let ghost repo0 = repo@;
    let keys = digests.keys();
    let ghost ks = keys.deep_view();
    let ghost mut present: Seq<Seq<char>> = Seq::empty();
    let mut r: Vec<ManifestEntry> = Vec::new();
    let mut i: usize = 0;
    assert(repo@ =~= repo0.remove_keys(ks.take(0).to_set()));
    assert(r.deep_view() =~= entries_at(repo0, present));
    while i < keys.len()
        invariant
            ks == keys.deep_view(),
            lists_keys(ks, digests@.dom()),
            i <= keys@.len(),
            ascending(present),
            forall|k: Seq<char>| #[trigger]
                present.contains(k) <==> ks.take(i as int).contains(k) && repo0.dom().contains(k),
            r.deep_view() == entries_at(repo0, present),
            repo@ == repo0.remove_keys(ks.take(i as int).to_set()),
        decreases keys@.len() - i,
    {
        let key = keys[i].as_str();
        let ghost k = ks[i as int];
        assert(key@ == k);
        let ghost front = ks.take(i as int);
        let ghost next = ks.take(i + 1);
        assert(next =~= front.push(k));
        let ghost before = repo@;
        let ghost list = r.deep_view();
        assert(!front.contains(k)) by {
            if front.contains(k) {
                let j = choose|j: int| 0 <= j < front.len() && front[j] == k;
                lemma_ascending_position(ks, j);
                lemma_ascending_position(ks, i as int);
            }
        }
        assert forall|x: Seq<char>| next.contains(x) <==> front.contains(x) || x == k by {
            if front.contains(x) {
                let j = choose|j: int| 0 <= j < front.len() && front[j] == x;
                assert(next[j] == x);
            }
            assert(next[i as int] == k);
            if next.contains(x) && x != k {
                let j = choose|j: int| 0 <= j < next.len() && next[j] == x;
                assert(front[j] == x);
            }
        }
        let removed = repo.remove(key);
        assert(repo@ =~= repo0.remove_keys(next.to_set()));
        if let Some(entry) = removed {
            r.push(entry);
            proof {
                assert forall|j: int| 0 <= j < present.len() implies text_lt(
                    #[trigger] present[j],
                    k,
                ) by {
                    assert(present.contains(present[j]));
                    let q = choose|q: int| 0 <= q < front.len() && front[q] == present[j];
                    assert(text_lt(ks[q], ks[i as int]));
                }
                lemma_listing_push(present, k);
                let grown = present.push(k);
                assert forall|x: Seq<char>| #[trigger] grown.contains(x) <==> next.contains(x)
                    && repo0.dom().contains(x) by {
                    if present.contains(x) {
                        let j = choose|j: int| 0 <= j < present.len() && present[j] == x;
                        assert(grown[j] == x);
                    }
                    assert(grown[present.len() as int] == k);
                    if grown.contains(x) && x != k {
                        let j = choose|j: int| 0 <= j < grown.len() && grown[j] == x;
                        assert(present[j] == x);
                    }
                }
                assert(r.deep_view() =~= list.push(entry@));
                assert(entries_at(repo0, grown) =~= list.push(repo0[k]));
                present = grown;
            }
        }
        i = i + 1;
    }
    proof {
        assert(ks.take(ks.len() as int) =~= ks);
        assert(ks.to_set() =~= digests@.dom());
        assert forall|k: Seq<char>| #[trigger] present.contains(k) <==> repo0.dom().intersect(
            digests@.dom(),
        ).contains(k) by {
            assert(ks.contains(k) <==> digests@.dom().contains(k));
        }
        lemma_sorted_keys(present, repo0.dom().intersect(digests@.dom()));
    }
    r
}

/// Takes the tags that point to some digests out of a repository.
fn take_tags(tags: &mut StringMap<String>, digests: &StringMap<()>) -> (r: Vec<String>)
    ensures
        final(tags)@ == old(tags)@.remove_keys(tags_of_digests(old(tags)@, digests@.dom())),
        r.deep_view() == sorted_keys(tags_of_digests(old(tags)@, digests@.dom())),
{
    let ghost tags0 = tags@;
    let ghost set = digests@.dom();
    let keys = tags.keys();
    let ghost ks = keys.deep_view();
    let ghost mut gone: Seq<Seq<char>> = Seq::empty();
    let mut r: Vec<String> = Vec::new();
    let mut i: usize = 0;
    assert(tags@ =~= tags0.remove_keys(gone.to_set()));
    assert(r.deep_view() =~= gone);
    while i < keys.len()
        invariant
            ks == keys.deep_view(),
            set == digests@.dom(),
            lists_keys(ks, tags0.dom()),
            i <= keys@.len(),
            ascending(gone),
            forall|k: Seq<char>| #[trigger]
                gone.contains(k) <==> ks.take(i as int).contains(k) && set.contains(tags0[k]),
            r.deep_view() == gone,
            tags@ == tags0.remove_keys(gone.to_set()),
        decreases keys@.len() - i,
    {
        let key = keys[i].as_str();
        let ghost k = ks[i as int];
        assert(key@ == k);
        assert(ks.contains(k));
        let ghost front = ks.take(i as int);
        let ghost next = ks.take(i + 1);
        assert(next =~= front.push(k));
        assert(!front.contains(k)) by {
            if front.contains(k) {
                let j = choose|j: int| 0 <= j < front.len() && front[j] == k;
                lemma_ascending_position(ks, j);
                lemma_ascending_position(ks, i as int);
            }
        }
        assert forall|x: Seq<char>| next.contains(x) <==> front.contains(x) || x == k by {
            if front.contains(x) {
                let j = choose|j: int| 0 <= j < front.len() && front[j] == x;
                assert(next[j] == x);
            }
            assert(next[i as int] == k);
            if next.contains(x) && x != k {
                let j = choose|j: int| 0 <= j < next.len() && next[j] == x;
                assert(front[j] == x);
            }
        }
        assert(tags@.dom().contains(k)) by {
            assert(!gone.contains(k));
        }
        let points = match tags.get(key) {
            Some(digest) => digests.contains_key(digest.as_str()),
            None => false,
        };
        assert(points == set.contains(tags0[k]));
        if points {
            let _ = tags.remove(key);
            r.push(key.to_owned());
            proof {
                assert forall|j: int| 0 <= j < gone.len() implies text_lt(
                    #[trigger] gone[j],
                    k,
                ) by {
                    assert(gone.contains(gone[j]));
                    let q = choose|q: int| 0 <= q < front.len() && front[q] == gone[j];
                    assert(text_lt(ks[q], ks[i as int]));
                }
                lemma_listing_push(gone, k);
                let grown = gone.push(k);
                assert forall|x: Seq<char>| #[trigger] grown.contains(x) <==> gone.contains(x) || x
                    == k by {
                    if gone.contains(x) {
                        let j = choose|j: int| 0 <= j < gone.len() && gone[j] == x;
                        assert(grown[j] == x);
                    }
                    assert(grown[gone.len() as int] == k);
                    if grown.contains(x) && x != k {
                        let j = choose|j: int| 0 <= j < grown.len() && grown[j] == x;
                        assert(gone[j] == x);
                    }
                }
                assert(r.deep_view() =~= grown);
                assert(tags@ =~= tags0.remove_keys(grown.to_set()));
                gone = grown;
            }
        }
        i = i + 1;
    }
    proof {
        assert(ks.take(ks.len() as int) =~= ks);
        let want = tags_of_digests(tags0, set);
        assert forall|k: Seq<char>| #[trigger] gone.contains(k) <==> want.contains(k) by {
            assert(ks.contains(k) <==> tags0.dom().contains(k));
        }
        lemma_sorted_keys(gone, want);
        assert(gone.to_set() =~= want);
    }
    r
}

/// Forgets what is known of the upstreams of some tags of a repository.
fn clear_tags(validations: &mut ProxyCacheTagValidations, name: &str, tags: &Vec<String>)
    ensures
        final(validations)@ == without_tags(old(validations)@, name@, tags.deep_view()),
{
    let ghost all = tags.deep_view();
    let ghost start = validations@;
    let mut i: usize = 0;
    while i < tags.len()
        invariant
            all == tags.deep_view(),
            i <= tags@.len(),
            validations@ == without_tags(start, name@, all.take(i as int)),
        decreases tags@.len() - i,
    {
        assert(all.take(i + 1).drop_last() =~= all.take(i as int));
        assert(all.take(i + 1).last() == tags@[i as int]@);
        clear_proxy_cache_tag_validations_for_tag(validations, name, tags[i].as_str());
        i = i + 1;
    }
    assert(all.take(all.len() as int) =~= all);
}

impl StateMachineData {
    /// Takes the manifests under some digests, and the tags that point to
    /// them, out of a repository.
    fn remove_manifests(&mut self, name: &str, digests: &StringMap<()>) -> (r: DeleteCounts)
        ensures
            final(self)@ == without_manifests(old(self)@, name@, digests@.dom()),
            r == manifest_delete_counts(old(self)@, name@, digests@.dom()),
    {
        let ghost before = self@;
        let ghost set = digests@.dom();
        let mut removed: Vec<ManifestEntry> = Vec::new();
        if let Some(repo) = self.manifests.get_mut(name) {
            removed = take_entries(repo, digests);
        } else {
            proof {
                let none = Map::<Seq<char>, ManifestEntryView>::empty();
                assert(none.dom().intersect(set) =~= Set::empty());
                lemma_sorted_keys(Seq::empty(), none.dom().intersect(set));
                assert(removed.deep_view() =~= entries_at(none, Seq::empty()));
            }
        }
        drop_entries(&mut self.blob_ref_counts, &removed);
        let mut gone: Vec<String> = Vec::new();
        if let Some(tags) = self.tags.get_mut(name) {
            gone = take_tags(tags, digests);
        } else {
            proof {
                let none = Map::<Seq<char>, Seq<char>>::empty();
                assert(tags_of_digests(none, set) =~= Set::empty());
                lemma_sorted_keys(Seq::empty(), tags_of_digests(none, set));
                assert(gone.deep_view() =~= Seq::<Seq<char>>::empty());
            }
        }
        clear_tags(&mut self.proxy_cache_tag_validations, name, &gone);
        proof {
            let want = without_manifests(before, name@, set);
            assert(self@.manifests =~= want.manifests);
            assert(self@.tags =~= want.tags);
            assert(self@ =~= want);
            assert(removed.deep_view().len() == removed@.len());
            assert(gone.deep_view().len() == gone@.len());
        }
        DeleteCounts { deleted_manifests: removed.len(), deleted_tags: gone.len() }
    }
}

/// The values of a repository in ascending order of their digests.
fn list_entries(repo: &StringMap<ManifestEntry>) -> (r: Vec<&ManifestEntry>)
    ensures
        r.deep_view() == entries_at(repo@, sorted_keys(repo@.dom())),
{
    let n = repo.len();
    let ghost ks = sorted_keys(repo@.dom());
    let mut r: Vec<&ManifestEntry> = Vec::new();
    let mut i: usize = 0;
    while i < n
        invariant
            ks == sorted_keys(repo@.dom()),
            n == ks.len(),
            i <= n,
            r@.len() == i,
            forall|j: int| 0 <= j < i ==> (#[trigger] r@[j])@ == repo@[ks[j]],
        decreases n - i,
    {
        r.push(repo.value_at(i));
        i = i + 1;
    }
    assert(r.deep_view() =~= entries_at(repo@, ks));
    r
}

/// Counts the references of the manifests of a repository no more.
fn drop_repository(counts: &mut StringMap<u64>, repo: &StringMap<ManifestEntry>)
    ensures
        final(counts)@ == without_entries(
            old(counts)@,
            entries_at(repo@, sorted_keys(repo@.dom())),
        ),
{
    let entries = list_entries(repo);
    let ghost all = entries.deep_view();
    let ghost start = counts@;
    let mut i: usize = 0;
    while i < entries.len()
        invariant
            all == entries.deep_view(),
            i <= entries@.len(),
            counts@ == without_entries(start, all.take(i as int)),
        decreases entries@.len() - i,
    {
        assert(all.take(i + 1).drop_last() =~= all.take(i as int));
        assert(all.take(i + 1).last() == entries@[i as int]@);
        drop_references(counts, &entries[i].referenced_blobs);
        i = i + 1;
    }
    assert(all.take(all.len() as int) =~= all);
}

impl StateMachineData {
    /// Takes a repository's manifests and tags out.
    fn remove_repository(&mut self, name: &str) -> (r: DeleteCounts)
        ensures
            final(self)@ == without_repository_content(old(self)@, name@),
            r == (DeleteCounts {
                deleted_manifests: or_empty(old(self)@.manifests, name@).dom().len() as usize,
                deleted_tags: or_empty(old(self)@.tags, name@).dom().len() as usize,
            }),
    {
        let ghost before = self@;
        let mut deleted_manifests: usize = 0;
        match self.manifests.remove(name) {
            Some(repo) => {
                drop_repository(&mut self.blob_ref_counts, &repo);
                deleted_manifests = repo.len();
            },
            None => {
                proof {
                    let none = Map::<Seq<char>, ManifestEntryView>::empty();
                    lemma_sorted_keys(Seq::empty(), none.dom());
                    assert(entries_at(none, Seq::empty()) =~= Seq::<ManifestEntryView>::empty());
                }
            },
        }
        let mut deleted_tags: usize = 0;
        if let Some(tags) = self.tags.remove(name) {
            deleted_tags = tags.len();
        }
        clear_proxy_cache_tag_validations_for_repository(
            &mut self.proxy_cache_tag_validations,
            name,
        );
        proof {
            assert(self@ =~= without_repository_content(before, name@));
        }
        DeleteCounts { deleted_manifests, deleted_tags }
    }

    /// Takes a tag of a repository out, where it points to a digest.
    fn remove_tag(&mut self, name: &str, digest: &str, tag: &str) -> (r: bool)
        ensures
            r == tag_points_to(old(self)@, name@, tag@, digest@),
            final(self)@ == if r {
                without_repository_tag(old(self)@, name@, tag@)
            } else {
                old(self)@
            },
    {
        let ghost before = self@;
        let mut removed = false;
        if let Some(tags) = self.tags.get_mut(name) {
            let points = match tags.get(tag) {
                Some(d) => str_equal(d.as_str(), digest),
                None => false,
            };
            if points {
                let _ = tags.remove(tag);
                removed = true;
            }
        }
        if removed {
            clear_proxy_cache_tag_validations_for_tag(
                &mut self.proxy_cache_tag_validations,
                name,
                tag,
            );
            assert(self@ =~= without_repository_tag(before, name@, tag@));
        } else {
            assert(self@.tags =~= before.tags);
            assert(self@ =~= before);
        }
        removed
    }
}

/// The texts as a set.
fn text_set(texts: &Vec<String>) -> (r: StringMap<()>)
    ensures
        r@.dom() == texts.deep_view().to_set(),
{
    let ghost all = texts.deep_view();
    let mut r: StringMap<()> = StringMap::new();
    let mut i: usize = 0;
    assert(r@.dom() =~= all.take(0).to_set());
    while i < texts.len()
        invariant
            all == texts.deep_view(),
            i <= texts@.len(),
            r@.dom() == all.take(i as int).to_set(),
        decreases texts@.len() - i,
    {
        let ghost front = all.take(i as int);
        let ghost next = all.take(i + 1);
        assert(next =~= front.push(all[i as int]));
        let _ = r.insert(texts[i].clone(), ());
        assert forall|k: Seq<char>| r@.dom().contains(k) <==> next.to_set().contains(k) by {
            if front.contains(k) {
                let j = choose|j: int| 0 <= j < front.len() && front[j] == k;
                assert(next[j] == k);
            }
            assert(next[i as int] == all[i as int]);
            if next.contains(k) && k != all[i as int] {
                let j = choose|j: int| 0 <= j < next.len() && next[j] == k;
                assert(front[j] == k);
            }
        }
        assert(r@.dom() =~= next.to_set());
        i = i + 1;
    }
    assert(all.take(all.len() as int) =~= all);
    r
}

/// What applying a change of manifests came to.
pub open spec fn manifest_outcome(r: Result<ManifestResponse, LayerhouseError>) -> Result<
    ManifestResponseView,
    ErrorView,
> {
    match r {
        Ok(v) => Ok(v@),
        Err(e) => Err(e@),
    }
}

/// Applies a change of manifests, tags or blobs.
pub fn apply_manifest(data: &mut StateMachineData, req: ManifestRequest) -> (r: Result<
    ManifestResponse,
    LayerhouseError,
>)
    requires
        req is PutManifest ==> has_room(old(data)@.blob_ref_counts),
    ensures
        (final(data)@, manifest_outcome(r)) == manifest_step(old(data)@, req),
{
    match req {
        ManifestRequest::PutManifest {
            name,
            reference,
            digest,
            content_type,
            body,
            subject,
            artifact_type,
            annotations,
            stored_size_bytes,
            manifest_size_bytes,
            created_at,
            last_modified,
            config_summary,
            referenced_blobs,
        } => {
            if let Err(e) = require_live_namespace(data, name.as_str()) {
                return Err(e);
            }
            let checked = match Digest::from_str_checked(digest.as_str()) {
                Some(digest) => digest,
                None => Digest::sha256(body.as_slice()),
            };
            let subject = match subject {
                Some(subject) => Digest::from_str_checked(subject.as_str()),
                None => None,
            };
            let refs = find_references(&body, &referenced_blobs);
            let entry = ManifestEntry {
                digest: checked,
                content_type,
                body,
                referenced_blobs: refs,
                subject,
                artifact_type,
                annotations,
                stored_size_bytes,
                manifest_size_bytes,
                created_at,
                last_modified,
                config_summary,
            };
            assert(entry.body.deep_view() =~= entry.body@);
            assert(entry@ =~= pushed_entry(req));
            let key = entry.digest.to_string();
            data.store_entry(name.as_str(), entry);
            if !contains_char(reference.as_str(), ':') {
                data.set_tag(name.as_str(), reference, key);
            }
            Ok(ManifestResponse::Done)
        },
        ManifestRequest::DeleteManifest { name, digest } => {
            let mut digests: StringMap<()> = StringMap::new();
            let _ = digests.insert(digest, ());
            let _ = data.remove_manifests(name.as_str(), &digests);
            assert(digests@.dom() =~= set![digest@]);
            Ok(ManifestResponse::Done)
        },
        ManifestRequest::DeleteTag { name, digest, tag } => {
            let removed = data.remove_tag(name.as_str(), digest.as_str(), tag.as_str());
            Ok(ManifestResponse::Bool(removed))
        },
        ManifestRequest::DeleteRepository { name } => {
            Ok(ManifestResponse::DeleteCounts(data.remove_repository(name.as_str())))
        },
        ManifestRequest::DeleteManifests { name, digests } => {
            let digests = text_set(&digests);
            Ok(ManifestResponse::DeleteCounts(data.remove_manifests(name.as_str(), &digests)))
        },
        ManifestRequest::MountBlob { source_repo: _, dest_repo, digest: _ } => {
            match require_live_namespace(data, dest_repo.as_str()) {
                Ok(_) => Ok(ManifestResponse::Done),
                Err(e) => Err(e),
            }
        },
        ManifestRequest::RecordBlobDelete { digest, requested_at } => {
            let ref_count = data.blob_ref_count_str(digest.as_str());
            let _ = data.blob_delete_requests.insert(digest.clone(), requested_at);
            Ok(
                ManifestResponse::BlobDeleteStatus(
                    BlobDeleteStatus { digest, referenced: ref_count > 0, ref_count },
                ),
            )
        },
        ManifestRequest::ClearBlobDelete { digest } => {
            let _ = data.blob_delete_requests.remove(digest.as_str());
            Ok(ManifestResponse::Done)
        },
    }
}

} // verus!
