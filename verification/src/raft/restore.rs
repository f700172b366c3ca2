//! What is made good when the state is restored from a snapshot, whose
//! metadata an older version may have written.
use crate::clock::now_epoch;
use crate::oci::json::{json_document, Json};
use crate::oci::manifest::{
    descriptors, extract_referenced_digests, referenced_digests, saturated, stored_size_bytes,
    stored_sum,
};
use crate::raft::manifests::{count_references, sort_unique};
use crate::raft::model::{
    all_refs, incremented, refs_under, repository_refs, sorted_unique, CountsModel, ManifestsModel,
    RepoModel,
};
use crate::raft::refcount::{
    fits, lemma_few_fit, lemma_fits_stretch, lemma_incremented_concat,
};
use crate::raft::state::{StateMachineData, StateView};
use crate::store::metadata::types::{ManifestEntry, ManifestEntryView};
use crate::string_map::{
    lemma_map_done, lemma_map_step, lists_keys, partly_mapped, sorted_keys, StringMap,
};
use vstd::prelude::*;

verus! {

// ── What is made good ────────────────────────────────────────────────────

/// The references of a restored manifest: those on record, or else those that
/// its body names.
pub open spec fn restored_refs(e: ManifestEntryView) -> Seq<Seq<char>> {
    if e.referenced_blobs.len() > 0 {
        e.referenced_blobs
    } else {
        match json_document(e.body) {
            Some(doc) => referenced_digests(doc),
            None => Seq::empty(),
        }
    }
}

/// A restored manifest, with what is missing filled in.
pub open spec fn normalized_entry(e: ManifestEntryView, now: u64) -> ManifestEntryView {
    let created_at = if e.created_at == 0 {
        now
    } else {
        e.created_at
    };
    ManifestEntryView {
        referenced_blobs: sorted_unique(restored_refs(e)),
        manifest_size_bytes: if e.manifest_size_bytes == 0 {
            e.body.len() as u64
        } else {
            e.manifest_size_bytes
        },
        stored_size_bytes: if e.stored_size_bytes == 0 {
            match json_document(e.body) {
                Some(doc) => saturated(stored_sum(descriptors(doc))),
                None => 0,
            }
        } else {
            e.stored_size_bytes
        },
        created_at,
        last_modified: if e.last_modified == 0 {
            created_at
        } else {
            e.last_modified
        },
        ..e
    }
}

/// A restored repository.
pub open spec fn normalized_repo(repo: RepoModel, now: u64) -> RepoModel {
    repo.map_values(|e: ManifestEntryView| normalized_entry(e, now))
}

/// All restored manifests.
pub open spec fn normalized_manifests(manifests: ManifestsModel, now: u64) -> ManifestsModel {
    manifests.map_values(|repo: RepoModel| normalized_repo(repo, now))
}

/// The reference counts that the manifests call for.
pub open spec fn rebuilt_counts(manifests: ManifestsModel) -> CountsModel {
    incremented(Map::empty(), all_refs(manifests))
}

/// The references are few enough to be counted.
pub open spec fn countable(manifests: ManifestsModel) -> bool {
    all_refs(manifests).len() <= u64::MAX
}

/// Fills in what is missing in a restored manifest.
fn normalize_entry(entry: &mut ManifestEntry, now: u64)
    ensures
        final(entry)@ == normalized_entry(old(entry)@, now),
{
    let ghost before = entry@;
    assert(entry.body.deep_view() =~= entry.body@);
    assert(entry.referenced_blobs.deep_view().len() == entry.referenced_blobs@.len());
    let doc = Json::from_slice(entry.body.as_slice());
    if entry.referenced_blobs.len() == 0 {
        if let Some(doc) = &doc {
            entry.referenced_blobs = extract_referenced_digests(doc);
        }
    }
    assert(entry.referenced_blobs.deep_view() =~= restored_refs(before));
    let refs = sort_unique(&entry.referenced_blobs);
    entry.referenced_blobs = refs;
    if entry.manifest_size_bytes == 0 {
        entry.manifest_size_bytes = entry.body.len() as u64;
    }
    if entry.stored_size_bytes == 0 {
        if let Some(doc) = &doc {
            entry.stored_size_bytes = stored_size_bytes(doc);
        }
    }
    if entry.created_at == 0 {
        entry.created_at = now;
    }
    if entry.last_modified == 0 {
        entry.last_modified = entry.created_at;
    }
    assert(entry@ =~= normalized_entry(before, now));
}

/// Fills in what is missing in the manifests of a repository.
fn normalize_repo(repo: &mut StringMap<ManifestEntry>, now: u64)
    ensures
        final(repo)@ == normalized_repo(old(repo)@, now),
{
    let ghost before = repo@;
    let ghost f = |e: ManifestEntryView| normalized_entry(e, now);
    let keys = repo.keys();
    let ghost ks = keys.deep_view();
    let mut i: usize = 0;
    while i < keys.len()
        invariant
            ks == keys.deep_view(),
            lists_keys(ks, before.dom()),
            i <= keys@.len(),
            f == (|e: ManifestEntryView| normalized_entry(e, now)),
            partly_mapped(before, f, ks, i as int, repo@),
        decreases keys@.len() - i,
    {
        let ghost start = repo@;
        let key = keys[i].as_str();
        assert(key@ == ks[i as int]);
        assert(ks.contains(key@));
        if let Some(entry) = repo.get_mut(key) {
            normalize_entry(entry, now);
        }
        assert(repo@ == start.insert(ks[i as int], f(before[ks[i as int]])));
        proof {
            lemma_map_step(before, f, ks, i as int, start, repo@);
        }
        i = i + 1;
    }
    proof {
        lemma_map_done(before, f, ks, repo@);
    }
}

impl StateMachineData {
    /// Fills in what is missing in all manifests.
    fn normalize_manifests(&mut self, now: u64)
        ensures
            final(self)@ == (StateView {
                manifests: normalized_manifests(old(self)@.manifests, now),
                ..old(self)@
            }),
    {
        let ghost s0 = self@;
        let ghost before = self@.manifests;
        let ghost f = |repo: RepoModel| normalized_repo(repo, now);
        let keys = self.manifests.keys();
        let ghost ks = keys.deep_view();
        let mut i: usize = 0;
        while i < keys.len()
            invariant
                ks == keys.deep_view(),
                lists_keys(ks, before.dom()),
                i <= keys@.len(),
                f == (|repo: RepoModel| normalized_repo(repo, now)),
                partly_mapped(before, f, ks, i as int, self@.manifests),
                self@ == (StateView { manifests: self@.manifests, ..s0 }),
            decreases keys@.len() - i,
        {
            let ghost start = self@.manifests;
            let key = keys[i].as_str();
            assert(key@ == ks[i as int]);
            assert(ks.contains(key@));
            if let Some(repo) = self.manifests.get_mut(key) {
                normalize_repo(repo, now);
            }
            assert(self@.manifests == start.insert(ks[i as int], f(before[ks[i as int]])));
            proof {
                lemma_map_step(before, f, ks, i as int, start, self@.manifests);
            }
            i = i + 1;
        }
        proof {
            lemma_map_done(before, f, ks, self@.manifests);
        }
    }

    /// Counts the references of all manifests anew.
    pub fn rebuild_blob_ref_counts(&mut self)
        requires
            countable(old(self)@.manifests),
        ensures
            final(self)@ == (StateView {
                blob_ref_counts: rebuilt_counts(old(self)@.manifests),
                ..old(self)@
            }),
    {
        let ghost s0 = self@;
        let ghost all = all_refs(self@.manifests);
        let ghost none = Map::<Seq<char>, u64>::empty();
        proof {
            lemma_few_fit(all);
        }
        let mut counts: StringMap<u64> = StringMap::new();
        let n = self.manifests.len();
        let ghost names = sorted_keys(s0.manifests.dom());
        let mut i: usize = 0;
        while i < n
            invariant
                self@ == s0,
                names == sorted_keys(s0.manifests.dom()),
                n == names.len(),
                i <= n,
                all == refs_under(s0.manifests, names),
                fits(none, all),
                none == Map::<Seq<char>, u64>::empty(),
                counts@ == incremented(none, refs_under(s0.manifests, names.take(i as int))),
            decreases n - i,
        {
            let ghost front = refs_under(s0.manifests, names.take(i as int));
            let ghost next = refs_under(s0.manifests, names.take(i + 1));
            assert(names.take(i + 1).drop_last() =~= names.take(i as int));
            let repo = self.manifests.value_at(i);
            let ghost own = repository_refs(repo@, sorted_keys(repo@.dom()));
            assert(next == front + own);
            proof {
                lemma_refs_under_prefix(s0.manifests, names, i + 1);
                lemma_fits_stretch(none, all, front, own);
                lemma_incremented_concat(none, front, own);
            }
            count_repository(&mut counts, repo);
            i = i + 1;
        }
        assert(names.take(names.len() as int) =~= names);
        self.blob_ref_counts = counts;
    }

    /// Makes restored metadata good at a time: fills in what is missing and
    /// counts the references anew.
    pub fn normalize_restored_metadata_at(&mut self, now: u64)
        requires
            countable(normalized_manifests(old(self)@.manifests, now)),
        ensures
            final(self)@ == normalized_state(old(self)@, now),
    {
        self.normalize_manifests(now);
        self.rebuild_blob_ref_counts();
    }

    /// Makes restored metadata good now.
    pub fn normalize_restored_metadata(&mut self)
        requires
            forall|now: u64|
                countable(#[trigger] normalized_manifests(old(self)@.manifests, now)),
        ensures
            exists|now: u64| final(self)@ == #[trigger] normalized_state(old(self)@, now),
    {
        let now = now_epoch();
        self.normalize_restored_metadata_at(now);
    }
}

/// A restored state.
pub open spec fn normalized_state(s: StateView, now: u64) -> StateView {
    StateView {
        manifests: normalized_manifests(s.manifests, now),
        blob_ref_counts: rebuilt_counts(normalized_manifests(s.manifests, now)),
        ..s
    }
}

/// The references of the first repositories come first.
proof fn lemma_refs_under_prefix(manifests: ManifestsModel, names: Seq<Seq<char>>, n: int)
    requires
        0 <= n <= names.len(),
    ensures
        refs_under(manifests, names.take(n)).is_prefix_of(refs_under(manifests, names)),
    decreases names.len() - n,
{
    if n < names.len() {
        lemma_refs_under_prefix(manifests, names, n + 1);
        assert(names.take(n + 1).drop_last() =~= names.take(n));
        let a = refs_under(manifests, names.take(n));
        let b = refs_under(manifests, names.take(n + 1));
        let c = refs_under(manifests, names);
        assert(a =~= b.subrange(0, a.len() as int));
        assert(a =~= c.subrange(0, a.len() as int));
    } else {
        assert(names.take(n) =~= names);
    }
}

/// The references of the first manifests come first.
proof fn lemma_repository_refs_prefix(repo: RepoModel, keys: Seq<Seq<char>>, n: int)
    requires
        0 <= n <= keys.len(),
    ensures
        repository_refs(repo, keys.take(n)).is_prefix_of(repository_refs(repo, keys)),
    decreases keys.len() - n,
{
    if n < keys.len() {
        lemma_repository_refs_prefix(repo, keys, n + 1);
        assert(keys.take(n + 1).drop_last() =~= keys.take(n));
        let a = repository_refs(repo, keys.take(n));
        let b = repository_refs(repo, keys.take(n + 1));
        let c = repository_refs(repo, keys);
        assert(a =~= b.subrange(0, a.len() as int));
        assert(a =~= c.subrange(0, a.len() as int));
    } else {
        assert(keys.take(n) =~= keys);
    }
}

/// Counts the references of the manifests of a repository.
fn count_repository(counts: &mut StringMap<u64>, repo: &StringMap<ManifestEntry>)
    requires
        fits(old(counts)@, repository_refs(repo@, sorted_keys(repo@.dom()))),
    ensures
        final(counts)@ == incremented(
            old(counts)@,
            repository_refs(repo@, sorted_keys(repo@.dom())),
        ),
{
    let ghost start = counts@;
    let n = repo.len();
    let ghost ks = sorted_keys(repo@.dom());
    let ghost all = repository_refs(repo@, ks);
    let mut i: usize = 0;
    while i < n
        invariant
            ks == sorted_keys(repo@.dom()),
            n == ks.len(),
            i <= n,
            all == repository_refs(repo@, ks),
            fits(start, all),
            counts@ == incremented(start, repository_refs(repo@, ks.take(i as int))),
        decreases n - i,
    {
        let ghost front = repository_refs(repo@, ks.take(i as int));
        let ghost next = repository_refs(repo@, ks.take(i + 1));
        assert(ks.take(i + 1).drop_last() =~= ks.take(i as int));
        let entry = repo.value_at(i);
        let ghost own = entry@.referenced_blobs;
        assert(next == front + own);
        proof {
            lemma_repository_refs_prefix(repo@, ks, i + 1);
            lemma_fits_stretch(start, all, front, own);
            lemma_incremented_concat(start, front, own);
        }
        count_references(counts, &entry.referenced_blobs);
        i = i + 1;
    }
    assert(ks.take(ks.len() as int) =~= ks);
}

} // verus!
