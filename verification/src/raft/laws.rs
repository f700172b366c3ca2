//! What holds of the replicated state as a whole.
use crate::raft::model::{
    adds_references, all_refs, count_of, decremented, entries_at, has_room, incremented, present_digests,
    pushed_entry, pushed_refs, refs_under, repository_refs, sorted_unique, with_entry,
    without_entries, without_manifests, without_repository_content, CountsModel, ManifestsModel,
    RepoModel,
};
use crate::raft::refcount::{
    lemma_decremented, lemma_decremented_room, lemma_few_fit, lemma_incremented, lemma_occurrences,
    lemma_occurrences_concat, lemma_unique_fits, occurrences,
};
use crate::raft::restore::{
    countable, normalized_manifests, normalized_state, rebuilt_counts, restored_refs,
};
use crate::raft::state::{empty_state, StateView};
use crate::raft::state_machine::request_step;
use crate::raft::{ManifestRequest, Request};
use crate::store::metadata::types::ManifestEntryView;
use crate::store::metadata::validations::or_empty;
use crate::string_map::{lemma_ascending_position, lemma_finite_listing, sorted_keys};
use vstd::prelude::*;

verus! {

// ── Reference counts ─────────────────────────────────────────────────────

/// A repository and a digest under which it holds a manifest.
pub type Place = (Seq<char>, Seq<char>);

/// The places where manifests are.
pub open spec fn places(m: ManifestsModel) -> Set<Place> {
    Set::new(|p: Place| m.dom().contains(p.0) && m[p.0].dom().contains(p.1))
}

/// The places of the manifests that refer to a blob.
pub open spec fn holders(m: ManifestsModel, digest: Seq<char>) -> Set<Place> {
    Set::new(
        |p: Place|
            places(m).contains(p) && m[p.0][p.1].referenced_blobs.contains(digest),
    )
}

/// No manifest refers to a blob twice.
pub open spec fn unique_refs(m: ManifestsModel) -> bool {
    forall|p: Place| #[trigger]
        places(m).contains(p) ==> m[p.0][p.1].referenced_blobs.no_duplicates()
}

/// The counts are exact: each blob is counted once for every manifest that
/// refers to it, and a blob that none refers to is not counted.
pub open spec fn exact_counts(m: ManifestsModel, counts: CountsModel) -> bool {
    forall|d: Seq<char>|
        {
            &&& #[trigger] count_of(counts, d) == holders(m, d).len()
            &&& counts.dom().contains(d) <==> holders(m, d).len() > 0
        }
}

/// The manifests and the reference counts fit together.
pub open spec fn consistent(m: ManifestsModel, counts: CountsModel) -> bool {
    &&& places(m).finite()
    &&& unique_refs(m)
    &&& exact_counts(m, counts)
}

proof fn lemma_holders_finite(m: ManifestsModel, digest: Seq<char>)
    requires
        places(m).finite(),
    ensures
        holders(m, digest).finite(),
{
    vstd::set_lib::lemma_len_subset(holders(m, digest), places(m));
}

/// The manifests without the one at a place.
pub open spec fn without_place(m: ManifestsModel, p: Place) -> ManifestsModel {
    m.insert(p.0, m[p.0].remove(p.1))
}

/// Taking a manifest out and dropping its references keeps the counts exact.
proof fn lemma_take_out(m: ManifestsModel, counts: CountsModel, p: Place)
    requires
        consistent(m, counts),
        places(m).contains(p),
    ensures
        consistent(
            without_place(m, p),
            decremented(counts, m[p.0][p.1].referenced_blobs),
        ),
{
    let n = without_place(m, p);
    let refs = m[p.0][p.1].referenced_blobs;
    let after = decremented(counts, refs);
    assert(places(n) =~= places(m).remove(p));
    assert forall|q: Place| #[trigger] places(n).contains(q) implies n[q.0][q.1]
        .referenced_blobs.no_duplicates() by {
        assert(places(m).contains(q));
    }
    assert forall|d: Seq<char>|
        {
            &&& #[trigger] count_of(after, d) == holders(n, d).len()
            &&& after.dom().contains(d) <==> holders(n, d).len() > 0
        } by {
        lemma_decremented(counts, refs, d);
        lemma_occurrences(refs, d);
        lemma_holders_finite(m, d);
        assert(holders(n, d) =~= holders(m, d).remove(p));
        assert(count_of(counts, d) == holders(m, d).len());
        if refs.contains(d) {
            assert(holders(m, d).contains(p));
        }
    }
}

/// Putting a manifest in a free place and counting its references keeps the
/// counts exact.
proof fn lemma_put_in(
    m: ManifestsModel,
    counts: CountsModel,
    name: Seq<char>,
    e: ManifestEntryView,
)
    requires
        consistent(m, counts),
        has_room(counts),
        !or_empty(m, name).dom().contains(e.digest),
        e.referenced_blobs.no_duplicates(),
    ensures
        consistent(
            m.insert(name, or_empty(m, name).insert(e.digest, e)),
            incremented(counts, e.referenced_blobs),
        ),
{
    let n = m.insert(name, or_empty(m, name).insert(e.digest, e));
    let p = (name, e.digest);
    let refs = e.referenced_blobs;
    let after = incremented(counts, refs);
    lemma_unique_fits(counts, refs);
    assert(places(n) =~= places(m).insert(p));
    assert(!places(m).contains(p));
    assert forall|q: Place| #[trigger] places(n).contains(q) implies n[q.0][q.1]
        .referenced_blobs.no_duplicates() by {
        if q != p {
            assert(places(m).contains(q));
        }
    }
    assert forall|d: Seq<char>|
        {
            &&& #[trigger] count_of(after, d) == holders(n, d).len()
            &&& after.dom().contains(d) <==> holders(n, d).len() > 0
        } by {
        lemma_incremented(counts, refs, d);
        lemma_occurrences(refs, d);
        lemma_holders_finite(m, d);
        assert(count_of(counts, d) == holders(m, d).len());
        if refs.contains(d) {
            assert(holders(n, d) =~= holders(m, d).insert(p));
        } else {
            assert(holders(n, d) =~= holders(m, d));
        }
    }
}

/// Storing a manifest keeps the counts exact, whether or not it replaces
/// another.
pub proof fn lemma_store_keeps_counts_exact(s: StateView, name: Seq<char>, e: ManifestEntryView)
    requires
        consistent(s.manifests, s.blob_ref_counts),
        has_room(s.blob_ref_counts),
        e.referenced_blobs.no_duplicates(),
    ensures
        consistent(with_entry(s, name, e).manifests, with_entry(s, name, e).blob_ref_counts),
{
    let m = s.manifests;
    let repo = or_empty(m, name);
    if repo.dom().contains(e.digest) {
        let p = (name, e.digest);
        assert(places(m).contains(p));
        lemma_take_out(m, s.blob_ref_counts, p);
        lemma_decremented_room(s.blob_ref_counts, repo[e.digest].referenced_blobs);
        let mid = without_place(m, p);
        lemma_put_in(
            mid,
            decremented(s.blob_ref_counts, repo[e.digest].referenced_blobs),
            name,
            e,
        );
        assert(mid.insert(name, or_empty(mid, name).insert(e.digest, e)) =~= m.insert(
            name,
            repo.insert(e.digest, e),
        )) by {
            assert(or_empty(mid, name).insert(e.digest, e) =~= repo.insert(e.digest, e));
        }
    } else {
        lemma_put_in(m, s.blob_ref_counts, name, e);
    }
}

/// Taking the manifests of a listing out of a repository and dropping their
/// references keeps the counts exact.
proof fn lemma_take_out_listing(
    m: ManifestsModel,
    counts: CountsModel,
    name: Seq<char>,
    keys: Seq<Seq<char>>,
)
    requires
        consistent(m, counts),
        m.dom().contains(name),
        keys.no_duplicates(),
        forall|i: int| 0 <= i < keys.len() ==> m[name].dom().contains(#[trigger] keys[i]),
    ensures
        consistent(
            m.insert(name, m[name].remove_keys(keys.to_set())),
            without_entries(counts, entries_at(m[name], keys)),
        ),
    decreases keys.len(),
{
    let repo = m[name];
    if keys.len() == 0 {
        assert(m.insert(name, repo.remove_keys(keys.to_set())) =~= m) by {
            assert(repo.remove_keys(keys.to_set()) =~= repo);
        }
        assert(entries_at(repo, keys) =~= Seq::<ManifestEntryView>::empty());
    } else {
        let front = keys.drop_last();
        let last = keys.last();
        lemma_take_out_listing(m, counts, name, front);
        let mid = m.insert(name, repo.remove_keys(front.to_set()));
        let mid_counts = without_entries(counts, entries_at(repo, front));
        assert(!front.contains(last)) by {
            if front.contains(last) {
                let i = choose|i: int| 0 <= i < front.len() && front[i] == last;
                assert(keys[i] == keys[keys.len() - 1]);
            }
        }
        let p = (name, last);
        assert(keys[keys.len() - 1] == last);
        assert(places(mid).contains(p));
        lemma_take_out(mid, mid_counts, p);
        assert(entries_at(repo, keys).drop_last() =~= entries_at(repo, front));
        assert(entries_at(repo, keys).last() == repo[last]);
        assert(mid[name][last] == repo[last]);
        assert(without_place(mid, p) =~= m.insert(name, repo.remove_keys(keys.to_set()))) by {
            assert(keys =~= front.push(last));
            assert forall|k: Seq<char>| keys.to_set().contains(k) <==> front.to_set().contains(k)
                || k == last by {
                if front.contains(k) {
                    let i = choose|i: int| 0 <= i < front.len() && front[i] == k;
                    assert(keys[i] == k);
                }
                if keys.contains(k) && k != last {
                    let i = choose|i: int| 0 <= i < keys.len() && keys[i] == k;
                    assert(front[i] == k);
                }
            }
            assert(repo.remove_keys(front.to_set()).remove(last) =~= repo.remove_keys(
                keys.to_set(),
            ));
        }
    }
}

/// The manifests of a repository are finitely many where all manifests are.
proof fn lemma_repository_finite(m: ManifestsModel, name: Seq<char>)
    requires
        places(m).finite(),
    ensures
        or_empty(m, name).dom().finite(),
{
    if m.dom().contains(name) {
        let f = |p: Place| p.1;
        let here = Set::new(|p: Place| places(m).contains(p) && p.0 == name);
        vstd::set_lib::lemma_len_subset(here, places(m));
        here.lemma_map_finite(f);
        assert(here.map(f) =~= m[name].dom()) by {
            assert forall|k: Seq<char>| m[name].dom().contains(k) implies here.map(f).contains(
                k,
            ) by {
                let p: Place = (name, k);
                assert(here.contains(p) && f(p) == k);
            }
        }
    }
}

/// Deleting manifests of a repository keeps the counts exact.
pub proof fn lemma_delete_keeps_counts_exact(
    s: StateView,
    name: Seq<char>,
    digests: Set<Seq<char>>,
)
    requires
        consistent(s.manifests, s.blob_ref_counts),
    ensures
        consistent(
            without_manifests(s, name, digests).manifests,
            without_manifests(s, name, digests).blob_ref_counts,
        ),
{
    let m = s.manifests;
    let repo = or_empty(m, name);
    let keys = present_digests(repo, digests);
    lemma_repository_finite(m, name);
    vstd::set_lib::lemma_len_subset(repo.dom().intersect(digests), repo.dom());
    lemma_finite_listing(repo.dom().intersect(digests));
    if keys.len() > 0 {
        lemma_ascending_position(keys, 0);
    }
    if m.dom().contains(name) {
        assert forall|i: int| 0 <= i < keys.len() implies m[name].dom().contains(
            #[trigger] keys[i],
        ) by {
            assert(keys.contains(keys[i]));
        }
        lemma_take_out_listing(m, s.blob_ref_counts, name, keys);
        assert(repo.remove_keys(keys.to_set()) =~= repo.remove_keys(digests)) by {
            assert forall|k: Seq<char>| repo.dom().contains(k) implies (keys.to_set().contains(k)
                <==> digests.contains(k)) by {
                assert(keys.contains(k) <==> repo.dom().intersect(digests).contains(k));
            }
        }
    } else {
        assert(keys.len() == 0) by {
            if keys.len() > 0 {
                assert(keys.contains(keys[0]));
            }
        }
        assert(entries_at(repo, keys) =~= Seq::<ManifestEntryView>::empty());
    }
}

/// Deleting a repository keeps the counts exact.
pub proof fn lemma_delete_repository_keeps_counts_exact(s: StateView, name: Seq<char>)
    requires
        consistent(s.manifests, s.blob_ref_counts),
    ensures
        consistent(
            without_repository_content(s, name).manifests,
            without_repository_content(s, name).blob_ref_counts,
        ),
{
    let m = s.manifests;
    let repo = or_empty(m, name);
    let keys = sorted_keys(repo.dom());
    lemma_repository_finite(m, name);
    lemma_finite_listing(repo.dom());
    if keys.len() > 0 {
        lemma_ascending_position(keys, 0);
    }
    if m.dom().contains(name) {
        assert forall|i: int| 0 <= i < keys.len() implies m[name].dom().contains(
            #[trigger] keys[i],
        ) by {
            assert(keys.contains(keys[i]));
        }
        lemma_take_out_listing(m, s.blob_ref_counts, name, keys);
        let emptied = m.insert(name, repo.remove_keys(keys.to_set()));
        let gone = m.remove(name);
        let counts = without_entries(s.blob_ref_counts, entries_at(repo, keys));
        assert forall|k: Seq<char>| repo.dom().contains(k) implies keys.to_set().contains(k) by {
            assert(keys.contains(k));
        }
        assert(places(emptied) =~= places(gone));
        assert forall|q: Place| #[trigger] places(gone).contains(q) implies gone[q.0][q.1]
            .referenced_blobs.no_duplicates() by {
            assert(places(emptied).contains(q));
        }
        assert forall|d: Seq<char>|
            {
                &&& #[trigger] count_of(counts, d) == holders(gone, d).len()
                &&& counts.dom().contains(d) <==> holders(gone, d).len() > 0
            } by {
            assert(holders(gone, d) =~= holders(emptied, d));
        }
    } else {
        assert(keys.len() == 0) by {
            if keys.len() > 0 {
                assert(keys.contains(keys[0]));
            }
        }
        assert(entries_at(repo, keys) =~= Seq::<ManifestEntryView>::empty());
        assert(m.remove(name) =~= m);
    }
}

/// The references of a pushed manifest are without repetitions.
pub proof fn lemma_sorted_unique(texts: Seq<Seq<char>>)
    ensures
        sorted_unique(texts).no_duplicates(),
        forall|t: Seq<char>| sorted_unique(texts).contains(t) <==> texts.contains(t),
{
    vstd::seq_lib::seq_to_set_is_finite(texts);
    lemma_finite_listing(texts.to_set());
    let keys = sorted_unique(texts);
    if keys.len() > 0 {
        lemma_ascending_position(keys, 0);
    }
}

/// Every change keeps the reference counts exact: at any time a blob is
/// counted once for every manifest that refers to it.
pub proof fn lemma_counts_stay_exact(s: StateView, req: Request)
    requires
        consistent(s.manifests, s.blob_ref_counts),
        adds_references(req) ==> has_room(s.blob_ref_counts),
    ensures
        consistent(
            request_step(s, req).0.manifests,
            request_step(s, req).0.blob_ref_counts,
        ),
{
    match req {
        Request::Manifest(r) => match r {
            ManifestRequest::PutManifest { name, reference, .. } => {
                lemma_sorted_unique(
                    pushed_refs(r->body@, r->referenced_blobs.deep_view()),
                );
                lemma_store_keeps_counts_exact(s, name@, pushed_entry(r));
            },
            ManifestRequest::DeleteManifest { name, digest } => {
                lemma_delete_keeps_counts_exact(s, name@, set![digest@]);
            },
            ManifestRequest::DeleteManifests { name, digests } => {
                lemma_delete_keeps_counts_exact(s, name@, digests.deep_view().to_set());
            },
            ManifestRequest::DeleteRepository { name } => {
                lemma_delete_repository_keeps_counts_exact(s, name@);
            },
            _ => {},
        },
        _ => {},
    }
}

/// Before anything was applied the reference counts are exact.
pub proof fn lemma_empty_counts_exact()
    ensures
        consistent(empty_state().manifests, empty_state().blob_ref_counts),
{
    let m = empty_state().manifests;
    assert(places(m) =~= Set::empty());
    assert forall|d: Seq<char>|
        {
            &&& #[trigger] count_of(empty_state().blob_ref_counts, d) == holders(m, d).len()
            &&& empty_state().blob_ref_counts.dom().contains(d) <==> holders(m, d).len() > 0
        } by {
        assert(holders(m, d) =~= Set::empty());
    }
}

/// A blob counts as referenced exactly when some manifest refers to it.
pub proof fn lemma_referenced_means_held(s: StateView, digest: Seq<char>)
    requires
        consistent(s.manifests, s.blob_ref_counts),
    ensures
        count_of(s.blob_ref_counts, digest) > 0 <==> exists|p: Place| #[trigger]
            places(s.manifests).contains(p) && s.manifests[p.0][p.1].referenced_blobs.contains(
                digest,
            ),
{
    lemma_holders_finite(s.manifests, digest);
    let h = holders(s.manifests, digest);
    assert(count_of(s.blob_ref_counts, digest) == h.len());
    if h.len() > 0 {
        let p = h.choose();
        assert(h.contains(p));
        assert(places(s.manifests).contains(p));
    }
    if exists|p: Place| #[trigger]
        places(s.manifests).contains(p) && s.manifests[p.0][p.1].referenced_blobs.contains(
            digest,
        ) {
        let p = choose|p: Place| #[trigger]
            places(s.manifests).contains(p) && s.manifests[p.0][p.1].referenced_blobs.contains(
                digest,
            );
        assert(h.contains(p));
        if h.len() == 0 {
            assert(h =~= Set::empty());
        }
    }
}

// ── Restoring ────────────────────────────────────────────────────────────

/// The keys of a listing whose manifests refer to a blob.
spec fn holding_keys(repo: RepoModel, keys: Seq<Seq<char>>, digest: Seq<char>) -> Set<Seq<char>> {
    Set::new(|k: Seq<char>| keys.contains(k) && repo[k].referenced_blobs.contains(digest))
}

proof fn lemma_repository_occurrences(repo: RepoModel, keys: Seq<Seq<char>>, digest: Seq<char>)
    requires
        keys.no_duplicates(),
        forall|i: int|
            0 <= i < keys.len() ==> repo[#[trigger] keys[i]].referenced_blobs.no_duplicates(),
    ensures
        holding_keys(repo, keys, digest).finite(),
        occurrences(repository_refs(repo, keys), digest) == holding_keys(
            repo,
            keys,
            digest,
        ).len(),
    decreases keys.len(),
{
    if keys.len() == 0 {
        assert(holding_keys(repo, keys, digest) =~= Set::empty());
    } else {
        let front = keys.drop_last();
        let last = keys.last();
        lemma_repository_occurrences(repo, front, digest);
        lemma_occurrences_concat(
            repository_refs(repo, front),
            repo[last].referenced_blobs,
            digest,
        );
        assert(keys[keys.len() - 1] == last);
        lemma_occurrences(repo[last].referenced_blobs, digest);
        assert(!front.contains(last)) by {
            if front.contains(last) {
                let i = choose|i: int| 0 <= i < front.len() && front[i] == last;
                assert(keys[i] == keys[keys.len() - 1]);
            }
        }
        assert forall|k: Seq<char>| keys.contains(k) <==> front.contains(k) || k == last by {
            if front.contains(k) {
                let i = choose|i: int| 0 <= i < front.len() && front[i] == k;
                assert(keys[i] == k);
            }
            if keys.contains(k) && k != last {
                let i = choose|i: int| 0 <= i < keys.len() && keys[i] == k;
                assert(front[i] == k);
            }
        }
        if repo[last].referenced_blobs.contains(digest) {
            assert(holding_keys(repo, keys, digest) =~= holding_keys(repo, front, digest).insert(
                last,
            ));
        } else {
            assert(holding_keys(repo, keys, digest) =~= holding_keys(repo, front, digest));
        }
    }
}

/// The places under some repositories whose manifests refer to a blob.
spec fn holders_under(m: ManifestsModel, names: Seq<Seq<char>>, digest: Seq<char>) -> Set<Place> {
    Set::new(|p: Place| names.contains(p.0) && holders(m, digest).contains(p))
}

proof fn lemma_occurrences_under(m: ManifestsModel, names: Seq<Seq<char>>, digest: Seq<char>)
    requires
        places(m).finite(),
        unique_refs(m),
        names.no_duplicates(),
        forall|i: int| 0 <= i < names.len() ==> m.dom().contains(#[trigger] names[i]),
    ensures
        occurrences(refs_under(m, names), digest) == holders_under(m, names, digest).len(),
        holders_under(m, names, digest).finite(),
    decreases names.len(),
{
    lemma_holders_finite(m, digest);
    vstd::set_lib::lemma_len_subset(holders_under(m, names, digest), holders(m, digest));
    if names.len() == 0 {
        assert(holders_under(m, names, digest) =~= Set::empty());
    } else {
        let front = names.drop_last();
        let last = names.last();
        lemma_occurrences_under(m, front, digest);
        assert(names[names.len() - 1] == last);
        let repo = m[last];
        let keys = sorted_keys(repo.dom());
        lemma_repository_finite(m, last);
        lemma_finite_listing(repo.dom());
        if keys.len() > 0 {
            lemma_ascending_position(keys, 0);
        }
        assert forall|i: int| 0 <= i < keys.len() implies repo[#[trigger] keys[i]]
            .referenced_blobs.no_duplicates() by {
            assert(keys.contains(keys[i]));
            assert(places(m).contains((last, keys[i])));
        }
        lemma_repository_occurrences(repo, keys, digest);
        lemma_occurrences_concat(refs_under(m, front), repository_refs(repo, keys), digest);
        let own_keys = holding_keys(repo, keys, digest);
        let f = |k: Seq<char>| (last, k);
        let own = own_keys.map(f);
        vstd::set_lib::lemma_map_size(own_keys, own, f);
        own_keys.lemma_map_finite(f);
        assert(!front.contains(last)) by {
            if front.contains(last) {
                let i = choose|i: int| 0 <= i < front.len() && front[i] == last;
                assert(names[i] == names[names.len() - 1]);
            }
        }
        assert forall|k: Seq<char>| names.contains(k) <==> front.contains(k) || k == last by {
            if front.contains(k) {
                let i = choose|i: int| 0 <= i < front.len() && front[i] == k;
                assert(names[i] == k);
            }
            if names.contains(k) && k != last {
                let i = choose|i: int| 0 <= i < names.len() && names[i] == k;
                assert(front[i] == k);
            }
        }
        let before = holders_under(m, front, digest);
        assert(holders_under(m, names, digest) =~= before.union(own)) by {
            assert forall|p: Place| holders_under(m, names, digest).contains(p) <==> before.union(
                own,
            ).contains(p) by {
                if own.contains(p) {
                    let k = choose|k: Seq<char>| own_keys.contains(k) && f(k) == p;
                    assert(keys.contains(k));
                }
                if holders(m, digest).contains(p) && p.0 == last {
                    assert(keys.contains(p.1));
                    assert(own_keys.contains(p.1) && f(p.1) == p);
                }
            }
        }
        assert(before.disjoint(own)) by {
            assert forall|p: Place| own.contains(p) implies !before.contains(p) by {
                let k = choose|k: Seq<char>| own_keys.contains(k) && f(k) == p;
            }
        }
        vstd::set_lib::lemma_set_disjoint_lens(before, own);
    }
}

/// Counting all references from nothing gives exact counts.
pub proof fn lemma_rebuilt_counts_exact(m: ManifestsModel)
    requires
        places(m).finite(),
        m.dom().finite(),
        unique_refs(m),
        countable(m),
    ensures
        consistent(m, rebuilt_counts(m)),
{
    let names = sorted_keys(m.dom());
    lemma_finite_listing(m.dom());
    if names.len() > 0 {
        lemma_ascending_position(names, 0);
    }
    assert forall|i: int| 0 <= i < names.len() implies m.dom().contains(#[trigger] names[i]) by {
        assert(names.contains(names[i]));
    }
    lemma_few_fit(all_refs(m));
    let counts = rebuilt_counts(m);
    assert forall|d: Seq<char>|
        {
            &&& #[trigger] count_of(counts, d) == holders(m, d).len()
            &&& counts.dom().contains(d) <==> holders(m, d).len() > 0
        } by {
        lemma_incremented(Map::empty(), all_refs(m), d);
        lemma_occurrences_under(m, names, d);
        lemma_occurrences(all_refs(m), d);
        assert(holders_under(m, names, d) =~= holders(m, d)) by {
            assert forall|p: Place| holders(m, d).contains(p) implies names.contains(p.0) by {
                assert(m.dom().contains(p.0));
            }
        }
        assert(count_of(Map::empty(), d) == 0);
    }
    assert(exact_counts(m, counts));
}

/// Whatever counts a snapshot held, the restored counts are exact.
pub proof fn lemma_restore_makes_counts_exact(s: StateView, now: u64)
    requires
        places(s.manifests).finite(),
        s.manifests.dom().finite(),
        countable(normalized_manifests(s.manifests, now)),
    ensures
        consistent(
            normalized_state(s, now).manifests,
            normalized_state(s, now).blob_ref_counts,
        ),
{
    let m = s.manifests;
    let n = normalized_manifests(m, now);
    assert(n.dom() =~= m.dom());
    assert(places(n) =~= places(m));
    assert forall|p: Place| #[trigger] places(n).contains(p) implies n[p.0][p.1]
        .referenced_blobs.no_duplicates() by {
        assert(places(m).contains(p));
        lemma_sorted_unique(restored_refs(m[p.0][p.1]));
    }
    lemma_rebuilt_counts_exact(n);
}

} // verus!
