//! What the blobs of a registry take and how they stand, and what a restored state fills in.
use super::laws::{consistent, lemma_referenced_means_held, lemma_sorted_unique, places, Place};
use super::reads::{all_descriptors, repository_stored_size_bytes, values_in_order};
use super::restore::{normalized_entry, normalized_state, restored_refs};
use super::state::{StateMachineData, StateView};
use crate::oci::digest::Digest;
use crate::oci::json::{json_document, JsonView};
use crate::oci::laws::lemma_named;
use crate::oci::manifest::{descriptor_digest, descriptors, named, stored_sum};
use crate::store::metadata::types::{BlobLifecycleStatus, ManifestEntry, ManifestEntryView};
use crate::string_map::{
    lemma_finite_keys, lemma_finite_listing, lemma_sorted_keys, sorted_keys, StringMap,
};
use crate::text::text_lt;
use vstd::prelude::*;

verus! {

// ── Sizes ────────────────────────────────────────────────────────────────

proof fn lemma_known_take_no_room(ds: Seq<JsonView>, es: Seq<JsonView>)
    requires
        forall|i: int|
            0 <= i < es.len() ==> (descriptor_digest(#[trigger] es[i]) matches Some(d) ==> named(
                ds,
            ).contains(d)),
    ensures
        stored_sum(ds + es) == stored_sum(ds),
        named(ds + es) == named(ds),
    decreases es.len(),
{
    if es.len() == 0 {
        assert(ds + es =~= ds);
    } else {
        let front = es.drop_last();
        assert forall|i: int| 0 <= i < front.len() implies (descriptor_digest(
            #[trigger] front[i],
        ) matches Some(d) ==> named(ds).contains(d)) by {
            assert(front[i] == es[i]);
        }
        lemma_known_take_no_room(ds, front);
        assert((ds + es).drop_last() =~= ds + front);
        assert((ds + es).last() == es.last());
        assert(es[es.len() - 1] == es.last());
        assert(named(ds + es) =~= named(ds));
    }
}

proof fn lemma_new_take_their_room(ds: Seq<JsonView>, es: Seq<JsonView>)
    requires
        forall|i: int|
            0 <= i < es.len() ==> (descriptor_digest(#[trigger] es[i]) matches Some(d) ==> !named(
                ds,
            ).contains(d)),
    ensures
        stored_sum(ds + es) == stored_sum(ds) + stored_sum(es),
        named(ds + es) == named(ds).union(named(es)),
    decreases es.len(),
{
    if es.len() == 0 {
        assert(ds + es =~= ds);
        assert(named(ds + es) =~= named(ds).union(named(es)));
    } else {
        let front = es.drop_last();
        assert forall|i: int| 0 <= i < front.len() implies (descriptor_digest(
            #[trigger] front[i],
        ) matches Some(d) ==> !named(ds).contains(d)) by {
            assert(front[i] == es[i]);
        }
        lemma_new_take_their_room(ds, front);
        assert((ds + es).drop_last() =~= ds + front);
        assert((ds + es).last() == es.last());
        assert(es[es.len() - 1] == es.last());
        assert(named(ds + es) =~= named(ds).union(named(es)));
    }
}

/// Whether a manifest is made of a blob.
pub open spec fn is_made_of(e: ManifestEntryView, blob: Seq<char>) -> bool {
    json_document(e.body) matches Some(doc) && exists|i: int|
        0 <= i < descriptors(doc).len() && descriptor_digest(#[trigger] descriptors(doc)[i])
            == Some(blob)
}

proof fn lemma_blobs_of_entries(entries: Seq<ManifestEntryView>, blob: Seq<char>)
    ensures
        named(all_descriptors(entries)).contains(blob) <==> exists|i: int|
            0 <= i < entries.len() && is_made_of(#[trigger] entries[i], blob),
    decreases entries.len(),
{
    if entries.len() > 0 {
        let front = entries.drop_last();
        let last = entries.last();
        lemma_blobs_of_entries(front, blob);
        let a = all_descriptors(front);
        let b = match json_document(last.body) {
            Some(doc) => descriptors(doc),
            None => Seq::empty(),
        };
        let all = all_descriptors(entries);
        assert(all == a + b);
        lemma_named(a, blob);
        lemma_named(b, blob);
        lemma_named(all, blob);
        if named(all).contains(blob) {
            let i = choose|i: int|
                0 <= i < all.len() && descriptor_digest(#[trigger] all[i]) == Some(blob);
            if i < a.len() {
                assert(a[i] == all[i]);
                let k = choose|k: int| 0 <= k < front.len() && is_made_of(#[trigger] front[k], blob);
                assert(entries[k] == front[k]);
            } else {
                assert(b[i - a.len()] == all[i]);
                assert(is_made_of(last, blob));
                assert(entries[entries.len() - 1] == last);
            }
        }
        if exists|i: int| 0 <= i < entries.len() && is_made_of(#[trigger] entries[i], blob) {
            let i = choose|i: int| 0 <= i < entries.len() && is_made_of(#[trigger] entries[i], blob);
            if i < front.len() {
                assert(front[i] == entries[i]);
                let k = choose|k: int|
                    0 <= k < a.len() && descriptor_digest(#[trigger] a[k]) == Some(blob);
                assert(all[k] == a[k]);
            } else {
                assert(entries[i] == last);
                let k = choose|k: int|
                    0 <= k < b.len() && descriptor_digest(#[trigger] b[k]) == Some(blob);
                assert(all[a.len() + k] == b[k]);
            }
        }
    }
}

proof fn lemma_greatest_key_comes_last<T>(
    m: Map<Seq<char>, T>,
    key: Seq<char>,
    value: T,
)
    requires
        m.dom().finite(),
        forall|k: Seq<char>| #[trigger] m.dom().contains(k) ==> text_lt(k, key),
        !m.dom().contains(key),
    ensures
        values_in_order(m.insert(key, value)) == values_in_order(m).push(value),
{
    lemma_finite_listing(m.dom());
    let keys = sorted_keys(m.dom());
    let more = keys.push(key);
    let longer = m.insert(key, value);
    assert forall|i: int, j: int| 0 <= i < j < more.len() implies text_lt(
        #[trigger] more[i],
        #[trigger] more[j],
    ) by {
        if j < keys.len() {
            assert(text_lt(keys[i], keys[j]));
        } else {
            assert(keys.contains(keys[i]));
        }
    }
    assert forall|k: Seq<char>| #[trigger] more.contains(k) <==> longer.dom().contains(k) by {
        if more.contains(k) {
            let i = choose|i: int| 0 <= i < more.len() && more[i] == k;
            if i < keys.len() {
                assert(keys.contains(keys[i]));
            }
        }
        if m.dom().contains(k) {
            assert(keys.contains(k));
            let i = choose|i: int| 0 <= i < keys.len() && keys[i] == k;
            assert(more[i] == k);
        }
        assert(more[keys.len() as int] == key);
    }
    lemma_sorted_keys(more, longer.dom());
    assert forall|i: int| 0 <= i < keys.len() implies #[trigger] keys[i] != key by {
        assert(keys.contains(keys[i]));
    }
    assert(values_in_order(longer) =~= values_in_order(m).push(value));
}

/// The room that the blobs of a repository take: none where it has no manifests; a further
/// manifest made of blobs that are there already takes no more, and one made of new blobs
/// takes what these take.
pub proof fn lemma_room_of_a_repository(
    repo: &StringMap<ManifestEntry>,
    longer: &StringMap<ManifestEntry>,
    digest: Seq<char>,
    e: ManifestEntryView,
    doc: JsonView,
    before: u64,
    after: u64,
)
    requires
        call_ensures(repository_stored_size_bytes, (repo,), before),
        call_ensures(repository_stored_size_bytes, (longer,), after),
        longer@ == repo@.insert(digest, e),
        !repo@.dom().contains(digest),
        forall|k: Seq<char>| #[trigger] repo@.dom().contains(k) ==> text_lt(k, digest),
        json_document(e.body) == Some(doc),
    ensures
        repo@.dom().len() == 0 ==> before == 0,
        (forall|blob: Seq<char>|
            #[trigger] is_made_of(e, blob) ==> exists|k: Seq<char>| #[trigger]
                repo@.dom().contains(k) && is_made_of(repo@[k], blob)) ==> after == before,
        (forall|blob: Seq<char>, k: Seq<char>|
            #[trigger] is_made_of(e, blob) && #[trigger] repo@.dom().contains(k) ==> !is_made_of(
                repo@[k],
                blob,
            )) ==> after == if before + stored_sum(descriptors(doc)) <= u64::MAX {
            before + stored_sum(descriptors(doc))
        } else {
            u64::MAX as int
        },
{
    lemma_finite_keys(repo);
    lemma_finite_listing(repo@.dom());
    lemma_greatest_key_comes_last(repo@, digest, e);
    let keys = sorted_keys(repo@.dom());
    let entries = values_in_order(repo@);
    let all = values_in_order(longer@);
    let ds = all_descriptors(entries);
    let es = descriptors(doc);
    assert(all.drop_last() =~= entries);
    assert(all_descriptors(all) == ds + es);
    if repo@.dom().len() == 0 {
        if keys.len() > 0 {
            assert(keys.contains(keys[0]));
            assert(repo@.dom().contains(keys[0]));
        }
        assert(entries.len() == 0);
    }
    if forall|blob: Seq<char>|
        #[trigger] is_made_of(e, blob) ==> exists|k: Seq<char>| #[trigger]
            repo@.dom().contains(k) && is_made_of(repo@[k], blob) {
        assert forall|i: int| 0 <= i < es.len() implies (descriptor_digest(
            #[trigger] es[i],
        ) matches Some(d) ==> named(ds).contains(d)) by {
            if let Some(d) = descriptor_digest(es[i]) {
                assert(is_made_of(e, d));
                let k = choose|k: Seq<char>| #[trigger]
                    repo@.dom().contains(k) && is_made_of(repo@[k], d);
                assert(keys.contains(k));
                let p = choose|p: int| 0 <= p < keys.len() && keys[p] == k;
                assert(entries[p] == repo@[k]);
                lemma_blobs_of_entries(entries, d);
            }
        }
        lemma_known_take_no_room(ds, es);
    }
    if forall|blob: Seq<char>, k: Seq<char>|
        #[trigger] is_made_of(e, blob) && #[trigger] repo@.dom().contains(k) ==> !is_made_of(
            repo@[k],
            blob,
        ) {
        assert forall|i: int| 0 <= i < es.len() implies (descriptor_digest(
            #[trigger] es[i],
        ) matches Some(d) ==> !named(ds).contains(d)) by {
            if let Some(d) = descriptor_digest(es[i]) {
                assert(is_made_of(e, d));
                lemma_blobs_of_entries(entries, d);
                if named(ds).contains(d) {
                    let p = choose|p: int| 0 <= p < entries.len() && is_made_of(#[trigger] entries[p], d);
                    assert(keys.contains(keys[p]));
                    assert(entries[p] == repo@[keys[p]]);
                    assert(repo@.dom().contains(keys[p]));
                }
            }
        }
        lemma_new_take_their_room(ds, es);
    }
}

// ── How blobs stand ──────────────────────────────────────────────────────

/// A blob counts as referenced exactly where a stored manifest refers to it, and as asked to
/// be deleted exactly where a request is on record.
pub proof fn lemma_how_a_blob_stands(
    data: &StateMachineData,
    digest: &Digest,
    r: BlobLifecycleStatus,
    count: u64,
    text: &str,
)
    requires
        consistent(data@.manifests, data@.blob_ref_counts),
        call_ensures(StateMachineData::blob_lifecycle_status, (data, digest), r),
        text@ == digest@,
        call_ensures(StateMachineData::blob_ref_count_str, (data, text), count),
    ensures
        r.digest@ == digest@,
        r.referenced <==> exists|p: Place| #[trigger]
            places(data@.manifests).contains(p)
                && data@.manifests[p.0][p.1].referenced_blobs.contains(digest@),
        r.ref_count == count,
        r.referenced <==> count > 0,
        r.delete_requested <==> data@.blob_delete_requests.dom().contains(digest@),
{
    lemma_referenced_means_held(data@, digest@);
}

// ── Restored states ──────────────────────────────────────────────────────

/// A restored manifest keeps what it has, and gets what it lacks: its size from its bytes,
/// its times from the clock, and its references, each once, from those on record.
pub proof fn lemma_restored_manifest(e: ManifestEntryView, now: u64, blob: Seq<char>)
    ensures
        ({
            let n = normalized_entry(e, now);
            &&& n.digest == e.digest && n.body == e.body && n.content_type == e.content_type
            &&& n.subject == e.subject && n.artifact_type == e.artifact_type
            &&& n.annotations == e.annotations && n.config_summary == e.config_summary
            &&& e.created_at != 0 ==> n.created_at == e.created_at
            &&& e.created_at == 0 ==> n.created_at == now
            &&& e.last_modified != 0 ==> n.last_modified == e.last_modified
            &&& e.last_modified == 0 ==> n.last_modified == n.created_at
            &&& e.manifest_size_bytes != 0 ==> n.manifest_size_bytes == e.manifest_size_bytes
            &&& e.manifest_size_bytes == 0 && e.body.len() <= u64::MAX ==> n.manifest_size_bytes
                == e.body.len()
            &&& e.stored_size_bytes != 0 ==> n.stored_size_bytes == e.stored_size_bytes
            &&& e.stored_size_bytes == 0 && json_document(e.body) is None ==> n.stored_size_bytes
                == 0
            &&& n.referenced_blobs.no_duplicates()
            &&& e.referenced_blobs.len() > 0 ==> (n.referenced_blobs.contains(blob)
                <==> e.referenced_blobs.contains(blob))
            &&& e.referenced_blobs.len() == 0 && json_document(e.body) is None
                ==> n.referenced_blobs.len() == 0
        }),
{
    lemma_sorted_unique(restored_refs(e));
    let n = normalized_entry(e, now);
    if e.referenced_blobs.len() == 0 && json_document(e.body) is None && n.referenced_blobs.len()
        > 0 {
        assert(n.referenced_blobs.contains(n.referenced_blobs[0]));
        assert(restored_refs(e).contains(n.referenced_blobs[0]));
    }
}

/// A restored state has the manifests of the snapshot, each of them restored, and all else
/// as the snapshot has it.
pub proof fn lemma_restored_state(s: StateView, now: u64, name: Seq<char>, digest: Seq<char>)
    ensures
        ({
            let n = normalized_state(s, now);
            &&& n.manifests.dom() == s.manifests.dom()
            &&& s.manifests.dom().contains(name) ==> n.manifests[name].dom()
                == s.manifests[name].dom()
            &&& s.manifests.dom().contains(name) && s.manifests[name].dom().contains(digest)
                ==> n.manifests[name][digest] == normalized_entry(s.manifests[name][digest], now)
            &&& n == (StateView {
                manifests: n.manifests,
                blob_ref_counts: n.blob_ref_counts,
                ..s
            })
        }),
{
    let n = normalized_state(s, now);
    assert(n.manifests.dom() =~= s.manifests.dom());
    if s.manifests.dom().contains(name) {
        assert(n.manifests[name].dom() =~= s.manifests[name].dom());
    }
}

} // verus!
