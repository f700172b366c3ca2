//! What is read out of digests and manifests, told by what they say.
use crate::error::LayerhouseError;
use crate::oci::digest::{
    hex_text, is_digest, is_digest_of, is_hex_char, sha256_bytes, Digest, DigestAlgorithm,
};
use crate::oci::json::{Json, JsonView};
use crate::oci::manifest::{
    descriptor_digest, descriptor_size, descriptors, digests_of, extract_annotations,
    extract_artifact_type, extract_config_summary, extract_referenced_digests,
    extract_subject_digest, is_manifest_media_type, layer_descriptors, named, stored_size_bytes,
    stored_sum,
};
use vstd::prelude::*;

verus! {

// ── Digests ──────────────────────────────────────────────────────────────

/// Whether a text is made of lowercase hexadecimal digits.
pub open spec fn is_lower_hex(s: Seq<char>) -> bool {
    forall|i: int|
        0 <= i < s.len() ==> ('0' <= #[trigger] s[i] && s[i] <= '9') || ('a' <= s[i] && s[i]
            <= 'f')
}

/// A digest is the name of a hash function, a colon and as many lowercase hexadecimal
/// digits as the function gives; it is read as it stands.
pub proof fn lemma_digests(s: &str, hex: Seq<char>, r: Result<Digest, LayerhouseError>)
    requires
        call_ensures(Digest::parse, (s,), r),
    ensures
        s@ == "sha256:"@ + hex && hex.len() == 64 && is_lower_hex(hex) ==> r is Ok,
        s@ == "sha512:"@ + hex && hex.len() == 128 && is_lower_hex(hex) ==> r is Ok,
        r is Ok ==> {
            let digits = s@.skip(7);
            &&& s@.len() == 71 || s@.len() == 135
            &&& s@.len() == 71 ==> s@ == "sha256:"@ + digits
            &&& s@.len() == 135 ==> s@ == "sha512:"@ + digits
            &&& is_lower_hex(digits)
            &&& r->Ok_0@ == s@
        },
        r matches Err(e) ==> (e matches LayerhouseError::DigestInvalid(t) && t@ == s@),
{
    reveal_strlit("sha256:");
    reveal_strlit("sha512:");
    if s@ == "sha256:"@ + hex && hex.len() == 64 && is_lower_hex(hex) {
        assert(s@.skip(7) =~= hex);
        assert(s@.take(7) =~= "sha256:"@);
        assert(is_digest_of(s@, DigestAlgorithm::Sha256));
    }
    if s@ == "sha512:"@ + hex && hex.len() == 128 && is_lower_hex(hex) {
        assert(s@.skip(7) =~= hex);
        assert(s@.take(7) =~= "sha512:"@);
        assert(is_digest_of(s@, DigestAlgorithm::Sha512));
    }
    if r is Ok {
        let digits = s@.skip(7);
        assert forall|i: int| 0 <= i < digits.len() implies ('0' <= #[trigger] digits[i]
            && digits[i] <= '9') || ('a' <= digits[i] && digits[i] <= 'f') by {
            assert(is_hex_char(digits[i]));
        }
        assert(s@ =~= s@.take(7) + digits);
        if s@.len() == 71 {
            assert(s@.take(7) =~= "sha256:"@);
        } else {
            assert(s@.take(7) =~= "sha512:"@);
        }
    }
}

// ── Manifests ────────────────────────────────────────────────────────────

/// The registry stores manifests and indexes of OCI and of Docker, and nothing else.
pub proof fn lemma_media_types(s: &str, r: bool)
    requires
        call_ensures(is_manifest_media_type, (s,), r),
    ensures
        r <==> s@ == "application/vnd.oci.image.manifest.v1+json"@ || s@
            == "application/vnd.oci.image.index.v1+json"@ || s@
            == "application/vnd.docker.distribution.manifest.v2+json"@ || s@
            == "application/vnd.docker.distribution.manifest.list.v2+json"@,
{
}

/// The first field of a name is the one that is read.
pub proof fn lemma_field_is_read(fields: Seq<(Seq<char>, JsonView)>, key: Seq<char>, p: int)
    requires
        0 <= p < fields.len(),
        fields[p].0 == key,
        forall|i: int| 0 <= i < p ==> (#[trigger] fields[i]).0 != key,
    ensures
        JsonView::Object(fields).get(key) == Some(fields[p].1),
{
    lemma_field_from(fields, key, 0, p);
}

proof fn lemma_field_from(fields: Seq<(Seq<char>, JsonView)>, key: Seq<char>, from: int, p: int)
    requires
        0 <= from <= p < fields.len(),
        fields[p].0 == key,
        forall|i: int| from <= i < p ==> (#[trigger] fields[i]).0 != key,
    ensures
        JsonView::field_from(fields, key, from) == Some(fields[p].1),
    decreases p - from,
{
    if from < p {
        assert(fields[from].0 != key);
        lemma_field_from(fields, key, from + 1, p);
    }
}

/// Whether a descriptor names a digest.
pub open spec fn names(descriptor: JsonView, digest: Seq<char>) -> bool {
    is_digest(digest) && (descriptor.get("digest"@) matches Some(
        JsonView::Text(t),
    ) && t == digest)
}

/// Whether a manifest is made of a blob: its config is it, or one of its layers.
pub open spec fn is_made_of(doc: JsonView, digest: Seq<char>) -> bool {
    ||| doc.get("config"@) matches Some(config) && names(config, digest)
    ||| doc.get("layers"@) matches Some(JsonView::List(layers)) && exists|i: int|
        0 <= i < layers.len() && names(#[trigger] layers[i], digest)
}

proof fn lemma_digests_of(ds: Seq<JsonView>, digest: Seq<char>)
    ensures
        digests_of(ds).contains(digest) <==> exists|i: int|
            0 <= i < ds.len() && names(#[trigger] ds[i], digest),
    decreases ds.len(),
{
    if ds.len() > 0 {
        let front = ds.drop_last();
        lemma_digests_of(front, digest);
        let before = digests_of(front);
        let all = digests_of(ds);
        if all.contains(digest) {
            let k = choose|k: int| 0 <= k < all.len() && all[k] == digest;
            if k < before.len() {
                assert(before[k] == digest);
                let i = choose|i: int| 0 <= i < front.len() && names(#[trigger] front[i], digest);
                assert(names(ds[i], digest));
            } else {
                assert(names(ds[ds.len() - 1], digest));
            }
        }
        if exists|i: int| 0 <= i < ds.len() && names(#[trigger] ds[i], digest) {
            let i = choose|i: int| 0 <= i < ds.len() && names(#[trigger] ds[i], digest);
            if i < front.len() {
                assert(names(front[i], digest));
                let k = choose|k: int| 0 <= k < before.len() && before[k] == digest;
                assert(all[k] == digest);
            } else {
                assert(all[before.len() as int] == digest);
            }
        }
    }
}

/// A manifest refers to the blobs that it is made of, and to no others.
pub proof fn lemma_manifest_refers_to_its_blobs(doc: &Json, r: Vec<Digest>, digest: Seq<char>)
    requires
        call_ensures(extract_referenced_digests, (doc,), r),
    ensures
        r.deep_view().contains(digest) <==> is_made_of(doc@, digest),
{
    let ds = descriptors(doc@);
    lemma_digests_of(ds, digest);
    let head: Seq<JsonView> = match doc@.get("config"@) {
        Some(config) => seq![config],
        None => Seq::empty(),
    };
    let layers = layer_descriptors(doc@);
    assert(ds == head + layers);
    if exists|i: int| 0 <= i < ds.len() && names(#[trigger] ds[i], digest) {
        let i = choose|i: int| 0 <= i < ds.len() && names(#[trigger] ds[i], digest);
        if i < head.len() {
            assert(ds[i] == head[i]);
        } else {
            assert(ds[i] == layers[i - head.len()]);
        }
    }
    if let Some(config) = doc@.get("config"@) {
        if names(config, digest) {
            assert(ds[0] == config);
        }
    }
    if let Some(JsonView::List(list)) = doc@.get("layers"@) {
        assert(layers == list);
        if exists|i: int| 0 <= i < list.len() && names(#[trigger] list[i], digest) {
            let i = choose|i: int| 0 <= i < list.len() && names(#[trigger] list[i], digest);
            assert(ds[head.len() + i] == list[i]);
        }
    }
}

/// A digest is named where some descriptor gives it.
pub proof fn lemma_named(ds: Seq<JsonView>, digest: Seq<char>)
    ensures
        named(ds).contains(digest) <==> exists|i: int|
            0 <= i < ds.len() && descriptor_digest(#[trigger] ds[i]) == Some(digest),
    decreases ds.len(),
{
    if ds.len() > 0 {
        let front = ds.drop_last();
        lemma_named(front, digest);
        if exists|i: int| 0 <= i < ds.len() && descriptor_digest(#[trigger] ds[i]) == Some(digest) {
            let i = choose|i: int|
                0 <= i < ds.len() && descriptor_digest(#[trigger] ds[i]) == Some(digest);
            if i < front.len() {
                assert(front[i] == ds[i]);
            }
        }
        if named(front).contains(digest) {
            let i = choose|i: int|
                0 <= i < front.len() && descriptor_digest(#[trigger] front[i]) == Some(digest);
            assert(ds[i] == front[i]);
        }
        assert(ds[ds.len() - 1] == ds.last());
    }
}

/// The size of a blob counts where it is named first, and only there: what is named again
/// takes no more room, and what names no blob takes none.
pub proof fn lemma_each_blob_counts_once(ds: Seq<JsonView>, d: JsonView)
    ensures
        stored_sum(Seq::empty()) == 0,
        descriptor_digest(d) is None ==> stored_sum(ds.push(d)) == stored_sum(ds),
        descriptor_digest(d) is Some ==> {
            let known = exists|i: int|
                0 <= i < ds.len() && descriptor_digest(#[trigger] ds[i]) == descriptor_digest(d);
            &&& known ==> stored_sum(ds.push(d)) == stored_sum(ds)
            &&& !known ==> stored_sum(ds.push(d)) == stored_sum(ds) + descriptor_size(d)
        },
{
    assert(ds.push(d).drop_last() =~= ds);
    if let Some(digest) = descriptor_digest(d) {
        lemma_named(ds, digest);
    }
}

/// A manifest with a config alone takes the room that its config gives, and one without
/// blobs takes none.
pub proof fn lemma_stored_size(doc: &Json, r: u64)
    requires
        call_ensures(stored_size_bytes, (doc,), r),
    ensures
        r == stored_sum(descriptors(doc@)) || (r == u64::MAX && stored_sum(descriptors(doc@))
            > u64::MAX),
        doc@.get("config"@) is None && doc@.get("layers"@) is None ==> r == 0,
        (doc@.get("layers"@) is None && (doc@.get("config"@) matches Some(config)
            && descriptor_digest(config) is Some)) ==> r == descriptor_size(
            doc@.get("config"@)->0,
        ),
{
    let ds = descriptors(doc@);
    if doc@.get("layers"@) is None {
        if let Some(config) = doc@.get("config"@) {
            assert(ds =~= Seq::<JsonView>::empty().push(config));
            lemma_each_blob_counts_once(Seq::empty(), config);
        } else {
            assert(ds =~= Seq::<JsonView>::empty());
        }
    }
}

/// The subject of a manifest is the digest that its subject names. Its type is the one
/// that it gives, and else that of its config. Its annotations and its config are taken as
/// they are.
pub proof fn lemma_what_a_manifest_says(
    doc: &Json,
    subject: Option<Digest>,
    kind: Option<String>,
    annotations: Option<Json>,
    config: Option<Json>,
)
    requires
        call_ensures(extract_subject_digest, (doc,), subject),
        call_ensures(extract_artifact_type, (doc,), kind),
        call_ensures(extract_annotations, (doc,), annotations),
        call_ensures(extract_config_summary, (doc,), config),
    ensures
        subject matches Some(d) ==> (doc@.get("subject"@) matches Some(s) && names(s, d@)),
        subject is None ==> (doc@.get("subject"@) matches Some(s) ==> forall|d: Seq<char>|
            !#[trigger] names(s, d)),
        doc@.get("artifactType"@) matches Some(JsonView::Text(t)) ==> (kind matches Some(k) && k@
            == t),
        !(doc@.get("artifactType"@) matches Some(JsonView::Text(_))) ==> kind.deep_view() == match (
        doc@.get("config"@)) {
            Some(c) => match c.get("mediaType"@) {
                Some(JsonView::Text(t)) => Some(t),
                _ => None,
            },
            None => None,
        },
        annotations.deep_view() == doc@.get("annotations"@),
        config.deep_view() == doc@.get("config"@),
{
    assert(subject.deep_view() is Some <==> subject is Some);
    assert(kind.deep_view() is Some <==> kind is Some);
}

/// A manifest is made of its config and its layers, the config first.
pub proof fn lemma_blobs_of_a_manifest(doc: JsonView, config: JsonView, layers: Seq<JsonView>)
    ensures
        doc.get("config"@) == Some(config) && doc.get("layers"@) == Some(JsonView::List(layers))
            ==> descriptors(doc) == seq![config] + layers,
        doc.get("config"@) is None && doc.get("layers"@) == Some(JsonView::List(layers))
            ==> descriptors(doc) == layers,
        doc.get("config"@) == Some(config) && doc.get("layers"@) is None ==> descriptors(doc)
            == seq![config],
{
    assert(Seq::<JsonView>::empty() + layers =~= layers);
    assert(seq![config] + Seq::<JsonView>::empty() =~= seq![config]);
}

/// Content is named by the hash of its bytes in hexadecimal digits, two for each byte, behind
/// the name of the hash function; the digits alone can be taken out again.
pub proof fn lemma_content_is_named_by_its_hash(
    data: &[u8],
    text: &str,
    r: Digest,
    digits: &String,
    parsed: Option<Digest>,
    checked: Result<Digest, LayerhouseError>,
    i: int,
)
    requires
        call_ensures(Digest::sha256, (data,), r),
        call_ensures(Digest::hex, (&r,), digits),
        call_ensures(Digest::from_str_checked, (text,), parsed),
        call_ensures(Digest::parse, (text,), checked),
    ensures
        r@ == "sha256:"@ + digits@,
        digits@.len() == 2 * sha256_bytes(data@).len(),
        0 <= i < sha256_bytes(data@).len() ==> {
            let high = sha256_bytes(data@)[i] / 16;
            let low = sha256_bytes(data@)[i] % 16;
            let digit = seq!['0', '1', '2', '3', '4', '5', '6', '7', '8', '9', 'a', 'b', 'c', 'd',
                'e', 'f'];
            digits@[2 * i] == digit[high as int] && digits@[2 * i + 1] == digit[low as int]
        },
        parsed is Some <==> checked is Ok,
        parsed matches Some(d) ==> d@ == text@,
{
    reveal_strlit("sha256:");
    assert(r@.skip(7) =~= hex_text(sha256_bytes(data@)));
    if 0 <= i < sha256_bytes(data@).len() {
        assert((2 * i) / 2 == i && (2 * i) % 2 == 0);
        assert((2 * i + 1) / 2 == i && (2 * i + 1) % 2 == 1);
    }
}

} // verus!
