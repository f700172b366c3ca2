//! What the registry reads out of an image manifest.
use crate::oci::digest::{is_digest, Digest};
use crate::oci::json::{Json, JsonView};
use crate::string_map::StringMap;
use crate::text::str_equal;
use vstd::prelude::*;

verus! {

/// The media types of manifests that the registry stores.
pub open spec fn manifest_media_type(s: Seq<char>) -> bool {
    ||| s == "application/vnd.oci.image.manifest.v1+json"@
    ||| s == "application/vnd.oci.image.index.v1+json"@
    ||| s == "application/vnd.docker.distribution.manifest.v2+json"@
    ||| s == "application/vnd.docker.distribution.manifest.list.v2+json"@
}

/// The descriptors of the blobs that a manifest is made of: its config, then
/// its layers.
pub open spec fn descriptors(doc: JsonView) -> Seq<JsonView> {
    (match doc.get("config"@) {
        Some(config) => seq![config],
        None => Seq::empty(),
    }) + layer_descriptors(doc)
}

/// The descriptors of the layers of a manifest.
pub open spec fn layer_descriptors(doc: JsonView) -> Seq<JsonView> {
    match doc.get("layers"@) {
        Some(layers) => match layers.items() {
            Some(items) => items,
            None => Seq::empty(),
        },
        None => Seq::empty(),
    }
}

/// The digest that a descriptor names, where it is one.
pub open spec fn descriptor_digest(d: JsonView) -> Option<Seq<char>> {
    match d.text_field("digest"@) {
        Some(text) => if is_digest(text) {
            Some(text)
        } else {
            None
        },
        None => None,
    }
}

/// The size that a descriptor gives, or nothing.
pub open spec fn descriptor_size(d: JsonView) -> nat {
    match d.get("size"@) {
        Some(size) => match size.unsigned() {
            Some(n) => n as nat,
            None => 0,
        },
        None => 0,
    }
}

/// The digests that descriptors name, in order.
pub open spec fn digests_of(ds: Seq<JsonView>) -> Seq<Seq<char>>
    decreases ds.len(),
{
    if ds.len() == 0 {
        Seq::empty()
    } else {
        match descriptor_digest(ds.last()) {
            Some(text) => digests_of(ds.drop_last()).push(text),
            None => digests_of(ds.drop_last()),
        }
    }
}

/// The blobs that a manifest refers to, in order.
pub open spec fn referenced_digests(doc: JsonView) -> Seq<Seq<char>> {
    digests_of(descriptors(doc))
}

/// The digests that descriptors name, as a set.
pub open spec fn named(ds: Seq<JsonView>) -> Set<Seq<char>>
    decreases ds.len(),
{
    if ds.len() == 0 {
        Set::empty()
    } else {
        match descriptor_digest(ds.last()) {
            Some(text) => named(ds.drop_last()).insert(text),
            None => named(ds.drop_last()),
        }
    }
}

/// The bytes that descriptors stand for, each digest counted once.
pub open spec fn stored_sum(ds: Seq<JsonView>) -> nat
    decreases ds.len(),
{
    if ds.len() == 0 {
        0
    } else {
        stored_sum(ds.drop_last()) + match descriptor_digest(ds.last()) {
            Some(text) => if named(ds.drop_last()).contains(text) {
                0
            } else {
                descriptor_size(ds.last())
            },
            None => 0,
        }
    }
}

/// A number, or the largest that fits.
pub open spec fn saturated(n: nat) -> u64 {
    if n <= u64::MAX {
        n as u64
    } else {
        u64::MAX
    }
}

/// The digest that the subject of a manifest names.
pub open spec fn subject_digest(doc: JsonView) -> Option<Seq<char>> {
    match doc.get("subject"@) {
        Some(subject) => descriptor_digest(subject),
        None => None,
    }
}

/// What kind of artifact a manifest is: its artifact type, or else the media
/// type of its config.
pub open spec fn artifact_type(doc: JsonView) -> Option<Seq<char>> {
    match doc.text_field("artifactType"@) {
        Some(text) => Some(text),
        None => match doc.get("config"@) {
            Some(config) => config.text_field("mediaType"@),
            None => None,
        },
    }
}

/// Whether the registry stores manifests of a media type.
pub fn is_manifest_media_type(s: &str) -> (r: bool)
    ensures
        r == manifest_media_type(s@),
{
    str_equal(s, "application/vnd.oci.image.manifest.v1+json") || str_equal(
        s,
        "application/vnd.oci.image.index.v1+json",
    ) || str_equal(s, "application/vnd.docker.distribution.manifest.v2+json") || str_equal(
        s,
        "application/vnd.docker.distribution.manifest.list.v2+json",
    )
}

/// The digest that a descriptor names, where it is one.
fn read_digest(d: &Json) -> (r: Option<Digest>)
    ensures
        r.deep_view() == descriptor_digest(d@),
{
    match d.text_field("digest") {
        Some(text) => Digest::from_str_checked(text.as_str()),
        None => None,
    }
}

/// The size that a descriptor gives, or nothing.
fn read_size(d: &Json) -> (r: u64)
    ensures
        r == descriptor_size(d@),
{
    match d.get("size") {
        Some(size) => match size.as_u64() {
            Some(n) => n,
            None => 0,
        },
        None => 0,
    }
}

/// The descriptors of the blobs of a manifest.
fn list_descriptors(doc: &Json) -> (r: Vec<&Json>)
    ensures
        r.deep_view() == descriptors(doc@),
{
    let mut r: Vec<&Json> = Vec::new();
    if let Some(config) = doc.get("config") {
        r.push(config);
        assert(r.deep_view() =~= seq![config@]);
    }
    let ghost head = r.deep_view();
    assert(head =~= match doc@.get("config"@) {
        Some(config) => seq![config],
        None => Seq::empty(),
    });
    if let Some(layers) = doc.get("layers") {
        if let Some(items) = layers.as_list() {
            let ghost all = items.deep_view();
            let mut i: usize = 0;
            assert(r.deep_view() =~= head + all.take(0));
            while i < items.len()
                invariant
                    all == items.deep_view(),
                    i <= items@.len(),
                    r.deep_view() == head + all.take(i as int),
                decreases items@.len() - i,
            {
                let ghost before = r.deep_view();
                r.push(&items[i]);
                assert(r.deep_view() =~= before.push(items@[i as int]@));
                assert(all.take(i + 1) =~= all.take(i as int).push(items@[i as int]@));
                assert(r.deep_view() =~= head + all.take(i + 1));
                i = i + 1;
            }
            assert(all.take(all.len() as int) =~= all);
        }
    }
    assert(r.deep_view() =~= head + layer_descriptors(doc@));
    r
}

/// The blobs that a manifest refers to, in order.
pub fn extract_referenced_digests(doc: &Json) -> (r: Vec<Digest>)
    ensures
        r.deep_view() == referenced_digests(doc@),
{
    let list = list_descriptors(doc);
    let ghost ds = descriptors(doc@);
    let mut r: Vec<Digest> = Vec::new();
    let mut i: usize = 0;
    assert(r.deep_view() =~= digests_of(ds.take(0)));
    while i < list.len()
        invariant
            ds == list.deep_view(),
            i <= list@.len(),
            r.deep_view() == digests_of(ds.take(i as int)),
        decreases list@.len() - i,
    {
        let ghost before = r.deep_view();
        assert(ds.take(i + 1).drop_last() =~= ds.take(i as int));
        assert(ds.take(i + 1).last() == list@[i as int]@);
        if let Some(digest) = read_digest(list[i]) {
            r.push(digest);
            assert(r.deep_view() =~= before.push(digest@));
        }
        i = i + 1;
    }
    assert(ds.take(ds.len() as int) =~= ds);
    r
}

/// A running total of the bytes that descriptors stand for, each digest
/// counted once.
pub struct StoredTally {
    seen: StringMap<()>,
    total: u64,
}

impl StoredTally {
    /// The tally stands at these descriptors.
    pub closed spec fn stands_at(self, ds: Seq<JsonView>) -> bool {
        self.seen@.dom() == named(ds) && self.total == saturated(stored_sum(ds))
    }

    /// A tally of nothing.
    pub fn new() -> (r: Self)
        ensures
            r.stands_at(Seq::empty()),
    {
        let r = StoredTally { seen: StringMap::new(), total: 0 };
        assert(r.seen@.dom() =~= named(Seq::<JsonView>::empty()));
        r
    }

    /// Counts the blobs of one more manifest.
    pub fn count(&mut self, doc: &Json, Ghost(done): Ghost<Seq<JsonView>>)
        requires
            old(self).stands_at(done),
        ensures
            final(self).stands_at(done + descriptors(doc@)),
    {
        let list = list_descriptors(doc);
        let ghost ds = descriptors(doc@);
        let mut i: usize = 0;
        assert(done + ds.take(0) =~= done);
        while i < list.len()
            invariant
                ds == list.deep_view(),
                i <= list@.len(),
                self.stands_at(done + ds.take(i as int)),
            decreases list@.len() - i,
        {
            let ghost before = done + ds.take(i as int);
            let ghost after = done + ds.take(i + 1);
            assert(after.drop_last() =~= before);
            assert(after.last() == list@[i as int]@);
            if let Some(digest) = read_digest(list[i]) {
                let text = digest.to_string();
                if !self.seen.contains_key(text.as_str()) {
                    self.total = self.total.saturating_add(read_size(list[i]));
                }
                let _ = self.seen.insert(text, ());
                assert(self.seen@.dom() =~= named(after));
            }
            i = i + 1;
        }
        assert(ds.take(ds.len() as int) =~= ds);
    }

    /// The total, or the largest number that fits.
    pub fn total(&self, Ghost(done): Ghost<Seq<JsonView>>) -> (r: u64)
        requires
            self.stands_at(done),
        ensures
            r == saturated(stored_sum(done)),
    {
        self.total
    }
}

/// The bytes that the blobs of a manifest take, each counted once.
pub fn stored_size_bytes(doc: &Json) -> (r: u64)
    ensures
        r == saturated(stored_sum(descriptors(doc@))),
{
    let mut tally = StoredTally::new();
    tally.count(doc, Ghost(Seq::empty()));
    assert(Seq::<JsonView>::empty() + descriptors(doc@) =~= descriptors(doc@));
    tally.total(Ghost(descriptors(doc@)))
}

/// The digest that the subject of a manifest names.
pub fn extract_subject_digest(doc: &Json) -> (r: Option<Digest>)
    ensures
        r.deep_view() == subject_digest(doc@),
{
    match doc.get("subject") {
        Some(subject) => read_digest(subject),
        None => None,
    }
}

/// What kind of artifact a manifest is.
pub fn extract_artifact_type(doc: &Json) -> (r: Option<String>)
    ensures
        r.deep_view() == artifact_type(doc@),
{
    match doc.text_field("artifactType") {
        Some(text) => Some(text.clone()),
        None => match doc.get("config") {
            Some(config) => match config.text_field("mediaType") {
                Some(text) => Some(text.clone()),
                None => None,
            },
            None => None,
        },
    }
}

/// The annotations of a manifest.
pub fn extract_annotations(doc: &Json) -> (r: Option<Json>)
    ensures
        r.deep_view() == doc@.get("annotations"@),
{
    match doc.get("annotations") {
        Some(annotations) => Some(annotations.clone()),
        None => None,
    }
}

/// The descriptor of the config of a manifest.
pub fn extract_config_summary(doc: &Json) -> (r: Option<Json>)
    ensures
        r.deep_view() == doc@.get("config"@),
{
    match doc.get("config") {
        Some(config) => Some(config.clone()),
        None => None,
    }
}

} // verus!
