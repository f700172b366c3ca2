//! How a manifest entry is made from a manifest document.
use super::types::{ManifestEntry, ManifestEntryView};
use crate::clock::now_epoch;
use crate::oci::digest::{sha256_name, Digest};
use crate::oci::json::{Json, JsonView};
use crate::oci::manifest::{
    artifact_type, descriptors, extract_annotations, extract_artifact_type, extract_config_summary,
    extract_subject_digest, saturated, stored_size_bytes, stored_sum, subject_digest,
};
use vstd::prelude::*;

verus! {

/// The entry of a manifest document that arrives at a time.
pub open spec fn parsed_entry(
    doc: JsonView,
    content_type: Seq<char>,
    body: Seq<u8>,
    referenced_blobs: Seq<Seq<char>>,
    now: u64,
) -> ManifestEntryView {
    ManifestEntryView {
        digest: sha256_name(body),
        content_type,
        body,
        referenced_blobs,
        subject: subject_digest(doc),
        artifact_type: artifact_type(doc),
        annotations: doc.get("annotations"@),
        stored_size_bytes: saturated(stored_sum(descriptors(doc))),
        manifest_size_bytes: body.len() as u64,
        created_at: now,
        last_modified: now,
        config_summary: doc.get("config"@),
    }
}

impl ManifestEntry {
    /// The entry of a manifest document that arrives at a time. The caller gives
    /// the document's bytes and the digests that it refers to.
    pub fn from_parsed_json_at(
        parsed: &Json,
        content_type: String,
        body: Vec<u8>,
        referenced_blobs: Vec<Digest>,
        now: u64,
    ) -> (r: Self)
        ensures
            r@ == parsed_entry(
                parsed@,
                content_type@,
                body@,
                referenced_blobs.deep_view(),
                now,
            ),
    {
        assert(body.deep_view() =~= body@);
        ManifestEntry {
            digest: Digest::sha256(body.as_slice()),
            content_type,
            stored_size_bytes: stored_size_bytes(parsed),
            manifest_size_bytes: body.len() as u64,
            body,
            referenced_blobs,
            subject: extract_subject_digest(parsed),
            artifact_type: extract_artifact_type(parsed),
            annotations: extract_annotations(parsed),
            created_at: now,
            last_modified: now,
            config_summary: extract_config_summary(parsed),
        }
    }

    /// The entry of a manifest document that arrives now.
    pub fn from_parsed_json(
        parsed: &Json,
        content_type: String,
        body: Vec<u8>,
        referenced_blobs: Vec<Digest>,
    ) -> (r: Self)
        ensures
            r@ == parsed_entry(
                parsed@,
                content_type@,
                body@,
                referenced_blobs.deep_view(),
                r.created_at,
            ),
    {
        let now: u64 = now_epoch();
        Self::from_parsed_json_at(parsed, content_type, body, referenced_blobs, now)
    }
}

} // verus!
