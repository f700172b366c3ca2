//! Which manifests refer to another.
use super::reply::{Reply, ReplyView};
use crate::clones::clone_option;
use crate::oci::json::{Json, JsonView};
use crate::store::metadata::types::{ReferrerEntry, ReferrerEntryView};
use vstd::prelude::*;

verus! {

/// A manifest in an index of referrers.
#[derive(Debug)]
pub struct ReferrerDescriptor {
    pub media_type: String,
    pub digest: String,
    pub size: u64,
    pub artifact_type: Option<String>,
    pub annotations: Option<Json>,
}

/// What a `ReferrerDescriptor` holds.
#[verifier::ext_equal]
pub struct ReferrerDescriptorView {
    pub media_type: Seq<char>,
    pub digest: Seq<char>,
    pub size: u64,
    pub artifact_type: Option<Seq<char>>,
    pub annotations: Option<JsonView>,
}

impl View for ReferrerDescriptor {
    type V = ReferrerDescriptorView;

    open spec fn view(&self) -> ReferrerDescriptorView {
        ReferrerDescriptorView {
            media_type: self.media_type@,
            digest: self.digest@,
            size: self.size,
            artifact_type: self.artifact_type.deep_view(),
            annotations: self.annotations.deep_view(),
        }
    }
}

impl DeepView for ReferrerDescriptor {
    type V = ReferrerDescriptorView;

    open spec fn deep_view(&self) -> ReferrerDescriptorView {
        self@
    }
}

/// How a referrer stands in an index.
pub open spec fn descriptor_of(e: ReferrerEntryView) -> ReferrerDescriptorView {
    ReferrerDescriptorView {
        media_type: e.media_type,
        digest: e.digest,
        size: e.size,
        artifact_type: e.artifact_type,
        annotations: e.annotations,
    }
}

/// The manifests of an index of referrers.
pub fn referrer_manifests(entries: &Vec<ReferrerEntry>) -> (r: Vec<ReferrerDescriptor>)
    ensures
        r.deep_view() == entries.deep_view().map_values(|e: ReferrerEntryView| descriptor_of(e)),
{
    let mut r: Vec<ReferrerDescriptor> = Vec::new();
    let mut i: usize = 0;
    while i < entries.len()
        invariant
            i <= entries@.len(),
            r@.len() == i,
            forall|j: int| 0 <= j < i ==> (#[trigger] r@[j])@ == descriptor_of(entries@[j]@),
        decreases entries@.len() - i,
    {
        let e = &entries[i];
        r.push(
            ReferrerDescriptor {
                media_type: e.media_type.clone(),
                digest: e.digest.to_string(),
                size: e.size,
                artifact_type: clone_option(&e.artifact_type),
                annotations: clone_option(&e.annotations),
            },
        );
        i = i + 1;
    }
    assert(r.deep_view() =~= entries.deep_view().map_values(
        |e: ReferrerEntryView| descriptor_of(e),
    ));
    r
}

/// The head of an answer with referrers. It says whether they were filtered.
pub fn referrers_reply(filtered: bool) -> (r: Reply)
    ensures
        r@ == {
            let plain = ReplyView::bare(200).with(
                "content-type"@,
                "application/vnd.oci.image.index.v1+json"@,
            );
            if filtered {
                plain.with("oci-filters-applied"@, "artifactType"@)
            } else {
                plain
            }
        },
{
    let plain = Reply::bare(200).with("content-type", "application/vnd.oci.image.index.v1+json");
    if filtered {
        plain.with("oci-filters-applied", "artifactType")
    } else {
        plain
    }
}

} // verus!
