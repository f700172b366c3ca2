//! How manifests are read, stored and deleted.
use super::reply::{Reply, ReplyView};
use crate::auth::middleware::{unauthorized, unauthorized_error};
use crate::error::{ErrorView, LayerhouseError};
use crate::oci::digest::{is_digest, sha256_name, Digest};
use crate::oci::json::{json_document, json_error, Json, JsonView};
use crate::oci::manifest::{
    extract_referenced_digests, is_manifest_media_type, manifest_media_type, referenced_digests,
};
use crate::store::metadata::entries::parsed_entry;
use crate::store::metadata::types::{ManifestEntry, ManifestEntryView};
use crate::text::{
    concat2, concat4, decimal, decimal_text, holds_text, str_equal, without_repeats,
};
use vstd::prelude::*;

verus! {

/// How many bytes a manifest may have.
pub const MAX_MANIFEST_BYTES: usize = 10485760;

// ── Calls ────────────────────────────────────────────────────────────────

/// What can be done with a manifest.
#[derive(Debug, Clone, Copy, PartialEq, Eq, Structural)]
pub enum ManifestCall {
    Get,
    Head,
    Put,
    Delete,
}

/// What a method does with a manifest.
pub open spec fn manifest_call_of(method: Seq<char>) -> Result<ManifestCall, ErrorView> {
    if method == "GET"@ {
        Ok(ManifestCall::Get)
    } else if method == "HEAD"@ {
        Ok(ManifestCall::Head)
    } else if method == "PUT"@ {
        Ok(ManifestCall::Put)
    } else if method == "DELETE"@ {
        Ok(ManifestCall::Delete)
    } else {
        Err(ErrorView::Unsupported("method not allowed"@))
    }
}

/// What a method does with a manifest.
pub fn dispatch(method: &str) -> (r: Result<ManifestCall, LayerhouseError>)
    ensures
        match r {
            Ok(call) => manifest_call_of(method@) == Ok::<_, ErrorView>(call),
            Err(e) => manifest_call_of(method@) == Err::<ManifestCall, _>(e@),
        },
{
    if str_equal(method, "GET") {
        Ok(ManifestCall::Get)
    } else if str_equal(method, "HEAD") {
        Ok(ManifestCall::Head)
    } else if str_equal(method, "PUT") {
        Ok(ManifestCall::Put)
    } else if str_equal(method, "DELETE") {
        Ok(ManifestCall::Delete)
    } else {
        Err(LayerhouseError::Unsupported("method not allowed".to_string()))
    }
}

// ── Reading ──────────────────────────────────────────────────────────────

/// What an upstream registry tells of a manifest without sending it.
#[derive(Debug, PartialEq, Eq)]
pub struct ManifestHead {
    pub content_type: String,
    pub digest: String,
    pub content_length: Option<u64>,
}

/// What a client is told of a manifest.
#[derive(Debug, PartialEq, Eq)]
pub struct ManifestResponseParts {
    pub content_type: String,
    pub digest: String,
    pub content_length: Option<u64>,
    pub body: Option<Vec<u8>>,
}

/// What a `ManifestResponseParts` holds.
#[verifier::ext_equal]
pub struct ManifestPartsView {
    pub content_type: Seq<char>,
    pub digest: Seq<char>,
    pub content_length: Option<u64>,
    pub body: Option<Seq<u8>>,
}

impl View for ManifestResponseParts {
    type V = ManifestPartsView;

    open spec fn view(&self) -> ManifestPartsView {
        ManifestPartsView {
            content_type: self.content_type@,
            digest: self.digest@,
            content_length: self.content_length,
            body: match self.body {
                Some(body) => Some(body@),
                None => None,
            },
        }
    }
}

/// What a client is told of a stored manifest.
pub open spec fn entry_parts(e: ManifestEntryView, include_body: bool) -> ManifestPartsView {
    ManifestPartsView {
        content_type: e.content_type,
        digest: e.digest,
        content_length: Some(e.body.len() as u64),
        body: if include_body {
            Some(e.body)
        } else {
            None
        },
    }
}

impl ManifestResponseParts {
    /// What a client is told of a stored manifest.
    pub fn from_entry(entry: ManifestEntry, include_body: bool) -> (r: Self)
        ensures
            r@ == entry_parts(entry@, include_body),
    {
        assert(entry.body.deep_view() =~= entry.body@);
        let content_length: u64 = entry.body.len() as u64;
        ManifestResponseParts {
            content_type: entry.content_type,
            digest: entry.digest.to_string(),
            content_length: Some(content_length),
            body: if include_body {
                Some(entry.body)
            } else {
                None
            },
        }
    }

    /// What a client is told of a manifest that only upstream has.
    pub fn from_head(head: ManifestHead) -> (r: Self)
        ensures
            r@ == (ManifestPartsView {
                content_type: head.content_type@,
                digest: head.digest@,
                content_length: head.content_length,
                body: None,
            }),
    {
        ManifestResponseParts {
            content_type: head.content_type,
            digest: head.digest,
            content_length: head.content_length,
            body: None,
        }
    }
}

/// What is done to answer a question for a manifest.
#[derive(Debug, Clone, Copy, PartialEq, Eq, Structural)]
pub enum ResolveStep {
    /// It is stored: see whether it is still current.
    Validate,
    /// Fetch it from upstream.
    Pull,
    /// Ask upstream about it.
    AskUpstream,
}

/// What is done to answer a question for a manifest.
pub fn resolve_step(stored: bool, include_body: bool) -> (r: ResolveStep)
    ensures
        r == (if stored {
            ResolveStep::Validate
        } else if include_body {
            ResolveStep::Pull
        } else {
            ResolveStep::AskUpstream
        }),
{
    if stored {
        ResolveStep::Validate
    } else if include_body {
        ResolveStep::Pull
    } else {
        ResolveStep::AskUpstream
    }
}

/// What a client is told of a stored manifest: the one that replaced it where it
/// was out of date, else itself.
pub fn validated_parts(
    entry: ManifestEntry,
    replacement: Option<ManifestEntry>,
    include_body: bool,
) -> (r: ManifestResponseParts)
    ensures
        r@ == (match replacement {
            Some(newer) => entry_parts(newer@, include_body),
            None => entry_parts(entry@, include_body),
        }),
{
    match replacement {
        Some(newer) => ManifestResponseParts::from_entry(newer, include_body),
        None => ManifestResponseParts::from_entry(entry, include_body),
    }
}

/// What a client is told once upstream was asked for a manifest.
pub fn pulled_parts(pulled: Option<ManifestEntry>, reference: &str) -> (r: Result<
    ManifestResponseParts,
    LayerhouseError,
>)
    ensures
        match pulled {
            Some(entry) => r matches Ok(parts) && parts@ == entry_parts(entry@, true),
            None => r matches Err(e) && e@ == ErrorView::ManifestUnknown(reference@),
        },
{
    match pulled {
        Some(entry) => Ok(ManifestResponseParts::from_entry(entry, true)),
        None => Err(LayerhouseError::ManifestUnknown(reference.to_string())),
    }
}

/// What a client is told once upstream was asked about a manifest.
pub fn head_parts(head: Option<ManifestHead>, reference: &str) -> (r: Result<
    ManifestResponseParts,
    LayerhouseError,
>)
    ensures
        match head {
            Some(h) => r matches Ok(parts) && parts@ == (ManifestPartsView {
                content_type: h.content_type@,
                digest: h.digest@,
                content_length: h.content_length,
                body: None,
            }),
            None => r matches Err(e) && e@ == ErrorView::ManifestUnknown(reference@),
        },
{
    match head {
        Some(h) => Ok(ManifestResponseParts::from_head(h)),
        None => Err(LayerhouseError::ManifestUnknown(reference.to_string())),
    }
}

/// The head of an answer with a manifest.
pub open spec fn manifest_head_of(parts: ManifestPartsView) -> ReplyView {
    let plain = ReplyView::bare(200).with("content-type"@, parts.content_type).with(
        "docker-content-digest"@,
        parts.digest,
    );
    match parts.content_length {
        Some(n) => plain.with("content-length"@, decimal_text(n as nat)),
        None => plain,
    }
}

/// The head of an answer with a manifest.
pub fn respond_manifest(parts: &ManifestResponseParts) -> (r: Reply)
    ensures
        r@ == manifest_head_of(parts@),
{
    let plain = Reply::bare(200).with("content-type", &parts.content_type).with(
        "docker-content-digest",
        &parts.digest,
    );
    match parts.content_length {
        Some(n) => plain.with("content-length", &decimal(n)),
        None => plain,
    }
}

// ── Storing ──────────────────────────────────────────────────────────────

/// The media type of a manifest that comes without one.
pub const DEFAULT_MANIFEST_TYPE: &'static str = "application/vnd.oci.image.manifest.v1+json";

/// The media type under which a manifest is stored.
pub open spec fn pushed_type(content_type: Option<Seq<char>>) -> Seq<char> {
    match content_type {
        Some(t) => t,
        None => DEFAULT_MANIFEST_TYPE@,
    }
}

/// What a pushed manifest is: its media type and document.
pub open spec fn pushed_document(content_type: Option<Seq<char>>, body: Seq<u8>) -> Result<
    (Seq<char>, JsonView),
    ErrorView,
> {
    let media_type = pushed_type(content_type);
    if !manifest_media_type(media_type) {
        Err(ErrorView::ManifestInvalid("unsupported media type: "@ + media_type))
    } else {
        match json_document(body) {
            Some(doc) => Ok((media_type, doc)),
            None => Err(ErrorView::ManifestInvalid("invalid JSON: "@ + json_error(body))),
        }
    }
}

/// What a pushed manifest is: its media type and document.
pub fn read_manifest(content_type: Option<&str>, body: &[u8]) -> (r: Result<
    (String, Json),
    LayerhouseError,
>)
    ensures
        ({
            let pushed = pushed_document(
                match content_type {
                    Some(t) => Some(t@),
                    None => None,
                },
                body@,
            );
            match r {
                Ok(x) => pushed == Ok::<_, ErrorView>((x.0@, x.1@)),
                Err(e) => pushed == Err::<(Seq<char>, JsonView), _>(e@),
            }
        }),
{
    let media_type = match content_type {
        Some(t) => t.to_string(),
        None => DEFAULT_MANIFEST_TYPE.to_string(),
    };
    if !is_manifest_media_type(&media_type) {
        return Err(
            LayerhouseError::ManifestInvalid(concat2("unsupported media type: ", &media_type)),
        );
    }
    match Json::parse(body) {
        Ok(doc) => Ok((media_type, doc)),
        Err(e) => Err(LayerhouseError::ManifestInvalid(concat2("invalid JSON: ", &e))),
    }
}

/// Whether the right to replace a manifest has to be checked when it is stored:
/// somebody else may have stored one under the reference since the request was
/// let in.
pub fn overwrite_check(auth_enabled: bool, taken: bool, has_identity: bool) -> (r: Result<
    bool,
    LayerhouseError,
>)
    ensures
        if auth_enabled && taken {
            if has_identity {
                r == Ok::<_, LayerhouseError>(true)
            } else {
                r matches Err(e) && e@ == unauthorized("authentication required"@)
            }
        } else {
            r == Ok::<_, LayerhouseError>(false)
        },
{
    if auth_enabled && taken {
        if has_identity {
            Ok(true)
        } else {
            Err(unauthorized_error("authentication required"))
        }
    } else {
        Ok(false)
    }
}

/// The digests of a list without those that occurred before.
pub fn unique_digests(digests: Vec<Digest>) -> (r: Vec<Digest>)
    ensures
        r.deep_view() == without_repeats(digests.deep_view()),
{
    let ghost all = digests.deep_view();
    let mut r: Vec<Digest> = Vec::new();
    let mut seen: Vec<String> = Vec::new();
    let mut i: usize = 0;
    assert(r.deep_view() =~= without_repeats(all.take(0)));
    assert(seen.deep_view() =~= without_repeats(all.take(0)));
    while i < digests.len()
        invariant
            all == digests.deep_view(),
            i <= digests@.len(),
            r.deep_view() == without_repeats(all.take(i as int)),
            seen.deep_view() == without_repeats(all.take(i as int)),
        decreases digests@.len() - i,
    {
        let ghost before = r.deep_view();
        assert(all.take(i + 1).drop_last() =~= all.take(i as int));
        assert(all.take(i + 1).last() == digests@[i as int]@);
        let text = digests[i].to_string();
        if !holds_text(&seen, &text) {
            r.push(digests[i].clone());
            seen.push(text);
            assert(r.deep_view() =~= before.push(digests@[i as int]@));
            assert(seen.deep_view() =~= before.push(digests@[i as int]@));
        }
        i = i + 1;
    }
    assert(all.take(all.len() as int) =~= all);
    r
}

/// The entry of a pushed manifest: it names its blobs once each and is stored
/// under the digest of its bytes.
pub fn manifest_entry(doc: &Json, media_type: String, body: Vec<u8>, now: u64) -> (r: ManifestEntry)
    ensures
        r@ == parsed_entry(
            doc@,
            media_type@,
            body@,
            without_repeats(referenced_digests(doc@)),
            now,
        ),
        r@.digest == sha256_name(body@),
{
    let referenced_blobs = unique_digests(extract_referenced_digests(doc));
    ManifestEntry::from_parsed_json_at(doc, media_type, body, referenced_blobs, now)
}

/// The answer once a manifest is stored.
pub open spec fn stored_head_of(
    name: Seq<char>,
    digest: Seq<char>,
    subject: Option<Seq<char>>,
) -> ReplyView {
    let plain = ReplyView::bare(201).with("location"@, "/v2/"@ + name + "/manifests/"@ + digest).with(
        "docker-content-digest"@,
        digest,
    );
    match subject {
        Some(s) => plain.with("oci-subject"@, s),
        None => plain,
    }
}

/// The answer once a manifest is stored. It names the subject, so that clients
/// know that the reference was understood.
pub fn stored_reply(name: &str, digest: &Digest, subject: &Option<Digest>) -> (r: Reply)
    ensures
        r@ == stored_head_of(name@, digest@, subject.deep_view()),
{
    let text = digest.to_string();
    let plain = Reply::bare(201).with("location", &concat4("/v2/", name, "/manifests/", &text)).with(
        "docker-content-digest",
        &text,
    );
    match subject {
        Some(s) => plain.with("oci-subject", &s.to_string()),
        None => plain,
    }
}

// ── Deleting ─────────────────────────────────────────────────────────────

/// The first position from `from` on of `n` at which a blob is not known to be
/// there, or the end.
pub open spec fn first_absent(n: int, present: Seq<bool>, from: int) -> int
    decreases n - from,
{
    if from < n && from < present.len() && present[from] {
        first_absent(n, present, from + 1)
    } else {
        from
    }
}

/// What comes of a pushed manifest: its entry and the answer, or why it is not
/// stored.
pub open spec fn push_outcome(
    name: Seq<char>,
    content_type: Option<Seq<char>>,
    body: Seq<u8>,
    present: Seq<bool>,
    refusal: Option<ErrorView>,
    now: u64,
) -> Result<(ManifestEntryView, ReplyView), ErrorView> {
    match pushed_document(content_type, body) {
        Err(e) => Err(e),
        Ok((media_type, doc)) => {
            let digests = referenced_digests(doc);
            let p = first_absent(digests.len() as int, present, 0);
            if p < digests.len() {
                Err(ErrorView::ManifestBlobUnknown(digests[p]))
            } else if refusal is Some {
                Err(refusal->0)
            } else {
                let entry = parsed_entry(doc, media_type, body, without_repeats(digests), now);
                Ok((entry, stored_head_of(name, sha256_name(body), entry.subject)))
            }
        },
    }
}

/// What comes of a pushed manifest: its entry and the answer, or why it is not
/// stored. `present` says which of the blobs that it refers to are there, and
/// `refusal` why the caller may not replace what is stored under the reference.
pub fn put_manifest(
    name: &str,
    content_type: Option<&str>,
    body: Vec<u8>,
    present: &Vec<bool>,
    refusal: Option<LayerhouseError>,
    now: u64,
) -> (r: Result<(ManifestEntry, Reply), LayerhouseError>)
    ensures
        ({
            let pushed = push_outcome(
                name@,
                match content_type {
                    Some(t) => Some(t@),
                    None => None,
                },
                body@,
                present@,
                match refusal {
                    Some(e) => Some(e@),
                    None => None,
                },
                now,
            );
            match r {
                Ok(x) => pushed == Ok::<_, ErrorView>((x.0@, x.1@)),
                Err(e) => pushed == Err::<(ManifestEntryView, ReplyView), _>(e@),
            }
        }),
{
    let (media_type, doc) = match read_manifest(content_type, body.as_slice()) {
        Ok(pushed) => pushed,
        Err(e) => return Err(e),
    };
    let digests = extract_referenced_digests(&doc);
    let ghost all = digests.deep_view();
    let mut i: usize = 0;
    while i < digests.len()
        invariant
            all == digests.deep_view(),
            i <= digests@.len(),
            first_absent(all.len() as int, present@, 0) == first_absent(
                all.len() as int,
                present@,
                i as int,
            ),
            pushed_document(
                match content_type {
                    Some(t) => Some(t@),
                    None => None,
                },
                body@,
            ) == Ok::<_, ErrorView>((media_type@, doc@)),
            all == referenced_digests(doc@),
        decreases digests@.len() - i,
    {
        assert(all[i as int] == digests@[i as int]@);
        if i >= present.len() || !present[i] {
            return Err(LayerhouseError::ManifestBlobUnknown(digests[i].to_string()));
        }
        i = i + 1;
    }
    if let Some(e) = refusal {
        return Err(e);
    }
    let entry = manifest_entry(&doc, media_type, body, now);
    let reply = stored_reply(name, &entry.digest, &entry.subject);
    Ok((entry, reply))
}

/// What is stored of a pushed manifest is what was pushed, under the digest that
/// the answer names.
pub proof fn lemma_push_stores_the_bytes(
    name: Seq<char>,
    content_type: Option<Seq<char>>,
    body: Seq<u8>,
    present: Seq<bool>,
    refusal: Option<ErrorView>,
    now: u64,
)
    ensures
        push_outcome(name, content_type, body, present, refusal, now) matches Ok((entry, reply)) ==> {
            &&& entry.body == body
            &&& entry.digest == sha256_name(body)
            &&& reply.status == 201
            &&& reply.headers.contains(("docker-content-digest"@, entry.digest))
        },
{
    let digest = sha256_name(body);
    let one = ReplyView::bare(201).with("location"@, "/v2/"@ + name + "/manifests/"@ + digest);
    let two = one.with("docker-content-digest"@, digest);
    assert(two.headers.last() == ("docker-content-digest"@, digest));
    assert(two.headers.contains(("docker-content-digest"@, digest)));
    if let Ok((entry, reply)) = push_outcome(name, content_type, body, present, refusal, now) {
        if let Some(s) = entry.subject {
            assert(two.with("oci-subject"@, s).headers[two.headers.len() - 1] == (
                "docker-content-digest"@,
                digest,
            ));
        }
    }
}

/// The digest of the manifest to delete. A tag cannot be deleted this way.
pub fn delete_target(reference: &str) -> (r: Result<Digest, LayerhouseError>)
    ensures
        match r {
            Ok(d) => is_digest(reference@) && d@ == reference@,
            Err(e) => !is_digest(reference@) && e@ == ErrorView::Unsupported(
                "tag deletion not supported"@,
            ),
        },
{
    match Digest::from_str_checked(reference) {
        Some(digest) => Ok(digest),
        None => Err(LayerhouseError::Unsupported("tag deletion not supported".to_string())),
    }
}

/// The answer once a manifest is deleted.
pub fn deleted_reply() -> (r: Reply)
    ensures
        r@ == ReplyView::bare(202),
{
    Reply::bare(202)
}

} // verus!
