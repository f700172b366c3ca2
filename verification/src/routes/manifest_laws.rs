//! How manifests and repositories are read, stored and deleted, told by what was asked and
//! what there is.
use super::blob_laws::has_header;
use super::manifests::{
    delete_target, dispatch, first_absent, head_parts, manifest_entry, overwrite_check,
    pulled_parts, put_manifest, read_manifest, resolve_step, respond_manifest, stored_reply,
    unique_digests, validated_parts, ManifestCall, ManifestHead, ManifestResponseParts, ResolveStep,
};
use super::referrers::{referrer_manifests, referrers_reply, ReferrerDescriptor};
use super::reply::Reply;
use super::repositories::{
    create_repository, find_manifest, first_no_digest, last_text, manifest_access,
    manifest_position, parse_digests, patch_repository, raw_manifest, read_target,
    repository_dispatch, require_caller, tag_deleted, RepositoryCall,
};
use crate::auth::grants::{GrantSource, RepositoryAction};
use crate::auth::token::AuthIdentity;
use crate::error::LayerhouseError;
use crate::oci::digest::{is_digest, sha256_name, Digest};
use crate::oci::json::{json_document, json_error, Json};
use crate::oci::manifest::{artifact_type, referenced_digests, subject_digest};
use crate::store::metadata::types::{
    ManifestEntry, ManifestSummary, ManifestSummaryView, ReferrerEntry, Repository, Visibility,
};
use crate::text::{
    decimal_text, joined, lemma_join_split, lemma_split_concat, lemma_split_single,
    lemma_without_repeats, split_on, trimmed, without_trailing,
};
use super::paths::percent_decoded;
use vstd::prelude::*;

verus! {

// ── Reading ──────────────────────────────────────────────────────────────

/// A manifest can be read, asked for, stored and deleted, each by its method, and by no
/// other.
pub proof fn lemma_methods_of_manifests(method: &str, r: Result<ManifestCall, LayerhouseError>)
    requires
        call_ensures(dispatch, (method,), r),
    ensures
        r is Err <==> method@ != "GET"@ && method@ != "HEAD"@ && method@ != "PUT"@ && method@
            != "DELETE"@,
        r matches Ok(call) ==> {
            &&& call is Get <==> method@ == "GET"@
            &&& call is Head <==> method@ == "HEAD"@
            &&& call is Put <==> method@ == "PUT"@
            &&& call is Delete <==> method@ == "DELETE"@
        },
{
    reveal_strlit("GET");
    reveal_strlit("HEAD");
    reveal_strlit("PUT");
    reveal_strlit("DELETE");
    assert("GET"@[0] == 'G' && "HEAD"@[0] == 'H' && "PUT"@[0] == 'P' && "DELETE"@[0] == 'D');
}

/// What is stored is checked; what is not is fetched where its bytes are wanted, and else
/// only asked for.
pub proof fn lemma_where_a_manifest_comes_from(stored: bool, include_body: bool, r: ResolveStep)
    requires
        call_ensures(resolve_step, (stored, include_body), r),
    ensures
        r is Validate <==> stored,
        r is Pull <==> !stored && include_body,
        r is AskUpstream <==> !stored && !include_body,
{
}

/// Whether a client is told of a manifest as it is stored, with its bytes where they are
/// wanted.
pub open spec fn tells_entry(
    r: ManifestResponseParts,
    e: ManifestEntry,
    include_body: bool,
) -> bool {
    &&& r.content_type@ == e.content_type@
    &&& r.digest@ == e.digest@
    &&& r.content_length == Some(e.body@.len() as u64)
    &&& include_body ==> (r.body matches Some(b) && b@ == e.body@)
    &&& !include_body ==> r.body is None
}

/// A client is told of the manifest that replaced the stored one, and else of that one;
/// of a fetched one with its bytes; of one that upstream tells of, what upstream tells;
/// and that there is none where there is none.
pub proof fn lemma_what_a_client_is_told(
    entry: ManifestEntry,
    replacement: Option<ManifestEntry>,
    head: Option<ManifestHead>,
    reference: &str,
    include_body: bool,
    validated: ManifestResponseParts,
    pulled: Result<ManifestResponseParts, LayerhouseError>,
    asked: Result<ManifestResponseParts, LayerhouseError>,
)
    requires
        call_ensures(validated_parts, (entry, replacement, include_body), validated),
        call_ensures(pulled_parts, (replacement, reference), pulled),
        call_ensures(head_parts, (head, reference), asked),
    ensures
        replacement is None ==> tells_entry(validated, entry, include_body),
        replacement matches Some(newer) ==> tells_entry(validated, newer, include_body),
        replacement matches Some(newer) ==> (pulled matches Ok(p) && tells_entry(p, newer, true)),
        replacement is None ==> (pulled matches Err(LayerhouseError::ManifestUnknown(t)) && t@
            == reference@),
        head matches Some(h) ==> (asked matches Ok(p) && p.content_type@ == h.content_type@
            && p.digest@ == h.digest@ && p.content_length == h.content_length && p.body is None),
        head is None ==> (asked matches Err(LayerhouseError::ManifestUnknown(t)) && t@
            == reference@),
{
    assert(entry.body.deep_view() =~= entry.body@);
    if let Some(newer) = replacement {
        assert(newer.body.deep_view() =~= newer.body@);
        assert(newer@.body == newer.body@);
        if let Ok(p) = pulled {
            assert(p@.body is Some);
            assert(p.body is Some);
        }
    }
    assert(entry@.body == entry.body@);
    assert(validated@.body is Some <==> validated.body is Some);
}

/// The headers of an answer with a manifest tell its type and digest, and its length where
/// that is known.
pub proof fn lemma_headers_of_a_manifest(parts: &ManifestResponseParts, r: Reply)
    requires
        call_ensures(respond_manifest, (parts,), r),
    ensures
        r.status == 200,
        has_header(r, "content-type"@, parts.content_type@),
        has_header(r, "docker-content-digest"@, parts.digest@),
        parts.content_length matches Some(n) ==> has_header(
            r,
            "content-length"@,
            decimal_text(n as nat),
        ),
{
    lemma_view_header(r, 0);
    lemma_view_header(r, 1);
    if parts.content_length is Some {
        lemma_view_header(r, 2);
    }
}

proof fn lemma_view_header(r: Reply, i: int)
    requires
        0 <= i < r@.headers.len(),
    ensures
        has_header(r, r@.headers[i].0, r@.headers[i].1),
{
    assert(r@.headers == r.headers.deep_view());
    assert(r.headers.deep_view()[i] == (r.headers@[i].0@, r.headers@[i].1@));
}

// ── Storing ──────────────────────────────────────────────────────────────

/// Whether manifests of a type are stored.
pub open spec fn is_stored_type(t: Seq<char>) -> bool {
    t == "application/vnd.oci.image.manifest.v1+json"@ || t
        == "application/vnd.oci.image.index.v1+json"@ || t
        == "application/vnd.docker.distribution.manifest.v2+json"@ || t
        == "application/vnd.docker.distribution.manifest.list.v2+json"@
}

/// A manifest is read where its type is one that is stored and its bytes are a JSON
/// document; one without a type is an image manifest of OCI.
pub proof fn lemma_which_manifests_are_read(
    content_type: Option<&str>,
    body: &[u8],
    r: Result<(String, Json), LayerhouseError>,
)
    requires
        call_ensures(read_manifest, (content_type, body), r),
    ensures
        ({
            let media_type = match content_type {
                Some(t) => t@,
                None => "application/vnd.oci.image.manifest.v1+json"@,
            };
            &&& r is Ok <==> is_stored_type(media_type) && json_document(body@) is Some
            &&& r matches Ok((t, doc)) ==> t@ == media_type && json_document(body@) == Some(doc@)
            &&& !is_stored_type(media_type) ==> (
            r matches Err(LayerhouseError::ManifestInvalid(t)) && t@ == "unsupported media type: "@
                + media_type)
            &&& is_stored_type(media_type) && json_document(body@) is None ==> (
            r matches Err(LayerhouseError::ManifestInvalid(t)) && t@ == "invalid JSON: "@
                + json_error(body@))
        }),
{
}

/// The right to replace a manifest is checked where rights are checked at all and there is
/// one; nobody replaces one without being known.
pub proof fn lemma_who_may_replace(
    auth_enabled: bool,
    taken: bool,
    has_identity: bool,
    r: Result<bool, LayerhouseError>,
)
    requires
        call_ensures(overwrite_check, (auth_enabled, taken, has_identity), r),
    ensures
        r is Err <==> auth_enabled && taken && !has_identity,
        r matches Ok(check) ==> (check <==> auth_enabled && taken),
        r matches Err(e) ==> (e matches LayerhouseError::Unauthorized { message, .. } && message@
            == "authentication required"@),
{
}

/// Each digest of a list is kept once.
pub proof fn lemma_digests_are_kept_once(digests: Vec<Digest>, r: Vec<Digest>, d: Seq<char>)
    requires
        call_ensures(unique_digests, (digests,), r),
    ensures
        r.deep_view().contains(d) <==> digests.deep_view().contains(d),
        r.deep_view().no_duplicates(),
{
    lemma_without_repeats(digests.deep_view());
}

/// Whether a blob of a manifest is known to be there.
pub open spec fn is_present(present: Seq<bool>, i: int) -> bool {
    i < present.len() && present[i]
}

proof fn lemma_first_absent(n: int, present: Seq<bool>, from: int)
    requires
        0 <= from <= n,
    ensures
        from <= first_absent(n, present, from) <= n,
        forall|i: int|
            from <= i < first_absent(n, present, from) ==> #[trigger] is_present(present, i),
        first_absent(n, present, from) < n ==> !is_present(
            present,
            first_absent(n, present, from),
        ),
    decreases n - from,
{
    if from < n && from < present.len() && present[from] {
        lemma_first_absent(n, present, from + 1);
    }
}

/// A manifest is stored exactly where it can be read, every blob that it refers to is
/// there, and nothing speaks against it. It is stored under the digest of its bytes, with
/// the type that it came with; the answer names the digest, where it is, and the subject
/// that was understood.
pub proof fn lemma_which_manifests_are_stored(
    name: &str,
    content_type: Option<&str>,
    body: Vec<u8>,
    present: &Vec<bool>,
    refusal: Option<LayerhouseError>,
    now: u64,
    r: Result<(ManifestEntry, Reply), LayerhouseError>,
)
    requires
        call_ensures(put_manifest, (name, content_type, body, present, refusal, now), r),
    ensures
        ({
            let media_type = match content_type {
                Some(t) => t@,
                None => "application/vnd.oci.image.manifest.v1+json"@,
            };
            let readable = is_stored_type(media_type) && json_document(body@) is Some;
            let doc = json_document(body@)->0;
            let blobs = referenced_digests(doc);
            let complete = forall|i: int|
                0 <= i < blobs.len() ==> #[trigger] is_present(present@, i);
            &&& r is Ok <==> readable && complete && refusal is None
            &&& readable && complete ==> (refusal matches Some(e) ==> (r matches Err(x) && x@ == e@))
            &&& readable && !complete ==> (r matches Err(LayerhouseError::ManifestBlobUnknown(d))
                && exists|i: int|
                0 <= i < blobs.len() && !is_present(present@, i) && #[trigger] blobs[i] == d@)
            &&& r matches Ok((entry, reply)) ==> {
                &&& entry.body@ == body@
                &&& entry.digest@ == sha256_name(body@)
                &&& entry.content_type@ == media_type
                &&& entry.subject.deep_view() == subject_digest(doc)
                &&& entry.artifact_type.deep_view() == artifact_type(doc)
                &&& entry.created_at == now && entry.last_modified == now
                &&& entry.manifest_size_bytes == body@.len() as u64
                &&& forall|d: Seq<char>| #[trigger]
                    entry.referenced_blobs.deep_view().contains(d) <==> blobs.contains(d)
                &&& reply.status == 201
                &&& has_header(reply, "docker-content-digest"@, sha256_name(body@))
                &&& has_header(
                    reply,
                    "location"@,
                    "/v2/"@ + name@ + "/manifests/"@ + sha256_name(body@),
                )
                &&& subject_digest(doc) matches Some(s) ==> has_header(reply, "oci-subject"@, s)
            }
        }),
{
    let doc = json_document(body@)->0;
    let blobs = referenced_digests(doc);
    lemma_first_absent(blobs.len() as int, present@, 0);
    let p = first_absent(blobs.len() as int, present@, 0);
    lemma_without_repeats(blobs);
    if p < blobs.len() {
        assert(!is_present(present@, p));
    }
    if let Ok((entry, reply)) = r {
        assert(entry.body.deep_view() =~= entry.body@);
        assert(entry@.body == entry.body@);
        assert(entry@.referenced_blobs == entry.referenced_blobs.deep_view());
        lemma_view_header(reply, 0);
        lemma_view_header(reply, 1);
        if subject_digest(doc) is Some {
            lemma_view_header(reply, 2);
        }
    }
}

/// The answer once a manifest is stored names it, where it is, and its subject.
pub proof fn lemma_answer_to_a_push(name: &str, digest: &Digest, subject: &Option<Digest>, r: Reply)
    requires
        call_ensures(stored_reply, (name, digest, subject), r),
    ensures
        r.status == 201,
        has_header(r, "location"@, "/v2/"@ + name@ + "/manifests/"@ + digest@),
        has_header(r, "docker-content-digest"@, digest@),
        subject matches Some(s) ==> has_header(r, "oci-subject"@, s@),
{
    lemma_view_header(r, 0);
    lemma_view_header(r, 1);
    if subject is Some {
        assert(subject.deep_view() is Some);
        lemma_view_header(r, 2);
    }
}

/// A manifest is deleted by its digest only.
pub proof fn lemma_manifests_are_deleted_by_digest(
    reference: &str,
    r: Result<Digest, LayerhouseError>,
)
    requires
        call_ensures(delete_target, (reference,), r),
    ensures
        r is Ok <==> is_digest(reference@),
        r matches Ok(d) ==> d@ == reference@,
        r matches Err(e) ==> e is Unsupported,
{
}

// ── Referrers ────────────────────────────────────────────────────────────

/// An index of referrers lists each of them, in order, with what is known of it; the
/// answer says that they were filtered exactly where they were.
pub proof fn lemma_index_of_referrers(
    entries: &Vec<ReferrerEntry>,
    filtered: bool,
    r: Vec<ReferrerDescriptor>,
    reply: Reply,
    i: int,
)
    requires
        call_ensures(referrer_manifests, (entries,), r),
        call_ensures(referrers_reply, (filtered,), reply),
    ensures
        r@.len() == entries@.len(),
        0 <= i < entries@.len() ==> {
            &&& r@[i].digest@ == entries@[i].digest@
            &&& r@[i].media_type@ == entries@[i].media_type@
            &&& r@[i].size == entries@[i].size
            &&& r@[i].artifact_type.deep_view() == entries@[i].artifact_type.deep_view()
            &&& r@[i].annotations.deep_view() == entries@[i].annotations.deep_view()
        },
        reply.status == 200,
        has_header(reply, "content-type"@, "application/vnd.oci.image.index.v1+json"@),
        filtered ==> has_header(reply, "oci-filters-applied"@, "artifactType"@),
        !filtered ==> reply.headers@.len() == 1,
{
    assert(r.deep_view().len() == r@.len());
    assert(entries.deep_view().len() == entries@.len());
    if 0 <= i < entries@.len() {
        assert(r.deep_view()[i] == r@[i]@);
        assert(entries.deep_view()[i] == entries@[i]@);
    }
    lemma_view_header(reply, 0);
    if filtered {
        lemma_view_header(reply, 1);
    } else {
        assert(reply@.headers.len() == reply.headers@.len());
    }
}

// ── Calls on repositories ────────────────────────────────────────────────

/// The last position of a text is where it stands and stands nowhere after.
proof fn lemma_last_text_is(parts: Seq<Seq<char>>, text: Seq<char>, to: int, p: int)
    requires
        0 <= p < to <= parts.len(),
        parts[p] == text,
        forall|i: int| p < i < to ==> #[trigger] parts[i] != text,
    ensures
        last_text(parts, text, to) == p,
    decreases to,
{
    if p < to - 1 {
        assert(parts[to - 1] != text);
        lemma_last_text_is(parts, text, to - 1, p);
    }
}

proof fn lemma_no_last_text(parts: Seq<Seq<char>>, text: Seq<char>, to: int)
    requires
        0 <= to <= parts.len(),
    ensures
        last_text(parts, text, to) < 0 <==> forall|i: int|
            0 <= i < to ==> #[trigger] parts[i] != text,
    decreases to,
{
    if to > 0 {
        lemma_no_last_text(parts, text, to - 1);
    }
}

/// The parts of a path below the manifests of a repository.
proof fn lemma_parts_of_a_path(name: Seq<char>, tail: Seq<char>)
    requires
        !tail.contains('/'),
    ensures
        ({
            let parts = split_on(name, '/');
            &&& split_on(name + "/manifests"@, '/') == parts.push("manifests"@)
            &&& split_on(name + "/manifests/"@ + tail, '/') == parts.push("manifests"@).push(tail)
            &&& joined(parts, "/"@) == name
        }),
{
    reveal_strlit("/manifests");
    reveal_strlit("/manifests/");
    reveal_strlit("manifests");
    reveal_strlit("/");
    let m = "manifests"@;
    let parts = split_on(name, '/');
    assert("/"@ =~= seq!['/']);
    assert("/manifests"@ =~= seq!['/'] + m);
    assert("/manifests/"@ =~= seq!['/'] + m + seq!['/']);
    assert(!m.contains('/')) by {
        assert(m =~= seq!['m', 'a', 'n', 'i', 'f', 'e', 's', 't', 's']);
    }
    lemma_split_single(m, '/');
    lemma_split_single(tail, '/');
    lemma_split_concat(name, m, '/');
    assert(name + "/manifests"@ =~= name + seq!['/'] + m);
    assert(parts + seq![m] =~= parts.push(m));
    lemma_split_concat(name + "/manifests"@, tail, '/');
    assert(name + "/manifests/"@ + tail =~= name + "/manifests"@ + seq!['/'] + tail);
    assert(parts.push(m) + seq![tail] =~= parts.push(m).push(tail));
    lemma_join_split(name, '/');
}

/// Under the manifests of a repository they are listed; under the digest of one it is read
/// or deleted, by its method. Whatever is read, the right to pull from that repository is
/// asked for.
pub proof fn lemma_calls_on_manifests(
    method: &str,
    list_path: &str,
    item_path: &str,
    name: Seq<char>,
    digest: Seq<char>,
    listed: Result<RepositoryCall, LayerhouseError>,
    item: Result<RepositoryCall, LayerhouseError>,
    list_target: Option<String>,
    item_target: Option<String>,
)
    requires
        list_path@ == name + "/manifests"@,
        item_path@ == name + "/manifests/"@ + digest,
        digest.len() > 0,
        !digest.contains('/'),
        digest != "manifests"@,
        call_ensures(repository_dispatch, (method, list_path), listed),
        call_ensures(repository_dispatch, (method, item_path), item),
        call_ensures(read_target, (method, list_path), list_target),
        call_ensures(read_target, (method, item_path), item_target),
        method@ == "GET"@ || method@ == "DELETE"@,
    ensures
        method@ == "GET"@ ==> {
            &&& listed matches Ok(RepositoryCall::ListManifests { name: n }) && n@ == name
            &&& item matches Ok(RepositoryCall::GetManifest { name: n, digest: d }) && n@ == name
                && d@ == digest
            &&& list_target matches Some(t) && t@ == name
            &&& item_target matches Some(t) && t@ == name
        },
        method@ == "DELETE"@ ==> {
            &&& item matches Ok(RepositoryCall::DeleteManifest { name: n, digest: d }) && n@ == name
                && d@ == digest
            &&& list_target is None && item_target is None
        },
{
    reveal_strlit("GET");
    reveal_strlit("DELETE");
    reveal_strlit("POST");
    reveal_strlit("PATCH");
    reveal_strlit("/manifests");
    assert("GET"@[0] == 'G' && "DELETE"@[0] == 'D' && "POST"@[0] == 'P' && "PATCH"@[0] == 'P');
    lemma_parts_of_a_path(name, digest);
    let m = "manifests"@;
    let parts = split_on(name, '/');
    let n = parts.len() as int;
    assert(list_path@.last() == 's') by {
        assert(list_path@.last() == "/manifests"@[9]);
    }
    assert(without_trailing(list_path@, '/') == list_path@);
    assert(item_path@.last() == digest.last());
    assert(digest.contains(digest.last()));
    assert(without_trailing(item_path@, '/') == item_path@);
    let a = split_on(list_path@, '/');
    let b = split_on(item_path@, '/');
    assert(a == parts.push(m));
    assert(b == parts.push(m).push(digest));
    assert(a[n] == m && b[n] == m && b[n + 1] == digest);
    lemma_last_text_is(a, m, a.len() as int, n);
    lemma_last_text_is(b, m, b.len() as int, n);
    assert(a.contains(m) && b.contains(m));
    assert(a.take(n) =~= parts && b.take(n) =~= parts);
    assert(a.skip(n + 1) =~= Seq::<Seq<char>>::empty());
    assert(b.skip(n + 1) =~= seq![digest]);
    assert(list_target.deep_view() is Some <==> list_target is Some);
    assert(item_target.deep_view() is Some <==> item_target is Some);
}

/// A repository whose path goes nowhere below is changed or deleted, by its method.
pub proof fn lemma_calls_on_a_repository(
    method: &str,
    path: &str,
    r: Result<RepositoryCall, LayerhouseError>,
)
    requires
        call_ensures(repository_dispatch, (method, path), r),
        path@.len() > 0 ==> path@.last() != '/',
        !split_on(path@, '/').contains("manifests"@),
    ensures
        method@ == "PATCH"@ ==> (r matches Ok(RepositoryCall::Patch { name }) && name@ == path@),
        method@ == "DELETE"@ ==> (r matches Ok(RepositoryCall::DeleteRepository { name }) && name@
            == path@),
        method@ == "GET"@ ==> (r matches Err(LayerhouseError::NameUnknown(t)) && t@ == path@),
{
    reveal_strlit("GET");
    reveal_strlit("DELETE");
    reveal_strlit("POST");
    reveal_strlit("PATCH");
    assert("GET"@[0] == 'G' && "DELETE"@[0] == 'D' && "POST"@[1] == 'O' && "PATCH"@[1] == 'A'
        && "POST"@[0] == 'P' && "PATCH"@[0] == 'P');
    let parts = split_on(path@, '/');
    assert(without_trailing(path@, '/') == path@);
    lemma_no_last_text(parts, "manifests"@, parts.len() as int);
    assert forall|i: int| 0 <= i < parts.len() implies #[trigger] parts[i] != "manifests"@ by {
        assert(parts.contains(parts[i]));
    }
}

// ── Creating and changing ────────────────────────────────────────────────

/// Where rights are checked, a request comes from somebody who is known, and else it is
/// refused; where they are not, nobody has to be known.
pub proof fn lemma_who_calls(
    auth_enabled: bool,
    identity: &Option<AuthIdentity>,
    r: Result<Option<String>, LayerhouseError>,
)
    requires
        call_ensures(require_caller, (auth_enabled, identity), r),
    ensures
        r is Err <==> auth_enabled && identity is None,
        !auth_enabled ==> r matches Ok(None),
        auth_enabled ==> (identity matches Some(i) ==> (r matches Ok(Some(s)) && s@ == i.subject@)),
{
    assert(identity.deep_view() is Some <==> identity is Some);
    if let Ok(s) = r {
        assert(s.deep_view() is Some <==> s is Some);
    }
}

/// A repository is created where there is none of the name, with what was asked for; what
/// is told of it is stored without white space around it.
pub proof fn lemma_repositories_are_created(
    name: String,
    description: &str,
    visibility: Visibility,
    created_by: Option<String>,
    taken: bool,
    now: u64,
    r: Result<Repository, LayerhouseError>,
)
    requires
        call_ensures(
            create_repository,
            (name, description, visibility, created_by, taken, now),
            r,
        ),
    ensures
        r is Err <==> taken,
        r matches Err(e) ==> e is Conflict,
        r matches Ok(repo) ==> {
            &&& repo.name@ == name@
            &&& repo.description@ == trimmed(description@)
            &&& repo.owner.deep_view() == created_by.deep_view()
            &&& repo.visibility == visibility
            &&& repo.created_at == now
        },
{
}

/// A change keeps what it does not name, and never the name, the owner or the time.
pub proof fn lemma_repositories_are_changed(
    existing: Option<Repository>,
    name: &str,
    description: Option<String>,
    visibility: Option<Visibility>,
    r: Result<Repository, LayerhouseError>,
)
    requires
        call_ensures(patch_repository, (existing, name, description, visibility), r),
    ensures
        r is Ok <==> existing is Some,
        r matches Err(e) ==> (e matches LayerhouseError::NameUnknown(t) && t@ == name@),
        existing matches Some(before) ==> (r matches Ok(repo) && {
            &&& repo.name@ == before.name@
            &&& repo.owner.deep_view() == before.owner.deep_view()
            &&& repo.created_at == before.created_at
            &&& description is None ==> repo.description@ == before.description@
            &&& description matches Some(d) ==> repo.description@ == trimmed(d@)
            &&& visibility is None ==> repo.visibility == before.visibility
            &&& visibility matches Some(v) ==> repo.visibility == v
        }),
{
}

proof fn lemma_first_no_digest(texts: Seq<Seq<char>>, from: int)
    requires
        0 <= from <= texts.len(),
    ensures
        from <= first_no_digest(texts, from) <= texts.len(),
        forall|i: int|
            from <= i < first_no_digest(texts, from) ==> is_digest(#[trigger] texts[i]),
        first_no_digest(texts, from) < texts.len() ==> !is_digest(
            texts[first_no_digest(texts, from)],
        ),
    decreases texts.len() - from,
{
    if from < texts.len() && is_digest(texts[from]) {
        lemma_first_no_digest(texts, from + 1);
    }
}

/// A list of digests is read where each text is one, in order; else the first that is none
/// is named.
pub proof fn lemma_lists_of_digests(texts: &Vec<String>, r: Result<Vec<Digest>, LayerhouseError>)
    requires
        call_ensures(parse_digests, (texts,), r),
    ensures
        r is Ok <==> forall|i: int|
            0 <= i < texts@.len() ==> is_digest((#[trigger] texts@[i])@),
        r matches Ok(digests) ==> digests.deep_view() == texts.deep_view(),
        r matches Err(e) ==> (e matches LayerhouseError::DigestInvalid(t) && !is_digest(t@)
            && texts.deep_view().contains(t@)),
{
    let all = texts.deep_view();
    lemma_first_no_digest(all, 0);
    let p = first_no_digest(all, 0);
    assert forall|i: int| 0 <= i < texts@.len() implies #[trigger] all[i] == texts@[i]@ by {}
    assert forall|i: int| 0 <= i < texts@.len() && p >= all.len() implies is_digest(
        (#[trigger] texts@[i])@,
    ) by {
        assert(all[i] == texts@[i]@);
    }
    if p < all.len() {
        assert(all[p] == texts@[p]@);
    }
}

/// A tag that was deleted is answered as done, and one that was not there as unknown.
pub proof fn lemma_answer_to_a_tag_deletion(
    deleted: bool,
    tag: &str,
    r: Result<u16, LayerhouseError>,
)
    requires
        call_ensures(tag_deleted, (deleted, tag), r),
    ensures
        deleted ==> r matches Ok(204),
        !deleted ==> (r matches Err(LayerhouseError::NameUnknown(t)) && t@ == tag@),
{
}

/// The document of a manifest is that of its bytes.
pub proof fn lemma_raw_manifest(
    entry: Option<ManifestEntry>,
    digest: &str,
    r: Result<Json, LayerhouseError>,
)
    requires
        call_ensures(raw_manifest, (entry, digest), r),
    ensures
        r is Ok <==> (entry matches Some(m) && json_document(m.body@) is Some),
        r matches Ok(doc) ==> json_document(entry->0.body@) == Some(doc@),
        entry is None ==> (r matches Err(LayerhouseError::ManifestUnknown(t)) && t@ == digest@),
{
    if let Some(m) = entry {
        assert(m.body.deep_view() =~= m.body@);
        assert(m@.body == m.body@);
    }
}

proof fn lemma_manifest_position(items: Seq<ManifestSummaryView>, digest: Seq<char>, from: int)
    requires
        0 <= from <= items.len(),
    ensures
        from <= manifest_position(items, digest, from) <= items.len(),
        manifest_position(items, digest, from) < items.len() ==> items[manifest_position(
            items,
            digest,
            from,
        )].digest == digest,
        forall|i: int|
            from <= i < manifest_position(items, digest, from) ==> (#[trigger] items[i]).digest
                != digest,
    decreases items.len() - from,
{
    if from < items.len() && items[from].digest != digest {
        lemma_manifest_position(items, digest, from + 1);
    }
}

/// A manifest is found by its digest exactly where it is there.
pub proof fn lemma_manifest_is_found(
    items: &Vec<ManifestSummary>,
    digest: &str,
    r: Result<&ManifestSummary, LayerhouseError>,
)
    requires
        call_ensures(find_manifest, (items, digest), r),
    ensures
        r is Ok <==> exists|i: int|
            0 <= i < items@.len() && (#[trigger] items@[i]).digest@ == digest@,
        r matches Ok(m) ==> m.digest@ == digest@ && items.deep_view().contains(m@),
        r matches Err(e) ==> (e matches LayerhouseError::ManifestUnknown(t) && t@ == digest@),
{
    let all = items.deep_view();
    lemma_manifest_position(all, digest@, 0);
    let p = manifest_position(all, digest@, 0);
    if p < all.len() {
        assert(all[p] == items@[p]@);
        assert(items@[p].digest@ == digest@);
        assert(all.contains(all[p]));
    }
    assert forall|i: int|
        0 <= i < items@.len() && (#[trigger] items@[i]).digest@ == digest@ implies p
        < all.len() by {
        assert(all[i] == items@[i]@);
    }
}

/// A caller is told where its access comes from and how far it may be passed on: what was
/// looked up, and everything where nobody has to log in.
pub proof fn lemma_access_to_manifests(
    checked: bool,
    found: Option<(RepositoryAction, GrantSource)>,
    r: (Option<GrantSource>, Option<RepositoryAction>),
)
    requires
        call_ensures(manifest_access, (checked, found), r),
    ensures
        !checked ==> r == (Some(GrantSource::Public), Some(RepositoryAction::Delete)),
        checked && found is None ==> r.0 is None && r.1 is None,
        checked ==> (found matches Some((action, source)) ==> r.0 == Some(source) && r.1 == Some(
            action,
        )),
{
}

/// A stored manifest is told with its bytes where they are asked for, and its length in any
/// case; of one that only upstream has, what upstream says is told.
pub proof fn lemma_parts_of_a_manifest(
    entry: ManifestEntry,
    include_body: bool,
    head: ManifestHead,
    stored: ManifestResponseParts,
    upstream: ManifestResponseParts,
)
    requires
        call_ensures(ManifestResponseParts::from_entry, (entry, include_body), stored),
        call_ensures(ManifestResponseParts::from_head, (head,), upstream),
    ensures
        tells_entry(stored, entry, include_body),
        upstream.content_type@ == head.content_type@,
        upstream.digest@ == head.digest@,
        upstream.content_length == head.content_length,
        upstream.body is None,
{
    assert(entry.body.deep_view() =~= entry.body@);
    assert(stored.body.deep_view() is Some <==> stored.body is Some);
    if let Some(b) = stored.body {
        assert(b.deep_view() =~= b@);
    }
}

/// A pushed manifest refers to each of its blobs once, and to no other.
pub proof fn lemma_entry_of_a_push(
    doc: &Json,
    media_type: String,
    body: Vec<u8>,
    now: u64,
    r: ManifestEntry,
    blob: Seq<char>,
)
    requires
        call_ensures(manifest_entry, (doc, media_type, body, now), r),
    ensures
        r@.body == body@ && r@.content_type == media_type@,
        r@.digest == sha256_name(body@),
        r@.created_at == now && r@.last_modified == now,
        r@.referenced_blobs.no_duplicates(),
        r@.referenced_blobs.contains(blob) <==> referenced_digests(doc@).contains(blob),
{
    lemma_without_repeats(referenced_digests(doc@));
}

/// The bytes of a manifest are read, its tags deleted and several manifests deleted at once
/// by the paths below its repository, and only by the method of each.
pub proof fn lemma_calls_below_a_manifest(
    method: &str,
    raw_path: &str,
    tag_path: &str,
    batch_path: &str,
    name: Seq<char>,
    digest: Seq<char>,
    tag: Seq<char>,
    raw: Result<RepositoryCall, LayerhouseError>,
    untag: Result<RepositoryCall, LayerhouseError>,
    batch: Result<RepositoryCall, LayerhouseError>,
)
    requires
        raw_path@ == name + "/manifests/"@ + digest + seq!['/'] + "raw"@,
        tag_path@ == name + "/manifests/"@ + digest + seq!['/'] + "tags"@ + seq!['/'] + tag,
        batch_path@ == name + "/manifests:batch-delete"@,
        digest.len() > 0 && tag.len() > 0,
        !digest.contains('/') && !tag.contains('/'),
        digest != "manifests"@ && tag != "manifests"@,
        call_ensures(repository_dispatch, (method, raw_path), raw),
        call_ensures(repository_dispatch, (method, tag_path), untag),
        call_ensures(repository_dispatch, (method, batch_path), batch),
    ensures
        method@ == "GET"@ ==> (raw matches Ok(RepositoryCall::RawManifest { name: n, digest: d })
            && n@ == name && d@ == digest) && untag is Err,
        method@ == "DELETE"@ ==> (untag matches Ok(
            RepositoryCall::DeleteTag { name: n, digest: d, tag: t },
        ) && n@ == name && d@ == digest && t@ == percent_decoded(tag)) && raw is Err,
        method@ == "POST"@ ==> (batch matches Ok(RepositoryCall::BatchDelete { name: n }) && n@
            == name),
        method@ == "PATCH"@ ==> raw is Err && untag is Err,
{
    reveal_strlit("GET");
    reveal_strlit("DELETE");
    reveal_strlit("POST");
    reveal_strlit("PATCH");
    reveal_strlit("raw");
    reveal_strlit("tags");
    reveal_strlit("manifests");
    reveal_strlit("/manifests:batch-delete");
    assert("GET"@[0] == 'G' && "DELETE"@[0] == 'D' && "POST"@[0] == 'P' && "PATCH"@[0] == 'P'
        && "POST"@[1] == 'O' && "PATCH"@[1] == 'A');
    assert("raw"@[0] == 'r' && "tags"@[0] == 't' && "manifests"@[0] == 'm');
    lemma_parts_of_a_path(name, digest);
    let m = "manifests"@;
    let parts = split_on(name, '/');
    let n = parts.len() as int;
    let item = name + "/manifests/"@ + digest;
    assert("raw"@ =~= seq!['r', 'a', 'w']);
    assert("tags"@ =~= seq!['t', 'a', 'g', 's']);
    lemma_split_single("raw"@, '/');
    lemma_split_single("tags"@, '/');
    lemma_split_single(tag, '/');
    lemma_split_concat(item, "raw"@, '/');
    lemma_split_concat(item, "tags"@, '/');
    lemma_split_concat(item + seq!['/'] + "tags"@, tag, '/');
    let a = split_on(raw_path@, '/');
    let b = split_on(tag_path@, '/');
    assert(a =~= parts.push(m).push(digest).push("raw"@));
    assert(b =~= parts.push(m).push(digest).push("tags"@).push(tag));
    assert(raw_path@.last() == 'w');
    assert(tag.contains(tag.last()));
    assert(tag_path@.last() == tag.last());
    assert(without_trailing(raw_path@, '/') == raw_path@);
    assert(without_trailing(tag_path@, '/') == tag_path@);
    assert(a[n] == m && a[n + 1] == digest && a[n + 2] == "raw"@);
    assert(b[n] == m && b[n + 1] == digest && b[n + 2] == "tags"@ && b[n + 3] == tag);
    lemma_last_text_is(a, m, a.len() as int, n);
    lemma_last_text_is(b, m, b.len() as int, n);
    assert(a.contains(m) && b.contains(m));
    assert(a.take(n) =~= parts && b.take(n) =~= parts);
    assert(a.skip(n + 1) =~= seq![digest, "raw"@]);
    assert(b.skip(n + 1) =~= seq![digest, "tags"@, tag]);
    let k = "/manifests:batch-delete"@.len() as int;
    assert(batch_path@.last() == "/manifests:batch-delete"@[k - 1]);
    assert(without_trailing(batch_path@, '/') == batch_path@);
    assert(batch_path@.skip(name.len() as int) =~= "/manifests:batch-delete"@);
    assert(batch_path@.take(batch_path@.len() - k) =~= name);
}

} // verus!
