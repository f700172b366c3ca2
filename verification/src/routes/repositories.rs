//! What the dashboard can do with repositories.
use super::paths::{percent_decode, percent_decoded};
use super::repository_names::{name_error, validate_repository_name};
use crate::auth::grants::{GrantSource, RepositoryAction};
use crate::auth::middleware::{unauthorized, unauthorized_error};
use crate::auth::token::{AuthIdentity, AuthIdentityView};
use crate::error::{ErrorView, LayerhouseError};
use crate::oci::digest::{is_digest, Digest};
use crate::oci::json::{json_document, json_error, Json};
use crate::store::metadata::types::{
    ManifestEntry, ManifestSummary, ManifestSummaryView, Repository, RepositoryView, Visibility,
};
use crate::text::{
    concat2, holds_text, join, joined, part_of, split, split_on, str_equal, strip_suffix, trim,
    trim_end_matches, trimmed, without_trailing,
};
use vstd::prelude::*;

verus! {

// ── Calls ────────────────────────────────────────────────────────────────

/// What a request to the dashboard does with a repository.
#[derive(Debug, PartialEq, Eq)]
pub enum RepositoryCall {
    BatchDelete { name: String },
    Patch { name: String },
    DeleteRepository { name: String },
    ListManifests { name: String },
    GetManifest { name: String, digest: String },
    DeleteManifest { name: String, digest: String },
    RawManifest { name: String, digest: String },
    DeleteTag { name: String, digest: String, tag: String },
}

/// What a `RepositoryCall` holds.
pub enum RepositoryCallView {
    BatchDelete { name: Seq<char> },
    Patch { name: Seq<char> },
    DeleteRepository { name: Seq<char> },
    ListManifests { name: Seq<char> },
    GetManifest { name: Seq<char>, digest: Seq<char> },
    DeleteManifest { name: Seq<char>, digest: Seq<char> },
    RawManifest { name: Seq<char>, digest: Seq<char> },
    DeleteTag { name: Seq<char>, digest: Seq<char>, tag: Seq<char> },
}

impl View for RepositoryCall {
    type V = RepositoryCallView;

    open spec fn view(&self) -> RepositoryCallView {
        match self {
            RepositoryCall::BatchDelete { name } => RepositoryCallView::BatchDelete { name: name@ },
            RepositoryCall::Patch { name } => RepositoryCallView::Patch { name: name@ },
            RepositoryCall::DeleteRepository { name } => RepositoryCallView::DeleteRepository {
                name: name@,
            },
            RepositoryCall::ListManifests { name } => RepositoryCallView::ListManifests {
                name: name@,
            },
            RepositoryCall::GetManifest { name, digest } => RepositoryCallView::GetManifest {
                name: name@,
                digest: digest@,
            },
            RepositoryCall::DeleteManifest { name, digest } => RepositoryCallView::DeleteManifest {
                name: name@,
                digest: digest@,
            },
            RepositoryCall::RawManifest { name, digest } => RepositoryCallView::RawManifest {
                name: name@,
                digest: digest@,
            },
            RepositoryCall::DeleteTag { name, digest, tag } => RepositoryCallView::DeleteTag {
                name: name@,
                digest: digest@,
                tag: tag@,
            },
        }
    }
}

/// The last position before `to` that holds a text, or -1.
pub open spec fn last_text(parts: Seq<Seq<char>>, text: Seq<char>, to: int) -> int
    decreases to,
{
    if to <= 0 {
        -1
    } else if parts[to - 1] == text {
        to - 1
    } else {
        last_text(parts, text, to - 1)
    }
}

/// What a request does with the manifests of a repository.
pub open spec fn manifests_call_of(method: Seq<char>, name: Seq<char>, tail: Seq<Seq<char>>) -> Result<
    RepositoryCallView,
    ErrorView,
> {
    if method == "GET"@ && tail.len() == 0 {
        Ok(RepositoryCallView::ListManifests { name })
    } else if method == "GET"@ && tail.len() == 1 {
        Ok(RepositoryCallView::GetManifest { name, digest: tail[0] })
    } else if method == "DELETE"@ && tail.len() == 1 {
        Ok(RepositoryCallView::DeleteManifest { name, digest: tail[0] })
    } else if method == "GET"@ && tail.len() == 2 && tail[1] == "raw"@ {
        Ok(RepositoryCallView::RawManifest { name, digest: tail[0] })
    } else if method == "DELETE"@ && tail.len() == 3 && tail[1] == "tags"@ {
        Ok(
            RepositoryCallView::DeleteTag { name, digest: tail[0], tag: percent_decoded(tail[2]) },
        )
    } else {
        Err(ErrorView::Unsupported("method not allowed"@))
    }
}

/// What a request to the dashboard does with a repository.
pub open spec fn repository_call_of(method: Seq<char>, raw_path: Seq<char>) -> Result<
    RepositoryCallView,
    ErrorView,
> {
    let path = without_trailing(raw_path, '/');
    let parts = split_on(path, '/');
    let p = last_text(parts, "manifests"@, parts.len() as int);
    if method == "POST"@ && "/manifests:batch-delete"@.is_suffix_of(path) {
        Ok(
            RepositoryCallView::BatchDelete {
                name: path.take(path.len() - "/manifests:batch-delete"@.len()),
            },
        )
    } else if method == "PATCH"@ && !parts.contains("manifests"@) {
        Ok(RepositoryCallView::Patch { name: path })
    } else if method == "DELETE"@ && !parts.contains("manifests"@) {
        Ok(RepositoryCallView::DeleteRepository { name: path })
    } else if p < 0 {
        Err(ErrorView::NameUnknown(path))
    } else {
        manifests_call_of(method, joined(parts.take(p), "/"@), parts.skip(p + 1))
    }
}

/// The last position that holds a text.
fn last_holding(parts: &Vec<String>, text: &str) -> (r: Option<usize>)
    ensures
        match r {
            Some(p) => p < parts@.len() && p == last_text(
                parts.deep_view(),
                text@,
                parts@.len() as int,
            ),
            None => last_text(parts.deep_view(), text@, parts@.len() as int) < 0,
        },
{
    let ghost all = parts.deep_view();
    let n: usize = parts.len();
    let mut to: usize = n;
    while to > 0
        invariant
            all == parts.deep_view(),
            n == parts@.len(),
            to <= n,
            last_text(all, text@, n as int) == last_text(all, text@, to as int),
        decreases to,
    {
        assert(all[to - 1] == parts@[to - 1]@);
        if str_equal(&parts[to - 1], text) {
            return Some(to - 1);
        }
        to = to - 1;
    }
    None
}

/// What a request does with the manifests of a repository.
fn manifests_call(method: &str, name: String, tail: &Vec<String>) -> (r: Result<
    RepositoryCall,
    LayerhouseError,
>)
    ensures
        match r {
            Ok(call) => manifests_call_of(method@, name@, tail.deep_view()) == Ok::<_, ErrorView>(
                call@,
            ),
            Err(e) => manifests_call_of(method@, name@, tail.deep_view()) == Err::<
                RepositoryCallView,
                _,
            >(e@),
        },
{
    let get = str_equal(method, "GET");
    let delete = str_equal(method, "DELETE");
    let ghost all = tail.deep_view();
    proof {
        reveal_strlit("GET");
        reveal_strlit("DELETE");
        assert("GET"@.len() == 3 && "DELETE"@.len() == 6);
        assert(forall|i: int| 0 <= i < all.len() ==> #[trigger] all[i] == tail@[i]@);
    }
    if get && tail.len() == 0 {
        Ok(RepositoryCall::ListManifests { name })
    } else if get && tail.len() == 1 {
        Ok(RepositoryCall::GetManifest { name, digest: tail[0].clone() })
    } else if delete && tail.len() == 1 {
        Ok(RepositoryCall::DeleteManifest { name, digest: tail[0].clone() })
    } else if get && tail.len() == 2 && str_equal(&tail[1], "raw") {
        Ok(RepositoryCall::RawManifest { name, digest: tail[0].clone() })
    } else if delete && tail.len() == 3 && str_equal(&tail[1], "tags") {
        Ok(
            RepositoryCall::DeleteTag {
                name,
                digest: tail[0].clone(),
                tag: percent_decode(&tail[2]),
            },
        )
    } else {
        Err(LayerhouseError::Unsupported("method not allowed".to_string()))
    }
}

/// What a request to the dashboard does with a repository.
pub fn repository_dispatch(method: &str, raw_path: &str) -> (r: Result<
    RepositoryCall,
    LayerhouseError,
>)
    ensures
        match r {
            Ok(call) => repository_call_of(method@, raw_path@) == Ok::<_, ErrorView>(call@),
            Err(e) => repository_call_of(method@, raw_path@) == Err::<RepositoryCallView, _>(e@),
        },
{
    let path = trim_end_matches(raw_path, '/');
    let parts = split(&path, '/');
    let ghost all = parts.deep_view();
    if str_equal(method, "POST") {
        if let Some(name) = strip_suffix(&path, "/manifests:batch-delete") {
            return Ok(RepositoryCall::BatchDelete { name });
        }
    }
    let below = holds_text(&parts, "manifests");
    if str_equal(method, "PATCH") && !below {
        return Ok(RepositoryCall::Patch { name: path });
    }
    if str_equal(method, "DELETE") && !below {
        return Ok(RepositoryCall::DeleteRepository { name: path });
    }
    match last_holding(&parts, "manifests") {
        None => Err(LayerhouseError::NameUnknown(path)),
        Some(p) => {
            let name = join(&part_of(&parts, 0, p), "/");
            let end: usize = parts.len();
            let tail = part_of(&parts, p + 1, end);
            proof {
                assert(all.subrange(0, p as int) =~= all.take(p as int));
                assert(all.subrange(p + 1, all.len() as int) =~= all.skip(p + 1));
            }
            manifests_call(method, name, &tail)
        },
    }
}

/// The repository that a request must be allowed to pull from.
pub open spec fn read_target_of(method: Seq<char>, raw_path: Seq<char>) -> Option<Seq<char>> {
    let parts = split_on(without_trailing(raw_path, '/'), '/');
    let p = last_text(parts, "manifests"@, parts.len() as int);
    if method == "GET"@ && p >= 0 {
        Some(joined(parts.take(p), "/"@))
    } else {
        None
    }
}

/// The repository that a request must be allowed to pull from before anything
/// of it is told.
pub fn read_target(method: &str, raw_path: &str) -> (r: Option<String>)
    ensures
        r.deep_view() == read_target_of(method@, raw_path@),
{
    let path = trim_end_matches(raw_path, '/');
    let parts = split(&path, '/');
    let ghost all = parts.deep_view();
    if !str_equal(method, "GET") {
        return None;
    }
    match last_holding(&parts, "manifests") {
        Some(p) => {
            assert(all.subrange(0, p as int) =~= all.take(p as int));
            Some(join(&part_of(&parts, 0, p), "/"))
        },
        None => None,
    }
}

/// Whatever a request reads of a repository, the right to pull from that
/// repository is asked for.
pub proof fn lemma_reads_are_checked(method: Seq<char>, raw_path: Seq<char>)
    ensures
        match repository_call_of(method, raw_path) {
            Ok(RepositoryCallView::ListManifests { name }) => read_target_of(method, raw_path)
                == Some(name),
            Ok(RepositoryCallView::GetManifest { name, .. }) => read_target_of(method, raw_path)
                == Some(name),
            Ok(RepositoryCallView::RawManifest { name, .. }) => read_target_of(method, raw_path)
                == Some(name),
            _ => true,
        },
{
    reveal_strlit("GET");
    reveal_strlit("DELETE");
}

// ── Creating and changing ────────────────────────────────────────────────

/// The name of a repository to create, without white space around it.
pub fn requested_name(name: &str) -> (r: Result<String, LayerhouseError>)
    ensures
        match r {
            Ok(n) => n@ == trimmed(name@) && name_error(trimmed(name@)) is None,
            Err(e) => name_error(trimmed(name@)) == Some(e@),
        },
{
    let name = trim(name);
    match validate_repository_name(&name) {
        Ok(_) => Ok(name),
        Err(e) => Err(e),
    }
}

/// Who is behind a request, where somebody has to be.
pub open spec fn caller_of(auth_enabled: bool, identity: Option<AuthIdentityView>) -> Result<
    Option<Seq<char>>,
    ErrorView,
> {
    if !auth_enabled {
        Ok(None)
    } else {
        match identity {
            Some(i) => Ok(Some(i.subject)),
            None => Err(unauthorized("authentication required"@)),
        }
    }
}

/// Who is behind a request, where somebody has to be. The caller must then be
/// allowed what it asks for.
pub fn require_caller(auth_enabled: bool, identity: &Option<AuthIdentity>) -> (r: Result<
    Option<String>,
    LayerhouseError,
>)
    ensures
        match r {
            Ok(s) => caller_of(auth_enabled, identity.deep_view()) == Ok::<_, ErrorView>(
                s.deep_view(),
            ),
            Err(e) => caller_of(auth_enabled, identity.deep_view()) == Err::<
                Option<Seq<char>>,
                _,
            >(e@),
        },
{
    if !auth_enabled {
        return Ok(None);
    }
    match identity {
        Some(i) => Ok(Some(i.subject.clone())),
        None => Err(unauthorized_error("authentication required")),
    }
}

/// A new repository. One that is there already is a conflict.
pub fn create_repository(
    name: String,
    description: &str,
    visibility: Visibility,
    created_by: Option<String>,
    taken: bool,
    now: u64,
) -> (r: Result<Repository, LayerhouseError>)
    ensures
        if taken {
            r matches Err(e) && e@ == ErrorView::Conflict("repository already exists: "@ + name@)
        } else {
            r matches Ok(repo) && repo@ == (RepositoryView {
                name: name@,
                description: trimmed(description@),
                owner: created_by.deep_view(),
                visibility,
                created_at: now,
            })
        },
{
    if taken {
        return Err(LayerhouseError::Conflict(concat2("repository already exists: ", &name)));
    }
    Ok(
        Repository {
            name,
            description: trim(description),
            owner: created_by,
            visibility,
            created_at: now,
        },
    )
}

/// A changed repository. What the request does not name stays as it is.
pub fn patch_repository(
    existing: Option<Repository>,
    name: &str,
    description: Option<String>,
    visibility: Option<Visibility>,
) -> (r: Result<Repository, LayerhouseError>)
    ensures
        match existing {
            None => r matches Err(e) && e@ == ErrorView::NameUnknown(name@),
            Some(old_repo) => r matches Ok(repo) && repo@ == (RepositoryView {
                description: match description {
                    Some(d) => trimmed(d@),
                    None => old_repo@.description,
                },
                visibility: match visibility {
                    Some(v) => v,
                    None => old_repo@.visibility,
                },
                ..old_repo@
            }),
        },
{
    let mut repo = match existing {
        Some(repo) => repo,
        None => return Err(LayerhouseError::NameUnknown(name.to_string())),
    };
    if let Some(d) = description {
        repo.description = trim(&d);
    }
    if let Some(v) = visibility {
        repo.visibility = v;
    }
    Ok(repo)
}

// ── Manifests ────────────────────────────────────────────────────────────

/// The first position from `from` on whose text is no digest, or the end.
pub open spec fn first_no_digest(texts: Seq<Seq<char>>, from: int) -> int
    decreases texts.len() - from,
{
    if from < texts.len() && is_digest(texts[from]) {
        first_no_digest(texts, from + 1)
    } else {
        from
    }
}

/// The digests that some texts name. The first text that names none is an error.
pub fn parse_digests(texts: &Vec<String>) -> (r: Result<Vec<Digest>, LayerhouseError>)
    ensures
        ({
            let all = texts.deep_view();
            let p = first_no_digest(all, 0);
            match r {
                Ok(digests) => p >= all.len() && digests.deep_view() == all,
                Err(e) => p < all.len() && e@ == ErrorView::DigestInvalid(all[p]),
            }
        }),
{
    let ghost all = texts.deep_view();
    let mut r: Vec<Digest> = Vec::new();
    let mut i: usize = 0;
    while i < texts.len()
        invariant
            all == texts.deep_view(),
            i <= texts@.len(),
            first_no_digest(all, 0) == first_no_digest(all, i as int),
            r@.len() == i,
            forall|j: int| 0 <= j < i ==> (#[trigger] r@[j])@ == all[j],
        decreases texts@.len() - i,
    {
        assert(all[i as int] == texts@[i as int]@);
        match Digest::from_str_checked(&texts[i]) {
            Some(digest) => r.push(digest),
            None => return Err(LayerhouseError::DigestInvalid(texts[i].clone())),
        }
        i = i + 1;
    }
    assert(r.deep_view() =~= all);
    Ok(r)
}

/// How the deletion of a tag is answered.
pub fn tag_deleted(deleted: bool, tag: &str) -> (r: Result<u16, LayerhouseError>)
    ensures
        if deleted {
            r == Ok::<u16, LayerhouseError>(204u16)
        } else {
            r matches Err(e) && e@ == ErrorView::NameUnknown(tag@)
        },
{
    if deleted {
        Ok(204)
    } else {
        Err(LayerhouseError::NameUnknown(tag.to_string()))
    }
}

/// The document of a stored manifest.
pub fn raw_manifest(entry: Option<ManifestEntry>, digest: &str) -> (r: Result<Json, LayerhouseError>)
    ensures
        match entry {
            None => r matches Err(e) && e@ == ErrorView::ManifestUnknown(digest@),
            Some(m) => match json_document(m@.body) {
                Some(doc) => r matches Ok(j) && j@ == doc,
                None => r matches Err(e) && e@ == ErrorView::Serialization(json_error(m@.body)),
            },
        },
{
    match entry {
        None => Err(LayerhouseError::ManifestUnknown(digest.to_string())),
        Some(m) => {
            assert(m.body.deep_view() =~= m.body@);
            match Json::parse(m.body.as_slice()) {
                Ok(doc) => Ok(doc),
                Err(e) => Err(LayerhouseError::Serialization(e)),
            }
        },
    }
}

/// The first position from `from` on that holds a manifest of a digest, or the
/// end.
pub open spec fn manifest_position(
    items: Seq<ManifestSummaryView>,
    digest: Seq<char>,
    from: int,
) -> int
    decreases items.len() - from,
{
    if from < items.len() && items[from].digest != digest {
        manifest_position(items, digest, from + 1)
    } else {
        from
    }
}

/// The manifest of a digest among those of a repository.
pub fn find_manifest<'a>(items: &'a Vec<ManifestSummary>, digest: &str) -> (r: Result<
    &'a ManifestSummary,
    LayerhouseError,
>)
    ensures
        ({
            let all = items.deep_view();
            let p = manifest_position(all, digest@, 0);
            match r {
                Ok(m) => p < all.len() && m@ == all[p],
                Err(e) => p >= all.len() && e@ == ErrorView::ManifestUnknown(digest@),
            }
        }),
{
    let ghost all = items.deep_view();
    let mut i: usize = 0;
    while i < items.len()
        invariant
            all == items.deep_view(),
            i <= items@.len(),
            manifest_position(all, digest@, 0) == manifest_position(all, digest@, i as int),
        decreases items@.len() - i,
    {
        assert(all[i as int] == items@[i as int]@);
        if str_equal(&items[i].digest, digest) {
            return Ok(&items[i]);
        }
        i = i + 1;
    }
    Err(LayerhouseError::ManifestUnknown(digest.to_string()))
}

/// Where the access to a repository comes from and how far it can be passed on,
/// for a caller whose rights were looked up, or for anybody where nobody has to
/// log in.
pub fn manifest_access(
    checked: bool,
    found: Option<(RepositoryAction, GrantSource)>,
) -> (r: (Option<GrantSource>, Option<RepositoryAction>))
    ensures
        r == (if checked {
            match found {
                Some((action, source)) => (Some(source), Some(action)),
                None => (None, None),
            }
        } else {
            (Some(GrantSource::Public), Some(RepositoryAction::Delete))
        }),
{
    if checked {
        match found {
            Some((action, source)) => (Some(source), Some(action)),
            None => (None, None),
        }
    } else {
        (Some(GrantSource::Public), Some(RepositoryAction::Delete))
    }
}

} // verus!
