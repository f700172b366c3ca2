//! How blobs are uploaded.
use super::reply::{Reply, ReplyView};
use crate::error::{ErrorView, LayerhouseError};
use crate::oci::digest::{is_digest, is_hex_char, Digest};
use crate::string_map::StringMap;
use crate::text::{
    chars_of, concat2, concat4, decimal, decimal_text, parse_u64, parsed_u64, split_first,
    split_once, str_equal, strip_prefix,
};
use vstd::prelude::*;

verus! {

/// How many bytes a request may upload at once.
pub const MAX_UPLOAD_BYTES: usize = 1073741824;

// ── Outside functions ────────────────────────────────────────────────────

/// Whether a text is a random UUID: groups of lowercase hexadecimal digits with
/// hyphens between them, of which the first digit of the third is the version.
pub open spec fn is_uuid_v4(s: Seq<char>) -> bool {
    &&& s.len() == 36
    &&& s[14] == '4'
    &&& forall|i: int|
        0 <= i < 36 ==> if i == 8 || i == 13 || i == 18 || i == 23 {
            #[trigger] s[i] == '-'
        } else {
            is_hex_char(s[i])
        }
}

/// `uuid::Uuid::new_v4`, as text. The value depends on chance; claims the shape
/// that the text of every such UUID has.
#[verifier::external_body]
pub(crate) fn uuid_v4_text() -> (r: String)
    ensures
        is_uuid_v4(r@),
{
    uuid::Uuid::new_v4().to_string()
}

/// A new id of an upload.
pub fn new_session_id() -> (r: String)
    ensures
        is_uuid_v4(r@),
{
    uuid_v4_text()
}

// ── Calls ────────────────────────────────────────────────────────────────

/// What can be done with an upload.
#[derive(Debug, Clone, Copy, PartialEq, Eq, Structural)]
pub enum UploadCall {
    Status,
    Append,
    Complete,
    Cancel,
}

/// The error for a method that is not served.
pub open spec fn not_allowed() -> ErrorView {
    ErrorView::Unsupported("method not allowed"@)
}

/// Whether a method starts an upload.
pub fn dispatch_start(method: &str) -> (r: Result<(), LayerhouseError>)
    ensures
        match r {
            Ok(_) => method@ == "POST"@,
            Err(e) => method@ != "POST"@ && e@ == not_allowed(),
        },
{
    if str_equal(method, "POST") {
        Ok(())
    } else {
        Err(LayerhouseError::Unsupported("method not allowed".to_string()))
    }
}

/// What a method does with an upload.
pub open spec fn upload_call_of(method: Seq<char>) -> Result<UploadCall, ErrorView> {
    if method == "GET"@ {
        Ok(UploadCall::Status)
    } else if method == "PATCH"@ {
        Ok(UploadCall::Append)
    } else if method == "PUT"@ {
        Ok(UploadCall::Complete)
    } else if method == "DELETE"@ {
        Ok(UploadCall::Cancel)
    } else {
        Err(not_allowed())
    }
}

/// What a method does with an upload.
pub fn dispatch_session(method: &str) -> (r: Result<UploadCall, LayerhouseError>)
    ensures
        match r {
            Ok(call) => upload_call_of(method@) == Ok::<_, ErrorView>(call),
            Err(e) => upload_call_of(method@) == Err::<UploadCall, _>(e@),
        },
{
    if str_equal(method, "GET") {
        Ok(UploadCall::Status)
    } else if str_equal(method, "PATCH") {
        Ok(UploadCall::Append)
    } else if str_equal(method, "PUT") {
        Ok(UploadCall::Complete)
    } else if str_equal(method, "DELETE") {
        Ok(UploadCall::Cancel)
    } else {
        Err(LayerhouseError::Unsupported("method not allowed".to_string()))
    }
}

/// The error where too many uploads run already.
pub fn upload_limit_reached() -> (r: LayerhouseError)
    ensures
        r@ == ErrorView::TooManyRequests("upload limit reached"@),
{
    LayerhouseError::TooManyRequests("upload limit reached".to_string())
}

// ── Sessions ─────────────────────────────────────────────────────────────

/// An upload under way.
#[derive(Debug, PartialEq, Eq)]
pub struct UploadSession {
    pub repository: String,
    pub offset: u64,
}

impl UploadSession {
    /// Whether the upload goes to a repository.
    pub fn belongs_to(&self, name: &str) -> (r: bool)
        ensures
            r == (self.repository@ == name@),
    {
        str_equal(&self.repository, name)
    }
}

/// The error for an upload that is not known.
pub fn unknown_upload(session_id: &str) -> (r: LayerhouseError)
    ensures
        r@ == ErrorView::BlobUploadUnknown(session_id@),
{
    LayerhouseError::BlobUploadUnknown(session_id.to_string())
}

/// The upload of an id. One of another repository is as good as none.
pub fn upload_session(session: Option<UploadSession>, name: &str, session_id: &str) -> (r: Result<
    UploadSession,
    LayerhouseError,
>)
    ensures
        match session {
            Some(s) if s.repository@ == name@ => r == Ok::<_, LayerhouseError>(s),
            _ => r matches Err(e) && e@ == ErrorView::BlobUploadUnknown(session_id@),
        },
{
    match session {
        Some(s) => if s.belongs_to(name) {
            Ok(s)
        } else {
            Err(unknown_upload(session_id))
        },
        None => Err(unknown_upload(session_id)),
    }
}

// ── Start ────────────────────────────────────────────────────────────────

/// How an upload starts.
#[derive(Debug, PartialEq, Eq)]
pub enum UploadStart {
    /// The request holds the whole blob.
    Monolithic(Digest),
    /// The blob is to be taken over from another repository, if it is there.
    Mount { digest: Digest, from: String },
    /// The blob comes in later requests.
    Session,
}

/// What an `UploadStart` holds.
pub enum UploadStartView {
    Monolithic(Seq<char>),
    Mount { digest: Seq<char>, from: Seq<char> },
    Session,
}

impl View for UploadStart {
    type V = UploadStartView;

    open spec fn view(&self) -> UploadStartView {
        match self {
            UploadStart::Monolithic(digest) => UploadStartView::Monolithic(digest@),
            UploadStart::Mount { digest, from } => UploadStartView::Mount {
                digest: digest@,
                from: from@,
            },
            UploadStart::Session => UploadStartView::Session,
        }
    }
}

/// How an upload starts, as the parameters of the request say.
pub open spec fn upload_start_of(params: Map<Seq<char>, Seq<char>>) -> Result<
    UploadStartView,
    ErrorView,
> {
    if params.dom().contains("digest"@) {
        if is_digest(params["digest"@]) {
            Ok(UploadStartView::Monolithic(params["digest"@]))
        } else {
            Err(ErrorView::DigestInvalid(params["digest"@]))
        }
    } else if params.dom().contains("mount"@) && params.dom().contains("from"@) {
        if is_digest(params["mount"@]) {
            Ok(UploadStartView::Mount { digest: params["mount"@], from: params["from"@] })
        } else {
            Err(ErrorView::DigestInvalid(params["mount"@]))
        }
    } else {
        Ok(UploadStartView::Session)
    }
}

/// A digest, or the error for a text that is none.
fn checked_digest(text: &str) -> (r: Result<Digest, LayerhouseError>)
    ensures
        match r {
            Ok(d) => is_digest(text@) && d@ == text@,
            Err(e) => !is_digest(text@) && e@ == ErrorView::DigestInvalid(text@),
        },
{
    match Digest::from_str_checked(text) {
        Some(digest) => Ok(digest),
        None => Err(LayerhouseError::DigestInvalid(text.to_string())),
    }
}

/// How an upload starts, as the parameters of the request say.
pub fn start_upload(params: &StringMap<String>) -> (r: Result<UploadStart, LayerhouseError>)
    ensures
        match r {
            Ok(start) => upload_start_of(params@) == Ok::<_, ErrorView>(start@),
            Err(e) => upload_start_of(params@) == Err::<UploadStartView, _>(e@),
        },
{
    if let Some(text) = params.get("digest") {
        return match checked_digest(text) {
            Ok(digest) => Ok(UploadStart::Monolithic(digest)),
            Err(e) => Err(e),
        };
    }
    if let Some(text) = params.get("mount") {
        if let Some(from) = params.get("from") {
            return match checked_digest(text) {
                Ok(digest) => Ok(UploadStart::Mount { digest, from: from.clone() }),
                Err(e) => Err(e),
            };
        }
    }
    Ok(UploadStart::Session)
}

/// How an upload starts once it is known whether the blob is there: one that is to be
/// taken over and is not there comes in later requests.
pub open spec fn settled_start(start: UploadStartView, found: bool) -> UploadStartView {
    if start is Mount && !found {
        UploadStartView::Session
    } else {
        start
    }
}

/// How an upload starts once it is known whether the blob is there.
pub fn settle_start(start: UploadStart, found: bool) -> (r: UploadStart)
    ensures
        r@ == settled_start(start@, found),
{
    match start {
        UploadStart::Mount { digest, from } => if found {
            UploadStart::Mount { digest, from }
        } else {
            UploadStart::Session
        },
        other => other,
    }
}

/// The digest that a completed upload must have.
pub open spec fn completion_digest_of(params: Map<Seq<char>, Seq<char>>) -> Result<
    Seq<char>,
    ErrorView,
> {
    if !params.dom().contains("digest"@) {
        Err(ErrorView::DigestInvalid("missing digest query param"@))
    } else if is_digest(params["digest"@]) {
        Ok(params["digest"@])
    } else {
        Err(ErrorView::DigestInvalid(params["digest"@]))
    }
}

/// The digest that a completed upload must have.
pub fn completion_digest(params: &StringMap<String>) -> (r: Result<Digest, LayerhouseError>)
    ensures
        match r {
            Ok(digest) => completion_digest_of(params@) == Ok::<_, ErrorView>(digest@),
            Err(e) => completion_digest_of(params@) == Err::<Seq<char>, _>(e@),
        },
{
    match params.get("digest") {
        Some(text) => checked_digest(text),
        None => Err(LayerhouseError::DigestInvalid("missing digest query param".to_string())),
    }
}

// ── Ranges ───────────────────────────────────────────────────────────────

/// Where a `Content-Range` header says that a chunk starts.
pub open spec fn content_range_start(range: Seq<char>) -> Option<u64> {
    let rest = if "bytes "@.is_prefix_of(range) {
        range.skip("bytes "@.len() as int)
    } else {
        range
    };
    match split_first(rest, '-') {
        Some((start, _)) => parsed_u64(start),
        None => None,
    }
}

/// Where a `Content-Range` header says that a chunk starts.
pub fn parse_content_range_start(range: &str) -> (r: Option<u64>)
    ensures
        r == content_range_start(range@),
{
    let rest = match strip_prefix(range, "bytes ") {
        Some(rest) => rest,
        None => range.to_string(),
    };
    match split_once(&rest, '-') {
        Some((start, _)) => {
            let chars = chars_of(&start);
            assert(chars@.subrange(0, chars@.len() as int) =~= start@);
            parse_u64(&chars, 0, chars.len())
        },
        None => None,
    }
}

/// Whether a chunk does not start where the upload stands. A chunk that does not
/// say where it starts is appended.
pub fn chunk_out_of_order(content_range: Option<&str>, offset: u64) -> (r: bool)
    ensures
        r == match content_range {
            Some(range) => match content_range_start(range@) {
                Some(start) => start != offset,
                None => false,
            },
            None => false,
        },
{
    match content_range {
        Some(range) => match parse_content_range_start(range) {
            Some(start) => start != offset,
            None => false,
        },
        None => false,
    }
}

/// The bytes that an upload holds, as a `Range` header says it.
pub open spec fn held_range(offset: u64) -> Seq<char> {
    "0-"@ + decimal_text(
        if offset > 0 {
            (offset - 1) as nat
        } else {
            0
        },
    )
}

/// The bytes that an upload holds, as a `Range` header says it.
fn held_range_text(offset: u64) -> (r: String)
    ensures
        r@ == held_range(offset),
{
    concat2("0-", &decimal(offset.saturating_sub(1)))
}

// ── Answers ──────────────────────────────────────────────────────────────

/// Where a blob of a repository is.
pub open spec fn blob_location(name: Seq<char>, digest: Seq<char>) -> Seq<char> {
    "/v2/"@ + name + "/blobs/"@ + digest
}

/// Where an upload to a repository goes on.
pub open spec fn upload_location(name: Seq<char>, session_id: Seq<char>) -> Seq<char> {
    "/v2/"@ + name + "/blobs/uploads/"@ + session_id
}

/// The answer once a blob is stored.
pub fn created_reply(name: &str, digest: &Digest) -> (r: Reply)
    ensures
        r@ == ReplyView::bare(201).with("Location"@, blob_location(name@, digest@)).with(
            "Docker-Content-Digest"@,
            digest@,
        ),
{
    let text = digest.to_string();
    Reply::bare(201).with("Location", &concat4("/v2/", name, "/blobs/", &text)).with(
        "Docker-Content-Digest",
        &text,
    )
}

/// An answer that tells how an upload stands.
pub open spec fn upload_reply(
    status: u16,
    name: Seq<char>,
    session_id: Seq<char>,
    range: Seq<char>,
) -> ReplyView {
    ReplyView::bare(status).with("Location"@, upload_location(name, session_id)).with(
        "Docker-Upload-UUID"@,
        session_id,
    ).with("Range"@, range)
}

/// An answer that tells how an upload stands.
fn upload_state_reply(status: u16, name: &str, session_id: &str, range: &str) -> (r: Reply)
    ensures
        r@ == upload_reply(status, name@, session_id@, range@),
{
    Reply::bare(status).with("Location", &concat4("/v2/", name, "/blobs/uploads/", session_id)).with(
        "Docker-Upload-UUID",
        session_id,
    ).with("Range", range)
}

/// The answer once an upload has started.
pub fn started_reply(name: &str, session_id: &str) -> (r: Reply)
    ensures
        r@ == upload_reply(202, name@, session_id@, "0-0"@),
{
    upload_state_reply(202, name, session_id, "0-0")
}

/// The answer to a chunk that does not start where the upload stands.
pub fn out_of_order_reply(name: &str, session_id: &str, offset: u64) -> (r: Reply)
    ensures
        r@ == upload_reply(416, name@, session_id@, held_range(offset)),
{
    upload_state_reply(416, name, session_id, &held_range_text(offset))
}

/// The answer once a chunk is stored.
pub fn appended_reply(name: &str, session_id: &str, offset: u64) -> (r: Reply)
    ensures
        r@ == upload_reply(202, name@, session_id@, held_range(offset)),
{
    upload_state_reply(202, name, session_id, &held_range_text(offset))
}

/// The answer to a question for an upload.
pub fn status_reply(name: &str, session_id: &str, offset: u64) -> (r: Reply)
    ensures
        r@ == upload_reply(204, name@, session_id@, held_range(offset)),
{
    upload_state_reply(204, name, session_id, &held_range_text(offset))
}

/// The answer once an upload is cancelled.
pub fn cancelled_reply() -> (r: Reply)
    ensures
        r@ == ReplyView::bare(204),
{
    Reply::bare(204)
}

} // verus!
