//! How blobs are read and deleted.
use super::reply::{Reply, ReplyView};
use crate::error::{ErrorView, LayerhouseError};
use crate::oci::digest::Digest;
use crate::store::metadata::types::BlobLifecycleStatus;
use crate::text::{
    chars_of, concat2, concat5, decimal, decimal_text, parse_u64, parsed_u64, split_first,
    split_once, str_equal, strip_prefix,
};
use vstd::prelude::*;

verus! {

// ── Calls ────────────────────────────────────────────────────────────────

/// What can be done with a blob.
#[derive(Debug, Clone, Copy, PartialEq, Eq, Structural)]
pub enum BlobCall {
    Head,
    Get,
    Delete,
}

/// What a method does with a blob.
pub open spec fn blob_call_of(method: Seq<char>) -> Result<BlobCall, ErrorView> {
    if method == "HEAD"@ {
        Ok(BlobCall::Head)
    } else if method == "GET"@ {
        Ok(BlobCall::Get)
    } else if method == "DELETE"@ {
        Ok(BlobCall::Delete)
    } else {
        Err(ErrorView::Unsupported("method not allowed"@))
    }
}

/// What a method does with a blob.
pub fn dispatch(method: &str) -> (r: Result<BlobCall, LayerhouseError>)
    ensures
        match r {
            Ok(call) => blob_call_of(method@) == Ok::<_, ErrorView>(call),
            Err(e) => blob_call_of(method@) == Err::<BlobCall, _>(e@),
        },
{
    if str_equal(method, "HEAD") {
        Ok(BlobCall::Head)
    } else if str_equal(method, "GET") {
        Ok(BlobCall::Get)
    } else if str_equal(method, "DELETE") {
        Ok(BlobCall::Delete)
    } else {
        Err(LayerhouseError::Unsupported("method not allowed".to_string()))
    }
}

// ── Finding a blob ───────────────────────────────────────────────────────

/// What the search for a blob does next.
#[derive(Debug, PartialEq, Eq)]
pub enum LookupStep {
    /// Ask the store for its size.
    Stat,
    /// Fetch it from upstream.
    Pull,
    /// Ask the store again, now that it was fetched.
    StatAgain,
    /// The size was found.
    Found(u64),
    /// The search ends without the blob.
    Failed(LayerhouseError),
}

/// What a `LookupStep` says.
pub enum LookupView {
    Stat,
    Pull,
    StatAgain,
    Found(u64),
    Failed(ErrorView),
}

impl View for LookupStep {
    type V = LookupView;

    open spec fn view(&self) -> LookupView {
        match self {
            LookupStep::Stat => LookupView::Stat,
            LookupStep::Pull => LookupView::Pull,
            LookupStep::StatAgain => LookupView::StatAgain,
            LookupStep::Found(size) => LookupView::Found(*size),
            LookupStep::Failed(e) => LookupView::Failed(e@),
        }
    }
}

/// How the search starts: a blob that is to be deleted and that no manifest
/// refers to any more is hidden, though its bytes may still be there.
pub fn lookup_start(lifecycle: &BlobLifecycleStatus, digest: &str) -> (r: LookupStep)
    ensures
        r@ == (if lifecycle.delete_requested && !lifecycle.referenced {
            LookupView::Failed(ErrorView::BlobUnknown(digest@))
        } else {
            LookupView::Stat
        }),
{
    if lifecycle.delete_requested && !lifecycle.referenced {
        LookupStep::Failed(LayerhouseError::BlobUnknown(digest.to_string()))
    } else {
        LookupStep::Stat
    }
}

/// How the search goes on after the store was asked: a blob that it does not
/// know is fetched.
pub fn lookup_stat(result: Result<u64, LayerhouseError>) -> (r: LookupStep)
    ensures
        r@ == (match result {
            Ok(size) => LookupView::Found(size),
            Err(e) => if e@ is BlobUnknown {
                LookupView::Pull
            } else {
                LookupView::Failed(e@)
            },
        }),
{
    match result {
        Ok(size) => LookupStep::Found(size),
        Err(LayerhouseError::BlobUnknown(_)) => LookupStep::Pull,
        Err(e) => LookupStep::Failed(e),
    }
}

/// How the search goes on after a fetch.
pub fn lookup_pulled(result: Result<bool, LayerhouseError>, digest: &str) -> (r: LookupStep)
    ensures
        r@ == (match result {
            Ok(true) => LookupView::StatAgain,
            Ok(false) => LookupView::Failed(ErrorView::BlobUnknown(digest@)),
            Err(e) => LookupView::Failed(e@),
        }),
{
    match result {
        Ok(true) => LookupStep::StatAgain,
        Ok(false) => LookupStep::Failed(LayerhouseError::BlobUnknown(digest.to_string())),
        Err(e) => LookupStep::Failed(e),
    }
}

/// How the search ends after the store was asked again.
pub fn lookup_stat_again(result: Result<u64, LayerhouseError>, digest: &str) -> (r: LookupStep)
    ensures
        r@ == (match result {
            Ok(size) => LookupView::Found(size),
            Err(_) => LookupView::Failed(ErrorView::BlobUnknown(digest@)),
        }),
{
    match result {
        Ok(size) => LookupStep::Found(size),
        Err(_) => LookupStep::Failed(LayerhouseError::BlobUnknown(digest.to_string())),
    }
}

// ── Ranges ───────────────────────────────────────────────────────────────

/// The first and last byte that a `Range` header asks for.
pub open spec fn range_of(range_value: Seq<char>, total_size: u64) -> Option<(u64, u64)> {
    if total_size == 0 || !"bytes="@.is_prefix_of(range_value) {
        None
    } else {
        match split_first(range_value.skip("bytes="@.len() as int), '-') {
            None => None,
            Some((start_text, end_text)) => if start_text.len() == 0 {
                match parsed_u64(end_text) {
                    Some(suffix) if suffix > 0 => Some(
                        (
                            if suffix <= total_size {
                                (total_size - suffix) as u64
                            } else {
                                0
                            },
                            (total_size - 1) as u64,
                        ),
                    ),
                    _ => None,
                }
            } else {
                let last = if end_text.len() == 0 {
                    Some((total_size - 1) as u64)
                } else {
                    parsed_u64(end_text)
                };
                match (parsed_u64(start_text), last) {
                    (Some(start), Some(end)) if start <= end && start < total_size => Some(
                        (
                            start,
                            if end < total_size {
                                end
                            } else {
                                (total_size - 1) as u64
                            },
                        ),
                    ),
                    _ => None,
                }
            },
        }
    }
}

/// The number that a text stands for.
fn number(s: &str) -> (r: Option<u64>)
    ensures
        r == parsed_u64(s@),
{
    let chars = chars_of(s);
    assert(chars@.subrange(0, chars@.len() as int) =~= s@);
    parse_u64(&chars, 0, chars.len())
}

/// The first and last byte that a `Range` header asks for: `bytes=a-b`,
/// `bytes=a-` to the end, `bytes=-n` for the last `n`. What lies behind the end
/// is cut off.
pub fn parse_range(range_value: &str, total_size: u64) -> (r: Option<(u64, u64)>)
    ensures
        r == range_of(range_value@, total_size),
{
    if total_size == 0 {
        return None;
    }
    let rest = match strip_prefix(range_value, "bytes=") {
        Some(rest) => rest,
        None => return None,
    };
    let (start_text, end_text) = match split_once(&rest, '-') {
        Some(parts) => parts,
        None => return None,
    };
    if start_text.as_str().unicode_len() == 0 {
        let suffix: u64 = match number(&end_text) {
            Some(suffix) => suffix,
            None => return None,
        };
        if suffix == 0 {
            return None;
        }
        let start: u64 = total_size.saturating_sub(suffix);
        Some((start, total_size - 1))
    } else {
        let start: u64 = match number(&start_text) {
            Some(start) => start,
            None => return None,
        };
        let end: u64 = if end_text.as_str().unicode_len() == 0 {
            total_size - 1
        } else {
            match number(&end_text) {
                Some(end) => end,
                None => return None,
            }
        };
        if start > end || start >= total_size {
            return None;
        }
        if end < total_size {
            Some((start, end))
        } else {
            Some((start, total_size - 1))
        }
    }
}

/// Every range that is granted lies within the blob and is not empty.
pub proof fn lemma_range_lies_within(range_value: Seq<char>, total_size: u64)
    ensures
        range_of(range_value, total_size) matches Some((start, end)) ==> start <= end
            < total_size,
{
}

// ── Answers ──────────────────────────────────────────────────────────────

/// How a blob is delivered.
#[derive(Debug, Clone, Copy, PartialEq, Eq, Structural)]
pub enum Delivery {
    /// All of it.
    Full,
    /// The bytes from the first to the second position.
    Range(u64, u64),
    /// By sending the client to where it is stored.
    Redirect,
}

/// How a blob is delivered. A range is never redirected.
pub fn delivery(range: Option<&str>, total_size: u64, redirect_enabled: bool) -> (r: Result<
    Delivery,
    LayerhouseError,
>)
    ensures
        match range {
            Some(value) => match range_of(value@, total_size) {
                Some((start, end)) => r == Ok::<_, LayerhouseError>(Delivery::Range(start, end)),
                None => r matches Err(e) && e@ == ErrorView::Unsupported("invalid range"@),
            },
            None => r == Ok::<_, LayerhouseError>(
                if redirect_enabled {
                    Delivery::Redirect
                } else {
                    Delivery::Full
                },
            ),
        },
{
    match range {
        Some(value) => match parse_range(value, total_size) {
            Some((start, end)) => Ok(Delivery::Range(start, end)),
            None => Err(LayerhouseError::Unsupported("invalid range".to_string())),
        },
        None => if redirect_enabled {
            Ok(Delivery::Redirect)
        } else {
            Ok(Delivery::Full)
        },
    }
}

/// The answer to a question for a blob.
pub fn head_reply(digest: &Digest, size: u64) -> (r: Reply)
    ensures
        r@ == ReplyView::bare(200).with("Content-Length"@, decimal_text(size as nat)).with(
            "Docker-Content-Digest"@,
            digest@,
        ).with("Content-Type"@, "application/octet-stream"@).with("Accept-Ranges"@, "bytes"@),
{
    Reply::bare(200).with("Content-Length", &decimal(size)).with(
        "Docker-Content-Digest",
        &digest.to_string(),
    ).with("Content-Type", "application/octet-stream").with("Accept-Ranges", "bytes")
}

/// The answer that delivers a whole blob.
pub fn full_reply(digest: &Digest, size: u64) -> (r: Reply)
    ensures
        r@ == ReplyView::bare(200).with("Content-Type"@, "application/octet-stream"@).with(
            "Docker-Content-Digest"@,
            digest@,
        ).with("Content-Length"@, decimal_text(size as nat)).with("Accept-Ranges"@, "bytes"@),
{
    Reply::bare(200).with("Content-Type", "application/octet-stream").with(
        "Docker-Content-Digest",
        &digest.to_string(),
    ).with("Content-Length", &decimal(size)).with("Accept-Ranges", "bytes")
}

/// The answer that delivers a range of a blob.
pub fn range_reply(digest: &Digest, start: u64, end: u64, total_size: u64) -> (r: Reply)
    requires
        start <= end < total_size,
    ensures
        r@ == ReplyView::bare(206).with("Content-Type"@, "application/octet-stream"@).with(
            "Docker-Content-Digest"@,
            digest@,
        ).with("Content-Length"@, decimal_text((end - start + 1) as nat)).with(
            "Content-Range"@,
            "bytes "@ + decimal_text(start as nat) + "-"@ + decimal_text(end as nat) + "/"@
                + decimal_text(total_size as nat),
        ).with("Accept-Ranges"@, "bytes"@),
{
    let content_range = concat2(
        &concat5("bytes ", &decimal(start), "-", &decimal(end), "/"),
        &decimal(total_size),
    );
    Reply::bare(206).with("Content-Type", "application/octet-stream").with(
        "Docker-Content-Digest",
        &digest.to_string(),
    ).with("Content-Length", &decimal(end - start + 1)).with("Content-Range", &content_range).with(
        "Accept-Ranges",
        "bytes",
    )
}

/// The answer that sends the client to where a blob is stored.
pub fn redirect_reply(digest: &Digest, location: &str) -> (r: Reply)
    ensures
        r@ == ReplyView::bare(307).with("location"@, location@).with(
            "content-type"@,
            "application/octet-stream"@,
        ).with("Docker-Content-Digest"@, digest@).with("content-length"@, "0"@).with(
            "Accept-Ranges"@,
            "bytes"@,
        ),
{
    Reply::bare(307).with("location", location).with(
        "content-type",
        "application/octet-stream",
    ).with("Docker-Content-Digest", &digest.to_string()).with("content-length", "0").with(
        "Accept-Ranges",
        "bytes",
    )
}

/// The answer to a request to delete a blob.
pub fn delete_reply() -> (r: Reply)
    ensures
        r@ == ReplyView::bare(202),
{
    Reply::bare(202)
}

} // verus!
