//! How blobs are read, uploaded and deleted, told by what was asked and what there is.
use super::blobs::{
    delete_reply, delivery, dispatch, full_reply, head_reply, lookup_pulled, lookup_start,
    lookup_stat, lookup_stat_again, parse_range, range_reply, redirect_reply, BlobCall, Delivery,
    LookupStep,
};
use super::reply::Reply;
use super::uploads::{
    appended_reply, chunk_out_of_order, completion_digest, created_reply, dispatch_session,
    dispatch_start, out_of_order_reply, parse_content_range_start, settle_start, start_upload,
    started_reply, status_reply, upload_session, UploadCall, UploadSession, UploadStart,
};
use crate::error::LayerhouseError;
use crate::oci::digest::{is_digest, Digest};
use crate::store::metadata::types::BlobLifecycleStatus;
use crate::string_map::StringMap;
use crate::text::{
    decimal_text, is_digit, lemma_decimal_is_read_back, lemma_position_is, parsed_u64, without_plus,
};
use vstd::prelude::*;

verus! {

// ── Calls ────────────────────────────────────────────────────────────────

/// A blob can be asked for, read and deleted, each by its method, and by no other.
pub proof fn lemma_methods_of_blobs(method: &str, r: Result<BlobCall, LayerhouseError>)
    requires
        call_ensures(dispatch, (method,), r),
    ensures
        r is Err <==> method@ != "HEAD"@ && method@ != "GET"@ && method@ != "DELETE"@,
        r matches Ok(call) ==> {
            &&& call is Head <==> method@ == "HEAD"@
            &&& call is Get <==> method@ == "GET"@
            &&& call is Delete <==> method@ == "DELETE"@
        },
        r matches Err(e) ==> (e matches LayerhouseError::Unsupported(t) && t@
            == "method not allowed"@),
{
    reveal_strlit("HEAD");
    reveal_strlit("GET");
    reveal_strlit("DELETE");
    assert("HEAD"@.len() == 4 && "GET"@.len() == 3 && "DELETE"@.len() == 6);
}

/// An upload is started by a post, and then asked for, continued, completed and
/// cancelled, each by its method, and by no other.
pub proof fn lemma_methods_of_uploads(
    method: &str,
    start: Result<(), LayerhouseError>,
    r: Result<UploadCall, LayerhouseError>,
)
    requires
        call_ensures(dispatch_start, (method,), start),
        call_ensures(dispatch_session, (method,), r),
    ensures
        start is Ok <==> method@ == "POST"@,
        r is Err <==> method@ != "GET"@ && method@ != "PATCH"@ && method@ != "PUT"@ && method@
            != "DELETE"@,
        r matches Ok(call) ==> {
            &&& call is Status <==> method@ == "GET"@
            &&& call is Append <==> method@ == "PATCH"@
            &&& call is Complete <==> method@ == "PUT"@
            &&& call is Cancel <==> method@ == "DELETE"@
        },
{
    reveal_strlit("GET");
    reveal_strlit("PATCH");
    reveal_strlit("PUT");
    reveal_strlit("DELETE");
    assert("GET"@.len() == 3 && "PATCH"@.len() == 5 && "PUT"@.len() == 3 && "DELETE"@.len() == 6);
    assert("GET"@[0] == 'G' && "PUT"@[0] == 'P');
}

// ── Finding a blob ───────────────────────────────────────────────────────

/// Whether a search ends because the blob of a digest is not known.
pub open spec fn ends_unknown(step: LookupStep, digest: Seq<char>) -> bool {
    step matches LookupStep::Failed(e) && (e matches LayerhouseError::BlobUnknown(d) && d@
        == digest)
}

/// A blob is hidden exactly where its deletion was requested and no manifest refers to
/// it. Else it is found where the store knows it. Where the store does not, it is fetched
/// and looked for once more; a store that fails otherwise ends the search.
pub proof fn lemma_search_for_a_blob(
    lifecycle: &BlobLifecycleStatus,
    digest: &str,
    size: u64,
    fetched: bool,
    start: LookupStep,
    found: LookupStep,
    pulled: LookupStep,
    again: LookupStep,
)
    requires
        call_ensures(lookup_start, (lifecycle, digest), start),
        call_ensures(lookup_stat, (Ok(size),), found),
        call_ensures(lookup_pulled, (Ok(fetched), digest), pulled),
        call_ensures(lookup_stat_again, (Ok(size), digest), again),
    ensures
        lifecycle.delete_requested && !lifecycle.referenced ==> ends_unknown(start, digest@),
        !(lifecycle.delete_requested && !lifecycle.referenced) ==> start is Stat,
        found == LookupStep::Found(size),
        fetched ==> pulled is StatAgain,
        !fetched ==> ends_unknown(pulled, digest@),
        again == LookupStep::Found(size),
{
}

/// A store that does not know a blob has it fetched; any other failure of the store ends
/// the search as it is, and a blob that is not there after it was fetched is unknown.
pub proof fn lemma_failed_search_for_a_blob(
    error: LayerhouseError,
    digest: &str,
    stat: LookupStep,
    pulled: LookupStep,
    again: LookupStep,
)
    requires
        call_ensures(lookup_stat, (Err(error),), stat),
        call_ensures(lookup_pulled, (Err(error), digest), pulled),
        call_ensures(lookup_stat_again, (Err(error), digest), again),
    ensures
        stat is Pull <==> error is BlobUnknown,
        !(error is BlobUnknown) ==> (stat matches LookupStep::Failed(e) && e@ == error@),
        pulled matches LookupStep::Failed(e) && e@ == error@,
        ends_unknown(again, digest@),
{
}

// ── Ranges ───────────────────────────────────────────────────────────────

proof fn lemma_no_hyphen(n: u64)
    ensures
        decimal_text(n as nat).len() > 0,
        forall|i: int| 0 <= i < decimal_text(n as nat).len() ==> #[trigger] decimal_text(n as nat)[i]
            != '-',
        parsed_u64(decimal_text(n as nat)) == Some(n),
{
    lemma_decimal_is_read_back(n);
    assert forall|i: int| 0 <= i < decimal_text(n as nat).len() implies #[trigger] decimal_text(
        n as nat,
    )[i] != '-' by {
        assert(is_digit(decimal_text(n as nat)[i]));
    }
    let d = decimal_text(n as nat);
    if d.len() == 0 {
        assert(without_plus(d) == d);
    }
}

/// A range from one byte to another is granted where the blob has the first byte and the
/// last does not come before it; what lies behind the end of the blob is cut off.
pub proof fn lemma_range_between(header: &str, first: u64, last: u64, size: u64, r: Option<(u64, u64)>)
    requires
        call_ensures(parse_range, (header, size), r),
        header@ == "bytes="@ + decimal_text(first as nat) + seq!['-'] + decimal_text(last as nat),
    ensures
        r is Some <==> first <= last && first < size,
        r matches Some((from, to)) ==> from == first && to < size && to <= last && (to == last || to
            == size - 1),
{
    let a = decimal_text(first as nat);
    let b = decimal_text(last as nat);
    lemma_no_hyphen(first);
    lemma_no_hyphen(last);
    let prefix = "bytes="@;
    let rest = a + seq!['-'] + b;
    assert(header@ =~= prefix + rest);
    assert(header@.take(prefix.len() as int) =~= prefix);
    assert(header@.skip(prefix.len() as int) =~= rest);
    assert forall|i: int| 0 <= i < a.len() implies #[trigger] rest[i] != '-' by {
        assert(rest[i] == a[i]);
    }
    lemma_position_is(rest, '-', a.len() as int);
    assert(rest.take(a.len() as int) =~= a);
    assert(rest.skip(a.len() as int + 1) =~= b);
}

/// A range from a byte on is granted to the end, where the blob has the byte.
pub proof fn lemma_range_to_the_end(header: &str, first: u64, size: u64, r: Option<(u64, u64)>)
    requires
        call_ensures(parse_range, (header, size), r),
        header@ == "bytes="@ + decimal_text(first as nat) + seq!['-'],
    ensures
        r is Some <==> first < size,
        r matches Some((from, to)) ==> from == first && to == size - 1,
{
    let a = decimal_text(first as nat);
    lemma_no_hyphen(first);
    let prefix = "bytes="@;
    let rest = a + seq!['-'];
    assert(header@ =~= prefix + rest);
    assert(header@.take(prefix.len() as int) =~= prefix);
    assert(header@.skip(prefix.len() as int) =~= rest);
    assert forall|i: int| 0 <= i < a.len() implies #[trigger] rest[i] != '-' by {
        assert(rest[i] == a[i]);
    }
    lemma_position_is(rest, '-', a.len() as int);
    assert(rest.take(a.len() as int) =~= a);
    assert(rest.skip(a.len() as int + 1) =~= Seq::<char>::empty());
}

/// A range of the last bytes is granted where it asks for any; it is all of a blob that
/// has no more.
pub proof fn lemma_range_of_the_last_bytes(
    header: &str,
    count: u64,
    size: u64,
    r: Option<(u64, u64)>,
)
    requires
        call_ensures(parse_range, (header, size), r),
        header@ == "bytes="@ + seq!['-'] + decimal_text(count as nat),
    ensures
        r is Some <==> count > 0 && size > 0,
        r matches Some((from, to)) ==> to == size - 1 && (count <= size ==> from + count == size)
            && (count > size ==> from == 0),
{
    let b = decimal_text(count as nat);
    lemma_no_hyphen(count);
    let prefix = "bytes="@;
    let rest = seq!['-'] + b;
    assert(header@ =~= prefix + rest);
    assert(header@.take(prefix.len() as int) =~= prefix);
    assert(header@.skip(prefix.len() as int) =~= rest);
    lemma_position_is(rest, '-', 0);
    assert(rest.take(0) =~= Seq::<char>::empty());
    assert(rest.skip(1) =~= b);
}

/// A range is delivered as it was granted, and refused where none was; a blob that is
/// asked for as a whole is redirected to where that is on, and only there.
pub proof fn lemma_deliveries(
    range: Option<&str>,
    size: u64,
    redirect_enabled: bool,
    r: Result<Delivery, LayerhouseError>,
    granted: Option<(u64, u64)>,
)
    requires
        call_ensures(delivery, (range, size, redirect_enabled), r),
        range matches Some(value) ==> call_ensures(parse_range, (value, size), granted),
    ensures
        range is None && redirect_enabled ==> (r matches Ok(d) && d is Redirect),
        range is None && !redirect_enabled ==> (r matches Ok(d) && d is Full),
        range is Some ==> {
            &&& r is Ok <==> granted is Some
            &&& granted matches Some((start, end)) ==> (r matches Ok(d) && d == Delivery::Range(
                start,
                end,
            ))
            &&& r matches Err(e) ==> (e matches LayerhouseError::Unsupported(t) && t@
                == "invalid range"@)
        },
{
}

// ── Answers ──────────────────────────────────────────────────────────────

/// Whether an answer has a header with a value.
pub open spec fn has_header(r: Reply, name: Seq<char>, value: Seq<char>) -> bool {
    exists|i: int|
        0 <= i < r.headers@.len() && (#[trigger] r.headers@[i]).0@ == name && r.headers@[i].1@
            == value
}

/// The headers of an answer are those of its view.
proof fn lemma_header_at(r: Reply, i: int)
    requires
        0 <= i < r@.headers.len(),
    ensures
        has_header(r, r@.headers[i].0, r@.headers[i].1),
{
    assert(r@.headers == r.headers.deep_view());
    assert(r.headers.deep_view()[i] == (r.headers@[i].0@, r.headers@[i].1@));
}

/// Every answer about a blob names its digest; one that delivers it tells how many bytes
/// come, and one that delivers a range tells which of how many.
pub proof fn lemma_answers_about_blobs(
    digest: &Digest,
    size: u64,
    start: u64,
    end: u64,
    location: &str,
    head: Reply,
    full: Reply,
    part: Reply,
    redirect: Reply,
    deleted: Reply,
)
    requires
        start <= end < size,
        call_ensures(head_reply, (digest, size), head),
        call_ensures(full_reply, (digest, size), full),
        call_ensures(range_reply, (digest, start, end, size), part),
        call_ensures(redirect_reply, (digest, location), redirect),
        call_ensures(delete_reply, (), deleted),
    ensures
        head.status == 200,
        full.status == 200,
        part.status == 206,
        redirect.status == 307,
        deleted.status == 202,
        has_header(head, "Docker-Content-Digest"@, digest@),
        has_header(full, "Docker-Content-Digest"@, digest@),
        has_header(part, "Docker-Content-Digest"@, digest@),
        has_header(redirect, "Docker-Content-Digest"@, digest@),
        has_header(head, "Content-Length"@, decimal_text(size as nat)),
        has_header(full, "Content-Length"@, decimal_text(size as nat)),
        has_header(part, "Content-Length"@, decimal_text((end - start + 1) as nat)),
        has_header(redirect, "content-length"@, "0"@),
        has_header(
            part,
            "Content-Range"@,
            "bytes "@ + decimal_text(start as nat) + "-"@ + decimal_text(end as nat) + "/"@
                + decimal_text(size as nat),
        ),
        has_header(redirect, "location"@, location@),
        has_header(head, "Accept-Ranges"@, "bytes"@),
        has_header(full, "Accept-Ranges"@, "bytes"@),
        has_header(part, "Accept-Ranges"@, "bytes"@),
        has_header(redirect, "Accept-Ranges"@, "bytes"@),
        has_header(head, "Content-Type"@, "application/octet-stream"@),
        has_header(full, "Content-Type"@, "application/octet-stream"@),
        has_header(part, "Content-Type"@, "application/octet-stream"@),
        has_header(redirect, "content-type"@, "application/octet-stream"@),
{
    lemma_header_at(head, 0);
    lemma_header_at(head, 1);
    lemma_header_at(head, 2);
    lemma_header_at(head, 3);
    lemma_header_at(full, 0);
    lemma_header_at(full, 1);
    lemma_header_at(full, 2);
    lemma_header_at(full, 3);
    lemma_header_at(part, 0);
    lemma_header_at(part, 1);
    lemma_header_at(part, 2);
    lemma_header_at(part, 3);
    lemma_header_at(part, 4);
    lemma_header_at(redirect, 0);
    lemma_header_at(redirect, 1);
    lemma_header_at(redirect, 2);
    lemma_header_at(redirect, 3);
    lemma_header_at(redirect, 4);
}

/// Every answer about an upload tells where it goes on and what it holds: the bytes up to
/// the offset. A blob that is stored is found where the answer says.
pub proof fn lemma_answers_about_uploads(
    name: &str,
    id: &str,
    offset: u64,
    digest: &Digest,
    started: Reply,
    appended: Reply,
    refused: Reply,
    status: Reply,
    created: Reply,
)
    requires
        call_ensures(started_reply, (name, id), started),
        call_ensures(appended_reply, (name, id, offset), appended),
        call_ensures(out_of_order_reply, (name, id, offset), refused),
        call_ensures(status_reply, (name, id, offset), status),
        call_ensures(created_reply, (name, digest), created),
    ensures
        started.status == 202,
        appended.status == 202,
        refused.status == 416,
        status.status == 204,
        created.status == 201,
        ({
            let place = "/v2/"@ + name@ + "/blobs/uploads/"@ + id@;
            let held = "0-"@ + decimal_text(
                if offset == 0 {
                    0
                } else {
                    (offset - 1) as nat
                },
            );
            &&& has_header(started, "Location"@, place)
            &&& has_header(appended, "Location"@, place)
            &&& has_header(refused, "Location"@, place)
            &&& has_header(status, "Location"@, place)
            &&& has_header(started, "Docker-Upload-UUID"@, id@)
            &&& has_header(appended, "Docker-Upload-UUID"@, id@)
            &&& has_header(refused, "Docker-Upload-UUID"@, id@)
            &&& has_header(status, "Docker-Upload-UUID"@, id@)
            &&& has_header(started, "Range"@, "0-0"@)
            &&& has_header(appended, "Range"@, held)
            &&& has_header(refused, "Range"@, held)
            &&& has_header(status, "Range"@, held)
        }),
        has_header(created, "Location"@, "/v2/"@ + name@ + "/blobs/"@ + digest@),
        has_header(created, "Docker-Content-Digest"@, digest@),
{
    lemma_header_at(started, 0);
    lemma_header_at(started, 1);
    lemma_header_at(started, 2);
    lemma_header_at(appended, 0);
    lemma_header_at(appended, 1);
    lemma_header_at(appended, 2);
    lemma_header_at(refused, 0);
    lemma_header_at(refused, 1);
    lemma_header_at(refused, 2);
    lemma_header_at(status, 0);
    lemma_header_at(status, 1);
    lemma_header_at(status, 2);
    lemma_header_at(created, 0);
    lemma_header_at(created, 1);
}

// ── Uploads ──────────────────────────────────────────────────────────────

/// An upload is found exactly where there is one of the repository; it is then the one
/// that was there.
pub proof fn lemma_upload_of_a_repository(
    session: Option<UploadSession>,
    name: &str,
    session_id: &str,
    r: Result<UploadSession, LayerhouseError>,
)
    requires
        call_ensures(upload_session, (session, name, session_id), r),
    ensures
        r is Ok <==> (session matches Some(s) && s.repository@ == name@),
        r matches Ok(s) ==> session == Some(s),
        r matches Err(e) ==> (e matches LayerhouseError::BlobUploadUnknown(id) && id@
            == session_id@),
{
}

/// An upload that names its digest is whole; one that names a digest to mount and where
/// from is mounted; any other goes on in later requests. What is named as a digest must
/// be one.
pub proof fn lemma_how_an_upload_starts(
    params: &StringMap<String>,
    r: Result<UploadStart, LayerhouseError>,
)
    requires
        call_ensures(start_upload, (params,), r),
    ensures
        ({
            let whole = params@.dom().contains("digest"@);
            let mounts = !whole && params@.dom().contains("mount"@) && params@.dom().contains(
                "from"@,
            );
            &&& whole ==> if is_digest(params@["digest"@]) {
                r matches Ok(UploadStart::Monolithic(d)) && d@ == params@["digest"@]
            } else {
                r matches Err(LayerhouseError::DigestInvalid(t)) && t@ == params@["digest"@]
            }
            &&& mounts ==> if is_digest(params@["mount"@]) {
                r matches Ok(UploadStart::Mount { digest, from }) && digest@ == params@["mount"@]
                    && from@ == params@["from"@]
            } else {
                r matches Err(LayerhouseError::DigestInvalid(t)) && t@ == params@["mount"@]
            }
            &&& !whole && !mounts ==> (r matches Ok(s) && s is Session)
        }),
{
}

/// A mount of a blob that is not there becomes an upload in later requests; all else
/// stays.
pub proof fn lemma_mounts_need_the_blob(start: UploadStart, found: bool, r: UploadStart)
    requires
        call_ensures(settle_start, (start, found), r),
    ensures
        r is Mount <==> start is Mount && found,
        r is Session <==> start is Session || (start is Mount && !found),
        start matches UploadStart::Monolithic(d) ==> (r matches UploadStart::Monolithic(e) && e@
            == d@),
        start matches UploadStart::Mount { digest, from } ==> (found ==> (
        r matches UploadStart::Mount { digest: e, from: g } && e@ == digest@ && g@ == from@)),
{
}

/// A completed upload must name a digest; that is the one it is held against.
pub proof fn lemma_digest_of_a_completed_upload(
    params: &StringMap<String>,
    r: Result<Digest, LayerhouseError>,
)
    requires
        call_ensures(completion_digest, (params,), r),
    ensures
        r is Ok <==> params@.dom().contains("digest"@) && is_digest(params@["digest"@]),
        r matches Ok(d) ==> d@ == params@["digest"@],
        r matches Err(e) ==> (e matches LayerhouseError::DigestInvalid(t) && t@
            == if params@.dom().contains("digest"@) {
            params@["digest"@]
        } else {
            "missing digest query param"@
        }),
{
}

/// A chunk that says from which byte to which it goes starts at the first, with the unit
/// and without it; it is out of order exactly where that is not where the upload stands.
/// A chunk that does not say is never out of order.
pub proof fn lemma_where_a_chunk_starts(
    header: &str,
    first: u64,
    last: Seq<char>,
    offset: u64,
    start: Option<u64>,
    refused: bool,
    unsaid: bool,
)
    requires
        header@ == decimal_text(first as nat) + seq!['-'] + last || header@ == "bytes "@
            + decimal_text(first as nat) + seq!['-'] + last,
        call_ensures(parse_content_range_start, (header,), start),
        call_ensures(chunk_out_of_order, (Some(header), offset), refused),
        call_ensures(chunk_out_of_order, (None::<&str>, offset), unsaid),
    ensures
        start == Some(first),
        refused <==> first != offset,
        !unsaid,
{
    let a = decimal_text(first as nat);
    lemma_no_hyphen(first);
    lemma_decimal_is_read_back(first);
    let prefix = "bytes "@;
    let rest = a + seq!['-'] + last;
    reveal_strlit("bytes ");
    assert forall|i: int| 0 <= i < a.len() implies #[trigger] rest[i] != '-' by {
        assert(rest[i] == a[i]);
    }
    lemma_position_is(rest, '-', a.len() as int);
    assert(rest.take(a.len() as int) =~= a);
    if header@ == rest {
        assert(is_digit(a[0]));
        assert(header@[0] == a[0]);
        if prefix.is_prefix_of(header@) {
            assert(header@[0] == prefix[0]);
        }
    } else {
        assert(header@ =~= prefix + rest);
        assert(header@.take(prefix.len() as int) =~= prefix);
        assert(header@.skip(prefix.len() as int) =~= rest);
    }
}

} // verus!
