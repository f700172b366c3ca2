//! Handle and repository-path grammar.
//!
//! A repository path has at least two segments, `<handle>/<name>[/<sub>...]`.
//! The leading segment names a namespace owner and follows the handle grammar:
//! 3 to 39 characters, lowercase ASCII letters and digits and single dashes,
//! with no dash at either end.
use crate::error::{outcome, ErrorView, LayerhouseError};
use crate::text::{
    char_quoted, chars_of, concat2, concat3, contains_str, contains_text, debug_char, debug_quoted,
    find_char, lemma_position, occurs_at, position, quoted, split, split_first, split_on,
};
use vstd::prelude::*;
use vstd::utf8::encode_utf8;

verus! {

pub const HANDLE_MIN_LEN: usize = 3;

pub const HANDLE_MAX_LEN: usize = 39;

pub open spec fn is_lower_alnum(b: u8) -> bool {
    97 <= b <= 122 || 48 <= b <= 57
}

pub open spec fn is_dash(b: u8) -> bool {
    b == 45
}

/// The bytes spell a handle.
pub open spec fn is_handle(b: Seq<u8>) -> bool {
    &&& HANDLE_MIN_LEN <= b.len() <= HANDLE_MAX_LEN
    &&& forall|i: int| 0 <= i < b.len() ==> is_lower_alnum(#[trigger] b[i]) || is_dash(b[i])
    &&& !is_dash(b[0])
    &&& !is_dash(b[b.len() - 1])
    &&& forall|i: int| 1 <= i < b.len() ==> !(is_dash(#[trigger] b[i]) && is_dash(b[i - 1]))
}

/// What is wrong with a would-be handle.
pub enum HandleFault {
    Length,
    Illegal(u8),
    LeadingDash,
    TrailingDash,
    DoubleDash,
}

/// What is wrong at one byte, the earlier bytes being in order.
pub open spec fn handle_fault_at(b: Seq<u8>, i: int) -> Option<HandleFault> {
    if !is_lower_alnum(b[i]) && !is_dash(b[i]) {
        Some(HandleFault::Illegal(b[i]))
    } else if i == 0 && is_dash(b[i]) {
        Some(HandleFault::LeadingDash)
    } else if i == b.len() - 1 && is_dash(b[i]) {
        Some(HandleFault::TrailingDash)
    } else if i > 0 && is_dash(b[i]) && is_dash(b[i - 1]) {
        Some(HandleFault::DoubleDash)
    } else {
        None
    }
}

/// The first fault at or after a byte.
pub open spec fn handle_fault_from(b: Seq<u8>, i: int) -> Option<HandleFault>
    decreases b.len() - i,
{
    if i >= b.len() {
        None
    } else if handle_fault_at(b, i) is Some {
        handle_fault_at(b, i)
    } else {
        handle_fault_from(b, i + 1)
    }
}

/// The fault that is reported: the length, or else the first fault.
pub open spec fn handle_fault(b: Seq<u8>) -> Option<HandleFault> {
    if b.len() < HANDLE_MIN_LEN || b.len() > HANDLE_MAX_LEN {
        Some(HandleFault::Length)
    } else {
        handle_fault_from(b, 0)
    }
}

/// The message for a fault.
pub open spec fn handle_message(s: Seq<char>, fault: HandleFault) -> Seq<char> {
    "handle "@ + debug_quoted(s) + match fault {
        HandleFault::Length => " has invalid length: must be 3..=39 chars"@,
        HandleFault::Illegal(b) => " contains illegal character "@ + debug_char(b as char),
        HandleFault::LeadingDash => " cannot start with a dash"@,
        HandleFault::TrailingDash => " cannot end with a dash"@,
        HandleFault::DoubleDash => " cannot contain consecutive dashes"@,
    }
}

/// What validating a handle comes to.
pub open spec fn handle_outcome(s: Seq<char>) -> Result<(), ErrorView> {
    match handle_fault(encode_utf8(s)) {
        None => Ok(()),
        Some(fault) => Err(ErrorView::Internal(handle_message(s, fault))),
    }
}

/// A text is accepted exactly when its bytes spell a handle.
pub proof fn lemma_handle_grammar(b: Seq<u8>)
    ensures
        handle_fault(b) is None <==> is_handle(b),
{
    if HANDLE_MIN_LEN <= b.len() <= HANDLE_MAX_LEN {
        lemma_fault_from(b, 0);
        if is_handle(b) {
            assert forall|i: int| 0 <= i < b.len() implies handle_fault_at(b, i) is None by {
                if i > 0 {
                    assert(!(is_dash(b[i]) && is_dash(b[i - 1])));
                }
            }
        } else if forall|i: int| 0 <= i < b.len() ==> #[trigger] handle_fault_at(b, i) is None {
            assert(handle_fault_at(b, 0) is None);
            assert(handle_fault_at(b, b.len() - 1) is None);
            assert forall|i: int| 0 <= i < b.len() implies is_lower_alnum(#[trigger] b[i])
                || is_dash(b[i]) by {
                assert(handle_fault_at(b, i) is None);
            }
            assert forall|i: int| 1 <= i < b.len() implies !(is_dash(#[trigger] b[i]) && is_dash(
                b[i - 1],
            )) by {
                assert(handle_fault_at(b, i) is None);
            }
        }
    }
}

proof fn lemma_fault_from(b: Seq<u8>, i: int)
    requires
        0 <= i <= b.len(),
    ensures
        handle_fault_from(b, i) is None <==> forall|j: int|
            i <= j < b.len() ==> #[trigger] handle_fault_at(b, j) is None,
    decreases b.len() - i,
{
    if i < b.len() {
        lemma_fault_from(b, i + 1);
        if handle_fault_at(b, i) is None && handle_fault_from(b, i + 1) is None {
            assert forall|j: int| i <= j < b.len() implies #[trigger] handle_fault_at(b, j)
                is None by {
                if j > i {
                    assert(i + 1 <= j);
                }
            }
        }
    }
}

/// Validates that a text is a well-formed handle.
pub fn validate_handle(s: &str) -> (r: Result<(), LayerhouseError>)
    ensures
        outcome(r) == handle_outcome(s@),
        r is Ok <==> is_handle(encode_utf8(s@)),
{
    let bytes = s.as_bytes();
    proof {
        lemma_handle_grammar(bytes@);
    }
    if bytes.len() < HANDLE_MIN_LEN || bytes.len() > HANDLE_MAX_LEN {
        return Err(
            LayerhouseError::Internal(
                handle_text(s, " has invalid length: must be 3..=39 chars"),
            ),
        );
    }
    let mut prev_dash = false;
    let mut i: usize = 0;
    while i < bytes.len()
        invariant
            bytes@ == encode_utf8(s@),
            HANDLE_MIN_LEN <= bytes@.len() <= HANDLE_MAX_LEN,
            i <= bytes@.len(),
            handle_fault(bytes@) is None <==> is_handle(bytes@),
            handle_fault_from(bytes@, 0) == handle_fault_from(bytes@, i as int),
            prev_dash == (i > 0 && is_dash(bytes@[i - 1])),
        decreases bytes@.len() - i,
    {
        let b: u8 = bytes[i];
        let alnum = (97 <= b && b <= 122) || (48 <= b && b <= 57);
        let dash = b == 45;
        if !alnum && !dash {
            let tail = concat2(" contains illegal character ", char_quoted(b as char).as_str());
            return Err(LayerhouseError::Internal(handle_text(s, tail.as_str())));
        }
        if i == 0 && dash {
            return Err(LayerhouseError::Internal(handle_text(s, " cannot start with a dash")));
        }
        if i == bytes.len() - 1 && dash {
            return Err(LayerhouseError::Internal(handle_text(s, " cannot end with a dash")));
        }
        if dash && prev_dash {
            return Err(
                LayerhouseError::Internal(handle_text(s, " cannot contain consecutive dashes")),
            );
        }
        prev_dash = dash;
        i = i + 1;
    }
    Ok(())
}

/// A message that names the handle.
fn handle_text(s: &str, tail: &str) -> (r: String)
    ensures
        r@ == "handle "@ + debug_quoted(s@) + tail@,
{
    concat3("handle ", quoted(s).as_str(), tail)
}

// ── Repository paths ─────────────────────────────────────────────────────

/// A byte that may stand in a path segment.
pub open spec fn is_path_byte(b: u8) -> bool {
    is_lower_alnum(b) || b == 45 || b == 95 || b == 46
}

/// The first byte at or after a position that may not stand in a segment.
pub open spec fn illegal_path_byte(b: Seq<u8>, i: int) -> Option<u8>
    decreases b.len() - i,
{
    if i >= b.len() {
        None
    } else if !is_path_byte(b[i]) {
        Some(b[i])
    } else {
        illegal_path_byte(b, i + 1)
    }
}

/// The text is a path segment: not empty, and path bytes only.
pub open spec fn is_path_segment(seg: Seq<char>) -> bool {
    &&& seg.len() > 0
    &&& forall|i: int|
        0 <= i < encode_utf8(seg).len() ==> is_path_byte(#[trigger] encode_utf8(seg)[i])
}

/// What validating a segment comes to.
pub open spec fn segment_outcome(seg: Seq<char>) -> Result<(), ErrorView> {
    if seg.len() == 0 {
        Err(ErrorView::Internal("repository path contains an empty segment"@))
    } else {
        match illegal_path_byte(encode_utf8(seg), 0) {
            None => Ok(()),
            Some(b) => Err(
                ErrorView::Internal(
                    "repository path segment "@ + debug_quoted(seg) + (
                    " contains illegal character "@ + debug_char(b as char)),
                ),
            ),
        }
    }
}

/// The outcome of the first segment at or after a position that is refused.
pub open spec fn segments_outcome(segs: Seq<Seq<char>>, i: int) -> Result<(), ErrorView>
    decreases segs.len() - i,
{
    if i >= segs.len() {
        Ok(())
    } else if segment_outcome(segs[i]) is Err {
        segment_outcome(segs[i])
    } else {
        segments_outcome(segs, i + 1)
    }
}

/// What validating a repository path comes to.
pub open spec fn path_outcome(s: Seq<char>) -> Result<(), ErrorView> {
    let segs = split_on(s, '/');
    if s.len() == 0 {
        Err(ErrorView::Internal("repository path is empty"@))
    } else if s[0] == '/' || s.last() == '/' {
        Err(
            ErrorView::Internal(
                "repository path "@ + debug_quoted(s) + " cannot start or end with '/'"@,
            ),
        )
    } else if contains_text(s, "//"@) {
        Err(
            ErrorView::Internal(
                "repository path "@ + debug_quoted(s) + " contains an empty segment"@,
            ),
        )
    } else if handle_outcome(segs[0]) is Err {
        handle_outcome(segs[0])
    } else if segments_outcome(segs, 1) is Err {
        segments_outcome(segs, 1)
    } else if segs.len() < 2 {
        Err(
            ErrorView::Internal(
                "repository path "@ + debug_quoted(s)
                    + " requires at least two segments (<handle>/<name>)"@,
            ),
        )
    } else {
        Ok(())
    }
}

/// The text is a repository path: a handle and at least one more segment.
pub open spec fn is_repository_path(s: Seq<char>) -> bool {
    let segs = split_on(s, '/');
    &&& segs.len() >= 2
    &&& is_handle(encode_utf8(segs[0]))
    &&& forall|i: int| 1 <= i < segs.len() ==> is_path_segment(#[trigger] segs[i])
}

/// What extracting the handle of a repository comes to.
pub open spec fn handle_of_outcome(s: Seq<char>) -> Result<Seq<char>, ErrorView> {
    match split_first(s, '/') {
        None => Err(
            ErrorView::Internal(
                "repository "@ + debug_quoted(s) + " is missing a namespace handle prefix"@,
            ),
        ),
        Some((head, rest)) => if rest.len() == 0 {
            Err(
                ErrorView::Internal(
                    "repository "@ + debug_quoted(s)
                        + " is missing the name segment after the handle"@,
                ),
            )
        } else {
            Ok(head)
        },
    }
}

proof fn lemma_illegal_path_byte(b: Seq<u8>, i: int)
    requires
        0 <= i <= b.len(),
    ensures
        illegal_path_byte(b, i) is None <==> forall|j: int|
            i <= j < b.len() ==> is_path_byte(#[trigger] b[j]),
    decreases b.len() - i,
{
    if i < b.len() {
        lemma_illegal_path_byte(b, i + 1);
    }
}

/// A segment is accepted exactly when it is one.
pub proof fn lemma_segment_grammar(seg: Seq<char>)
    ensures
        segment_outcome(seg) is Ok <==> is_path_segment(seg),
{
    lemma_illegal_path_byte(encode_utf8(seg), 0);
}

proof fn lemma_segments_grammar(segs: Seq<Seq<char>>, i: int)
    requires
        0 <= i <= segs.len(),
    ensures
        segments_outcome(segs, i) is Ok <==> forall|j: int|
            i <= j < segs.len() ==> is_path_segment(#[trigger] segs[j]),
    decreases segs.len() - i,
{
    if i < segs.len() {
        lemma_segment_grammar(segs[i]);
        lemma_segments_grammar(segs, i + 1);
    }
}

/// Where no part between the separators is empty, no separator stands at an
/// end or next to another.
proof fn lemma_no_empty_part(s: Seq<char>, c: char)
    requires
        forall|i: int| 0 <= i < split_on(s, c).len() ==> (#[trigger] split_on(s, c)[i]).len() > 0,
    ensures
        s.len() > 0,
        s[0] != c,
        s.last() != c,
        forall|i: int| 0 <= i < s.len() - 1 ==> !(#[trigger] s[i] == c && s[i + 1] == c),
    decreases s.len(),
{
    let p = position(s, c);
    lemma_position(s, c);
    let parts = split_on(s, c);
    assert(parts[0].len() > 0);
    if p < s.len() {
        let rest = s.skip(p + 1);
        let tail = split_on(rest, c);
        assert(parts =~= seq![s.take(p)] + tail);
        assert forall|i: int| 0 <= i < tail.len() implies (#[trigger] tail[i]).len() > 0 by {
            assert(parts[i + 1] == tail[i]);
        }
        lemma_no_empty_part(rest, c);
        assert(s.last() == rest.last());
        assert forall|i: int| 0 <= i < s.len() - 1 implies !(#[trigger] s[i] == c && s[i + 1]
            == c) by {
            if i > p {
                assert(rest[i - p - 1] == s[i]);
                assert(rest[i - p] == s[i + 1]);
            } else if i == p {
                assert(rest[0] == s[i + 1]);
            }
        }
    } else {
        assert(s[s.len() - 1] != c);
    }
}

/// A path is accepted exactly when it is a repository path.
pub proof fn lemma_path_grammar(s: Seq<char>)
    ensures
        path_outcome(s) is Ok <==> is_repository_path(s),
{
    let segs = split_on(s, '/');
    lemma_handle_grammar(encode_utf8(segs[0]));
    lemma_segments_grammar(segs, 1);
    if is_repository_path(s) {
        vstd::utf8::encode_utf8_valid_utf8(segs[0]);
        assert(segs[0].len() > 0) by {
            if segs[0].len() == 0 {
                assert(encode_utf8(segs[0]).len() == 0);
            }
        }
        assert forall|i: int| 0 <= i < split_on(s, '/').len() implies (#[trigger] split_on(
            s,
            '/',
        )[i]).len() > 0 by {
            if i > 0 {
                assert(is_path_segment(segs[i]));
            }
        }
        lemma_no_empty_part(s, '/');
        reveal_strlit("//");
        if contains_text(s, "//"@) {
            let i = choose|i: int| occurs_at(s, "//"@, i);
            assert(s.subrange(i, i + 2)[0] == '/');
            assert(s.subrange(i, i + 2)[1] == '/');
            assert(s[i] == '/' && s[i + 1] == '/');
        }
    }
}

/// The handle of a valid repository path is found, and is a valid handle.
pub proof fn lemma_handle_of_valid_path(s: Seq<char>)
    requires
        is_repository_path(s),
    ensures
        handle_of_outcome(s) == Ok::<Seq<char>, ErrorView>(split_on(s, '/')[0]),
        handle_outcome(split_on(s, '/')[0]) is Ok,
{
    lemma_position(s, '/');
    let segs = split_on(s, '/');
    lemma_handle_grammar(encode_utf8(segs[0]));
    let p = position(s, '/');
    assert(p < s.len());
    let tail = split_on(s.skip(p + 1), '/');
    assert(segs =~= seq![s.take(p)] + tail);
    if s.skip(p + 1).len() == 0 {
        assert(position(s.skip(p + 1), '/') == 0);
        assert(tail =~= seq![s.skip(p + 1)]);
        assert(segs[1] == s.skip(p + 1));
        assert(is_path_segment(segs[1]));
    }
}

/// Validates one segment of a repository path.
fn validate_path_segment(seg: &str) -> (r: Result<(), LayerhouseError>)
    ensures
        outcome(r) == segment_outcome(seg@),
{
    if seg.is_empty() {
        return Err(
            LayerhouseError::Internal("repository path contains an empty segment".to_owned()),
        );
    }
    let bytes = seg.as_bytes();
    let mut i: usize = 0;
    while i < bytes.len()
        invariant
            bytes@ == encode_utf8(seg@),
            seg@.len() > 0,
            i <= bytes@.len(),
            illegal_path_byte(bytes@, 0) == illegal_path_byte(bytes@, i as int),
        decreases bytes@.len() - i,
    {
        let b: u8 = bytes[i];
        let legal = (97 <= b && b <= 122) || (48 <= b && b <= 57) || b == 45 || b == 95 || b == 46;
        if !legal {
            let tail = concat2(" contains illegal character ", char_quoted(b as char).as_str());
            return Err(
                LayerhouseError::Internal(
                    concat3("repository path segment ", quoted(seg).as_str(), tail.as_str()),
                ),
            );
        }
        i = i + 1;
    }
    Ok(())
}

/// Validates that a text is a well-formed repository path.
pub fn validate_repository_path(s: &str) -> (r: Result<(), LayerhouseError>)
    ensures
        outcome(r) == path_outcome(s@),
        r is Ok <==> is_repository_path(s@),
{
    proof {
        lemma_path_grammar(s@);
    }
    let chars = chars_of(s);
    if chars.len() == 0 {
        return Err(LayerhouseError::Internal("repository path is empty".to_owned()));
    }
    if chars[0] == '/' || chars[chars.len() - 1] == '/' {
        return Err(
            LayerhouseError::Internal(
                concat3("repository path ", quoted(s).as_str(), " cannot start or end with '/'"),
            ),
        );
    }
    if contains_str(s, "//") {
        return Err(
            LayerhouseError::Internal(
                concat3("repository path ", quoted(s).as_str(), " contains an empty segment"),
            ),
        );
    }
    let segments = split(s, '/');
    let ghost segs = split_on(s@, '/');
    assert(segments.deep_view()[0] == segments@[0]@);
    if let Err(e) = validate_handle(segments[0].as_str()) {
        return Err(e);
    }
    let mut i: usize = 1;
    while i < segments.len()
        invariant
            segs == split_on(s@, '/'),
            segs == segments.deep_view(),
            1 <= i <= segs.len(),
            s@.len() > 0,
            s@[0] != '/',
            s@.last() != '/',
            !contains_text(s@, "//"@),
            handle_outcome(segs[0]) is Ok,
            segments_outcome(segs, 1) == segments_outcome(segs, i as int),
            path_outcome(s@) is Ok <==> is_repository_path(s@),
        decreases segs.len() - i,
    {
        assert(segs[i as int] == segments@[i as int]@);
        if let Err(e) = validate_path_segment(segments[i].as_str()) {
            return Err(e);
        }
        i = i + 1;
    }
    if segments.len() < 2 {
        return Err(
            LayerhouseError::Internal(
                concat3(
                    "repository path ",
                    quoted(s).as_str(),
                    " requires at least two segments (<handle>/<name>)",
                ),
            ),
        );
    }
    Ok(())
}

/// The leading handle of a repository path.
pub fn handle_of(repository: &str) -> (r: Result<&str, LayerhouseError>)
    ensures
        match r {
            Ok(h) => handle_of_outcome(repository@) == Ok::<Seq<char>, ErrorView>(h@),
            Err(e) => handle_of_outcome(repository@) == Err::<Seq<char>, ErrorView>(e@),
        },
{
    let chars = chars_of(repository);
    let p = find_char(&chars, 0, chars.len(), '/');
    assert(chars@.subrange(0, chars@.len() as int) =~= repository@);
    if p == chars.len() {
        return Err(
            LayerhouseError::Internal(
                concat3(
                    "repository ",
                    quoted(repository).as_str(),
                    " is missing a namespace handle prefix",
                ),
            ),
        );
    }
    if p + 1 == chars.len() {
        return Err(
            LayerhouseError::Internal(
                concat3(
                    "repository ",
                    quoted(repository).as_str(),
                    " is missing the name segment after the handle",
                ),
            ),
        );
    }
    Ok(repository.substring_char(0, p))
}

} // verus!
