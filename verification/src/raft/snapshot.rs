//! Snapshots of the state: a version, and the encoded state after it.
use crate::text::{concat2, concat3, decimal, decimal_text};
use vstd::prelude::*;

verus! {

/// The version that snapshots are written in.
pub const SNAPSHOT_VERSION: u32 = 5;

/// The versions that can be read. The collections that an older version does
/// not have are taken as empty.
pub open spec fn readable_version(version: int) -> bool {
    version == 2 || version == 4 || version == SNAPSHOT_VERSION
}

/// The number that four bytes stand for, the lowest first.
pub open spec fn le_number(b: Seq<u8>) -> int {
    b[0] + 256 * b[1] + 65536 * b[2] + 16777216 * b[3]
}

/// Why a snapshot cannot be read.
#[derive(Debug, Clone, Copy, PartialEq, Eq, Structural)]
pub enum SnapshotError {
    TooShort,
    UnsupportedVersion(u32),
}

impl SnapshotError {
    /// What the error says.
    pub fn message(&self) -> (r: String)
        ensures
            r@ == match self {
                SnapshotError::TooShort => "snapshot too short"@,
                SnapshotError::UnsupportedVersion(version) => "unsupported snapshot version: "@
                    + decimal_text(*version as nat),
            },
    {
        match self {
            SnapshotError::TooShort => "snapshot too short".to_owned(),
            SnapshotError::UnsupportedVersion(version) => concat2(
                "unsupported snapshot version: ",
                decimal(*version as u64).as_str(),
            ),
        }
    }
}

/// A snapshot of an encoded state.
pub open spec fn framed(payload: Seq<u8>) -> Seq<u8> {
    seq![5u8, 0u8, 0u8, 0u8] + payload
}

/// The encoded state that a snapshot holds.
pub open spec fn unframed(bytes: Seq<u8>) -> Result<Seq<u8>, SnapshotError> {
    if bytes.len() < 4 {
        Err(SnapshotError::TooShort)
    } else if readable_version(le_number(bytes)) {
        Ok(bytes.skip(4))
    } else {
        Err(SnapshotError::UnsupportedVersion(le_number(bytes) as u32))
    }
}

/// Reading a snapshot gives back what was written.
pub proof fn lemma_snapshot_roundtrip(payload: Seq<u8>)
    ensures
        unframed(framed(payload)) == Ok::<Seq<u8>, SnapshotError>(payload),
{
    assert(framed(payload).skip(4) =~= payload);
}

/// A snapshot of an encoded state.
pub fn frame_snapshot(payload: &Vec<u8>) -> (r: Vec<u8>)
    ensures
        r@ == framed(payload@),
{
    let mut r: Vec<u8> = Vec::new();
    r.push(5);
    r.push(0);
    r.push(0);
    r.push(0);
    let mut i: usize = 0;
    assert(r@ =~= seq![5u8, 0u8, 0u8, 0u8] + payload@.take(0));
    while i < payload.len()
        invariant
            i <= payload@.len(),
            r@ == seq![5u8, 0u8, 0u8, 0u8] + payload@.take(i as int),
        decreases payload@.len() - i,
    {
        r.push(payload[i]);
        i = i + 1;
        assert(r@ =~= seq![5u8, 0u8, 0u8, 0u8] + payload@.take(i as int));
    }
    assert(payload@.take(payload@.len() as int) =~= payload@);
    r
}

/// The encoded state that a snapshot holds.
pub fn snapshot_payload(bytes: &Vec<u8>) -> (r: Result<Vec<u8>, SnapshotError>)
    ensures
        match r {
            Ok(payload) => unframed(bytes@) == Ok::<Seq<u8>, SnapshotError>(payload@),
            Err(e) => unframed(bytes@) == Err::<Seq<u8>, SnapshotError>(e),
        },
{
    if bytes.len() < 4 {
        return Err(SnapshotError::TooShort);
    }
    let version: u32 = bytes[0] as u32 + 256 * bytes[1] as u32 + 65536 * bytes[2] as u32
        + 16777216 * bytes[3] as u32;
    if version != 2 && version != 4 && version != SNAPSHOT_VERSION {
        return Err(SnapshotError::UnsupportedVersion(version));
    }
    let mut payload: Vec<u8> = Vec::new();
    let mut i: usize = 4;
    assert(payload@ =~= bytes@.subrange(4, 4));
    while i < bytes.len()
        invariant
            4 <= i <= bytes@.len(),
            payload@ == bytes@.subrange(4, i as int),
        decreases bytes@.len() - i,
    {
        payload.push(bytes[i]);
        i = i + 1;
        assert(payload@ =~= bytes@.subrange(4, i as int));
    }
    assert(bytes@.subrange(4, bytes@.len() as int) =~= bytes@.skip(4));
    Ok(payload)
}

/// The name of a snapshot: the leader and the position of the last change in
/// it, where it has one.
pub open spec fn snapshot_name(last: Option<(Seq<char>, u64)>) -> Seq<char> {
    match last {
        Some((leader, index)) => leader + "-"@ + decimal_text(index as nat),
        None => "empty"@,
    }
}

/// The name of a snapshot.
pub fn snapshot_id(last: Option<(String, u64)>) -> (r: String)
    ensures
        r@ == snapshot_name(last.deep_view()),
{
    match last {
        Some((leader, index)) => concat3(leader.as_str(), "-", decimal(index).as_str()),
        None => "empty".to_owned(),
    }
}

} // verus!
