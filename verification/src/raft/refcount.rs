//! How the reference counts of blobs follow the manifests.
use crate::raft::model::{count_of, decremented, has_room, incremented, CountsModel};
use vstd::prelude::*;

verus! {

/// How often a blob occurs in a list of references.
pub open spec fn occurrences(refs: Seq<Seq<char>>, digest: Seq<char>) -> nat
    decreases refs.len(),
{
    if refs.len() == 0 {
        0
    } else if refs.last() == digest {
        occurrences(refs.drop_last(), digest) + 1
    } else {
        occurrences(refs.drop_last(), digest)
    }
}

/// Counting these references one by one never exceeds the range of a count.
pub open spec fn fits(counts: CountsModel, refs: Seq<Seq<char>>) -> bool {
    forall|n: int|
        0 <= n < refs.len() ==> count_of(#[trigger] incremented(counts, refs.take(n)), refs[n])
            < u64::MAX
}

/// An occurrence is a member.
pub proof fn lemma_occurrences(refs: Seq<Seq<char>>, digest: Seq<char>)
    ensures
        occurrences(refs, digest) > 0 <==> refs.contains(digest),
        occurrences(refs, digest) <= refs.len(),
        refs.no_duplicates() ==> occurrences(refs, digest) <= 1,
    decreases refs.len(),
{
    if refs.len() > 0 {
        let front = refs.drop_last();
        lemma_occurrences(front, digest);
        if refs.contains(digest) {
            let i = choose|i: int| 0 <= i < refs.len() && refs[i] == digest;
            if i < front.len() {
                assert(front[i] == digest);
            }
        }
        if front.contains(digest) {
            let i = choose|i: int| 0 <= i < front.len() && front[i] == digest;
            assert(refs[i] == digest);
        }
        if refs.no_duplicates() {
            assert(front.no_duplicates());
            if refs.last() == digest && front.contains(digest) {
                let i = choose|i: int| 0 <= i < front.len() && front[i] == digest;
                assert(refs[i] == refs[refs.len() - 1]);
            }
        }
    }
}

/// Occurrences add up.
pub proof fn lemma_occurrences_concat(a: Seq<Seq<char>>, b: Seq<Seq<char>>, digest: Seq<char>)
    ensures
        occurrences(a + b, digest) == occurrences(a, digest) + occurrences(b, digest),
    decreases b.len(),
{
    if b.len() == 0 {
        assert(a + b =~= a);
    } else {
        assert((a + b).drop_last() =~= a + b.drop_last());
        lemma_occurrences_concat(a, b.drop_last(), digest);
    }
}

proof fn lemma_fits_front(counts: CountsModel, refs: Seq<Seq<char>>)
    requires
        fits(counts, refs),
        refs.len() > 0,
    ensures
        fits(counts, refs.drop_last()),
        count_of(incremented(counts, refs.drop_last()), refs.last()) < u64::MAX,
{
    let front = refs.drop_last();
    assert forall|n: int| 0 <= n < front.len() implies count_of(
        #[trigger] incremented(counts, front.take(n)),
        front[n],
    ) < u64::MAX by {
        assert(front.take(n) =~= refs.take(n));
        assert(count_of(incremented(counts, refs.take(n)), refs[n]) < u64::MAX);
    }
    assert(refs.take(refs.len() - 1) =~= front);
    assert(count_of(incremented(counts, refs.take(refs.len() - 1)), refs[refs.len() - 1])
        < u64::MAX);
}

/// Counting references adds their occurrences.
pub proof fn lemma_incremented(counts: CountsModel, refs: Seq<Seq<char>>, digest: Seq<char>)
    requires
        fits(counts, refs),
    ensures
        count_of(incremented(counts, refs), digest) == count_of(counts, digest) + occurrences(
            refs,
            digest,
        ),
        incremented(counts, refs).dom().contains(digest) <==> counts.dom().contains(digest)
            || refs.contains(digest),
    decreases refs.len(),
{
    lemma_occurrences(refs, digest);
    if refs.len() > 0 {
        lemma_fits_front(counts, refs);
        lemma_incremented(counts, refs.drop_last(), digest);
        lemma_occurrences(refs.drop_last(), digest);
    }
}

/// References without repetitions can be counted where every count has room.
pub proof fn lemma_unique_fits(counts: CountsModel, refs: Seq<Seq<char>>)
    requires
        has_room(counts),
        refs.no_duplicates(),
    ensures
        fits(counts, refs),
    decreases refs.len(),
{
    if refs.len() > 0 {
        let front = refs.drop_last();
        assert(front.no_duplicates());
        lemma_unique_fits(counts, front);
        assert forall|n: int| 0 <= n < refs.len() implies count_of(
            #[trigger] incremented(counts, refs.take(n)),
            refs[n],
        ) < u64::MAX by {
            if n < front.len() {
                assert(front.take(n) =~= refs.take(n));
                assert(count_of(incremented(counts, front.take(n)), front[n]) < u64::MAX);
            } else {
                assert(refs.take(n) =~= front);
                lemma_incremented(counts, front, refs[n]);
                lemma_occurrences(front, refs[n]);
                if front.contains(refs[n]) {
                    let i = choose|i: int| 0 <= i < front.len() && front[i] == refs[n];
                    assert(refs[i] == refs[n]);
                }
            }
        }
    }
}

/// References that are few enough can be counted from nothing.
pub proof fn lemma_few_fit(refs: Seq<Seq<char>>)
    requires
        refs.len() <= u64::MAX,
    ensures
        fits(Map::empty(), refs),
    decreases refs.len(),
{
    let counts = Map::<Seq<char>, u64>::empty();
    if refs.len() > 0 {
        let front = refs.drop_last();
        lemma_few_fit(front);
        assert forall|n: int| 0 <= n < refs.len() implies count_of(
            #[trigger] incremented(counts, refs.take(n)),
            refs[n],
        ) < u64::MAX by {
            if n < front.len() {
                assert(front.take(n) =~= refs.take(n));
                assert(count_of(incremented(counts, front.take(n)), front[n]) < u64::MAX);
            } else {
                assert(refs.take(n) =~= front);
                lemma_incremented(counts, front, refs[n]);
                lemma_occurrences(front, refs[n]);
            }
        }
    }
}

/// Dropping references takes their occurrences away, down to zero, and keeps
/// no count of zero.
pub proof fn lemma_decremented(counts: CountsModel, refs: Seq<Seq<char>>, digest: Seq<char>)
    ensures
        count_of(decremented(counts, refs), digest) == if count_of(counts, digest) >= occurrences(
            refs,
            digest,
        ) {
            count_of(counts, digest) - occurrences(refs, digest)
        } else {
            0
        },
        decremented(counts, refs).dom().contains(digest) ==> counts.dom().contains(digest),
        !refs.contains(digest) && counts.dom().contains(digest) ==> decremented(
            counts,
            refs,
        ).dom().contains(digest),
        refs.contains(digest) && decremented(counts, refs).dom().contains(digest) ==> count_of(
            decremented(counts, refs),
            digest,
        ) > 0,
    decreases refs.len(),
{
    lemma_occurrences(refs, digest);
    if refs.len() > 0 {
        lemma_decremented(counts, refs.drop_last(), digest);
        lemma_occurrences(refs.drop_last(), digest);
        let c = decremented(counts, refs.drop_last());
        if refs.last() != digest && refs.contains(digest) {
            let i = choose|i: int| 0 <= i < refs.len() && refs[i] == digest;
            assert(refs.drop_last()[i] == digest);
        }
        if refs.drop_last().contains(digest) {
            let i = choose|i: int| 0 <= i < refs.drop_last().len() && refs.drop_last()[i] == digest;
            assert(refs[i] == digest);
        }
    }
}

/// Dropping references leaves room where there was room.
pub proof fn lemma_decremented_room(counts: CountsModel, refs: Seq<Seq<char>>)
    requires
        has_room(counts),
    ensures
        has_room(decremented(counts, refs)),
{
    assert forall|d: Seq<char>| #[trigger] decremented(counts, refs).dom().contains(d) implies
        decremented(counts, refs)[d] < u64::MAX by {
        lemma_decremented(counts, refs, d);
    }
}

/// Counting two lists is counting the one and then the other.
pub proof fn lemma_incremented_concat(
    counts: CountsModel,
    a: Seq<Seq<char>>,
    b: Seq<Seq<char>>,
)
    ensures
        incremented(counts, a + b) == incremented(incremented(counts, a), b),
    decreases b.len(),
{
    if b.len() == 0 {
        assert(a + b =~= a);
    } else {
        assert((a + b).drop_last() =~= a + b.drop_last());
        lemma_incremented_concat(counts, a, b.drop_last());
    }
}

/// A list that fits does so stretch by stretch.
pub proof fn lemma_fits_stretch(
    counts: CountsModel,
    all: Seq<Seq<char>>,
    a: Seq<Seq<char>>,
    b: Seq<Seq<char>>,
)
    requires
        fits(counts, all),
        (a + b).is_prefix_of(all),
    ensures
        fits(incremented(counts, a), b),
{
    assert forall|n: int| 0 <= n < b.len() implies count_of(
        #[trigger] incremented(incremented(counts, a), b.take(n)),
        b[n],
    ) < u64::MAX by {
        lemma_incremented_concat(counts, a, b.take(n));
        let m = a.len() + n;
        assert(all.take(m) =~= a + b.take(n)) by {
            assert((a + b) =~= all.subrange(0, (a + b).len() as int));
            assert(all.take(m) =~= (a + b).take(m));
        }
        assert(count_of(incremented(counts, all.take(m)), all[m]) < u64::MAX);
        assert(all[m] == (a + b)[m]);
    }
}

} // verus!
