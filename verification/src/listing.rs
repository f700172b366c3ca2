//! Sorting lists and cutting them into pages.
use crate::text::str_equal;
use vstd::prelude::*;

verus! {

// ── Sorting ──────────────────────────────────────────────────────────────

/// The first position from `from` on whose item is not to stand before `x`.
pub open spec fn insert_position<V>(
    sorted: Seq<V>,
    x: V,
    before: spec_fn(V, V) -> bool,
    from: int,
) -> int
    decreases sorted.len() - from,
{
    if from < sorted.len() && before(sorted[from], x) {
        insert_position(sorted, x, before, from + 1)
    } else {
        from
    }
}

/// The items of a list in an order. Items of which neither is to stand before
/// the other keep their places.
pub open spec fn stable_sorted<V>(items: Seq<V>, before: spec_fn(V, V) -> bool) -> Seq<V>
    decreases items.len(),
{
    if items.len() == 0 {
        Seq::empty()
    } else {
        let rest = stable_sorted(items.skip(1), before);
        rest.insert(insert_position(rest, items[0], before, 0), items[0])
    }
}

/// An order of items.
pub trait SortOrder<T: DeepView> {
    /// Whether an item is to stand before another.
    spec fn before(&self, a: T::V, b: T::V) -> bool;

    /// Whether an item is to stand before another.
    fn is_before(&self, a: &T, b: &T) -> (r: bool)
        ensures
            r == self.before(a.deep_view(), b.deep_view()),
    ;
}

/// The relation of an order.
pub open spec fn relation<T: DeepView, O: SortOrder<T>>(order: O) -> spec_fn(T::V, T::V) -> bool {
    |a: T::V, b: T::V| order.before(a, b)
}

/// The items of a list in an order.
pub fn sort_list<'a, T: DeepView, O: SortOrder<T>>(items: Vec<&'a T>, order: &O) -> (r: Vec<&'a T>)
    ensures
        r.deep_view() == stable_sorted(items.deep_view(), relation::<T, O>(*order)),
{
    let ghost all = items.deep_view();
    let ghost before = relation::<T, O>(*order);
    let mut left = items;
    let mut sorted: Vec<&'a T> = Vec::new();
    assert(all.skip(all.len() as int) =~= Seq::empty());
    assert(sorted.deep_view() =~= Seq::empty());
    while left.len() > 0
        invariant
            before == relation::<T, O>(*order),
            left@.len() <= all.len(),
            left.deep_view() == all.take(left@.len() as int),
            sorted.deep_view() == stable_sorted(all.skip(left@.len() as int), before),
        decreases left@.len(),
    {
        let ghost n = left@.len() as int;
        let ghost whole = left.deep_view();
        let ghost rest = sorted.deep_view();
        let x = match left.pop() {
            Some(x) => x,
            None => return sorted,
        };
        proof {
            assert(whole[n - 1] == x.deep_view());
            assert(all[n - 1] == x.deep_view());
            assert(left.deep_view() =~= all.take(n - 1));
        }
        let mut p: usize = 0;
        while p < sorted.len() && order.is_before(sorted[p], x)
            invariant
                before == relation::<T, O>(*order),
                rest == sorted.deep_view(),
                p <= sorted@.len(),
                insert_position(rest, x.deep_view(), before, 0) == insert_position(
                    rest,
                    x.deep_view(),
                    before,
                    p as int,
                ),
            decreases sorted@.len() - p,
        {
            assert(rest[p as int] == sorted@[p as int].deep_view());
            p = p + 1;
        }
        proof {
            if p < sorted@.len() {
                assert(rest[p as int] == sorted@[p as int].deep_view());
            }
            let tail = all.skip(n - 1);
            assert(tail[0] == x.deep_view());
            assert(tail.skip(1) =~= all.skip(n));
        }
        sorted.insert(p, x);
        assert(sorted.deep_view() =~= rest.insert(p as int, x.deep_view()));
    }
    assert(all.skip(0) =~= all);
    sorted
}

/// Where an item is inserted.
proof fn lemma_insert_position<V>(sorted: Seq<V>, x: V, before: spec_fn(V, V) -> bool, from: int)
    requires
        0 <= from <= sorted.len(),
    ensures
        from <= insert_position(sorted, x, before, from) <= sorted.len(),
        forall|i: int|
            from <= i < insert_position(sorted, x, before, from) ==> before(
                #[trigger] sorted[i],
                x,
            ),
        insert_position(sorted, x, before, from) < sorted.len() ==> !before(
            sorted[insert_position(sorted, x, before, from)],
            x,
        ),
    decreases sorted.len() - from,
{
    if from < sorted.len() && before(sorted[from], x) {
        lemma_insert_position(sorted, x, before, from + 1);
    }
}

/// A sorted list holds what the list held, as often as it did.
pub proof fn lemma_sorted_keeps_items<V>(items: Seq<V>, before: spec_fn(V, V) -> bool)
    ensures
        stable_sorted(items, before).to_multiset() == items.to_multiset(),
        stable_sorted(items, before).len() == items.len(),
    decreases items.len(),
{
    broadcast use vstd::seq_lib::group_to_multiset_ensures;

    if items.len() == 0 {
        assert(stable_sorted(items, before) =~= items);
    } else {
        let rest = stable_sorted(items.skip(1), before);
        lemma_sorted_keeps_items(items.skip(1), before);
        lemma_insert_position(rest, items[0], before, 0);
        let p = insert_position(rest, items[0], before, 0);
        vstd::seq_lib::to_multiset_insert(rest, p, items[0]);
        assert(items =~= items.skip(1).insert(0, items[0]));
        vstd::seq_lib::to_multiset_insert(items.skip(1), 0, items[0]);
    }
}

/// Whether a relation sorts: what is before something before a third is before
/// the third, what is not before something not before a third is not before the
/// third, and nothing is before itself.
pub open spec fn sorts<V>(before: spec_fn(V, V) -> bool) -> bool {
    &&& forall|a: V| !#[trigger] before(a, a)
    &&& forall|a: V, b: V, c: V|
        #[trigger] before(a, b) && #[trigger] before(b, c) ==> before(a, c)
    &&& forall|a: V, b: V, c: V|
        !#[trigger] before(a, b) && !#[trigger] before(b, c) ==> !before(a, c)
}

/// In a sorted list no item stands behind one that it is to stand before.
pub proof fn lemma_sorted_is_ordered<V>(items: Seq<V>, before: spec_fn(V, V) -> bool)
    requires
        sorts(before),
    ensures
        forall|i: int, j: int|
            0 <= i < j < stable_sorted(items, before).len() ==> !before(
                #[trigger] stable_sorted(items, before)[j],
                #[trigger] stable_sorted(items, before)[i],
            ),
    decreases items.len(),
{
    if items.len() > 0 {
        let x = items[0];
        let rest = stable_sorted(items.skip(1), before);
        lemma_sorted_is_ordered(items.skip(1), before);
        lemma_insert_position(rest, x, before, 0);
        let p = insert_position(rest, x, before, 0);
        let all = rest.insert(p, x);
        assert forall|i: int, j: int| 0 <= i < j < all.len() implies !before(
            #[trigger] all[j],
            #[trigger] all[i],
        ) by {
            if j < p {
                assert(all[i] == rest[i] && all[j] == rest[j]);
            } else if j == p {
                assert(all[i] == rest[i]);
                assert(before(rest[i], x));
                if before(x, rest[i]) {
                    assert(before(x, x));
                }
            } else if i < p {
                assert(all[i] == rest[i] && all[j] == rest[j - 1]);
            } else if i == p {
                assert(all[j] == rest[j - 1]);
                assert(!before(rest[p], x));
                if j - 1 > p {
                    assert(!before(rest[j - 1], rest[p]));
                }
            } else {
                assert(all[i] == rest[i - 1] && all[j] == rest[j - 1]);
            }
        }
    }
}

// ── Selecting ────────────────────────────────────────────────────────────

/// A choice of items.
pub trait Selection<T: DeepView> {
    /// Whether an item is chosen.
    spec fn selects(&self, v: T::V) -> bool;

    /// Whether an item is chosen.
    fn is_selected(&self, item: &T) -> (r: bool)
        ensures
            r == self.selects(item.deep_view()),
    ;
}

/// The predicate of a choice.
pub open spec fn predicate<T: DeepView, S: Selection<T>>(selection: S) -> spec_fn(T::V) -> bool {
    |v: T::V| selection.selects(v)
}

/// The chosen items of a list, in order.
pub fn select<'a, T: DeepView, S: Selection<T>>(items: &'a Vec<T>, selection: &S) -> (r: Vec<&'a T>)
    ensures
        r.deep_view() == items.deep_view().filter(predicate::<T, S>(*selection)),
{
    let ghost all = items.deep_view();
    let ghost wanted = predicate::<T, S>(*selection);
    let mut r: Vec<&'a T> = Vec::new();
    let mut i: usize = 0;
    proof {
        reveal(Seq::filter);
        assert(r.deep_view() =~= all.take(0).filter(wanted));
    }
    while i < items.len()
        invariant
            all == items.deep_view(),
            wanted == predicate::<T, S>(*selection),
            i <= items@.len(),
            r.deep_view() == all.take(i as int).filter(wanted),
        decreases items@.len() - i,
    {
        let ghost before = r.deep_view();
        let item = &items[i];
        proof {
            reveal(Seq::filter);
            assert(all.take(i + 1).drop_last() =~= all.take(i as int));
            assert(all.take(i + 1).last() == item.deep_view());
        }
        if selection.is_selected(item) {
            r.push(item);
            assert(r.deep_view() =~= before.push(item.deep_view()));
        }
        i = i + 1;
    }
    assert(all.take(all.len() as int) =~= all);
    r
}

// ── Pages ────────────────────────────────────────────────────────────────

/// Where a page starts: behind the item of the key that the last page ended
/// with, or at the start.
pub open spec fn page_start(keys: Seq<Seq<char>>, last: Option<Seq<char>>) -> int {
    match last {
        Some(key) => if keys.contains(key) {
            first_position(keys, key, 0) + 1
        } else {
            0
        },
        None => 0,
    }
}

/// The first position from `from` on that holds a text, or the end.
pub open spec fn first_position(keys: Seq<Seq<char>>, key: Seq<char>, from: int) -> int
    decreases keys.len() - from,
{
    if from < keys.len() && keys[from] != key {
        first_position(keys, key, from + 1)
    } else {
        from
    }
}

/// Where the first position lies.
proof fn lemma_first_position(keys: Seq<Seq<char>>, key: Seq<char>, from: int)
    requires
        0 <= from <= keys.len(),
    ensures
        from <= first_position(keys, key, from) <= keys.len(),
        first_position(keys, key, from) < keys.len() ==> keys[first_position(keys, key, from)]
            == key,
        forall|i: int| from <= i < first_position(keys, key, from) ==> #[trigger] keys[i] != key,
    decreases keys.len() - from,
{
    if from < keys.len() && keys[from] != key {
        lemma_first_position(keys, key, from + 1);
    }
}

/// A page starts within its list.
pub proof fn lemma_page_starts_within(keys: Seq<Seq<char>>, key: Seq<char>)
    ensures
        0 <= page_start(keys, Some(key)) <= keys.len(),
{
    lemma_first_position(keys, key, 0);
    if keys.contains(key) {
        let i = choose|i: int| 0 <= i < keys.len() && keys[i] == key;
        assert(keys[i] == key);
    }
}

/// The items of a page, at most `n` from a position on.
pub open spec fn page_items<V>(items: Seq<V>, start: int, n: int) -> Seq<V> {
    let end = if start + n < items.len() {
        start + n
    } else {
        items.len() as int
    };
    items.subrange(start, end)
}

/// A page of a list and whether more follows.
pub open spec fn page_of<V>(
    items: Seq<V>,
    keys: Seq<Seq<char>>,
    n: int,
    last: Option<Seq<char>>,
) -> (Seq<V>, bool) {
    let start = page_start(keys, last);
    (page_items(items, start, n), items.len() > start + n)
}

/// A page of a list and whether more follows. The keys are those of the items.
pub fn paginate<T: DeepView>(
    items: Vec<T>,
    keys: &Vec<String>,
    n: usize,
    last: Option<&str>,
) -> (r: (Vec<T>, bool))
    requires
        keys@.len() == items@.len(),
    ensures
        (r.0.deep_view(), r.1) == page_of(
            items.deep_view(),
            keys.deep_view(),
            n as int,
            match last {
                Some(key) => Some(key@),
                None => None,
            },
        ),
{
    let ghost all = items.deep_view();
    let ghost names = keys.deep_view();
    let mut start: usize = 0;
    if let Some(key) = last {
        let mut i: usize = 0;
        while i < keys.len() && !str_equal(&keys[i], key)
            invariant
                names == keys.deep_view(),
                i <= keys@.len(),
                first_position(names, key@, 0) == first_position(names, key@, i as int),
                forall|j: int| 0 <= j < i ==> #[trigger] names[j] != key@,
            decreases keys@.len() - i,
        {
            assert(names[i as int] == keys@[i as int]@);
            i = i + 1;
        }
        if i < keys.len() {
            assert(names[i as int] == key@);
            start = i + 1;
        }
    }
    let mut front = items;
    let mut page = front.split_off(start);
    let has_more = page.len() > n;
    let ghost tail = page.deep_view();
    assert(tail =~= all.skip(start as int));
    if has_more {
        page.truncate(n);
    }
    assert(page.deep_view() =~= page_items(all, start as int, n as int));
    (page, has_more)
}

/// Page after page gives the whole list: a page that starts behind the last item
/// of the page before continues where that one ended.
pub proof fn lemma_pages_continue<V>(
    items: Seq<V>,
    keys: Seq<Seq<char>>,
    n: int,
    last: Option<Seq<char>>,
)
    requires
        n > 0,
        keys.len() == items.len(),
        keys.no_duplicates(),
        page_of(items, keys, n, last).1,
    ensures
        ({
            let start = page_start(keys, last);
            let end = start + n;
            &&& page_of(items, keys, n, last).0 == items.subrange(start, end)
            &&& page_start(keys, Some(keys[end - 1])) == end
        }),
{
    match last {
        Some(key) => {
            if keys.contains(key) {
                lemma_first_position(keys, key, 0);
            }
        },
        None => {},
    }
    let end = page_start(keys, last) + n;
    let key = keys[end - 1];
    assert(keys.contains(key));
    lemma_first_position(keys, key, 0);
}

/// Where nothing is to stand before anything, a list stays as it is.
pub proof fn lemma_sorting_keeps_places<V>(items: Seq<V>, before: spec_fn(V, V) -> bool)
    requires
        forall|i: int, j: int|
            0 <= i < items.len() && 0 <= j < items.len() ==> !before(
                #[trigger] items[i],
                #[trigger] items[j],
            ),
    ensures
        stable_sorted(items, before) == items,
    decreases items.len(),
{
    if items.len() > 0 {
        let rest = items.skip(1);
        assert forall|i: int, j: int| 0 <= i < rest.len() && 0 <= j < rest.len() implies !before(
            #[trigger] rest[i],
            #[trigger] rest[j],
        ) by {
            assert(!before(items[i + 1], items[j + 1]));
        }
        lemma_sorting_keeps_places(rest, before);
        if rest.len() > 0 {
            assert(!before(items[1], items[0]));
        }
        assert(insert_position(rest, items[0], before, 0) == 0);
        assert(rest.insert(0, items[0]) =~= items);
    }
}

/// A page of a list that was chosen and sorted shows only items that were chosen, in
/// order, and no more than asked for. It is full where more follows. The first page
/// starts at the start, and where nothing follows it shows all that was chosen; a later
/// page starts behind the item that the page before ended with.
pub proof fn lemma_page_of_chosen<V>(
    items: Seq<V>,
    wanted: spec_fn(V) -> bool,
    before: spec_fn(V, V) -> bool,
    keys: Seq<Seq<char>>,
    n: int,
    last: Option<Seq<char>>,
)
    requires
        n > 0,
        keys.len() == stable_sorted(items.filter(wanted), before).len(),
        sorts(before),
    ensures
        ({
            let listed = stable_sorted(items.filter(wanted), before);
            let (page, more) = page_of(listed, keys, n, last);
            &&& page.len() <= n
            &&& more ==> page.len() == n && listed.len() > n
            &&& forall|i: int|
                0 <= i < page.len() ==> wanted(#[trigger] page[i]) && items.contains(page[i])
            &&& forall|i: int, j: int|
                0 <= i < j < page.len() ==> !before(#[trigger] page[j], #[trigger] page[i])
            &&& page.len() <= listed.len() <= items.len()
            &&& last is None && !more ==> page.len() == listed.len() && forall|v: V|
                items.contains(v) && wanted(v) ==> #[trigger] page.contains(v)
            &&& last is None && more ==> page == listed.take(n)
            &&& forall|p: int, j: int|
                0 <= p < keys.len() && keys[p] == last->0 && last is Some && keys.no_duplicates()
                    && 0 <= j < page.len() ==> p + 1 + j < listed.len() && #[trigger] page[j]
                    == #[trigger] listed[p + 1 + j]
        }),
{
    let chosen = items.filter(wanted);
    let listed = stable_sorted(chosen, before);
    let (page, more) = page_of(listed, keys, n, last);
    let start = page_start(keys, last);
    lemma_sorted_is_ordered(chosen, before);
    lemma_sorted_keeps_items(chosen, before);
    items.lemma_filter_len(wanted);
    if let Some(key) = last {
        lemma_first_position(keys, key, 0);
    }
    assert(0 <= start <= listed.len());
    broadcast use vstd::seq_lib::group_to_multiset_ensures;

    assert forall|i: int| 0 <= i < page.len() implies wanted(#[trigger] page[i]) && items.contains(
        page[i],
    ) by {
        let v = listed[start + i];
        assert(listed.to_multiset().count(v) > 0) by {
            assert(listed.contains(v));
        }
        assert(chosen.contains(v));
        let k = choose|k: int| 0 <= k < chosen.len() && chosen[k] == v;
        items.lemma_filter_pred(wanted, k);
        lemma_filter_among(items, wanted, v);
    }
    assert forall|i: int, j: int| 0 <= i < j < page.len() implies !before(
        #[trigger] page[j],
        #[trigger] page[i],
    ) by {
        assert(page[i] == listed[start + i] && page[j] == listed[start + j]);
    }
    if last is None && !more {
        assert(page =~= listed);
        assert forall|v: V| items.contains(v) && wanted(v) implies #[trigger] page.contains(v) by {
            let k = choose|k: int| 0 <= k < items.len() && items[k] == v;
            items.lemma_filter_contains(wanted, k);
            assert(chosen.to_multiset().count(v) > 0);
            assert(listed.to_multiset().count(v) > 0);
        }
    }
    if last is None && more {
        assert(page =~= listed.take(n));
    }
    assert forall|p: int, j: int|
        0 <= p < keys.len() && keys[p] == last->0 && last is Some && keys.no_duplicates() && 0 <= j
            < page.len() implies p + 1 + j < listed.len() && #[trigger] page[j]
        == #[trigger] listed[p + 1 + j] by {
        let key = last->0;
        assert(keys.contains(key));
        let f = first_position(keys, key, 0);
        if f < keys.len() {
            assert(keys[f] == key && keys[p] == key);
        }
    }
}

/// What a filter keeps was there.
proof fn lemma_filter_among<V>(items: Seq<V>, wanted: spec_fn(V) -> bool, v: V)
    requires
        items.filter(wanted).contains(v),
    ensures
        items.contains(v),
    decreases items.len(),
{
    reveal(Seq::filter);
    if items.len() > 0 {
        let front = items.drop_last();
        let kept = items.filter(wanted);
        let k = choose|k: int| 0 <= k < kept.len() && kept[k] == v;
        if k < front.filter(wanted).len() {
            assert(front.filter(wanted)[k] == v);
            lemma_filter_among(front, wanted, v);
            let i = choose|i: int| 0 <= i < front.len() && front[i] == v;
            assert(items[i] == v);
        } else {
            assert(items[items.len() - 1] == v);
        }
    }
}

} // verus!
