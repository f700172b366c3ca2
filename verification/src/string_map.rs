//! An ordered map with text keys, kept as two parallel vectors sorted by key.
use crate::text::{
    lemma_text_lt_irreflexive, lemma_text_lt_total, lemma_text_lt_transitive, str_equal, str_less,
    text_lt,
};
use vstd::prelude::*;

verus! {

/// The keys stand in strictly ascending order.
pub open spec fn ascending(keys: Seq<Seq<char>>) -> bool {
    forall|i: int, j: int|
        0 <= i < j < keys.len() ==> text_lt(#[trigger] keys[i], #[trigger] keys[j])
}

/// `keys` lists the members of `dom` in strictly ascending order.
pub open spec fn lists_keys(keys: Seq<Seq<char>>, dom: Set<Seq<char>>) -> bool {
    &&& ascending(keys)
    &&& forall|k: Seq<char>| #[trigger] keys.contains(k) <==> dom.contains(k)
}

/// The members of a finite set of texts in strictly ascending order.
pub open spec fn sorted_keys(dom: Set<Seq<char>>) -> Seq<Seq<char>> {
    choose|keys: Seq<Seq<char>>| lists_keys(keys, dom)
}

/// The map that two parallel sequences stand for.
pub open spec fn entry_map<T>(keys: Seq<Seq<char>>, values: Seq<T>) -> Map<Seq<char>, T> {
    Map::new(|k: Seq<char>| keys.contains(k), |k: Seq<char>| values[keys.index_of(k)])
}

/// An ascending listing does not repeat a key, so a key has one position.
pub proof fn lemma_ascending_position(keys: Seq<Seq<char>>, i: int)
    requires
        ascending(keys),
        0 <= i < keys.len(),
    ensures
        keys.index_of(keys[i]) == i,
        keys.no_duplicates(),
{
    assert forall|a: int, b: int| 0 <= a < keys.len() && 0 <= b < keys.len() && a != b implies keys[a]
        != keys[b] by {
        lemma_text_lt_irreflexive(keys[a]);
        lemma_text_lt_irreflexive(keys[b]);
        if a < b {
            assert(text_lt(keys[a], keys[b]));
        } else {
            assert(text_lt(keys[b], keys[a]));
        }
    }
    assert(keys.contains(keys[i]));
    let p = keys.index_of(keys[i]);
    assert(keys[p] == keys[i]);
}

/// Two ascending listings of one set are the same sequence.
pub proof fn lemma_listing_unique(a: Seq<Seq<char>>, b: Seq<Seq<char>>, dom: Set<Seq<char>>)
    requires
        lists_keys(a, dom),
        lists_keys(b, dom),
    ensures
        a == b,
    decreases a.len(),
{
    if a.len() == 0 {
        if b.len() > 0 {
            assert(b.contains(b[0]));
            assert(a.contains(b[0]));
        }
        assert(a =~= b);
    } else {
        assert(a.contains(a[0]));
        assert(b.contains(a[0]));
        assert(b.contains(b[0]));
        assert(a.contains(b[0]));
        let i = choose|i: int| 0 <= i < b.len() && b[i] == a[0];
        let j = choose|j: int| 0 <= j < a.len() && a[j] == b[0];
        if a[0] != b[0] {
            assert(text_lt(b[0], b[i]));
            assert(text_lt(a[0], a[j]));
            lemma_text_lt_transitive(a[0], b[0], a[0]);
            lemma_text_lt_irreflexive(a[0]);
        }
        let ra = a.drop_first();
        let rb = b.drop_first();
        let rest = dom.remove(a[0]);
        assert forall|k: Seq<char>| #[trigger] ra.contains(k) <==> rest.contains(k) by {
            lemma_drop_first_contains(a, k);
        }
        assert forall|k: Seq<char>| #[trigger] rb.contains(k) <==> rest.contains(k) by {
            lemma_drop_first_contains(b, k);
        }
        assert(ascending(ra)) by {
            assert forall|x: int, y: int| 0 <= x < y < ra.len() implies text_lt(
                #[trigger] ra[x],
                #[trigger] ra[y],
            ) by {
                assert(text_lt(a[x + 1], a[y + 1]));
            }
        }
        assert(ascending(rb)) by {
            assert forall|x: int, y: int| 0 <= x < y < rb.len() implies text_lt(
                #[trigger] rb[x],
                #[trigger] rb[y],
            ) by {
                assert(text_lt(b[x + 1], b[y + 1]));
            }
        }
        lemma_listing_unique(ra, rb, rest);
        assert(a =~= seq![a[0]] + ra);
        assert(b =~= seq![b[0]] + rb);
    }
}

proof fn lemma_drop_first_contains(a: Seq<Seq<char>>, k: Seq<char>)
    requires
        ascending(a),
        a.len() > 0,
    ensures
        a.drop_first().contains(k) <==> (a.contains(k) && k != a[0]),
{
    let r = a.drop_first();
    if r.contains(k) {
        let i = choose|i: int| 0 <= i < r.len() && r[i] == k;
        assert(a[i + 1] == k);
        assert(text_lt(a[0], a[i + 1]));
        lemma_text_lt_irreflexive(k);
    }
    if a.contains(k) && k != a[0] {
        let i = choose|i: int| 0 <= i < a.len() && a[i] == k;
        assert(r[i - 1] == k);
    }
}

/// `sorted_keys` is the listing that a witness shows.
pub proof fn lemma_sorted_keys(keys: Seq<Seq<char>>, dom: Set<Seq<char>>)
    requires
        lists_keys(keys, dom),
    ensures
        sorted_keys(dom) == keys,
{
    lemma_listing_unique(keys, sorted_keys(dom), dom);
}

/// A key stands somewhere in an ascending listing that lacks it.
proof fn lemma_place_exists(keys: Seq<Seq<char>>, k: Seq<char>, n: int) -> (i: int)
    requires
        ascending(keys),
        !keys.contains(k),
        0 <= n <= keys.len(),
        forall|j: int| n <= j < keys.len() ==> text_lt(k, #[trigger] keys[j]),
    ensures
        0 <= i <= keys.len(),
        forall|j: int| 0 <= j < i ==> text_lt(#[trigger] keys[j], k),
        forall|j: int| i <= j < keys.len() ==> text_lt(k, #[trigger] keys[j]),
    decreases n,
{
    if n == 0 {
        0
    } else {
        lemma_text_lt_total(keys[n - 1], k);
        assert(keys.contains(keys[n - 1]));
        if text_lt(keys[n - 1], k) {
            assert forall|j: int| 0 <= j < n implies text_lt(#[trigger] keys[j], k) by {
                if j < n - 1 {
                    assert(text_lt(keys[j], keys[n - 1]));
                    lemma_text_lt_transitive(keys[j], keys[n - 1], k);
                }
            }
            n
        } else {
            lemma_place_exists(keys, k, n - 1)
        }
    }
}

/// A finite set of texts has an ascending listing.
pub proof fn lemma_finite_listing(dom: Set<Seq<char>>)
    requires
        dom.finite(),
    ensures
        lists_keys(sorted_keys(dom), dom),
    decreases dom.len(),
{
    if dom.len() == 0 {
        assert(lists_keys(Seq::empty(), dom));
    } else {
        let k = dom.choose();
        let rest = dom.remove(k);
        lemma_finite_listing(rest);
        let keys = sorted_keys(rest);
        assert(!keys.contains(k));
        let i = lemma_place_exists(keys, k, keys.len() as int);
        let all = keys.insert(i, k);
        assert forall|x: int, y: int| 0 <= x < y < all.len() implies text_lt(
            #[trigger] all[x],
            #[trigger] all[y],
        ) by {
            let ox = if x < i { x } else { x - 1 };
            let oy = if y < i { y } else { y - 1 };
            if x != i && y != i {
                assert(text_lt(keys[ox], keys[oy]));
            }
        }
        assert forall|x: Seq<char>| #[trigger] all.contains(x) <==> dom.contains(x) by {
            if all.contains(x) {
                let p = choose|p: int| 0 <= p < all.len() && all[p] == x;
                if p < i {
                    assert(keys[p] == x);
                    assert(keys.contains(x));
                } else if p > i {
                    assert(keys[p - 1] == x);
                    assert(keys.contains(x));
                }
            }
            if dom.contains(x) && x != k {
                assert(keys.contains(x));
                let p = choose|p: int| 0 <= p < keys.len() && keys[p] == x;
                if p < i {
                    assert(all[p] == x);
                } else {
                    assert(all[p + 1] == x);
                }
            }
            assert(all[i] == k);
        }
        assert(lists_keys(all, dom));
    }
}

/// An ordered map from texts to values.
#[derive(Debug)]
pub struct StringMap<V> {
    keys: Vec<String>,
    values: Vec<V>,
}

impl<V> StringMap<V> {
    #[verifier::type_invariant]
    spec fn inv(self) -> bool {
        &&& self.keys@.len() == self.values@.len()
        &&& ascending(self.keys.deep_view())
    }

    closed spec fn key_seq(&self) -> Seq<Seq<char>> {
        self.keys.deep_view()
    }
}

impl<V: DeepView> View for StringMap<V> {
    type V = Map<Seq<char>, V::V>;

    closed spec fn view(&self) -> Map<Seq<char>, V::V> {
        entry_map(self.keys.deep_view(), self.values.deep_view())
    }
}

impl<V: DeepView> DeepView for StringMap<V> {
    type V = Map<Seq<char>, V::V>;

    open spec fn deep_view(&self) -> Map<Seq<char>, V::V> {
        self.view()
    }
}

/// A map has finitely many keys.
pub proof fn lemma_finite_keys<V: DeepView>(m: &StringMap<V>)
    ensures
        m@.dom().finite(),
{
    let keys = m.keys.deep_view();
    vstd::seq_lib::seq_to_set_is_finite(keys);
    assert(m@.dom() =~= keys.to_set());
}

impl<V: DeepView> StringMap<V> {
    /// The empty map.
    pub fn new() -> (r: Self)
        ensures
            r@ == Map::<Seq<char>, V::V>::empty(),
    {
        let r = StringMap { keys: Vec::new(), values: Vec::new() };
        assert(r@ =~= Map::<Seq<char>, V::V>::empty());
        r
    }

    /// The position of a key, or the position where it belongs.
    fn find(&self, key: &str) -> (r: Result<usize, usize>)
        ensures
            match r {
                Ok(i) => i < self.key_seq().len() && self.key_seq()[i as int] == key@,
                Err(i) => {
                    &&& i <= self.key_seq().len()
                    &&& forall|j: int| 0 <= j < i ==> text_lt(#[trigger] self.key_seq()[j], key@)
                    &&& forall|j: int|
                        i <= j < self.key_seq().len() ==> text_lt(key@, #[trigger] self.key_seq()[j])
                },
            },
    {
        proof {
            use_type_invariant(self);
        }
        let ghost ks = self.key_seq();
        let mut lo: usize = 0;
        let mut hi: usize = self.keys.len();
        while lo < hi
            invariant
                ks == self.keys.deep_view(),
                ascending(ks),
                lo <= hi <= ks.len(),
                ks.len() == self.keys@.len(),
                forall|j: int| 0 <= j < lo ==> text_lt(#[trigger] ks[j], key@),
                forall|j: int| hi <= j < ks.len() ==> text_lt(key@, #[trigger] ks[j]),
            decreases hi - lo,
        {
            let mid: usize = lo + (hi - lo) / 2;
            let probe = self.keys[mid].as_str();
            assert(probe@ == ks[mid as int]);
            if str_equal(probe, key) {
                return Ok(mid);
            }
            if str_less(probe, key) {
                assert forall|j: int| 0 <= j < mid + 1 implies text_lt(#[trigger] ks[j], key@) by {
                    if j < mid {
                        assert(text_lt(ks[j], ks[mid as int]));
                        lemma_text_lt_transitive(ks[j], ks[mid as int], key@);
                    }
                }
                lo = mid + 1;
            } else {
                proof {
                    lemma_text_lt_total(ks[mid as int], key@);
                }
                assert forall|j: int| mid <= j < ks.len() implies text_lt(key@, #[trigger] ks[j]) by {
                    if mid < j {
                        assert(text_lt(ks[mid as int], ks[j]));
                        lemma_text_lt_transitive(key@, ks[mid as int], ks[j]);
                    }
                }
                hi = mid;
            }
        }
        Err(lo)
    }

    /// The number of entries.
    pub fn len(&self) -> (r: usize)
        ensures
            r == sorted_keys(self@.dom()).len(),
            r == self@.dom().len(),
            self@.dom().finite(),
            lists_keys(sorted_keys(self@.dom()), self@.dom()),
    {
        proof {
            use_type_invariant(self);
            self.lemma_view();
            let ks = self.key_seq();
            assert(self@.dom() =~= ks.to_set());
            if ks.len() > 0 {
                lemma_ascending_position(ks, 0);
            }
            ks.unique_seq_to_set();
        }
        self.keys.len()
    }

    proof fn lemma_view(&self)
        requires
            self.inv(),
        ensures
            lists_keys(self.key_seq(), self@.dom()),
            sorted_keys(self@.dom()) == self.key_seq(),
            self.key_seq().len() == self.keys@.len(),
            forall|i: int|
                0 <= i < self.key_seq().len() ==> self@[#[trigger] self.key_seq()[i]]
                    == self.values@[i].deep_view(),
    {
        let ks = self.key_seq();
        lemma_sorted_keys(ks, self@.dom());
        assert forall|i: int| 0 <= i < ks.len() implies self@[#[trigger] ks[i]]
            == self.values@[i].deep_view() by {
            lemma_ascending_position(ks, i);
            assert(ks.contains(ks[i]));
        }
    }

    /// The key at a position of the ascending listing.
    pub fn key_at(&self, i: usize) -> (r: &String)
        requires
            i < sorted_keys(self@.dom()).len(),
        ensures
            r@ == sorted_keys(self@.dom())[i as int],
            self@.dom().contains(r@),
    {
        proof {
            use_type_invariant(self);
            self.lemma_view();
            assert(self.key_seq().contains(self.key_seq()[i as int]));
        }
        &self.keys[i]
    }

    /// The value at a position of the ascending listing.
    pub fn value_at(&self, i: usize) -> (r: &V)
        requires
            i < sorted_keys(self@.dom()).len(),
        ensures
            r.deep_view() == self@[sorted_keys(self@.dom())[i as int]],
            self@.dom().contains(sorted_keys(self@.dom())[i as int]),
    {
        proof {
            use_type_invariant(self);
            self.lemma_view();
            assert(self.key_seq().contains(self.key_seq()[i as int]));
        }
        &self.values[i]
    }

    /// The value under a key.
    pub fn get(&self, key: &str) -> (r: Option<&V>)
        ensures
            match r {
                Some(v) => self@.dom().contains(key@) && v.deep_view() == self@[key@],
                None => !self@.dom().contains(key@),
            },
    {
        proof {
            use_type_invariant(self);
            self.lemma_view();
        }
        match self.find(key) {
            Ok(i) => {
                assert(self.key_seq().contains(key@));
                Some(&self.values[i])
            },
            Err(i) => {
                proof {
                    self.lemma_absent(key@, i as int);
                }
                None
            },
        }
    }

    proof fn lemma_absent(&self, key: Seq<char>, i: int)
        requires
            self.inv(),
            0 <= i <= self.key_seq().len(),
            forall|j: int| 0 <= j < i ==> text_lt(#[trigger] self.key_seq()[j], key),
            forall|j: int|
                i <= j < self.key_seq().len() ==> text_lt(key, #[trigger] self.key_seq()[j]),
        ensures
            !self@.dom().contains(key),
    {
        lemma_text_lt_irreflexive(key);
    }

    /// Whether a key is present.
    pub fn contains_key(&self, key: &str) -> (r: bool)
        ensures
            r == self@.dom().contains(key@),
    {
        self.get(key).is_some()
    }

    /// Whether the map holds nothing.
    pub fn is_empty(&self) -> (r: bool)
        ensures
            r == (self@ == Map::<Seq<char>, V::V>::empty()),
    {
        proof {
            use_type_invariant(self);
            self.lemma_view();
            if self.keys@.len() == 0 {
                assert(self@ =~= Map::<Seq<char>, V::V>::empty());
            } else {
                assert(self.key_seq().contains(self.key_seq()[0]));
            }
        }
        self.keys.len() == 0
    }

    /// Puts a value under a key and hands back the value that it replaces.
    pub fn insert(&mut self, key: String, value: V) -> (r: Option<V>)
        ensures
            final(self)@ == old(self)@.insert(key@, value.deep_view()),
            match r {
                Some(v) => old(self)@.dom().contains(key@) && v.deep_view() == old(self)@[key@],
                None => !old(self)@.dom().contains(key@),
            },
    {
        proof {
            use_type_invariant(&*self);
            self.lemma_view();
        }
        let ghost before = *self;
        let ghost ks = self.key_seq();
        let found = self.find(key.as_str());
        let mut empty: Self = Self::new();
        std::mem::swap(self, &mut empty);
        let StringMap { mut keys, mut values } = empty;
        let r: Option<V>;
        match found {
            Ok(i) => {
                let mut slot = value;
                std::mem::swap(&mut values[i], &mut slot);
                r = Some(slot);
                *self = StringMap { keys, values };
                proof {
                    assert(ks.contains(key@));
                    Self::lemma_replace(before, *self, i as int, value);
                }
            },
            Err(i) => {
                keys.insert(i, key);
                values.insert(i, value);
                proof {
                    before.lemma_absent(key@, i as int);
                    let nks = keys.deep_view();
                    assert(nks =~= ks.insert(i as int, key@));
                    assert forall|x: int, y: int| 0 <= x < y < nks.len() implies text_lt(
                        #[trigger] nks[x],
                        #[trigger] nks[y],
                    ) by {
                        let ox = if x < i { x } else { x - 1 };
                        let oy = if y < i { y } else { y - 1 };
                        if x != i && y != i {
                            assert(text_lt(ks[ox], ks[oy]));
                        }
                    }
                }
                r = None;
                *self = StringMap { keys, values };
                proof {
                    self.lemma_view();
                    let nks = self.key_seq();
                    assert(nks =~= ks.insert(i as int, key@));
                    assert forall|k: Seq<char>| nks.contains(k) <==> (ks.contains(k) || k == key@) by {
                        if nks.contains(k) {
                            let p = choose|p: int| 0 <= p < nks.len() && nks[p] == k;
                            if p < i {
                                assert(ks[p] == k);
                            } else if p > i {
                                assert(ks[p - 1] == k);
                            }
                        }
                        if ks.contains(k) {
                            let p = choose|p: int| 0 <= p < ks.len() && ks[p] == k;
                            if p < i {
                                assert(nks[p] == k);
                            } else {
                                assert(nks[p + 1] == k);
                            }
                        }
                        assert(nks[i as int] == key@);
                    }
                    assert forall|k: Seq<char>| self@.dom().contains(k) implies self@[k]
                        == before@.insert(key@, value.deep_view())[k] by {
                        let p = choose|p: int| 0 <= p < nks.len() && nks[p] == k;
                        assert(self@[nks[p]] == self.values@[p].deep_view());
                        if p < i {
                            assert(before@[ks[p]] == before.values@[p].deep_view());
                        } else if p > i {
                            assert(before@[ks[p - 1]] == before.values@[p - 1].deep_view());
                        }
                    }
                    assert(self@ =~= before@.insert(key@, value.deep_view()));
                }
            },
        }
        r
    }

    /// Takes a key out and hands back its value.
    pub fn remove(&mut self, key: &str) -> (r: Option<V>)
        ensures
            final(self)@ == old(self)@.remove(key@),
            match r {
                Some(v) => old(self)@.dom().contains(key@) && v.deep_view() == old(self)@[key@],
                None => !old(self)@.dom().contains(key@),
            },
    {
        proof {
            use_type_invariant(&*self);
            self.lemma_view();
        }
        let ghost before = *self;
        let ghost ks = self.key_seq();
        match self.find(key) {
            Ok(i) => {
                assert(ks.contains(key@));
                let mut empty: Self = Self::new();
                std::mem::swap(self, &mut empty);
                let StringMap { mut keys, mut values } = empty;
                let _ = keys.remove(i);
                let v = values.remove(i);
                let ghost nks = keys.deep_view();
                proof {
                    assert(nks =~= ks.remove(i as int));
                    assert forall|x: int, y: int| 0 <= x < y < nks.len() implies text_lt(
                        #[trigger] nks[x],
                        #[trigger] nks[y],
                    ) by {
                        let ox = if x < i { x } else { x + 1 };
                        let oy = if y < i { y } else { y + 1 };
                        assert(text_lt(ks[ox], ks[oy]));
                    }
                }
                *self = StringMap { keys, values };
                proof {
                    self.lemma_view();
                    assert(self.key_seq() == nks);
                    assert forall|k: Seq<char>| nks.contains(k) <==> (ks.contains(k) && k != key@) by {
                        if nks.contains(k) {
                            let p = choose|p: int| 0 <= p < nks.len() && nks[p] == k;
                            let op = if p < i { p } else { p + 1 };
                            assert(ks[op] == k);
                            lemma_ascending_position(ks, op);
                            lemma_ascending_position(ks, i as int);
                        }
                        if ks.contains(k) && k != key@ {
                            let p = choose|p: int| 0 <= p < ks.len() && ks[p] == k;
                            if p < i {
                                assert(nks[p] == k);
                            } else {
                                assert(nks[p - 1] == k);
                            }
                        }
                    }
                    assert forall|k: Seq<char>| self@.dom().contains(k) implies self@[k]
                        == before@.remove(key@)[k] by {
                        let p = choose|p: int| 0 <= p < nks.len() && nks[p] == k;
                        assert(self@[nks[p]] == self.values@[p].deep_view());
                        let op = if p < i { p } else { p + 1 };
                        assert(before@[ks[op]] == before.values@[op].deep_view());
                    }
                    assert(self@ =~= before@.remove(key@));
                }
                Some(v)
            },
            Err(i) => {
                proof {
                    before.lemma_absent(key@, i as int);
                    assert(self@ =~= before@.remove(key@));
                }
                None
            },
        }
    }

    /// The keys in ascending order.
    pub fn keys(&self) -> (r: Vec<String>)
        ensures
            r.deep_view() == sorted_keys(self@.dom()),
            lists_keys(r.deep_view(), self@.dom()),
    {
        let n = self.len();
        let ghost ks = sorted_keys(self@.dom());
        let mut r: Vec<String> = Vec::new();
        let mut i: usize = 0;
        while i < n
            invariant
                ks == sorted_keys(self@.dom()),
                n == ks.len(),
                i <= n,
                r@.len() == i,
                forall|j: int| 0 <= j < i ==> (#[trigger] r@[j])@ == ks[j],
            decreases n - i,
        {
            r.push(self.key_at(i).clone());
            i = i + 1;
        }
        assert(r.deep_view() =~= ks);
        r
    }

    proof fn lemma_replace(before: Self, after: Self, i: int, value: V)
        requires
            before.inv(),
            0 <= i < before.keys@.len(),
            after.keys == before.keys,
            after.values@ == before.values@.update(i, value),
        ensures
            after@ == before@.insert(before.key_seq()[i], value.deep_view()),
    {
        before.lemma_view();
        after.lemma_view();
        let ks = before.key_seq();
        assert(ks.contains(ks[i]));
        assert forall|k: Seq<char>| after@.dom().contains(k) implies after@[k] == before@.insert(
            ks[i],
            value.deep_view(),
        )[k] by {
            let p = choose|p: int| 0 <= p < ks.len() && ks[p] == k;
            assert(after@[after.key_seq()[p]] == after.values@[p].deep_view());
            assert(before@[ks[p]] == before.values@[p].deep_view());
            lemma_ascending_position(ks, p);
            lemma_ascending_position(ks, i);
        }
        assert(after@ =~= before@.insert(ks[i], value.deep_view()));
    }

    /// The value under a key, for modification.
    pub fn get_mut(&mut self, key: &str) -> (r: Option<&mut V>)
        ensures
            match r {
                Some(v) => {
                    &&& old(self)@.dom().contains(key@)
                    &&& (*v).deep_view() == old(self)@[key@]
                    &&& final(self)@ == old(self)@.insert(key@, (*final(v)).deep_view())
                },
                None => !old(self)@.dom().contains(key@) && final(self)@ == old(self)@,
            },
    {
        proof {
            use_type_invariant(&*self);
            self.lemma_view();
        }
        match self.find(key) {
            Ok(i) => {
                assert(self.key_seq().contains(key@));
                let ghost before = *self;
                assert forall|after: Self, value: V|
                    #![trigger before.values@.update(i as int, value), after.view()]
                    after.keys == before.keys && after.values@ == before.values@.update(
                        i as int,
                        value,
                    ) implies after@ == before@.insert(key@, value.deep_view()) by {
                    Self::lemma_replace(before, after, i as int, value);
                }
                Some(&mut self.values[i])
            },
            Err(i) => {
                proof {
                    self.lemma_absent(key@, i as int);
                }
                None
            },
        }
    }
}

/// Cloning a value keeps what it stands for.
pub open spec fn clone_keeps_view<V: Clone + DeepView>() -> bool {
    forall|a: V, b: V| #[trigger] cloned::<V>(a, b) ==> a.deep_view() == b.deep_view()
}

impl<V: Clone + DeepView> Clone for StringMap<V> {
    fn clone(&self) -> (r: Self)
        ensures
            clone_keeps_view::<V>() ==> r@ == self@,
    {
        proof {
            use_type_invariant(self);
        }
        let keys = self.keys.clone();
        let values = self.values.clone();
        proof {
            assert forall|i: int| 0 <= i < keys@.len() implies keys@[i] == self.keys@[i] by {
                assert(cloned::<String>(self.keys@[i], keys@[i]));
            }
            assert(keys.deep_view() =~= self.keys.deep_view());
            if clone_keeps_view::<V>() {
                assert forall|i: int| 0 <= i < values@.len() implies values@[i].deep_view()
                    == self.values@[i].deep_view() by {
                    assert(cloned::<V>(self.values@[i], values@[i]));
                }
                assert(values.deep_view() =~= self.values.deep_view());
            }
        }
        StringMap { keys, values }
    }
}

/// After the first `n` keys, those hold what `f` makes of their values, and the
/// others what they held.
pub open spec fn partly_mapped<T>(
    before: Map<Seq<char>, T>,
    f: spec_fn(T) -> T,
    keys: Seq<Seq<char>>,
    n: int,
    now: Map<Seq<char>, T>,
) -> bool {
    &&& now.dom() == before.dom()
    &&& forall|j: int|
        0 <= j < keys.len() ==> now[#[trigger] keys[j]] == if j < n {
            f(before[keys[j]])
        } else {
            before[keys[j]]
        }
}

pub proof fn lemma_map_step<T>(
    before: Map<Seq<char>, T>,
    f: spec_fn(T) -> T,
    keys: Seq<Seq<char>>,
    n: int,
    start: Map<Seq<char>, T>,
    now: Map<Seq<char>, T>,
)
    requires
        lists_keys(keys, before.dom()),
        0 <= n < keys.len(),
        partly_mapped(before, f, keys, n, start),
        now == start.insert(keys[n], f(before[keys[n]])),
    ensures
        partly_mapped(before, f, keys, n + 1, now),
{
    assert(keys.contains(keys[n]));
    assert(now.dom() =~= before.dom());
    assert forall|j: int| 0 <= j < keys.len() && j != n implies keys[j] != keys[n] by {
        lemma_ascending_position(keys, j);
        lemma_ascending_position(keys, n);
    }
}

pub proof fn lemma_map_done<T>(
    before: Map<Seq<char>, T>,
    f: spec_fn(T) -> T,
    keys: Seq<Seq<char>>,
    now: Map<Seq<char>, T>,
)
    requires
        lists_keys(keys, before.dom()),
        partly_mapped(before, f, keys, keys.len() as int, now),
    ensures
        now == before.map_values(f),
{
    assert forall|k: Seq<char>| #[trigger] before.dom().contains(k) implies now[k] == f(
        before[k],
    ) by {
        assert(keys.contains(k));
        let j = choose|j: int| 0 <= j < keys.len() && keys[j] == k;
        assert(keys[j] == k);
    }
    assert(now =~= before.map_values(f));
}

} // verus!
