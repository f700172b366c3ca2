//! Copies that keep what a value stands for.
use crate::string_map::clone_keeps_view;
use vstd::prelude::*;

verus! {

/// A copy of a list.
pub(crate) fn clone_list<T: Clone + DeepView>(list: &Vec<T>) -> (r: Vec<T>)
    requires
        clone_keeps_view::<T>(),
    ensures
        r.deep_view() == list.deep_view(),
{
    let r = list.clone();
    assert forall|i: int| 0 <= i < r@.len() implies r@[i].deep_view() == list@[i].deep_view() by {
        assert(cloned::<T>(list@[i], r@[i]));
    }
    assert(r.deep_view() =~= list.deep_view());
    r
}

/// A copy of an optional value.
pub(crate) fn clone_option<T: Clone + DeepView>(value: &Option<T>) -> (r: Option<T>)
    requires
        clone_keeps_view::<T>(),
    ensures
        r.deep_view() == value.deep_view(),
{
    let r = value.clone();
    assert(value is Some ==> cloned::<T>(value->0, r->0));
    r
}

/// A copy of a list of pairs of texts.
pub(crate) fn clone_pairs(list: &Vec<(String, String)>) -> (r: Vec<(String, String)>)
    ensures
        r.deep_view() == list.deep_view(),
{
    let mut r: Vec<(String, String)> = Vec::new();
    let mut i: usize = 0;
    while i < list.len()
        invariant
            i <= list@.len(),
            r@.len() == i,
            forall|k: int| 0 <= k < i ==> (#[trigger] r@[k]).deep_view() == list@[k].deep_view(),
        decreases list@.len() - i,
    {
        let pair = &list[i];
        r.push((pair.0.clone(), pair.1.clone()));
        i = i + 1;
    }
    assert(r.deep_view() =~= list.deep_view());
    r
}

} // verus!
