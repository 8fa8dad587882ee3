//! Views of lists and options, made of the views of what they hold.

use vstd::prelude::*;

verus! {

/// The values of a list, each by its view.
pub open spec fn views<T: View>(items: Seq<T>) -> Seq<T::V> {
    Seq::new(items.len(), |i: int| items[i]@)
}

/// The value in an option, by its view.
pub open spec fn opt_view<T: View>(v: Option<T>) -> Option<T::V> {
    match v {
        Some(v) => Some(v@),
        None => None,
    }
}

/// The value in an optional reference, by its view.
pub open spec fn ref_view<T: View + ?Sized>(v: Option<&T>) -> Option<T::V> {
    match v {
        Some(v) => Some(v@),
        None => None,
    }
}

/// The value in an option, or `other` where there is none.
pub open spec fn opt_or<T>(v: Option<T>, other: T) -> T {
    match v {
        Some(v) => v,
        None => other,
    }
}

/// Pushing an item pushes its view.
pub broadcast proof fn lemma_views_push<T: View>(items: Seq<T>, item: T)
    ensures
        #[trigger] views(items.push(item)) == views(items).push(item@),
{
    assert(views(items.push(item)) =~= views(items).push(item@));
}

/// The view of an empty list is empty.
pub broadcast proof fn lemma_views_empty<T: View>(items: Seq<T>)
    requires
        items.len() == 0,
    ensures
        #[trigger] views(items) == Seq::<T::V>::empty(),
{
    assert(views(items) =~= Seq::<T::V>::empty());
}

pub broadcast group group_views {
    lemma_views_push,
    lemma_views_empty,
}

/// Values that can be copied, the copy having the same view.
pub trait Copied: View + Sized {
    /// A copy.
    fn copied(&self) -> (r: Self)
        ensures
            r@ == self@,
    ;
}

impl Copied for String {
    fn copied(&self) -> (r: Self) {
        self.clone()
    }
}

/// A copy of a list.
pub fn copy_list<T: Copied>(list: &Vec<T>) -> (r: Vec<T>)
    ensures
        views(r@) == views(list@),
{
    let mut out: Vec<T> = Vec::new();
    let mut i: usize = 0;
    while i < list.len()
        invariant
            i <= list.len(),
            out.len() == i,
            forall|k: int| 0 <= k < i ==> (#[trigger] out@[k])@ == list@[k]@,
        decreases list.len() - i,
    {
        out.push(list[i].copied());
        i += 1;
    }
    assert(views(out@) =~= views(list@));
    out
}

/// A copy of an option.
pub fn copy_opt<T: Copied>(v: &Option<T>) -> (r: Option<T>)
    ensures
        opt_view(r) == opt_view(*v),
{
    match v {
        Some(v) => Some(v.copied()),
        None => None,
    }
}

} // verus!
