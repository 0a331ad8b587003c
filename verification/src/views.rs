//! Views of nested collections.

use vstd::prelude::*;

verus! {

/// The views of the items of `s`.
pub open spec fn views<T: View>(s: Seq<T>) -> Seq<T::V> {
    Seq::new(s.len(), |i: int| s[i]@)
}

pub broadcast proof fn lemma_views_push<T: View>(s: Seq<T>, x: T)
    ensures
        #[trigger] views(s.push(x)) == views(s).push(x@),
{
    assert(views(s.push(x)) =~= views(s).push(x@));
}

pub broadcast proof fn lemma_views_empty<T: View>()
    ensures
        #[trigger] views(Seq::<T>::empty()) == Seq::<T::V>::empty(),
{
    assert(views(Seq::<T>::empty()) =~= Seq::<T::V>::empty());
}

pub broadcast group group_views {
    lemma_views_push,
    lemma_views_empty,
}

/// The view of an optional item.
pub open spec fn opt_view<T: View>(o: Option<T>) -> Option<T::V> {
    match o {
        Some(x) => Some(x@),
        None => None,
    }
}

/// The result of reading something and where it ends, by its view.
pub open spec fn read_view<T: View, E>(r: Result<(T, u64), E>) -> Result<(T::V, int), E> {
    match r {
        Ok((t, next)) => Ok((t@, next as int)),
        Err(e) => Err(e),
    }
}

/// The result of reading a plain value and where it ends.
pub open spec fn read_plain<T, E>(r: Result<(T, u64), E>) -> Result<(T, int), E> {
    match r {
        Ok((t, next)) => Ok((t, next as int)),
        Err(e) => Err(e),
    }
}

/// The result of reading a list and where it ends, by its view.
pub open spec fn read_views<T: View, E>(r: Result<(Vec<T>, u64), E>) -> Result<
    (Seq<T::V>, int),
    E,
> {
    match r {
        Ok((t, next)) => Ok((views(t@), next as int)),
        Err(e) => Err(e),
    }
}

} // verus!
