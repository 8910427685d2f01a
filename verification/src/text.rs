//! Text and sequences as specifications see them.

use vstd::prelude::*;

verus! {

/// A piece of text as specifications see it.
pub type Text = Seq<char>;

/// The views of the elements of a sequence, in order.
pub open spec fn views<T: View>(items: Seq<T>) -> Seq<T::V> {
    Seq::new(items.len(), |i: int| items[i]@)
}

/// Appending an element appends its view.
pub proof fn views_push<T: View>(items: Seq<T>, item: T)
    ensures
        views(items.push(item)) == views(items).push(item@),
{
    assert(views(items.push(item)) =~= views(items).push(item@));
}

/// Dropping the last element drops the last view.
pub proof fn views_drop_last<T: View>(items: Seq<T>)
    requires
        items.len() > 0,
    ensures
        views(items.drop_last()) == views(items).drop_last(),
        views(items).last() == items.last()@,
{
    assert(views(items.drop_last()) =~= views(items).drop_last());
}

} // verus!
