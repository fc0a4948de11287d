//! Helpers that relate a vector's elementwise view to the vector being built.

use vstd::prelude::*;

verus! {

/// Appends `item`; the elementwise view grows by the item's view.
pub(crate) fn push_deep<T: DeepView>(items: &mut Vec<T>, item: T)
    ensures
        final(items)@ == old(items)@.push(item),
        final(items).deep_view() == old(items).deep_view().push(item.deep_view()),
{
    items.push(item);
    proof {
        assert(items.deep_view() =~= old(items).deep_view().push(item.deep_view()));
    }
}

/// A fresh vector; its elementwise view is empty.
pub(crate) fn empty_deep<T: DeepView>() -> (items: Vec<T>)
    ensures
        items@ == Seq::<T>::empty(),
        items.deep_view() == Seq::<T::V>::empty(),
{
    let items: Vec<T> = Vec::new();
    proof {
        assert(items.deep_view() =~= Seq::<T::V>::empty());
    }
    items
}

} // verus!
