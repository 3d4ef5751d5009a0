//! Trusted interface to the persistent list that holds queue contents.
//!
//! The queue stores its items in `rpds::List`, an immutable singly linked
//! list with structural sharing: deriving a new version never copies or
//! invalidates the old one, which is what makes whole-value transactional
//! writes cheap.  [`ItemList`] holds one such list, used only through the
//! capability set below: empty, push-front, peek-front, drop-front,
//! reverse, and clone.  Each wrapper states over `list_elems` what the list
//! operation does to the contents, front first.

use vstd::prelude::*;

verus! {

/// A persistent list of items, held opaquely; `list_elems` names its
/// contents.  The pointer kind is atomic so that handles can be shared
/// across threads, as a transactional store requires.
#[verifier::external_body]
pub struct ItemList {
    inner: rpds::List<u64, archery::ArcK>,
}

/// The items a list holds, front first.
pub uninterp spec fn list_elems(l: ItemList) -> Seq<u64>;

/// Relies on `rpds::List::new_with_ptr_kind`: a list with no nodes.
#[verifier::external_body]
pub(crate) fn list_new() -> (r: ItemList)
    ensures
        list_elems(r) == Seq::<u64>::empty(),
{
    ItemList { inner: rpds::List::new_with_ptr_kind() }
}

/// Relies on `rpds::List::push_front`: a new list whose head is `v` and
/// whose tail shares structure with `l`.
#[verifier::external_body]
pub(crate) fn list_push_front(l: &ItemList, v: u64) -> (r: ItemList)
    ensures
        list_elems(r) == seq![v] + list_elems(*l),
{
    ItemList { inner: l.inner.push_front(v) }
}

/// Relies on `rpds::List::is_empty`: true exactly when the list has no
/// nodes.
#[verifier::external_body]
pub(crate) fn list_is_empty(l: &ItemList) -> (r: bool)
    ensures
        r <==> list_elems(*l).len() == 0,
{
    l.inner.is_empty()
}

/// Relies on `rpds::List::first`: the head item, if any.
#[verifier::external_body]
pub(crate) fn list_first(l: &ItemList) -> (r: Option<u64>)
    ensures
        r is None <==> list_elems(*l).len() == 0,
        r matches Some(v) ==> v == list_elems(*l)[0],
{
    l.inner.first().copied()
}

/// Relies on `rpds::List::drop_first`: the list without its head, sharing
/// the tail's structure, or `None` on an empty list.
#[verifier::external_body]
pub(crate) fn list_drop_first(l: &ItemList) -> (r: Option<ItemList>)
    ensures
        r is None <==> list_elems(*l).len() == 0,
        r matches Some(t) ==> list_elems(t) == list_elems(*l).drop_first(),
{
    l.inner.drop_first().map(|t| ItemList { inner: t })
}

/// Relies on `rpds::List::reverse`: a new list with the same items in
/// reverse order.
#[verifier::external_body]
pub(crate) fn list_reverse(l: &ItemList) -> (r: ItemList)
    ensures
        list_elems(r) == list_elems(*l).reverse(),
{
    ItemList { inner: l.inner.reverse() }
}

/// Relies on `rpds::List::clone`: a handle to the same nodes, so the same
/// items.
#[verifier::external_body]
pub(crate) fn list_clone(l: &ItemList) -> (r: ItemList)
    ensures
        list_elems(r) == list_elems(*l),
{
    ItemList { inner: l.inner.clone() }
}

} // verus!
