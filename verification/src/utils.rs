//! Container types which can have empty positions.
//!
//! The entity arenas are vectors of optional slots: `None` marks a
//! tombstoned entity. Insertion is first-fit: a new item lands in the
//! lowest-indexed empty slot, or is appended when no slot is empty, so
//! ids stay dense and deleted ids are reused.

use vstd::prelude::*;

verus! {

/// First-fit insertion into a sequence of optional slots: `item` fills
/// the lowest-indexed empty slot `id`, or is appended at `id` when every
/// slot is occupied. Ids of occupied slots never change.
pub open spec fn spec_first_fit<T>(
    pre: Seq<Option<T>>,
    post: Seq<Option<T>>,
    item: T,
    id: int,
) -> bool {
    &&& 0 <= id <= pre.len()
    &&& forall|j: int| 0 <= j < id ==> (#[trigger] pre[j]) is Some
    &&& id < pre.len() ==> pre[id] is None && post == pre.update(id, Some(item))
    &&& id == pre.len() ==> post == pre.push(Some(item))
}

/// Container types which can have empty positions.
///
/// This trait provides an interface to insert elements into the first
/// empty position.
pub trait InsertAtEmpty {
    type Item;

    /// The slots of the container, in id order.
    spec fn slots(&self) -> Seq<Option<Self::Item>>;

    /// Look for the first empty position in the container and insert
    /// `item` at that position; append when every slot is occupied.
    ///
    /// It returns the insertion index.
    fn insert_at_empty(&mut self, item: Self::Item) -> (id: usize)
        ensures
            spec_first_fit(old(self).slots(), final(self).slots(), item, id as int),
    ;
}

/// Implementation of `InsertAtEmpty` for `Vec<Option<T>>`: empty
/// positions are `None` slots, or the end of the vector.
impl<T> InsertAtEmpty for Vec<Option<T>> {
    type Item = T;

    open spec fn slots(&self) -> Seq<Option<T>> {
        self@
    }

    /// Insert `item` in the position of the first `None` element, or at
    /// the end of the vector if there is no `None`.
    ///
    /// It returns the insertion index.
    fn insert_at_empty(&mut self, item: T) -> (id: usize)
    {
        let mut k: usize = 0;
        while k < self.len()
            invariant
                self@.len() == old(self)@.len(),
                self@ == old(self)@,
                0 <= k <= self@.len(),
                forall|j: int| 0 <= j < k ==> (#[trigger] self@[j]) is Some,
            decreases self@.len() - k,
        {
            if self[k].is_none() {
                self.set(k, Some(item));
                return k;
            }
            k = k + 1;
        }
        let id: usize = self.len();
        self.push(Some(item));
        id
    }
}

} // verus!
