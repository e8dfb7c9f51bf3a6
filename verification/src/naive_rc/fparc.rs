//! Fat-pointer instantiation of the counted array layer: `FpArcArray`, a
//! reference-counted handle backed by the fat representation.
//!
//! Two-word handles cannot be exchanged as one unit, so this instantiation
//! carries no register operations; the thin-backed one does.

use super::generic::{ArcStruct, RcArray, RcStore};
use crate::fat::FatPtrArray;
use crate::traits::LabelledArray;
use vstd::prelude::*;

verus! {

/// The store that owns the blocks of fat-backed counted arrays.
pub type FpStore<E, L> = RcStore<E, L, FatPtrArray<E, ArcStruct<L>>>;

/// Fat-pointer implementation of a naively reference-counted array.
pub struct FpArcArray<E, L> {
    data: RcArray<E, L, FatPtrArray<E, ArcStruct<L>>>,
}

impl<E, L> FpArcArray<E, L> {
    /// The largest element count a fat-backed counted array of these types
    /// accepts; the backing block also stores the reference count and the
    /// user label.  A caller shows a requested length acceptable by
    /// comparing against this.
    pub fn max_len() -> (r: usize)
        ensures
            r == FatPtrArray::<E, ArcStruct<L>>::spec_max_len(),
    {
        FatPtrArray::<E, ArcStruct<L>>::max_len()
    }

    /// The slot this handle names, if any.
    pub closed spec fn spec_slot(&self) -> Option<usize> {
        self.data.spec_slot()
    }

    /// Whether this is the null handle.
    pub open spec fn spec_is_null(&self) -> bool {
        self.spec_slot() is None
    }

    /// The slot index of a non-null handle.
    pub open spec fn slot_index(&self) -> int {
        self.spec_slot()->Some_0 as int
    }

    /// A non-null handle is valid when its slot is live in `store`; the null
    /// handle is always valid.
    pub open spec fn valid(&self, store: &FpStore<E, L>) -> bool {
        !self.spec_is_null() ==> store.live(self.slot_index())
    }

    /// Creates a new null pointer reference.
    pub fn null_ref() -> (r: Self)
        ensures
            r.spec_is_null(),
    {
        FpArcArray { data: RcArray::null_ref() }
    }

    /// Checks whether the array reference contained by this handle is null.
    pub fn is_null(&self) -> (r: bool)
        ensures
            r == self.spec_is_null(),
    {
        self.data.is_null()
    }

    /// Create a new counted array with the given label, length and element
    /// generator; the handle returned holds the block's one reference.
    pub fn with_label<F: Fn(usize) -> E>(
        store: &mut FpStore<E, L>,
        label: L,
        len: usize,
        func: F,
    ) -> (r: Self)
        requires
            old(store).store_wf(),
            len as nat <= FatPtrArray::<E, ArcStruct<L>>::spec_max_len(),
            forall|i: usize| i < len ==> call_requires(func, (i,)),
        ensures
            final(store).store_wf(),
            !r.spec_is_null(),
            r.valid(final(store)),
            old(store).alloc_step(*final(store), r.slot_index()),
            final(store).elems_at(r.slot_index()).len() == len,
            final(store).label_at(r.slot_index()) == label,
            forall|i: int|
                0 <= i < len ==> call_ensures(
                    func,
                    (i as usize,),
                    #[trigger] final(store).elems_at(r.slot_index())[i],
                ),
    {
        FpArcArray { data: RcArray::with_label(store, label, len, func) }
    }

    /// Clone the handle: a null handle yields another null handle; otherwise
    /// the shared count grows by one and the new handle aliases the same
    /// block.
    pub fn clone(&self, store: &mut FpStore<E, L>) -> (r: Self)
        requires
            old(store).store_wf(),
            self.valid(old(store)),
            !self.spec_is_null() ==> old(store).count_at(self.slot_index()) < usize::MAX,
        ensures
            final(store).store_wf(),
            r.spec_slot() == self.spec_slot(),
            self.spec_is_null() ==> *final(store) == *old(store),
            !self.spec_is_null() ==> old(store).clone_step(*final(store), self.slot_index()),
    {
        FpArcArray { data: self.data.clone(store) }
    }

    /// Make this handle null, giving up its reference; the block is
    /// destroyed exactly when this was the last one.
    pub fn to_null(&mut self, store: &mut FpStore<E, L>)
        requires
            old(store).store_wf(),
            old(self).valid(old(store)),
        ensures
            final(self).spec_is_null(),
            final(store).store_wf(),
            old(self).spec_is_null() ==> *final(store) == *old(store),
            !old(self).spec_is_null() ==> old(store).drop_step(
                *final(store),
                old(self).slot_index(),
            ),
            !old(self).spec_is_null() ==> (old(store).destroys(
                *final(store),
                old(self).slot_index(),
            ) <==> old(store).count_at(old(self).slot_index()) == 1),
    {
        self.data.to_null(store)
    }

    /// The number of elements in the array this handle references.
    pub fn len(&self, store: &FpStore<E, L>) -> (r: usize)
        requires
            store.store_wf(),
            self.valid(store),
            !self.spec_is_null(),
        ensures
            r == store.elems_at(self.slot_index()).len(),
    {
        self.data.len(store)
    }

    /// Get a reference to the element at `key`, or nothing when `key` is out
    /// of range.
    pub fn get<'a>(&self, store: &'a FpStore<E, L>, key: usize) -> (r: Option<&'a E>)
        requires
            store.store_wf(),
            self.valid(store),
            !self.spec_is_null(),
        ensures
            match r {
                Some(e) => key < store.elems_at(self.slot_index()).len() && *e == store.elems_at(
                    self.slot_index(),
                )[key as int],
                None => key >= store.elems_at(self.slot_index()).len(),
            },
    {
        self.data.get(store, key)
    }

    /// Get a reference to the element at `key` without a runtime bounds
    /// check; the caller must have established that `key` is in range.
    pub fn get_unchecked<'a>(&self, store: &'a FpStore<E, L>, key: usize) -> (r: &'a E)
        requires
            store.store_wf(),
            self.valid(store),
            !self.spec_is_null(),
            key < store.elems_at(self.slot_index()).len(),
        ensures
            *r == store.elems_at(self.slot_index())[key as int],
    {
        self.data.get_unchecked(store, key)
    }

    /// Get a reference to the element at `key`; the index must be in range.
    pub fn index<'a>(&self, store: &'a FpStore<E, L>, key: usize) -> (r: &'a E)
        requires
            store.store_wf(),
            self.valid(store),
            !self.spec_is_null(),
            key < store.elems_at(self.slot_index()).len(),
        ensures
            *r == store.elems_at(self.slot_index())[key as int],
    {
        self.data.index(store, key)
    }

    /// Replace the element at `key` with `value` and hand the previous
    /// element back; out of range, return nothing and change nothing.
    pub fn insert(&self, store: &mut FpStore<E, L>, key: usize, value: E) -> (r: Option<E>)
        requires
            old(store).store_wf(),
            self.valid(old(store)),
            !self.spec_is_null(),
        ensures
            final(store).store_wf(),
            self.valid(final(store)),
            match r {
                Some(prev) => {
                    &&& key < old(store).elems_at(self.slot_index()).len()
                    &&& prev == old(store).elems_at(self.slot_index())[key as int]
                    &&& old(store).mutate_step(
                        *final(store),
                        self.slot_index(),
                        old(store).elems_at(self.slot_index()).update(key as int, value),
                    )
                },
                None => {
                    &&& key >= old(store).elems_at(self.slot_index()).len()
                    &&& old(store).unchanged(*final(store))
                },
            },
    {
        self.data.insert(store, key, value)
    }

    /// Get a reference to the user label of the array this handle
    /// references.
    pub fn get_label<'a>(&self, store: &'a FpStore<E, L>) -> (r: &'a L)
        requires
            store.store_wf(),
            self.valid(store),
            !self.spec_is_null(),
        ensures
            *r == store.label_at(self.slot_index()),
    {
        self.data.get_label(store)
    }

    /// Overwrite the user label of the array this handle references with
    /// `label`.
    pub fn set_label(&self, store: &mut FpStore<E, L>, label: L)
        requires
            old(store).store_wf(),
            self.valid(old(store)),
            !self.spec_is_null(),
        ensures
            final(store).store_wf(),
            self.valid(final(store)),
            old(store).relabel_step(*final(store), self.slot_index(), label),
    {
        self.data.set_label(store, label)
    }
}

impl<E> FpArcArray<E, ()> {
    /// Create a new counted array, with elements initialized in ascending
    /// index order using a provided function.
    pub fn new<F: Fn(usize) -> E>(store: &mut FpStore<E, ()>, len: usize, func: F) -> (r: Self)
        requires
            old(store).store_wf(),
            len as nat <= FatPtrArray::<E, ArcStruct<()>>::spec_max_len(),
            forall|i: usize| i < len ==> call_requires(func, (i,)),
        ensures
            final(store).store_wf(),
            !r.spec_is_null(),
            r.valid(final(store)),
            old(store).alloc_step(*final(store), r.slot_index()),
            final(store).elems_at(r.slot_index()).len() == len,
            forall|i: int|
                0 <= i < len ==> call_ensures(
                    func,
                    (i as usize,),
                    #[trigger] final(store).elems_at(r.slot_index())[i],
                ),
    {
        FpArcArray { data: RcArray::new(store, len, func) }
    }
}

impl<E: Default, L> FpArcArray<E, L> {
    /// Create a new counted array, with every element initialized to a
    /// default value.
    pub fn with_len(store: &mut FpStore<E, L>, label: L, len: usize) -> (r: Self)
        requires
            old(store).store_wf(),
            len as nat <= FatPtrArray::<E, ArcStruct<L>>::spec_max_len(),
        ensures
            final(store).store_wf(),
            !r.spec_is_null(),
            r.valid(final(store)),
            old(store).alloc_step(*final(store), r.slot_index()),
            final(store).elems_at(r.slot_index()).len() == len,
            final(store).label_at(r.slot_index()) == label,
            forall|i: int|
                0 <= i < len ==> crate::traits::defaulted::<E>(
                    #[trigger] final(store).elems_at(r.slot_index())[i],
                ),
    {
        FpArcArray { data: RcArray::with_len(store, label, len) }
    }
}

} // verus!
