//! Thin-pointer instantiation of the counted array layer: `TpArcArray`, a
//! reference-counted handle backed by the thin representation.
//!
//! Because a thin-backed handle is one word, a slot holding such a handle can
//! be exchanged as a unit; this instantiation therefore also carries the
//! register operations `load`, `store`, `swap` and the conditional exchanges,
//! which treat a handle as a single-slot register of array references.

use super::generic::{ArcStruct, RcArray, RcStore};
use crate::thin::ThinPtrArray;
use crate::traits::LabelledArray;
use vstd::prelude::*;

verus! {

/// The store that owns the blocks of thin-backed counted arrays.
pub type TpStore<E, L> = RcStore<E, L, ThinPtrArray<E, ArcStruct<L>>>;

/// Thin-pointer implementation of a naively reference-counted array.
pub struct TpArcArray<E, L> {
    data: RcArray<E, L, ThinPtrArray<E, ArcStruct<L>>>,
}

impl<E, L> TpArcArray<E, L> {
    /// The largest element count a thin-backed counted array of these types
    /// accepts; the backing block also stores its own length, the reference
    /// count and the user label.  A caller shows a requested length
    /// acceptable by comparing against this.
    pub fn max_len() -> (r: usize)
        ensures
            r == ThinPtrArray::<E, ArcStruct<L>>::spec_max_len(),
    {
        ThinPtrArray::<E, ArcStruct<L>>::max_len()
    }

    /// The slot this handle names, if any.
    pub closed spec fn spec_slot(&self) -> Option<usize> {
        self.data.spec_slot()
    }

    /// Whether this is the null handle.
    pub open spec fn spec_is_null(&self) -> bool {
        self.spec_slot() is None
    }

    /// The slot index of a non-null handle.
    pub open spec fn slot_index(&self) -> int {
        self.spec_slot()->Some_0 as int
    }

    /// A non-null handle is valid when its slot is live in `store`; the null
    /// handle is always valid.
    pub open spec fn valid(&self, store: &TpStore<E, L>) -> bool {
        !self.spec_is_null() ==> store.live(self.slot_index())
    }

    /// Creates a new null pointer reference.
    pub fn null_ref() -> (r: Self)
        ensures
            r.spec_is_null(),
    {
        TpArcArray { data: RcArray::null_ref() }
    }

    /// Checks whether the array reference contained by this handle is null.
    pub fn is_null(&self) -> (r: bool)
        ensures
            r == self.spec_is_null(),
    {
        self.data.is_null()
    }

    /// Guards against null dereference: where an unverified caller would hit
    /// a loud runtime failure, a verified caller discharges this
    /// precondition instead.
    pub fn check_null(&self)
        requires
            !self.spec_is_null(),
    {
        self.data.check_null()
    }

    /// Create a new counted array with the given label, length and element
    /// generator; the handle returned holds the block's one reference.
    pub fn with_label<F: Fn(usize) -> E>(
        store: &mut TpStore<E, L>,
        label: L,
        len: usize,
        func: F,
    ) -> (r: Self)
        requires
            old(store).store_wf(),
            len as nat <= ThinPtrArray::<E, ArcStruct<L>>::spec_max_len(),
            forall|i: usize| i < len ==> call_requires(func, (i,)),
        ensures
            final(store).store_wf(),
            !r.spec_is_null(),
            r.valid(final(store)),
            old(store).alloc_step(*final(store), r.slot_index()),
            final(store).elems_at(r.slot_index()).len() == len,
            final(store).label_at(r.slot_index()) == label,
            forall|i: int|
                0 <= i < len ==> call_ensures(
                    func,
                    (i as usize,),
                    #[trigger] final(store).elems_at(r.slot_index())[i],
                ),
    {
        TpArcArray { data: RcArray::with_label(store, label, len, func) }
    }

    /// Clone the handle: a null handle yields another null handle; otherwise
    /// the shared count grows by one and the new handle aliases the same
    /// block.
    pub fn clone(&self, store: &mut TpStore<E, L>) -> (r: Self)
        requires
            old(store).store_wf(),
            self.valid(old(store)),
            !self.spec_is_null() ==> old(store).count_at(self.slot_index()) < usize::MAX,
        ensures
            final(store).store_wf(),
            r.spec_slot() == self.spec_slot(),
            self.spec_is_null() ==> *final(store) == *old(store),
            !self.spec_is_null() ==> old(store).clone_step(*final(store), self.slot_index()),
    {
        TpArcArray { data: self.data.clone(store) }
    }

    /// Make this handle null, giving up its reference; the block is
    /// destroyed exactly when this was the last one.
    pub fn to_null(&mut self, store: &mut TpStore<E, L>)
        requires
            old(store).store_wf(),
            old(self).valid(old(store)),
        ensures
            final(self).spec_is_null(),
            final(store).store_wf(),
            old(self).spec_is_null() ==> *final(store) == *old(store),
            !old(self).spec_is_null() ==> old(store).drop_step(
                *final(store),
                old(self).slot_index(),
            ),
            !old(self).spec_is_null() ==> (old(store).destroys(
                *final(store),
                old(self).slot_index(),
            ) <==> old(store).count_at(old(self).slot_index()) == 1),
    {
        self.data.to_null(store)
    }

    /// The number of elements in the array this handle references.
    pub fn len(&self, store: &TpStore<E, L>) -> (r: usize)
        requires
            store.store_wf(),
            self.valid(store),
            !self.spec_is_null(),
        ensures
            r == store.elems_at(self.slot_index()).len(),
    {
        self.data.len(store)
    }

    /// Get a reference to the element at `key`, or nothing when `key` is out
    /// of range.
    pub fn get<'a>(&self, store: &'a TpStore<E, L>, key: usize) -> (r: Option<&'a E>)
        requires
            store.store_wf(),
            self.valid(store),
            !self.spec_is_null(),
        ensures
            match r {
                Some(e) => key < store.elems_at(self.slot_index()).len() && *e == store.elems_at(
                    self.slot_index(),
                )[key as int],
                None => key >= store.elems_at(self.slot_index()).len(),
            },
    {
        self.data.get(store, key)
    }

    /// Get a reference to the element at `key` without a runtime bounds
    /// check; the caller must have established that `key` is in range.
    pub fn get_unchecked<'a>(&self, store: &'a TpStore<E, L>, key: usize) -> (r: &'a E)
        requires
            store.store_wf(),
            self.valid(store),
            !self.spec_is_null(),
            key < store.elems_at(self.slot_index()).len(),
        ensures
            *r == store.elems_at(self.slot_index())[key as int],
    {
        self.data.get_unchecked(store, key)
    }

    /// Get a reference to the element at `key`; the index must be in range.
    pub fn index<'a>(&self, store: &'a TpStore<E, L>, key: usize) -> (r: &'a E)
        requires
            store.store_wf(),
            self.valid(store),
            !self.spec_is_null(),
            key < store.elems_at(self.slot_index()).len(),
        ensures
            *r == store.elems_at(self.slot_index())[key as int],
    {
        self.data.index(store, key)
    }

    /// Replace the element at `key` with `value` and hand the previous
    /// element back; out of range, return nothing and change nothing.
    pub fn insert(&self, store: &mut TpStore<E, L>, key: usize, value: E) -> (r: Option<E>)
        requires
            old(store).store_wf(),
            self.valid(old(store)),
            !self.spec_is_null(),
        ensures
            final(store).store_wf(),
            self.valid(final(store)),
            match r {
                Some(prev) => {
                    &&& key < old(store).elems_at(self.slot_index()).len()
                    &&& prev == old(store).elems_at(self.slot_index())[key as int]
                    &&& old(store).mutate_step(
                        *final(store),
                        self.slot_index(),
                        old(store).elems_at(self.slot_index()).update(key as int, value),
                    )
                },
                None => {
                    &&& key >= old(store).elems_at(self.slot_index()).len()
                    &&& old(store).unchanged(*final(store))
                },
            },
    {
        self.data.insert(store, key, value)
    }

    /// Write `value` into the slot at `key`, dropping the previous element;
    /// the index must be in range.
    pub fn set(&self, store: &mut TpStore<E, L>, key: usize, value: E)
        requires
            old(store).store_wf(),
            self.valid(old(store)),
            !self.spec_is_null(),
            key < old(store).elems_at(self.slot_index()).len(),
        ensures
            final(store).store_wf(),
            self.valid(final(store)),
            old(store).mutate_step(
                *final(store),
                self.slot_index(),
                old(store).elems_at(self.slot_index()).update(key as int, value),
            ),
    {
        self.data.set(store, key, value)
    }

    /// Get a reference to the user label of the array this handle
    /// references.
    pub fn get_label<'a>(&self, store: &'a TpStore<E, L>) -> (r: &'a L)
        requires
            store.store_wf(),
            self.valid(store),
            !self.spec_is_null(),
        ensures
            *r == store.label_at(self.slot_index()),
    {
        self.data.get_label(store)
    }

    /// Overwrite the user label of the array this handle references with
    /// `label`.
    pub fn set_label(&self, store: &mut TpStore<E, L>, label: L)
        requires
            old(store).store_wf(),
            self.valid(old(store)),
            !self.spec_is_null(),
        ensures
            final(store).store_wf(),
            self.valid(final(store)),
            old(store).relabel_step(*final(store), self.slot_index(), label),
    {
        self.data.set_label(store, label)
    }

    /// Exchange the handle held in this slot for `new`, unconditionally.
    /// Ownership moves both ways, so no count changes hands.
    pub fn swap(&mut self, new: Self) -> (r: Self)
        ensures
            r.spec_slot() == old(self).spec_slot(),
            final(self).spec_slot() == new.spec_slot(),
    {
        let TpArcArray { data } = new;
        let prev = self.data.swap(data);
        TpArcArray { data: prev }
    }

    /// Read the handle held in this slot: the occupant stays and a fresh
    /// reference to the same block comes back, so the count grows by one.
    pub fn load(&self, store: &mut TpStore<E, L>) -> (r: Self)
        requires
            old(store).store_wf(),
            self.valid(old(store)),
            !self.spec_is_null() ==> old(store).count_at(self.slot_index()) < usize::MAX,
        ensures
            final(store).store_wf(),
            r.spec_slot() == self.spec_slot(),
            old(store).acquire_step(*final(store), self.spec_slot()),
    {
        TpArcArray { data: self.data.load(store) }
    }

    /// Replace the handle held in this slot with `new`; the reference the
    /// previous occupant held is released.
    pub fn store(&mut self, store: &mut TpStore<E, L>, new: Self)
        requires
            old(store).store_wf(),
            old(self).valid(old(store)),
        ensures
            final(store).store_wf(),
            final(self).spec_slot() == new.spec_slot(),
            old(store).release_step(*final(store), old(self).spec_slot()),
    {
        let TpArcArray { data } = new;
        self.data.store(store, data)
    }

    /// Conditionally exchange the handle held in this slot: the exchange
    /// succeeds if and only if the occupant names the same block as
    /// `current`.  On success the slot holds `new`, the previous occupant is
    /// yielded with its reference, and no count changes; on failure the slot
    /// is untouched, and the call yields a fresh reference to the actual
    /// occupant together with `new`, unconsumed.
    pub fn compare_exchange(
        &mut self,
        store: &mut TpStore<E, L>,
        current: &Self,
        new: Self,
    ) -> (r: Result<Self, (Self, Self)>)
        requires
            old(store).store_wf(),
            old(self).valid(old(store)),
            new.valid(old(store)),
            !old(self).spec_is_null() ==> old(store).count_at(old(self).slot_index()) < usize::MAX,
        ensures
            final(store).store_wf(),
            match r {
                Ok(prev) => {
                    &&& old(self).spec_slot() == current.spec_slot()
                    &&& prev.spec_slot() == old(self).spec_slot()
                    &&& final(self).spec_slot() == new.spec_slot()
                    &&& *final(store) == *old(store)
                },
                Err((actual, given_back)) => {
                    &&& old(self).spec_slot() != current.spec_slot()
                    &&& final(self).spec_slot() == old(self).spec_slot()
                    &&& actual.spec_slot() == old(self).spec_slot()
                    &&& given_back.spec_slot() == new.spec_slot()
                    &&& old(store).acquire_step(*final(store), old(self).spec_slot())
                },
            },
    {
        let TpArcArray { data } = new;
        match self.data.compare_exchange(store, &current.data, data) {
            Ok(prev) => Ok(TpArcArray { data: prev }),
            Err((actual, given_back)) => Err(
                (TpArcArray { data: actual }, TpArcArray { data: given_back }),
            ),
        }
    }

    /// The weak flavor of the conditional exchange: success still implies
    /// the occupant named the same block as `current`, with the semantics of
    /// the strong exchange, but success is not promised even then; a failed
    /// call may therefore carry a matching occupant back.
    pub fn compare_exchange_weak(
        &mut self,
        store: &mut TpStore<E, L>,
        current: &Self,
        new: Self,
    ) -> (r: Result<Self, (Self, Self)>)
        requires
            old(store).store_wf(),
            old(self).valid(old(store)),
            new.valid(old(store)),
            !old(self).spec_is_null() ==> old(store).count_at(old(self).slot_index()) < usize::MAX,
        ensures
            final(store).store_wf(),
            match r {
                Ok(prev) => {
                    &&& old(self).spec_slot() == current.spec_slot()
                    &&& prev.spec_slot() == old(self).spec_slot()
                    &&& final(self).spec_slot() == new.spec_slot()
                    &&& *final(store) == *old(store)
                },
                Err((actual, given_back)) => {
                    &&& final(self).spec_slot() == old(self).spec_slot()
                    &&& actual.spec_slot() == old(self).spec_slot()
                    &&& given_back.spec_slot() == new.spec_slot()
                    &&& old(store).acquire_step(*final(store), old(self).spec_slot())
                },
            },
    {
        let TpArcArray { data } = new;
        match self.data.compare_exchange_weak(store, &current.data, data) {
            Ok(prev) => Ok(TpArcArray { data: prev }),
            Err((actual, given_back)) => Err(
                (TpArcArray { data: actual }, TpArcArray { data: given_back }),
            ),
        }
    }

    /// The exchange-and-report flavor of the conditional exchange: always
    /// yields a handle to what the slot held before the call.  On success
    /// that is the previous occupant itself; on failure it is a fresh
    /// reference to the actual occupant, and the reference `new` held is
    /// released.
    pub fn compare_and_swap(
        &mut self,
        store: &mut TpStore<E, L>,
        current: &Self,
        new: Self,
    ) -> (r: Self)
        requires
            old(store).store_wf(),
            old(self).valid(old(store)),
            new.valid(old(store)),
            !old(self).spec_is_null() ==> old(store).count_at(old(self).slot_index()) < usize::MAX,
        ensures
            final(store).store_wf(),
            r.spec_slot() == old(self).spec_slot(),
            old(self).spec_slot() == current.spec_slot() ==> final(self).spec_slot()
                == new.spec_slot() && *final(store) == *old(store),
            old(self).spec_slot() != current.spec_slot() ==> final(self).spec_slot() == old(
                self,
            ).spec_slot() && (exists|mid: TpStore<E, L>|
                #[trigger] old(store).cas_fail_step(
                    mid,
                    *final(store),
                    old(self).spec_slot(),
                    new.spec_slot(),
                )),
    {
        let TpArcArray { data } = new;
        let prev = self.data.compare_and_swap(store, &current.data, data);
        TpArcArray { data: prev }
    }
}

impl<E> TpArcArray<E, ()> {
    /// Create a new counted array, with elements initialized in ascending
    /// index order using a provided function.
    pub fn new<F: Fn(usize) -> E>(store: &mut TpStore<E, ()>, len: usize, func: F) -> (r: Self)
        requires
            old(store).store_wf(),
            len as nat <= ThinPtrArray::<E, ArcStruct<()>>::spec_max_len(),
            forall|i: usize| i < len ==> call_requires(func, (i,)),
        ensures
            final(store).store_wf(),
            !r.spec_is_null(),
            r.valid(final(store)),
            old(store).alloc_step(*final(store), r.slot_index()),
            final(store).elems_at(r.slot_index()).len() == len,
            forall|i: int|
                0 <= i < len ==> call_ensures(
                    func,
                    (i as usize,),
                    #[trigger] final(store).elems_at(r.slot_index())[i],
                ),
    {
        TpArcArray { data: RcArray::new(store, len, func) }
    }
}

impl<E: Default, L> TpArcArray<E, L> {
    /// Create a new counted array, with every element initialized to a
    /// default value.
    pub fn with_len(store: &mut TpStore<E, L>, label: L, len: usize) -> (r: Self)
        requires
            old(store).store_wf(),
            len as nat <= ThinPtrArray::<E, ArcStruct<L>>::spec_max_len(),
        ensures
            final(store).store_wf(),
            !r.spec_is_null(),
            r.valid(final(store)),
            old(store).alloc_step(*final(store), r.slot_index()),
            final(store).elems_at(r.slot_index()).len() == len,
            final(store).label_at(r.slot_index()) == label,
            forall|i: int|
                0 <= i < len ==> crate::traits::defaulted::<E>(
                    #[trigger] final(store).elems_at(r.slot_index())[i],
                ),
    {
        TpArcArray { data: RcArray::with_len(store, label, len) }
    }
}

impl<E: Default> TpArcArray<E, ()> {
    /// Get a new counted array, with every element initialized to a default
    /// value and no label of its own.
    pub fn new_default(store: &mut TpStore<E, ()>, len: usize) -> (r: Self)
        requires
            old(store).store_wf(),
            len as nat <= ThinPtrArray::<E, ArcStruct<()>>::spec_max_len(),
        ensures
            final(store).store_wf(),
            !r.spec_is_null(),
            r.valid(final(store)),
            old(store).alloc_step(*final(store), r.slot_index()),
            final(store).elems_at(r.slot_index()).len() == len,
            forall|i: int|
                0 <= i < len ==> crate::traits::defaulted::<E>(
                    #[trigger] final(store).elems_at(r.slot_index())[i],
                ),
    {
        Self::with_len(store, (), len)
    }
}

} // verus!
