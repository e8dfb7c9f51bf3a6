//! Contains the definition of `RcArray`, a naively reference-counted array
//! handle, generic over the representation that backs it.
//!
//! Sharing is explicit: every counted block lives in one slot of an
//! [`RcStore`], and a handle names its slot.  The reference count is stored
//! inside the block's label, next to the user's own label value, so counting
//! costs nothing beyond what the label mechanism already charges.  A freed
//! slot is never reused, so a stale handle can never come to denote a newer
//! block.
//!
//! Counting is naive: cyclic ownership among arrays is not detected and
//! leaks, and a handle that is forgotten without `to_null` keeps its block
//! alive forever.

use crate::traits::LabelledArray;
use core::marker::PhantomData;
use vstd::prelude::*;

verus! {

/// A reference count stored next to a user label value: together they form
/// the label of every counted block.
pub struct ArcStruct<L> {
    count: usize,
    data: L,
}

impl<L> ArcStruct<L> {
    /// The current reference count.
    pub closed spec fn spec_count(&self) -> nat {
        self.count as nat
    }

    /// The user's label value.
    pub closed spec fn spec_data(&self) -> L {
        self.data
    }

    /// A fresh counted label starts with one reference.
    pub fn new(data: L) -> (r: Self)
        ensures
            r.spec_count() == 1,
            r.spec_data() == data,
    {
        ArcStruct { count: 1, data }
    }

    /// Add one reference.
    pub fn increment(&mut self)
        requires
            old(self).spec_count() < usize::MAX,
        ensures
            final(self).spec_count() == old(self).spec_count() + 1,
            final(self).spec_data() == old(self).spec_data(),
    {
        self.count = self.count + 1;
    }

    /// Give up one reference; returns the count that remains.
    pub fn decrement(&mut self) -> (r: usize)
        requires
            old(self).spec_count() >= 1,
        ensures
            r == old(self).spec_count() - 1,
            final(self).spec_count() == old(self).spec_count() - 1,
            final(self).spec_data() == old(self).spec_data(),
    {
        self.count = self.count - 1;
        self.count
    }

    /// Read the user's label value.
    pub fn get_data(&self) -> (r: &L)
        ensures
            *r == self.spec_data(),
    {
        &self.data
    }

    /// Change the user's label value; the count cannot be reached this way.
    pub fn get_data_mut(&mut self) -> (r: &mut L)
        ensures
            *r == old(self).spec_data(),
            final(self).spec_data() == *final(r),
            final(self).spec_count() == old(self).spec_count(),
    {
        &mut self.data
    }
}

/// The store that owns every counted block.  A handle is only meaningful
/// together with the store it was created in.
pub struct RcStore<E, L, A> {
    slots: Vec<Option<A>>,
    phantom: PhantomData<(E, L)>,
}

impl<E, L, A: LabelledArray<E, ArcStruct<L>>> RcStore<E, L, A> {
    /// How many slots the store has handed out so far, freed ones included.
    pub closed spec fn n_slots(&self) -> nat {
        self.slots@.len()
    }

    /// Whether slot `i` holds a live block.
    pub closed spec fn live(&self, i: int) -> bool {
        0 <= i < self.slots@.len() && self.slots@[i] is Some
    }

    /// The reference count of the block in slot `i`.
    pub closed spec fn count_at(&self, i: int) -> nat {
        self.slots@[i]->Some_0.spec_label().spec_count()
    }

    /// The elements of the block in slot `i`.
    pub closed spec fn elems_at(&self, i: int) -> Seq<E> {
        self.slots@[i]->Some_0.elems()
    }

    /// The user label of the block in slot `i`.
    pub closed spec fn label_at(&self, i: int) -> L {
        self.slots@[i]->Some_0.spec_label().spec_data()
    }

    /// Every live block is well-formed and referenced at least once.
    pub closed spec fn slot_wf(&self, i: int) -> bool {
        &&& self.slots@[i]->Some_0.wf()
        &&& self.slots@[i]->Some_0.spec_label().spec_count() >= 1
    }

    /// The store invariant: every live slot holds a well-formed block whose
    /// count is at least one.
    pub open spec fn store_wf(&self) -> bool {
        forall|i: int| #[trigger] self.live(i) ==> self.slot_wf(i)
    }

    /// A fresh store with no blocks.
    pub fn new() -> (r: Self)
        ensures
            r.store_wf(),
            r.n_slots() == 0,
    {
        RcStore { slots: Vec::new(), phantom: PhantomData }
    }

    /// Slot `i` was cloned from: its count grew by one and everything else,
    /// in every slot, stayed as it was.
    pub open spec fn clone_step(self, post: Self, i: int) -> bool {
        &&& self.live(i)
        &&& post.n_slots() == self.n_slots()
        &&& forall|j: int| #[trigger] post.live(j) <==> self.live(j)
        &&& forall|j: int|
            self.live(j) ==> #[trigger] post.elems_at(j) == self.elems_at(j)
                && post.label_at(j) == self.label_at(j)
        &&& forall|j: int|
            self.live(j) && j != i ==> #[trigger] post.count_at(j) == self.count_at(j)
        &&& post.count_at(i) == self.count_at(i) + 1
    }

    /// A handle to slot `i` was dropped: with more than one reference the
    /// count shrank by one and the block stayed; with exactly one, the block
    /// was destroyed and the slot freed.  Every other slot stayed as it was.
    pub open spec fn drop_step(self, post: Self, i: int) -> bool {
        &&& self.live(i)
        &&& post.n_slots() == self.n_slots()
        &&& forall|j: int| j != i ==> (#[trigger] post.live(j) <==> self.live(j))
        &&& forall|j: int|
            self.live(j) && j != i ==> #[trigger] post.elems_at(j) == self.elems_at(j)
                && post.label_at(j) == self.label_at(j) && post.count_at(j) == self.count_at(j)
        &&& if self.count_at(i) > 1 {
            &&& post.live(i)
            &&& post.count_at(i) == self.count_at(i) - 1
            &&& post.elems_at(i) == self.elems_at(i)
            &&& post.label_at(i) == self.label_at(i)
        } else {
            !post.live(i)
        }
    }

    /// The block in slot `i` was destroyed across this transition.
    pub open spec fn destroys(self, post: Self, i: int) -> bool {
        self.live(i) && !post.live(i)
    }

    /// A fresh block appeared in the new slot `i == self.n_slots()`, counted
    /// once; every existing slot stayed as it was.
    pub open spec fn alloc_step(self, post: Self, i: int) -> bool {
        &&& i == self.n_slots()
        &&& post.n_slots() == self.n_slots() + 1
        &&& forall|j: int| j != i ==> (#[trigger] post.live(j) <==> self.live(j))
        &&& forall|j: int|
            self.live(j) && j != i ==> #[trigger] post.elems_at(j) == self.elems_at(j)
                && post.label_at(j) == self.label_at(j) && post.count_at(j) == self.count_at(j)
        &&& post.live(i)
        &&& post.count_at(i) == 1
    }

    /// The block in slot `i` had its elements overwritten to `new_elems`;
    /// its count and label, and every other slot, stayed as they were.
    pub open spec fn mutate_step(self, post: Self, i: int, new_elems: Seq<E>) -> bool {
        &&& self.live(i)
        &&& post.n_slots() == self.n_slots()
        &&& forall|j: int| #[trigger] post.live(j) <==> self.live(j)
        &&& forall|j: int|
            self.live(j) && j != i ==> #[trigger] post.elems_at(j) == self.elems_at(j)
                && post.label_at(j) == self.label_at(j) && post.count_at(j) == self.count_at(j)
        &&& post.count_at(i) == self.count_at(i)
        &&& post.label_at(i) == self.label_at(i)
        &&& post.elems_at(i) == new_elems
    }

    /// The block in slot `i` had its user label overwritten to `new_label`;
    /// its count and elements, and every other slot, stayed as they were.
    pub open spec fn relabel_step(self, post: Self, i: int, new_label: L) -> bool {
        &&& self.live(i)
        &&& post.n_slots() == self.n_slots()
        &&& forall|j: int| #[trigger] post.live(j) <==> self.live(j)
        &&& forall|j: int|
            self.live(j) && j != i ==> #[trigger] post.elems_at(j) == self.elems_at(j)
                && post.label_at(j) == self.label_at(j) && post.count_at(j) == self.count_at(j)
        &&& post.count_at(i) == self.count_at(i)
        &&& post.elems_at(i) == self.elems_at(i)
        &&& post.label_at(i) == new_label
    }

    /// The store transition of giving up the one reference a handle holds:
    /// nothing for the null handle, a drop for any other.
    pub open spec fn release_step(self, post: Self, h: Option<usize>) -> bool {
        match h {
            None => self.unchanged(post),
            Some(i) => self.drop_step(post, i as int),
        }
    }

    /// The store transition of acquiring one more reference through a
    /// handle: nothing for the null handle, a clone for any other.
    pub open spec fn acquire_step(self, post: Self, h: Option<usize>) -> bool {
        match h {
            None => self.unchanged(post),
            Some(i) => self.clone_step(post, i as int),
        }
    }

    /// The store transition of a failed compare-and-swap that still yields
    /// the occupant and consumes the offered handle: first one more
    /// reference is acquired through the occupant `occ`, then the reference
    /// that `given` held is released.
    pub open spec fn cas_fail_step(
        self,
        mid: Self,
        post: Self,
        occ: Option<usize>,
        given: Option<usize>,
    ) -> bool {
        &&& self.acquire_step(mid, occ)
        &&& mid.release_step(post, given)
    }

    /// Nothing observable about the store changed across this transition.
    pub open spec fn unchanged(self, post: Self) -> bool {
        &&& post.n_slots() == self.n_slots()
        &&& forall|j: int| #[trigger] post.live(j) <==> self.live(j)
        &&& forall|j: int|
            self.live(j) ==> #[trigger] post.elems_at(j) == self.elems_at(j) && post.label_at(j)
                == self.label_at(j) && post.count_at(j) == self.count_at(j)
    }

    /// Effects of overwriting slot `i` with the live block `a`: every other
    /// slot keeps its state, and slot `i` shows `a`.
    proof fn lemma_update_effects(pre: Self, post: Self, i: int, a: A)
        requires
            0 <= i < pre.n_slots(),
            post.slots@ == pre.slots@.update(i, Some(a)),
        ensures
            post.n_slots() == pre.n_slots(),
            forall|j: int| j != i ==> (#[trigger] post.live(j) <==> pre.live(j)),
            forall|j: int|
                j != i && pre.live(j) ==> #[trigger] post.elems_at(j) == pre.elems_at(j)
                    && post.label_at(j) == pre.label_at(j) && post.count_at(j) == pre.count_at(j),
            forall|j: int|
                j != i && 0 <= j < pre.n_slots() ==> (#[trigger] post.slot_wf(j) <==> pre.slot_wf(
                    j,
                )),
            post.live(i),
            post.elems_at(i) == a.elems(),
            post.count_at(i) == a.spec_label().spec_count(),
            post.label_at(i) == a.spec_label().spec_data(),
            post.slot_wf(i) == (a.wf() && a.spec_label().spec_count() >= 1),
    {
        assert forall|j: int| j != i implies (#[trigger] post.live(j) <==> pre.live(j)) by {
            if 0 <= j < pre.n_slots() {
                assert(post.slots@[j] == pre.slots@[j]);
            }
        }
        assert forall|j: int|
            j != i && pre.live(j) implies #[trigger] post.elems_at(j) == pre.elems_at(j)
            && post.label_at(j) == pre.label_at(j) && post.count_at(j) == pre.count_at(j) by {
            assert(post.slots@[j] == pre.slots@[j]);
        }
        assert forall|j: int|
            j != i && 0 <= j < pre.n_slots() implies (#[trigger] post.slot_wf(j) <==> pre.slot_wf(
            j,
        )) by {
            assert(post.slots@[j] == pre.slots@[j]);
        }
    }

    /// Effects of freeing slot `i`: every other slot keeps its state, and
    /// slot `i` stops being live.
    proof fn lemma_free_effects(pre: Self, post: Self, i: int)
        requires
            0 <= i < pre.n_slots(),
            post.slots@ == pre.slots@.update(i, None),
        ensures
            post.n_slots() == pre.n_slots(),
            forall|j: int| j != i ==> (#[trigger] post.live(j) <==> pre.live(j)),
            forall|j: int|
                j != i && pre.live(j) ==> #[trigger] post.elems_at(j) == pre.elems_at(j)
                    && post.label_at(j) == pre.label_at(j) && post.count_at(j) == pre.count_at(j),
            forall|j: int|
                j != i && 0 <= j < pre.n_slots() ==> (#[trigger] post.slot_wf(j) <==> pre.slot_wf(
                    j,
                )),
            !post.live(i),
    {
        assert forall|j: int| j != i implies (#[trigger] post.live(j) <==> pre.live(j)) by {
            if 0 <= j < pre.n_slots() {
                assert(post.slots@[j] == pre.slots@[j]);
            }
        }
        assert forall|j: int|
            j != i && pre.live(j) implies #[trigger] post.elems_at(j) == pre.elems_at(j)
            && post.label_at(j) == pre.label_at(j) && post.count_at(j) == pre.count_at(j) by {
            assert(post.slots@[j] == pre.slots@[j]);
        }
        assert forall|j: int|
            j != i && 0 <= j < pre.n_slots() implies (#[trigger] post.slot_wf(j) <==> pre.slot_wf(
            j,
        )) by {
            assert(post.slots@[j] == pre.slots@[j]);
        }
    }

    /// Effects of pushing the live block `a` onto the store: every existing
    /// slot keeps its state, and the new slot `i == pre.n_slots()` shows `a`.
    proof fn lemma_push_effects(pre: Self, post: Self, a: A)
        requires
            post.slots@ == pre.slots@.push(Some(a)),
        ensures
            post.n_slots() == pre.n_slots() + 1,
            forall|j: int|
                j != pre.n_slots() ==> (#[trigger] post.live(j) <==> pre.live(j)),
            forall|j: int|
                j != pre.n_slots() && pre.live(j) ==> #[trigger] post.elems_at(j) == pre.elems_at(
                    j,
                ) && post.label_at(j) == pre.label_at(j) && post.count_at(j) == pre.count_at(j),
            forall|j: int|
                j != pre.n_slots() && pre.live(j) ==> (#[trigger] post.slot_wf(j) <==> pre.slot_wf(
                    j,
                )),
            post.live(pre.n_slots() as int),
            post.elems_at(pre.n_slots() as int) == a.elems(),
            post.count_at(pre.n_slots() as int) == a.spec_label().spec_count(),
            post.label_at(pre.n_slots() as int) == a.spec_label().spec_data(),
            post.slot_wf(pre.n_slots() as int) == (a.wf() && a.spec_label().spec_count() >= 1),
    {
        let n = pre.n_slots() as int;
        assert forall|j: int| j != n implies (#[trigger] post.live(j) <==> pre.live(j)) by {
            if 0 <= j < n {
                assert(post.slots@[j] == pre.slots@[j]);
            }
        }
        assert forall|j: int|
            j != n && pre.live(j) implies #[trigger] post.elems_at(j) == pre.elems_at(j)
            && post.label_at(j) == pre.label_at(j) && post.count_at(j) == pre.count_at(j) by {
            assert(post.slots@[j] == pre.slots@[j]);
        }
        assert forall|j: int|
            j != n && pre.live(j) implies (#[trigger] post.slot_wf(j) <==> pre.slot_wf(j)) by {
            assert(post.slots@[j] == pre.slots@[j]);
        }
        assert(post.slots@[n] == Some(a));
    }

    /// Borrow the live block in slot `i`.
    fn slot_ref(&self, i: usize) -> (r: &A)
        requires
            self.live(i as int),
        ensures
            *r == self.slots@[i as int]->Some_0,
    {
        self.slots[i].as_ref().unwrap()
    }

    /// Borrow the live block in slot `i` mutably.
    fn slot_mut(&mut self, i: usize) -> (r: &mut A)
        requires
            old(self).live(i as int),
        ensures
            *r == old(self).slots@[i as int]->Some_0,
            final(self).slots@ == old(self).slots@.update(i as int, Some(*final(r))),
    {
        let opt = &mut self.slots[i];
        opt.as_mut().unwrap()
    }
}

/// A naively reference-counted array handle: either `Null`, a valid inert
/// placeholder that names no block, or the index of a live slot in the store
/// the handle was created in.
pub struct RcArray<E, L, A> {
    slot: Option<usize>,
    phantom: PhantomData<(E, L, A)>,
}

impl<E, L, A: LabelledArray<E, ArcStruct<L>>> RcArray<E, L, A> {
    /// The slot this handle names, if any.
    pub closed spec fn spec_slot(&self) -> Option<usize> {
        self.slot
    }

    /// Whether this is the null handle.
    pub open spec fn spec_is_null(&self) -> bool {
        self.spec_slot() is None
    }

    /// The slot index of a non-null handle.
    pub open spec fn slot_index(&self) -> int {
        self.spec_slot()->Some_0 as int
    }

    /// A non-null handle is valid when its slot is live in `store`; the null
    /// handle is always valid.
    pub open spec fn valid(&self, store: &RcStore<E, L, A>) -> bool {
        !self.spec_is_null() ==> store.live(self.slot_index())
    }

    /// Creates a new null reference.
    pub fn null_ref() -> (r: Self)
        ensures
            r.spec_is_null(),
    {
        RcArray { slot: None, phantom: PhantomData }
    }

    /// Checks whether the array reference contained by this handle is null.
    pub fn is_null(&self) -> (r: bool)
        ensures
            r == self.spec_is_null(),
    {
        match self.slot {
            None => true,
            Some(_) => false,
        }
    }

    /// Guards against null dereference: where an unverified caller would hit
    /// a loud runtime failure, a verified caller discharges this
    /// precondition instead.
    pub fn check_null(&self)
        requires
            !self.spec_is_null(),
    {
    }

    /// Create a new counted array, with elements initialized in ascending
    /// index order using a provided function, and the user label initialized
    /// to a provided value.  The block starts with one reference: the handle
    /// returned.
    pub fn with_label<F: Fn(usize) -> E>(
        store: &mut RcStore<E, L, A>,
        label: L,
        len: usize,
        func: F,
    ) -> (r: Self)
        requires
            old(store).store_wf(),
            len as nat <= A::spec_max_len(),
            forall|i: usize| i < len ==> call_requires(func, (i,)),
        ensures
            final(store).store_wf(),
            !r.spec_is_null(),
            r.valid(final(store)),
            old(store).alloc_step(*final(store), r.slot_index()),
            final(store).elems_at(r.slot_index()).len() == len,
            final(store).label_at(r.slot_index()) == label,
            forall|i: int|
                0 <= i < len ==> call_ensures(
                    func,
                    (i as usize,),
                    #[trigger] final(store).elems_at(r.slot_index())[i],
                ),
    {
        let data = A::with_label(ArcStruct::new(label), len, func);
        Self::from_ref(store, data)
    }

    /// Wrap an existing representation into the store as a counted array.
    /// The representation's count must already stand at one: the handle
    /// returned is that one reference.
    pub fn from_ref(store: &mut RcStore<E, L, A>, data: A) -> (r: Self)
        requires
            old(store).store_wf(),
            data.wf(),
            data.spec_label().spec_count() == 1,
        ensures
            final(store).store_wf(),
            !r.spec_is_null(),
            r.valid(final(store)),
            old(store).alloc_step(*final(store), r.slot_index()),
            final(store).elems_at(r.slot_index()) == data.elems(),
            final(store).label_at(r.slot_index()) == data.spec_label().spec_data(),
    {
        let ghost pre = *store;
        let i = store.slots.len();
        store.slots.push(Some(data));
        proof {
            RcStore::lemma_push_effects(pre, *store, data);
            assert forall|j: int| #[trigger] store.live(j) implies store.slot_wf(j) by {
                if j != i {
                    assert(pre.live(j));
                    assert(pre.slot_wf(j));
                }
            }
        }
        RcArray { slot: Some(i), phantom: PhantomData }
    }

    /// Clone the handle: a null handle yields another null handle; otherwise
    /// the shared count grows by one and the new handle aliases the same
    /// block.
    pub fn clone(&self, store: &mut RcStore<E, L, A>) -> (r: Self)
        requires
            old(store).store_wf(),
            self.valid(old(store)),
            !self.spec_is_null() ==> old(store).count_at(self.slot_index()) < usize::MAX,
        ensures
            final(store).store_wf(),
            r.spec_slot() == self.spec_slot(),
            self.spec_is_null() ==> *final(store) == *old(store),
            !self.spec_is_null() ==> old(store).clone_step(*final(store), self.slot_index()),
    {
        match self.slot {
            None => Self::null_ref(),
            Some(i) => {
                let ghost pre = *store;
                let a = store.slot_mut(i);
                let lbl = a.get_label_mut();
                lbl.increment();
                proof {
                    RcStore::lemma_update_effects(
                        pre,
                        *store,
                        i as int,
                        store.slots@[i as int]->Some_0,
                    );
                    assert forall|j: int| #[trigger] store.live(j) implies store.slot_wf(j) by {
                        if j != i {
                            assert(pre.live(j));
                            assert(pre.slot_wf(j));
                        }
                    }
                    assert forall|j: int| (#[trigger] store.live(j) <==> pre.live(j)) by {
                        if j != i {
                        }
                    }
                    assert forall|j: int|
                        pre.live(j) implies #[trigger] store.elems_at(j) == pre.elems_at(j)
                        && store.label_at(j) == pre.label_at(j) by {
                        if j != i {
                        }
                    }
                }
                RcArray { slot: Some(i), phantom: PhantomData }
            },
        }
    }

    /// Make this handle null, giving up its reference.  A null handle is
    /// left alone; otherwise the count shrinks by one, and the block is
    /// destroyed exactly when this was the last reference.
    pub fn to_null(&mut self, store: &mut RcStore<E, L, A>)
        requires
            old(store).store_wf(),
            old(self).valid(old(store)),
        ensures
            final(self).spec_is_null(),
            final(store).store_wf(),
            old(self).spec_is_null() ==> *final(store) == *old(store),
            !old(self).spec_is_null() ==> old(store).drop_step(
                *final(store),
                old(self).slot_index(),
            ),
            !old(self).spec_is_null() ==> (old(store).destroys(
                *final(store),
                old(self).slot_index(),
            ) <==> old(store).count_at(old(self).slot_index()) == 1),
    {
        match self.slot {
            None => {
            },
            Some(i) => {
                let ghost pre = *store;
                let a = store.slot_mut(i);
                let lbl = a.get_label_mut();
                let rc = lbl.decrement();
                proof {
                    RcStore::lemma_update_effects(
                        pre,
                        *store,
                        i as int,
                        store.slots@[i as int]->Some_0,
                    );
                }
                let ghost mid = *store;
                if rc == 0 {
                    let slot_ref = &mut store.slots[i];
                    let _dead = slot_ref.take();
                    proof {
                        assert(store.slots@ == mid.slots@.update(i as int, None::<A>));
                        RcStore::lemma_free_effects(mid, *store, i as int);
                        assert forall|j: int| #[trigger] store.live(j) implies store.slot_wf(
                            j,
                        ) by {
                            if j != i {
                                assert(mid.live(j));
                                assert(pre.live(j));
                                assert(pre.slot_wf(j));
                                assert(mid.slot_wf(j));
                            }
                        }
                        assert forall|j: int|
                            j != i implies (#[trigger] store.live(j) <==> pre.live(j)) by {
                            assert(mid.live(j) <==> pre.live(j));
                        }
                        assert forall|j: int|
                            pre.live(j) && j != i implies #[trigger] store.elems_at(j)
                            == pre.elems_at(j) && store.label_at(j) == pre.label_at(j)
                            && store.count_at(j) == pre.count_at(j) by {
                            assert(mid.live(j));
                        }
                    }
                } else {
                    proof {
                        assert forall|j: int| #[trigger] store.live(j) implies store.slot_wf(
                            j,
                        ) by {
                            if j != i {
                                assert(pre.live(j));
                                assert(pre.slot_wf(j));
                            }
                        }
                        assert forall|j: int|
                            j != i implies (#[trigger] store.live(j) <==> pre.live(j)) by {}
                    }
                }
                self.slot = None;
            },
        }
    }

    /// The number of elements in the array this handle references.
    pub fn len(&self, store: &RcStore<E, L, A>) -> (r: usize)
        requires
            store.store_wf(),
            self.valid(store),
            !self.spec_is_null(),
        ensures
            r == store.elems_at(self.slot_index()).len(),
    {
        let i = match self.slot {
            Some(i) => i,
            None => 0,
        };
        store.slot_ref(i).len()
    }

    /// Get a reference to the element at `key`, or nothing when `key` is out
    /// of range.
    pub fn get<'a>(&self, store: &'a RcStore<E, L, A>, key: usize) -> (r: Option<&'a E>)
        requires
            store.store_wf(),
            self.valid(store),
            !self.spec_is_null(),
        ensures
            match r {
                Some(e) => key < store.elems_at(self.slot_index()).len() && *e == store.elems_at(
                    self.slot_index(),
                )[key as int],
                None => key >= store.elems_at(self.slot_index()).len(),
            },
    {
        let i = match self.slot {
            Some(i) => i,
            None => 0,
        };
        store.slot_ref(i).get(key)
    }

    /// Get a reference to the element at `key` without a runtime bounds
    /// check; the caller must have established that `key` is in range.
    pub fn get_unchecked<'a>(&self, store: &'a RcStore<E, L, A>, key: usize) -> (r: &'a E)
        requires
            store.store_wf(),
            self.valid(store),
            !self.spec_is_null(),
            key < store.elems_at(self.slot_index()).len(),
        ensures
            *r == store.elems_at(self.slot_index())[key as int],
    {
        let i = match self.slot {
            Some(i) => i,
            None => 0,
        };
        store.slot_ref(i).get_unchecked(key)
    }

    /// Get a reference to the element at `key`; the index must be in range.
    pub fn index<'a>(&self, store: &'a RcStore<E, L, A>, key: usize) -> (r: &'a E)
        requires
            store.store_wf(),
            self.valid(store),
            !self.spec_is_null(),
            key < store.elems_at(self.slot_index()).len(),
        ensures
            *r == store.elems_at(self.slot_index())[key as int],
    {
        self.check_null();
        self.get_unchecked(store, key)
    }

    /// Replace the element at `key` with `value` and hand the previous
    /// element back; out of range, return nothing and change nothing.
    pub fn insert(&self, store: &mut RcStore<E, L, A>, key: usize, value: E) -> (r: Option<E>)
        requires
            old(store).store_wf(),
            self.valid(old(store)),
            !self.spec_is_null(),
        ensures
            final(store).store_wf(),
            self.valid(final(store)),
            match r {
                Some(prev) => {
                    &&& key < old(store).elems_at(self.slot_index()).len()
                    &&& prev == old(store).elems_at(self.slot_index())[key as int]
                    &&& old(store).mutate_step(
                        *final(store),
                        self.slot_index(),
                        old(store).elems_at(self.slot_index()).update(key as int, value),
                    )
                },
                None => {
                    &&& key >= old(store).elems_at(self.slot_index()).len()
                    &&& old(store).unchanged(*final(store))
                },
            },
    {
        let i = match self.slot {
            Some(i) => i,
            None => 0,
        };
        let ghost pre = *store;
        let a = store.slot_mut(i);
        let r = a.insert(key, value);
        proof {
            RcStore::lemma_update_effects(pre, *store, i as int, store.slots@[i as int]->Some_0);
            assert forall|j: int| #[trigger] store.live(j) implies store.slot_wf(j) by {
                if j != i {
                    assert(pre.live(j));
                    assert(pre.slot_wf(j));
                }
            }
            assert forall|j: int| (#[trigger] store.live(j) <==> pre.live(j)) by {
                if j != i {
                }
            }
            assert forall|j: int|
                pre.live(j) && j != i implies #[trigger] store.elems_at(j) == pre.elems_at(j)
                && store.label_at(j) == pre.label_at(j) && store.count_at(j) == pre.count_at(
                j,
            ) by {}
            if r is None {
                assert forall|j: int|
                    pre.live(j) implies #[trigger] store.elems_at(j) == pre.elems_at(j)
                    && store.label_at(j) == pre.label_at(j) && store.count_at(j) == pre.count_at(
                    j,
                ) by {}
            }
        }
        r
    }

    /// Write `value` into the slot at `key`, dropping the previous element;
    /// the index must be in range.
    pub fn set(&self, store: &mut RcStore<E, L, A>, key: usize, value: E)
        requires
            old(store).store_wf(),
            self.valid(old(store)),
            !self.spec_is_null(),
            key < old(store).elems_at(self.slot_index()).len(),
        ensures
            final(store).store_wf(),
            self.valid(final(store)),
            old(store).mutate_step(
                *final(store),
                self.slot_index(),
                old(store).elems_at(self.slot_index()).update(key as int, value),
            ),
    {
        let _ = self.insert(store, key, value);
    }


    /// Get a reference to the user label of the array this handle
    /// references.
    pub fn get_label<'a>(&self, store: &'a RcStore<E, L, A>) -> (r: &'a L)
        requires
            store.store_wf(),
            self.valid(store),
            !self.spec_is_null(),
        ensures
            *r == store.label_at(self.slot_index()),
    {
        let i = match self.slot {
            Some(i) => i,
            None => 0,
        };
        store.slot_ref(i).get_label().get_data()
    }

    /// Overwrite the user label of the array this handle references with
    /// `label`; the count and the elements cannot be reached this way.
    pub fn set_label(&self, store: &mut RcStore<E, L, A>, label: L)
        requires
            old(store).store_wf(),
            self.valid(old(store)),
            !self.spec_is_null(),
        ensures
            final(store).store_wf(),
            self.valid(final(store)),
            old(store).relabel_step(*final(store), self.slot_index(), label),
    {
        let i = match self.slot {
            Some(i) => i,
            None => 0,
        };
        let ghost pre = *store;
        let a = store.slot_mut(i);
        let counted = a.get_label_mut();
        let data = counted.get_data_mut();
        *data = label;
        proof {
            RcStore::lemma_update_effects(pre, *store, i as int, store.slots@[i as int]->Some_0);
            assert forall|j: int| #[trigger] store.live(j) implies store.slot_wf(j) by {
                if j != i {
                    assert(pre.live(j));
                    assert(pre.slot_wf(j));
                }
            }
            assert forall|j: int| (#[trigger] store.live(j) <==> pre.live(j)) by {
                if j != i {
                }
            }
            assert forall|j: int|
                pre.live(j) && j != i implies #[trigger] store.elems_at(j) == pre.elems_at(j)
                && store.label_at(j) == pre.label_at(j) && store.count_at(j) == pre.count_at(
                j,
            ) by {}
        }
    }

    /// Whether two handles name the same block (or are both null).
    fn ident_eq(&self, other: &Self) -> (r: bool)
        ensures
            r == (self.spec_slot() == other.spec_slot()),
    {
        match (self.slot, other.slot) {
            (None, None) => true,
            (Some(a), Some(b)) => a == b,
            _ => false,
        }
    }

    /// Exchange the handle held in this slot for `new`, unconditionally.
    /// Ownership moves both ways, so no count changes hands.
    pub fn swap(&mut self, new: Self) -> (r: Self)
        ensures
            r.spec_slot() == old(self).spec_slot(),
            final(self).spec_slot() == new.spec_slot(),
    {
        let mut new = new;
        core::mem::swap(self, &mut new);
        new
    }

    /// Read the handle held in this slot: the occupant stays and a fresh
    /// reference to the same block comes back, so the count grows by one.
    pub fn load(&self, store: &mut RcStore<E, L, A>) -> (r: Self)
        requires
            old(store).store_wf(),
            self.valid(old(store)),
            !self.spec_is_null() ==> old(store).count_at(self.slot_index()) < usize::MAX,
        ensures
            final(store).store_wf(),
            r.spec_slot() == self.spec_slot(),
            old(store).acquire_step(*final(store), self.spec_slot()),
    {
        self.clone(store)
    }

    /// Replace the handle held in this slot with `new`; the reference the
    /// previous occupant held is released.
    pub fn store(&mut self, store: &mut RcStore<E, L, A>, new: Self)
        requires
            old(store).store_wf(),
            old(self).valid(old(store)),
        ensures
            final(store).store_wf(),
            final(self).spec_slot() == new.spec_slot(),
            old(store).release_step(*final(store), old(self).spec_slot()),
    {
        let mut prev = self.swap(new);
        prev.to_null(store);
    }

    /// Conditionally exchange the handle held in this slot: the exchange
    /// succeeds if and only if the occupant names the same block as
    /// `current`.  On success the slot holds `new`, the previous occupant is
    /// yielded with its reference, and no count changes; on failure the slot
    /// is untouched, and the call yields a fresh reference to the actual
    /// occupant together with `new`, unconsumed.
    pub fn compare_exchange(
        &mut self,
        store: &mut RcStore<E, L, A>,
        current: &Self,
        new: Self,
    ) -> (r: Result<Self, (Self, Self)>)
        requires
            old(store).store_wf(),
            old(self).valid(old(store)),
            new.valid(old(store)),
            !old(self).spec_is_null() ==> old(store).count_at(old(self).slot_index()) < usize::MAX,
        ensures
            final(store).store_wf(),
            match r {
                Ok(prev) => {
                    &&& old(self).spec_slot() == current.spec_slot()
                    &&& prev.spec_slot() == old(self).spec_slot()
                    &&& final(self).spec_slot() == new.spec_slot()
                    &&& *final(store) == *old(store)
                },
                Err((actual, given_back)) => {
                    &&& old(self).spec_slot() != current.spec_slot()
                    &&& final(self).spec_slot() == old(self).spec_slot()
                    &&& actual.spec_slot() == old(self).spec_slot()
                    &&& given_back.spec_slot() == new.spec_slot()
                    &&& old(store).acquire_step(*final(store), old(self).spec_slot())
                },
            },
    {
        if self.ident_eq(current) {
            let prev = self.swap(new);
            Ok(prev)
        } else {
            let actual = self.clone(store);
            Err((actual, new))
        }
    }

    /// The weak flavor of the conditional exchange: success still implies
    /// the occupant named the same block as `current`, with the semantics of
    /// the strong exchange, but success is not promised even then; a failed
    /// call may therefore carry a matching occupant back.
    pub fn compare_exchange_weak(
        &mut self,
        store: &mut RcStore<E, L, A>,
        current: &Self,
        new: Self,
    ) -> (r: Result<Self, (Self, Self)>)
        requires
            old(store).store_wf(),
            old(self).valid(old(store)),
            new.valid(old(store)),
            !old(self).spec_is_null() ==> old(store).count_at(old(self).slot_index()) < usize::MAX,
        ensures
            final(store).store_wf(),
            match r {
                Ok(prev) => {
                    &&& old(self).spec_slot() == current.spec_slot()
                    &&& prev.spec_slot() == old(self).spec_slot()
                    &&& final(self).spec_slot() == new.spec_slot()
                    &&& *final(store) == *old(store)
                },
                Err((actual, given_back)) => {
                    &&& final(self).spec_slot() == old(self).spec_slot()
                    &&& actual.spec_slot() == old(self).spec_slot()
                    &&& given_back.spec_slot() == new.spec_slot()
                    &&& old(store).acquire_step(*final(store), old(self).spec_slot())
                },
            },
    {
        self.compare_exchange(store, current, new)
    }

    /// The exchange-and-report flavor of the conditional exchange: always
    /// yields a handle to what the slot held before the call.  On success
    /// that is the previous occupant itself; on failure it is a fresh
    /// reference to the actual occupant, and the reference `new` held is
    /// released.
    pub fn compare_and_swap(
        &mut self,
        store: &mut RcStore<E, L, A>,
        current: &Self,
        new: Self,
    ) -> (r: Self)
        requires
            old(store).store_wf(),
            old(self).valid(old(store)),
            new.valid(old(store)),
            !old(self).spec_is_null() ==> old(store).count_at(old(self).slot_index()) < usize::MAX,
        ensures
            final(store).store_wf(),
            r.spec_slot() == old(self).spec_slot(),
            old(self).spec_slot() == current.spec_slot() ==> final(self).spec_slot()
                == new.spec_slot() && *final(store) == *old(store),
            old(self).spec_slot() != current.spec_slot() ==> final(self).spec_slot() == old(
                self,
            ).spec_slot() && (exists|mid: RcStore<E, L, A>|
                #[trigger] old(store).cas_fail_step(
                    mid,
                    *final(store),
                    old(self).spec_slot(),
                    new.spec_slot(),
                )),
    {
        match self.compare_exchange(store, current, new) {
            Ok(prev) => prev,
            Err((actual, given_back)) => {
                let ghost mid = *store;
                let mut given_back = given_back;
                proof {
                    if !given_back.spec_is_null() {
                        assert(mid.live(given_back.slot_index()));
                    }
                }
                given_back.to_null(store);
                proof {
                    assert(old(store).cas_fail_step(
                        mid,
                        *store,
                        old(self).spec_slot(),
                        new.spec_slot(),
                    ));
                }
                actual
            },
        }
    }
}


/// Constructors for counted arrays without a label of their own.
impl<E, A: LabelledArray<E, ArcStruct<()>>> RcArray<E, (), A> {
    /// Create a new counted array, with elements initialized in ascending
    /// index order using a provided function.
    pub fn new<F: Fn(usize) -> E>(store: &mut RcStore<E, (), A>, len: usize, func: F) -> (r: Self)
        requires
            old(store).store_wf(),
            len as nat <= A::spec_max_len(),
            forall|i: usize| i < len ==> call_requires(func, (i,)),
        ensures
            final(store).store_wf(),
            !r.spec_is_null(),
            r.valid(final(store)),
            old(store).alloc_step(*final(store), r.slot_index()),
            final(store).elems_at(r.slot_index()).len() == len,
            forall|i: int|
                0 <= i < len ==> call_ensures(
                    func,
                    (i as usize,),
                    #[trigger] final(store).elems_at(r.slot_index())[i],
                ),
    {
        Self::with_label(store, (), len, func)
    }
}

/// Constructors for counted arrays over elements with a default value.
impl<E: Default, L, A: LabelledArray<E, ArcStruct<L>>> RcArray<E, L, A> {
    /// Create a new counted array, with every element initialized to a
    /// default value.
    pub fn with_len(store: &mut RcStore<E, L, A>, label: L, len: usize) -> (r: Self)
        requires
            old(store).store_wf(),
            len as nat <= A::spec_max_len(),
        ensures
            final(store).store_wf(),
            !r.spec_is_null(),
            r.valid(final(store)),
            old(store).alloc_step(*final(store), r.slot_index()),
            final(store).elems_at(r.slot_index()).len() == len,
            final(store).label_at(r.slot_index()) == label,
            forall|i: int|
                0 <= i < len ==> crate::traits::defaulted::<E>(
                    #[trigger] final(store).elems_at(r.slot_index())[i],
                ),
    {
        let func = |_i: usize| -> (e: E)
            ensures
                crate::traits::defaulted::<E>(e),
            { E::default() };
        let r = Self::with_label(store, label, len, func);
        r
    }
}

} // verus!
