//! Contains the definition of `ThinPtrArray`, an array handle of one machine
//! word: the block alone, with the array length embedded in the block's label
//! next to the user's own label value.
//!
//! This is closer to how arrays are defined in C, and may improve performance
//! for handle-heavy workloads; it is not the default implementation of
//! `HeapArray`, but is available alongside it.

use crate::layout::spec_max_len;
use crate::mem_block::MemBlock;
use crate::traits::{DefaultLabelledArray, LabelledArray, MakeArray, SliceArray, SliceArrayRef};
use vstd::pervasive::cloned;
use vstd::prelude::*;

verus! {

/// The label a thin array stores in its block: the element count, then the
/// user's label value.
pub(crate) struct LenLabel<L> {
    pub(crate) len: usize,
    pub(crate) label: L,
}

/// Heap-allocated array, with the array length stored inside the block's
/// label rather than with the handle.
///
/// A well-formed handle's embedded length always equals the number of
/// elements its block holds, and the block keeps the layout engine's bound.
pub struct ThinPtrArray<E, L> {
    data: MemBlock<E, LenLabel<L>>,
}

impl<E, L> ThinPtrArray<E, L> {
    /// A thin handle is well-formed when the length its block's label embeds
    /// agrees with the block and the block keeps the layout bound.
    pub closed spec fn thin_wf(&self) -> bool {
        &&& self.data.wf()
        &&& self.data.spec_label().len == self.data.elems().len()
    }

    /// The largest element count a thin array of these types accepts.  The
    /// bound is computed against the embedded label, which carries the length
    /// next to the user's label value.
    pub fn max_len() -> (r: usize)
        ensures
            r == Self::spec_max_len(),
    {
        crate::layout::max_len::<E, LenLabel<L>>()
    }

    /// Get a reference to the element at `idx`; the index must be in range.
    pub fn index(&self, idx: usize) -> (r: &E)
        requires
            self.thin_wf(),
            idx < self.elems().len(),
        ensures
            *r == self.elems()[idx as int],
    {
        self.data.get_ptr(idx)
    }

    /// Get a mutable reference to the element at `idx`; the index must be in
    /// range.
    pub fn index_mut(&mut self, idx: usize) -> (r: &mut E)
        requires
            old(self).thin_wf(),
            idx < old(self).elems().len(),
        ensures
            *r == old(self).elems()[idx as int],
            final(self).elems() == old(self).elems().update(idx as int, *final(r)),
            final(self).spec_label() == old(self).spec_label(),
            final(self).thin_wf(),
    {
        self.data.get_ptr_mut(idx)
    }

    /// Write `value` into the slot at `idx`, dropping the previous element;
    /// the index must be in range.
    pub fn set(&mut self, idx: usize, value: E)
        requires
            old(self).thin_wf(),
            idx < old(self).elems().len(),
        ensures
            final(self).elems() == old(self).elems().update(idx as int, value),
            final(self).spec_label() == old(self).spec_label(),
            final(self).thin_wf(),
    {
        let _ = self.data.replace(idx, value);
    }

    /// Take the handle apart into its user label and its elements; nothing is
    /// destroyed.
    pub fn into_parts(self) -> (r: (L, Vec<E>))
        ensures
            r.0 == self.spec_label(),
            r.1@ == self.elems(),
    {
        let (len_label, elements) = self.data.dealloc_lazy();
        (len_label.label, elements)
    }
}

impl<E, L> LabelledArray<E, L> for ThinPtrArray<E, L> {
    closed spec fn elems(&self) -> Seq<E> {
        self.data.elems()
    }

    closed spec fn spec_label(&self) -> L {
        self.data.spec_label().label
    }

    open spec fn wf(&self) -> bool {
        self.thin_wf()
    }

    closed spec fn spec_max_len() -> nat {
        spec_max_len::<E, LenLabel<L>>()
    }

    fn with_label<F: Fn(usize) -> E>(label: L, len: usize, func: F) -> (r: Self) {
        let data = MemBlock::<E, LenLabel<L>>::new_init(LenLabel { len, label }, len, func);
        ThinPtrArray { data }
    }

    fn len(&self) -> (r: usize) {
        self.data.get_label().len
    }

    fn get(&self, key: usize) -> (r: Option<&E>) {
        if key >= self.data.get_label().len {
            None
        } else {
            Some(self.data.get_ptr(key))
        }
    }

    fn get_mut(&mut self, key: usize) -> (r: Option<&mut E>) {
        if key >= self.data.get_label().len {
            None
        } else {
            Some(self.data.get_ptr_mut(key))
        }
    }

    fn insert(&mut self, key: usize, value: E) -> (r: Option<E>) {
        if key >= self.data.get_label().len {
            None
        } else {
            Some(self.data.replace(key, value))
        }
    }

    fn get_label(&self) -> (r: &L) {
        &self.data.get_label().label
    }

    fn get_label_mut(&mut self) -> (r: &mut L) {
        let len_label = self.data.get_label_mut();
        &mut len_label.label
    }

    fn get_unchecked(&self, key: usize) -> (r: &E) {
        self.data.get_ptr(key)
    }
}

impl<E> MakeArray<E> for ThinPtrArray<E, ()> {
    fn new<F: Fn(usize) -> E>(len: usize, func: F) -> (r: Self) {
        Self::with_label((), len, func)
    }
}

impl<E: Default, L> DefaultLabelledArray<E, L> for ThinPtrArray<E, L> {
    fn with_len(label: L, len: usize) -> (r: Self) {
        let func = |_i: usize| -> (e: E)
            ensures
                crate::traits::defaulted::<E>(e),
            { E::default() };
        let r = Self::with_label(label, len, func);
        r
    }
}

impl<E: Default, L> ThinPtrArray<E, L> {
    /// Get a new array, with every element initialized to a default value.
    pub fn new_default(label: L, len: usize) -> (r: Self)
        requires
            len as nat <= Self::spec_max_len(),
        ensures
            r.thin_wf(),
            r.elems().len() == len,
            r.spec_label() == label,
            forall|i: int|
                0 <= i < len ==> crate::traits::defaulted::<E>(#[trigger] r.elems()[i]),
    {
        Self::with_len(label, len)
    }
}

impl<E, L> SliceArray<E> for ThinPtrArray<E, L> {
    open spec fn slice_view(&self) -> Seq<E> {
        self.elems()
    }

    open spec fn slice_wf(&self) -> bool {
        self.thin_wf()
    }

    fn as_slice(&self) -> (r: &[E]) {
        self.data.as_slice()
    }

    fn as_slice_mut(&mut self) -> (r: &mut [E]) {
        self.data.as_mut_slice()
    }
}

impl<E, L> SliceArrayRef<E> for ThinPtrArray<E, L> {
    open spec fn slice_ref_view(&self) -> Seq<E> {
        self.elems()
    }

    open spec fn slice_ref_wf(&self) -> bool {
        self.thin_wf()
    }

    fn as_slice_ref(&self) -> (r: &[E]) {
        self.data.as_slice()
    }
}

impl<E: Clone, L: Clone> ThinPtrArray<E, L> {
    /// Allocates a fresh block and deep-copies the user label and every
    /// element, index by index.
    pub fn clone(&self) -> (r: Self)
        requires
            self.thin_wf(),
        ensures
            r.thin_wf(),
            r.elems().len() == self.elems().len(),
            forall|i: int|
                0 <= i < self.elems().len() ==> cloned::<E>(
                    self.elems()[i],
                    #[trigger] r.elems()[i],
                ),
            cloned::<L>(self.spec_label(), r.spec_label()),
    {
        let n = self.data.get_label().len;
        let new_label = self.data.get_label().label.clone();
        let func = |i: usize| -> (e: E)
            requires
                self.thin_wf(),
                i < self.elems().len(),
            ensures
                cloned::<E>(self.elems()[i as int], e),
            {
                let elem = self.data.get_ptr(i);
                elem.clone()
            };
        let r = Self::with_label(new_label, n, func);
        r
    }

    /// Overwrites this array with a deep copy of `source`, reusing the block
    /// when the lengths agree.
    pub fn clone_from(&mut self, source: &Self)
        requires
            old(self).thin_wf(),
            source.thin_wf(),
        ensures
            final(self).thin_wf(),
            final(self).elems().len() == source.elems().len(),
            forall|i: int|
                0 <= i < source.elems().len() ==> cloned::<E>(
                    source.elems()[i],
                    #[trigger] final(self).elems()[i],
                ),
            cloned::<L>(source.spec_label(), final(self).spec_label()),
    {
        let n = self.data.get_label().len;
        if source.data.get_label().len != n {
            *self = source.clone();
        } else {
            let new_label = source.data.get_label().label.clone();
            let len_label = self.data.get_label_mut();
            len_label.label = new_label;
            let mut i: usize = 0;
            while i < n
                invariant
                    self.thin_wf(),
                    source.thin_wf(),
                    i <= n,
                    n == source.elems().len(),
                    n == self.elems().len(),
                    cloned::<L>(source.spec_label(), self.spec_label()),
                    forall|j: int|
                        0 <= j < i ==> cloned::<E>(
                            source.elems()[j],
                            #[trigger] self.elems()[j],
                        ),
                decreases n - i,
            {
                let ghost prev = self.elems();
                let elem = source.data.get_ptr(i);
                let v = elem.clone();
                proof {
                    assert(cloned::<E>(source.elems()[i as int], v));
                }
                let _ = self.data.replace(i, v);
                proof {
                    assert forall|j: int| 0 <= j < i + 1 implies cloned::<E>(
                        source.elems()[j],
                        #[trigger] self.elems()[j],
                    ) by {
                        if j < i {
                            assert(self.elems()[j] == prev[j]);
                        } else {
                            assert(self.elems()[j] == v);
                        }
                    }
                }
                i = i + 1;
            }
        }
    }
}

} // verus!
