//! Contains the definition of `FatPtrArray`, an array handle of two machine
//! words: the block and an explicit length carried next to it.
//!
//! The length in the handle is the sole source of truth for iteration bounds;
//! this is the typical representation of unsized references in Rust, and thus
//! also the default implementation of `HeapArray`.

use crate::layout::spec_max_len;
use crate::mem_block::MemBlock;
use crate::traits::{DefaultLabelledArray, LabelledArray, MakeArray, SliceArray, SliceArrayRef};
use vstd::pervasive::cloned;
use vstd::prelude::*;

verus! {

/// Heap-allocated array, with the array length stored with the handle to the
/// block rather than inside it.
///
/// A well-formed handle's length always equals the number of elements its
/// block holds, and the block keeps the layout engine's bound.
pub struct FatPtrArray<E, L> {
    data: MemBlock<E, L>,
    len: usize,
}

impl<E, L> FatPtrArray<E, L> {
    /// The largest element count a fat array of these types accepts.  A
    /// caller shows a requested length acceptable by comparing against this.
    pub fn max_len() -> (r: usize)
        ensures
            r == Self::spec_max_len(),
    {
        crate::layout::max_len::<E, L>()
    }

    /// A fat handle is well-formed when its carried length agrees with the
    /// block and the block keeps the layout bound.
    pub closed spec fn fat_wf(&self) -> bool {
        &&& self.data.wf()
        &&& self.len == self.data.elems().len()
    }

    /// Get a reference to the element at `idx`; the index must be in range.
    pub fn index(&self, idx: usize) -> (r: &E)
        requires
            self.fat_wf(),
            idx < self.elems().len(),
        ensures
            *r == self.elems()[idx as int],
    {
        self.data.get_ptr(idx)
    }

    /// Get a mutable reference to the element at `idx`; the index must be in
    /// range.
    pub fn index_mut(&mut self, idx: usize) -> (r: &mut E)
        requires
            old(self).fat_wf(),
            idx < old(self).elems().len(),
        ensures
            *r == old(self).elems()[idx as int],
            final(self).elems() == old(self).elems().update(idx as int, *final(r)),
            final(self).spec_label() == old(self).spec_label(),
            final(self).fat_wf(),
    {
        self.data.get_ptr_mut(idx)
    }

    /// Take the handle apart into its label and its elements; nothing is
    /// destroyed.
    pub fn into_parts(self) -> (r: (L, Vec<E>))
        ensures
            r.0 == self.spec_label(),
            r.1@ == self.elems(),
    {
        let (label, elements) = self.data.dealloc_lazy();
        (label, elements)
    }
}

impl<E, L> LabelledArray<E, L> for FatPtrArray<E, L> {
    closed spec fn elems(&self) -> Seq<E> {
        self.data.elems()
    }

    closed spec fn spec_label(&self) -> L {
        self.data.spec_label()
    }

    open spec fn wf(&self) -> bool {
        self.fat_wf()
    }

    open spec fn spec_max_len() -> nat {
        spec_max_len::<E, L>()
    }

    fn with_label<F: Fn(usize) -> E>(label: L, len: usize, func: F) -> (r: Self) {
        let data = MemBlock::<E, L>::new_init(label, len, func);
        FatPtrArray { data, len }
    }

    fn len(&self) -> (r: usize) {
        self.len
    }

    fn get(&self, key: usize) -> (r: Option<&E>) {
        if key >= self.len {
            None
        } else {
            Some(self.data.get_ptr(key))
        }
    }

    fn get_mut(&mut self, key: usize) -> (r: Option<&mut E>) {
        if key >= self.len {
            None
        } else {
            Some(self.data.get_ptr_mut(key))
        }
    }

    fn insert(&mut self, key: usize, value: E) -> (r: Option<E>) {
        if key >= self.len {
            None
        } else {
            Some(self.data.replace(key, value))
        }
    }

    fn get_label(&self) -> (r: &L) {
        self.data.get_label()
    }

    fn get_label_mut(&mut self) -> (r: &mut L) {
        self.data.get_label_mut()
    }

    fn get_unchecked(&self, key: usize) -> (r: &E) {
        self.data.get_ptr(key)
    }
}

impl<E> MakeArray<E> for FatPtrArray<E, ()> {
    fn new<F: Fn(usize) -> E>(len: usize, func: F) -> (r: Self) {
        Self::with_label((), len, func)
    }
}

impl<E: Default, L> DefaultLabelledArray<E, L> for FatPtrArray<E, L> {
    fn with_len(label: L, len: usize) -> (r: Self) {
        let func = |_i: usize| -> (e: E)
            ensures
                crate::traits::defaulted::<E>(e),
            { E::default() };
        let r = Self::with_label(label, len, func);
        r
    }
}

impl<E, L> SliceArray<E> for FatPtrArray<E, L> {
    open spec fn slice_view(&self) -> Seq<E> {
        self.elems()
    }

    open spec fn slice_wf(&self) -> bool {
        self.fat_wf()
    }

    fn as_slice(&self) -> (r: &[E]) {
        self.data.as_slice()
    }

    fn as_slice_mut(&mut self) -> (r: &mut [E]) {
        self.data.as_mut_slice()
    }
}

impl<E, L> SliceArrayRef<E> for FatPtrArray<E, L> {
    open spec fn slice_ref_view(&self) -> Seq<E> {
        self.elems()
    }

    open spec fn slice_ref_wf(&self) -> bool {
        self.fat_wf()
    }

    fn as_slice_ref(&self) -> (r: &[E]) {
        self.data.as_slice()
    }
}

impl<E: Clone, L: Clone> FatPtrArray<E, L> {
    /// Allocates a fresh block and deep-copies the label and every element,
    /// index by index.
    pub fn clone(&self) -> (r: Self)
        requires
            self.fat_wf(),
        ensures
            r.fat_wf(),
            r.elems().len() == self.elems().len(),
            forall|i: int|
                0 <= i < self.elems().len() ==> cloned::<E>(
                    self.elems()[i],
                    #[trigger] r.elems()[i],
                ),
            cloned::<L>(self.spec_label(), r.spec_label()),
    {
        let data = self.data.clone_block(self.len);
        FatPtrArray { data, len: self.len }
    }

    /// Overwrites this array with a deep copy of `source`, reusing the block
    /// when the lengths agree.
    pub fn clone_from(&mut self, source: &Self)
        requires
            old(self).fat_wf(),
            source.fat_wf(),
        ensures
            final(self).fat_wf(),
            final(self).elems().len() == source.elems().len(),
            forall|i: int|
                0 <= i < source.elems().len() ==> cloned::<E>(
                    source.elems()[i],
                    #[trigger] final(self).elems()[i],
                ),
            cloned::<L>(source.spec_label(), final(self).spec_label()),
    {
        if source.len != self.len {
            *self = source.clone();
        } else {
            let new_label = source.data.get_label().clone();
            let old_label = self.data.get_label_mut();
            *old_label = new_label;
            let mut i: usize = 0;
            while i < self.len
                invariant
                    self.fat_wf(),
                    source.fat_wf(),
                    i <= self.len,
                    self.len == source.elems().len(),
                    cloned::<L>(source.spec_label(), self.spec_label()),
                    forall|j: int|
                        0 <= j < i ==> cloned::<E>(
                            source.elems()[j],
                            #[trigger] self.elems()[j],
                        ),
                decreases self.len - i,
            {
                let ghost prev = self.elems();
                let elem = source.data.get_ptr(i);
                let v = elem.clone();
                proof {
                    assert(cloned::<E>(source.elems()[i as int], v));
                }
                let _ = self.data.replace(i, v);
                proof {
                    assert forall|j: int| 0 <= j < i + 1 implies cloned::<E>(
                        source.elems()[j],
                        #[trigger] self.elems()[j],
                    ) by {
                        if j < i {
                            assert(self.elems()[j] == prev[j]);
                        } else {
                            assert(self.elems()[j] == v);
                        }
                    }
                }
                i = i + 1;
            }
        }
    }
}

} // verus!
