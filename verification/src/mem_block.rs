//! Contains the struct `MemBlock`, the allocation unit of the crate: one
//! block that owns a label value and a fixed-length run of elements.
//!
//! A block is only ever created with a length that the layout engine accepts
//! (`spec_max_len`), so every block provably stays at or under the platform's
//! object-size ceiling.  All element addressing goes through the accessors
//! here; no caller computes offsets of its own.

use crate::layout;
use crate::layout::{spec_block_align, spec_block_size, spec_max_len};
use vstd::prelude::*;

verus! {

/// An array block that holds exactly one instance of the label type `L` and
/// some fixed number of instances of the element type `E`.
///
/// Invariants of a well-formed block:
///
/// 1. the number of elements never exceeds `spec_max_len::<E, L>()`, so the
///    block's byte size stays at or under `isize::MAX`;
/// 2. every element slot holds an initialized value: a block is constructed
///    with all of its elements written, and replacement swaps values in and
///    out without ever leaving a gap.
///
/// It's not recommended to use this type directly; instead, use the handle
/// types that wrap it, namely `HeapArray`, `FatPtrArray`, and `ThinPtrArray`.
pub struct MemBlock<E, L> {
    label: L,
    elements: Vec<E>,
}

impl<E, L> MemBlock<E, L> {
    /// The elements the block holds, in index order.
    pub closed spec fn elems(&self) -> Seq<E> {
        self.elements@
    }

    /// The label value stored next to the elements.
    pub closed spec fn spec_label(&self) -> L {
        self.label
    }

    /// A well-formed block keeps its length within the layout engine's bound.
    pub open spec fn wf(&self) -> bool {
        self.elems().len() <= spec_max_len::<E, L>()
    }

    /// Get the maximum length of a block, based on the types that it
    /// contains.
    ///
    /// This bound maintains the invariant that every block is of size (in
    /// bytes) less than or equal to `isize::MAX`.
    pub fn max_len() -> (r: usize)
        ensures
            r == spec_max_len::<E, L>(),
    {
        layout::max_len::<E, L>()
    }

    /// Get size and alignment of the memory that a block of length `len`
    /// would need.  Returns a tuple in the form `(size, align)`.
    pub fn memory_layout(len: usize) -> (r: (usize, usize))
        requires
            len <= spec_max_len::<E, L>(),
        ensures
            r.0 == spec_block_size::<E, L>(len as nat),
            r.1 == spec_block_align::<E, L>(len as nat),
    {
        layout::memory_layout::<E, L>(len)
    }

    /// Returns a block with its label set to `label` and its elements
    /// initialized, in ascending index order, to the values the generator
    /// `func` produces.
    pub fn new_init<F: Fn(usize) -> E>(label: L, len: usize, func: F) -> (r: Self)
        requires
            len <= spec_max_len::<E, L>(),
            forall|i: usize| i < len ==> call_requires(func, (i,)),
        ensures
            r.wf(),
            r.elems().len() == len,
            r.spec_label() == label,
            forall|i: int|
                0 <= i < len ==> call_ensures(func, (i as usize,), #[trigger] r.elems()[i]),
    {
        let mut elements: Vec<E> = Vec::new();
        let mut i: usize = 0;
        while i < len
            invariant
                i <= len,
                elements@.len() == i,
                forall|i: usize| i < len ==> call_requires(func, (i,)),
                forall|j: int|
                    0 <= j < i ==> call_ensures(func, (j as usize,), #[trigger] elements@[j]),
            decreases len - i,
        {
            let e = func(i);
            elements.push(e);
            i = i + 1;
        }
        MemBlock { label, elements }
    }

    /// The number of elements the block holds.
    pub fn len(&self) -> (r: usize)
        ensures
            r == self.elems().len(),
    {
        self.elements.len()
    }

    /// Returns a reference to the element at index `idx`.
    ///
    /// The index must be in bounds: in-range addressing is what keeps every
    /// access inside the block's computed byte size.
    pub fn get_ptr(&self, idx: usize) -> (r: &E)
        requires
            idx < self.elems().len(),
        ensures
            *r == self.elems()[idx as int],
    {
        &self.elements[idx]
    }

    /// Returns a mutable reference to the element at index `idx`.
    ///
    /// The index must be in bounds, as for `get_ptr`.
    pub fn get_ptr_mut(&mut self, idx: usize) -> (r: &mut E)
        requires
            idx < old(self).elems().len(),
        ensures
            *r == old(self).elems()[idx as int],
            final(self).elems() == old(self).elems().update(idx as int, *final(r)),
            final(self).spec_label() == old(self).spec_label(),
            final(self).wf() == old(self).wf(),
    {
        &mut self.elements[idx]
    }

    /// Replaces the element at index `idx` with `value` and returns the
    /// previous element.  The slot is swapped, never left uninitialized.
    pub fn replace(&mut self, idx: usize, value: E) -> (r: E)
        requires
            idx < old(self).elems().len(),
        ensures
            r == old(self).elems()[idx as int],
            final(self).elems() == old(self).elems().update(idx as int, value),
            final(self).spec_label() == old(self).spec_label(),
            final(self).wf() == old(self).wf(),
    {
        let mut value = value;
        let slot = &mut self.elements[idx];
        core::mem::swap(slot, &mut value);
        value
    }

    /// Returns an immutable reference to the label of this block.
    pub fn get_label(&self) -> (r: &L)
        ensures
            *r == self.spec_label(),
    {
        &self.label
    }

    /// Returns a mutable reference to the label of this block.
    pub fn get_label_mut(&mut self) -> (r: &mut L)
        ensures
            *r == old(self).spec_label(),
            final(self).spec_label() == *final(r),
            final(self).elems() == old(self).elems(),
            final(self).wf() == old(self).wf(),
    {
        &mut self.label
    }

    /// Returns a slice over all of the block's elements.
    pub fn as_slice(&self) -> (r: &[E])
        ensures
            r@ == self.elems(),
    {
        self.elements.as_slice()
    }

    /// Returns a mutable slice over all of the block's elements.
    pub fn as_mut_slice(&mut self) -> (r: &mut [E])
        ensures
            r@ == old(self).elems(),
            final(self).elems() == final(r)@,
            final(self).spec_label() == old(self).spec_label(),
            final(self).elems().len() == old(self).elems().len() ==> final(self).wf() == old(
                self,
            ).wf(),
    {
        self.elements.as_mut_slice()
    }

    /// Destroys the block, its label and all of its elements: the full
    /// destruction path.  Every element and the label are dropped exactly
    /// once, then the block's storage is given back.
    pub fn dealloc(self) {
    }

    /// Takes the block apart without destroying the label or the elements:
    /// the lazy destruction path.  The caller receives ownership of the label
    /// and of every element; only the block itself goes away.
    pub fn dealloc_lazy(self) -> (r: (L, Vec<E>))
        ensures
            r.0 == self.spec_label(),
            r.1@ == self.elems(),
    {
        let MemBlock { label, elements } = self;
        (label, elements)
    }
}

impl<E: Clone, L: Clone> MemBlock<E, L> {
    /// Allocates a fresh block of the same length and deep-copies the label
    /// and every element, in ascending index order.
    pub fn clone_block(&self, len: usize) -> (r: Self)
        requires
            self.wf(),
            len == self.elems().len(),
        ensures
            r.wf(),
            r.elems().len() == self.elems().len(),
            forall|i: int|
                0 <= i < self.elems().len() ==> vstd::pervasive::cloned::<E>(
                    self.elems()[i],
                    #[trigger] r.elems()[i],
                ),
            vstd::pervasive::cloned::<L>(self.spec_label(), r.spec_label()),
    {
        let label = self.label.clone();
        let mut elements: Vec<E> = Vec::new();
        let mut i: usize = 0;
        while i < len
            invariant
                i <= len,
                len == self.elems().len(),
                elements@.len() == i,
                forall|j: int|
                    0 <= j < i ==> vstd::pervasive::cloned::<E>(
                        self.elems()[j],
                        #[trigger] elements@[j],
                    ),
            decreases len - i,
        {
            let e = self.elements[i].clone();
            elements.push(e);
            i = i + 1;
        }
        MemBlock { label, elements }
    }
}

} // verus!
