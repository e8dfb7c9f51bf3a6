//! The capability surface every array representation presents: construction
//! from a generator, length, checked and unchecked element access,
//! replace-and-return insertion, label access, and slice views.
//!
//! The representations in this crate implement these traits identically in
//! observable behavior; the layers above consume the traits and stay generic
//! over the representation choice.

use vstd::prelude::*;

verus! {

/// Holds of a value that `E::default()` could have produced.
pub open spec fn defaulted<E: Default>(v: E) -> bool {
    call_ensures(<E as core::default::Default>::default, (), v)
}

/// Array with an optional label value stored next to the data.
pub trait LabelledArray<E, L>: Sized {
    /// The elements the array holds, in index order.
    spec fn elems(&self) -> Seq<E>;

    /// The label stored next to the elements.
    spec fn spec_label(&self) -> L;

    /// Well-formedness of the representation.
    spec fn wf(&self) -> bool;

    /// The largest element count the representation accepts.
    spec fn spec_max_len() -> nat;

    /// Create a new array, with elements initialized in ascending index
    /// order using a provided function, and the label initialized to a
    /// provided value.
    fn with_label<F: Fn(usize) -> E>(label: L, len: usize, func: F) -> (r: Self)
        requires
            len as nat <= Self::spec_max_len(),
            forall|i: usize| i < len ==> call_requires(func, (i,)),
        ensures
            r.wf(),
            r.elems().len() == len,
            r.spec_label() == label,
            forall|i: int|
                0 <= i < len ==> call_ensures(func, (i as usize,), #[trigger] r.elems()[i]),
    ;

    /// The number of elements in the array.
    fn len(&self) -> (r: usize)
        requires
            self.wf(),
        ensures
            r == self.elems().len(),
    ;

    /// Get a reference to the element at `key`, or nothing when `key` is out
    /// of range.
    fn get(&self, key: usize) -> (r: Option<&E>)
        requires
            self.wf(),
        ensures
            match r {
                Some(e) => key < self.elems().len() && *e == self.elems()[key as int],
                None => key >= self.elems().len(),
            },
    ;

    /// Get a mutable reference to the element at `key`, or nothing when
    /// `key` is out of range.
    fn get_mut(&mut self, key: usize) -> (r: Option<&mut E>)
        requires
            old(self).wf(),
        ensures
            match r {
                Some(e) => {
                    &&& key < old(self).elems().len()
                    &&& *e == old(self).elems()[key as int]
                    &&& final(self).elems() == old(self).elems().update(key as int, *final(e))
                    &&& final(self).spec_label() == old(self).spec_label()
                    &&& final(self).wf()
                },
                None => key >= old(self).elems().len() && *final(self) == *old(self),
            },
    ;

    /// Replace the element at `key` with `value` and hand the previous
    /// element back; out of range, return nothing and change nothing.
    fn insert(&mut self, key: usize, value: E) -> (r: Option<E>)
        requires
            old(self).wf(),
        ensures
            match r {
                Some(prev) => {
                    &&& key < old(self).elems().len()
                    &&& prev == old(self).elems()[key as int]
                    &&& final(self).elems() == old(self).elems().update(key as int, value)
                    &&& final(self).spec_label() == old(self).spec_label()
                    &&& final(self).wf()
                },
                None => key >= old(self).elems().len() && *final(self) == *old(self),
            },
    ;

    /// Get immutable access to the label.
    fn get_label(&self) -> (r: &L)
        requires
            self.wf(),
        ensures
            *r == self.spec_label(),
    ;

    /// Get mutable access to the label.
    fn get_label_mut(&mut self) -> (r: &mut L)
        requires
            old(self).wf(),
        ensures
            *r == old(self).spec_label(),
            final(self).spec_label() == *final(r),
            final(self).elems() == old(self).elems(),
            final(self).wf(),
    ;

    /// Get a reference to the element at `key` without a runtime bounds
    /// check; the caller must have established that `key` is in range.
    fn get_unchecked(&self, key: usize) -> (r: &E)
        requires
            self.wf(),
            key < self.elems().len(),
        ensures
            *r == self.elems()[key as int],
    ;
}

/// An array of arbitrary (sized) values that can be safely initialized,
/// carrying no label of its own.
pub trait MakeArray<E>: LabelledArray<E, ()> {
    /// Create a new array, with elements initialized in ascending index
    /// order using a provided function.
    fn new<F: Fn(usize) -> E>(len: usize, func: F) -> (r: Self)
        requires
            len as nat <= Self::spec_max_len(),
            forall|i: usize| i < len ==> call_requires(func, (i,)),
        ensures
            r.wf(),
            r.elems().len() == len,
            forall|i: int|
                0 <= i < len ==> call_ensures(func, (i as usize,), #[trigger] r.elems()[i]),
    ;
}

/// Trait for a labelled array whose elements have a default value.
pub trait DefaultLabelledArray<E: Default, L>: LabelledArray<E, L> {
    /// Create a new array, with every element initialized to a default
    /// value.
    fn with_len(label: L, len: usize) -> (r: Self)
        requires
            len as nat <= Self::spec_max_len(),
        ensures
            r.wf(),
            r.elems().len() == len,
            r.spec_label() == label,
            forall|i: int| 0 <= i < len ==> defaulted::<E>(#[trigger] r.elems()[i]),
    ;
}

/// Array that returns slices into its contents.
pub trait SliceArray<E>: Sized {
    /// The elements the slices range over, in index order.
    spec fn slice_view(&self) -> Seq<E>;

    /// Well-formedness of the representation.
    spec fn slice_wf(&self) -> bool;

    /// Returns a reference to a slice into this array.
    fn as_slice(&self) -> (r: &[E])
        requires
            self.slice_wf(),
        ensures
            r@ == self.slice_view(),
    ;

    /// Returns a mutable reference to a slice into this array.  A slice
    /// cannot change its length, so whatever run of elements the caller
    /// leaves behind is the array's new contents.
    fn as_slice_mut(&mut self) -> (r: &mut [E])
        requires
            old(self).slice_wf(),
        ensures
            r@ == old(self).slice_view(),
            final(self).slice_view() == final(r)@,
            final(r)@.len() == old(self).slice_view().len() ==> final(self).slice_wf(),
    ;
}

/// Array reference that can return a slice into its contents; the mutable
/// view is withheld when the reference does not own its block alone.
pub trait SliceArrayRef<E>: Sized {
    /// The elements the slices range over, in index order.
    spec fn slice_ref_view(&self) -> Seq<E>;

    /// Well-formedness of the representation.
    spec fn slice_ref_wf(&self) -> bool;

    /// Returns a reference to a slice into this array.
    fn as_slice_ref(&self) -> (r: &[E])
        requires
            self.slice_ref_wf(),
        ensures
            r@ == self.slice_ref_view(),
    ;
}

} // verus!
