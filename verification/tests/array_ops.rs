//! Runtime checks of the layout engine, the block, and the fat and thin
//! array handles.

use heaparray::layout::{aligned_size, elem_offset, max_len, memory_layout, size_align};
use heaparray::{
    DefaultLabelledArray, FatPtrArray, HeapArray, LabelledArray, MakeArray, MemBlock, SliceArray,
    SliceArrayRef, ThinPtrArray,
};
use std::cell::Cell;
use std::rc::Rc;

/// An element type that counts how many times it was destroyed.
struct DropCounter {
    hits: Rc<Cell<usize>>,
}

impl Drop for DropCounter {
    fn drop(&mut self) {
        self.hits.set(self.hits.get() + 1);
    }
}

#[test]
fn size_align_of_repeated_type() {
    assert_eq!(size_align::<u32>(10), (40, 4));
    assert_eq!(size_align::<u8>(7), (7, 1));
    assert_eq!(size_align::<u64>(0), (0, 8));
}

#[test]
fn aligned_size_rounds_up() {
    assert_eq!(aligned_size::<u16>(8), 8);
    assert_eq!(aligned_size::<u64>(4), 8);
    assert_eq!(aligned_size::<u8>(1), 1);
    assert_eq!(aligned_size::<[u8; 3]>(4), 4);
}

#[test]
fn max_len_matches_ceiling() {
    let ceiling = isize::MAX as usize;
    assert_eq!(max_len::<u64, ()>(), ceiling / 8);
    assert_eq!(max_len::<u8, ()>(), ceiling);
    // Zero-sized elements never grow the allocation.
    assert_eq!(max_len::<(), u64>(), ceiling);
    // The label's padded size is subtracted before dividing.
    assert_eq!(max_len::<u64, u64>(), (ceiling - 8) / 8);
    assert_eq!(MemBlock::<u64, u64>::max_len(), (ceiling - 8) / 8);
}

#[test]
fn memory_layout_of_blocks() {
    // No elements: the label alone, no trailing padding.
    assert_eq!(memory_layout::<u64, u32>(0), (4, 4));
    // Label padded to the element alignment, then the elements.
    assert_eq!(memory_layout::<u64, u32>(2), (8 + 16, 8));
    assert_eq!(memory_layout::<u8, u64>(3), (11, 8));
    assert_eq!(MemBlock::<u8, u64>::memory_layout(3), (11, 8));
}

#[test]
fn elem_offset_steps_by_stride() {
    // Label of 2 bytes padded to the 8-byte element alignment.
    assert_eq!(elem_offset::<u64, u16>(0), 8);
    assert_eq!(elem_offset::<u64, u16>(2), 24);
    assert_eq!(elem_offset::<u8, ()>(5), 5);
    // The last element ends exactly at the block's computed size.
    assert_eq!(elem_offset::<u64, u16>(2) + 8, memory_layout::<u64, u16>(3).0);
}

#[test]
fn block_construction_and_access() {
    let mut block = MemBlock::<usize, u32>::new_init(7, 4, |i| i * 3);
    assert_eq!(block.len(), 4);
    assert_eq!(*block.get_ptr(0), 0);
    assert_eq!(*block.get_ptr(3), 9);
    assert_eq!(*block.get_label(), 7);
    *block.get_label_mut() = 8;
    assert_eq!(*block.get_label(), 8);
    *block.get_ptr_mut(1) = 100;
    assert_eq!(*block.get_ptr(1), 100);
    let prev = block.replace(2, 55);
    assert_eq!(prev, 6);
    assert_eq!(*block.get_ptr(2), 55);
    let (label, elems) = block.dealloc_lazy();
    assert_eq!(label, 8);
    assert_eq!(elems, vec![0, 100, 55, 9]);
}

#[test]
fn block_full_destruction_runs_every_destructor_once() {
    let elem_hits = Rc::new(Cell::new(0));
    let label_hits = Rc::new(Cell::new(0));
    let label = DropCounter { hits: label_hits.clone() };
    let elem_source = elem_hits.clone();
    let block = MemBlock::<DropCounter, DropCounter>::new_init(label, 5, move |_i| DropCounter {
        hits: elem_source.clone(),
    });
    assert_eq!(elem_hits.get(), 0);
    assert_eq!(label_hits.get(), 0);
    block.dealloc();
    // Exactly five element destructions and exactly one label destruction.
    assert_eq!(elem_hits.get(), 5);
    assert_eq!(label_hits.get(), 1);
}

#[test]
fn fresh_array_matches_generator() {
    let array = HeapArray::<usize, ()>::new(10, |i| i + 3);
    assert_eq!(array.len(), 10);
    for i in 0..10 {
        assert_eq!(*array.get(i).unwrap(), i + 3);
        assert_eq!(*array.index(i), i + 3);
        assert_eq!(*array.get_unchecked(i), i + 3);
    }
    assert!(array.get(10).is_none());
}

#[test]
fn squares_then_insert() {
    let mut array = FatPtrArray::<usize, ()>::new(5, |i| i * i);
    assert_eq!(array.len(), 5);
    assert_eq!(array.as_slice(), &[0, 1, 4, 9, 16]);
    let prev = array.insert(2, 100);
    assert_eq!(prev, Some(4));
    assert_eq!(array.as_slice(), &[0, 1, 100, 9, 16]);
    assert_eq!(array.len(), 5);
}

#[test]
fn insert_out_of_range_changes_nothing() {
    let mut array = FatPtrArray::<u32, ()>::new(3, |i| i as u32);
    assert_eq!(array.insert(3, 9), None);
    assert_eq!(array.insert(100, 9), None);
    assert_eq!(array.as_slice(), &[0, 1, 2]);

    let mut thin = ThinPtrArray::<u32, ()>::new(3, |i| i as u32);
    assert_eq!(thin.insert(3, 9), None);
    assert_eq!(thin.as_slice(), &[0, 1, 2]);
}

#[test]
fn zero_length_arrays() {
    let array = FatPtrArray::<u64, ()>::new(0, |i| i as u64);
    assert_eq!(array.len(), 0);
    assert!(array.get(0).is_none());
    let thin = ThinPtrArray::<u64, ()>::new(0, |i| i as u64);
    assert_eq!(thin.len(), 0);
    assert!(thin.get(0).is_none());
}

#[test]
fn labels_travel_with_the_block() {
    let mut array = FatPtrArray::<usize, (usize, usize)>::with_label((0, 0), 100, |i| i);
    // Tally evens and odds into the label after construction.
    for i in 0..array.len() {
        let value = *array.index(i);
        let label = array.get_label_mut();
        if value % 2 == 0 {
            label.0 += 1;
        } else {
            label.1 += 1;
        }
    }
    assert_eq!(*array.get_label(), (50, 50));

    let mut thin = ThinPtrArray::<usize, &str>::with_label("hello", 4, |i| i);
    assert_eq!(*thin.get_label(), "hello");
    *thin.get_label_mut() = "world";
    assert_eq!(*thin.get_label(), "world");
    assert_eq!(thin.len(), 4);
}

#[test]
fn thin_array_mirrors_fat_array() {
    let mut thin = ThinPtrArray::<usize, ()>::new(5, |i| i * i);
    assert_eq!(thin.len(), 5);
    assert_eq!(*thin.index(4), 16);
    let prev = thin.insert(2, 100);
    assert_eq!(prev, Some(4));
    assert_eq!(thin.as_slice(), &[0, 1, 100, 9, 16]);
    thin.set(0, 42);
    assert_eq!(*thin.index(0), 42);
    // The thin representation stores the length inside the block's label, so
    // its element budget is smaller than the fat representation's.
    assert!(ThinPtrArray::<usize, ()>::max_len() < max_len::<usize, ()>());
}

#[test]
fn with_len_fills_with_defaults() {
    let array = FatPtrArray::<u64, u8>::with_len(9, 6);
    assert_eq!(array.len(), 6);
    assert_eq!(array.as_slice(), &[0, 0, 0, 0, 0, 0]);
    assert_eq!(*array.get_label(), 9);

    let thin = ThinPtrArray::<u64, u8>::new_default(7, 3);
    assert_eq!(thin.len(), 3);
    assert_eq!(thin.as_slice(), &[0, 0, 0]);
    assert_eq!(*thin.get_label(), 7);
}

#[test]
fn deep_clone_is_independent() {
    let mut source = FatPtrArray::<u32, u32>::with_label(5, 4, |i| i as u32);
    let copy = source.clone();
    source.insert(0, 99);
    *source.get_label_mut() = 6;
    assert_eq!(copy.as_slice(), &[0, 1, 2, 3]);
    assert_eq!(*copy.get_label(), 5);
    assert_eq!(source.as_slice(), &[99, 1, 2, 3]);

    let mut thin_source = ThinPtrArray::<u32, u32>::with_label(5, 4, |i| i as u32);
    let thin_copy = thin_source.clone();
    thin_source.insert(1, 77);
    assert_eq!(thin_copy.as_slice(), &[0, 1, 2, 3]);
    assert_eq!(*thin_copy.get_label(), 5);
}

#[test]
fn clone_from_overwrites_in_place() {
    let source = FatPtrArray::<u32, u32>::with_label(1, 3, |i| (i * 10) as u32);
    let mut target = FatPtrArray::<u32, u32>::with_label(2, 3, |_i| 0);
    target.clone_from(&source);
    assert_eq!(target.as_slice(), &[0, 10, 20]);
    assert_eq!(*target.get_label(), 1);

    // Different lengths fall back to a fresh deep copy.
    let mut short = FatPtrArray::<u32, u32>::with_label(3, 1, |_i| 7);
    short.clone_from(&source);
    assert_eq!(short.as_slice(), &[0, 10, 20]);
    assert_eq!(*short.get_label(), 1);

    let thin_source = ThinPtrArray::<u32, u32>::with_label(4, 2, |i| i as u32 + 8);
    let mut thin_target = ThinPtrArray::<u32, u32>::with_label(5, 2, |_i| 0);
    thin_target.clone_from(&thin_source);
    assert_eq!(thin_target.as_slice(), &[8, 9]);
    assert_eq!(*thin_target.get_label(), 4);
}

#[test]
fn slice_views_expose_the_elements() {
    let mut array = FatPtrArray::<usize, ()>::new(4, |i| i);
    assert_eq!(array.as_slice_ref(), &[0, 1, 2, 3]);
    {
        let view = array.as_slice_mut();
        view[0] = 40;
    }
    assert_eq!(array.as_slice(), &[40, 1, 2, 3]);

    let mut thin = ThinPtrArray::<usize, ()>::new(2, |i| i + 1);
    assert_eq!(thin.as_slice_ref(), &[1, 2]);
    let view = thin.as_slice_mut();
    view[1] = 9;
    assert_eq!(thin.as_slice(), &[1, 9]);
}

#[test]
fn taking_ownership_back_from_the_container() {
    let mut array = FatPtrArray::<Vec<u8>, ()>::new(10, |_i| Vec::new());
    let replacement = Vec::new();
    let owned = array.insert(0, replacement);
    assert_eq!(owned, Some(Vec::new()));
    let (label, elems) = array.into_parts();
    assert_eq!(label, ());
    assert_eq!(elems.len(), 10);

    let thin = ThinPtrArray::<u8, u16>::with_label(3, 2, |i| i as u8);
    let (label, elems) = thin.into_parts();
    assert_eq!(label, 3);
    assert_eq!(elems, vec![0, 1]);
}

#[test]
fn mutable_access_through_get_mut() {
    let mut array = FatPtrArray::<u32, ()>::new(3, |i| i as u32);
    if let Some(slot) = array.get_mut(1) {
        *slot = 50;
    }
    assert!(array.get_mut(3).is_none());
    assert_eq!(array.as_slice(), &[0, 50, 2]);
    *array.index_mut(2) = 60;
    assert_eq!(array.as_slice(), &[0, 50, 60]);

    let mut thin = ThinPtrArray::<u32, ()>::new(3, |i| i as u32);
    if let Some(slot) = thin.get_mut(0) {
        *slot = 5;
    }
    *thin.index_mut(1) = 6;
    assert_eq!(thin.as_slice(), &[5, 6, 2]);
}
