//! Runtime checks of the naive reference-counted layer: clone and drop
//! semantics, single destruction, and the register operations of the
//! thin-backed handle.

use heaparray::{FpArcArray, FpStore, TpArcArray, TpStore};
use std::cell::Cell;
use std::rc::Rc;

/// An element type that counts how many times it was destroyed.
struct DropCounter {
    value: i32,
    hits: Rc<Cell<usize>>,
}

fn counted(value: i32, hits: &Rc<Cell<usize>>) -> DropCounter {
    DropCounter { value, hits: hits.clone() }
}

impl Drop for DropCounter {
    fn drop(&mut self) {
        self.hits.set(self.hits.get() + 1);
    }
}

#[test]
fn counted_arrays_report_their_ceilings() {
    // The counted blocks carry the count (and, for thin, the length) in
    // their labels, so their ceilings sit below the plain fat array's.
    assert!(TpArcArray::<u64, ()>::max_len() <= FpArcArray::<u64, ()>::max_len());
    assert!(FpArcArray::<u64, ()>::max_len() < isize::MAX as usize / 8);
    assert!(TpArcArray::<u64, ()>::max_len() > 0);
}

#[test]
fn thin_backed_construction_and_access() {
    let mut store: TpStore<usize, ()> = TpStore::new();
    let handle = TpArcArray::new(&mut store, 5, |i| i * i);
    assert!(!handle.is_null());
    assert_eq!(handle.len(&store), 5);
    for i in 0..5 {
        assert_eq!(*handle.index(&store, i), i * i);
        assert_eq!(*handle.get_unchecked(&store, i), i * i);
    }
    assert!(handle.get(&store, 5).is_none());
}

#[test]
fn fat_backed_construction_and_access() {
    let mut store: FpStore<usize, u8> = FpStore::new();
    let handle = FpArcArray::with_label(&mut store, 7, 3, |i| i + 1);
    assert_eq!(handle.len(&store), 3);
    assert_eq!(*handle.get(&store, 2).unwrap(), 3);
    assert_eq!(*handle.get_label(&store), 7);
    handle.set_label(&mut store, 9);
    assert_eq!(*handle.get_label(&store), 9);
    assert_eq!(handle.insert(&mut store, 0, 42), Some(1));
    assert_eq!(*handle.index(&store, 0), 42);
    assert_eq!(handle.insert(&mut store, 3, 0), None);
}

#[test]
fn null_handles_are_inert() {
    let mut store: TpStore<i32, ()> = TpStore::new();
    let mut null = TpArcArray::<i32, ()>::null_ref();
    assert!(null.is_null());
    let clone = null.clone(&mut store);
    assert!(clone.is_null());
    null.to_null(&mut store);
    assert!(null.is_null());

    let fp_null = FpArcArray::<i32, ()>::null_ref();
    assert!(fp_null.is_null());
}

#[test]
fn three_handles_one_destruction() {
    let hits = Rc::new(Cell::new(0));
    let mut store: TpStore<DropCounter, ()> = TpStore::new();
    let source = hits.clone();
    let mut h = TpArcArray::new(&mut store, 3, move |i| DropCounter {
        value: i as i32 + 1,
        hits: source.clone(),
    });
    // Clone it twice: three live handles in all.
    let mut h2 = h.clone(&mut store);
    let mut h3 = h.clone(&mut store);
    // Drop two of them: nothing is destroyed.
    h.to_null(&mut store);
    h2.to_null(&mut store);
    assert_eq!(hits.get(), 0);
    // The survivor still reports the full contents.
    assert_eq!(h3.len(&store), 3);
    for i in 0..3 {
        assert_eq!(h3.index(&store, i).value, i as i32 + 1);
    }
    // Dropping the last handle triggers exactly one full destruction.
    h3.to_null(&mut store);
    assert_eq!(hits.get(), 3);
    // A second pass cannot happen: the handle is already null and inert.
    h3.to_null(&mut store);
    assert_eq!(hits.get(), 3);
}

#[test]
fn clone_then_drop_keeps_the_clone_whole() {
    let hits = Rc::new(Cell::new(0));
    let mut store: FpStore<DropCounter, ()> = FpStore::new();
    let source = hits.clone();
    let mut h = FpArcArray::new(&mut store, 4, move |i| DropCounter {
        value: 10 * (i as i32),
        hits: source.clone(),
    });
    let mut h2 = h.clone(&mut store);
    h.to_null(&mut store);
    assert_eq!(hits.get(), 0);
    assert_eq!(h2.len(&store), 4);
    assert_eq!(h2.index(&store, 3).value, 30);
    h2.to_null(&mut store);
    assert_eq!(hits.get(), 4);
}

#[test]
fn compare_exchange_success_swaps_and_yields_the_occupant() {
    let mut store: TpStore<u64, ()> = TpStore::new();
    let a = TpArcArray::new(&mut store, 3, |i| i as u64 + 1);
    let b = TpArcArray::new(&mut store, 2, |i| i as u64 + 50);
    // The slot starts out holding a fresh reference to `a`'s block.
    let mut slot = a.clone(&mut store);
    let r = slot.compare_exchange(&mut store, &a, b);
    let mut prev = r.ok().expect("identities match, so the exchange succeeds");
    // The slot now holds `b`'s block; the old occupant came back out.
    assert_eq!(slot.len(&store), 2);
    assert_eq!(*slot.index(&store, 0), 50);
    assert_eq!(prev.len(&store), 3);
    assert_eq!(*prev.index(&store, 2), 3);
    prev.to_null(&mut store);
    // `a` itself is still usable: the exchange moved only the slot's own
    // reference.
    assert_eq!(a.len(&store), 3);
}

#[test]
fn compare_exchange_failure_leaves_the_slot_unchanged() {
    let hits = Rc::new(Cell::new(0));
    let mut store: TpStore<DropCounter, ()> = TpStore::new();
    let source_a = hits.clone();
    let a = TpArcArray::new(&mut store, 1, move |_i| DropCounter {
        value: 1,
        hits: source_a.clone(),
    });
    let source_b = hits.clone();
    let b = TpArcArray::new(&mut store, 1, move |_i| DropCounter {
        value: 2,
        hits: source_b.clone(),
    });
    let source_c = hits.clone();
    let c = TpArcArray::new(&mut store, 1, move |_i| DropCounter {
        value: 3,
        hits: source_c.clone(),
    });
    let mut slot = a.clone(&mut store);
    // `b` is not the occupant, so offering `c` fails.
    let r = slot.compare_exchange(&mut store, &b, c);
    let (mut actual, mut given_back) = r.err().expect("identities differ, so the exchange fails");
    // The slot is unchanged and the actual occupant was yielded.
    assert_eq!(slot.index(&store, 0).value, 1);
    assert_eq!(actual.index(&store, 0).value, 1);
    // `c` came back unconsumed; nothing was destroyed by the failed call.
    assert_eq!(given_back.index(&store, 0).value, 3);
    assert_eq!(hits.get(), 0);
    actual.to_null(&mut store);
    assert_eq!(hits.get(), 0);
    // `given_back` carries the offered block's only reference, so releasing
    // it destroys that one block and nothing else.
    given_back.to_null(&mut store);
    assert_eq!(hits.get(), 1);
    assert_eq!(slot.index(&store, 0).value, 1);
    assert_eq!(b.index(&store, 0).value, 2);
}

#[test]
fn compare_and_swap_releases_the_offer_on_failure() {
    let hits = Rc::new(Cell::new(0));
    let mut store: TpStore<DropCounter, ()> = TpStore::new();
    let source_a = hits.clone();
    let a = TpArcArray::new(&mut store, 1, move |_i| DropCounter {
        value: 1,
        hits: source_a.clone(),
    });
    let source_b = hits.clone();
    let b = TpArcArray::new(&mut store, 1, move |_i| DropCounter {
        value: 2,
        hits: source_b.clone(),
    });
    let source_c = hits.clone();
    let mut c = TpArcArray::new(&mut store, 1, move |_i| DropCounter {
        value: 3,
        hits: source_c.clone(),
    });
    let offer = c.clone(&mut store);
    let mut slot = a.clone(&mut store);
    // Mismatch: the offer's reference is released, but `c` itself still
    // holds one, so nothing is destroyed yet.
    let mut reported = slot.compare_and_swap(&mut store, &b, offer);
    assert_eq!(reported.index(&store, 0).value, 1);
    assert_eq!(slot.index(&store, 0).value, 1);
    assert_eq!(hits.get(), 0);
    reported.to_null(&mut store);
    c.to_null(&mut store);
    // `c`'s block is gone now that both of its references were given up.
    assert_eq!(hits.get(), 1);
}

#[test]
fn register_load_store_and_swap() {
    let mut store: TpStore<u64, ()> = TpStore::new();
    let a = TpArcArray::new(&mut store, 2, |i| i as u64);
    let b = TpArcArray::new(&mut store, 4, |i| i as u64);
    let mut slot = a.clone(&mut store);
    // Load hands out a fresh reference to the occupant.
    let mut loaded = slot.load(&mut store);
    assert_eq!(loaded.len(&store), 2);
    loaded.to_null(&mut store);
    // Swap exchanges ownership without touching any count.
    let offered = b.clone(&mut store);
    let mut prev = slot.swap(offered);
    assert_eq!(slot.len(&store), 4);
    assert_eq!(prev.len(&store), 2);
    prev.to_null(&mut store);
    // Store replaces the occupant and releases its reference.
    let replacement = a.clone(&mut store);
    slot.store(&mut store, replacement);
    assert_eq!(slot.len(&store), 2);
    // Swapping a null handle in empties the slot and hands the occupant out.
    let mut occupant = slot.swap(TpArcArray::null_ref());
    assert!(slot.is_null());
    assert_eq!(occupant.len(&store), 2);
    occupant.to_null(&mut store);
}

#[test]
fn with_len_and_new_default_fill_with_defaults() {
    let mut store: TpStore<u64, u8> = TpStore::new();
    let handle = TpArcArray::with_len(&mut store, 4, 3);
    assert_eq!(handle.len(&store), 3);
    for i in 0..3 {
        assert_eq!(*handle.index(&store, i), 0);
    }
    assert_eq!(*handle.get_label(&store), 4);

    let mut plain: TpStore<u64, ()> = TpStore::new();
    let defaulted = TpArcArray::new_default(&mut plain, 2);
    assert_eq!(defaulted.len(&plain), 2);
    assert_eq!(*defaulted.index(&plain, 0), 0);

    let mut fp_store: FpStore<u64, u8> = FpStore::new();
    let fp = FpArcArray::with_len(&mut fp_store, 6, 2);
    assert_eq!(fp.len(&fp_store), 2);
    assert_eq!(*fp.get_label(&fp_store), 6);
}

#[test]
fn shared_mutation_is_visible_through_every_handle() {
    let mut store: TpStore<u64, ()> = TpStore::new();
    let h = TpArcArray::new(&mut store, 3, |i| i as u64);
    let h2 = h.clone(&mut store);
    h.set(&mut store, 1, 77);
    assert_eq!(*h2.index(&store, 1), 77);
    assert_eq!(h2.insert(&mut store, 1, 88), Some(77));
    assert_eq!(*h.index(&store, 1), 88);
}
