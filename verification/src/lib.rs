//! Heap-array primitives: a block type that stores one label value next to a
//! fixed-length run of elements, fat and thin array handles over such blocks,
//! and a naive reference-counted array layer built on top of them.
//!
//! The layout engine ([`layout`]) proves the byte-size and alignment
//! arithmetic for a block that holds one label and `len` elements, including
//! that every accepted length keeps the block at or under the platform's
//! object-size ceiling and yields a layout an allocator accepts.  The block
//! itself ([`mem_block::MemBlock`]) owns the label and the elements and keeps
//! its length within the proven bound.  [`fat::FatPtrArray`] carries the
//! length in the handle; [`thin::ThinPtrArray`] embeds it in the block's
//! label; both present the same capability surface ([`traits`]).  The
//! reference-counted layer ([`naive_rc`]) shares one block among many handles
//! through an explicit store, counts the handles inside the block's label,
//! and destroys the block exactly once, a fact proved as a law over the
//! layer's transition predicates.
//!
//! An unverified array library of this shape trades safety checks for speed
//! through build-time toggles: skip the bounds check, skip the layout
//! validation, skip the null check.  Here every such check is resolved at
//! verification time instead, and each toggle has its zero-cost counterpart:
//! the checked accessors (`get`, `insert`) branch and return nothing out of
//! range, the unchecked ones (`index`, `get_unchecked`) carry the bound as a
//! precondition and omit the branch, the layout validation is a proven
//! property of every accepted length, and nullness of a counted handle is a
//! precondition on its accessors.

pub mod fat;
pub mod layout;
pub mod mem_block;
pub mod naive_rc;
pub mod thin;
pub mod traits;

pub use fat::FatPtrArray;
pub use fat::FatPtrArray as HeapArray;
pub use mem_block::MemBlock;
pub use naive_rc::ArcStruct;
pub use naive_rc::FpArcArray;
pub use naive_rc::FpStore;
pub use naive_rc::RcArray;
pub use naive_rc::RcStore;
pub use naive_rc::TpArcArray;
pub use naive_rc::TpStore;
pub use thin::ThinPtrArray;
pub use traits::DefaultLabelledArray;
pub use traits::LabelledArray;
pub use traits::MakeArray;
pub use traits::SliceArray;
pub use traits::SliceArrayRef;
