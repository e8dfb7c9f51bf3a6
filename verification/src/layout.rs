//! The layout engine: byte-size and alignment arithmetic for a block that
//! stores one label value of type `L` followed by a run of elements of type
//! `E`, together with the proofs that the computed layouts stay within the
//! platform's object-size ceiling and describe a valid allocation request.

use vstd::arithmetic::div_mod::{
    lemma_fundamental_div_mod, lemma_mod_multiples_basic, lemma_mod_multiples_vanish,
    lemma_small_mod,
};
use vstd::arithmetic::mul::lemma_mul_inequality;
use vstd::arithmetic::power::pow;
use vstd::arithmetic::power2::{
    is_pow2, is_pow2_equiv, lemma_pow2_adds, lemma_pow2_pos, lemma_pow2_strictly_increases, pow2,
};
use vstd::layout::{
    align_of, layout_for_type_is_valid, signed_int_min_max_values, size_of,
    unsigned_int_max_values, valid_layout,
};
use vstd::prelude::*;

verus! {

/// Size, in bytes, of `repeat` values of type `T` laid out one after another.
pub open spec fn spec_repeat_size<T>(repeat: nat) -> nat {
    size_of::<T>() * repeat
}

/// `size` rounded up to the next multiple of `align`.
pub open spec fn spec_aligned_size(size: nat, align: nat) -> nat
    recommends
        align > 0,
{
    if size % align == 0 {
        size
    } else {
        size + (align - size % align) as nat
    }
}

/// The largest element count for which a block that holds one `L` and that
/// many `E` values stays at or under the platform object-size ceiling
/// (`isize::MAX` bytes).  A zero-sized element type never grows the
/// allocation, so the count is then the ceiling itself.
pub open spec fn spec_max_len<E, L>() -> nat {
    let m = isize::MAX as nat;
    let esize = size_of::<E>();
    let lsize = spec_aligned_size(size_of::<L>(), align_of::<E>());
    if esize == 0 {
        m
    } else if lsize > m {
        0
    } else {
        ((m - lsize) as nat) / esize
    }
}

/// Byte size of a block holding one `L` and `len` values of `E`: the label,
/// padded out to the element alignment, followed by the elements.  A block
/// without elements needs no trailing padding.
pub open spec fn spec_block_size<E, L>(len: nat) -> nat {
    if len == 0 {
        size_of::<L>()
    } else {
        spec_aligned_size(size_of::<L>(), align_of::<E>()) + size_of::<E>() * len
    }
}

/// Alignment of a block holding one `L` and `len` values of `E`: the stricter
/// of the two alignments, or the label's own when there are no elements.
pub open spec fn spec_block_align<E, L>(len: nat) -> nat {
    if len == 0 {
        align_of::<L>()
    } else if align_of::<L>() >= align_of::<E>() {
        align_of::<L>()
    } else {
        align_of::<E>()
    }
}

/// Byte offset of element `idx` from the start of a block: the padded label
/// region plus `idx` element strides.
pub open spec fn spec_elem_offset<E, L>(idx: nat) -> nat {
    spec_aligned_size(size_of::<L>(), align_of::<E>()) + size_of::<E>() * idx
}

/// Get the size and alignment, in bytes, of a type repeated `repeat` many
/// times.
pub fn size_align<T>(repeat: usize) -> (r: (usize, usize))
    requires
        spec_repeat_size::<T>(repeat as nat) <= usize::MAX,
    ensures
        r.0 == spec_repeat_size::<T>(repeat as nat),
        r.1 == align_of::<T>(),
{
    let size = core::mem::size_of::<T>();
    let align = core::mem::align_of::<T>();
    (size * repeat, align)
}

/// Gets the aligned size of a type given a specific alignment.
pub fn aligned_size<T>(align: usize) -> (r: usize)
    requires
        0 < align,
        size_of::<T>() + align <= usize::MAX + 1,
    ensures
        r == spec_aligned_size(size_of::<T>(), align as nat),
{
    let size = core::mem::size_of::<T>();
    let off_by = size % align;
    if off_by == 0 {
        size
    } else {
        size + (align - off_by)
    }
}

/// A power of two that fits in a `usize` is at most `isize::MAX + 1` and
/// divides `isize::MAX + 1`.
pub proof fn lemma_pow2_within_word(a: nat)
    requires
        is_pow2(a as int),
        a <= usize::MAX,
    ensures
        a <= isize::MAX as nat + 1,
        (isize::MAX as int + 1) % (a as int) == 0,
{
    broadcast use vstd::layout::layout_of_primitives;

    unsigned_int_max_values();
    signed_int_min_max_values();
    is_pow2_equiv(a as int);
    let i = choose|i: nat| pow(2, i) == a as int;
    assert(pow2(i) == a) by {
        reveal(vstd::arithmetic::power2::pow2);
    }
    let bits = usize::BITS as nat;
    assert(bits == isize::BITS as nat);
    assert(usize::MAX as nat == pow2(bits) - 1);
    assert(isize::MAX as nat == pow2((bits - 1) as nat) - 1);
    if i >= bits {
        lemma_pow2_pos(i);
        if i > bits {
            lemma_pow2_strictly_increases(bits, i);
        }
        assert(a >= pow2(bits));
        assert(false);
    }
    if i < bits - 1 {
        lemma_pow2_strictly_increases(i, (bits - 1) as nat);
    }
    assert(a <= pow2((bits - 1) as nat));
    lemma_pow2_adds(((bits - 1) - i) as nat, i);
    lemma_pow2_pos(i);
    lemma_mod_multiples_basic(pow2(((bits - 1) - i) as nat) as int, a as int);
}

/// The valid layout of a real type bounds its size by the object-size ceiling
/// and makes its alignment a positive power of two no larger than
/// `isize::MAX + 1`.
pub proof fn lemma_type_bounds(size: nat, align: nat)
    requires
        size <= usize::MAX,
        align <= usize::MAX,
        valid_layout(size as usize, align as usize),
    ensures
        0 < align <= isize::MAX as nat + 1,
        (isize::MAX as int + 1) % (align as int) == 0,
        size <= isize::MAX as nat,
{
    assert(is_pow2(align as int));
    assert(align > 0) by {
        reveal(vstd::arithmetic::power2::is_pow2);
    }
    lemma_pow2_within_word(align);
    let m1 = isize::MAX as int + 1;
    assert(m1 % (align as int) == 0);
    assert(isize::MAX as int % align as int == align - 1) by {
        lemma_fundamental_div_mod(m1 as int, align as int);
        lemma_fundamental_div_mod(isize::MAX as int, align as int);
        assert((m1 as int - 1) == (align as int) * (m1 as int / align as int) - 1);
        lemma_mod_sub_one(m1 as int, align as int);
    }
    assert(size <= isize::MAX as int - (align - 1));
}

/// If `m % a == 0` and `a > 1`, then `(m - 1) % a == a - 1`; for `a == 1`
/// every remainder is zero.
proof fn lemma_mod_sub_one(m: int, a: int)
    requires
        1 <= a,
        0 < m,
        m % a == 0,
    ensures
        (m - 1) % a == a - 1,
{
    lemma_fundamental_div_mod(m, a);
    let q = m / a;
    assert(m == a * q);
    assert(m - 1 == a * q - 1);
    assert(a * q - 1 == a * (q - 1) + (a - 1)) by (nonlinear_arith);
    assert((a * (q - 1) + (a - 1)) % a == a - 1) by {
        lemma_mod_multiples_vanish(q - 1, a - 1, a);
        lemma_small_mod((a - 1) as nat, a as nat);
    }
}

/// The unsigned word range is twice the signed one: `usize::MAX` is
/// `2 * isize::MAX + 1`.
pub proof fn lemma_word_sizes()
    ensures
        usize::MAX as nat == 2 * (isize::MAX as nat) + 1,
{
    broadcast use vstd::layout::layout_of_primitives;

    unsigned_int_max_values();
    signed_int_min_max_values();
    let bits = usize::BITS as nat;
    assert(bits == isize::BITS as nat);
    assert(bits >= 1);
    lemma_pow2_adds(1, (bits - 1) as nat);
    assert(pow2(1) == 2) by {
        vstd::arithmetic::power2::lemma2_to64();
    }
}

/// Get the maximum number of elements a block can hold next to one label,
/// based on the two types that it contains.
pub fn max_len<E, L>() -> (r: usize)
    ensures
        r == spec_max_len::<E, L>(),
{
    layout_for_type_is_valid::<E>();
    layout_for_type_is_valid::<L>();
    proof {
        lemma_word_sizes();
        lemma_type_bounds(size_of::<E>(), align_of::<E>());
        lemma_type_bounds(size_of::<L>(), align_of::<L>());
    }
    let m: usize = isize::MAX as usize;
    let esize = core::mem::size_of::<E>();
    let ealign = core::mem::align_of::<E>();
    let lsize = aligned_size::<L>(ealign);
    if esize == 0 {
        m
    } else if lsize > m {
        0
    } else {
        (m - lsize) / esize
    }
}

/// Get size and alignment of the memory that a block of `len` elements next
/// to one label would need.  Returns a tuple in the form `(size, align)`.
pub fn memory_layout<E, L>(len: usize) -> (r: (usize, usize))
    requires
        len <= spec_max_len::<E, L>(),
    ensures
        r.0 == spec_block_size::<E, L>(len as nat),
        r.1 == spec_block_align::<E, L>(len as nat),
{
    layout_for_type_is_valid::<E>();
    layout_for_type_is_valid::<L>();
    proof {
        lemma_word_sizes();
        lemma_type_bounds(size_of::<E>(), align_of::<E>());
        lemma_type_bounds(size_of::<L>(), align_of::<L>());
    }
    let l_size = core::mem::size_of::<L>();
    let l_align = core::mem::align_of::<L>();
    if len == 0 {
        (l_size, l_align)
    } else {
        let esize = core::mem::size_of::<E>();
        let ealign = core::mem::align_of::<E>();
        let lsize = aligned_size::<L>(ealign);
        proof {
            lemma_block_size_in_range::<E, L>(len as nat);
        }
        let size = lsize + esize * len;
        let align = if l_align >= ealign {
            l_align
        } else {
            ealign
        };
        (size, align)
    }
}

/// A block of `len <= spec_max_len` elements, `len > 0`, stays at or under
/// `isize::MAX` bytes when the elements are sized, and within the word range
/// in any case.
pub proof fn lemma_block_size_in_range<E, L>(len: nat)
    requires
        0 < len <= spec_max_len::<E, L>(),
        valid_layout(size_of::<E>() as usize, align_of::<E>() as usize),
        valid_layout(size_of::<L>() as usize, align_of::<L>() as usize),
        size_of::<E>() <= usize::MAX,
        align_of::<E>() <= usize::MAX,
        size_of::<L>() <= usize::MAX,
        align_of::<L>() <= usize::MAX,
    ensures
        size_of::<E>() == 0 ==> spec_block_size::<E, L>(len) <= usize::MAX,
        size_of::<E>() > 0 ==> spec_block_size::<E, L>(len) <= isize::MAX as nat,
{
    lemma_word_sizes();
    lemma_type_bounds(size_of::<E>(), align_of::<E>());
    lemma_type_bounds(size_of::<L>(), align_of::<L>());
    let m = isize::MAX as nat;
    let esize = size_of::<E>();
    let lsize = spec_aligned_size(size_of::<L>(), align_of::<E>());
    assert(lsize <= size_of::<L>() + align_of::<E>());
    if esize == 0 {
        assert(spec_block_size::<E, L>(len) == lsize + esize * len) by {
            vstd::arithmetic::mul::lemma_mul_basics(len as int);
        }
    } else {
        assert(lsize <= m);
        let q = ((m - lsize) as nat) / esize;
        assert(len <= q);
        assert(esize * q <= (m - lsize) as nat) by {
            lemma_fundamental_div_mod((m - lsize) as int, esize as int);
        }
        assert(esize * len <= esize * q) by {
            lemma_mul_inequality(len as int, q as int, esize as int);
            vstd::arithmetic::mul::lemma_mul_is_commutative(len as int, esize as int);
            vstd::arithmetic::mul::lemma_mul_is_commutative(q as int, esize as int);
        }
        assert(lsize + esize * len <= m);
    }
}

/// Whenever the requested length is within `spec_max_len` and the block's
/// size keeps clear of the next alignment boundary past `isize::MAX`, the
/// computed block layout is valid for the platform: the runtime layout check
/// of an allocator cannot fail on it.
pub proof fn lemma_block_layout_valid<E, L>(len: nat)
    requires
        len <= spec_max_len::<E, L>(),
        valid_layout(size_of::<E>() as usize, align_of::<E>() as usize),
        valid_layout(size_of::<L>() as usize, align_of::<L>() as usize),
        size_of::<E>() <= usize::MAX,
        align_of::<E>() <= usize::MAX,
        size_of::<L>() <= usize::MAX,
        align_of::<L>() <= usize::MAX,
        spec_block_size::<E, L>(len) + spec_block_align::<E, L>(len) <= isize::MAX as nat + 1,
    ensures
        valid_layout(
            spec_block_size::<E, L>(len) as usize,
            spec_block_align::<E, L>(len) as usize,
        ),
{
    lemma_word_sizes();
    lemma_type_bounds(size_of::<E>(), align_of::<E>());
    lemma_type_bounds(size_of::<L>(), align_of::<L>());
    let size = spec_block_size::<E, L>(len);
    let align = spec_block_align::<E, L>(len);
    if len == 0 {
        assert(valid_layout(size as usize, align as usize));
    } else {
        assert(align == align_of::<L>() || align == align_of::<E>());
        assert(is_pow2(align as int));
        lemma_pow2_within_word(align);
        assert((isize::MAX as int + 1) % (align as int) == 0);
        assert(isize::MAX as int % (align as int) == align - 1) by {
            lemma_mod_sub_one(isize::MAX as int + 1, align as int);
        }
        assert(size <= isize::MAX as int - (align - 1));
        assert(valid_layout(size as usize, align as usize));
    }
}

/// Byte offset of element `idx` in a block of `len` elements next to one
/// label.  The offset, and the whole element it addresses, stay inside the
/// block's computed size.
pub fn elem_offset<E, L>(idx: usize) -> (r: usize)
    requires
        idx < spec_max_len::<E, L>(),
    ensures
        r == spec_elem_offset::<E, L>(idx as nat),
        r + size_of::<E>() <= spec_block_size::<E, L>(idx as nat + 1),
{
    layout_for_type_is_valid::<E>();
    layout_for_type_is_valid::<L>();
    proof {
        lemma_word_sizes();
        lemma_type_bounds(size_of::<E>(), align_of::<E>());
        lemma_type_bounds(size_of::<L>(), align_of::<L>());
        lemma_block_size_in_range::<E, L>(idx as nat + 1);
        assert(size_of::<E>() * (idx + 1) == size_of::<E>() * idx + size_of::<E>()) by {
            vstd::arithmetic::mul::lemma_mul_is_distributive_add(
                size_of::<E>() as int,
                idx as int,
                1,
            );
            vstd::arithmetic::mul::lemma_mul_basics(size_of::<E>() as int);
        }
    }
    let esize = core::mem::size_of::<E>();
    let ealign = core::mem::align_of::<E>();
    let lsize = aligned_size::<L>(ealign);
    lsize + esize * idx
}

} // verus!
