//! The mathematical model of a handle and of the memory it designates.
//!
//! A handle is abstracted as a [`PtrModel`]: its numeric address, the element
//! count of its block, its current logical position, and whether it is the
//! deallocating owner of the block.  Memory is abstracted as a map from block
//! base addresses to sequences of cells, each cell either initialized with a
//! value or not.

use vstd::prelude::*;

verus! {

use vstd::layout::{align_of, size_of};

/// Abstract state of a handle: address, block length (in elements), current
/// logical position within the block, and the ownership tag that decides
/// whether end-of-life cleanup deallocates the block.
pub ghost struct PtrModel {
    pub address: int,
    pub memory_length: int,
    pub offset: int,
    pub owns: bool,
}

/// The address is a multiple of the alignment that `T` requires.
pub open spec fn aligned_to<T>(address: int) -> bool {
    address % align_of::<T>() as int == 0
}

/// The handle is non-null and its address is aligned for `T`.
pub open spec fn valid_ptr<T>(m: PtrModel) -> bool {
    m.address != 0 && aligned_to::<T>(m.address)
}

/// The current position lies in the valid half-open index range of the block.
pub open spec fn in_bounds(m: PtrModel) -> bool {
    0 <= m.offset < m.memory_length
}

/// The base address of the handle's block: the address always designates the
/// element at `offset`, so the base lies `offset` elements below it.
pub open spec fn base_of<T>(m: PtrModel) -> int {
    m.address - m.offset * size_of::<T>()
}

/// The handle after moving its position by `count` elements: position and
/// address move together, as a single atomic update.
pub open spec fn shifted<T>(m: PtrModel, count: int) -> PtrModel {
    PtrModel {
        address: m.address + count * size_of::<T>(),
        offset: m.offset + count,
        ..m
    }
}

/// The null sentinel: no block, zero length, zero position, owning nothing.
pub open spec fn nulled() -> PtrModel {
    PtrModel { address: 0, memory_length: 0, offset: 0, owns: false }
}

/// The handle designates a cell that exists in `mem`: it is valid, its base
/// is a live block, and its position indexes into that block.
pub open spec fn writable_slot<T>(m: PtrModel, mem: Map<usize, Seq<Option<T>>>) -> bool {
    &&& valid_ptr::<T>(m)
    &&& 0 <= base_of::<T>(m)
    &&& mem.contains_key(base_of::<T>(m) as usize)
    &&& 0 <= m.offset < mem[base_of::<T>(m) as usize].len()
}

/// The handle designates a cell that exists in `mem` and holds a value.
pub open spec fn readable_slot<T>(m: PtrModel, mem: Map<usize, Seq<Option<T>>>) -> bool {
    &&& writable_slot::<T>(m, mem)
    &&& mem[base_of::<T>(m) as usize][m.offset] is Some
}

/// The cell the handle currently designates.
pub open spec fn slot_value<T>(m: PtrModel, mem: Map<usize, Seq<Option<T>>>) -> Option<T> {
    mem[base_of::<T>(m) as usize][m.offset]
}

/// The memory after overwriting one cell of the block at `base` with `value`.
pub open spec fn mem_with<T>(
    mem: Map<usize, Seq<Option<T>>>,
    base: usize,
    index: int,
    value: T,
) -> Map<usize, Seq<Option<T>>> {
    mem.insert(base, mem[base].update(index, Some(value)))
}

/// The memory after end-of-life cleanup of a handle: the block is freed
/// exactly when the handle is the live owner of a block that `mem` still
/// holds; a null, borrowing or dangling handle frees nothing.
pub open spec fn after_cleanup<T>(m: PtrModel, mem: Map<usize, Seq<Option<T>>>) -> Map<
    usize,
    Seq<Option<T>>,
> {
    if m.owns && valid_ptr::<T>(m) && 0 <= base_of::<T>(m) && mem.contains_key(
        base_of::<T>(m) as usize,
    ) {
        mem.remove(base_of::<T>(m) as usize)
    } else {
        mem
    }
}

/// Within a block whose base address is aligned for `T`, the address of
/// every element is aligned for `T` as well, since the size of `T` is a
/// multiple of its alignment.
pub proof fn lemma_element_aligned<T>(base: int, index: int)
    requires
        aligned_to::<T>(base),
    ensures
        aligned_to::<T>(base + index * size_of::<T>()),
{
    broadcast use vstd::layout::align_properties;
    broadcast use vstd::layout::align_nonzero;

    let a = align_of::<T>() as int;
    let s = size_of::<T>() as int;
    let k = s / a;
    vstd::arithmetic::div_mod::lemma_fundamental_div_mod(s, a);
    assert(s == a * k);
    assert(index * s == (index * k) * a) by (nonlinear_arith)
        requires
            s == a * k,
    ;
    vstd::arithmetic::div_mod::lemma_mod_multiples_basic(index * k, a);
    vstd::arithmetic::div_mod::lemma_small_mod(0, a as nat);
    vstd::arithmetic::div_mod::lemma_add_mod_noop(base, index * s, a);
    vstd::arithmetic::div_mod::lemma_mod_twice(base + index * s, a);
}

/// Law: moving a handle by `count` and then by `-count` restores the original
/// position and address exactly.
pub proof fn lemma_change_offset_round_trip<T>(m: PtrModel, count: int)
    ensures
        shifted::<T>(shifted::<T>(m, count), -count) == m,
{
    let s = size_of::<T>() as int;
    assert(count * s + (-count) * s == 0) by (nonlinear_arith);
}

/// Law: after writing `value` through a handle that designates an existing
/// cell, reading through the same handle yields `value`, and no other cell of
/// the memory changes.
pub proof fn lemma_write_then_read<T>(m: PtrModel, mem: Map<usize, Seq<Option<T>>>, value: T)
    requires
        writable_slot::<T>(m, mem),
    ensures
        readable_slot::<T>(m, mem_with::<T>(mem, base_of::<T>(m) as usize, m.offset, value)),
        slot_value::<T>(m, mem_with::<T>(mem, base_of::<T>(m) as usize, m.offset, value)) == Some(
            value,
        ),
        forall|b: usize, i: int|
            (b != base_of::<T>(m) as usize || i != m.offset) && mem.contains_key(b) && 0 <= i
                < mem[b].len() ==> #[trigger] mem_with::<T>(
                mem,
                base_of::<T>(m) as usize,
                m.offset,
                value,
            )[b][i] == mem[b][i],
{
}

/// Law: cleanup of a null handle deallocates nothing, so a handle that was
/// released (and thereby nulled) cannot free its former block a second time.
pub proof fn lemma_cleanup_after_release<T>(m: PtrModel, mem: Map<usize, Seq<Option<T>>>)
    requires
        m.address == 0,
    ensures
        after_cleanup::<T>(m, mem) == mem,
{
}

} // verus!
