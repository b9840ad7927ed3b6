//! The allocator bridge: the component through which handles obtain and
//! return their blocks.
//!
//! The bridge hands out fresh, aligned, non-null base addresses, remembers
//! which blocks are outstanding, and frees a block at most once; freeing the
//! null address or an address it does not know is a safe no-op.  Addresses
//! are never reused, so a stale address can never silently alias a newer
//! block.

use vstd::prelude::*;

verus! {

use std::collections::HashMap;
use vstd::layout::{align_of, align_nonzero, layout_for_type_is_valid, size_of};
use crate::model::aligned_to;

broadcast use vstd::std_specs::hash::group_hash_axioms;

/// Abstract state of the bridge: the outstanding blocks, keyed by base
/// address, and the frontier below which every address ever handed out lies.
#[verifier::reject_recursive_types(T)]
pub ghost struct AllocModel<T> {
    pub mem: Map<usize, Seq<Option<T>>>,
    pub next: int,
}

/// There is room for a block of `n` elements of `T` below the address-space
/// limit.
pub open spec fn can_alloc<T>(a: AllocModel<T>, n: int) -> bool {
    a.next + size_of::<T>() * n + align_of::<T>() <= usize::MAX
}

/// A block of `n` cells, none of them initialized yet.
fn empty_cells<T>(n: usize) -> (v: Vec<Option<T>>)
    ensures
        v@ == Seq::new(n as nat, |i: int| None::<T>),
{
    let mut v: Vec<Option<T>> = Vec::new();
    while v.len() < n
        invariant
            v@.len() <= n,
            forall|i: int| 0 <= i < v@.len() ==> v@[i] is None,
        decreases n - v.len(),
    {
        v.push(None);
    }
    proof {
        assert(v@ =~= Seq::new(n as nat, |i: int| None::<T>));
    }
    v
}

/// The allocator bridge.  Blocks of `n` elements of `T` are handed out at
/// fresh aligned non-null base addresses and stay live until deallocated.
#[verifier::reject_recursive_types(T)]
pub struct Allocator<T> {
    blocks: HashMap<usize, Vec<Option<T>>>,
    next: usize,
}

impl<T> View for Allocator<T> {
    type V = AllocModel<T>;

    closed spec fn view(&self) -> AllocModel<T> {
        AllocModel {
            mem: Map::new(
                |b: usize| self.blocks@.contains_key(b),
                |b: usize| self.blocks@[b]@,
            ),
            next: self.next as int,
        }
    }
}

impl<T> Allocator<T> {
    /// Internal well-formedness: the frontier is positive and aligned, and
    /// every outstanding block sits wholly below it at an aligned non-null
    /// base, with room to spare for the next alignment step.
    pub closed spec fn wf(&self) -> bool {
        &&& 0 < self.next
        &&& self.next as int % align_of::<T>() as int == 0
        &&& forall|b: usize|
            self.blocks@.contains_key(b) ==> 0 < b && b as int % align_of::<T>() as int == 0 && b
                + size_of::<T>() * self.blocks@[b]@.len() + align_of::<T>() <= self.next
    }

    /// A bridge with no outstanding blocks.
    pub fn new() -> (a: Allocator<T>)
        ensures
            a.wf(),
            a@.mem == Map::<usize, Seq<Option<T>>>::empty(),
            a@.next == align_of::<T>() as int,
    {
        proof {
            broadcast use align_nonzero;

        }
        let a = Allocator { blocks: HashMap::new(), next: core::mem::align_of::<T>() };
        proof {
            assert(a@.mem =~= Map::<usize, Seq<Option<T>>>::empty());
        }
        a
    }

    /// Forwards an allocation request for a block of `memory_length` elements
    /// of `T`.  On success the result is a fresh, aligned, non-null base
    /// address and the block's cells are all uninitialized; the request fails
    /// exactly when the block does not fit below the address-space limit,
    /// which is this model's out-of-memory condition.
    pub fn allocate(&mut self, memory_length: usize) -> (r: Option<usize>)
        requires
            old(self).wf(),
        ensures
            final(self).wf(),
            match r {
                Some(b) => {
                    &&& can_alloc::<T>(old(self)@, memory_length as int)
                    &&& b as int == old(self)@.next
                    &&& 0 < b
                    &&& aligned_to::<T>(b as int)
                    &&& b + size_of::<T>() * memory_length <= usize::MAX
                    &&& !old(self)@.mem.contains_key(b)
                    &&& final(self)@.mem == old(self)@.mem.insert(
                        b,
                        Seq::new(memory_length as nat, |i: int| None::<T>),
                    )
                    &&& old(self)@.next < final(self)@.next
                },
                None => !can_alloc::<T>(old(self)@, memory_length as int) && final(self)@ == old(
                    self,
                )@,
            },
    {
        layout_for_type_is_valid::<T>();
        let size: usize = core::mem::size_of::<T>();
        let align: usize = core::mem::align_of::<T>();
        let bytes: usize = match size.checked_mul(memory_length) {
            Some(b) => b,
            None => {
                return None;
            },
        };
        let step: usize = match bytes.checked_add(align) {
            Some(s) => s,
            None => {
                return None;
            },
        };
        let new_next: usize = match self.next.checked_add(step) {
            Some(n) => n,
            None => {
                return None;
            },
        };
        let base: usize = self.next;
        let cells: Vec<Option<T>> = empty_cells(memory_length);
        let ghost cells_view = cells@;
        let ghost old_mem = self@.mem;
        let _ = self.blocks.insert(base, cells);
        self.next = new_next;
        proof {
            assert(self@.mem =~= old_mem.insert(base, cells_view));
            let s = size as int;
            let a = align as int;
            let n = memory_length as int;
            assert((s * n) % a == 0) by {
                vstd::arithmetic::div_mod::lemma_fundamental_div_mod(s, a);
                vstd::arithmetic::mul::lemma_mul_is_associative(a, s / a, n);
                vstd::arithmetic::div_mod::lemma_mod_multiples_basic((s / a) * n, a);
            };
            assert(new_next as int % a == 0) by {
                vstd::arithmetic::div_mod::lemma_small_mod(0, a as nat);
                vstd::arithmetic::div_mod::lemma_mod_self_0(a);
                vstd::arithmetic::div_mod::lemma_add_mod_noop(base as int, bytes as int, a);
                vstd::arithmetic::div_mod::lemma_add_mod_noop(base as int + bytes as int, a, a);
                vstd::arithmetic::div_mod::lemma_mod_twice(base as int + bytes as int, a);
            };
        }
        Some(base)
    }

    /// Forwards a deallocation request.  Freeing the block at `address`
    /// removes it; the null address, an address never handed out, or an
    /// address already freed is a safe no-op, so no block can be freed twice.
    pub fn deallocate(&mut self, address: usize)
        requires
            old(self).wf(),
        ensures
            final(self).wf(),
            final(self)@.next == old(self)@.next,
            old(self)@.mem.contains_key(address) ==> final(self)@.mem == old(
                self,
            )@.mem.remove(address),
            !old(self)@.mem.contains_key(address) ==> final(self)@ == old(self)@,
            !final(self)@.mem.contains_key(address),
    {
        if address == 0 {
            return;
        }
        let ghost old_mem = self@.mem;
        let _ = self.blocks.remove(&address);
        proof {
            if old_mem.contains_key(address) {
                assert(self@.mem =~= old_mem.remove(address));
            } else {
                assert(self@.mem =~= old_mem);
            }
        }
    }

    /// Reads one cell of the block at `base`.  Yields a value exactly when
    /// that block is live, `index` lies within it, and the cell has been
    /// initialized.
    pub fn read_cell(&self, base: usize, index: usize) -> (r: Option<T>) where T: Copy
        ensures
            match r {
                Some(v) => self@.mem.contains_key(base) && index < self@.mem[base].len()
                    && self@.mem[base][index as int] == Some(v),
                None => !(self@.mem.contains_key(base) && index < self@.mem[base].len()
                    && self@.mem[base][index as int] is Some),
            },
    {
        match self.blocks.get(&base) {
            Some(cells) => {
                if index < cells.len() {
                    cells[index]
                } else {
                    None
                }
            },
            None => None,
        }
    }

    /// Borrows one cell of the block at `base`, under the same conditions as
    /// `read_cell`.
    pub fn ref_cell<'a>(&'a self, base: usize, index: usize) -> (r: Option<&'a T>)
        ensures
            match r {
                Some(v) => self@.mem.contains_key(base) && index < self@.mem[base].len()
                    && self@.mem[base][index as int] == Some(*v),
                None => !(self@.mem.contains_key(base) && index < self@.mem[base].len()
                    && self@.mem[base][index as int] is Some),
            },
    {
        match self.blocks.get(&base) {
            Some(cells) => {
                if index < cells.len() {
                    match &cells[index] {
                        Some(v) => Some(v),
                        None => None,
                    }
                } else {
                    None
                }
            },
            None => None,
        }
    }

    /// Overwrites one cell of the block at `base`.  Succeeds exactly when
    /// that block is live and `index` lies within it; the cell counts as
    /// initialized afterwards, whatever it held before.
    pub fn write_cell(&mut self, base: usize, index: usize, value: T) -> (r: bool)
        requires
            old(self).wf(),
        ensures
            final(self).wf(),
            r == (old(self)@.mem.contains_key(base) && index < old(self)@.mem[base].len()),
            r ==> final(self)@.mem == crate::model::mem_with::<T>(
                old(self)@.mem,
                base,
                index as int,
                value,
            ),
            !r ==> final(self)@ == old(self)@,
            final(self)@.next == old(self)@.next,
    {
        let ghost old_mem = self@.mem;
        match self.blocks.remove(&base) {
            None => {
                proof {
                    assert(self@.mem =~= old_mem);
                }
                false
            },
            Some(mut cells) => {
                let ghost old_cells = cells@;
                if index < cells.len() {
                    cells[index] = Some(value);
                    let _ = self.blocks.insert(base, cells);
                    proof {
                        assert(self@.mem =~= crate::model::mem_with::<T>(
                            old_mem,
                            base,
                            index as int,
                            value,
                        ));
                    }
                    true
                } else {
                    let _ = self.blocks.insert(base, cells);
                    proof {
                        assert(self@.mem =~= old_mem);
                    }
                    false
                }
            },
        }
    }

    /// Outstanding-allocation telemetry: how many blocks are live.
    pub fn allocation_info(&self) -> (r: usize)
        ensures
            r == self@.mem.dom().len(),
    {
        proof {
            assert(self@.mem.dom() =~= self.blocks@.dom());
        }
        self.blocks.len()
    }
}

} // verus!
