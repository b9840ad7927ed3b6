//! The read-write handle over a block address.

use vstd::prelude::*;

verus! {

use core::marker::PhantomData;
use vstd::layout::{align_nonzero, layout_for_type_is_valid, size_of};
use crate::allocator::{can_alloc, Allocator};
use crate::model::{
    aligned_to,
    after_cleanup,
    base_of,
    in_bounds,
    mem_with,
    nulled,
    readable_slot,
    shifted,
    slot_value,
    valid_ptr,
    writable_slot,
    PtrModel,
};
use crate::const_raw_ptr::ConstRawPtr;

/// A read-write handle over a block of `memory_length` elements of `T`,
/// currently standing at logical position `offset`; the address always
/// designates the element at that position.  The handle may be the null
/// sentinel, representing "no block".  Only a handle produced by the
/// allocating constructor owns its block; handles wrapped around a
/// caller-supplied address, and handles derived by reinterpretation, are
/// borrowing views that never deallocate.
pub struct MutRawPtr<T> where T: Sized + Copy + Send + Sync {
    address: usize,
    memory_length: usize,
    offset: usize,
    owns: bool,
    element: PhantomData<T>,
}

impl<T: Sized + Copy + Send + Sync> View for MutRawPtr<T> {
    type V = PtrModel;

    closed spec fn view(&self) -> PtrModel {
        PtrModel {
            address: self.address as int,
            memory_length: self.memory_length as int,
            offset: self.offset as int,
            owns: self.owns,
        }
    }
}

impl<T: Sized + Copy + Send + Sync> MutRawPtr<T> {
    /// Allocates a block of `memory_length` elements through the bridge,
    /// writes `data` into its first cells, and returns an owning handle
    /// standing at `offset`.  Fails when the arguments are inconsistent or
    /// when the bridge is out of room; the bridge is then left unchanged.
    pub fn c_malloc(
        bridge: &mut Allocator<T>,
        data: Vec<T>,
        memory_length: usize,
        offset: usize,
    ) -> (r: Option<Self>)
        requires
            old(bridge).wf(),
        ensures
            final(bridge).wf(),
            r is Some <==> memory_length > 0 && offset < memory_length && 0 < data@.len()
                && data@.len() <= memory_length && can_alloc::<T>(
                old(bridge)@,
                memory_length as int,
            ),
            r is None ==> final(bridge)@ == old(bridge)@,
            r matches Some(p) ==> {
                let b = old(bridge)@.next;
                &&& p@.owns
                &&& p@.memory_length == memory_length
                &&& p@.offset == offset
                &&& valid_ptr::<T>(p@)
                &&& base_of::<T>(p@) == b
                &&& p@.address == b + offset * size_of::<T>()
                &&& !old(bridge)@.mem.contains_key(b as usize)
                &&& final(bridge)@.mem == old(bridge)@.mem.insert(
                    b as usize,
                    Seq::new(
                        memory_length as nat,
                        |i: int| if i < data@.len() { Some(data@[i]) } else { None },
                    ),
                )
                &&& old(bridge)@.next < final(bridge)@.next
            },
    {
        if memory_length == 0 || offset >= memory_length || data.len() == 0 || data.len()
            > memory_length {
            return None;
        }
        let base = match bridge.allocate(memory_length) {
            None => {
                return None;
            },
            Some(b) => b,
        };
        let ghost mem0 = old(bridge)@.mem;
        let ghost next1 = bridge@.next;
        let mut idx: usize = 0;
        proof {
            assert(Seq::new(
                memory_length as nat,
                |i: int| if i < idx { Some(data@[i]) } else { None },
            ) =~= Seq::new(memory_length as nat, |i: int| None::<T>));
        }
        while idx < data.len()
            invariant
                bridge.wf(),
                idx <= data.len(),
                data.len() <= memory_length,
                bridge@.next == next1,
                bridge@.mem == mem0.insert(
                    base,
                    Seq::new(
                        memory_length as nat,
                        |i: int| if i < idx { Some(data@[i]) } else { None },
                    ),
                ),
            decreases data.len() - idx,
        {
            let ghost before = bridge@.mem;
            let ok = bridge.write_cell(base, idx, data[idx]);
            proof {
                assert(before[base].len() == memory_length);
                assert(ok);
                assert(before[base].update(idx as int, Some(data@[idx as int])) =~= Seq::new(
                    memory_length as nat,
                    |i: int| if i < idx + 1 { Some(data@[i]) } else { None },
                ));
                assert(bridge@.mem =~= mem0.insert(
                    base,
                    Seq::new(
                        memory_length as nat,
                        |i: int| if i < idx + 1 { Some(data@[i]) } else { None },
                    ),
                ));
            }
            idx += 1;
        }
        proof {
            assert(Seq::new(
                memory_length as nat,
                |i: int| if i < idx { Some(data@[i]) } else { None },
            ) =~= Seq::new(
                memory_length as nat,
                |i: int| if i < data@.len() { Some(data@[i]) } else { None },
            ));
        }
        layout_for_type_is_valid::<T>();
        let size: usize = core::mem::size_of::<T>();
        proof {
            let o = offset as int;
            let n = memory_length as int;
            let s = size as int;
            vstd::arithmetic::mul::lemma_mul_inequality(o, n, s);
            vstd::arithmetic::mul::lemma_mul_is_commutative(n, s);
            assert(o * s <= usize::MAX - base);
            crate::model::lemma_element_aligned::<T>(base as int, offset as int);
        }
        let address: usize = base + offset * size;
        Some(Self { address, memory_length, offset, owns: true, element: PhantomData })
    }

    /// Wraps a caller-supplied address, block length and position.  The
    /// address must be aligned for `T` and the position must lie within the
    /// block: a violation is a caller bug, not a runtime condition, so it is
    /// ruled out here rather than reported.  The caller keeps responsibility
    /// for the block, so the handle is a borrowing view.
    #[inline]
    pub fn new(address: usize, memory_length: usize, offset: usize) -> (r: Self)
        requires
            aligned_to::<T>(address as int),
            offset < memory_length,
        ensures
            r@ == (PtrModel {
                address: address as int,
                memory_length: memory_length as int,
                offset: offset as int,
                owns: false,
            }),
    {
        Self { address, memory_length, offset, owns: false, element: PhantomData }
    }

    /// The null sentinel: a safe placeholder that can later be replaced.
    #[inline]
    pub fn nullptr() -> (r: Self)
        ensures
            r@ == nulled(),
    {
        Self { address: 0, memory_length: 0, offset: 0, owns: false, element: PhantomData }
    }

    /// Deterministic end-of-life cleanup: deallocates through the bridge
    /// exactly once if this handle is still valid and is the designated
    /// owner of a live block, then consumes the handle.  Borrowing and null
    /// handles deallocate nothing.
    pub fn manual_drop(self, bridge: &mut Allocator<T>)
        requires
            old(bridge).wf(),
        ensures
            final(bridge).wf(),
            final(bridge)@.mem == after_cleanup::<T>(self@, old(bridge)@.mem),
            final(bridge)@.next == old(bridge)@.next,
    {
        if !self.owns {
            return;
        }
        if !self.check_ptr() {
            return;
        }
        let size: usize = core::mem::size_of::<T>();
        let off_bytes: usize = match self.offset.checked_mul(size) {
            Some(b) => b,
            None => {
                return;
            },
        };
        if off_bytes > self.address {
            return;
        }
        bridge.deallocate(self.address - off_bytes);
    }

    /// True iff the current position lies in the valid half-open index range
    /// of the block.
    #[inline]
    pub fn check_bounds(&self) -> (r: bool)
        ensures
            r == in_bounds(self@),
    {
        self.offset < self.memory_length
    }

    /// True iff the handle is non-null and its address is aligned for `T`.
    pub fn check_ptr(&self) -> (r: bool)
        ensures
            r == valid_ptr::<T>(self@),
    {
        if self.address == 0 {
            return false;
        }
        proof {
            broadcast use align_nonzero;

        }
        let align: usize = core::mem::align_of::<T>();
        self.address % align == 0
    }

    /// The current logical position within the block.
    pub fn check_offset(&self) -> (r: usize)
        ensures
            r as int == self@.offset,
    {
        self.offset
    }

    /// The length of the block, in elements.
    pub fn check_memory_length(&self) -> (r: usize)
        ensures
            r as int == self@.memory_length,
    {
        self.memory_length
    }

    /// Moves the position by `count` elements.  Succeeds exactly when the
    /// handle is valid, the new position lies within the block, and the new
    /// address stays non-null and within the address space; position and
    /// address are then updated together, the base of the block does not
    /// move, and the address stays aligned.  On failure the handle is left
    /// completely unchanged.
    pub fn change_offset(&mut self, count: isize) -> (r: Option<()>)
        ensures
            r is Some <==> valid_ptr::<T>(old(self)@) && 0 <= old(self)@.offset + count && old(
                self,
            )@.offset + count < old(self)@.memory_length && 0 < old(self)@.address + count
                * size_of::<T>() && old(self)@.address + count * size_of::<T>() <= usize::MAX,
            r is Some ==> final(self)@ == shifted::<T>(old(self)@, count as int),
            r is Some ==> valid_ptr::<T>(final(self)@) && base_of::<T>(final(self)@) == base_of::<
                T,
            >(old(self)@),
            r is None ==> final(self)@ == old(self)@,
    {
        if !self.check_ptr() {
            return None;
        }
        let new_offset_w: i128 = self.offset as i128 + count as i128;
        if new_offset_w < 0 || new_offset_w >= self.memory_length as i128 {
            return None;
        }
        layout_for_type_is_valid::<T>();
        let size: usize = core::mem::size_of::<T>();
        proof {
            let c = count as int;
            let s = size as int;
            broadcast use align_nonzero;

            vstd::arithmetic::div_mod::lemma_mod_bound(
                isize::MAX as int,
                vstd::layout::align_of::<T>() as usize as int,
            );
            assert(s <= isize::MAX as int);
            assert(c * s <= isize::MAX as int * isize::MAX as int && isize::MIN as int
                * isize::MAX as int <= c * s) by (nonlinear_arith)
                requires
                    isize::MIN as int <= c <= isize::MAX as int,
                    0 <= s <= isize::MAX as int,
            ;
        }
        let delta: i128 = (count as i128) * (size as i128);
        let new_address_w: i128 = self.address as i128 + delta;
        if new_address_w <= 0 || new_address_w > (usize::MAX as i128) {
            return None;
        }
        self.offset = new_offset_w as usize;
        self.address = new_address_w as usize;
        proof {
            let c = count as int;
            let s = size as int;
            let o = old(self)@.offset;
            crate::model::lemma_element_aligned::<T>(old(self)@.address, c);
            assert((o + c) * s == o * s + c * s) by (nonlinear_arith);
        }
        Some(())
    }

    /// Replaces the block length, keeping address and position.  Succeeds
    /// exactly when the new length is positive and the current position
    /// remains valid under it; otherwise the handle is unchanged.
    pub fn change_memory_length(&mut self, memory_length: usize) -> (r: Option<()>)
        ensures
            r is Some <==> 0 < memory_length && old(self)@.offset < memory_length,
            r is Some ==> final(self)@ == (PtrModel {
                memory_length: memory_length as int,
                ..old(self)@
            }),
            r is None ==> final(self)@ == old(self)@,
    {
        if memory_length == 0 || self.offset >= memory_length {
            return None;
        }
        self.memory_length = memory_length;
        Some(())
    }

    /// Transfers the handle's content out: yields the value at the current
    /// position and nulls the handle.  The caller now owns whatever the
    /// handle held; the block itself is not deallocated, and a later cleanup
    /// of this handle frees nothing.  Fails, leaving the handle unchanged,
    /// when the handle does not designate an initialized cell.
    pub fn release_ptr(&mut self, bridge: &Allocator<T>) -> (r: Option<T>)
        ensures
            r is Some <==> readable_slot::<T>(old(self)@, bridge@.mem),
            r matches Some(v) ==> Some(v) == slot_value::<T>(old(self)@, bridge@.mem)
                && final(self)@ == nulled(),
            r is None ==> final(self)@ == old(self)@,
    {
        match self.access(bridge) {
            None => None,
            Some(v) => {
                self.address = 0;
                self.memory_length = 0;
                self.offset = 0;
                self.owns = false;
                Some(v)
            },
        }
    }

    /// Invalidates the handle without deallocating, for a handle that was
    /// only a borrowing view over externally owned memory.  A handle that is
    /// already invalid is left unchanged.
    #[inline]
    pub fn set_null(&mut self)
        ensures
            valid_ptr::<T>(old(self)@) ==> final(self)@ == nulled(),
            !valid_ptr::<T>(old(self)@) ==> final(self)@ == old(self)@,
    {
        if self.check_ptr() {
            self.address = 0;
            self.memory_length = 0;
            self.offset = 0;
            self.owns = false;
        }
    }

    /// The numeric address the handle currently designates.
    #[inline]
    pub fn memory_address(&self) -> (r: usize)
        ensures
            r as int == self@.address,
    {
        self.address
    }

    /// The read-only view of the same block, at the same address, length
    /// and position.  The result is a borrowing alias: this handle remains
    /// live, so the alias must not deallocate, and does not.
    pub fn as_const(&self) -> (r: ConstRawPtr<T>)
        requires
            aligned_to::<T>(self@.address),
            self@.offset < self@.memory_length,
        ensures
            r@ == (PtrModel { owns: false, ..self@ }),
    {
        ConstRawPtr::new(self.address, self.memory_length, self.offset)
    }

    /// Reads the element at the current position.  Yields a value exactly
    /// when the handle is valid and designates an initialized cell of a live
    /// block; an invalid or dangling handle is never dereferenced.
    pub fn access(&self, bridge: &Allocator<T>) -> (r: Option<T>)
        ensures
            r is Some <==> readable_slot::<T>(self@, bridge@.mem),
            r matches Some(v) ==> Some(v) == slot_value::<T>(self@, bridge@.mem),
    {
        if !self.check_ptr() {
            return None;
        }
        let size: usize = core::mem::size_of::<T>();
        let off_bytes: usize = match self.offset.checked_mul(size) {
            Some(b) => b,
            None => {
                return None;
            },
        };
        if off_bytes > self.address {
            return None;
        }
        bridge.read_cell(self.address - off_bytes, self.offset)
    }

    /// Borrows the element at the current position, under the same
    /// conditions as `access`.
    pub fn ref_const<'a>(&self, bridge: &'a Allocator<T>) -> (r: Option<&'a T>)
        ensures
            r is Some <==> readable_slot::<T>(self@, bridge@.mem),
            r matches Some(v) ==> Some(*v) == slot_value::<T>(self@, bridge@.mem),
    {
        if !self.check_ptr() {
            return None;
        }
        let size: usize = core::mem::size_of::<T>();
        let off_bytes: usize = match self.offset.checked_mul(size) {
            Some(b) => b,
            None => {
                return None;
            },
        };
        if off_bytes > self.address {
            return None;
        }
        bridge.ref_cell(self.address - off_bytes, self.offset)
    }

    /// True iff the handle is the null sentinel.
    #[inline]
    pub fn is_null(&self) -> (r: bool)
        ensures
            r == (self@.address == 0),
    {
        self.address == 0
    }

    /// The size of one element, in bytes.
    #[inline]
    pub fn size_of(&self) -> (r: usize)
        ensures
            r as nat == size_of::<T>(),
    {
        core::mem::size_of::<T>()
    }

    /// Reinterprets the handle as designating elements of `U`, carrying
    /// address, length and position over unchanged.  Fails only on a null
    /// handle.  The caller is responsible for layout compatibility of `U`
    /// and `T`; the result is a borrowing alias and never deallocates.
    pub fn cast_ptr<U: Sized + Copy + Send + Sync>(&self) -> (r: Option<MutRawPtr<U>>)
        ensures
            r is Some <==> self@.address != 0,
            r matches Some(p) ==> p@ == (PtrModel { owns: false, ..self@ }),
    {
        if self.address != 0 {
            Some(
                MutRawPtr {
                    address: self.address,
                    memory_length: self.memory_length,
                    offset: self.offset,
                    owns: false,
                    element: PhantomData,
                },
            )
        } else {
            None
        }
    }

    /// Overwrites the element at the current position with `src`, discarding
    /// the previous cell content.  Succeeds exactly when the handle is valid
    /// and designates a cell of a live block; on failure nothing changes.
    pub fn write_ptr(&mut self, bridge: &mut Allocator<T>, src: T) -> (r: Option<()>)
        requires
            old(bridge).wf(),
        ensures
            final(bridge).wf(),
            final(self)@ == old(self)@,
            r is Some <==> writable_slot::<T>(old(self)@, old(bridge)@.mem),
            r is Some ==> final(bridge)@.mem == mem_with::<T>(
                old(bridge)@.mem,
                base_of::<T>(old(self)@) as usize,
                old(self)@.offset,
                src,
            ) && final(bridge)@.next == old(bridge)@.next,
            r is None ==> final(bridge)@ == old(bridge)@,
    {
        if !self.check_ptr() {
            return None;
        }
        let size: usize = core::mem::size_of::<T>();
        let off_bytes: usize = match self.offset.checked_mul(size) {
            Some(b) => b,
            None => {
                return None;
            },
        };
        if off_bytes > self.address {
            return None;
        }
        if bridge.write_cell(self.address - off_bytes, self.offset, src) {
            Some(())
        } else {
            None
        }
    }
}

} // verus!
