//! Safety layer around raw block addresses.
//!
//! Two capability-equivalent handle types, [`const_raw_ptr::ConstRawPtr`]
//! (read-only view) and [`mut_raw_ptr::MutRawPtr`] (read-write view), each
//! track a numeric address, the length of the block it belongs to, and a
//! current logical position within that block.  Every navigation, access and
//! mutation is bounds- and alignment-checked.  Blocks live in an explicit
//! [`allocator::Allocator`] bridge, injected into the operations that read,
//! write or free memory, so that "exactly one owner frees the block" is a
//! proved property rather than a convention.

pub mod allocator;
pub mod const_raw_ptr;
pub mod model;
pub mod mut_raw_ptr;
