//! The physical encodings of a reference to a polymorphic value.
//!
//! A fat handle holds a data address and a dispatch-table reference side by
//! side: two machine words. A thin handle is one machine word, the address
//! of a table-prefixed block whose first word is the encoded table reference
//! and whose second word is the value's data; a fat handle is reconstructed
//! from it on demand by reading the first word and offsetting past it.

use crate::heap::Heap;
use crate::values::VTable;
use vstd::prelude::*;

verus! {

/// A fat handle: a data address and a dispatch-table reference held
/// together.
#[derive(Clone, Copy, PartialEq, Eq, Structural, Debug)]
pub struct FatHandle {
    pub data: usize,
    pub table: VTable,
}

impl FatHandle {
    /// The handle points into live storage.
    pub open spec fn wf(self, h: Heap) -> bool {
        h.valid_addr(self.data)
    }

    /// What invoking the capability through this handle yields: dispatch
    /// through the stored table reference on the word the handle points at.
    pub open spec fn val_spec(self, h: Heap) -> usize {
        self.table.invoke_spec(h.words()[self.data as int])
    }

    /// Invoke the capability through the handle.
    pub fn val(&self, h: &Heap) -> (r: usize)
        requires
            h.wf(),
            self.wf(*h),
        ensures
            r == self.val_spec(*h),
    {
        self.table.invoke(h.read(self.data))
    }
}

/// A thin handle: the address of a table-prefixed block, one machine word.
#[derive(Clone, Copy, PartialEq, Eq, Structural, Debug)]
pub struct ThinHandle {
    pub addr: usize,
}

impl ThinHandle {
    /// The handle points at a live table-prefixed block: the table word and
    /// the data word behind it are both live, and the table word decodes.
    pub open spec fn wf(self, h: Heap) -> bool {
        &&& self.addr + 1 <= usize::MAX
        &&& h.valid_addr(self.addr)
        &&& h.valid_addr((self.addr + 1) as usize)
        &&& VTable::decode_spec(h.words()[self.addr as int]) is Some
    }

    /// The dispatch-table reference stored in the block's first word.
    pub open spec fn table_spec(self, h: Heap) -> VTable {
        match VTable::decode_spec(h.words()[self.addr as int]) {
            Some(t) => t,
            None => VTable::NoRead,
        }
    }

    /// What invoking the capability through this handle yields.
    pub open spec fn val_spec(self, h: Heap) -> usize {
        self.table_spec(h).invoke_spec(h.words()[self.addr + 1])
    }

    /// Reconstruct the two-word handle this block encodes: read the first
    /// word back into a table reference and point the data address one word
    /// past it.
    pub fn reconstruct_fat(&self, h: &Heap) -> (f: FatHandle)
        requires
            h.wf(),
            self.wf(*h),
        ensures
            f.wf(*h),
            f.table == self.table_spec(*h),
            f.data == self.addr + 1,
            f.val_spec(*h) == self.val_spec(*h),
    {
        let tw = h.read(self.addr);
        let t = match VTable::decode(tw) {
            Some(t) => t,
            None => VTable::NoRead,
        };
        FatHandle { data: self.addr + 1, table: t }
    }
}

/// The guarantee every strategy checks at setup: a thin handle occupies
/// exactly one machine word, and a fat handle exactly two.
pub open spec fn handle_sizes_exact() -> bool {
    &&& vstd::layout::size_of::<ThinHandle>() == vstd::layout::size_of::<usize>()
    &&& vstd::layout::size_of::<FatHandle>() == 2 * vstd::layout::size_of::<usize>()
}

/// The size check every strategy performs at setup.
pub fn handle_sizes_ok() -> (b: bool)
    ensures
        b <==> handle_sizes_exact(),
{
    let w = core::mem::size_of::<usize>();
    let t = core::mem::size_of::<ThinHandle>();
    let f = core::mem::size_of::<FatHandle>();
    if w <= usize::MAX - w {
        t == w && f == w + w
    } else {
        // a fat handle's size fits a usize, so it cannot be two words when
        // two words exceed the address space
        false
    }
}

} // verus!
