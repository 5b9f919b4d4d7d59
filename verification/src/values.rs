//! The two interchangeable value kinds and the explicit dispatch-table
//! reference through which their capability is invoked.
//!
//! Both kinds store one machine word. `SNoRead`'s capability never consults
//! the stored word and returns a fixed sentinel; `SWithRead`'s capability
//! returns the stored word, which construction initializes to its own
//! sentinel. The two sentinels are distinct, so every layout strategy can use
//! the returned value as a correctness oracle.

use vstd::prelude::*;

verus! {

/// Sentinel returned by the kind whose capability never reads its field.
pub const VAL_NOREAD: usize = 0xdeadbeef;

/// Sentinel stored and returned by the kind whose capability reads its field.
pub const VAL_WITHREAD: usize = 0xFEEDC0DE;

/// An explicit dispatch-table reference: a value identifying a concrete
/// type's implementation of the capability. It is constructed once per
/// concrete type and then stored and copied as plain data, the way a
/// virtual-function table pointer would be.
#[derive(Clone, Copy, PartialEq, Eq, Structural, Debug)]
pub enum VTable {
    NoRead,
    WithRead,
}

impl VTable {
    /// What dispatching through this table on a stored payload word yields.
    pub open spec fn invoke_spec(self, payload: usize) -> usize {
        match self {
            VTable::NoRead => VAL_NOREAD,
            VTable::WithRead => payload,
        }
    }

    /// Invoke the capability this table identifies, on a payload word.
    pub fn invoke(self, payload: usize) -> (r: usize)
        ensures
            r == self.invoke_spec(payload),
    {
        match self {
            VTable::NoRead => VAL_NOREAD,
            VTable::WithRead => payload,
        }
    }

    /// The table reference encoded as a single machine word, fit for the
    /// first word of a table-prefixed block.
    pub open spec fn encode_spec(self) -> usize {
        match self {
            VTable::NoRead => 0usize,
            VTable::WithRead => 1usize,
        }
    }

    /// Decoding of a word read back out of a table-prefixed block.
    pub open spec fn decode_spec(w: usize) -> Option<VTable> {
        if w == 0usize {
            Some(VTable::NoRead)
        } else if w == 1usize {
            Some(VTable::WithRead)
        } else {
            None
        }
    }

    pub fn encode(self) -> (w: usize)
        ensures
            w == self.encode_spec(),
            Self::decode_spec(w) == Some(self),
    {
        match self {
            VTable::NoRead => 0usize,
            VTable::WithRead => 1usize,
        }
    }

    pub fn decode(w: usize) -> (t: Option<VTable>)
        ensures
            t == Self::decode_spec(w),
    {
        if w == 0usize {
            Some(VTable::NoRead)
        } else if w == 1usize {
            Some(VTable::WithRead)
        } else {
            None
        }
    }
}

/// Every decodable word decodes to the table that encoded it: storing a table
/// reference as a plain word and reading it back loses nothing.
pub proof fn lemma_vtable_round_trip(t: VTable)
    ensures
        VTable::decode_spec(t.encode_spec()) == Some(t),
{
}

/// The capability that every value kind exposes: report a value.
pub trait GetVal: Sized {
    /// The kind's designated sentinel.
    spec fn sentinel() -> usize;

    /// The one-word payload this value stores.
    spec fn stored(self) -> usize;

    /// What `val` returns for this value.
    spec fn val_spec(self) -> usize;

    /// The dispatch table shared by every value of this concrete type.
    spec fn table_spec() -> VTable;

    /// Report the value. `SNoRead` answers its sentinel without touching the
    /// stored word; `SWithRead` answers the stored word.
    fn val(&self) -> (r: usize)
        ensures
            r == self.val_spec(),
    ;

    /// Extract the dispatch-table reference. It is a property of the type,
    /// not of the instance, so one extraction serves every value.
    fn table() -> (t: VTable)
        ensures
            t == Self::table_spec(),
    ;

    /// The stored payload as a plain word, for writing into raw storage.
    fn to_word(self) -> (w: usize)
        ensures
            w == self.stored(),
    ;

    /// Dispatching through the type's table on the stored word agrees with
    /// invoking the capability on the value directly.
    proof fn dispatch_agrees(self)
        ensures
            Self::table_spec().invoke_spec(self.stored()) == self.val_spec(),
    ;
}

/// Construction of a freshly initialized value of a kind.
pub trait New: GetVal {
    /// A fresh value whose capability answers the kind's own sentinel.
    fn new() -> (s: Self)
        ensures
            s.val_spec() == Self::sentinel(),
            Self::table_spec().invoke_spec(s.stored()) == Self::sentinel(),
    ;
}

/// The kind whose capability ignores its stored field (hence the leading
/// underscore) and returns `VAL_NOREAD`.
pub struct SNoRead {
    pub _i: usize,
}

impl GetVal for SNoRead {
    open spec fn sentinel() -> usize {
        VAL_NOREAD
    }

    open spec fn stored(self) -> usize {
        self._i
    }

    open spec fn val_spec(self) -> usize {
        VAL_NOREAD
    }

    open spec fn table_spec() -> VTable {
        VTable::NoRead
    }

    fn val(&self) -> usize {
        VAL_NOREAD
    }

    fn table() -> VTable {
        VTable::NoRead
    }

    fn to_word(self) -> usize {
        self._i
    }

    proof fn dispatch_agrees(self) {
    }
}

impl New for SNoRead {
    fn new() -> Self {
        SNoRead { _i: VAL_NOREAD }
    }
}

/// The kind whose capability reads its stored field, which construction sets
/// to `VAL_WITHREAD`.
pub struct SWithRead {
    pub i: usize,
}

impl GetVal for SWithRead {
    open spec fn sentinel() -> usize {
        VAL_WITHREAD
    }

    open spec fn stored(self) -> usize {
        self.i
    }

    open spec fn val_spec(self) -> usize {
        self.i
    }

    open spec fn table_spec() -> VTable {
        VTable::WithRead
    }

    fn val(&self) -> usize {
        self.i
    }

    fn table() -> VTable {
        VTable::WithRead
    }

    fn to_word(self) -> usize {
        self.i
    }

    proof fn dispatch_agrees(self) {
    }
}

impl New for SWithRead {
    fn new() -> Self {
        SWithRead { i: VAL_WITHREAD }
    }
}

/// The two sentinels are distinct, so a traversal that answers the right
/// sentinel for one kind cannot be mistaken for the other.
pub proof fn lemma_sentinels_distinct()
    ensures
        VAL_NOREAD != VAL_WITHREAD,
{
}

} // verus!
