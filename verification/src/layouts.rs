//! Allocation-layout arithmetic.
//!
//! A table-prefixed block stores a dispatch-table word immediately followed
//! by the value's own storage. Its layout is computed the way std computes
//! the layout of one value extended by another: the second value's offset is
//! the first layout's size rounded up to the second's alignment, the combined
//! size is that offset plus the second size, and the combined alignment is
//! the larger of the two. The strategies then check that no padding crept in:
//! the combined size must be exactly one machine word plus the value's size.

use vstd::prelude::*;

verus! {

/// A size/alignment pair describing one allocation request.
#[derive(Clone, Copy, PartialEq, Eq, Structural, Debug)]
pub struct LayoutDesc {
    pub size: usize,
    pub align: usize,
}

/// `x` rounded up to the next multiple of `a`.
pub open spec fn round_up_spec(x: nat, a: nat) -> nat
    recommends
        a > 0,
{
    if x % a == 0 {
        x
    } else {
        (x + (a - x % a)) as nat
    }
}

/// `x` rounded up to the next multiple of `a`, or nothing if that exceeds
/// the address space.
pub fn round_up(x: usize, a: usize) -> (r: Option<usize>)
    requires
        a > 0,
    ensures
        r is Some <==> round_up_spec(x as nat, a as nat) <= usize::MAX,
        match r {
            Some(v) => v == round_up_spec(x as nat, a as nat),
            None => true,
        },
{
    let rem = x % a;
    if rem == 0 {
        Some(x)
    } else {
        let pad = a - rem;
        if x <= usize::MAX - pad {
            Some(x + pad)
        } else {
            None
        }
    }
}

/// The layout of a block holding a value of layout `a` immediately followed,
/// after any padding `b`'s alignment demands, by a value of layout `b`.
/// Returns the combined layout and the offset at which the second value
/// sits; fails exactly when the combined size does not fit the address
/// space.
pub fn extend_layout(a: LayoutDesc, b: LayoutDesc) -> (r: Option<(LayoutDesc, usize)>)
    requires
        a.align > 0,
        b.align > 0,
    ensures
        r is Some <==> round_up_spec(a.size as nat, b.align as nat) + b.size <= usize::MAX,
        match r {
            Some(p) => {
                &&& p.1 == round_up_spec(a.size as nat, b.align as nat)
                &&& p.0.size == p.1 + b.size
                &&& p.0.align == if a.align >= b.align {
                    a.align
                } else {
                    b.align
                }
            },
            None => true,
        },
{
    match round_up(a.size, b.align) {
        Some(off) => {
            if off <= usize::MAX - b.size {
                let align = if a.align >= b.align {
                    a.align
                } else {
                    b.align
                };
                Some((LayoutDesc { size: off + b.size, align: align }, off))
            } else {
                None
            }
        },
        None => None,
    }
}

/// Whether a table-prefixed block for a value of type `V` lays out with no
/// padding between the machine word holding the table reference and the
/// value: the combined size is exactly one word plus the value's size.
pub open spec fn table_prefix_exact<V>() -> bool {
    &&& round_up_spec(vstd::layout::size_of::<usize>(), vstd::layout::align_of::<V>())
        == vstd::layout::size_of::<usize>()
    &&& vstd::layout::size_of::<usize>() + vstd::layout::size_of::<V>() <= usize::MAX
}

/// Compute the layout of a table-prefixed block for a value of type `V` and
/// check it: one machine word for the dispatch-table reference, then the
/// value, with a combined size of exactly one word plus the value's size.
/// Returns nothing exactly when the layout pads or overflows.
pub fn table_prefixed_layout<V>() -> (r: Option<LayoutDesc>)
    ensures
        r is Some <==> table_prefix_exact::<V>(),
        match r {
            Some(l) => l.size == vstd::layout::size_of::<usize>() + vstd::layout::size_of::<V>(),
            None => true,
        },
{
    vstd::layout::layout_for_type_is_valid::<usize>();
    vstd::layout::layout_for_type_is_valid::<V>();
    let word = LayoutDesc {
        size: core::mem::size_of::<usize>(),
        align: core::mem::align_of::<usize>(),
    };
    let value = LayoutDesc { size: core::mem::size_of::<V>(), align: core::mem::align_of::<V>() };
    match extend_layout(word, value) {
        Some(p) => {
            // the original strategy's setup assertion: no padding between the
            // table word and the value
            if p.0.size == core::mem::size_of::<usize>() + core::mem::size_of::<V>() {
                Some(p.0)
            } else {
                None
            }
        },
        None => None,
    }
}

} // verus!
