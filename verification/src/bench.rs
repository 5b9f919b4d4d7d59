//! The benchmark drivers.
//!
//! Each driver builds a collection of `vec_size` polymorphic values under one
//! layout strategy, times `iters` full passes over it — every pass invokes
//! the capability on every element and checks the answer against the kind's
//! sentinel — and tears the collection down. The sentinel check and the
//! teardown obligations (independent-object strategies release one
//! allocation per element, shared-object strategies release their single
//! backing allocation exactly once) are proved; only the clock readings are
//! taken on trust.

use crate::clock::monotonic_now;
use crate::clock::nanos_since;
use crate::handles::handle_sizes_exact;
use crate::handles::handle_sizes_ok;
use crate::handles::FatHandle;
use crate::handles::ThinHandle;
use crate::heap::lemma_records_distinct;
use crate::heap::Heap;
use crate::layouts::table_prefix_exact;
use crate::layouts::table_prefixed_layout;
use crate::values::VTable;
use crate::values::GetVal;
use crate::values::New;
use crate::values::SNoRead;
use crate::values::SWithRead;
use crate::values::VAL_NOREAD;
use crate::values::VAL_WITHREAD;
use vstd::arithmetic::mul::lemma_mul_upper_bound;
use vstd::prelude::*;

verus! {

/// Per-process configuration: how many timed passes to make and how many
/// elements the collection holds.
#[derive(Clone, Copy, PartialEq, Eq, Structural, Debug)]
pub struct Config {
    pub iters: usize,
    pub vec_size: usize,
}

/// What one benchmark run reports: the elapsed time of the timed loop in
/// nanoseconds, and how many capability invocations the loop made.
#[derive(Clone, Copy, PartialEq, Eq, Structural, Debug)]
pub struct BenchReport {
    pub nanos: u128,
    pub calls: u128,
}

/// Every fat handle of the collection points into live storage.
pub open spec fn all_fat_wf(h: Heap, v: Seq<FatHandle>) -> bool {
    forall|i: int| 0 <= i < v.len() ==> (#[trigger] v[i]).wf(h)
}

/// Every invocation through the fat-handle collection yields `expected`.
pub open spec fn all_fat_val(h: Heap, v: Seq<FatHandle>, expected: usize) -> bool {
    forall|i: int| 0 <= i < v.len() ==> (#[trigger] v[i]).val_spec(h) == expected
}

/// The product of two collection-sized counts fits the call counter.
proof fn lemma_calls_fit(a: int, b: int)
    requires
        0 <= a <= usize::MAX,
        0 <= b <= usize::MAX,
    ensures
        a * b <= u128::MAX,
{
    assert(usize::MAX <= 0xffff_ffff_ffff_ffffu64);
    lemma_mul_upper_bound(a, 0xffff_ffff_ffff_ffff, b, 0xffff_ffff_ffff_ffff);
    assert(0xffff_ffff_ffff_ffffint * 0xffff_ffff_ffff_ffffint <= u128::MAX) by (nonlinear_arith);
}

/// Build the fat-handle, independent-objects collection: `n` fresh values,
/// each in its own newly allocated one-word block, each paired with the
/// kind's dispatch-table reference in a fat handle of its own.
pub fn vec_normal<S: New>(h: &mut Heap, n: usize) -> (v: Vec<FatHandle>)
    requires
        old(h).wf(),
    ensures
        final(h).wf(),
        v@.len() == n as int,
        forall|i: int|
            0 <= i < n ==> final(h).live_block_at(
                old(h).records().len() + i,
                (#[trigger] v@[i]).data,
            ),
        forall|i: int| 0 <= i < n ==> (#[trigger] v@[i]).table == S::table_spec(),
        all_fat_wf(*final(h), v@),
        all_fat_val(*final(h), v@, S::sentinel()),
        final(h).records().len() == old(h).records().len() + n,
        final(h).live_count() == old(h).live_count() + n,
        forall|k: int|
            0 <= k < old(h).records().len() ==> final(h).records()[k] == old(h).records()[k],
{
    let ghost r0 = old(h).records().len() as int;
    let mut v: Vec<FatHandle> = Vec::with_capacity(n);
    let mut c: usize = 0;
    while c < n
        invariant
            c <= n,
            h.wf(),
            old(h).wf(),
            r0 == old(h).records().len(),
            v@.len() == c as int,
            h.records().len() == r0 + c,
            h.live_count() == old(h).live_count() + c,
            forall|k: int| 0 <= k < r0 ==> h.records()[k] == old(h).records()[k],
            forall|i: int| 0 <= i < c ==> h.live_block_at(r0 + i, (#[trigger] v@[i]).data),
            forall|i: int| 0 <= i < c ==> (#[trigger] v@[i]).table == S::table_spec(),
            forall|i: int|
                0 <= i < c ==> S::table_spec().invoke_spec(
                    h.words()[(#[trigger] v@[i]).data as int],
                ) == S::sentinel(),
        decreases n - c,
    {
        let s = S::new();
        let t = S::table();
        let w = s.to_word();
        let mut init: Vec<usize> = Vec::new();
        init.push(w);
        let ghost hpre = *h;
        let a = h.allocate(&init);
        v.push(FatHandle { data: a, table: t });
        proof {
            assert forall|i: int|
                0 <= i < c + 1 implies h.live_block_at(r0 + i, (#[trigger] v@[i]).data) by {
                if i < c {
                    assert(hpre.live_block_at(r0 + i, v@[i].data));
                    assert(h.records()[r0 + i] == hpre.records()[r0 + i]);
                }
            }
        }
        c += 1;
    }
    proof {
        assert forall|i: int| 0 <= i < v@.len() implies (#[trigger] v@[i]).wf(*h) by {
            assert(h.in_live_block(r0 + i, v@[i].data));
        }
    }
    v
}

/// Tear down an independent-objects collection: release each element's
/// allocation individually, exactly one release per element.
pub fn clean_vec_normal(h: &mut Heap, v: &Vec<FatHandle>)
    requires
        old(h).wf(),
        forall|i: int| 0 <= i < v@.len() ==> old(h).freeable((#[trigger] v@[i]).data),
        forall|i: int, j: int| 0 <= i < j < v@.len() ==> v@[i].data != v@[j].data,
    ensures
        final(h).wf(),
        final(h).words() == old(h).words(),
        final(h).records().len() == old(h).records().len(),
        final(h).live_count() == old(h).live_count() - v@.len(),
{
    let n = v.len();
    let mut i: usize = 0;
    while i < n
        invariant
            i <= n,
            n == v@.len(),
            h.wf(),
            h.words() == old(h).words(),
            h.records().len() == old(h).records().len(),
            h.live_count() == old(h).live_count() - i,
            forall|j: int, l: int| 0 <= j < l < v@.len() ==> v@[j].data != v@[l].data,
            forall|j: int| i <= j < n ==> h.freeable((#[trigger] v@[j]).data),
        decreases n - i,
    {
        let ghost hpre = *h;
        h.free(v[i].data);
        proof {
            assert forall|j: int| i + 1 <= j < n implies h.freeable((#[trigger] v@[j]).data) by {
                let k = choose|k: int| hpre.live_block_at(k, v@[j].data);
                assert(h.records()[k] == hpre.records()[k]);
                assert(h.live_block_at(k, v@[j].data));
            }
        }
        i += 1;
    }
}

/// One full pass over a fat-handle collection: invoke the capability on
/// every element in sequence order and check each answer against the
/// expected sentinel. Returns how many invocations were made and whether
/// every one answered `expected`.
pub fn pass_fat(h: &Heap, v: &Vec<FatHandle>, expected: usize) -> (r: (usize, bool))
    requires
        h.wf(),
        all_fat_wf(*h, v@),
    ensures
        r.0 == v@.len(),
        r.1 <==> all_fat_val(*h, v@, expected),
{
    let n = v.len();
    let mut ok = true;
    let mut i: usize = 0;
    while i < n
        invariant
            i <= n,
            n == v@.len(),
            h.wf(),
            all_fat_wf(*h, v@),
            ok <==> (forall|j: int| 0 <= j < i ==> (#[trigger] v@[j]).val_spec(*h) == expected),
        decreases n - i,
    {
        let got = v[i].val(h);
        if got != expected {
            ok = false;
        }
        i += 1;
    }
    (i, ok)
}

/// The timed operation: `iters` passes back-to-back over a fat-handle
/// collection whose every element dispatches to `expected`. Returns the
/// total number of capability invocations, exactly `iters` times the
/// collection's size; that every invocation answers `expected` is proved, so
/// the loop never times a wrong traversal.
pub fn run_passes_fat(h: &Heap, v: &Vec<FatHandle>, iters: usize, expected: usize) -> (calls: u128)
    requires
        h.wf(),
        all_fat_wf(*h, v@),
        all_fat_val(*h, v@, expected),
    ensures
        calls == iters * v@.len(),
{
    let n = v.len();
    proof {
        lemma_calls_fit(iters as int, n as int);
    }
    let mut calls: u128 = 0;
    let mut it: usize = 0;
    while it < iters
        invariant
            it <= iters,
            h.wf(),
            all_fat_wf(*h, v@),
            all_fat_val(*h, v@, expected),
            calls == it * v@.len(),
            iters * v@.len() <= u128::MAX,
        decreases iters - it,
    {
        let (c, ok) = pass_fat(h, v, expected);
        // the correctness gate: a traversal that answered a wrong sentinel
        // cannot happen
        assert(ok);
        proof {
            lemma_mul_upper_bound(it + 1, iters as int, v@.len() as int, v@.len() as int);
            assert((it + 1) * v@.len() == it * v@.len() + v@.len()) by (nonlinear_arith);
        }
        calls = calls + c as u128;
        it += 1;
    }
    calls
}

/// Fat handles, independent objects, the kind that never reads its field:
/// check the handle sizes, build, time `iters` passes, tear down. Fails,
/// with the heap untouched, exactly when the size check fails; otherwise
/// exactly `iters * vec_size` checked invocations are made and every
/// allocation the run made is released again.
pub fn bench_fat_no_read(h: &mut Heap, cfg: &Config) -> (r: Option<BenchReport>)
    requires
        old(h).wf(),
    ensures
        final(h).wf(),
        r is Some <==> handle_sizes_exact(),
        match r {
            Some(rep) => {
                &&& rep.calls == cfg.iters * cfg.vec_size
                &&& final(h).live_count() == old(h).live_count()
            },
            None => *final(h) == *old(h),
        },
{
    if !handle_sizes_ok() {
        return None;
    }
    let ghost r0 = h.records().len() as int;
    let v = vec_normal::<SNoRead>(h, cfg.vec_size);
    proof {
        fat_collection_freeable(*h, v@, r0);
    }
    let start = monotonic_now();
    let calls = run_passes_fat(h, &v, cfg.iters, VAL_NOREAD);
    let nanos = nanos_since(&start);
    clean_vec_normal(h, &v);
    Some(BenchReport { nanos: nanos, calls: calls })
}

/// Fat handles, independent objects, the kind that reads its field: as
/// `bench_fat_no_read`, but every invocation is checked against
/// `VAL_WITHREAD`.
pub fn bench_fat_with_read(h: &mut Heap, cfg: &Config) -> (r: Option<BenchReport>)
    requires
        old(h).wf(),
    ensures
        final(h).wf(),
        r is Some <==> handle_sizes_exact(),
        match r {
            Some(rep) => {
                &&& rep.calls == cfg.iters * cfg.vec_size
                &&& final(h).live_count() == old(h).live_count()
            },
            None => *final(h) == *old(h),
        },
{
    if !handle_sizes_ok() {
        return None;
    }
    let ghost r0 = h.records().len() as int;
    let v = vec_normal::<SWithRead>(h, cfg.vec_size);
    proof {
        fat_collection_freeable(*h, v@, r0);
    }
    let start = monotonic_now();
    let calls = run_passes_fat(h, &v, cfg.iters, VAL_WITHREAD);
    let nanos = nanos_since(&start);
    clean_vec_normal(h, &v);
    Some(BenchReport { nanos: nanos, calls: calls })
}

/// Build the fat-handle, shared-object collection: one fresh value in one
/// newly allocated block, and `n` copies of the one fat handle that
/// references it.
pub fn vec_multiref<S: New>(h: &mut Heap, n: usize) -> (v: Vec<FatHandle>)
    requires
        old(h).wf(),
    ensures
        final(h).wf(),
        v@.len() == n as int,
        final(h).records().len() == old(h).records().len() + 1,
        final(h).live_count() == old(h).live_count() + 1,
        forall|k: int|
            0 <= k < old(h).records().len() ==> final(h).records()[k] == old(h).records()[k],
        forall|i: int| 0 <= i < n ==> (#[trigger] v@[i]).data == old(h).words().len(),
        forall|i: int| 0 <= i < n ==> (#[trigger] v@[i]).table == S::table_spec(),
        final(h).live_block_at(old(h).records().len() as int, old(h).words().len() as usize),
        all_fat_wf(*final(h), v@),
        all_fat_val(*final(h), v@, S::sentinel()),
{
    let s = S::new();
    let t = S::table();
    let w = s.to_word();
    let mut init: Vec<usize> = Vec::new();
    init.push(w);
    let a = h.allocate(&init);
    let shared = FatHandle { data: a, table: t };
    let mut v: Vec<FatHandle> = Vec::with_capacity(n);
    let mut c: usize = 0;
    while c < n
        invariant
            c <= n,
            h.wf(),
            old(h).wf(),
            v@.len() == c as int,
            h.records().len() == old(h).records().len() + 1,
            h.live_count() == old(h).live_count() + 1,
            forall|k: int|
                0 <= k < old(h).records().len() ==> h.records()[k] == old(h).records()[k],
            shared.data == old(h).words().len(),
            shared.table == S::table_spec(),
            h.live_block_at(old(h).records().len() as int, shared.data),
            S::table_spec().invoke_spec(h.words()[shared.data as int]) == S::sentinel(),
            forall|i: int| 0 <= i < c ==> #[trigger] v@[i] == shared,
        decreases n - c,
    {
        v.push(shared);
        c += 1;
    }
    proof {
        assert forall|i: int| 0 <= i < v@.len() implies (#[trigger] v@[i]).wf(*h) by {
            assert(h.in_live_block(old(h).records().len() as int, v@[i].data));
        }
    }
    v
}

/// Tear down a shared-object collection: release the single backing
/// allocation exactly once, through the first handle. Every other handle
/// aliases the block that is now dead, so releasing one of them again is
/// ruled out by `Heap::free`'s precondition.
pub fn clean_vec_multiref(h: &mut Heap, v: &Vec<FatHandle>)
    requires
        old(h).wf(),
        v@.len() >= 1,
        old(h).freeable(v@[0].data),
    ensures
        final(h).wf(),
        Heap::freed_one(*old(h), *final(h), v@[0].data),
        final(h).live_count() == old(h).live_count() - 1,
{
    h.free(v[0].data);
}

/// Fat handles, one shared object, the kind that never reads its field:
/// check the handle sizes, build `vec_size` aliases of one allocation, time
/// `iters` passes, release the one allocation once.
pub fn bench_fat_multiref_no_read(h: &mut Heap, cfg: &Config) -> (r: Option<BenchReport>)
    requires
        old(h).wf(),
        cfg.vec_size >= 1,
    ensures
        final(h).wf(),
        r is Some <==> handle_sizes_exact(),
        match r {
            Some(rep) => {
                &&& rep.calls == cfg.iters * cfg.vec_size
                &&& final(h).live_count() == old(h).live_count()
            },
            None => *final(h) == *old(h),
        },
{
    if !handle_sizes_ok() {
        return None;
    }
    let v = vec_multiref::<SNoRead>(h, cfg.vec_size);
    let start = monotonic_now();
    let calls = run_passes_fat(h, &v, cfg.iters, VAL_NOREAD);
    let nanos = nanos_since(&start);
    clean_vec_multiref(h, &v);
    Some(BenchReport { nanos: nanos, calls: calls })
}

/// Fat handles, one shared object, the kind that reads its field: as
/// `bench_fat_multiref_no_read`, checked against `VAL_WITHREAD`.
pub fn bench_fat_multiref_with_read(h: &mut Heap, cfg: &Config) -> (r: Option<BenchReport>)
    requires
        old(h).wf(),
        cfg.vec_size >= 1,
    ensures
        final(h).wf(),
        r is Some <==> handle_sizes_exact(),
        match r {
            Some(rep) => {
                &&& rep.calls == cfg.iters * cfg.vec_size
                &&& final(h).live_count() == old(h).live_count()
            },
            None => *final(h) == *old(h),
        },
{
    if !handle_sizes_ok() {
        return None;
    }
    let v = vec_multiref::<SWithRead>(h, cfg.vec_size);
    let start = monotonic_now();
    let calls = run_passes_fat(h, &v, cfg.iters, VAL_WITHREAD);
    let nanos = nanos_since(&start);
    clean_vec_multiref(h, &v);
    Some(BenchReport { nanos: nanos, calls: calls })
}

/// Every thin handle of the collection points at a live table-prefixed
/// block.
pub open spec fn all_thin_wf(h: Heap, v: Seq<ThinHandle>) -> bool {
    forall|i: int| 0 <= i < v.len() ==> (#[trigger] v[i]).wf(h)
}

/// Every invocation through the thin-handle collection yields `expected`.
pub open spec fn all_thin_val(h: Heap, v: Seq<ThinHandle>, expected: usize) -> bool {
    forall|i: int| 0 <= i < v.len() ==> (#[trigger] v[i]).val_spec(h) == expected
}

/// Build the table-prefixed, independent-objects collection: extract the
/// kind's dispatch-table reference once from a transient instance, check the
/// handle sizes and the table-prefixed block layout, then give each of `n`
/// fresh values its own two-word block — the encoded table reference, then
/// the value's data — and record a thin handle to each block. Fails, with
/// the heap untouched, exactly when a setup check fails.
pub fn vec_vtable<S: New>(h: &mut Heap, n: usize) -> (r: Option<Vec<ThinHandle>>)
    requires
        old(h).wf(),
    ensures
        final(h).wf(),
        r is Some <==> (handle_sizes_exact() && table_prefix_exact::<S>()),
        match r {
            Some(v) => {
                &&& v@.len() == n as int
                &&& forall|i: int|
                    0 <= i < n ==> final(h).live_block_at(
                        old(h).records().len() + i,
                        (#[trigger] v@[i]).addr,
                    )
                &&& all_thin_wf(*final(h), v@)
                &&& forall|i: int|
                    0 <= i < n ==> (#[trigger] v@[i]).table_spec(*final(h)) == S::table_spec()
                &&& all_thin_val(*final(h), v@, S::sentinel())
                &&& final(h).records().len() == old(h).records().len() + n
                &&& final(h).live_count() == old(h).live_count() + n
                &&& forall|k: int|
                    0 <= k < old(h).records().len() ==> final(h).records()[k] == old(h).records()[k]
            },
            None => *final(h) == *old(h),
        },
{
    // the transient instance exists solely for the table extraction; the
    // table is a property of the type, so it serves every element below
    let _transient = S::new();
    let t = S::table();
    let tw = t.encode();
    if !handle_sizes_ok() {
        return None;
    }
    match table_prefixed_layout::<S>() {
        Some(_) => {},
        None => {
            return None;
        },
    }
    let ghost r0 = old(h).records().len() as int;
    let mut v: Vec<ThinHandle> = Vec::with_capacity(n);
    let mut c: usize = 0;
    while c < n
        invariant
            c <= n,
            h.wf(),
            old(h).wf(),
            r0 == old(h).records().len(),
            v@.len() == c as int,
            tw == S::table_spec().encode_spec(),
            h.records().len() == r0 + c,
            h.live_count() == old(h).live_count() + c,
            forall|k: int| 0 <= k < r0 ==> h.records()[k] == old(h).records()[k],
            forall|i: int| 0 <= i < c ==> h.live_block_at(r0 + i, (#[trigger] v@[i]).addr),
            forall|i: int| 0 <= i < c ==> (#[trigger] h.records()[r0 + i]).len == 2,
            forall|i: int|
                0 <= i < c ==> h.words()[(#[trigger] v@[i]).addr as int]
                    == S::table_spec().encode_spec(),
            forall|i: int|
                0 <= i < c ==> S::table_spec().invoke_spec(
                    h.words()[(#[trigger] v@[i]).addr + 1],
                ) == S::sentinel(),
        decreases n - c,
    {
        let s = S::new();
        let w = s.to_word();
        let mut init: Vec<usize> = Vec::new();
        init.push(tw);
        init.push(w);
        let ghost hpre = *h;
        let a = h.allocate(&init);
        v.push(ThinHandle { addr: a });
        proof {
            assert forall|i: int|
                0 <= i < c + 1 implies h.live_block_at(r0 + i, (#[trigger] v@[i]).addr) by {
                if i < c {
                    assert(hpre.live_block_at(r0 + i, v@[i].addr));
                    assert(h.records()[r0 + i] == hpre.records()[r0 + i]);
                }
            }
            assert forall|i: int|
                0 <= i < c + 1 implies h.words()[(#[trigger] v@[i]).addr as int]
                    == S::table_spec().encode_spec() && S::table_spec().invoke_spec(
                    h.words()[(#[trigger] v@[i]).addr + 1],
                ) == S::sentinel() by {
                if i < c {
                    assert(hpre.live_block_at(r0 + i, v@[i].addr));
                    assert(hpre.records()[r0 + i].addr + hpre.records()[r0 + i].len
                        <= hpre.words().len());
                }
            }
        }
        c += 1;
    }
    proof {
        assert forall|i: int| 0 <= i < v@.len() implies (#[trigger] v@[i]).wf(*h) by {
            assert(h.in_live_block(r0 + i, v@[i].addr));
            assert(h.in_live_block(r0 + i, (v@[i].addr + 1) as usize));
            assert(VTable::decode_spec(h.words()[v@[i].addr as int]) == Some(S::table_spec()));
        }
        assert forall|i: int|
            0 <= i < v@.len() implies (#[trigger] v@[i]).table_spec(*h) == S::table_spec()
            && v@[i].val_spec(*h) == S::sentinel() by {
            assert(VTable::decode_spec(h.words()[v@[i].addr as int]) == Some(S::table_spec()));
        }
    }
    Some(v)
}

/// Tear down a table-prefixed independent-objects collection: release each
/// element's block individually, exactly one release per element.
pub fn clean_vec_vtable(h: &mut Heap, v: &Vec<ThinHandle>)
    requires
        old(h).wf(),
        forall|i: int| 0 <= i < v@.len() ==> old(h).freeable((#[trigger] v@[i]).addr),
        forall|i: int, j: int| 0 <= i < j < v@.len() ==> v@[i].addr != v@[j].addr,
    ensures
        final(h).wf(),
        final(h).words() == old(h).words(),
        final(h).records().len() == old(h).records().len(),
        final(h).live_count() == old(h).live_count() - v@.len(),
{
    let n = v.len();
    let mut i: usize = 0;
    while i < n
        invariant
            i <= n,
            n == v@.len(),
            h.wf(),
            h.words() == old(h).words(),
            h.records().len() == old(h).records().len(),
            h.live_count() == old(h).live_count() - i,
            forall|j: int, l: int| 0 <= j < l < v@.len() ==> v@[j].addr != v@[l].addr,
            forall|j: int| i <= j < n ==> h.freeable((#[trigger] v@[j]).addr),
        decreases n - i,
    {
        let ghost hpre = *h;
        h.free(v[i].addr);
        proof {
            assert forall|j: int| i + 1 <= j < n implies h.freeable((#[trigger] v@[j]).addr) by {
                let k = choose|k: int| hpre.live_block_at(k, v@[j].addr);
                assert(h.records()[k] == hpre.records()[k]);
                assert(h.live_block_at(k, v@[j].addr));
            }
        }
        i += 1;
    }
}

/// One full pass over a thin-handle collection: at each element, read the
/// block's first word back into a table reference, rebuild the two-word
/// handle, invoke the capability through it, and check the answer against
/// the expected sentinel. Returns how many invocations were made and
/// whether every one answered `expected`.
pub fn pass_thin(h: &Heap, v: &Vec<ThinHandle>, expected: usize) -> (r: (usize, bool))
    requires
        h.wf(),
        all_thin_wf(*h, v@),
    ensures
        r.0 == v@.len(),
        r.1 <==> all_thin_val(*h, v@, expected),
{
    let n = v.len();
    let mut ok = true;
    let mut i: usize = 0;
    while i < n
        invariant
            i <= n,
            n == v@.len(),
            h.wf(),
            all_thin_wf(*h, v@),
            ok <==> (forall|j: int| 0 <= j < i ==> (#[trigger] v@[j]).val_spec(*h) == expected),
        decreases n - i,
    {
        let f = v[i].reconstruct_fat(h);
        let got = f.val(h);
        if got != expected {
            ok = false;
        }
        i += 1;
    }
    (i, ok)
}

/// The timed operation for thin handles: `iters` passes back-to-back, each
/// reconstructing the fat handle at every element. Returns the total
/// invocation count, exactly `iters` times the collection's size.
pub fn run_passes_thin(h: &Heap, v: &Vec<ThinHandle>, iters: usize, expected: usize) -> (calls:
    u128)
    requires
        h.wf(),
        all_thin_wf(*h, v@),
        all_thin_val(*h, v@, expected),
    ensures
        calls == iters * v@.len(),
{
    let n = v.len();
    proof {
        lemma_calls_fit(iters as int, n as int);
    }
    let mut calls: u128 = 0;
    let mut it: usize = 0;
    while it < iters
        invariant
            it <= iters,
            h.wf(),
            all_thin_wf(*h, v@),
            all_thin_val(*h, v@, expected),
            calls == it * v@.len(),
            iters * v@.len() <= u128::MAX,
        decreases iters - it,
    {
        let (c, ok) = pass_thin(h, v, expected);
        // the correctness gate, discharged statically
        assert(ok);
        proof {
            lemma_mul_upper_bound(it + 1, iters as int, v@.len() as int, v@.len() as int);
            assert((it + 1) * v@.len() == it * v@.len() + v@.len()) by (nonlinear_arith);
        }
        calls = calls + c as u128;
        it += 1;
    }
    calls
}

/// A collection whose element `i` owns the live block recorded at `r0 + i`
/// meets the independent-objects teardown precondition: every element is
/// freeable and no two elements share an allocation.
proof fn fat_collection_freeable(h: Heap, v: Seq<FatHandle>, r0: int)
    requires
        h.wf(),
        0 <= r0,
        r0 + v.len() <= h.records().len(),
        forall|i: int| 0 <= i < v.len() ==> h.live_block_at(r0 + i, (#[trigger] v[i]).data),
    ensures
        forall|i: int| 0 <= i < v.len() ==> h.freeable((#[trigger] v[i]).data),
        forall|i: int, j: int| 0 <= i < j < v.len() ==> v[i].data != v[j].data,
{
    assert forall|i: int| 0 <= i < v.len() implies h.freeable((#[trigger] v[i]).data) by {
        assert(h.live_block_at(r0 + i, v[i].data));
    }
    assert forall|i: int, j: int| 0 <= i < j < v.len() implies v[i].data != v[j].data by {
        lemma_records_distinct(h, r0 + i, r0 + j);
        assert(h.live_block_at(r0 + i, v[i].data));
        assert(h.live_block_at(r0 + j, v[j].data));
    }
}

/// As `fat_collection_freeable`, for a thin-handle collection.
proof fn thin_collection_freeable(h: Heap, v: Seq<ThinHandle>, r0: int)
    requires
        h.wf(),
        0 <= r0,
        r0 + v.len() <= h.records().len(),
        forall|i: int| 0 <= i < v.len() ==> h.live_block_at(r0 + i, (#[trigger] v[i]).addr),
    ensures
        forall|i: int| 0 <= i < v.len() ==> h.freeable((#[trigger] v[i]).addr),
        forall|i: int, j: int| 0 <= i < j < v.len() ==> v[i].addr != v[j].addr,
{
    assert forall|i: int| 0 <= i < v.len() implies h.freeable((#[trigger] v[i]).addr) by {
        assert(h.live_block_at(r0 + i, v[i].addr));
    }
    assert forall|i: int, j: int| 0 <= i < j < v.len() implies v[i].addr != v[j].addr by {
        lemma_records_distinct(h, r0 + i, r0 + j);
        assert(h.live_block_at(r0 + i, v[i].addr));
        assert(h.live_block_at(r0 + j, v[j].addr));
    }
}

/// Table-prefixed blocks, independent objects, the kind that never reads
/// its field: build (checking handle sizes and the block layout), time
/// `iters` passes that each rebuild the fat handle at every element, then
/// release each block individually.
pub fn bench_innervtable_no_read(h: &mut Heap, cfg: &Config) -> (r: Option<BenchReport>)
    requires
        old(h).wf(),
    ensures
        final(h).wf(),
        r is Some <==> (handle_sizes_exact() && table_prefix_exact::<SNoRead>()),
        match r {
            Some(rep) => {
                &&& rep.calls == cfg.iters * cfg.vec_size
                &&& final(h).live_count() == old(h).live_count()
            },
            None => *final(h) == *old(h),
        },
{
    let ghost r0 = h.records().len() as int;
    let v = match vec_vtable::<SNoRead>(h, cfg.vec_size) {
        Some(v) => v,
        None => {
            return None;
        },
    };
    proof {
        thin_collection_freeable(*h, v@, r0);
    }
    let start = monotonic_now();
    let calls = run_passes_thin(h, &v, cfg.iters, VAL_NOREAD);
    let nanos = nanos_since(&start);
    clean_vec_vtable(h, &v);
    Some(BenchReport { nanos: nanos, calls: calls })
}

/// Table-prefixed blocks, independent objects, the kind that reads its
/// field: as `bench_innervtable_no_read`, checked against `VAL_WITHREAD`.
pub fn bench_innervtable_with_read(h: &mut Heap, cfg: &Config) -> (r: Option<BenchReport>)
    requires
        old(h).wf(),
    ensures
        final(h).wf(),
        r is Some <==> (handle_sizes_exact() && table_prefix_exact::<SWithRead>()),
        match r {
            Some(rep) => {
                &&& rep.calls == cfg.iters * cfg.vec_size
                &&& final(h).live_count() == old(h).live_count()
            },
            None => *final(h) == *old(h),
        },
{
    let ghost r0 = h.records().len() as int;
    let v = match vec_vtable::<SWithRead>(h, cfg.vec_size) {
        Some(v) => v,
        None => {
            return None;
        },
    };
    proof {
        thin_collection_freeable(*h, v@, r0);
    }
    let start = monotonic_now();
    let calls = run_passes_thin(h, &v, cfg.iters, VAL_WITHREAD);
    let nanos = nanos_since(&start);
    clean_vec_vtable(h, &v);
    Some(BenchReport { nanos: nanos, calls: calls })
}

/// Build the table-prefixed, shared-object collection: one two-word block —
/// encoded table reference, then the one value's data — and `n` copies of
/// the thin handle pointing at it. Fails, with the heap untouched, exactly
/// when the layout check fails.
pub fn vec_multiref_vtable<S: New>(h: &mut Heap, n: usize) -> (r: Option<Vec<ThinHandle>>)
    requires
        old(h).wf(),
    ensures
        final(h).wf(),
        r is Some <==> table_prefix_exact::<S>(),
        match r {
            Some(v) => {
                &&& v@.len() == n as int
                &&& final(h).records().len() == old(h).records().len() + 1
                &&& final(h).live_count() == old(h).live_count() + 1
                &&& forall|k: int|
                    0 <= k < old(h).records().len() ==> final(h).records()[k] == old(h).records()[k]
                &&& forall|i: int|
                    0 <= i < n ==> (#[trigger] v@[i]).addr == old(h).words().len()
                &&& final(h).live_block_at(
                    old(h).records().len() as int,
                    old(h).words().len() as usize,
                )
                &&& all_thin_wf(*final(h), v@)
                &&& all_thin_val(*final(h), v@, S::sentinel())
            },
            None => *final(h) == *old(h),
        },
{
    let _transient = S::new();
    let t = S::table();
    let tw = t.encode();
    match table_prefixed_layout::<S>() {
        Some(_) => {},
        None => {
            return None;
        },
    }
    let s = S::new();
    let w = s.to_word();
    let mut init: Vec<usize> = Vec::new();
    init.push(tw);
    init.push(w);
    let a = h.allocate(&init);
    let shared = ThinHandle { addr: a };
    let mut v: Vec<ThinHandle> = Vec::with_capacity(n);
    let mut c: usize = 0;
    while c < n
        invariant
            c <= n,
            h.wf(),
            old(h).wf(),
            v@.len() == c as int,
            h.records().len() == old(h).records().len() + 1,
            h.live_count() == old(h).live_count() + 1,
            forall|k: int|
                0 <= k < old(h).records().len() ==> h.records()[k] == old(h).records()[k],
            shared.addr == old(h).words().len(),
            h.live_block_at(old(h).records().len() as int, shared.addr),
            h.records()[old(h).records().len() as int].len == 2,
            h.words()[shared.addr as int] == S::table_spec().encode_spec(),
            S::table_spec().invoke_spec(h.words()[shared.addr + 1]) == S::sentinel(),
            forall|i: int| 0 <= i < c ==> #[trigger] v@[i] == shared,
        decreases n - c,
    {
        v.push(shared);
        c += 1;
    }
    proof {
        let k0 = old(h).records().len() as int;
        assert forall|i: int|
            0 <= i < v@.len() implies (#[trigger] v@[i]).wf(*h) && v@[i].val_spec(*h)
            == S::sentinel() by {
            assert(h.in_live_block(k0, v@[i].addr));
            assert(h.in_live_block(k0, (v@[i].addr + 1) as usize));
            assert(VTable::decode_spec(h.words()[v@[i].addr as int]) == Some(S::table_spec()));
        }
    }
    Some(v)
}

/// Tear down a table-prefixed shared-object collection: release the single
/// backing block exactly once, through the first handle.
pub fn clean_multiref_table(h: &mut Heap, v: &Vec<ThinHandle>)
    requires
        old(h).wf(),
        v@.len() >= 1,
        old(h).freeable(v@[0].addr),
    ensures
        final(h).wf(),
        Heap::freed_one(*old(h), *final(h), v@[0].addr),
        final(h).live_count() == old(h).live_count() - 1,
{
    h.free(v[0].addr);
}

/// Table-prefixed blocks, one shared object, the kind that never reads its
/// field: build one block and `vec_size` aliasing thin handles, time
/// `iters` passes, release the one block once.
pub fn bench_innervtable_multiref_no_read(h: &mut Heap, cfg: &Config) -> (r: Option<BenchReport>)
    requires
        old(h).wf(),
        cfg.vec_size >= 1,
    ensures
        final(h).wf(),
        r is Some <==> table_prefix_exact::<SNoRead>(),
        match r {
            Some(rep) => {
                &&& rep.calls == cfg.iters * cfg.vec_size
                &&& final(h).live_count() == old(h).live_count()
            },
            None => *final(h) == *old(h),
        },
{
    let v = match vec_multiref_vtable::<SNoRead>(h, cfg.vec_size) {
        Some(v) => v,
        None => {
            return None;
        },
    };
    let start = monotonic_now();
    let calls = run_passes_thin(h, &v, cfg.iters, VAL_NOREAD);
    let nanos = nanos_since(&start);
    clean_multiref_table(h, &v);
    Some(BenchReport { nanos: nanos, calls: calls })
}

/// Table-prefixed blocks, one shared object, the kind that reads its field:
/// as `bench_innervtable_multiref_no_read`, checked against `VAL_WITHREAD`.
pub fn bench_innervtable_multiref_with_read(h: &mut Heap, cfg: &Config) -> (r: Option<
    BenchReport,
>)
    requires
        old(h).wf(),
        cfg.vec_size >= 1,
    ensures
        final(h).wf(),
        r is Some <==> table_prefix_exact::<SWithRead>(),
        match r {
            Some(rep) => {
                &&& rep.calls == cfg.iters * cfg.vec_size
                &&& final(h).live_count() == old(h).live_count()
            },
            None => *final(h) == *old(h),
        },
{
    let v = match vec_multiref_vtable::<SWithRead>(h, cfg.vec_size) {
        Some(v) => v,
        None => {
            return None;
        },
    };
    let start = monotonic_now();
    let calls = run_passes_thin(h, &v, cfg.iters, VAL_WITHREAD);
    let nanos = nanos_since(&start);
    clean_multiref_table(h, &v);
    Some(BenchReport { nanos: nanos, calls: calls })
}

} // verus!
