use vtable_bench::handles::handle_sizes_ok;
use vtable_bench::handles::FatHandle;
use vtable_bench::handles::ThinHandle;
use vtable_bench::heap::Heap;
use vtable_bench::layouts::extend_layout;
use vtable_bench::layouts::round_up;
use vtable_bench::layouts::table_prefixed_layout;
use vtable_bench::layouts::LayoutDesc;
use vtable_bench::values::SNoRead;
use vtable_bench::values::SWithRead;
use vtable_bench::values::VTable;

#[test]
fn thin_handle_is_one_word_fat_handle_is_two() {
    assert!(handle_sizes_ok());
    assert_eq!(
        std::mem::size_of::<ThinHandle>(),
        std::mem::size_of::<usize>()
    );
    assert_eq!(
        std::mem::size_of::<FatHandle>(),
        2 * std::mem::size_of::<usize>()
    );
}

#[test]
fn round_up_matches_the_formula() {
    assert_eq!(round_up(0, 8), Some(0));
    assert_eq!(round_up(3, 4), Some(4));
    assert_eq!(round_up(8, 8), Some(8));
    assert_eq!(round_up(9, 8), Some(16));
    assert_eq!(round_up(usize::MAX, 2), None);
}

#[test]
fn extend_layout_places_the_second_value_after_padding() {
    let a = LayoutDesc { size: 3, align: 1 };
    let b = LayoutDesc { size: 5, align: 4 };
    let (l, off) = extend_layout(a, b).unwrap();
    assert_eq!(off, 4);
    assert_eq!(l.size, 9);
    assert_eq!(l.align, 4);
}

#[test]
fn extend_layout_word_after_word_has_no_padding() {
    let w = std::mem::size_of::<usize>();
    let word = LayoutDesc { size: w, align: w };
    let (l, off) = extend_layout(word, word).unwrap();
    assert_eq!(off, w);
    assert_eq!(l.size, w + w);
    assert_eq!(l.align, w);
}

#[test]
fn table_prefixed_layout_is_one_word_plus_value() {
    let w = std::mem::size_of::<usize>();
    let l = table_prefixed_layout::<SNoRead>().unwrap();
    assert_eq!(l.size, w + std::mem::size_of::<SNoRead>());
    let l = table_prefixed_layout::<SWithRead>().unwrap();
    assert_eq!(l.size, w + std::mem::size_of::<SWithRead>());
}

#[test]
fn heap_reads_back_what_was_allocated() {
    let mut h = Heap::new();
    let a = h.allocate(&vec![7, 9]);
    let b = h.allocate(&vec![11]);
    assert_eq!(h.read(a), 7);
    assert_eq!(h.read(a + 1), 9);
    assert_eq!(h.read(b), 11);
    h.free(a);
    assert_eq!(h.read(b), 11);
    h.free(b);
}

#[test]
fn thin_handle_reconstructs_the_fat_handle() {
    let mut h = Heap::new();
    let t = VTable::WithRead;
    let a = h.allocate(&vec![t.encode(), 4242]);
    let thin = ThinHandle { addr: a };
    let fat = thin.reconstruct_fat(&h);
    assert_eq!(fat.table, t);
    assert_eq!(fat.data, a + 1);
    assert_eq!(fat.val(&h), 4242);
}

#[test]
fn fat_handle_dispatches_through_its_table() {
    let mut h = Heap::new();
    let a = h.allocate(&vec![500]);
    let no_read = FatHandle {
        data: a,
        table: VTable::NoRead,
    };
    let with_read = FatHandle {
        data: a,
        table: VTable::WithRead,
    };
    assert_eq!(no_read.val(&h), 0xdeadbeef);
    assert_eq!(with_read.val(&h), 500);
    h.free(a);
}
