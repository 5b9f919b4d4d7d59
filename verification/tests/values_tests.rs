use vtable_bench::values::GetVal;
use vtable_bench::values::New;
use vtable_bench::values::SNoRead;
use vtable_bench::values::SWithRead;
use vtable_bench::values::VTable;
use vtable_bench::values::VAL_NOREAD;
use vtable_bench::values::VAL_WITHREAD;

#[test]
fn sentinels_have_expected_values() {
    assert_eq!(VAL_NOREAD, 0xdeadbeef);
    assert_eq!(VAL_WITHREAD, 0xFEEDC0DE);
    assert_ne!(VAL_NOREAD, VAL_WITHREAD);
}

#[test]
fn noread_val_returns_its_sentinel() {
    let s = SNoRead::new();
    assert_eq!(s.val(), 0xdeadbeef);
}

#[test]
fn withread_val_returns_its_sentinel() {
    let s = SWithRead::new();
    assert_eq!(s.val(), 0xFEEDC0DE);
}

#[test]
fn repeated_construction_is_position_independent() {
    for _ in 0..10 {
        assert_eq!(SNoRead::new().val(), VAL_NOREAD);
        assert_eq!(SWithRead::new().val(), VAL_WITHREAD);
    }
}

#[test]
fn tables_dispatch_like_their_kinds() {
    // the no-read table ignores the payload word
    assert_eq!(VTable::NoRead.invoke(12345), VAL_NOREAD);
    // the with-read table answers the payload word
    assert_eq!(VTable::WithRead.invoke(12345), 12345);
}

#[test]
fn table_words_round_trip() {
    let tn = SNoRead::table();
    let tw = SWithRead::table();
    assert_eq!(VTable::decode(tn.encode()), Some(tn));
    assert_eq!(VTable::decode(tw.encode()), Some(tw));
    assert_ne!(tn.encode(), tw.encode());
    assert_eq!(VTable::decode(7), None);
}

#[test]
fn to_word_carries_the_stored_payload() {
    assert_eq!(SNoRead::new().to_word(), VAL_NOREAD);
    assert_eq!(SWithRead::new().to_word(), VAL_WITHREAD);
}
