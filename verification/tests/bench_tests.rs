use vtable_bench::bench::bench_fat_multiref_no_read;
use vtable_bench::bench::bench_fat_multiref_with_read;
use vtable_bench::bench::bench_fat_no_read;
use vtable_bench::bench::bench_fat_with_read;
use vtable_bench::bench::bench_innervtable_multiref_no_read;
use vtable_bench::bench::bench_innervtable_multiref_with_read;
use vtable_bench::bench::bench_innervtable_no_read;
use vtable_bench::bench::bench_innervtable_with_read;
use vtable_bench::bench::pass_fat;
use vtable_bench::bench::pass_thin;
use vtable_bench::bench::vec_multiref;
use vtable_bench::bench::vec_normal;
use vtable_bench::bench::vec_vtable;
use vtable_bench::bench::Config;
use vtable_bench::heap::Heap;
use vtable_bench::values::SNoRead;
use vtable_bench::values::SWithRead;
use vtable_bench::values::VAL_NOREAD;
use vtable_bench::values::VAL_WITHREAD;

#[test]
fn fat_no_read_end_to_end() {
    let mut h = Heap::new();
    let cfg = Config {
        iters: 1,
        vec_size: 5,
    };
    let rep = bench_fat_no_read(&mut h, &cfg).unwrap();
    assert_eq!(rep.calls, 5);
}

#[test]
fn fat_with_read_end_to_end() {
    let mut h = Heap::new();
    let cfg = Config {
        iters: 1,
        vec_size: 5,
    };
    let rep = bench_fat_with_read(&mut h, &cfg).unwrap();
    assert_eq!(rep.calls, 5);
}

#[test]
fn every_strategy_makes_iters_times_size_calls() {
    let cfg = Config {
        iters: 3,
        vec_size: 4,
    };
    let mut h = Heap::new();
    assert_eq!(bench_fat_no_read(&mut h, &cfg).unwrap().calls, 12);
    let mut h = Heap::new();
    assert_eq!(bench_fat_with_read(&mut h, &cfg).unwrap().calls, 12);
    let mut h = Heap::new();
    assert_eq!(bench_fat_multiref_no_read(&mut h, &cfg).unwrap().calls, 12);
    let mut h = Heap::new();
    assert_eq!(bench_fat_multiref_with_read(&mut h, &cfg).unwrap().calls, 12);
    let mut h = Heap::new();
    assert_eq!(bench_innervtable_no_read(&mut h, &cfg).unwrap().calls, 12);
    let mut h = Heap::new();
    assert_eq!(bench_innervtable_with_read(&mut h, &cfg).unwrap().calls, 12);
    let mut h = Heap::new();
    assert_eq!(
        bench_innervtable_multiref_no_read(&mut h, &cfg).unwrap().calls,
        12
    );
    let mut h = Heap::new();
    assert_eq!(
        bench_innervtable_multiref_with_read(&mut h, &cfg)
            .unwrap()
            .calls,
        12
    );
}

#[test]
fn empty_collection_makes_no_calls() {
    let cfg = Config {
        iters: 10,
        vec_size: 0,
    };
    let mut h = Heap::new();
    assert_eq!(bench_fat_no_read(&mut h, &cfg).unwrap().calls, 0);
    let mut h = Heap::new();
    assert_eq!(bench_innervtable_no_read(&mut h, &cfg).unwrap().calls, 0);
}

#[test]
fn zero_iterations_make_no_calls() {
    let cfg = Config {
        iters: 0,
        vec_size: 7,
    };
    let mut h = Heap::new();
    assert_eq!(bench_fat_multiref_no_read(&mut h, &cfg).unwrap().calls, 0);
}

#[test]
fn fat_pass_checks_every_element() {
    let mut h = Heap::new();
    let v = vec_normal::<SNoRead>(&mut h, 5);
    let (calls, ok) = pass_fat(&h, &v, VAL_NOREAD);
    assert_eq!(calls, 5);
    assert!(ok);
    // checking against the other kind's sentinel must fail every element
    let (calls, ok) = pass_fat(&h, &v, VAL_WITHREAD);
    assert_eq!(calls, 5);
    assert!(!ok);
}

#[test]
fn shared_pass_checks_every_element() {
    let mut h = Heap::new();
    let v = vec_multiref::<SWithRead>(&mut h, 6);
    let (calls, ok) = pass_fat(&h, &v, VAL_WITHREAD);
    assert_eq!(calls, 6);
    assert!(ok);
    let (calls, ok) = pass_fat(&h, &v, VAL_NOREAD);
    assert_eq!(calls, 6);
    assert!(!ok);
}

#[test]
fn thin_pass_checks_every_element() {
    let mut h = Heap::new();
    let v = vec_vtable::<SWithRead>(&mut h, 5).unwrap();
    let (calls, ok) = pass_thin(&h, &v, VAL_WITHREAD);
    assert_eq!(calls, 5);
    assert!(ok);
    let (calls, ok) = pass_thin(&h, &v, VAL_NOREAD);
    assert_eq!(calls, 5);
    assert!(!ok);
}
