use vtable_bench::sched::Sched;

#[test]
fn two_benchmarks_four_reps_runs_eight_times() {
    let mut s = Sched::new(2, 4);
    let mut runs: usize = 0;
    let mut draw: usize = 17;
    while let Some(i) = s.pick(draw) {
        // the scheduler never hands out a completed series
        assert!(s.count_of(i) < 4);
        s.record(i);
        runs += 1;
        // during the whole run no series exceeds the target
        assert!(s.count_of(0) <= 4);
        assert!(s.count_of(1) <= 4);
        draw = draw.wrapping_mul(31).wrapping_add(7);
    }
    assert_eq!(runs, 8);
    assert_eq!(s.count_of(0), 4);
    assert_eq!(s.count_of(1), 4);
    assert!(s.is_done());
    assert_eq!(s.pick(0), None);
}

#[test]
fn fresh_scheduler_starts_empty() {
    let s = Sched::new(3, 5);
    assert_eq!(s.num_benchmarks(), 3);
    assert_eq!(s.count_of(0), 0);
    assert_eq!(s.count_of(1), 0);
    assert_eq!(s.count_of(2), 0);
    assert!(!s.is_done());
}

#[test]
fn zero_benchmarks_is_immediately_done() {
    let s = Sched::new(0, 30);
    assert!(s.is_done());
    assert_eq!(s.pick(42), None);
}

#[test]
fn zero_reps_is_immediately_done() {
    let s = Sched::new(4, 0);
    assert!(s.is_done());
    assert_eq!(s.pick(3), None);
}

#[test]
fn pick_skips_completed_series() {
    let mut s = Sched::new(3, 1);
    // complete the middle series first
    s.record(1);
    for draw in 0..10 {
        match s.pick(draw) {
            Some(i) => assert_ne!(i, 1),
            None => panic!("incomplete series remain"),
        }
    }
    s.record(0);
    s.record(2);
    assert!(s.is_done());
    assert_eq!(s.pick(5), None);
}
