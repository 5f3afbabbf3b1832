use server_info::cadence::{
    Cycles, PollRate, CYCLES_PER_SECOND, DEFAULT_RATE_MILLI, MAX_CYCLES, MAX_RATE_MILLI,
    MIN_RATE_MILLI,
};

#[test]
fn rate_is_kept_within_its_bounds() {
    assert_eq!(PollRate::new(0).milli(), MIN_RATE_MILLI);
    assert_eq!(PollRate::new(99).milli(), 100);
    assert_eq!(PollRate::new(100).milli(), 100);
    assert_eq!(PollRate::new(1234).milli(), 1234);
    assert_eq!(PollRate::new(2000).milli(), 2000);
    assert_eq!(PollRate::new(2001).milli(), MAX_RATE_MILLI);
    assert_eq!(PollRate::new(u32::MAX).milli(), 2000);
    assert_eq!(PollRate::default().milli(), DEFAULT_RATE_MILLI);
    assert_eq!(CYCLES_PER_SECOND, 60);
}

#[test]
fn read_is_due_after_more_cycles_than_an_update_takes() {
    // Half an update per second: one update takes 120 cycles.
    let rate = PollRate::new(500);
    assert!(!rate.is_due(0));
    assert!(!rate.is_due(120));
    assert!(rate.is_due(121));
    // Two updates per second: 30 cycles.
    let rate = PollRate::new(2000);
    assert!(!rate.is_due(30));
    assert!(rate.is_due(31));
    // A tenth of an update per second: 600 cycles.
    let rate = PollRate::new(100);
    assert!(!rate.is_due(600));
    assert!(rate.is_due(601));
    assert!(rate.is_due(u32::MAX));
    // 0.7 updates per second: 85.71 cycles.
    let rate = PollRate::new(700);
    assert!(!rate.is_due(85));
    assert!(rate.is_due(86));
}

#[test]
fn due_agrees_with_the_division() {
    for milli in [100u32, 101, 333, 500, 999, 1000, 1500, 2000] {
        let rate = PollRate::new(milli);
        for cycles in 0u32..700 {
            let expected = (cycles as f64) > 60.0 / (milli as f64 / 1000.0);
            assert_eq!(rate.is_due(cycles), expected, "{} cycles at {}", cycles, milli);
        }
    }
}

#[test]
fn cycles_start_again_after_a_read_was_due() {
    let rate = PollRate::new(2000);
    let mut cycles = Cycles::new();
    assert_eq!(cycles.count(), 0);
    let mut reads = 0;
    for tick in 1..=93 {
        if cycles.advance(rate) {
            reads += 1;
            assert_eq!(cycles.count(), 1);
            assert!(tick == 32 || tick == 63, "read at tick {}", tick);
        }
    }
    assert_eq!(reads, 2);
    assert_eq!(cycles.count(), 31);
}

#[test]
fn cycles_never_pass_their_bound() {
    let slow = PollRate::new(100);
    let mut cycles = Cycles::new();
    for _ in 0..5000 {
        cycles.advance(slow);
        assert!(cycles.count() >= 1 && cycles.count() <= MAX_CYCLES);
    }
}
