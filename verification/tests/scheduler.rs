use crawler::scheduler::{Batch, BatchState, MEANINGFUL_SIZE};

fn batch(state: BatchState, size: usize) -> Batch {
    Batch { state, size }
}

#[test]
fn scheduler_starts_with_one_worker() {
    let batch = Batch::new();
    assert_eq!(batch.state, BatchState::Incrementing);
    assert_eq!(batch.size, 1);
}

#[test]
fn unhealthy_wave_above_eight_halves_the_size() {
    // 3 of 10 failed: 30% is more than a quarter.
    for state in [
        BatchState::Incrementing,
        BatchState::Doubling,
        BatchState::Tuning { min: 4, max: 64 },
        BatchState::Stable(16),
    ] {
        let next = batch(state, 16).after_wave(10, 3);
        assert_eq!(next.size, 8);
        assert_eq!(next.state, state);
    }
}

#[test]
fn halving_rounds_down() {
    assert_eq!(batch(BatchState::Doubling, 9).after_wave(10, 3).size, 4);
    assert_eq!(batch(BatchState::Doubling, 17).after_wave(10, 3).size, 8);
    assert_eq!(batch(BatchState::Incrementing, 1001).after_wave(10, 3).size, 500);
}

#[test]
fn healthy_wave_doubles_while_doubling() {
    let next = batch(BatchState::Doubling, 16).after_wave(10, 0);
    assert_eq!(next.size, 32);
    assert_eq!(next.state, BatchState::Doubling);
    assert_eq!(batch(BatchState::Doubling, 1).after_wave(1, 0).size, 2);
    assert_eq!(batch(BatchState::Doubling, 7).after_wave(10, 0).size, 14);
}

#[test]
fn healthy_wave_adds_one_while_incrementing() {
    let next = batch(BatchState::Incrementing, 16).after_wave(10, 0);
    assert_eq!(next.size, 17);
    assert_eq!(next.state, BatchState::Incrementing);
    assert_eq!(Batch::new().after_wave(1, 0).size, 2);
}

#[test]
fn tuning_and_stable_hold_the_size() {
    let tuning = BatchState::Tuning { min: 2, max: 40 };
    assert_eq!(batch(tuning, 20).after_wave(20, 0), batch(tuning, 20));
    assert_eq!(batch(BatchState::Stable(20), 20).after_wave(20, 5), batch(BatchState::Stable(20), 20));
    assert_eq!(batch(BatchState::Stable(3), 3).after_wave(3, 3), batch(BatchState::Stable(3), 3));
}

#[test]
fn exactly_a_quarter_of_errors_is_still_healthy() {
    // 5 of 20 is exactly 25%: not more than a quarter.
    assert_eq!(batch(BatchState::Doubling, 20).after_wave(20, 5).size, 40);
    // 6 of 20 is more.
    assert_eq!(batch(BatchState::Doubling, 20).after_wave(20, 6).size, 10);
    // 3 of 11: 12 > 11.
    assert_eq!(batch(BatchState::Incrementing, 11).after_wave(11, 3).size, 5);
    // 2 of 11: 8 <= 11.
    assert_eq!(batch(BatchState::Incrementing, 11).after_wave(11, 2).size, 12);
}

#[test]
fn small_waves_never_shrink() {
    // At size 8 and below the ratio is not acted upon, even when every worker failed.
    assert_eq!(MEANINGFUL_SIZE, 8);
    assert_eq!(batch(BatchState::Doubling, 8).after_wave(8, 8).size, 16);
    assert_eq!(batch(BatchState::Incrementing, 8).after_wave(8, 8).size, 9);
    assert_eq!(batch(BatchState::Incrementing, 1).after_wave(1, 1).size, 2);
    assert_eq!(batch(BatchState::Stable(8), 8).after_wave(8, 8).size, 8);
    // One above, it is.
    assert_eq!(batch(BatchState::Incrementing, 9).after_wave(9, 9).size, 4);
}

#[test]
fn a_wave_of_no_workers_with_an_error_count_shrinks_only_large_sizes() {
    assert_eq!(batch(BatchState::Doubling, 100).after_wave(0, 1).size, 50);
    assert_eq!(batch(BatchState::Doubling, 100).after_wave(0, 0).size, 200);
}

#[test]
fn must_shrink_agrees_with_the_rule() {
    assert!(batch(BatchState::Doubling, 16).must_shrink(10, 3));
    assert!(!batch(BatchState::Doubling, 16).must_shrink(10, 2));
    assert!(!batch(BatchState::Doubling, 8).must_shrink(10, 10));
    assert!(batch(BatchState::Stable(9), 9).must_shrink(4, 2));
    assert!(!batch(BatchState::Stable(9), 9).must_shrink(4, 1));
    // Counts near the top of the machine word do not overflow.
    assert!(batch(BatchState::Doubling, 16).must_shrink(usize::MAX, usize::MAX));
    assert!(!batch(BatchState::Doubling, 16).must_shrink(usize::MAX, usize::MAX / 4));
    assert!(batch(BatchState::Doubling, 16).must_shrink(usize::MAX, usize::MAX / 4 + 1));
}

#[test]
fn with_state_changes_the_regime_only() {
    let promoted = Batch::new().after_wave(1, 0).with_state(BatchState::Doubling);
    assert_eq!(promoted, batch(BatchState::Doubling, 2));
    assert_eq!(promoted.after_wave(2, 0).size, 4);
}

#[test]
fn checked_step_refuses_a_size_beyond_the_machine_word() {
    assert_eq!(batch(BatchState::Doubling, usize::MAX / 2 + 1).checked_after_wave(4, 0), None);
    assert_eq!(batch(BatchState::Incrementing, usize::MAX).checked_after_wave(4, 0), None);
    assert_eq!(
        batch(BatchState::Doubling, usize::MAX / 2).checked_after_wave(4, 0),
        Some(batch(BatchState::Doubling, usize::MAX - 1))
    );
    assert_eq!(
        batch(BatchState::Incrementing, usize::MAX).checked_after_wave(4, 4),
        Some(batch(BatchState::Incrementing, usize::MAX / 2))
    );
    assert_eq!(
        batch(BatchState::Stable(1), usize::MAX).checked_after_wave(4, 0),
        Some(batch(BatchState::Stable(1), usize::MAX))
    );
    assert_eq!(Batch::new().checked_after_wave(1, 0), Some(batch(BatchState::Incrementing, 2)));
}

#[test]
fn ramp_then_shrink_over_several_waves() {
    let mut current = Batch::new().with_state(BatchState::Doubling);
    let mut sizes = Vec::new();
    for _ in 0..5 {
        current = current.after_wave(current.size, 0);
        sizes.push(current.size);
    }
    assert_eq!(sizes, vec![2, 4, 8, 16, 32]);
    current = current.after_wave(32, 9);
    assert_eq!(current.size, 16);
    current = current.after_wave(16, 5);
    assert_eq!(current.size, 8);
    // At 8 the ratio no longer counts, and the ramp resumes.
    current = current.after_wave(8, 8);
    assert_eq!(current.size, 16);
}
