use rubato::shift_to_front;
use rubato::write_slice_at;

#[test]
fn shift_moves_tail_to_front() {
    let mut wave = vec![1.0f64, 2.0, 3.0, 4.0, 5.0, 6.0];
    shift_to_front(&mut wave, 4, 2);
    assert_eq!(wave, vec![5.0, 6.0, 3.0, 4.0, 5.0, 6.0]);
}

#[test]
fn shift_overlapping_reads_see_earlier_writes() {
    // offset smaller than count: the copy runs from the lowest index up,
    // so the later reads pick up values the shift has already moved
    let mut wave = vec![1.0f64, 2.0, 3.0, 4.0];
    shift_to_front(&mut wave, 1, 3);
    assert_eq!(wave, vec![2.0, 3.0, 4.0, 4.0]);
}

#[test]
fn shift_then_append_rolls_the_history() {
    // a driver's per-chunk bookkeeping: keep the last two samples of the
    // previous chunk, then append four fresh ones behind them
    let mut wave = vec![0.0f64, 0.0, 1.0, 2.0, 3.0, 4.0];
    shift_to_front(&mut wave, 4, 2);
    assert_eq!(wave[0], 3.0);
    assert_eq!(wave[1], 4.0);
    let fresh = vec![5.0f64, 6.0, 7.0, 8.0];
    write_slice_at(&mut wave, &fresh, 2);
    assert_eq!(wave, vec![3.0, 4.0, 5.0, 6.0, 7.0, 8.0]);
}

#[test]
fn write_slice_leaves_the_rest_alone() {
    let mut wave = vec![9.0f32; 6];
    let src = vec![7.0f32, 8.0];
    write_slice_at(&mut wave, &src, 2);
    assert_eq!(wave, vec![9.0, 9.0, 7.0, 8.0, 9.0, 9.0]);
}

#[test]
fn write_empty_slice_changes_nothing() {
    let mut wave = vec![1u64, 2, 3];
    let src: Vec<u64> = Vec::new();
    write_slice_at(&mut wave, &src, 3);
    assert_eq!(wave, vec![1, 2, 3]);
}
