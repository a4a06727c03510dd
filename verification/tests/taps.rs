use rubato::Tap;
use rubato::nearest_tap;
use rubato::nearest_taps_2;
use rubato::nearest_taps_4;
use rubato::next_tap;
use rubato::prev_tap;
use rubato::tap_of_grid;

#[test]
fn tap_of_grid_positive() {
    assert_eq!(tap_of_grid(33, 16), Tap { index: 2, subindex: 1 });
    assert_eq!(tap_of_grid(0, 16), Tap { index: 0, subindex: 0 });
}

#[test]
fn tap_of_grid_negative() {
    assert_eq!(tap_of_grid(-1, 16), Tap { index: -1, subindex: 15 });
    assert_eq!(tap_of_grid(-16, 16), Tap { index: -1, subindex: 0 });
    assert_eq!(tap_of_grid(-17, 16), Tap { index: -2, subindex: 15 });
}

#[test]
fn nearest_tap_no_carry() {
    let t = nearest_tap(3, 5, 16);
    assert_eq!(t, Tap { index: 3, subindex: 5 });
}

#[test]
fn nearest_tap_carry() {
    // rounding the cursor up to sub-position 16 of sample 3 lands on
    // sub-position 0 of sample 4
    let t = nearest_tap(3, 16, 16);
    assert_eq!(t, Tap { index: 4, subindex: 0 });
}

#[test]
fn next_tap_steps_within_bank() {
    let t = next_tap(Tap { index: 2, subindex: 14 }, 16);
    assert_eq!(t, Tap { index: 2, subindex: 15 });
}

#[test]
fn next_tap_carries_into_next_sample() {
    let t = next_tap(Tap { index: 2, subindex: 15 }, 16);
    assert_eq!(t, Tap { index: 3, subindex: 0 });
}

#[test]
fn prev_tap_borrows_from_previous_sample() {
    let t = prev_tap(Tap { index: 2, subindex: 0 }, 16);
    assert_eq!(t, Tap { index: 1, subindex: 15 });
}

#[test]
fn taps_2_bracket_the_cursor() {
    // grid point 127 is sub-position 15 of sample 7; its successor starts
    // sample 8
    let ts = nearest_taps_2(127, 16);
    assert_eq!(ts.len(), 2);
    assert_eq!(ts[0], Tap { index: 7, subindex: 15 });
    assert_eq!(ts[1], Tap { index: 8, subindex: 0 });
}

#[test]
fn taps_4_surround_the_cursor() {
    let ts = nearest_taps_4(0, 16);
    assert_eq!(ts.len(), 4);
    assert_eq!(ts[0], Tap { index: -1, subindex: 15 });
    assert_eq!(ts[1], Tap { index: 0, subindex: 0 });
    assert_eq!(ts[2], Tap { index: 0, subindex: 1 });
    assert_eq!(ts[3], Tap { index: 0, subindex: 2 });
}

#[test]
fn taps_4_with_factor_one_are_whole_samples() {
    let ts = nearest_taps_4(5, 1);
    assert_eq!(ts[0], Tap { index: 4, subindex: 0 });
    assert_eq!(ts[1], Tap { index: 5, subindex: 0 });
    assert_eq!(ts[2], Tap { index: 6, subindex: 0 });
    assert_eq!(ts[3], Tap { index: 7, subindex: 0 });
}
